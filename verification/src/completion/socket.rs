//! Socket submissions for a [`Port`]: accept, receive and send.
//!
//! A socket is a kernel handle underneath, and the completion port treats it
//! as one.

use super::{
    issues, report, reserved_key_text, too_long, Accepting, Association, Call, Completion, Held,
    Operation, OperationView, Packet, Port, PortView, Request, RESERVED_KEY,
};
use crate::error::{fails, Error, ErrorKind, ErrorView};
use crate::sys;
use vstd::prelude::*;

verus! {

/// How much of an accept operation's buffer each address takes: the 128 bytes
/// of the largest socket address and the 16 that `AcceptEx` wants after it.
pub const ADDRESS_LEN: usize = 128 + 16;

/// The smallest buffer that an accept operation may carry: room for the local
/// and the remote address.
pub const ACCEPT_BUFFER_LEN: usize = 2 * ADDRESS_LEN;

/// What to ask the kernel for to route every operation on `socket` to `port`,
/// reported under `key`.
pub fn associate<H>(port: &Port<H>, socket: usize, key: usize) -> (r: Result<Association, Error>)
    ensures
        key != RESERVED_KEY ==> r == Ok::<Association, Error>(
            Association { handle: socket, port: port@.handle, key },
        ),
        key == RESERVED_KEY ==> fails(
            r,
            ErrorView::Custom(ErrorKind::InvalidInput, reserved_key_text("an association"@)),
        ),
{
    port.associate(socket, key)
}

/// Take in a receive into the operation's whole buffer.
pub fn recv<H>(port: &mut Port<H>, socket: usize, operation: Operation<H>) -> (r: Result<
    Request,
    Error,
>)
    requires
        old(port).wf(),
    ensures
        final(port).wf(),
        operation@.buffer.len() > u32::MAX ==> fails(r, too_long()) && final(port)@ == old(port)@,
        operation@.buffer.len() <= u32::MAX ==> (r matches Ok(request) && issues(
            request,
            Call::Receive,
            socket,
            0,
            operation@,
        )) && Port::takes_in(old(port)@, final(port)@, socket, operation),
{
    port.request(Call::Receive, socket, 0, operation)
}

/// Take in a send of the operation's whole buffer.
pub fn send<H>(port: &mut Port<H>, socket: usize, operation: Operation<H>) -> (r: Result<
    Request,
    Error,
>)
    requires
        old(port).wf(),
    ensures
        final(port).wf(),
        operation@.buffer.len() > u32::MAX ==> fails(r, too_long()) && final(port)@ == old(port)@,
        operation@.buffer.len() <= u32::MAX ==> (r matches Ok(request) && issues(
            request,
            Call::Send,
            socket,
            0,
            operation@,
        )) && Port::takes_in(old(port)@, final(port)@, socket, operation),
{
    port.request(Call::Send, socket, 0, operation)
}

/// Whether an overlapped Winsock call left its request outstanding, from what
/// it returned and the last error. Immediate success still queues a packet.
pub fn outstanding(ret: i32, last_error: i32) -> (r: Result<(), Error>)
    ensures
        ret != sys::socket_error_value() || last_error == sys::wsa_io_pending_value() ==> r is Ok,
        ret == sys::socket_error_value() && last_error != sys::wsa_io_pending_value() ==> fails(
            r,
            ErrorView::Os(last_error),
        ),
{
    if ret != sys::socket_error() || last_error == sys::wsa_io_pending() {
        Ok(())
    } else {
        Err(Error::Os(last_error))
    }
}

/// Whether an `AcceptEx` left its request outstanding.
pub fn accept_outstanding(succeeded: bool, last_error: i32) -> (r: Result<(), Error>)
    ensures
        succeeded || last_error == sys::wsa_io_pending_value() ==> r is Ok,
        !succeeded && last_error != sys::wsa_io_pending_value() ==> fails(
            r,
            ErrorView::Os(last_error),
        ),
{
    if succeeded {
        Ok(())
    } else {
        outstanding(sys::socket_error(), last_error)
    }
}

/// The address of `AcceptEx`, from what the provider of the listening socket
/// answered: what `WSAIoctl` returned, the last error, and what it wrote.
pub fn accept_ex(ret: i32, last_error: i32, function: usize) -> (r: Result<usize, Error>)
    ensures
        ret == sys::socket_error_value() ==> fails(r, ErrorView::Os(last_error)),
        ret != sys::socket_error_value() && function == 0 ==> fails(
            r,
            ErrorView::Custom(ErrorKind::Other, "the socket's provider has no AcceptEx"@),
        ),
        ret != sys::socket_error_value() && function != 0 ==> r == Ok::<usize, Error>(function),
{
    if ret == sys::socket_error() {
        return Err(Error::Os(last_error));
    }
    if function == 0 {
        return Err(Error::new(ErrorKind::Other, "the socket's provider has no AcceptEx"));
    }
    Ok(function)
}

/// The refusal of an accept whose operation holds something.
pub open spec fn slot_occupied() -> ErrorView {
    ErrorView::Custom(
        ErrorKind::InvalidInput,
        "an accept operation keeps the accepted socket in the held slot, which is occupied"@,
    )
}

/// The refusal of an accept whose buffer has no room for the addresses.
pub open spec fn too_small() -> ErrorView {
    ErrorView::Custom(
        ErrorKind::InvalidInput,
        "an accept operation needs a buffer of at least 288 bytes"@,
    )
}

/// Whether an operation can carry an accept.
pub fn check_accept<H>(operation: &Operation<H>) -> (r: Result<(), Error>)
    ensures
        operation@.held is Some ==> fails(r, slot_occupied()),
        operation@.held is None && operation@.buffer.len() < ACCEPT_BUFFER_LEN ==> fails(
            r,
            too_small(),
        ),
        operation@.held is None && operation@.buffer.len() >= ACCEPT_BUFFER_LEN ==> r is Ok,
{
    if operation.holds_something() {
        return Err(
            Error::new(
                ErrorKind::InvalidInput,
                "an accept operation keeps the accepted socket in the held slot, which is occupied",
            ),
        );
    }
    if operation.buffer().len() < ACCEPT_BUFFER_LEN {
        return Err(
            Error::new(
                ErrorKind::InvalidInput,
                "an accept operation needs a buffer of at least 288 bytes",
            ),
        );
    }
    Ok(())
}

/// Whether `after` is `before` with `operation` outstanding on `listener`,
/// holding the socket `accepted`.
pub open spec fn takes_in_accept<H>(
    before: PortView<H>,
    after: PortView<H>,
    listener: usize,
    accepted: usize,
    operation: Operation<H>,
) -> bool {
    let block = operation@.block;
    let pending = after.outstanding[block];
    &&& after.outstanding.contains_key(block)
    &&& pending.handle == listener
    &&& pending.held matches Some(Held::Accepting(accepting))
    &&& accepting@ == accepted
    &&& after == (PortView { outstanding: before.outstanding.insert(block, pending), ..before })
}

/// Take in an accept on `listener`, into `accepted`. The accepted socket is
/// kept in the operation's held slot until [`finish_accept`] takes it out.
///
/// `function` is what [`accept_ex`] said of the listener's provider.
pub fn accept<H>(
    port: &mut Port<H>,
    listener: usize,
    accepted: usize,
    operation: Operation<H>,
    function: Result<usize, Error>,
) -> (r: Result<Request, Error>)
    requires
        old(port).wf(),
    ensures
        final(port).wf(),
        r is Err ==> final(port)@ == old(port)@,
        operation@.held is Some ==> fails(r, slot_occupied()),
        operation@.held is None && operation@.buffer.len() < ACCEPT_BUFFER_LEN ==> fails(
            r,
            too_small(),
        ),
        operation@.held is None && operation@.buffer.len() >= ACCEPT_BUFFER_LEN ==> {
            &&& function matches Err(e) ==> r == Err::<Request, Error>(e)
            &&& function is Ok && operation@.buffer.len() > u32::MAX ==> fails(r, too_long())
            &&& function is Ok && operation@.buffer.len() <= u32::MAX ==> {
                &&& r matches Ok(request)
                &&& issues(request, Call::Accept(accepted), listener, 0, operation@)
                &&& takes_in_accept(old(port)@, final(port)@, listener, accepted, operation)
            }
        },
{
    if let Err(e) = check_accept(&operation) {
        return Err(e);
    }
    if let Err(e) = function {
        return Err(e);
    }
    if let Err(e) = operation.io_range() {
        return Err(e);
    }
    let mut operation: Operation<H> = operation;
    operation.hold(Held::Accepting(Accepting::new(accepted)));
    port.request(Call::Accept(accepted), listener, 0, operation)
}

/// A `setsockopt` of `SO_UPDATE_ACCEPT_CONTEXT` that the caller now asks for.
#[derive(Debug, Clone, Copy, PartialEq, Eq, Structural)]
pub struct AcceptContext {
    /// The accepted socket.
    pub socket: usize,
    /// The socket it was accepted on.
    pub listener: usize,
}

/// Take the accepted socket out of a completed accept operation. What an
/// operation that is no accept holds stays where it is.
pub fn finish_accept<H>(listener: usize, operation: &mut Operation<H>) -> (r: Result<
    AcceptContext,
    Error,
>)
    ensures
        match old(operation)@.held {
            None => fails(
                r,
                ErrorView::Custom(
                    ErrorKind::InvalidInput,
                    "not an accept operation: nothing is held"@,
                ),
            ) && final(operation)@ == old(operation)@,
            Some(Held::Item(_)) => fails(
                r,
                ErrorView::Custom(
                    ErrorKind::InvalidInput,
                    "not an accept operation: what it holds is not an accepted socket"@,
                ),
            ) && final(operation)@ == old(operation)@,
            Some(Held::Accepting(accepting)) => r == Ok::<AcceptContext, Error>(
                AcceptContext { socket: accepting@, listener },
            ) && final(operation)@ == (OperationView {
                held: None::<Held<H>>,
                ..old(operation)@
            }),
        },
{
    match operation.take_held() {
        None => Err(
            Error::new(ErrorKind::InvalidInput, "not an accept operation: nothing is held"),
        ),
        Some(Held::Accepting(accepting)) => Ok(
            AcceptContext { socket: accepting.socket(), listener },
        ),
        Some(Held::Item(item)) => {
            operation.hold(Held::Item(item));
            Err(
                Error::new(
                    ErrorKind::InvalidInput,
                    "not an accept operation: what it holds is not an accepted socket",
                ),
            )
        },
    }
}

/// The accepted socket once its context has been updated, from what
/// `setsockopt` returned and the last error. On failure the socket is to be
/// closed.
pub fn context_updated(context: AcceptContext, ret: i32, last_error: i32) -> (r: Result<
    usize,
    Error,
>)
    ensures
        ret == sys::socket_error_value() ==> fails(r, ErrorView::Os(last_error)),
        ret != sys::socket_error_value() ==> r == Ok::<usize, Error>(context.socket),
{
    if ret == sys::socket_error() {
        return Err(Error::Os(last_error));
    }
    Ok(context.socket)
}

/// A completed accept hands back, through [`finish_accept`], the socket that
/// it was submitted with: the held slot of the operation that the port reports
/// is the one that the accept filled.
pub proof fn an_accept_keeps_its_socket<H>(
    before: PortView<H>,
    after: PortView<H>,
    listener: usize,
    accepted: usize,
    operation: Operation<H>,
    packet: Packet,
)
    requires
        takes_in_accept(before, after, listener, accepted, operation),
        packet.key != RESERVED_KEY,
        packet.pointer == operation@.block,
    ensures
        report(after, packet) matches Some(Completion::Operation { operation: done, .. }) && (
        done@.held matches Some(Held::Accepting(accepting)) && accepting@ == accepted)
            && done@.block == operation@.block && done@.handle == listener,
{
    broadcast use super::an_operation_has_its_parts;

}

} // verus!
