//! Submitting operations, and posting packets.

use super::{
    lemma_registers_frame, too_long, Operation, OperationView, Pending, Port, PortView, Token,
    RESERVED_KEY,
};
use crate::error::{fails, Error, ErrorKind, ErrorView};
use crate::sys;
use vstd::prelude::*;

verus! {

broadcast use vstd::std_specs::hash::group_hash_axioms;

/// The kernel call that issues a request.
#[derive(Debug, Clone, Copy, PartialEq, Eq, Structural)]
pub enum Call {
    /// `ReadFile`.
    Read,
    /// `WriteFile`.
    Write,
    /// `WSARecv`.
    Receive,
    /// `WSASend`.
    Send,
    /// `AcceptEx`, into the socket named here.
    Accept(usize),
}

/// A request that the port has taken in and the caller now issues, with the
/// buffer, which the kernel has until the request completes.
#[derive(Debug)]
pub struct Request {
    /// The call to make.
    pub call: Call,
    /// The handle to make it on.
    pub handle: usize,
    /// The address of the block to make it with.
    pub block: usize,
    /// How many bytes of the buffer it covers.
    pub length: u32,
    /// The low half of the file offset, for the block.
    pub offset: u32,
    /// The high half of the file offset, for the block.
    pub offset_high: u32,
    /// The buffer, for the block.
    pub buffer: Vec<u8>,
}

/// Whether `request` issues `operation`.
pub open spec fn issues<H>(
    request: Request,
    call: Call,
    handle: usize,
    offset: u64,
    operation: OperationView<H>,
) -> bool {
    &&& request.call == call
    &&& request.handle == handle
    &&& request.block == operation.block
    &&& request.length == operation.buffer.len()
    &&& request.offset == offset_halves(offset).0
    &&& request.offset_high == offset_halves(offset).1
    &&& request.buffer@ == operation.buffer
}

/// A cancellation that the caller now asks the kernel for.
#[derive(Debug, Clone, Copy, PartialEq, Eq, Structural)]
pub struct Cancellation {
    /// The handle that the request was issued on.
    pub handle: usize,
    /// The address of the request's block.
    pub block: usize,
}

/// The words of the refusal of [`RESERVED_KEY`].
pub open spec fn reserved_key_text(what: Seq<char>) -> Seq<char> {
    what + " may not use RESERVED_KEY; the port keeps that key for its own packets"@
}

/// The refusal of [`RESERVED_KEY`] for `what`.
pub fn reserved_key_error(what: &str) -> (r: Error)
    ensures
        r@ == ErrorView::Custom(ErrorKind::InvalidInput, reserved_key_text(what@)),
{
    let mut text: String = what.to_owned();
    text.append(" may not use RESERVED_KEY; the port keeps that key for its own packets");
    Error::Custom(ErrorKind::InvalidInput, text)
}

/// A `CreateIoCompletionPort` that the caller now asks for.
#[derive(Debug, Clone, Copy, PartialEq, Eq, Structural)]
pub struct Association {
    /// The handle to associate.
    pub handle: usize,
    /// The completion port to associate it with.
    pub port: usize,
    /// The key that its operations are reported under.
    pub key: usize,
}

/// A `PostQueuedCompletionStatus` that the caller now asks for.
#[derive(Debug, Clone, Copy, PartialEq, Eq, Structural)]
pub struct Post {
    /// The completion port to post to.
    pub port: usize,
    /// The key.
    pub key: usize,
    /// The byte count.
    pub bytes: u32,
    /// The pointer, as a number.
    pub pointer: usize,
}

/// What to post to any completion port, refusing the key that a port keeps for
/// itself.
pub fn post(port: usize, key: usize, bytes: u32, pointer: usize) -> (r: Result<Post, Error>)
    ensures
        key != RESERVED_KEY ==> r == Ok::<Post, Error>(Post { port, key, bytes, pointer }),
        key == RESERVED_KEY ==> fails(
            r,
            ErrorView::Custom(ErrorKind::InvalidInput, reserved_key_text("a post"@)),
        ),
{
    if key == RESERVED_KEY {
        return Err(reserved_key_error("a post"));
    }
    Ok(Post { port, key, bytes, pointer })
}

/// The halves of a file offset, as a block holds them: the low one first.
pub open spec fn offset_halves(offset: u64) -> (u32, u32) {
    ((offset % 0x1_0000_0000) as u32, (offset / 0x1_0000_0000) as u32)
}

/// Split `offset` the way `ReadFile` and `WriteFile` look for it.
pub fn set_offset(offset: u64) -> (r: (u32, u32))
    ensures
        r == offset_halves(offset),
        r.1 * 0x1_0000_0000 + r.0 == offset,
{
    ((offset % 0x1_0000_0000) as u32, (offset / 0x1_0000_0000) as u32)
}

/// Whether an overlapped request is now outstanding, given whether the call
/// reported success and the last error if it did not. Immediate success still
/// queues a packet.
pub fn request_outstanding(succeeded: bool, last_error: u32) -> (r: Result<(), Error>)
    ensures
        succeeded || last_error == sys::error_io_pending_value() ==> r is Ok,
        !succeeded && last_error != sys::error_io_pending_value() ==> fails(
            r,
            ErrorView::Os(last_error as i32),
        ),
{
    if succeeded || last_error == sys::error_io_pending() {
        Ok(())
    } else {
        Err(Error::Os(last_error as i32))
    }
}

/// The outcome of asking the kernel to cancel one request. That it is not
/// there any more means that its packet is on its way, which is no failure.
pub fn cancel_block(succeeded: bool, last_error: u32) -> (r: Result<(), Error>)
    ensures
        succeeded || last_error == sys::error_not_found_value() ==> r is Ok,
        !succeeded && last_error != sys::error_not_found_value() ==> fails(
            r,
            ErrorView::Os(last_error as i32),
        ),
{
    if succeeded || last_error == sys::error_not_found() {
        Ok(())
    } else {
        Err(Error::Os(last_error as i32))
    }
}

impl<H> Port<H> {
    /// Whether `after` is `before` with `operation` outstanding on `handle`.
    pub open spec fn takes_in(
        before: PortView<H>,
        after: PortView<H>,
        handle: usize,
        operation: Operation<H>,
    ) -> bool {
        after == (PortView {
            outstanding: before.outstanding.insert(
                operation@.block,
                Pending { handle, held: operation@.held },
            ),
            ..before
        })
    }

    /// What to ask the kernel for to route every operation on `handle` to
    /// this port, reported under `key`.
    pub fn associate(&self, handle: usize, key: usize) -> (r: Result<Association, Error>)
        ensures
            key != RESERVED_KEY ==> r == Ok::<Association, Error>(
                Association { handle, port: self@.handle, key },
            ),
            key == RESERVED_KEY ==> fails(
                r,
                ErrorView::Custom(ErrorKind::InvalidInput, reserved_key_text("an association"@)),
            ),
    {
        if key == RESERVED_KEY {
            return Err(reserved_key_error("an association"));
        }
        Ok(Association { handle, port: self.handle, key })
    }

    /// What to post to this port: it comes back as [`Completion::Posted`] with
    /// the same three values.
    pub fn post(&self, key: usize, bytes: u32, pointer: usize) -> (r: Result<Post, Error>)
        ensures
            key != RESERVED_KEY ==> r == Ok::<Post, Error>(
                Post { port: self@.handle, key, bytes, pointer },
            ),
            key == RESERVED_KEY ==> fails(
                r,
                ErrorView::Custom(ErrorKind::InvalidInput, reserved_key_text("a post"@)),
            ),
    {
        post(self.handle, key, bytes, pointer)
    }

    /// Take in a read of the operation's whole buffer from `handle` at
    /// `offset`. The caller issues the request that is returned and tells
    /// [`Port::settle`] how that went.
    pub fn read(&mut self, handle: usize, offset: u64, operation: Operation<H>) -> (r: Result<
        Request,
        Error,
    >)
        requires
            old(self).wf(),
        ensures
            final(self).wf(),
            operation@.buffer.len() > u32::MAX ==> fails(r, too_long()) && final(self)@ == old(
                self,
            )@,
            operation@.buffer.len() <= u32::MAX ==> (r matches Ok(request) && issues(
                request,
                Call::Read,
                handle,
                offset,
                operation@,
            )) && Port::takes_in(old(self)@, final(self)@, handle, operation),
    {
        self.request(Call::Read, handle, offset, operation)
    }

    /// Take in a write of the operation's whole buffer to `handle` at
    /// `offset`. Everything said of [`Port::read`] applies.
    pub fn write(&mut self, handle: usize, offset: u64, operation: Operation<H>) -> (r: Result<
        Request,
        Error,
    >)
        requires
            old(self).wf(),
        ensures
            final(self).wf(),
            operation@.buffer.len() > u32::MAX ==> fails(r, too_long()) && final(self)@ == old(
                self,
            )@,
            operation@.buffer.len() <= u32::MAX ==> (r matches Ok(request) && issues(
                request,
                Call::Write,
                handle,
                offset,
                operation@,
            )) && Port::takes_in(old(self)@, final(self)@, handle, operation),
    {
        self.request(Call::Write, handle, offset, operation)
    }

    pub(crate) fn request(
        &mut self,
        call: Call,
        handle: usize,
        offset: u64,
        operation: Operation<H>,
    ) -> (r: Result<Request, Error>)
        requires
            old(self).wf(),
        ensures
            final(self).wf(),
            operation@.buffer.len() > u32::MAX ==> fails(r, too_long()) && final(self)@ == old(
                self,
            )@,
            operation@.buffer.len() <= u32::MAX ==> (r matches Ok(request) && issues(
                request,
                call,
                handle,
                offset,
                operation@,
            )) && Port::takes_in(old(self)@, final(self)@, handle, operation),
    {
        let length: u32 = match operation.io_range() {
            Ok(length) => length,
            Err(e) => return Err(e),
        };
        let (low, high): (u32, u32) = set_offset(offset);
        let (token, buffer): (Token, Vec<u8>) = self.submit(handle, operation);
        Ok(
            Request {
                call,
                handle,
                block: token.value(),
                length,
                offset: low,
                offset_high: high,
                buffer,
            },
        )
    }

    /// Hand `operation` to the port, before the request is issued: a
    /// completion can be dequeued the instant that the kernel accepts it, and
    /// a pointer that the table does not know is reported as a post. Returns
    /// its token and its buffer.
    pub fn submit(&mut self, handle: usize, operation: Operation<H>) -> (r: (Token, Vec<u8>))
        requires
            old(self).wf(),
        ensures
            final(self).wf(),
            r.0.address() == operation@.block,
            r.1@ == operation@.buffer,
            Port::takes_in(old(self)@, final(self)@, handle, operation),
    {
        let block: usize = operation.block;
        self.outstanding.insert(block, Pending { handle, held: operation.held });
        proof {
            lemma_registers_frame(old(self)@, self@);
            assert(self@.retired == old(self)@.retired);
        }
        (Token(block), operation.buffer)
    }

    /// What came of issuing a request. One that the kernel refused is no
    /// longer outstanding, and what it held is dropped with the error.
    pub fn settle(&mut self, token: Token, issued: Result<(), Error>) -> (r: Result<Token, Error>)
        requires
            old(self).wf(),
        ensures
            final(self).wf(),
            issued is Ok ==> r == Ok::<Token, Error>(token) && final(self)@ == old(self)@,
            issued matches Err(e) ==> r == Err::<Token, Error>(e) && final(self)@ == (PortView {
                outstanding: old(self)@.outstanding.remove(token.address()),
                ..old(self)@
            }),
    {
        match issued {
            Ok(()) => Ok(token),
            Err(e) => {
                self.outstanding.remove(&token.0);
                proof {
                    lemma_registers_frame(old(self)@, self@);
                }
                Err(e)
            },
        }
    }

    /// What to ask the kernel for to cancel an outstanding operation. This
    /// changes nothing: the operation completes later.
    pub fn cancel(&self, token: Token) -> (r: Result<Cancellation, Error>)
        requires
            self.wf(),
        ensures
            self@.outstanding.contains_key(token.address()) ==> r == Ok::<Cancellation, Error>(
                Cancellation {
                    handle: self@.outstanding[token.address()].handle,
                    block: token.address(),
                },
            ),
            !self@.outstanding.contains_key(token.address()) ==> fails(
                r,
                ErrorView::Simple(ErrorKind::NotFound),
            ),
    {
        match self.outstanding.get(&token.0) {
            Some(pending) => Ok(Cancellation { handle: pending.handle, block: token.0 }),
            None => Err(Error::Simple(ErrorKind::NotFound)),
        }
    }

    /// How many operations are submitted and not yet dequeued.
    pub fn outstanding(&self) -> (r: usize)
        ensures
            r == self@.outstanding.len(),
    {
        self.outstanding.len()
    }

    /// Whether a packet with this key and pointer completes an outstanding
    /// operation, so that its block may be read.
    pub fn owns(&self, key: usize, pointer: usize) -> (r: bool)
        ensures
            r == (key != RESERVED_KEY && self@.outstanding.contains_key(pointer)),
    {
        key != RESERVED_KEY && self.outstanding.contains_key(&pointer)
    }
}

} // verus!
