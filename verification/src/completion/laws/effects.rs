//! What each call on a completion port does, in terms of what goes in and what
//! comes out.

use crate::completion::{
    bridged_post, budget, cancel_block, drain_step, drained, post, report, reports,
    request_outstanding, reserved_key_error, resignal, set_offset, status_to_result, without,
    Association, BridgedKind, Call, Cancellation, Completion, Dequeued, Drain, FileTime, Held, Left,
    Operation, Packet, Pending, Port, PortView, Post, Registered, Registering, Request, SetTimer,
    SignalRegistration, Teardown, Timer, Token,
};
use crate::completion::socket::{
    accept, accept_ex, accept_outstanding, context_updated, finish_accept, outstanding, recv, send,
    AcceptContext,
};
use crate::error::{Error, ErrorKind, ErrorView};
use crate::waitable::{next_probe, Answer, Probe, Refusal};
use std::collections::HashMap;
use vstd::prelude::*;

verus! {

/// Whether two ports differ in nothing but their operations.
pub open spec fn bridged_alike<H>(a: PortView<H>, b: PortView<H>) -> bool {
    &&& a.handle == b.handle
    &&& a.signals == b.signals
    &&& a.bridged == b.bridged
    &&& a.next_token == b.next_token
    &&& a.retired == b.retired
}

/// Whether `after` has one more operation outstanding than `before`, on
/// `handle`, and each other one as it was.
pub open spec fn one_more<H>(
    before: PortView<H>,
    after: PortView<H>,
    handle: usize,
    operation: Operation<H>,
) -> bool {
    &&& bridged_alike(before, after)
    &&& after.outstanding.contains_key(operation@.block)
    &&& after.outstanding[operation@.block].handle == handle
    &&& after.outstanding[operation@.block].held == operation@.held
    &&& forall|b: usize|
        b != operation@.block ==> #[trigger] after.outstanding.contains_key(b)
            == before.outstanding.contains_key(b)
    &&& forall|b: usize|
        b != operation@.block && #[trigger] before.outstanding.contains_key(b)
            ==> after.outstanding[b] == before.outstanding[b]
}

/// Whether a request covers the whole buffer of `operation`, at `offset`.
pub open spec fn covers<H>(request: Request, operation: Operation<H>, offset: u64) -> bool {
    &&& request.offset_high * 0x1_0000_0000 + request.offset == offset
    &&& request.length == operation@.buffer.len()
    &&& request.buffer@ == operation@.buffer
    &&& request.block == operation@.block
}

/// A read is issued on its handle, at its offset, for its whole buffer, unless
/// the buffer is too long for one request, in which case nothing happens.
pub proof fn a_read_is_issued_where_it_was_asked_for<H>(
    port: &mut Port<H>,
    handle: usize,
    offset: u64,
    operation: Operation<H>,
    r: Result<Request, Error>,
)
    requires
        call_ensures(Port::<H>::read, (port, handle, offset, operation), r),
    ensures
        operation@.buffer.len() < 0x1_0000_0000 ==> {
            &&& r matches Ok(request)
            &&& request.call == Call::Read
            &&& request.handle == handle
            &&& covers(request, operation, offset)
            &&& one_more(old(port)@, final(port)@, handle, operation)
        },
        operation@.buffer.len() >= 0x1_0000_0000 ==> {
            &&& final(port)@ == old(port)@
            &&& r matches Err(e)
            &&& e@ == ErrorView::Custom(
                ErrorKind::InvalidInput,
                "an operation's buffer must fit in a u32 length"@,
            )
        },
{
}

/// A write is issued on its handle, at its offset, for its whole buffer, unless
/// the buffer is too long for one request, in which case nothing happens.
pub proof fn a_write_is_issued_where_it_was_asked_for<H>(
    port: &mut Port<H>,
    handle: usize,
    offset: u64,
    operation: Operation<H>,
    r: Result<Request, Error>,
)
    requires
        call_ensures(Port::<H>::write, (port, handle, offset, operation), r),
    ensures
        operation@.buffer.len() < 0x1_0000_0000 ==> {
            &&& r matches Ok(request)
            &&& request.call == Call::Write
            &&& request.handle == handle
            &&& covers(request, operation, offset)
            &&& one_more(old(port)@, final(port)@, handle, operation)
        },
        operation@.buffer.len() >= 0x1_0000_0000 ==> {
            &&& final(port)@ == old(port)@
            &&& r matches Err(e)
            &&& e@ == ErrorView::Custom(
                ErrorKind::InvalidInput,
                "an operation's buffer must fit in a u32 length"@,
            )
        },
{
}

/// The same of every kind of request: whatever the call, a request that issues
/// an operation spells the offset that was given and covers the whole buffer.
pub proof fn every_request_spells_its_offset<H>(
    request: Request,
    call: Call,
    handle: usize,
    offset: u64,
    operation: Operation<H>,
)
    requires
        crate::completion::issues(request, call, handle, offset, operation@),
    ensures
        request.call == call,
        request.handle == handle,
        covers(request, operation, offset),
{
}

/// Two requests at different offsets differ in what the kernel is told.
pub proof fn different_offsets_are_told_apart<H>(
    a: Request,
    b: Request,
    call: Call,
    handle: usize,
    x: u64,
    y: u64,
    operation: Operation<H>,
)
    requires
        crate::completion::issues(a, call, handle, x, operation@),
        crate::completion::issues(b, call, handle, y, operation@),
        x != y,
    ensures
        a.offset != b.offset || a.offset_high != b.offset_high,
{
}

/// An offset is the sum of its halves, the high one times 2 to the 32.
pub proof fn an_offset_is_the_sum_of_its_halves(offset: u64, r: (u32, u32))
    requires
        call_ensures(set_offset, (offset,), r),
    ensures
        r.1 * 0x1_0000_0000 + r.0 == offset,
{
}

/// Handing an operation to a port makes it outstanding, with its token and its
/// buffer returned.
pub proof fn a_submission_takes_one_operation_in<H>(
    port: &mut Port<H>,
    handle: usize,
    operation: Operation<H>,
    r: (Token, Vec<u8>),
)
    requires
        call_ensures(Port::<H>::submit, (port, handle, operation), r),
    ensures
        r.0.address() == operation@.block,
        r.1@ == operation@.buffer,
        one_more(old(port)@, final(port)@, handle, operation),
{
}

/// A request that was issued stays outstanding; one that was refused is out
/// again, and nothing else changes.
pub proof fn a_refused_request_is_taken_out<H>(
    port: &mut Port<H>,
    token: Token,
    issued: Result<(), Error>,
    r: Result<Token, Error>,
)
    requires
        call_ensures(Port::<H>::settle, (port, token, issued), r),
    ensures
        bridged_alike(old(port)@, final(port)@),
        issued is Ok ==> r == Ok::<Token, Error>(token) && final(port)@ == old(port)@,
        issued matches Err(e) ==> {
            &&& r == Err::<Token, Error>(e)
            &&& !final(port)@.outstanding.contains_key(token.address())
            &&& forall|b: usize|
                b != token.address() ==> #[trigger] final(port)@.outstanding.contains_key(b)
                    == old(port)@.outstanding.contains_key(b)
            &&& forall|b: usize|
                b != token.address() && #[trigger] old(port)@.outstanding.contains_key(b)
                    ==> final(port)@.outstanding[b] == old(port)@.outstanding[b]
        },
{
}

/// A cancellation names the block and the handle that the operation was
/// submitted on; a token of nothing outstanding is not found.
pub proof fn a_cancellation_names_its_operation<H>(
    port: &Port<H>,
    token: Token,
    r: Result<Cancellation, Error>,
)
    requires
        call_ensures(Port::<H>::cancel, (port, token), r),
    ensures
        r is Ok <==> port@.outstanding.contains_key(token.address()),
        r matches Ok(c) ==> c.block == token.address() && c.handle
            == port@.outstanding[token.address()].handle,
        r matches Err(e) ==> e@ == ErrorView::Simple(ErrorKind::NotFound),
{
}

/// The count of outstanding operations, and which packet completes one of them.
pub proof fn an_outstanding_operation_is_known<H>(
    port: &Port<H>,
    count: usize,
    key: usize,
    pointer: usize,
    owned: bool,
)
    requires
        call_ensures(Port::<H>::outstanding, (port,), count),
        call_ensures(Port::<H>::owns, (port, key, pointer), owned),
    ensures
        count == port@.outstanding.dom().len(),
        owned <==> key != usize::MAX && port@.outstanding.dom().contains(pointer),
{
}

/// A key is associated as it was given, with this port, unless it is the
/// reserved one.
pub proof fn an_association_keeps_its_key<H>(
    port: &Port<H>,
    handle: usize,
    key: usize,
    r: Result<Association, Error>,
    s: Result<Association, Error>,
)
    requires
        call_ensures(Port::<H>::associate, (port, handle, key), r),
        call_ensures(crate::completion::socket::associate::<H>, (port, handle, key), s),
    ensures
        r is Ok <==> key != usize::MAX,
        r matches Ok(a) ==> a.handle == handle && a.port == port@.handle && a.key == key,
        r matches Err(e) ==> e@ == ErrorView::Custom(
            ErrorKind::InvalidInput,
            "an association"@
                + " may not use RESERVED_KEY; the port keeps that key for its own packets"@,
        ),
        s is Ok <==> r is Ok,
        s matches Ok(a) ==> r == Ok::<Association, Error>(a),
        s matches Err(e) ==> (r matches Err(d) && e@ == d@),
{
}

/// A post carries what it was given, to the port that it was given for, unless
/// its key is the reserved one.
pub proof fn a_post_carries_what_it_was_given<H>(
    port: &Port<H>,
    other: usize,
    key: usize,
    bytes: u32,
    pointer: usize,
    r: Result<Post, Error>,
    s: Result<Post, Error>,
)
    requires
        call_ensures(Port::<H>::post, (port, key, bytes, pointer), r),
        call_ensures(post, (other, key, bytes, pointer), s),
    ensures
        r is Ok <==> key != usize::MAX,
        s is Ok <==> key != usize::MAX,
        r matches Ok(p) ==> p.port == port@.handle && p.key == key && p.bytes == bytes && p.pointer
            == pointer,
        s matches Ok(p) ==> p.port == other && p.key == key && p.bytes == bytes && p.pointer
            == pointer,
        r matches Err(e) ==> e@ == ErrorView::Custom(
            ErrorKind::InvalidInput,
            "a post"@ + " may not use RESERVED_KEY; the port keeps that key for its own packets"@,
        ),
        s matches Err(e) ==> (r matches Err(d) && e@ == d@),
{
}

/// The refusal of the reserved key says what was refused, and then why.
pub proof fn a_refused_key_says_what_for(what: &str, r: Error)
    requires
        call_ensures(reserved_key_error, (what,), r),
    ensures
        r@ == ErrorView::Custom(
            ErrorKind::InvalidInput,
            what@ + " may not use RESERVED_KEY; the port keeps that key for its own packets"@,
        ),
{
}

/// A request is outstanding when it was accepted or is pending, and a
/// cancellation is no failure when there was nothing left to cancel.
pub proof fn pending_and_gone_are_no_failures(
    succeeded: bool,
    last_error: u32,
    r: Result<(), Error>,
    c: Result<(), Error>,
)
    requires
        call_ensures(request_outstanding, (succeeded, last_error), r),
        call_ensures(cancel_block, (succeeded, last_error), c),
    ensures
        r is Ok <==> succeeded || last_error == 997,
        c is Ok <==> succeeded || last_error == 1168,
        r matches Err(e) ==> e@ == ErrorView::Os(last_error as i32),
        c matches Err(e) ==> e@ == ErrorView::Os(last_error as i32),
{
}

/// Bit 31 of a number decides on the upper half of its lowest 32 bits.
proof fn lemma_sign_bit(word: u64)
    ensures
        word & 0x8000_0000 != 0 <==> word as int % 0x1_0000_0000 >= 0x8000_0000,
{
    assert(word & 0x8000_0000 != 0 <==> word % 0x1_0000_0000 >= 0x8000_0000) by (bit_vector);
}

/// A status is a failure when its lowest 32 bits, as a signed number, are
/// negative: bit 31 is set. Success reports the bytes, failure the code.
pub proof fn bit_31_of_a_status_says_failure(
    status: usize,
    bytes: u32,
    code: u32,
    r: Result<usize, Error>,
)
    requires
        call_ensures(status_to_result, (status, bytes, code), r),
    ensures
        r is Err <==> status as u64 & 0x8000_0000 != 0,
        r matches Ok(n) ==> n == bytes,
        r matches Err(e) ==> e@ == ErrorView::Os(code as i32),
{
    lemma_sign_bit(status as u64);
}

/// What one packet is reported as: its token's key, as a signal or as a timer,
/// for a packet of the port's own; the end of the operation whose block it
/// names; or a post with its values. A token that is not live reports nothing.
pub proof fn a_packet_is_told_apart_by_key_and_pointer<H>(port: PortView<H>, packet: Packet)
    ensures
        packet.key == usize::MAX && !port.bridged.contains_key(packet.pointer) ==> report(
            port,
            packet,
        ) is None,
        packet.key == usize::MAX && port.bridged.contains_key(packet.pointer) ==> ({
            let key = port.bridged[packet.pointer].key;
            match port.bridged[packet.pointer].kind {
                BridgedKind::Signal => report(port, packet) == Some(
                    Completion::<H>::Signal { key },
                ),
                BridgedKind::Timer => report(port, packet) == Some(Completion::<H>::Timer { key }),
            }
        }),
        packet.key != usize::MAX && !port.outstanding.contains_key(packet.pointer) ==> report(
            port,
            packet,
        ) == Some(
            Completion::<H>::Posted {
                key: packet.key,
                bytes: packet.bytes,
                pointer: packet.pointer,
            },
        ),
        packet.key != usize::MAX && port.outstanding.contains_key(packet.pointer) ==> {
            &&& report(port, packet) matches Some(Completion::Operation { key, result, operation })
            &&& key == packet.key
            &&& operation@.block == packet.pointer
            &&& operation@.buffer == packet.buffer@
            &&& operation@.handle == port.outstanding[packet.pointer].handle
            &&& operation@.held == port.outstanding[packet.pointer].held
            &&& packet.status as u64 & 0x8000_0000 != 0 ==> result == Err::<usize, Error>(
                Error::Os(packet.code as i32),
            )
            &&& packet.status as u64 & 0x8000_0000 == 0 ==> result == Ok::<usize, Error>(
                packet.bytes as usize,
            )
        },
{
    broadcast use crate::completion::an_operation_has_its_parts;

    lemma_sign_bit(packet.status as u64);
}

/// What one packet leaves of a port: all of it, but for the operation that it
/// completes.
pub proof fn a_packet_takes_out_its_own_operation<H>(port: PortView<H>, packet: Packet)
    ensures
        bridged_alike(port, without(port, packet)),
        packet.key == usize::MAX ==> without(port, packet) == port,
        packet.key != usize::MAX ==> !without(port, packet).outstanding.contains_key(
            packet.pointer,
        ),
        forall|b: usize|
            b != packet.pointer ==> #[trigger] without(port, packet).outstanding.contains_key(b)
                == port.outstanding.contains_key(b),
        forall|b: usize|
            b != packet.pointer && #[trigger] port.outstanding.contains_key(b) ==> without(
                port,
                packet,
            ).outstanding[b] == port.outstanding[b],
{
}

/// An empty batch does nothing, a batch of one does what its packet does, and
/// any other is its parts one after the other.
pub proof fn a_batch_is_its_packets_one_by_one<H>(
    port: PortView<H>,
    packet: Packet,
    first: Seq<Packet>,
    second: Seq<Packet>,
)
    ensures
        reports(port, seq![]) == Seq::<Completion<H>>::empty(),
        drained(port, seq![]) == port,
        drained(port, seq![packet]) == without(port, packet),
        reports(port, seq![packet]) == match report(port, packet) {
            Some(completion) => seq![completion],
            None => seq![],
        },
        drained(port, first + second) == drained(drained(port, first), second),
        reports(port, first + second) == reports(port, first) + reports(
            drained(port, first),
            second,
        ),
{
    crate::completion::laws::batches_may_be_cut_anywhere(port, first, second);
    reveal_with_fuel(reports, 2);
    reveal_with_fuel(drained, 2);
    assert(seq![packet].drop_last() =~= seq![]);
    assert(reports(port, seq![packet]) =~= match report(port, packet) {
        Some(completion) => seq![completion],
        None => seq![],
    });
}

/// Dequeuing appends what the packets report, in their order, and counts it. A
/// timeout appends nothing and is no failure; any other failure is passed on.
pub proof fn a_dequeue_appends_what_it_reports<H>(
    port: &mut Port<H>,
    batch: Dequeued,
    completions: &mut Vec<Completion<H>>,
    r: Result<usize, Error>,
)
    requires
        old(port).wf(),
        call_ensures(Port::<H>::dequeue_batch, (port, batch, completions), r),
    ensures
        batch matches Dequeued::Packets(packets) ==> {
            &&& final(completions)@ == old(completions)@ + reports(old(port)@, packets@)
            &&& final(port)@ == drained(old(port)@, packets@)
            &&& r matches Ok(n)
            &&& old(completions)@.len() + n == final(completions)@.len()
            &&& n <= packets@.len()
        },
        batch matches Dequeued::Failed(code) ==> {
            &&& final(completions)@ == old(completions)@
            &&& final(port)@ == old(port)@
            &&& code == 258 ==> r == Ok::<usize, Error>(0)
            &&& code != 258 ==> (r matches Err(e) && e@ == ErrorView::Os(code as i32))
        },
{
    if let Dequeued::Packets(packets) = batch {
        crate::completion::laws::a_batch_reports_no_more_than_it_holds(old(port)@, packets@);
        assert(packets@.len() == packets.len());
    }
}

/// A round of a wait does what a dequeue does. It ends the wait when something
/// was appended, or when there was no time left, and goes round again otherwise.
pub proof fn a_round_of_a_wait_is_a_dequeue<H>(
    port: &mut Port<H>,
    budget: u32,
    batch: Dequeued,
    completions: &mut Vec<Completion<H>>,
    r: Result<Option<usize>, Error>,
)
    requires
        old(port).wf(),
        call_ensures(Port::<H>::wait, (port, budget, batch, completions), r),
    ensures
        batch matches Dequeued::Packets(packets) ==> {
            &&& final(completions)@ == old(completions)@ + reports(old(port)@, packets@)
            &&& final(port)@ == drained(old(port)@, packets@)
            &&& r is Ok
        },
        batch matches Dequeued::Failed(code) ==> {
            &&& final(completions)@ == old(completions)@
            &&& final(port)@ == old(port)@
            &&& r is Err <==> code != 258
        },
        r matches Ok(Some(n)) ==> old(completions)@.len() + n == final(completions)@.len() && (n > 0
            || budget == 0),
        r matches Ok(None) ==> final(completions)@.len() == old(completions)@.len() && budget > 0,
        r matches Err(e) ==> (batch matches Dequeued::Failed(code) && e@ == ErrorView::Os(
            code as i32,
        )),
{
    if let Dequeued::Packets(packets) = batch {
        crate::completion::laws::a_batch_reports_no_more_than_it_holds(old(port)@, packets@);
        assert(packets@.len() == packets.len());
    }
}

/// A dequeue is told the whole milliseconds that are left: no more, and less
/// than one less. Only what does not fit is cut, and only a wait for ever is
/// told to wait for ever.
pub proof fn a_dequeue_is_told_the_milliseconds_left(left: Left, r: u32)
    requires
        call_ensures(budget, (left,), r),
    ensures
        left == Left::Forever ==> r == 0xFFFF_FFFF,
        left == Left::Nothing ==> r == 0,
        left matches Left::Nanoseconds(n) ==> r < 0xFFFF_FFFF && r * 1_000_000 <= n && (n < r
            * 1_000_000 + 1_000_000 || r == 0xFFFF_FFFE),
{
}

/// A step of a registration: a probe that goes on asks the next question; a
/// handle that can be waited on gets the token that is minted next, unless it is
/// registered; one that cannot is refused. Nothing is registered by it.
pub proof fn a_probe_registers_nothing<H>(
    port: &mut Port<H>,
    handle: usize,
    key: usize,
    debug: bool,
    probe: Probe,
    answer: Answer,
    r: Registering,
)
    requires
        old(port).wf(),
        old(port)@.next_token < usize::MAX,
        call_ensures(
            Port::<H>::register,
            (port, handle, key, debug, Registering::Probe(probe), Registered::Probe(answer)),
            r,
        ),
    ensures
        final(port)@.handle == old(port)@.handle,
        final(port)@.signals == old(port)@.signals,
        final(port)@.bridged == old(port)@.bridged,
        final(port)@.outstanding == old(port)@.outstanding,
        final(port)@.retired == old(port)@.retired,
        match next_probe(probe, debug, answer) {
            Probe::Waitable => if old(port)@.signals.contains_key(handle) {
                &&& final(port)@.next_token == old(port)@.next_token
                &&& r matches Registering::Done(Err(e))
                &&& e@ == ErrorView::Simple(ErrorKind::AlreadyExists)
            } else {
                &&& final(port)@.next_token == old(port)@.next_token + 1
                &&& r matches Registering::RegisterWait { token }
                &&& token == old(port)@.next_token
                &&& !old(port)@.bridged.contains_key(token)
                &&& !old(port)@.retired.contains(token)
            },
            Probe::Refused(refusal) => {
                &&& final(port)@.next_token == old(port)@.next_token
                &&& r matches Registering::Done(Err(e))
                &&& e@ == ErrorView::Custom(
                    ErrorKind::InvalidInput,
                    match refusal {
                        Refusal::NotAHandle =>
                            "not a valid handle, so it cannot be registered with a Port"@,
                        Refusal::CompletionPort =>
                            "an I/O completion port cannot be waited on, so it cannot be registered with a Port; a Port cannot be nested inside another the way an epoll fd can on Linux"@,
                    },
                )
            },
            Probe::Misused(misuse) => {
                &&& final(port)@.next_token == old(port)@.next_token
                &&& r == Registering::Misused(misuse)
            },
            question => {
                &&& final(port)@.next_token == old(port)@.next_token
                &&& r == Registering::Probe(question)
            },
        },
{
}

/// Once its wait is registered, a signal is there under its token, with its wait
/// and its key, and every other signal, timer and operation is as it was. When
/// the wait could not be registered, nothing is.
pub proof fn a_registered_wait_is_one_more_signal<H>(
    port: &mut Port<H>,
    handle: usize,
    key: usize,
    debug: bool,
    token: usize,
    succeeded: bool,
    wait_handle: usize,
    last_error: i32,
    r: Registering,
)
    requires
        old(port).wf(),
        old(port)@.reserved(handle, token),
        call_ensures(
            Port::<H>::register,
            (
                port,
                handle,
                key,
                debug,
                Registering::RegisterWait { token },
                Registered::Wait { succeeded, wait_handle, last_error },
            ),
            r,
        ),
    ensures
        !succeeded ==> {
            &&& final(port)@ == old(port)@
            &&& r matches Registering::Done(Err(e))
            &&& e@ == ErrorView::Os(last_error)
        },
        succeeded ==> {
            &&& r matches Registering::Done(result)
            &&& result is Ok
            &&& final(port)@.signals.contains_key(handle)
            &&& final(port)@.signals[handle].token == token
            &&& final(port)@.signals[handle].wait_handle == wait_handle
            &&& final(port)@.bridged.contains_key(token)
            &&& final(port)@.bridged[token].key == key
            &&& final(port)@.bridged[token].kind == BridgedKind::Signal
            &&& final(port)@.handle == old(port)@.handle
            &&& final(port)@.outstanding == old(port)@.outstanding
            &&& final(port)@.next_token == old(port)@.next_token
            &&& final(port)@.retired == old(port)@.retired
        },
        forall|h: usize|
            h != handle ==> #[trigger] final(port)@.signals.contains_key(h)
                == old(port)@.signals.contains_key(h),
        forall|h: usize|
            h != handle && #[trigger] old(port)@.signals.contains_key(h)
                ==> final(port)@.signals[h] == old(port)@.signals[h],
        forall|t: usize|
            t != token ==> #[trigger] final(port)@.bridged.contains_key(t)
                == old(port)@.bridged.contains_key(t),
        forall|t: usize|
            t != token && #[trigger] old(port)@.bridged.contains_key(t) ==> final(port)@.bridged[t]
                == old(port)@.bridged[t],
{
}

/// A reply to another step than the one that the registration stands at changes
/// nothing.
pub proof fn a_reply_to_another_step_registers_nothing<H>(
    port: &mut Port<H>,
    handle: usize,
    key: usize,
    debug: bool,
    step: Registering,
    reply: Registered,
    r: Registering,
)
    requires
        call_ensures(Port::<H>::register, (port, handle, key, debug, step, reply), r),
        step is Probe ==> reply !is Probe,
        step is RegisterWait ==> reply !is Wait,
    ensures
        final(port)@ == old(port)@,
        r == step,
{
}

/// Changing the key of a signal changes that and nothing else: its token and its
/// wait stay, and so does every other signal, timer and operation. A handle that
/// is not registered is not found.
pub proof fn a_new_key_changes_one_signal<H>(
    port: &mut Port<H>,
    handle: usize,
    key: usize,
    r: Result<(), Error>,
)
    requires
        old(port).wf(),
        call_ensures(Port::<H>::rekey, (port, handle, key), r),
    ensures
        r is Ok <==> old(port)@.signals.contains_key(handle),
        r matches Err(e) ==> e@ == ErrorView::Simple(ErrorKind::NotFound) && final(port)@ == old(
            port,
        )@,
        final(port)@.handle == old(port)@.handle,
        final(port)@.signals == old(port)@.signals,
        final(port)@.outstanding == old(port)@.outstanding,
        final(port)@.next_token == old(port)@.next_token,
        final(port)@.retired == old(port)@.retired,
        r is Ok ==> ({
            let token = old(port)@.signals[handle].token;
            &&& final(port)@.bridged[token].key == key
            &&& final(port)@.bridged[token].kind == BridgedKind::Signal
            &&& final(port)@.bridged.dom() == old(port)@.bridged.dom()
            &&& forall|t: usize|
                t != token && #[trigger] old(port)@.bridged.contains_key(t)
                    ==> final(port)@.bridged[t] == old(port)@.bridged[t]
        }),
{
    if old(port)@.signals.contains_key(handle) {
        assert(final(port)@.bridged.dom() =~= old(port)@.bridged.dom());
    }
}

/// The end of a registration hands out its wait and takes it out, with its token,
/// for good; every other signal, timer and operation is as it was. A handle that
/// is not registered is not found.
pub proof fn the_end_of_a_registration_takes_out_one_signal<H>(
    port: &mut Port<H>,
    handle: usize,
    r: Result<SignalRegistration, Error>,
)
    requires
        old(port).wf(),
        call_ensures(Port::<H>::unregister, (port, handle), r),
    ensures
        r is Ok <==> old(port)@.signals.contains_key(handle),
        r matches Err(e) ==> e@ == ErrorView::Simple(ErrorKind::NotFound) && final(port)@ == old(
            port,
        )@,
        final(port)@.handle == old(port)@.handle,
        final(port)@.outstanding == old(port)@.outstanding,
        final(port)@.next_token == old(port)@.next_token,
        !final(port)@.signals.contains_key(handle),
        forall|h: usize|
            h != handle ==> #[trigger] final(port)@.signals.contains_key(h)
                == old(port)@.signals.contains_key(h),
        forall|h: usize|
            h != handle && #[trigger] old(port)@.signals.contains_key(h)
                ==> final(port)@.signals[h] == old(port)@.signals[h],
        r matches Ok(registration) ==> {
            &&& registration == old(port)@.signals[handle]
            &&& !final(port)@.bridged.contains_key(registration.token)
            &&& final(port)@.retired.contains(registration.token)
            &&& forall|t: usize|
                t != registration.token ==> #[trigger] final(port)@.bridged.contains_key(t)
                    == old(port)@.bridged.contains_key(t)
            &&& forall|t: usize|
                t != registration.token && #[trigger] old(port)@.bridged.contains_key(t)
                    ==> final(port)@.bridged[t] == old(port)@.bridged[t]
        },
{
}

/// A callback posts its token under the reserved key, to its port, and signals
/// again exactly when the post failed and the port is not gone.
pub proof fn a_callback_posts_its_token(
    port: usize,
    token: usize,
    p: Post,
    posted: bool,
    last_error: u32,
    again: bool,
)
    requires
        call_ensures(bridged_post, (port, token), p),
        call_ensures(resignal, (posted, last_error), again),
    ensures
        p.port == port,
        p.key == usize::MAX,
        p.pointer == token,
        p.bytes == 0,
        again <==> !posted && last_error != 6,
{
}

/// A teardown hands out every wait and asks to cancel every operation, on its
/// handle, exactly once. No signal and no timer is left, and every operation
/// stays outstanding.
pub proof fn a_teardown_cancels_every_operation_once<H>(port: &mut Port<H>, r: Teardown)
    requires
        old(port).wf(),
        call_ensures(Port::<H>::teardown, (port,), r),
    ensures
        r.signals@ == old(port)@.signals,
        final(port)@.outstanding == old(port)@.outstanding,
        final(port)@.signals.dom() == Set::<usize>::empty(),
        final(port)@.bridged.dom() == Set::<usize>::empty(),
        final(port)@.next_token == old(port)@.next_token,
        final(port)@.handle == old(port)@.handle,
        forall|t: usize| #[trigger]
            old(port)@.bridged.contains_key(t) ==> final(port)@.retired.contains(t),
        forall|b: usize| #[trigger]
            old(port)@.outstanding.contains_key(b) ==> r.cancellations@.contains(
                Cancellation { handle: old(port)@.outstanding[b].handle, block: b },
            ),
        forall|i: int|
            0 <= i < r.cancellations@.len() ==> old(port)@.outstanding.contains_key(
                (#[trigger] r.cancellations@[i]).block,
            ),
        r.cancellations@.no_duplicates(),
{
    assert forall|b: usize| #[trigger]
        old(port)@.outstanding.contains_key(b) implies r.cancellations@.contains(
        Cancellation { handle: old(port)@.outstanding[b].handle, block: b },
    ) by {
        let i = choose|i: int|
            0 <= i < r.cancellations@.len() && #[trigger] r.cancellations@[i].block == b;
        assert(r.cancellations@[i] == Cancellation {
            handle: old(port)@.outstanding[b].handle,
            block: b,
        });
    }
    assert forall|i: int, j: int|
        0 <= i < j < r.cancellations@.len() implies r.cancellations@[i] != r.cancellations@[j] by {
        assert(r.cancellations@[i].block != r.cancellations@[j].block);
    }
    assert forall|i: int, j: int|
        0 <= i < r.cancellations@.len() && 0 <= j < r.cancellations@.len() && i
            != j implies r.cancellations@[i] != r.cancellations@[j] by {
        if i < j {
            assert(r.cancellations@[i].block != r.cancellations@[j].block);
        } else {
            assert(r.cancellations@[j].block != r.cancellations@[i].block);
        }
    }
}

/// A drain goes on as long as something completes or five seconds have not
/// passed since, and gives up on a failure.
pub proof fn a_drain_is_patient_for_five_seconds(
    dequeued: Result<usize, Error>,
    idle: u128,
    r: Drain,
)
    requires
        call_ensures(drain_step, (&dequeued, idle), r),
    ensures
        r == Drain::Progress <==> (dequeued matches Ok(n) && n > 0),
        r == Drain::GiveUp <==> dequeued is Err || ((dequeued matches Ok(n) && n == 0) && idle
            >= 5 * 1_000_000_000),
{
}

/// What never completed is handed out, all of it, and is outstanding no more.
pub proof fn what_is_abandoned_is_all_that_was_left<H>(
    port: &mut Port<H>,
    r: HashMap<usize, Pending<H>>,
)
    requires
        call_ensures(Port::<H>::abandon, (port,), r),
    ensures
        r@ == old(port)@.outstanding,
        final(port)@.outstanding.dom() == Set::<usize>::empty(),
        bridged_alike(old(port)@, final(port)@),
{
}

/// A minted token is the next number, which nothing has.
pub proof fn a_minted_token_is_new<H>(port: &mut Port<H>, r: usize)
    requires
        old(port).wf(),
        old(port)@.next_token < usize::MAX,
        call_ensures(Port::<H>::mint_token, (port,), r),
    ensures
        r >= 1,
        r == old(port)@.next_token,
        final(port)@.next_token == r + 1,
        !old(port)@.bridged.contains_key(r),
        !old(port)@.retired.contains(r),
        final(port)@.signals == old(port)@.signals,
        final(port)@.bridged == old(port)@.bridged,
        final(port)@.outstanding == old(port)@.outstanding,
        final(port)@.retired == old(port)@.retired,
        final(port)@.handle == old(port)@.handle,
{
}

/// A fresh port has nothing in it, and its tokens begin with one.
pub proof fn a_fresh_port_is_empty<H>(handle: usize, last_error: i32, r: Result<Port<H>, Error>)
    requires
        call_ensures(Port::<H>::new, (handle, last_error), r),
    ensures
        r is Ok <==> handle != 0,
        r matches Err(e) ==> e@ == ErrorView::Os(last_error),
        r matches Ok(port) ==> {
            &&& port@.handle == handle
            &&& port@.signals.dom() == Set::<usize>::empty()
            &&& port@.bridged.dom() == Set::<usize>::empty()
            &&& port@.outstanding.dom() == Set::<usize>::empty()
            &&& port@.retired == Set::<usize>::empty()
            &&& port@.next_token == 1
        },
{
}

/// The due time is the delay in units of 100 nanoseconds, rounded down, as the
/// two halves of a negative number; a delay that is too long is the longest.
pub proof fn a_timer_is_due_after_its_delay(nanoseconds: u128, r: FileTime)
    requires
        call_ensures(FileTime::after, (nanoseconds,), r),
    ensures
        ({
            let spelled = r.high * 0x1_0000_0000 + r.low;
            let units = if spelled == 0 {
                0
            } else {
                0x1_0000_0000_0000_0000 - spelled
            };
            &&& r.value() == -units
            &&& nanoseconds < 0x8000_0000_0000_0000 * 100 ==> 100 * units <= nanoseconds < 100
                * units + 100
            &&& nanoseconds >= 0x8000_0000_0000_0000 * 100 ==> units == 0x7FFF_FFFF_FFFF_FFFF
        }),
{
}

/// The same of the timer that is set: its due time, negated and times 100, is
/// the delay, rounded down to 100 nanoseconds.
pub proof fn a_set_timer_is_due_after_its_delay(timer: &Timer, after: u128, r: SetTimer, c: SetTimer)
    requires
        call_ensures(Timer::set, (timer, after), r),
        call_ensures(Timer::cancel, (timer,), c),
    ensures
        r.timer == timer.object(),
        c.timer == timer.object(),
        c.due is None,
        r.due matches Some(due) && ({
            &&& after < 0x8000_0000_0000_0000 * 100 ==> 100 * (-due.value()) <= after < 100 * (
            -due.value()) + 100
            &&& after >= 0x8000_0000_0000_0000 * 100 ==> -due.value() == 0x7FFF_FFFF_FFFF_FFFF
        }),
{
}

/// A number is spelled by its halves in two's complement.
pub proof fn a_file_time_is_a_signed_number(t: FileTime)
    ensures
        -0x8000_0000_0000_0000 <= t.value() < 0x8000_0000_0000_0000,
        t.value() == t.high * 0x1_0000_0000 + t.low || t.value() + 0x1_0000_0000_0000_0000 == t.high
            * 0x1_0000_0000 + t.low,
{
}

/// A later expiry is never due earlier.
pub proof fn a_longer_delay_is_never_due_earlier(a: u128, b: u128, x: FileTime, y: FileTime)
    requires
        call_ensures(FileTime::after, (a,), x),
        call_ensures(FileTime::after, (b,), y),
        a <= b,
    ensures
        -x.value() <= -y.value(),
        b - a >= 100 && b < 0x8000_0000_0000_0000 * 100 ==> -x.value() < -y.value(),
{
}

/// A timer is made under its token and its key, or not at all; closing it takes
/// its token out for good. Every signal, every other timer and every operation
/// is as it was.
pub proof fn a_timer_comes_and_goes_alone<H>(
    port: &mut Port<H>,
    token: usize,
    key: usize,
    timer: usize,
    last_error: i32,
    r: Result<Timer, Error>,
)
    requires
        old(port).wf(),
        old(port)@.unused(token),
        call_ensures(Timer::new::<H>, (port, token, key, timer, last_error), r),
    ensures
        r is Ok <==> timer != 0,
        r matches Err(e) ==> e@ == ErrorView::Os(last_error) && final(port)@ == old(port)@,
        r matches Ok(t) ==> {
            &&& t.posts() == token
            &&& t.object() == timer
            &&& final(port)@.bridged.contains_key(token)
            &&& final(port)@.bridged[token].key == key
            &&& final(port)@.bridged[token].kind == BridgedKind::Timer
        },
        final(port)@.handle == old(port)@.handle,
        final(port)@.signals == old(port)@.signals,
        final(port)@.outstanding == old(port)@.outstanding,
        final(port)@.next_token == old(port)@.next_token,
        final(port)@.retired == old(port)@.retired,
        forall|t: usize|
            t != token ==> #[trigger] final(port)@.bridged.contains_key(t)
                == old(port)@.bridged.contains_key(t),
        forall|t: usize|
            t != token && #[trigger] old(port)@.bridged.contains_key(t) ==> final(port)@.bridged[t]
                == old(port)@.bridged[t],
{
}

/// Closing a timer hands it out and takes its token out for good, if it is
/// there, and leaves everything else as it was.
pub proof fn a_closed_timer_goes_alone<H>(timer: Timer, port: &mut Port<H>, r: usize)
    requires
        old(port).wf(),
        call_ensures(Timer::close::<H>, (timer, port), r),
    ensures
        r == timer.object(),
        final(port)@.handle == old(port)@.handle,
        final(port)@.signals == old(port)@.signals,
        final(port)@.outstanding == old(port)@.outstanding,
        final(port)@.next_token == old(port)@.next_token,
        old(port)@.bridged.contains_key(timer.posts()) && old(port)@.bridged[timer.posts()].kind
            == BridgedKind::Timer ==> !final(port)@.bridged.contains_key(timer.posts())
            && final(port)@.retired.contains(timer.posts()),
        !old(port)@.bridged.contains_key(timer.posts()) ==> final(port)@ == old(port)@,
        forall|t: usize|
            t != timer.posts() ==> #[trigger] final(port)@.bridged.contains_key(t)
                == old(port)@.bridged.contains_key(t),
        forall|t: usize|
            t != timer.posts() && #[trigger] old(port)@.bridged.contains_key(t)
                ==> final(port)@.bridged[t] == old(port)@.bridged[t],
{
}

/// An operation begins with its buffer, on no handle and holding nothing. What
/// is held comes out again, once.
pub proof fn an_operation_holds_one_thing<H>(
    block: usize,
    buffer: Vec<u8>,
    made: Operation<H>,
    operation: &mut Operation<H>,
    item: Held<H>,
    before: Option<Held<H>>,
)
    requires
        call_ensures(Operation::<H>::new, (block, buffer), made),
        call_ensures(Operation::<H>::hold, (operation, item), before),
    ensures
        made@.block == block,
        made@.buffer == buffer@,
        made@.held is None,
        made@.handle == 0,
        before == old(operation)@.held,
        final(operation)@.held == Some(item),
        final(operation)@.block == old(operation)@.block,
        final(operation)@.buffer == old(operation)@.buffer,
        final(operation)@.handle == old(operation)@.handle,
{
}

/// What is taken out of an operation is held no more, and the rest of it stays.
pub proof fn what_is_taken_out_is_held_no_more<H>(
    operation: &mut Operation<H>,
    r: Option<Held<H>>,
    left: &Operation<H>,
    holds: bool,
    token: Token,
)
    requires
        call_ensures(Operation::<H>::take_held, (operation,), r),
        left@ == final(operation)@,
        call_ensures(Operation::<H>::holds_something, (left,), holds),
        call_ensures(Operation::<H>::token, (left,), token),
    ensures
        r == old(operation)@.held,
        !holds,
        final(operation)@.held is None,
        final(operation)@.block == old(operation)@.block,
        final(operation)@.buffer == old(operation)@.buffer,
        final(operation)@.handle == old(operation)@.handle,
        token.address() == old(operation)@.block,
{
}

/// A receive is issued on its socket, for its whole buffer, at no offset, unless
/// the buffer is too long for one request.
pub proof fn a_receive_covers_its_buffer<H>(
    port: &mut Port<H>,
    socket: usize,
    operation: Operation<H>,
    r: Result<Request, Error>,
)
    requires
        call_ensures(recv::<H>, (port, socket, operation), r),
    ensures
        operation@.buffer.len() < 0x1_0000_0000 ==> {
            &&& r matches Ok(request)
            &&& request.call == Call::Receive
            &&& request.handle == socket
            &&& covers(request, operation, 0)
            &&& one_more(old(port)@, final(port)@, socket, operation)
        },
        operation@.buffer.len() >= 0x1_0000_0000 ==> {
            &&& final(port)@ == old(port)@
            &&& r matches Err(e)
            &&& e@ == ErrorView::Custom(
                ErrorKind::InvalidInput,
                "an operation's buffer must fit in a u32 length"@,
            )
        },
{
}

/// A send is issued on its socket, for its whole buffer, at no offset, unless the
/// buffer is too long for one request.
pub proof fn a_send_covers_its_buffer<H>(
    port: &mut Port<H>,
    socket: usize,
    operation: Operation<H>,
    r: Result<Request, Error>,
)
    requires
        call_ensures(send::<H>, (port, socket, operation), r),
    ensures
        operation@.buffer.len() < 0x1_0000_0000 ==> {
            &&& r matches Ok(request)
            &&& request.call == Call::Send
            &&& request.handle == socket
            &&& covers(request, operation, 0)
            &&& one_more(old(port)@, final(port)@, socket, operation)
        },
        operation@.buffer.len() >= 0x1_0000_0000 ==> {
            &&& final(port)@ == old(port)@
            &&& r matches Err(e)
            &&& e@ == ErrorView::Custom(
                ErrorKind::InvalidInput,
                "an operation's buffer must fit in a u32 length"@,
            )
        },
{
}

/// An accept is issued on its listener, for the socket that is to be accepted,
/// which its operation then holds. It is refused, without a trace, when the
/// operation holds something, when the buffer has no room for two addresses or
/// is too long, and when the provider has no accept.
pub proof fn an_accept_is_issued_for_its_socket<H>(
    port: &mut Port<H>,
    listener: usize,
    accepted: usize,
    operation: Operation<H>,
    function: Result<usize, Error>,
    r: Result<Request, Error>,
)
    requires
        call_ensures(accept::<H>, (port, listener, accepted, operation, function), r),
    ensures
        r is Ok <==> operation@.held is None && 288 <= operation@.buffer.len() < 0x1_0000_0000
            && function is Ok,
        r matches Err(e) ==> {
            &&& final(port)@ == old(port)@
            &&& operation@.held is Some ==> e@ == ErrorView::Custom(
                ErrorKind::InvalidInput,
                "an accept operation keeps the accepted socket in the held slot, which is occupied"@,
            )
            &&& operation@.held is None && operation@.buffer.len() < 288 ==> e@
                == ErrorView::Custom(
                ErrorKind::InvalidInput,
                "an accept operation needs a buffer of at least 288 bytes"@,
            )
            &&& operation@.held is None && operation@.buffer.len() >= 288 ==> (
            function matches Err(f) ==> e == f)
            &&& operation@.held is None && operation@.buffer.len() >= 288 && function is Ok ==> e@
                == ErrorView::Custom(
                ErrorKind::InvalidInput,
                "an operation's buffer must fit in a u32 length"@,
            )
        },
        r matches Ok(request) ==> {
            let block = operation@.block;
            &&& request.call == Call::Accept(accepted)
            &&& request.handle == listener
            &&& covers(request, operation, 0)
            &&& bridged_alike(old(port)@, final(port)@)
            &&& final(port)@.outstanding.contains_key(block)
            &&& final(port)@.outstanding[block].handle == listener
            &&& final(port)@.outstanding[block].held matches Some(Held::Accepting(accepting))
            &&& accepting@ == accepted
            &&& forall|b: usize|
                b != block ==> #[trigger] final(port)@.outstanding.contains_key(b)
                    == old(port)@.outstanding.contains_key(b)
            &&& forall|b: usize|
                b != block && #[trigger] old(port)@.outstanding.contains_key(b)
                    ==> final(port)@.outstanding[b] == old(port)@.outstanding[b]
        },
{
}

/// A finished accept hands out the socket that its operation held, once. An
/// operation that holds something else keeps it.
pub proof fn a_finished_accept_hands_out_its_socket<H>(
    listener: usize,
    operation: &mut Operation<H>,
    r: Result<AcceptContext, Error>,
)
    requires
        call_ensures(finish_accept::<H>, (listener, operation), r),
    ensures
        final(operation)@.block == old(operation)@.block,
        final(operation)@.buffer == old(operation)@.buffer,
        final(operation)@.handle == old(operation)@.handle,
        match r {
            Ok(context) => {
                &&& old(operation)@.held matches Some(Held::Accepting(accepting))
                &&& context.socket == accepting@
                &&& context.listener == listener
                &&& final(operation)@.held is None
            },
            Err(e) => {
                &&& !(old(operation)@.held matches Some(Held::Accepting(_)))
                &&& final(operation)@.held == old(operation)@.held
                &&& e@ == ErrorView::Custom(
                    ErrorKind::InvalidInput,
                    if old(operation)@.held is None {
                        "not an accept operation: nothing is held"@
                    } else {
                        "not an accept operation: what it holds is not an accepted socket"@
                    },
                )
            },
        },
{
}

/// How Winsock says that a call failed, is pending, or has nothing to offer.
pub proof fn a_socket_call_fails_with_minus_one(
    ret: i32,
    last_error: i32,
    succeeded: bool,
    function: usize,
    context: AcceptContext,
    o: Result<(), Error>,
    a: Result<(), Error>,
    f: Result<usize, Error>,
    c: Result<usize, Error>,
)
    requires
        call_ensures(outstanding, (ret, last_error), o),
        call_ensures(accept_outstanding, (succeeded, last_error), a),
        call_ensures(accept_ex, (ret, last_error, function), f),
        call_ensures(context_updated, (context, ret, last_error), c),
    ensures
        o is Ok <==> ret != -1i32 || last_error == 997,
        o matches Err(e) ==> e@ == ErrorView::Os(last_error),
        a is Ok <==> succeeded || last_error == 997,
        a matches Err(e) ==> e@ == ErrorView::Os(last_error),
        f is Ok <==> ret != -1i32 && function != 0,
        f matches Ok(address) ==> address == function,
        f matches Err(e) ==> e@ == if ret == -1i32 {
            ErrorView::Os(last_error)
        } else {
            ErrorView::Custom(ErrorKind::Other, "the socket's provider has no AcceptEx"@)
        },
        c is Ok <==> ret != -1i32,
        c matches Ok(socket) ==> socket == context.socket,
        c matches Err(e) ==> e@ == ErrorView::Os(last_error),
{
}

/// A port says what it is over and whether a token is left; an operation says
/// what its buffer is; a token says where its block is. Every registration begins
/// with the question whether the handle names anything.
pub proof fn a_port_says_what_it_has<H>(
    port: &Port<H>,
    handle: usize,
    can_mint: bool,
    operation: &Operation<H>,
    buffer: &[u8],
    owned: Operation<H>,
    given_up: Vec<u8>,
    lent: &mut Operation<H>,
    inside: &mut Vec<u8>,
    first: Registering,
)
    requires
        call_ensures(Port::<H>::as_raw_handle, (port,), handle),
        call_ensures(Port::<H>::can_mint, (port,), can_mint),
        call_ensures(Operation::<H>::buffer, (operation,), buffer),
        call_ensures(Operation::<H>::into_buffer, (owned,), given_up),
        call_ensures(Operation::<H>::buffer_mut, (lent,), inside),
        call_ensures(Registering::start, (), first),
    ensures
        handle == port@.handle,
        can_mint <==> port@.next_token < usize::MAX,
        buffer@ == operation@.buffer,
        given_up@ == owned@.buffer,
        old(inside)@ == old(lent)@.buffer,
        final(lent)@.buffer == final(inside)@,
        final(lent)@.block == old(lent)@.block,
        final(lent)@.handle == old(lent)@.handle,
        final(lent)@.held == old(lent)@.held,
        first == Registering::Probe(Probe::Information),
{
}

} // verus!
