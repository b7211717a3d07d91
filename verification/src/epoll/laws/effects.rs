//! What each call on an interest list does, in terms of what goes in and what
//! comes out.

use crate::epoll::wait::{poll_block, sweep_sockets};
use crate::epoll::{
    drain_again, event_set_of, is_socket, poll_events, polled, ready, reported_bits, resolved,
    validate_event_set, validate_socket_event_set, wait_post, wake_target, Batch, Blocked,
    ControlOperation, Ctl, CtlReply, Epoll, EpollEvent, EpollView, EventSet, HandleWait, PollEntry,
    SocketRegistration, Teardown, WaitPost, WaitReply, WaitStep, Waiter, WaiterView,
};
use crate::completion::Left;
use crate::epoll::laws::WaitRun;
use crate::error::{Error, ErrorKind, ErrorView};
use crate::flags::event_set_text;
use crate::text::hex;
use crate::waitable::{next_probe, Answer, Probe, Refusal};
use vstd::prelude::*;

verus! {

proof fn lemma_named_bits_are_low(bits: u32)
    ensures
        bits & 0x3ff == bits <==> bits < 0x400,
{
    assert(bits & 0x3ff == bits <==> bits < 0x400) by (bit_vector);
}

/// Whether two interest lists have the same handles, with the same data.
pub open spec fn same_handles(a: EpollView, b: EpollView) -> bool {
    &&& a.by_handle == b.by_handle
    &&& a.data_by_token == b.data_by_token
    &&& a.next_token == b.next_token
    &&& a.retired == b.retired
}

/// How many packets one dequeue may take when there is room for `room`.
pub open spec fn one_batch(room: int) -> int {
    if room < 64 {
        room
    } else {
        64
    }
}

/// A step of a change leaves every other socket and every other handle as it
/// was: there or not, with the same interest, the same wait, the same token and
/// the same data. A wake socket that is there stays.
pub proof fn a_change_leaves_everything_else_alone(
    list: &mut Epoll,
    operation: ControlOperation,
    handle: usize,
    event: EpollEvent,
    debug: bool,
    step: Ctl,
    reply: CtlReply,
    r: Ctl,
)
    requires
        old(list).wf(),
        crate::epoll::can_stand_at(old(list)@, handle, event, step),
        call_ensures(Epoll::ctl, (list, operation, handle, event, debug, step, reply), r),
    ensures
        final(list)@.iocp == old(list)@.iocp,
        old(list)@.wake is Some ==> final(list)@.wake == old(list)@.wake,
        forall|s: usize|
            s != handle ==> #[trigger] final(list)@.sockets.contains_key(s)
                == old(list)@.sockets.contains_key(s),
        forall|s: usize|
            s != handle && #[trigger] old(list)@.sockets.contains_key(s) ==> {
                &&& final(list)@.sockets[s].interest@ == old(list)@.sockets[s].interest@
                &&& final(list)@.sockets[s].data == old(list)@.sockets[s].data
            },
        forall|h: usize|
            h != handle ==> #[trigger] final(list)@.by_handle.contains_key(h)
                == old(list)@.by_handle.contains_key(h),
        forall|h: usize|
            h != handle && #[trigger] old(list)@.by_handle.contains_key(h) ==> {
                &&& final(list)@.by_handle[h].token == old(list)@.by_handle[h].token
                &&& final(list)@.by_handle[h].wait_handle == old(list)@.by_handle[h].wait_handle
                &&& final(list)@.data_by_token[old(list)@.by_handle[h].token]
                    == old(list)@.data_by_token[old(list)@.by_handle[h].token]
            },
{
    assert forall|h: usize|
        h != handle && #[trigger] old(list)@.by_handle.contains_key(
            h,
        ) implies final(list)@.data_by_token[old(list)@.by_handle[h].token]
        == old(list)@.data_by_token[old(list)@.by_handle[h].token] by {
        assert(old(list)@.data_by_token.contains_key(old(list)@.by_handle[h].token));
        if old(list)@.by_handle.contains_key(handle) {
            assert(old(list)@.by_handle[handle].token != old(list)@.by_handle[h].token);
        }
    }
}

/// Deleting a socket that is registered succeeds, and it is registered no more;
/// one that is not registered is not found, and nothing changes. Either way no
/// handle changes.
pub proof fn a_deleted_socket_is_gone(
    list: &mut Epoll,
    handle: usize,
    event: EpollEvent,
    debug: bool,
    ret: i32,
    r: Ctl,
)
    requires
        old(list).wf(),
        ret != -1i32,
        call_ensures(
            Epoll::ctl,
            (
                list,
                ControlOperation::Delete,
                handle,
                event,
                debug,
                Ctl::SocketType,
                CtlReply::SocketType(ret),
            ),
            r,
        ),
    ensures
        !final(list)@.sockets.contains_key(handle),
        final(list)@.wake == old(list)@.wake,
        same_handles(old(list)@, final(list)@),
        r matches Ctl::Done(result) && match result {
            Ok(_) => old(list)@.sockets.contains_key(handle),
            Err(e) => !old(list)@.sockets.contains_key(handle) && e@ == ErrorView::Simple(
                ErrorKind::NotFound,
            ),
        },
{
}

/// Bits that have no name, and bits that a socket does not report, are refused,
/// and nothing changes.
pub proof fn a_socket_reports_two_kinds_of_events(
    list: &mut Epoll,
    operation: ControlOperation,
    handle: usize,
    event: EpollEvent,
    debug: bool,
    ret: i32,
    r: Ctl,
)
    requires
        old(list).wf(),
        ret != -1i32,
        operation != ControlOperation::Delete,
        event.events >= 4,
        call_ensures(
            Epoll::ctl,
            (list, operation, handle, event, debug, Ctl::SocketType, CtlReply::SocketType(ret)),
            r,
        ),
    ensures
        final(list)@ == old(list)@,
        r matches Ctl::Done(Err(e)) && e@ == if event.events >= 0x400 {
            ErrorView::Custom(
                ErrorKind::InvalidInput,
                "unknown EventSet bits: 0x"@ + hex(event.events as nat),
            )
        } else {
            ErrorView::Custom(
                ErrorKind::Unsupported,
                "a Windows Epoll socket supports IN and OUT, got "@ + event_set_text(event.events),
            )
        },
{
    lemma_named_bits_are_low(event.events);
}

/// A socket is added with the interest and the data that were asked for, unless
/// it is registered. The first one needs a wake socket first. No handle changes.
pub proof fn an_added_socket_is_watched_as_asked(
    list: &mut Epoll,
    handle: usize,
    event: EpollEvent,
    debug: bool,
    ret: i32,
    r: Ctl,
)
    requires
        old(list).wf(),
        ret != -1i32,
        event.events < 4,
        call_ensures(
            Epoll::ctl,
            (
                list,
                ControlOperation::Add,
                handle,
                event,
                debug,
                Ctl::SocketType,
                CtlReply::SocketType(ret),
            ),
            r,
        ),
    ensures
        same_handles(old(list)@, final(list)@),
        final(list)@.wake == old(list)@.wake,
        old(list)@.wake is None ==> r == Ctl::MakeWake && final(list)@ == old(list)@,
        old(list)@.wake is Some && old(list)@.sockets.contains_key(handle) ==> final(list)@ == old(
            list,
        )@ && (r matches Ctl::Done(Err(e)) && e@ == ErrorView::Simple(ErrorKind::AlreadyExists)),
        old(list)@.wake is Some && !old(list)@.sockets.contains_key(handle) ==> {
            &&& r matches Ctl::Done(result)
            &&& result is Ok
            &&& final(list)@.sockets.contains_key(handle)
            &&& final(list)@.sockets[handle].interest@ == event.events
            &&& final(list)@.sockets[handle].data == event.data
        },
{
    lemma_named_bits_are_low(event.events);
}

/// Once the wake socket is made, it is kept, and the socket is added with the
/// interest and the data that were asked for. Without one, nothing changes.
pub proof fn the_first_socket_brings_the_wake_socket(
    list: &mut Epoll,
    operation: ControlOperation,
    handle: usize,
    event: EpollEvent,
    debug: bool,
    wake: Result<usize, Error>,
    r: Ctl,
)
    requires
        old(list).wf(),
        crate::epoll::can_stand_at(old(list)@, handle, event, Ctl::MakeWake),
        call_ensures(
            Epoll::ctl,
            (list, operation, handle, event, debug, Ctl::MakeWake, CtlReply::Wake(wake)),
            r,
        ),
    ensures
        same_handles(old(list)@, final(list)@),
        wake matches Err(e) ==> final(list)@ == old(list)@ && r == Ctl::Done(Err::<(), Error>(e)),
        wake matches Ok(socket) ==> {
            &&& final(list)@.wake == Some(socket)
            &&& r matches Ctl::Done(result)
            &&& result is Ok
            &&& final(list)@.sockets.contains_key(handle)
            &&& final(list)@.sockets[handle].interest@ == event.events
            &&& final(list)@.sockets[handle].data == event.data
        },
{
    if old(list)@.sockets.contains_key(handle) {
        assert(old(list)@.wake is Some);
    }
}

/// A modified socket is watched as asked from then on; one that is not
/// registered is not found.
pub proof fn a_modified_socket_is_watched_as_asked(
    list: &mut Epoll,
    handle: usize,
    event: EpollEvent,
    debug: bool,
    ret: i32,
    r: Ctl,
)
    requires
        old(list).wf(),
        ret != -1i32,
        event.events < 4,
        call_ensures(
            Epoll::ctl,
            (
                list,
                ControlOperation::Modify,
                handle,
                event,
                debug,
                Ctl::SocketType,
                CtlReply::SocketType(ret),
            ),
            r,
        ),
    ensures
        same_handles(old(list)@, final(list)@),
        final(list)@.wake == old(list)@.wake,
        final(list)@.sockets.contains_key(handle) == old(list)@.sockets.contains_key(handle),
        old(list)@.sockets.contains_key(handle) ==> {
            &&& r matches Ctl::Done(result)
            &&& result is Ok
            &&& final(list)@.sockets[handle].interest@ == event.events
            &&& final(list)@.sockets[handle].data == event.data
        },
        !old(list)@.sockets.contains_key(handle) ==> (r matches Ctl::Done(Err(e)) && e@
            == ErrorView::Simple(ErrorKind::NotFound)),
{
    lemma_named_bits_are_low(event.events);
}

/// A handle reports readability and nothing else: any other bits are refused,
/// and so are none, but for a deletion, which needs none.
pub proof fn a_handle_reports_one_kind_of_event(
    list: &mut Epoll,
    operation: ControlOperation,
    handle: usize,
    event: EpollEvent,
    debug: bool,
    r: Ctl,
)
    requires
        old(list).wf(),
        event.events != 1,
        event.events == 0 ==> operation != ControlOperation::Delete,
        call_ensures(
            Epoll::ctl,
            (list, operation, handle, event, debug, Ctl::SocketType, CtlReply::SocketType(-1i32)),
            r,
        ),
    ensures
        final(list)@ == old(list)@,
        r matches Ctl::Done(Err(e)) && e@ == if event.events >= 0x400 {
            ErrorView::Custom(
                ErrorKind::InvalidInput,
                "unknown EventSet bits: 0x"@ + hex(event.events as nat),
            )
        } else {
            ErrorView::Custom(
                ErrorKind::Unsupported,
                "a Windows Epoll handle only supports EventSet::IN, got "@ + event_set_text(
                    event.events,
                ),
            )
        },
{
    lemma_named_bits_are_low(event.events);
}

/// A handle that is to be added is asked about first; one that is modified gets
/// the new data and keeps its token and its wait; one that is deleted is gone,
/// with its token, and its wait is to be ended. One that is not registered is
/// not found. No socket changes.
pub proof fn a_change_to_a_handle_changes_that_handle(
    list: &mut Epoll,
    operation: ControlOperation,
    handle: usize,
    event: EpollEvent,
    debug: bool,
    r: Ctl,
)
    requires
        old(list).wf(),
        event.events == 1 || (event.events == 0 && operation == ControlOperation::Delete),
        call_ensures(
            Epoll::ctl,
            (list, operation, handle, event, debug, Ctl::SocketType, CtlReply::SocketType(-1i32)),
            r,
        ),
    ensures
        final(list)@.sockets == old(list)@.sockets,
        final(list)@.wake == old(list)@.wake,
        final(list)@.next_token == old(list)@.next_token,
        operation == ControlOperation::Add ==> r == Ctl::Probe(Probe::Information) && final(list)@
            == old(list)@,
        operation != ControlOperation::Add && !old(list)@.by_handle.contains_key(handle)
            ==> final(list)@ == old(list)@ && (r matches Ctl::Done(Err(e)) && e@
            == ErrorView::Simple(ErrorKind::NotFound)),
        operation == ControlOperation::Modify && old(list)@.by_handle.contains_key(handle) ==> {
            &&& r matches Ctl::Done(result)
            &&& result is Ok
            &&& final(list)@.by_handle == old(list)@.by_handle
            &&& final(list)@.data_by_token[old(list)@.by_handle[handle].token] == event.data
            &&& final(list)@.data_by_token.dom() == old(list)@.data_by_token.dom()
        },
        operation == ControlOperation::Delete && old(list)@.by_handle.contains_key(handle) ==> {
            &&& r matches Ctl::UnregisterWait { wait_handle }
            &&& wait_handle == old(list)@.by_handle[handle].wait_handle
            &&& !final(list)@.by_handle.contains_key(handle)
            &&& !final(list)@.data_by_token.contains_key(old(list)@.by_handle[handle].token)
            &&& final(list)@.retired.contains(old(list)@.by_handle[handle].token)
        },
{
    lemma_named_bits_are_low(event.events);
    assert(1u32 & 0x3ff == 1 && 0u32 & 0x3ff == 0) by (bit_vector);
    if old(list)@.by_handle.contains_key(handle) {
        assert(old(list)@.data_by_token.contains_key(old(list)@.by_handle[handle].token));
        assert(operation == ControlOperation::Modify ==> final(list)@.data_by_token.dom()
            =~= old(list)@.data_by_token.dom());
    }
}

/// The same of [`Epoll::modify`] by itself.
pub proof fn a_modified_handle_has_its_new_data(
    list: &mut Epoll,
    handle: usize,
    data: u64,
    r: Result<(), Error>,
)
    requires
        old(list).wf(),
        call_ensures(Epoll::modify, (list, handle, data), r),
    ensures
        r is Ok <==> old(list)@.by_handle.contains_key(handle),
        r matches Err(e) ==> e@ == ErrorView::Simple(ErrorKind::NotFound) && final(list)@ == old(
            list,
        )@,
        final(list)@.by_handle == old(list)@.by_handle,
        final(list)@.sockets == old(list)@.sockets,
        final(list)@.wake == old(list)@.wake,
        final(list)@.iocp == old(list)@.iocp,
        final(list)@.next_token == old(list)@.next_token,
        final(list)@.retired == old(list)@.retired,
        r is Ok ==> ({
            let token = old(list)@.by_handle[handle].token;
            &&& final(list)@.data_by_token.contains_key(token)
            &&& final(list)@.data_by_token[token] == data
            &&& forall|t: usize|
                t != token ==> #[trigger] final(list)@.data_by_token.contains_key(t)
                    == old(list)@.data_by_token.contains_key(t)
            &&& forall|t: usize|
                t != token && #[trigger] old(list)@.data_by_token.contains_key(t)
                    ==> final(list)@.data_by_token[t] == old(list)@.data_by_token[t]
        }),
{
}

/// A probe registers nothing: it asks the next question, refuses the handle, or
/// goes on to register the wait under the token that is minted next, unless the
/// handle is registered.
pub proof fn a_probe_registers_nothing(
    list: &mut Epoll,
    operation: ControlOperation,
    handle: usize,
    event: EpollEvent,
    debug: bool,
    probe: Probe,
    answer: Answer,
    r: Ctl,
)
    requires
        old(list).wf(),
        old(list)@.next_token < usize::MAX,
        call_ensures(
            Epoll::ctl,
            (list, operation, handle, event, debug, Ctl::Probe(probe), CtlReply::Probe(answer)),
            r,
        ),
    ensures
        final(list)@.by_handle == old(list)@.by_handle,
        final(list)@.data_by_token == old(list)@.data_by_token,
        final(list)@.sockets == old(list)@.sockets,
        final(list)@.retired == old(list)@.retired,
        final(list)@.wake == old(list)@.wake,
        match next_probe(probe, debug, answer) {
            Probe::Waitable => if old(list)@.by_handle.contains_key(handle) {
                &&& final(list)@.next_token == old(list)@.next_token
                &&& r matches Ctl::Done(Err(e))
                &&& e@ == ErrorView::Simple(ErrorKind::AlreadyExists)
            } else {
                &&& final(list)@.next_token == old(list)@.next_token + 1
                &&& r matches Ctl::RegisterWait { token }
                &&& token == old(list)@.next_token
                &&& !old(list)@.data_by_token.contains_key(token)
                &&& !old(list)@.retired.contains(token)
            },
            Probe::Refused(refusal) => {
                &&& final(list)@.next_token == old(list)@.next_token
                &&& r matches Ctl::Done(Err(e))
                &&& e@ == ErrorView::Custom(
                    ErrorKind::InvalidInput,
                    match refusal {
                        Refusal::NotAHandle =>
                            "not a valid handle, so it cannot be registered with an Epoll"@,
                        Refusal::CompletionPort =>
                            "an I/O completion port cannot be waited on, so it cannot be registered with an Epoll; on Windows an Epoll cannot be nested inside another one the way an epoll fd can on Linux"@,
                    },
                )
            },
            Probe::Misused(misuse) => {
                &&& final(list)@.next_token == old(list)@.next_token
                &&& r == Ctl::Misused(misuse)
            },
            question => {
                &&& final(list)@.next_token == old(list)@.next_token
                &&& r == Ctl::Probe(question)
            },
        },
{
}

/// Once its wait is registered, a handle is there, under its token, with its
/// wait and its data. When the wait could not be registered, nothing changes.
pub proof fn a_registered_wait_is_one_more_handle(
    list: &mut Epoll,
    operation: ControlOperation,
    handle: usize,
    event: EpollEvent,
    debug: bool,
    token: usize,
    succeeded: bool,
    wait_handle: usize,
    last_error: i32,
    r: Ctl,
)
    requires
        old(list).wf(),
        old(list)@.reserved(handle, token),
        call_ensures(
            Epoll::ctl,
            (
                list,
                operation,
                handle,
                event,
                debug,
                Ctl::RegisterWait { token },
                CtlReply::Wait { succeeded, wait_handle, last_error },
            ),
            r,
        ),
    ensures
        final(list)@.sockets == old(list)@.sockets,
        final(list)@.wake == old(list)@.wake,
        final(list)@.next_token == old(list)@.next_token,
        final(list)@.retired == old(list)@.retired,
        !succeeded ==> final(list)@ == old(list)@ && (r matches Ctl::Done(Err(e)) && e@
            == ErrorView::Os(last_error)),
        succeeded ==> {
            &&& r matches Ctl::Done(result)
            &&& result is Ok
            &&& final(list)@.by_handle.contains_key(handle)
            &&& final(list)@.by_handle[handle].token == token
            &&& final(list)@.by_handle[handle].wait_handle == wait_handle
            &&& final(list)@.data_by_token.contains_key(token)
            &&& final(list)@.data_by_token[token] == event.data
        },
{
}

/// The end of a wait changes nothing in the list, and its outcome is that of the
/// call. Nor does a reply to another step change anything.
pub proof fn the_end_of_a_wait_is_that_of_the_call(
    list: &mut Epoll,
    operation: ControlOperation,
    handle: usize,
    event: EpollEvent,
    debug: bool,
    step: Ctl,
    reply: CtlReply,
    r: Ctl,
)
    requires
        call_ensures(Epoll::ctl, (list, operation, handle, event, debug, step, reply), r),
        match (step, reply) {
            (Ctl::SocketType, CtlReply::SocketType(_)) => false,
            (Ctl::MakeWake, CtlReply::Wake(_)) => false,
            (Ctl::Probe(_), CtlReply::Probe(_)) => false,
            (Ctl::RegisterWait { .. }, CtlReply::Wait { .. }) => false,
            _ => true,
        },
    ensures
        final(list)@ == old(list)@,
        step is UnregisterWait ==> (reply matches CtlReply::Unregistered { succeeded, last_error }
            ==> {
            &&& r matches Ctl::Done(result)
            &&& match result {
                Ok(_) => succeeded,
                Err(e) => !succeeded && e@ == ErrorView::Os(last_error),
            }
        }),
        !(step is UnregisterWait && reply is Unregistered) ==> r == step,
{
}

/// Bits are checked by their value: up to 1 for a handle, up to 3 for a socket,
/// and none at or above 0x400 has a name.
pub proof fn bits_are_checked_by_value(
    bits: u32,
    h: Result<(), Error>,
    s: Result<EventSet, Error>,
    ret: i32,
    is: bool,
)
    requires
        call_ensures(validate_event_set, (bits,), h),
        call_ensures(validate_socket_event_set, (bits,), s),
        call_ensures(is_socket, (ret,), is),
    ensures
        is <==> ret != -1i32,
        h is Ok <==> bits < 2,
        s is Ok <==> bits < 4,
        s matches Ok(set) ==> set@ == bits,
        bits >= 0x400 ==> (h matches Err(e) && e@ == ErrorView::Custom(
            ErrorKind::InvalidInput,
            "unknown EventSet bits: 0x"@ + hex(bits as nat),
        )),
        bits >= 0x400 ==> (s matches Err(e) && e@ == ErrorView::Custom(
            ErrorKind::InvalidInput,
            "unknown EventSet bits: 0x"@ + hex(bits as nat),
        )),
        2 <= bits < 0x400 ==> (h matches Err(e) && e@ == ErrorView::Custom(
            ErrorKind::Unsupported,
            "a Windows Epoll handle only supports EventSet::IN, got "@ + event_set_text(bits),
        )),
        4 <= bits < 0x400 ==> (s matches Err(e) && e@ == ErrorView::Custom(
            ErrorKind::Unsupported,
            "a Windows Epoll socket supports IN and OUT, got "@ + event_set_text(bits),
        )),
{
    lemma_named_bits_are_low(bits);
}

/// Readability is asked for as 0x100 and writability as 0x10, each exactly when
/// it is wanted.
pub proof fn what_is_wanted_is_asked_for(interest: EventSet, r: i16)
    requires
        call_ensures(poll_events, (interest,), r),
    ensures
        r == (if interest@ & 1 == 1 {
            0x100int
        } else {
            0
        }) + (if interest@ & 2 == 2 {
            0x10int
        } else {
            0
        }),
{
}

/// What came back is reported: 0x10 as writable; 0x100, an error, a hang-up and
/// an invalid descriptor as readable; and what is none of these as readable.
/// Nothing is reported as nothing.
pub proof fn what_came_back_is_reported(revents: i16, r: Option<EventSet>)
    requires
        call_ensures(event_set_of, (revents,), r),
    ensures
        r is None <==> revents == 0,
        r matches Some(set) ==> ({
            let writable = revents & 0x10 != 0;
            let readable = revents & 0x100 != 0 || revents & 1 != 0 || revents & 2 != 0 || revents
                & 4 != 0;
            &&& set@ == reported_bits(revents)
            &&& set@ == (if writable {
                2int
            } else {
                0
            }) + (if readable || !writable {
                1int
            } else {
                0
            })
        }),
{
    assert((revents & 0x110 == 0) == (revents & 0x100 == 0 && revents & 0x10 == 0)
        && (revents & 7 == 0) == (revents & 1 == 0 && revents & 2 == 0 && revents & 4 == 0))
        by (bit_vector);
}

/// Whether `list` asks about each of `sockets`, once, for what it is watched
/// for.
pub open spec fn asks_about_each(
    sockets: Map<usize, SocketRegistration>,
    list: Seq<PollEntry>,
) -> bool {
    &&& forall|s: usize| #[trigger]
        sockets.contains_key(s) ==> exists|i: int| 0 <= i < list.len() && #[trigger] list[i].fd == s
    &&& forall|i: int, j: int|
        0 <= i < j < list.len() ==> #[trigger] list[i].fd != #[trigger] list[j].fd
    &&& forall|i: int|
        0 <= i < list.len() ==> {
            let fd = #[trigger] list[i].fd;
            let interest = sockets[fd].interest@;
            &&& sockets.contains_key(fd)
            &&& list[i].data == sockets[fd].data
            &&& list[i].revents == 0
            &&& list[i].events == (if interest & 1 == 1 {
                0x100int
            } else {
                0
            }) + (if interest & 2 == 2 {
                0x10int
            } else {
                0
            })
        }
}

/// Whether `list` asks about each of `sockets` and, last, whether the wake
/// socket is readable.
pub open spec fn asks_about_each_and_wake(list: EpollView, asked: Seq<PollEntry>) -> bool {
    &&& asked.len() > 0
    &&& asks_about_each(list.sockets, asked.take(asked.len() - 1))
    &&& list.wake matches Some(wake)
    &&& asked[asked.len() - 1].fd == wake
    &&& asked[asked.len() - 1].events == 0x100
    &&& asked[asked.len() - 1].revents == 0
    &&& asked[asked.len() - 1].data == 0
}

/// A sweep asks about every socket, once, for what it is watched for, unless
/// there is no room or no socket; a poll that blocks also asks, last, about the
/// wake socket, without which there is none.
pub proof fn every_socket_is_asked_about(
    list: &Epoll,
    capacity: usize,
    s: Option<Vec<PollEntry>>,
    b: Option<Vec<PollEntry>>,
)
    requires
        call_ensures(Epoll::sweep_list, (list, capacity), s),
        call_ensures(Epoll::block_list, (list,), b),
    ensures
        s is Some <==> capacity > 0 && list@.sockets.len() > 0,
        s matches Some(asked) ==> asks_about_each(list@.sockets, asked@),
        b is Some <==> list@.wake is Some,
        b matches Some(asked) ==> asks_about_each_and_wake(list@, asked@),
{
    if let Some(asked) = b {
        assert(asked@.drop_last() =~= asked@.take(asked@.len() - 1));
    }
}

/// What came back is written beside the socket that it came back for.
pub proof fn what_came_back_stands_beside_its_socket(list: Seq<PollEntry>, revents: Seq<i16>)
    ensures
        polled(list, revents).len() == list.len(),
        forall|i: int|
            0 <= i < list.len() ==> {
                &&& (#[trigger] polled(list, revents)[i]).fd == list[i].fd
                &&& polled(list, revents)[i].events == list[i].events
                &&& polled(list, revents)[i].data == list[i].data
                &&& i < revents.len() ==> polled(list, revents)[i].revents == revents[i]
                &&& i >= revents.len() ==> polled(list, revents)[i].revents == 0
            },
{
}

/// Each polled socket reports for itself: one event, with its data and with what
/// came back, if anything did; the reports of a list are those of its parts.
pub proof fn each_socket_reports_for_itself(
    entry: PollEntry,
    first: Seq<PollEntry>,
    second: Seq<PollEntry>,
)
    ensures
        ready(seq![]) == Seq::<EpollEvent>::empty(),
        entry.revents == 0 ==> ready(seq![entry]) == Seq::<EpollEvent>::empty(),
        entry.revents != 0 ==> ready(seq![entry]) == seq![
            EpollEvent { events: reported_bits(entry.revents), data: entry.data },
        ],
        ready(first + second) == ready(first) + ready(second),
    decreases second.len(),
{
    reveal_with_fuel(ready, 2);
    assert(seq![entry].drop_last() =~= seq![]);
    assert(seq![entry].last() == entry);
    if second.len() == 0 {
        assert(first + second =~= first);
        assert(ready(first) + ready(second) =~= ready(first));
    } else {
        assert((first + second).drop_last() =~= first + second.drop_last());
        each_socket_reports_for_itself(entry, first, second.drop_last());
        assert(ready(first + second) =~= ready(first) + ready(second));
    }
}

/// Each dequeued key reports for itself: one readable event with the data of its
/// token, if that is live; the reports of keys are those of their parts.
pub proof fn each_key_reports_for_itself(
    data: Map<usize, u64>,
    key: usize,
    first: Seq<usize>,
    second: Seq<usize>,
)
    ensures
        resolved(data, seq![]) == Seq::<EpollEvent>::empty(),
        !data.contains_key(key) ==> resolved(data, seq![key]) == Seq::<EpollEvent>::empty(),
        data.contains_key(key) ==> resolved(data, seq![key]) == seq![
            EpollEvent { events: 1, data: data[key] },
        ],
        resolved(data, first + second) == resolved(data, first) + resolved(data, second),
    decreases second.len(),
{
    reveal_with_fuel(resolved, 2);
    assert(seq![key].drop_last() =~= seq![]);
    assert(seq![key].last() == key);
    if second.len() == 0 {
        assert(first + second =~= first);
        assert(resolved(data, first) + resolved(data, second) =~= resolved(data, first));
    } else {
        assert((first + second).drop_last() =~= first + second.drop_last());
        each_key_reports_for_itself(data, key, first, second.drop_last());
        assert(resolved(data, first + second) =~= resolved(data, first) + resolved(data, second));
    }
}

/// Whether `found` is what `all` begins with, as far as there is room.
pub open spec fn as_far_as_there_is_room(
    all: Seq<EpollEvent>,
    room: usize,
    found: Seq<EpollEvent>,
) -> bool {
    &&& found.len() == all.len() || found.len() == room
    &&& found.len() <= all.len()
    &&& found.len() <= room
    &&& forall|i: int| 0 <= i < found.len() ==> #[trigger] found[i] == all[i]
}

/// A sweep returns what its sockets report, as far as there is room, or the
/// failure of the poll.
pub proof fn a_sweep_returns_what_there_is_room_for(
    list: &Vec<PollEntry>,
    ret: i32,
    last_error: i32,
    capacity: usize,
    r: Result<Vec<EpollEvent>, Error>,
)
    requires
        call_ensures(sweep_sockets, (list, ret, last_error, capacity), r),
    ensures
        match r {
            Ok(events) => ret != -1i32 && as_far_as_there_is_room(
                ready(list@),
                capacity,
                events@,
            ),
            Err(e) => ret == -1i32 && e@ == ErrorView::Os(last_error),
        },
{
}

/// A poll that could block timed out, woke up or found a socket, by what it
/// returned. Only a read that took nothing ends the draining.
pub proof fn a_poll_says_why_it_came_back(
    ret: i32,
    last_error: i32,
    wake_revents: i16,
    r: Result<Blocked, Error>,
    n: i32,
    again: bool,
)
    requires
        call_ensures(poll_block, (ret, last_error, wake_revents), r),
        call_ensures(drain_again, (n,), again),
    ensures
        again <==> n >= 1,
        match r {
            Err(e) => ret == -1i32 && e@ == ErrorView::Os(last_error),
            Ok(Blocked::TimedOut) => ret == 0,
            Ok(Blocked::Wake) => ret != -1i32 && ret != 0 && wake_revents != 0,
            Ok(Blocked::Ready) => ret != -1i32 && ret != 0 && wake_revents == 0,
        },
{
}

/// A callback posts its token to its port, and wakes the socket that is
/// published, if that is none of the negative numbers.
pub proof fn a_callback_posts_its_token(
    iocp: usize,
    token: usize,
    p: WaitPost,
    writer: isize,
    t: Option<usize>,
)
    requires
        call_ensures(wait_post, (iocp, token), p),
        call_ensures(wake_target, (writer,), t),
    ensures
        p.iocp == iocp,
        p.key == token,
        t is Some <==> writer >= 0,
        t matches Some(socket) ==> socket == writer,
{
}

/// A wait for handles begins with nothing found, and its first dequeue waits
/// exactly as long as was asked for: `timeout` milliseconds, or for ever if that
/// is negative.
pub proof fn a_wait_for_handles_begins_with_its_whole_time(
    timeout: i32,
    capacity: usize,
    wait: &HandleWait,
    made: HandleWait,
    next: Option<(u32, u32)>,
    clock: bool,
)
    requires
        call_ensures(HandleWait::new, (timeout, capacity), made),
        wait@ == made@,
        call_ensures(HandleWait::next, (wait,), next),
        call_ensures(HandleWait::needs_clock, (wait,), clock),
    ensures
        made@.found.len() == 0,
        made@.capacity == capacity,
        clock <==> timeout > 0,
        next is None <==> capacity == 0,
        next matches Some((want, wait_ms)) ==> {
            &&& want == one_batch(capacity as int)
            &&& timeout >= 0 ==> wait_ms == timeout
            &&& timeout < 0 ==> wait_ms == 0xFFFF_FFFF
        },
{
}

/// What is left is what the next dequeue waits for, in whole milliseconds.
pub proof fn the_next_dequeue_waits_for_what_is_left(wait: &mut HandleWait, left: Left, r: ())
    requires
        call_ensures(HandleWait::set_left, (wait, left), r),
    ensures
        final(wait)@.found == old(wait)@.found,
        final(wait)@.capacity == old(wait)@.capacity,
        waits_for(left, final(wait)@.wait_ms),
{
}

/// Whether `wait_ms` is `left` in whole milliseconds, rounded down, or as much of
/// it as fits.
pub open spec fn waits_for(left: Left, wait_ms: u32) -> bool {
    match left {
        Left::Forever => wait_ms == 0xFFFF_FFFF,
        Left::Nothing => wait_ms == 0,
        Left::Nanoseconds(n) => wait_ms < 0xFFFF_FFFF && wait_ms * 1_000_000 <= n && (n < wait_ms
            * 1_000_000 + 1_000_000 || wait_ms == 0xFFFF_FFFE),
    }
}

/// A batch of a wait for handles appends what its keys report. The wait is over
/// when there is no more room; when a dequeue fails after something was found;
/// and when one fails, or times out in a wait that is not for ever.
pub proof fn a_batch_appends_what_its_keys_report(
    list: &Epoll,
    wait: &mut HandleWait,
    batch: Batch,
    r: Option<Result<usize, Error>>,
)
    requires
        old(wait)@.wf(),
        batch matches Batch::Keys(keys) ==> keys@.len() <= old(wait)@.capacity
            - old(wait)@.found.len(),
        call_ensures(Epoll::wait_handles, (list, wait, batch), r),
    ensures
        final(wait)@.capacity == old(wait)@.capacity,
        batch matches Batch::Keys(keys) ==> {
            &&& final(wait)@.found == old(wait)@.found + resolved(list@.data_by_token, keys@)
            &&& final(wait)@.found.len() > 0 ==> final(wait)@.wait_ms == 0
            &&& final(wait)@.found.len() == 0 ==> final(wait)@.wait_ms == old(wait)@.wait_ms
            &&& r is Some <==> final(wait)@.found.len() == old(wait)@.capacity
            &&& r matches Some(result) ==> result == Ok::<usize, Error>(old(wait)@.capacity)
        },
        batch matches Batch::Failed(error) ==> {
            &&& final(wait)@ == old(wait)@
            &&& old(wait)@.found.len() > 0 ==> (r matches Some(Ok(n)) && n
                == old(wait)@.found.len())
            &&& old(wait)@.found.len() == 0 && error != 258 ==> r == Some(
                Err::<usize, Error>(Error::Os(error as i32)),
            )
            &&& old(wait)@.found.len() == 0 && error == 258 && old(wait)@.wait_ms == 0xFFFF_FFFF
                ==> r is None
            &&& old(wait)@.found.len() == 0 && error == 258 && old(wait)@.wait_ms != 0xFFFF_FFFF
                ==> r == Some(Ok::<usize, Error>(0))
        },
{
    if let Batch::Keys(keys) = batch {
        lemma_no_more_than_the_keys(list@.data_by_token, keys@);
    }
}

proof fn lemma_no_more_than_the_keys(data: Map<usize, u64>, keys: Seq<usize>)
    ensures
        resolved(data, keys).len() <= keys.len(),
    decreases keys.len(),
{
    if keys.len() > 0 {
        lemma_no_more_than_the_keys(data, keys.drop_last());
    }
}

/// How a wait begins. Without sockets, with a dequeue of as much as there is room
/// for, that waits exactly as long as was asked for. With sockets, with a sweep
/// that asks about each of them.
pub proof fn a_wait_begins_as_it_was_asked_to(
    list: &Epoll,
    timeout: i32,
    capacity: usize,
    r: (Waiter, WaitStep),
)
    requires
        list.wf(),
        call_ensures(Epoll::wait, (list, timeout, capacity), r),
    ensures
        r.0@.timeout == timeout,
        r.0@.capacity == capacity,
        r.0@.sockets == (list@.sockets.len() > 0),
        r.0@.events().len() == 0,
        list@.sockets.len() == 0 ==> r.0@.handles.capacity == capacity,
        list@.sockets.len() == 0 && capacity == 0 ==> r.1 == WaitStep::Done(Ok::<usize, Error>(0)),
        list@.sockets.len() == 0 && capacity > 0 ==> {
            &&& r.1 matches WaitStep::Dequeue { want, wait_ms }
            &&& want == one_batch(capacity as int)
            &&& timeout >= 0 ==> wait_ms == timeout
            &&& timeout < 0 ==> wait_ms == 0xFFFF_FFFF
        },
        list@.sockets.len() > 0 && capacity > 0 ==> {
            &&& r.1 matches WaitStep::Sweep(asked)
            &&& asks_about_each(list@.sockets, asked@)
        },
        list@.sockets.len() > 0 && capacity == 0 && timeout >= 0 ==> r.1 == WaitStep::Clock,
        list@.sockets.len() > 0 && capacity == 0 && timeout < 0 ==> {
            &&& r.1 matches WaitStep::Block { list: asked, timeout_ms }
            &&& timeout_ms == 50
            &&& asks_about_each_and_wake(list@, asked@)
        },
{
    if let WaitStep::Block { list: asked, .. } = r.1 {
        assert(asked@.drop_last() =~= asked@.take(asked@.len() - 1));
    }
}

/// What a wait was asked for stays, through every step.
pub proof fn a_wait_keeps_its_terms(
    list: &Epoll,
    waiter: &mut Waiter,
    step: WaitStep,
    reply: WaitReply,
    r: WaitStep,
)
    requires
        call_ensures(Epoll::wait_next, (list, waiter, step, reply), r),
    ensures
        final(waiter)@.timeout == old(waiter)@.timeout,
        final(waiter)@.capacity == old(waiter)@.capacity,
        final(waiter)@.sockets == old(waiter)@.sockets,
{
}

/// A sweep finds what its sockets report, as far as there is room. The handles
/// come next, without waiting, if there is room left; otherwise the wait is over.
pub proof fn a_wait_goes_from_the_sockets_to_the_handles(
    list: &Epoll,
    waiter: &mut Waiter,
    asked: Vec<PollEntry>,
    ret: i32,
    last_error: i32,
    revents: Vec<i16>,
    r: WaitStep,
)
    requires
        list.wf(),
        old(waiter)@.wf(),
        old(waiter)@.capacity > 0,
        old(waiter)@.stands_at(WaitStep::Sweep(asked)),
        call_ensures(
            Epoll::wait_next,
            (
                list,
                waiter,
                WaitStep::Sweep(asked),
                WaitReply::Swept { ret, last_error, revents },
            ),
            r,
        ),
    ensures
        ret == -1i32 ==> final(waiter)@ == old(waiter)@ && r == WaitStep::Done(
            Err::<usize, Error>(Error::Os(last_error)),
        ),
        ret != -1i32 ==> ({
            let found = final(waiter)@.swept;
            let room = old(waiter)@.capacity - found.len();
            &&& as_far_as_there_is_room(
                ready(polled(asked@, revents@)),
                old(waiter)@.capacity,
                found,
            )
            &&& final(waiter)@.events() == found
            &&& room == 0 ==> r == WaitStep::Done(Ok::<usize, Error>(old(waiter)@.capacity))
            &&& room > 0 ==> {
                &&& r matches WaitStep::Dequeue { want, wait_ms }
                &&& want == one_batch(room)
                &&& wait_ms == 0
                &&& final(waiter)@.handles.capacity == room
            }
        }),
{
    assert(final(waiter)@.swept + final(waiter)@.handles.found =~= if ret == -1i32 {
        old(waiter)@.events()
    } else {
        final(waiter)@.swept
    });
}

/// Dequeued keys append what they report. The wait is over when there is no more
/// room; otherwise it dequeues again: without waiting once something was found,
/// and until then for as long as it was told to, with a look at the clock unless
/// that is not at all or for ever.
pub proof fn a_wait_appends_what_its_keys_report(
    list: &Epoll,
    waiter: &mut Waiter,
    want: u32,
    wait_ms: u32,
    keys: Vec<usize>,
    r: WaitStep,
)
    requires
        list.wf(),
        old(waiter)@.wf(),
        old(waiter)@.stands_at(WaitStep::Dequeue { want, wait_ms }),
        keys@.len() <= want,
        call_ensures(
            Epoll::wait_next,
            (
                list,
                waiter,
                WaitStep::Dequeue { want, wait_ms },
                WaitReply::Dequeued(Batch::Keys(keys)),
            ),
            r,
        ),
    ensures
        final(waiter)@.swept == old(waiter)@.swept,
        final(waiter)@.events() == old(waiter)@.events() + resolved(list@.data_by_token, keys@),
        ({
            let found = final(waiter)@.handles.found.len();
            let room = old(waiter)@.handles.capacity - found;
            &&& final(waiter)@.handles.capacity == old(waiter)@.handles.capacity
            &&& room == 0 ==> (r matches WaitStep::Done(Ok(n)) && n
                == final(waiter)@.events().len())
            &&& room > 0 && found > 0 ==> (r matches WaitStep::Dequeue { want: w, wait_ms: t } && w
                == one_batch(room) && t == 0)
            &&& room > 0 && found == 0 && (wait_ms == 0 || wait_ms == 0xFFFF_FFFF) ==> (
            r matches WaitStep::Dequeue { want: w, wait_ms: t } && w == one_batch(room) && t
                == wait_ms)
            &&& room > 0 && found == 0 && wait_ms != 0 && wait_ms != 0xFFFF_FFFF ==> r
                == WaitStep::Clock
        }),
{
    lemma_no_more_than_the_keys(list@.data_by_token, keys@);
    assert(final(waiter)@.events() =~= old(waiter)@.events() + resolved(
        list@.data_by_token,
        keys@,
    ));
}

/// A dequeue that fails leaves what was found. The wait is over if something
/// was; if it failed for another reason than the time; and, without sockets, if
/// it was not to wait for ever. With sockets it goes on to block.
pub proof fn a_wait_takes_a_failed_dequeue_for_the_end_of_what_is_ready(
    list: &Epoll,
    waiter: &mut Waiter,
    want: u32,
    wait_ms: u32,
    error: u32,
    r: WaitStep,
)
    requires
        list.wf(),
        old(waiter)@.wf(),
        old(waiter)@.stands_at(WaitStep::Dequeue { want, wait_ms }),
        call_ensures(
            Epoll::wait_next,
            (
                list,
                waiter,
                WaitStep::Dequeue { want, wait_ms },
                WaitReply::Dequeued(Batch::Failed(error)),
            ),
            r,
        ),
    ensures
        final(waiter)@.swept == old(waiter)@.swept,
        final(waiter)@.handles == old(waiter)@.handles,
        ({
            let waiter = old(waiter)@;
            let none = waiter.handles.found.len() == 0;
            &&& !none ==> (r matches WaitStep::Done(Ok(n)) && n == waiter.events().len())
            &&& none && error != 258 ==> r == WaitStep::Done(
                Err::<usize, Error>(Error::Os(error as i32)),
            )
            &&& none && error == 258 && wait_ms == 0xFFFF_FFFF ==> r == (WaitStep::Dequeue {
                want,
                wait_ms,
            })
            &&& none && error == 258 && wait_ms != 0xFFFF_FFFF && (!waiter.sockets
                || waiter.swept.len() > 0) ==> (r matches WaitStep::Done(Ok(n)) && n
                == waiter.swept.len())
            &&& none && error == 258 && waiter.sockets && waiter.swept.len() == 0 && waiter.timeout
                >= 0 ==> r == WaitStep::Clock
            &&& none && error == 258 && waiter.sockets && waiter.swept.len() == 0 && waiter.timeout
                < 0 ==> {
                &&& r matches WaitStep::Block { list: asked, timeout_ms }
                &&& timeout_ms == 50
                &&& asks_about_each_and_wake(list@, asked@)
            }
        }),
{
    if let WaitStep::Block { list: asked, .. } = r {
        assert(asked@.drop_last() =~= asked@.take(asked@.len() - 1));
    }
}

/// Once the clock was read, a wait for handles dequeues for what is left. One
/// with sockets is over when nothing is left, and blocks otherwise, for what is
/// left and no more than 50 milliseconds.
pub proof fn a_wait_goes_on_for_what_is_left(
    list: &Epoll,
    waiter: &mut Waiter,
    left: Left,
    r: WaitStep,
)
    requires
        list.wf(),
        old(waiter)@.wf(),
        old(waiter)@.stands_at(WaitStep::Clock),
        old(waiter)@.sockets ==> list@.wake is Some,
        call_ensures(
            Epoll::wait_next,
            (list, waiter, WaitStep::Clock, WaitReply::Clock(left)),
            r,
        ),
    ensures
        final(waiter)@.events() == old(waiter)@.events(),
        !old(waiter)@.sockets ==> {
            &&& r matches WaitStep::Dequeue { want, wait_ms }
            &&& want == one_batch(
                old(waiter)@.handles.capacity - old(waiter)@.handles.found.len(),
            )
            &&& waits_for(left, wait_ms)
            &&& final(waiter)@.handles.capacity == old(waiter)@.handles.capacity
        },
        old(waiter)@.sockets && left == Left::Nothing ==> r == WaitStep::Done(
            Ok::<usize, Error>(0),
        ),
        old(waiter)@.sockets && left != Left::Nothing ==> {
            &&& r matches WaitStep::Block { list: asked, timeout_ms }
            &&& asks_about_each_and_wake(list@, asked@)
            &&& left == Left::Forever ==> timeout_ms == 50
            &&& left matches Left::Nanoseconds(n) ==> 0 <= timeout_ms <= 50 && timeout_ms
                * 1_000_000 <= n && (n < timeout_ms * 1_000_000 + 1_000_000 || timeout_ms == 50)
        },
{
    if let WaitStep::Block { list: asked, .. } = r {
        assert(asked@.drop_last() =~= asked@.take(asked@.len() - 1));
    }
    assert(final(waiter)@.events() =~= old(waiter)@.events());
}

/// Whether a wait that has found nothing goes on with another round: the sockets,
/// if there is one, then the handles, with room for all that was asked for.
pub open spec fn goes_round(
    list: EpollView,
    waiter: WaiterView,
    after: WaiterView,
    r: WaitStep,
) -> bool {
    &&& after.events().len() == 0
    &&& if waiter.capacity > 0 && list.sockets.len() > 0 {
        &&& r matches WaitStep::Sweep(asked)
        &&& asks_about_each(list.sockets, asked@)
    } else if waiter.capacity > 0 {
        &&& r matches WaitStep::Dequeue { want, wait_ms }
        &&& want == one_batch(waiter.capacity as int)
        &&& wait_ms == 0
        &&& after.handles.capacity == waiter.capacity
    } else if waiter.timeout >= 0 {
        r == WaitStep::Clock
    } else {
        &&& r matches WaitStep::Block { list: asked, timeout_ms }
        &&& timeout_ms == 50
        &&& asks_about_each_and_wake(list, asked@)
    }
}

/// A wait that read the clock, blocked and timed out is over exactly when the
/// poll had all that was left, to the millisecond: less than 51 of them. A wait
/// that has longer, or for ever, or whose poll found a socket, goes round again.
pub proof fn a_wait_gives_up_when_the_last_poll_had_all_its_time(
    first: &Epoll,
    waiter: &mut Waiter,
    left: Left,
    blocked: WaitStep,
    second: &Epoll,
    later: &mut Waiter,
    ret: i32,
    last_error: i32,
    wake_revents: i16,
    r: WaitStep,
)
    requires
        first.wf(),
        old(waiter)@.wf(),
        old(waiter)@.sockets,
        old(waiter)@.stands_at(WaitStep::Clock),
        first@.wake is Some,
        call_ensures(
            Epoll::wait_next,
            (first, waiter, WaitStep::Clock, WaitReply::Clock(left)),
            blocked,
        ),
        left != Left::Nothing,
        old(later)@ == final(waiter)@,
        second.wf(),
        second@.wake is Some,
        call_ensures(
            Epoll::wait_next,
            (second, later, blocked, WaitReply::Blocked { ret, last_error, wake_revents }),
            r,
        ),
    ensures
        ret == -1i32 ==> r == WaitStep::Done(Err::<usize, Error>(Error::Os(last_error))),
        ret != -1i32 && ret != 0 && wake_revents != 0 ==> (second@.wake matches Some(socket) && r
            == (WaitStep::Drain { socket })),
        ret != -1i32 && ret != 0 && wake_revents == 0 ==> goes_round(
            second@,
            old(waiter)@,
            final(later)@,
            r,
        ),
        ret == 0 && (left matches Left::Nanoseconds(n) && n < 51_000_000) ==> r == WaitStep::Done(
            Ok::<usize, Error>(0),
        ),
        ret == 0 && !(left matches Left::Nanoseconds(n) && n < 51_000_000) ==> goes_round(
            second@,
            old(waiter)@,
            final(later)@,
            r,
        ),
{
    if let WaitStep::Block { list: asked, .. } = r {
        assert(asked@.drop_last() =~= asked@.take(asked@.len() - 1));
    }
}

/// A wait for ever that blocked does not give up, however the poll came back.
pub proof fn a_wait_for_ever_goes_round(
    list: &Epoll,
    waiter: &mut Waiter,
    asked: Vec<PollEntry>,
    timeout_ms: i32,
    ret: i32,
    last_error: i32,
    wake_revents: i16,
    r: WaitStep,
)
    requires
        list.wf(),
        list@.wake is Some,
        old(waiter)@.wf(),
        old(waiter)@.sockets,
        old(waiter)@.remaining < 0,
        old(waiter)@.stands_at(WaitStep::Block { list: asked, timeout_ms }),
        ret != -1i32,
        ret == 0 || wake_revents == 0,
        call_ensures(
            Epoll::wait_next,
            (
                list,
                waiter,
                WaitStep::Block { list: asked, timeout_ms },
                WaitReply::Blocked { ret, last_error, wake_revents },
            ),
            r,
        ),
    ensures
        goes_round(list@, old(waiter)@, final(waiter)@, r),
{
    if let WaitStep::Block { list: asked, .. } = r {
        assert(asked@.drop_last() =~= asked@.take(asked@.len() - 1));
    }
}

/// A drained wake socket is followed by another round, whatever time is left.
pub proof fn a_wake_up_is_followed_by_a_round(
    list: &Epoll,
    waiter: &mut Waiter,
    socket: usize,
    r: WaitStep,
)
    requires
        list.wf(),
        list@.wake is Some,
        old(waiter)@.wf(),
        old(waiter)@.stands_at(WaitStep::Drain { socket }),
        call_ensures(
            Epoll::wait_next,
            (list, waiter, WaitStep::Drain { socket }, WaitReply::Drained),
            r,
        ),
    ensures
        goes_round(list@, old(waiter)@, final(waiter)@, r),
{
    if let WaitStep::Block { list: asked, .. } = r {
        assert(asked@.drop_last() =~= asked@.take(asked@.len() - 1));
    }
}

/// A reply to another step than the one that a wait stands at changes nothing.
pub proof fn a_reply_to_another_step_changes_nothing(
    list: &Epoll,
    waiter: &mut Waiter,
    step: WaitStep,
    reply: WaitReply,
    r: WaitStep,
)
    requires
        call_ensures(Epoll::wait_next, (list, waiter, step, reply), r),
        match (step, reply) {
            (WaitStep::Sweep(_), WaitReply::Swept { .. }) => false,
            (WaitStep::Dequeue { .. }, WaitReply::Dequeued(_)) => false,
            (WaitStep::Clock, WaitReply::Clock(_)) => false,
            (WaitStep::Block { .. }, WaitReply::Blocked { .. }) => false,
            (WaitStep::Drain { .. }, WaitReply::Drained) => false,
            _ => true,
        },
    ensures
        final(waiter)@ == old(waiter)@,
        r == step,
{
}

/// What a wait found is handed out: the sockets of the last sweep, then the
/// handles.
pub proof fn sockets_come_before_handles(waiter: Waiter, r: Vec<EpollEvent>)
    requires
        call_ensures(Waiter::into_events, (waiter,), r),
    ensures
        r@.len() == waiter@.swept.len() + waiter@.handles.found.len(),
        forall|i: int| 0 <= i < waiter@.swept.len() ==> #[trigger] r@[i] == waiter@.swept[i],
        forall|i: int|
            waiter@.swept.len() <= i < r@.len() ==> #[trigger] r@[i] == waiter@.handles.found[i
                - waiter@.swept.len()],
{
}

/// A fresh list has nothing in it; there is none over no port.
pub proof fn a_fresh_list_is_empty(iocp: usize, last_error: i32, r: Result<Epoll, Error>)
    requires
        call_ensures(Epoll::new, (iocp, last_error), r),
    ensures
        r is Ok <==> iocp != 0,
        r matches Err(e) ==> e@ == ErrorView::Os(last_error),
        r matches Ok(list) ==> {
            &&& list@.iocp == iocp
            &&& list@.by_handle.dom() == Set::<usize>::empty()
            &&& list@.data_by_token.dom() == Set::<usize>::empty()
            &&& list@.sockets.dom() == Set::<usize>::empty()
            &&& list@.retired == Set::<usize>::empty()
            &&& list@.next_token == 0
            &&& list@.wake is None
        },
{
}

/// A teardown unpublishes the wake socket, then unregisters every wait, once and
/// nothing else, then closes the wake socket, if there is one, and then the
/// port. The list is empty afterwards, and every token that was live is retired.
pub proof fn a_teardown_closes_the_port_last(list: &mut Epoll, r: Vec<Teardown>)
    requires
        old(list).wf(),
        call_ensures(Epoll::teardown, (list,), r),
    ensures
        ({
            let waits = r@.len() - if old(list)@.wake is Some {
                3int
            } else {
                2
            };
            &&& waits >= 0
            &&& r@[0] == Teardown::Unpublish
            &&& r@[r@.len() - 1] == Teardown::ClosePort(old(list)@.iocp)
            &&& old(list)@.wake matches Some(wake) ==> r@[r@.len() - 2] == Teardown::CloseWake(wake)
            &&& forall|i: int|
                1 <= i <= waits ==> ((#[trigger] r@[i]) matches Teardown::Unregister {
                    handle,
                    wait_handle,
                } && old(list)@.by_handle.contains_key(handle) && wait_handle
                    == old(list)@.by_handle[handle].wait_handle)
            &&& forall|h: usize| #[trigger]
                old(list)@.by_handle.contains_key(h) ==> exists|i: int|
                    1 <= i <= waits && #[trigger] r@[i] == (Teardown::Unregister {
                        handle: h,
                        wait_handle: old(list)@.by_handle[h].wait_handle,
                    })
            &&& forall|i: int, j: int|
                1 <= i < j <= waits ==> #[trigger] r@[i] != #[trigger] r@[j]
        }),
        final(list)@.by_handle.dom() == Set::<usize>::empty(),
        final(list)@.data_by_token.dom() == Set::<usize>::empty(),
        final(list)@.sockets.dom() == Set::<usize>::empty(),
        final(list)@.wake is None,
        final(list)@.next_token == old(list)@.next_token,
        forall|t: usize| #[trigger]
            old(list)@.data_by_token.contains_key(t) ==> final(list)@.retired.contains(t),
{
    let waits = choose|waits: Seq<Teardown>| #[trigger]
        crate::epoll::unregisters_all(old(list)@.by_handle, waits) && r@ == seq![Teardown::Unpublish]
            + waits + crate::epoll::teardown_tail(old(list)@.wake, old(list)@.iocp);
    let tail = crate::epoll::teardown_tail(old(list)@.wake, old(list)@.iocp);
    assert(r@.len() == 1 + waits.len() + tail.len());
    assert forall|i: int| 1 <= i <= waits.len() implies #[trigger] r@[i] == waits[i - 1] by {}
    assert forall|i: int| 1 <= i <= waits.len() implies ((#[trigger] r@[i]) matches Teardown::Unregister {
        handle,
        wait_handle,
    } && old(list)@.by_handle.contains_key(handle) && wait_handle
        == old(list)@.by_handle[handle].wait_handle) by {
        assert(waits[i - 1] is Unregister);
    }
    assert forall|h: usize| #[trigger] old(list)@.by_handle.contains_key(h) implies exists|i: int|
        1 <= i <= waits.len() && #[trigger] r@[i] == (Teardown::Unregister {
            handle: h,
            wait_handle: old(list)@.by_handle[h].wait_handle,
        }) by {
        let k = choose|k: int| 0 <= k < waits.len() && (#[trigger] waits[k])->handle == h;
        assert(waits[k] is Unregister);
        assert(r@[k + 1] == waits[k]);
    }
    assert forall|i: int, j: int| 1 <= i < j <= waits.len() implies #[trigger] r@[i]
        != #[trigger] r@[j] by {
        assert(waits[i - 1]->handle != waits[j - 1]->handle);
    }
}

/// What the dequeues of a wait without sockets are told, whatever happens
/// meanwhile: the first one to wait for the whole timeout; one that follows on a
/// look at the clock, for what the clock said is left; any other, for as long as
/// the one before it, which was not at all or for ever, or not at all once
/// something was found. A reply to another step repeats the step. A wait with a
/// timeout that ends with nothing, and had room for something, was last told to
/// dequeue, and that dequeue timed out.
pub proof fn the_dequeues_of_a_wait_are_told_what_is_left(run: WaitRun, n: int)
    requires
        run.wf(),
        !run.waiters[0].sockets,
        run.capacity > 0,
        0 <= n < run.steps.len(),
    ensures
        n == 0 ==> (run.steps[0] matches WaitStep::Dequeue { want, wait_ms } && want == one_batch(
            run.capacity as int,
        ) && (run.timeout >= 0 ==> wait_ms == run.timeout) && (run.timeout < 0 ==> wait_ms
            == 0xFFFF_FFFF)),
        n > 0 ==> (run.steps[n] matches WaitStep::Dequeue { wait_ms, .. } ==> {
            ||| run.steps[n - 1] is Clock && (run.replies[n - 1] matches WaitReply::Clock(left)
                && waits_for(left, wait_ms))
            ||| run.waiters[n].handles.found.len() > 0 && wait_ms == 0
            ||| run.steps[n - 1] matches WaitStep::Dequeue { wait_ms: before, .. } && before
                == wait_ms && (wait_ms == 0 || wait_ms == 0xFFFF_FFFF)
            ||| run.steps[n] == run.steps[n - 1]
        }),
        n > 0 && run.timeout >= 0 && run.steps[n] == WaitStep::Done(Ok::<usize, Error>(0))
            && run.steps[n - 1] !is Done ==> run.steps[n - 1] is Dequeue && (run.replies[n
            - 1] matches WaitReply::Dequeued(Batch::Failed(error)) && error == 258),
        run.steps[n] !is Sweep && run.steps[n] !is Block && run.steps[n] !is Drain,
    decreases n,
{
    assert(run.waiters[n].wf());
    assert(run.lists[0].sockets.len() == 0) by {
        assert(run.waiters[0].wf());
        if run.lists[0].sockets.len() > 0 {
            assert(run.waiters[0].sockets);
        }
    }
    if n > 0 {
        the_dequeues_of_a_wait_are_told_what_is_left(run, n - 1);
        crate::epoll::laws::a_wait_reports_every_completion_it_takes(run, (n - 1) as nat);
        lemma_a_wait_stays_without_sockets(run, n - 1);
        assert(run.waiters[n - 1].wf());
        let reply = run.replies[n - 1];
        if let WaitReply::Dequeued(Batch::Keys(keys)) = reply {
            lemma_no_more_than_the_keys(run.lists[n].data_by_token, keys@);
        }
    }
}

proof fn lemma_a_wait_stays_without_sockets(run: WaitRun, n: int)
    requires
        run.wf(),
        !run.waiters[0].sockets,
        0 <= n < run.steps.len(),
    ensures
        !run.waiters[n].sockets,
    decreases n,
{
    if n > 0 {
        lemma_a_wait_stays_without_sockets(run, n - 1);
        let reply = run.replies[n - 1];
        assert(run.waiters[n - 1].wf());
    }
}

/// An event is what it was made of.
pub proof fn an_event_is_what_it_was_made_of(
    events: EventSet,
    data: u64,
    made: EpollEvent,
    none: EpollEvent,
    event: &EpollEvent,
    set: EventSet,
    d: u64,
)
    requires
        call_ensures(EpollEvent::new, (events, data), made),
        call_ensures(EpollEvent::default, (), none),
        call_ensures(EpollEvent::event_set, (event,), set),
        call_ensures(EpollEvent::data, (event,), d),
    ensures
        made.events == events@,
        made.data == data,
        none.events == 0,
        none.data == 0,
        set@ == event.events,
        d == event.data,
{
}

/// A list says what it is over, and whether there is a wake socket and a token
/// left. Every change begins with the question whether the handle is a socket.
pub proof fn a_list_says_what_it_has(
    list: &Epoll,
    iocp: usize,
    wake: Option<usize>,
    can_mint: bool,
    first: Ctl,
)
    requires
        call_ensures(Epoll::as_raw_handle, (list,), iocp),
        call_ensures(Epoll::wake, (list,), wake),
        call_ensures(Epoll::can_mint, (list,), can_mint),
        call_ensures(Ctl::start, (), first),
    ensures
        iocp == list@.iocp,
        wake == list@.wake,
        can_mint <==> list@.next_token < usize::MAX,
        first == Ctl::SocketType,
{
}

} // verus!
