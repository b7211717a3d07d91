//! What an interest list promises across calls.

use super::{
    at_most, begins_wait, block_for, can_stand_at, ctl_follows, lists_sockets, poll_bits, polled,
    ready, reported_bits, resolved, wait_follows, Batch, ControlOperation, Ctl, CtlReply,
    EpollEvent, EpollView, EventSet, PollEntry, SocketRegistration, WaitReply, WaitStep, WaiterView,
    RECHECK_MS,
};
use super::control::{done_well, done_with};
use crate::completion::{budget_of, Left};
use crate::error::{Error, ErrorKind, ErrorView};
use crate::sys;
use vstd::prelude::*;

pub mod effects;

verus! {

/// A token that is about to be minted names nothing. Since minting only counts
/// up, no completion that was ever queued can be taken for one of the new
/// registration.
pub proof fn a_fresh_token_names_nothing(list: EpollView)
    requires
        list.wf(),
    ensures
        !list.data_by_token.contains_key(list.next_token),
        !list.registers(list.next_token),
{
}

/// A completion whose key is not a live token reports nothing, wherever it
/// stands in its batch, and takes nothing from the others.
pub proof fn a_stale_key_is_skipped(
    data: Map<usize, u64>,
    before: Seq<usize>,
    key: usize,
    after: Seq<usize>,
)
    requires
        !data.contains_key(key),
    ensures
        resolved(data, before + seq![key] + after) == resolved(data, before + after),
{
    batches_may_be_cut_anywhere(data, before + seq![key], after);
    batches_may_be_cut_anywhere(data, before, seq![key]);
    batches_may_be_cut_anywhere(data, before, after);
    reveal_with_fuel(resolved, 2);
    assert(resolved(data, seq![key]) =~= seq![]);
    assert(resolved(data, before + seq![key]) =~= resolved(data, before));
}

/// Each completion of a live token is reported as exactly one event, with what
/// goes with the token.
pub proof fn a_live_key_is_reported_once(
    data: Map<usize, u64>,
    before: Seq<usize>,
    key: usize,
    after: Seq<usize>,
)
    requires
        data.contains_key(key),
    ensures
        resolved(data, before + seq![key] + after) == resolved(data, before) + seq![
            EpollEvent { events: 1, data: data[key] },
        ] + resolved(data, after),
{
    batches_may_be_cut_anywhere(data, before + seq![key], after);
    batches_may_be_cut_anywhere(data, before, seq![key]);
    reveal_with_fuel(resolved, 2);
    assert(seq![key].drop_last() =~= seq![]);
    assert(resolved(data, seq![key]) =~= seq![EpollEvent { events: 1, data: data[key] }]);
}

/// How queued completions are cut into batches does not matter.
pub proof fn batches_may_be_cut_anywhere(
    data: Map<usize, u64>,
    first: Seq<usize>,
    second: Seq<usize>,
)
    ensures
        resolved(data, first + second) == resolved(data, first) + resolved(data, second),
    decreases second.len(),
{
    if second.len() == 0 {
        assert(first + second =~= first);
    } else {
        batches_may_be_cut_anywhere(data, first, second.drop_last());
        assert((first + second).drop_last() =~= first + second.drop_last());
    }
    assert(resolved(data, first + second) =~= resolved(data, first) + resolved(data, second));
}

/// A completion that was queued before its handle was modified is reported,
/// with the new data, and the registration keeps its token and its wait.
pub proof fn modifying_keeps_queued_completions(list: EpollView, handle: usize, data: u64)
    requires
        list.wf(),
        list.by_handle.contains_key(handle),
    ensures
        list.with_data(handle, data).by_handle == list.by_handle,
        resolved(
            list.with_data(handle, data).data_by_token,
            seq![list.by_handle[handle].token],
        ) == seq![EpollEvent { events: 1, data }],
{
    let token = list.by_handle[handle].token;
    let after = list.with_data(handle, data).data_by_token;
    a_live_key_is_reported_once(after, seq![], token, seq![]);
    assert(Seq::<usize>::empty() + seq![token] + Seq::<usize>::empty() =~= seq![token]);
    assert(resolved(after, seq![token]) =~= seq![EpollEvent { events: 1, data }]);
}

/// Whether a list can come to be `after` from `before` in one step: by a step of
/// a change, or by being taken apart.
pub open spec fn one_change(before: EpollView, after: EpollView) -> bool {
    after == before.emptied() || exists|
        operation: ControlOperation,
        handle: usize,
        event: EpollEvent,
        debug: bool,
        step: Ctl,
        reply: CtlReply,
        r: Ctl,
    |
        can_stand_at(before, handle, event, step) && #[trigger] ctl_follows(
            before,
            operation,
            handle,
            event,
            debug,
            step,
            reply,
            after,
            r,
        )
}

/// Whether `history` is what becomes of a list, one step after another.
pub open spec fn is_history(history: Seq<EpollView>) -> bool {
    &&& forall|i: int| 0 <= i < history.len() ==> (#[trigger] history[i]).wf()
    &&& forall|i: int|
        0 <= i < history.len() - 1 ==> one_change(#[trigger] history[i], history[i + 1])
}

proof fn lemma_a_change_keeps_what_is_retired(before: EpollView, after: EpollView)
    requires
        before.wf(),
        one_change(before, after),
    ensures
        before.retired.subset_of(after.retired),
        before.next_token <= after.next_token,
{
}

proof fn lemma_retired_for_good(history: Seq<EpollView>, token: usize, i: int)
    requires
        is_history(history),
        0 <= i < history.len(),
        history[0].retired.contains(token),
    ensures
        history[i].retired.contains(token),
        history[0].next_token <= history[i].next_token,
    decreases i,
{
    if i > 0 {
        lemma_retired_for_good(history, token, i - 1);
        lemma_a_change_keeps_what_is_retired(history[i - 1], history[i]);
    }
}

/// Once a handle was deleted, a completion that was queued for it reports
/// nothing in any batch of any later wait, whatever becomes of the list
/// meanwhile, even when the handle is added again: the token is never live
/// again. The handle is free to be added.
pub proof fn a_deleted_handle_is_never_delivered(
    list: EpollView,
    handle: usize,
    history: Seq<EpollView>,
    i: int,
    before: Seq<usize>,
    after: Seq<usize>,
)
    requires
        list.wf(),
        list.by_handle.contains_key(handle),
        is_history(history),
        0 <= i < history.len(),
        history[0] == list.without_handle(handle),
    ensures
        ({
            let token = list.by_handle[handle].token;
            let data = history[i].data_by_token;
            &&& !data.contains_key(token)
            &&& resolved(data, before + seq![token] + after) == resolved(data, before + after)
        }),
        !history[0].by_handle.contains_key(handle),
{
    let token = list.by_handle[handle].token;
    lemma_retired_for_good(history, token, i);
    a_stale_key_is_skipped(history[i].data_by_token, before, token, after);
}

/// A step that fails leaves the list as it was. (A handle whose wait cannot be
/// unregistered was taken out of the list by the step before.)
pub proof fn a_step_that_fails_changes_nothing(
    before: EpollView,
    operation: ControlOperation,
    handle: usize,
    event: EpollEvent,
    debug: bool,
    step: Ctl,
    reply: CtlReply,
    after: EpollView,
    r: Ctl,
)
    requires
        before.wf(),
        can_stand_at(before, handle, event, step),
        ctl_follows(before, operation, handle, event, debug, step, reply, after, r),
        r matches Ctl::Done(result) && result is Err,
    ensures
        after == before,
{
}

/// Once there is a wake socket, it stays.
pub proof fn a_wake_socket_stays(
    before: EpollView,
    operation: ControlOperation,
    handle: usize,
    event: EpollEvent,
    debug: bool,
    step: Ctl,
    reply: CtlReply,
    after: EpollView,
    r: Ctl,
)
    requires
        before.wake is Some,
        can_stand_at(before, handle, event, step),
        ctl_follows(before, operation, handle, event, debug, step, reply, after, r),
    ensures
        after.wake == before.wake,
{
}

/// A list that only ever watches handles never makes a wake socket.
pub proof fn handles_need_no_wake_socket(
    before: EpollView,
    operation: ControlOperation,
    handle: usize,
    event: EpollEvent,
    debug: bool,
    step: Ctl,
    reply: CtlReply,
    after: EpollView,
    r: Ctl,
)
    requires
        before.wake is None,
        step !is MakeWake,
        reply matches CtlReply::SocketType(ret) ==> ret == sys::socket_error_value(),
        ctl_follows(before, operation, handle, event, debug, step, reply, after, r),
    ensures
        after.wake is None,
        r !is MakeWake,
{
}

/// A list with a registered socket has more than none, so its waits ask about
/// sockets; and registering or deleting one counts it.
pub proof fn a_registered_socket_counts(list: EpollView, socket: usize)
    requires
        list.wf(),
        list.sockets.contains_key(socket),
    ensures
        list.sockets.len() > 0,
        list.sockets.remove(socket).len() == list.sockets.len() - 1,
        forall|other: usize, interest: EventSet, data: u64|
            #![trigger list.with_socket(other, interest, data)]
            list.with_socket(other, interest, data).sockets.len() == list.sockets.len()
                + if list.sockets.contains_key(other) {
                0int
            } else {
                1
            },
{
    assert(list.sockets.remove(socket).dom() =~= list.sockets.dom().remove(socket));
    assert forall|other: usize, interest: EventSet, data: u64|
        #![trigger list.with_socket(other, interest, data)]
        list.with_socket(other, interest, data).sockets.len() == list.sockets.len()
            + if list.sockets.contains_key(other) {
            0int
        } else {
            1
        } by {
        assert(list.with_socket(other, interest, data).sockets.dom()
            =~= list.sockets.dom().insert(other));
    }
}

/// Every sweep asks about every registered socket, for what it is watched for.
pub proof fn a_registered_socket_is_always_asked_about(
    sockets: Map<usize, SocketRegistration>,
    list: Seq<PollEntry>,
    socket: usize,
)
    requires
        lists_sockets(sockets, list),
        sockets.contains_key(socket),
    ensures
        exists|i: int|
            0 <= i < list.len() && #[trigger] list[i].fd == socket && list[i].events == poll_bits(
                sockets[socket].interest@,
            ) && list[i].data == sockets[socket].data,
{
}

/// No sweep asks about a socket that was deleted.
pub proof fn a_deleted_socket_is_never_asked_about(
    sockets: Map<usize, SocketRegistration>,
    socket: usize,
    list: Seq<PollEntry>,
)
    requires
        lists_sockets(sockets.remove(socket), list),
    ensures
        forall|i: int| 0 <= i < list.len() ==> #[trigger] list[i].fd != socket,
{
    assert forall|i: int| 0 <= i < list.len() implies #[trigger] list[i].fd != socket by {
        assert(sockets.remove(socket).contains_key(list[i].fd));
    }
}

/// Whether `event` reports an entry of `list` that is ready.
pub open spec fn is_report_of(event: EpollEvent, list: Seq<PollEntry>) -> bool {
    exists|i: int|
        0 <= i < list.len() && #[trigger] list[i].revents != 0 && event == (EpollEvent {
            events: reported_bits(list[i].revents),
            data: list[i].data,
        })
}

/// A sweep reports every socket that is ready, and none that is not, as long
/// as there is room.
pub proof fn a_sweep_reports_what_is_ready(list: Seq<PollEntry>, capacity: nat)
    ensures
        ready(list).len() <= list.len(),
        at_most(ready(list), capacity).len() <= capacity,
        capacity >= list.len() ==> at_most(ready(list), capacity) == ready(list),
        forall|i: int|
            0 <= i < list.len() && #[trigger] list[i].revents != 0 ==> ready(list).contains(
                EpollEvent { events: reported_bits(list[i].revents), data: list[i].data },
            ),
        forall|k: int|
            0 <= k < ready(list).len() ==> is_report_of(#[trigger] ready(list)[k], list),
    decreases list.len(),
{
    if list.len() > 0 {
        let earlier = list.drop_last();
        a_sweep_reports_what_is_ready(earlier, capacity);
        let (before, now) = (ready(earlier), ready(list));
        assert forall|i: int| 0 <= i < list.len() && #[trigger] list[i].revents != 0 implies now
            .contains(
            EpollEvent { events: reported_bits(list[i].revents), data: list[i].data },
        ) by {
            let event = EpollEvent {
                events: reported_bits(list[i].revents),
                data: list[i].data,
            };
            if i < earlier.len() {
                assert(earlier[i].revents != 0);
                let k = choose|k: int| 0 <= k < before.len() && before[k] == event;
                assert(now[k] == event);
            } else {
                assert(now[now.len() - 1] == event);
            }
        }
        assert forall|k: int| 0 <= k < now.len() implies is_report_of(#[trigger] now[k], list) by {
            if k < before.len() {
                assert(is_report_of(before[k], earlier));
                let i = choose|i: int|
                    0 <= i < earlier.len() && #[trigger] earlier[i].revents != 0 && before[k] == (
                    EpollEvent { events: reported_bits(earlier[i].revents), data: earlier[i].data });
                assert(list[i].revents != 0);
            } else {
                assert(list[list.len() - 1].revents != 0);
            }
        }
    }
}

/// An error, a hang-up and an invalid descriptor are always reported as
/// readability; writability is reported whenever the poll says so; and a poll
/// that says anything is reported as something.
pub proof fn a_condition_is_reported_as_readable(revents: i16)
    requires
        revents != 0,
    ensures
        reported_bits(revents) == 1 || reported_bits(revents) == 2 || reported_bits(revents) == 3,
        revents & 0x7 != 0 || revents & 0x100 != 0 ==> reported_bits(revents) != 2,
        (revents & 0x10 != 0) == (reported_bits(revents) >= 2),
{
    assert(revents & 0x110 == 0 ==> revents & 0x10 == 0) by (bit_vector);
    assert(revents & 0x10 == 0 && revents & 0x100 == 0 ==> revents & 0x110 == 0) by (bit_vector);
}

/// A wait with sockets blocks for a moment at most, and never for longer than
/// what is left.
pub proof fn blocking_is_short(remaining: i32)
    ensures
        0 <= block_for(remaining) <= RECHECK_MS,
        remaining >= 0 ==> block_for(remaining) <= remaining,
{
}

/// A wait finds no more than there is room for.
pub proof fn a_wait_finds_no_more_than_there_is_room_for(wait: WaiterView)
    requires
        wait.wf(),
    ensures
        wait.events().len() <= wait.capacity,
{
}

/// Neither source blocks while the other might have work: with sockets
/// registered, the handles are asked without waiting, and the wait blocks only
/// once both have been asked and neither had anything.
pub proof fn a_wait_blocks_only_when_nothing_is_ready(before: WaiterView, step: WaitStep)
    requires
        before.wf(),
        before.sockets,
        before.stands_at(step),
    ensures
        step matches WaitStep::Dequeue { wait_ms, .. } ==> wait_ms == 0,
        step is Block ==> before.events().len() == 0,
{
}

/// A wait that ends with nothing has used its time up. With sockets, either the
/// deadline has passed, or the last poll had all that was left and timed out.
/// Without, the last dequeue did.
pub proof fn a_wait_gives_up_only_when_its_time_is_over(
    list: EpollView,
    before: WaiterView,
    step: WaitStep,
    reply: WaitReply,
    after: WaiterView,
    r: WaitStep,
)
    requires
        before.wf(),
        before.stands_at(step),
        step !is Done,
        wait_follows(list, before, step, reply, after, r),
        after.stands_at(r),
        r matches WaitStep::Done(Ok(n)) && n == 0,
    ensures
        match step {
            WaitStep::Clock => before.sockets && reply == WaitReply::Clock(Left::Nothing),
            WaitStep::Block { .. } => 0 <= before.remaining <= RECHECK_MS && (
            reply matches WaitReply::Blocked { ret, .. } && ret == 0),
            WaitStep::Dequeue { wait_ms, .. } => !before.sockets && wait_ms != sys::infinite_value()
                && reply == WaitReply::Dequeued(Batch::Failed(sys::wait_timeout_value())),
            _ => false,
        },
{
}

/// A wait, from its beginning on: where it stood, and what was answered.
pub struct WaitRun {
    /// How long to wait, in milliseconds; for ever if negative.
    pub timeout: i32,
    /// How many events there is room for.
    pub capacity: usize,
    /// The interest list, when the wait began and at each reply. It may change
    /// meanwhile.
    pub lists: Seq<EpollView>,
    /// What was found, at each step.
    pub waiters: Seq<WaiterView>,
    /// The steps.
    pub steps: Seq<WaitStep>,
    /// The reply to each step but the last.
    pub replies: Seq<WaitReply>,
}

/// What a reply takes from the completion port.
pub open spec fn taken(step: WaitStep, reply: WaitReply) -> Seq<usize> {
    match (step, reply) {
        (WaitStep::Dequeue { .. }, WaitReply::Dequeued(Batch::Keys(keys))) => keys@,
        _ => seq![],
    }
}

impl WaitRun {
    /// Whether the wait went as waits go.
    pub open spec fn wf(self) -> bool {
        &&& self.lists.len() == self.replies.len() + 1
        &&& self.waiters.len() == self.replies.len() + 1
        &&& self.steps.len() == self.replies.len() + 1
        &&& begins_wait(
            self.lists[0],
            self.timeout,
            self.capacity,
            self.waiters[0],
            self.steps[0],
        )
        &&& forall|i: int|
            0 <= i < self.steps.len() ==> (#[trigger] self.waiters[i]).wf()
                && self.waiters[i].stands_at(self.steps[i])
        &&& forall|i: int|
            0 <= i < self.replies.len() ==> wait_follows(
                self.lists[i + 1],
                self.waiters[i],
                self.steps[i],
                #[trigger] self.replies[i],
                self.waiters[i + 1],
                self.steps[i + 1],
            )
    }

    /// What the first `n` replies took from the completion port.
    pub open spec fn keys(self, n: nat) -> Seq<usize>
        decreases n,
    {
        if n == 0 {
            seq![]
        } else {
            self.keys((n - 1) as nat) + taken(self.steps[n - 1], self.replies[n - 1])
        }
    }

    /// What the keys of the first `n` replies report, each with what went with
    /// it when it was taken.
    pub open spec fn reported(self, n: nat) -> Seq<EpollEvent>
        decreases n,
    {
        if n == 0 {
            seq![]
        } else {
            self.reported((n - 1) as nat) + resolved(
                self.lists[n as int].data_by_token,
                taken(self.steps[n - 1], self.replies[n - 1]),
            )
        }
    }

    /// Whether the wait is over, with events.
    pub open spec fn ended_well(self) -> bool {
        self.steps.last() matches WaitStep::Done(Ok(_))
    }

    /// What the wait found.
    pub open spec fn events(self) -> Seq<EpollEvent> {
        self.waiters.last().events()
    }
}

proof fn lemma_found_grows(
    list: EpollView,
    before: WaiterView,
    step: WaitStep,
    reply: WaitReply,
    after: WaiterView,
    r: WaitStep,
)
    requires
        before.wf(),
        before.stands_at(step),
        wait_follows(list, before, step, reply, after, r),
    ensures
        after.handles.found == before.handles.found + resolved(
            list.data_by_token,
            taken(step, reply),
        ),
{
    assert(resolved(list.data_by_token, seq![]) =~= seq![]);
    assert(after.handles.found =~= before.handles.found + resolved(
        list.data_by_token,
        taken(step, reply),
    ));
}

/// A wait reports every completion that it takes, with and without sockets, over
/// any number of batches and rounds: at each step, what it has found of the
/// handles is exactly what the completions taken so far report. What it returns
/// is that, behind the sockets of the last sweep; and a wait that fails has
/// taken nothing that would have been reported.
pub proof fn a_wait_reports_every_completion_it_takes(run: WaitRun, n: nat)
    requires
        run.wf(),
        n <= run.replies.len(),
    ensures
        run.waiters[n as int].handles.found == run.reported(n),
        run.waiters[n as int].events() == run.waiters[n as int].swept + run.reported(n),
        run.steps[n as int] matches WaitStep::Done(Ok(count)) ==> count
            == run.waiters[n as int].events().len(),
        run.steps[n as int] matches WaitStep::Done(Err(_)) ==> run.reported(n).len() == 0,
    decreases n,
{
    if n == 0 {
        assert(run.waiters[0].handles.found =~= seq![]);
    } else {
        let m = (n - 1) as nat;
        a_wait_reports_every_completion_it_takes(run, m);
        let reply = run.replies[m as int];
        lemma_found_grows(
            run.lists[n as int],
            run.waiters[m as int],
            run.steps[m as int],
            reply,
            run.waiters[n as int],
            run.steps[n as int],
        );
    }
    assert(run.waiters[n as int].wf());
}

proof fn lemma_a_wait_keeps_its_terms(run: WaitRun, n: nat)
    requires
        run.wf(),
        n <= run.replies.len(),
    ensures
        run.waiters[n as int].timeout == run.timeout,
        run.waiters[n as int].capacity == run.capacity,
        run.waiters[n as int].sockets == run.waiters[0].sockets,
        run.timeout < 0 ==> {
            let w = run.waiters[n as int];
            &&& run.steps[n as int] !is Clock
            &&& w.sockets ==> w.remaining < 0
            &&& !w.sockets && w.handles.found.len() == 0 ==> w.handles.wait_ms
                == sys::infinite_value()
            &&& run.steps[n as int] matches WaitStep::Done(Ok(count)) ==> count > 0 || run.capacity
                == 0
        },
    decreases n,
{
    if n > 0 {
        let m = (n - 1) as nat;
        lemma_a_wait_keeps_its_terms(run, m);
        let reply = run.replies[m as int];
        assert(run.waiters[m as int].wf());
    }
    assert(run.waiters[n as int].wf());
}

/// A wait for ever, with room for something, goes on until it fails or has found
/// something, with and without sockets, however often it is woken for nothing
/// and however many completions of deleted handles it takes.
pub proof fn a_wait_for_ever_ends_with_something(run: WaitRun)
    requires
        run.wf(),
        run.timeout < 0,
        run.capacity > 0,
    ensures
        run.steps.last() matches WaitStep::Done(Ok(count)) ==> count > 0 && count
            == run.events().len(),
{
    lemma_a_wait_keeps_its_terms(run, run.replies.len());
    assert(run.waiters[run.replies.len() as int].wf());
}

/// Without sockets, a wait that has found nothing yet goes on waiting for what
/// is left: for ever, or as long as the clock says.
pub proof fn a_wait_for_handles_waits_for_what_is_left(
    list: EpollView,
    before: WaiterView,
    keys: Vec<usize>,
    left: Left,
    w1: WaiterView,
    s1: WaitStep,
    w2: WaiterView,
    s2: WaitStep,
)
    requires
        before.wf(),
        !before.sockets,
        before.handles.want() > 0,
        before.handles.found.len() == 0,
        resolved(list.data_by_token, keys@).len() == 0,
        wait_follows(
            list,
            before,
            WaitStep::Dequeue {
                want: before.handles.want() as u32,
                wait_ms: before.handles.wait_ms,
            },
            WaitReply::Dequeued(Batch::Keys(keys)),
            w1,
            s1,
        ),
        wait_follows(list, w1, s1, WaitReply::Clock(left), w2, s2),
    ensures
        s2 matches WaitStep::Dequeue { wait_ms, .. } && wait_ms == if before.handles.wait_ms == 0
            || before.handles.wait_ms == sys::infinite_value() {
            before.handles.wait_ms
        } else {
            budget_of(left)
        },
        w2.handles.found.len() == 0,
{
}

/// How often `token` is among `keys`.
pub open spec fn occurrences(keys: Seq<usize>, token: usize) -> nat
    decreases keys.len(),
{
    if keys.len() == 0 {
        0
    } else {
        occurrences(keys.drop_last(), token) + if keys.last() == token {
            1nat
        } else {
            0
        }
    }
}

proof fn lemma_occurrences_add(a: Seq<usize>, b: Seq<usize>, token: usize)
    ensures
        occurrences(a + b, token) == occurrences(a, token) + occurrences(b, token),
    decreases b.len(),
{
    if b.len() == 0 {
        assert(a + b =~= a);
    } else {
        assert((a + b).drop_last() =~= a + b.drop_last());
        lemma_occurrences_add(a, b.drop_last(), token);
    }
}

/// Whether nothing but `token`, with `data`, can report anything to the wait:
/// it is live all the time, and nothing else has something to report.
pub open spec fn only(run: WaitRun, token: usize, data: u64) -> bool {
    &&& forall|i: int|
        0 <= i < run.lists.len() ==> (#[trigger] run.lists[i]).data_by_token.contains_key(token)
            && run.lists[i].data_by_token[token] == data
    &&& nothing_else(run, token)
}

/// Whether nothing but `token` has something to report to the wait: no other
/// live key is taken, and no socket is ever ready.
pub open spec fn nothing_else(run: WaitRun, token: usize) -> bool {
    &&& forall|i: int, k: int|
        0 <= i < run.replies.len() && 0 <= k < taken(run.steps[i], run.replies[i]).len()
            && #[trigger] taken(run.steps[i], run.replies[i])[k] != token
            ==> !run.lists[i + 1].data_by_token.contains_key(
            taken(run.steps[i], run.replies[i])[k],
        )
    &&& forall|i: int| 0 <= i < run.replies.len() ==> finds_no_socket(#[trigger] run.replies[i])
}

/// Whether a reply that is one to a sweep found no socket ready.
pub open spec fn finds_no_socket(reply: WaitReply) -> bool {
    reply matches WaitReply::Swept { revents, .. } ==> forall|k: int|
        0 <= k < revents@.len() ==> #[trigger] revents@[k] == 0
}

/// What several waits found, one after the other.
pub open spec fn all_events(runs: Seq<WaitRun>) -> Seq<EpollEvent>
    decreases runs.len(),
{
    if runs.len() == 0 {
        seq![]
    } else {
        all_events(runs.drop_last()) + runs.last().events()
    }
}

/// What several waits took from the completion port.
pub open spec fn all_keys(runs: Seq<WaitRun>) -> Seq<usize>
    decreases runs.len(),
{
    if runs.len() == 0 {
        seq![]
    } else {
        all_keys(runs.drop_last()) + runs.last().keys(runs.last().replies.len())
    }
}

proof fn lemma_resolved_alone(data: Map<usize, u64>, keys: Seq<usize>, token: usize)
    requires
        data.contains_key(token),
        forall|k: int|
            0 <= k < keys.len() && #[trigger] keys[k] != token ==> !data.contains_key(keys[k]),
    ensures
        resolved(data, keys).len() == occurrences(keys, token),
        forall|k: int|
            0 <= k < resolved(data, keys).len() ==> #[trigger] resolved(data, keys)[k] == (
            EpollEvent { events: 1, data: data[token] }),
    decreases keys.len(),
{
    if keys.len() > 0 {
        assert forall|k: int|
            0 <= k < keys.drop_last().len() && #[trigger] keys.drop_last()[k]
                != token implies !data.contains_key(keys.drop_last()[k]) by {
            assert(keys[k] != token);
        }
        lemma_resolved_alone(data, keys.drop_last(), token);
        assert(keys[keys.len() - 1] == keys.last());
    }
}

proof fn lemma_nothing_is_ready(list: Seq<PollEntry>)
    requires
        forall|i: int| 0 <= i < list.len() ==> #[trigger] list[i].revents == 0,
    ensures
        ready(list).len() == 0,
    decreases list.len(),
{
    if list.len() > 0 {
        assert(list[list.len() - 1].revents == 0);
        let earlier = list.drop_last();
        assert forall|i: int| 0 <= i < earlier.len() implies #[trigger] earlier[i].revents == 0 by {
            assert(list[i].revents == 0);
        }
        lemma_nothing_is_ready(earlier);
    }
}

proof fn lemma_reported_alone(run: WaitRun, token: usize, data: u64, n: nat)
    requires
        run.wf(),
        only(run, token, data),
        n <= run.replies.len(),
    ensures
        run.reported(n).len() == occurrences(run.keys(n), token),
        forall|k: int|
            0 <= k < run.reported(n).len() ==> #[trigger] run.reported(n)[k] == (EpollEvent {
                events: 1,
                data,
            }),
        run.waiters[n as int].swept.len() == 0,
    decreases n,
{
    assert(run.waiters[n as int].wf());
    if n > 0 {
        let m = (n - 1) as nat;
        lemma_reported_alone(run, token, data, m);
        let (step, reply) = (run.steps[m as int], run.replies[m as int]);
        let keys = taken(step, reply);
        assert(run.lists[n as int].data_by_token.contains_key(token));
        lemma_resolved_alone(run.lists[n as int].data_by_token, keys, token);
        lemma_occurrences_add(run.keys(m), keys, token);
        assert(run.waiters[m as int].wf());
        if let WaitStep::Sweep(asked) = step {
            if let WaitReply::Swept { revents, .. } = reply {
                let list = polled(asked@, revents@);
                assert forall|i: int| 0 <= i < list.len() implies #[trigger] list[i].revents
                    == 0 by {
                    if i < revents@.len() {
                        assert(revents@[i] == 0);
                    }
                }
                lemma_nothing_is_ready(list);
            }
        }
    }
}

proof fn lemma_all_alone(runs: Seq<WaitRun>, token: usize, data: u64)
    requires
        forall|i: int|
            0 <= i < runs.len() ==> (#[trigger] runs[i]).wf() && only(runs[i], token, data),
    ensures
        all_events(runs).len() == occurrences(all_keys(runs), token),
        forall|k: int|
            0 <= k < all_events(runs).len() ==> #[trigger] all_events(runs)[k] == (EpollEvent {
                events: 1,
                data,
            }),
    decreases runs.len(),
{
    if runs.len() > 0 {
        let earlier = runs.drop_last();
        let run = runs.last();
        assert(run == runs[runs.len() - 1]);
        assert forall|i: int| 0 <= i < earlier.len() implies (#[trigger] earlier[i]).wf() && only(
            earlier[i],
            token,
            data,
        ) by {
            assert(earlier[i] == runs[i]);
        }
        lemma_all_alone(earlier, token, data);
        let n = run.replies.len();
        lemma_reported_alone(run, token, data, n);
        a_wait_reports_every_completion_it_takes(run, n);
        assert(run.events() =~= run.reported(n));
        lemma_occurrences_add(all_keys(earlier), run.keys(n), token);
    }
}

/// One signal is one wake-up, neither lost nor repeated: when the completion of
/// a registered handle is queued once, and so taken once, then any number of
/// waits, with and without sockets, report it exactly once between them, as
/// readable and with what goes with the handle. Every other wait returns
/// nothing.
pub proof fn one_signal_is_one_wake_up(runs: Seq<WaitRun>, token: usize, data: u64)
    requires
        forall|i: int|
            0 <= i < runs.len() ==> (#[trigger] runs[i]).wf() && runs[i].ended_well() && only(
                runs[i],
                token,
                data,
            ),
        occurrences(all_keys(runs), token) == 1,
    ensures
        all_events(runs) == seq![EpollEvent { events: 1, data }],
        forall|i: int|
            0 <= i < runs.len() ==> (#[trigger] runs[i]).steps.last() == WaitStep::Done(
                Ok::<usize, Error>(runs[i].events().len() as usize),
            ),
{
    lemma_all_alone(runs, token, data);
    assert(all_events(runs) =~= seq![EpollEvent { events: 1, data }]);
    assert forall|i: int| 0 <= i < runs.len() implies (#[trigger] runs[i]).steps.last()
        == WaitStep::Done(Ok::<usize, Error>(runs[i].events().len() as usize)) by {
        assert(runs[i].waiters[runs[i].replies.len() as int].wf());
    }
}

/// Whether a change leaves the registration of `handle` alone: it neither
/// changes its data, nor deletes it, nor takes the list apart.
pub open spec fn leaves_alone(before: EpollView, after: EpollView, handle: usize) -> bool {
    &&& forall|data: u64| after == #[trigger] before.with_data(handle, data) ==> after == before
    &&& after != before.without_handle(handle)
    &&& after != before.emptied()
}

proof fn lemma_a_handle_left_alone_stands(before: EpollView, after: EpollView, handle: usize)
    requires
        before.wf(),
        one_change(before, after),
        before.by_handle.contains_key(handle),
        leaves_alone(before, after, handle),
    ensures
        after.by_handle.contains_key(handle),
        after.by_handle[handle] == before.by_handle[handle],
        after.data_by_token.contains_key(before.by_handle[handle].token),
        after.data_by_token[before.by_handle[handle].token]
            == before.data_by_token[before.by_handle[handle].token],
{
    let token = before.by_handle[handle].token;
    assert(before.data_by_token.contains_key(token));
    let (operation, other, event, debug, step, reply, r) = choose|
        operation: ControlOperation,
        other: usize,
        event: EpollEvent,
        debug: bool,
        step: Ctl,
        reply: CtlReply,
        r: Ctl,
    |
        can_stand_at(before, other, event, step) && #[trigger] ctl_follows(
            before,
            operation,
            other,
            event,
            debug,
            step,
            reply,
            after,
            r,
        );
    if before.by_handle.contains_key(other) && after == before.with_data(other, event.data) {
        assert(other != handle || after == before);
    }
}

/// A registration stands until it is changed: whatever else becomes of the list,
/// its token stays live, with the data that it was given.
pub proof fn a_registration_stands_until_it_is_changed(
    history: Seq<EpollView>,
    handle: usize,
    i: int,
)
    requires
        is_history(history),
        0 <= i < history.len(),
        history[0].by_handle.contains_key(handle),
        forall|k: int|
            0 <= k < i ==> leaves_alone(#[trigger] history[k], history[k + 1], handle),
    ensures
        history[i].by_handle.contains_key(handle),
        history[i].by_handle[handle] == history[0].by_handle[handle],
        history[i].data_by_token.contains_key(history[0].by_handle[handle].token),
        history[i].data_by_token[history[0].by_handle[handle].token]
            == history[0].data_by_token[history[0].by_handle[handle].token],
    decreases i,
{
    if i > 0 {
        a_registration_stands_until_it_is_changed(history, handle, i - 1);
        assert(leaves_alone(history[i - 1], history[i], handle));
        lemma_a_handle_left_alone_stands(history[i - 1], history[i], handle);
    }
}

/// Whether each list that the wait met is a state of `history`.
pub open spec fn met_in(run: WaitRun, history: Seq<EpollView>) -> bool {
    forall|i: int| 0 <= i < run.lists.len() ==> history.contains(#[trigger] run.lists[i])
}

/// Whether the waits are over, met the list in states of `history` only, took
/// `token` once between them, and nothing else had something to report.
pub open spec fn wakes_alone(
    runs: Seq<WaitRun>,
    history: Seq<EpollView>,
    token: usize,
) -> bool {
    &&& forall|i: int|
        0 <= i < runs.len() ==> (#[trigger] runs[i]).wf() && runs[i].ended_well() && met_in(
            runs[i],
            history,
        ) && nothing_else(runs[i], token)
    &&& occurrences(all_keys(runs), token) == 1
}

/// Modifying a registered handle succeeds, and drops no wake-up that was queued:
/// later waits report it exactly once between them, with the new data and never
/// with the old, as long as the handle is left alone and nothing else has
/// something to report. A handle that is not registered is not found, and
/// nothing changes.
pub proof fn a_modified_handle_wakes_once_with_its_new_data(
    list: EpollView,
    handle: usize,
    event: EpollEvent,
    debug: bool,
    after: EpollView,
    r: Ctl,
    history: Seq<EpollView>,
    runs: Seq<WaitRun>,
)
    requires
        list.wf(),
        event.events == 1,
        ctl_follows(
            list,
            ControlOperation::Modify,
            handle,
            event,
            debug,
            Ctl::SocketType,
            CtlReply::SocketType(sys::socket_error_value()),
            after,
            r,
        ),
        is_history(history),
        history.len() > 0,
        history[0] == after,
        forall|k: int|
            0 <= k < history.len() - 1 ==> leaves_alone(
                #[trigger] history[k],
                history[k + 1],
                handle,
            ),
        list.by_handle.contains_key(handle) ==> wakes_alone(
            runs,
            history,
            list.by_handle[handle].token,
        ),
    ensures
        list.by_handle.contains_key(handle) ==> done_well(r) && all_events(runs) == seq![
            EpollEvent { events: 1, data: event.data },
        ],
        !list.by_handle.contains_key(handle) ==> done_with(
            r,
            ErrorView::Simple(ErrorKind::NotFound),
        ) && after == list,
{
    assert(1u32 & 0x3ff == 1) by (bit_vector);
    if list.by_handle.contains_key(handle) {
        let token = list.by_handle[handle].token;
        assert forall|i: int| 0 <= i < runs.len() implies (#[trigger] runs[i]).wf()
            && runs[i].ended_well() && only(runs[i], token, event.data) by {
            let run = runs[i];
            assert forall|j: int| 0 <= j < run.lists.len() implies (
            #[trigger] run.lists[j]).data_by_token.contains_key(token)
                && run.lists[j].data_by_token[token] == event.data by {
                let k = choose|k: int| 0 <= k < history.len() && history[k] == run.lists[j];
                a_registration_stands_until_it_is_changed(history, handle, k);
            }
        }
        one_signal_is_one_wake_up(runs, token, event.data);
    }
}

/// A wait with sockets registered returns those that a sweep found ready, when
/// no handle was signalled, and changes nothing: the next wait that finds the
/// same sockets ready returns them again. They are reported with what they were
/// registered with.
pub proof fn a_wait_returns_the_sockets_that_are_ready(
    list: EpollView,
    socket: usize,
    timeout: i32,
    capacity: usize,
    ret: i32,
    last_error: i32,
    revents: Vec<i16>,
    w0: WaiterView,
    s0: WaitStep,
    w1: WaiterView,
    s1: WaitStep,
    w2: WaiterView,
    s2: WaitStep,
)
    requires
        list.wf(),
        list.sockets.contains_key(socket),
        capacity > 0,
        ret != sys::socket_error_value(),
        begins_wait(list, timeout, capacity, w0, s0),
        s0 matches WaitStep::Sweep(asked) ==> ready(polled(asked@, revents@)).len() > 0,
        wait_follows(list, w0, s0, WaitReply::Swept { ret, last_error, revents }, w1, s1),
        wait_follows(
            list,
            w1,
            s1,
            WaitReply::Dequeued(Batch::Failed(sys::wait_timeout_value())),
            w2,
            s2,
        ),
    ensures
        s0 matches WaitStep::Sweep(asked) && lists_sockets(list.sockets, asked@) && ({
            let events = at_most(ready(polled(asked@, revents@)), capacity as nat);
            w2.events() == events && s2 == WaitStep::Done(
                Ok::<usize, Error>(events.len() as usize),
            )
        }),
{
    a_registered_socket_counts(list, socket);
    if let WaitStep::Sweep(asked) = s0 {
        assert(w2.events() =~= at_most(ready(polled(asked@, revents@)), capacity as nat));
    }
}

} // verus!
