//! Waiting for what is in an interest list.

use super::{
    event_set_of, poll_bits, poll_events, reported_bits, Epoll, EpollEvent, EpollView, EventSet,
    SocketRegistration,
};
use crate::completion::{budget, budget_of, Left};
use crate::error::{fails, Error, ErrorView};
use crate::sys;
use vstd::prelude::*;
use vstd::std_specs::iter::IteratorSpec;

verus! {

broadcast use vstd::std_specs::hash::group_hash_axioms;

/// How many completions one dequeue may return.
pub const BATCH: usize = 64;

/// How long a wait with sockets blocks before it looks at both sources again,
/// in milliseconds. A wake-up that was missed makes it late, not endless.
pub const RECHECK_MS: i32 = 50;

/// How many bytes one read from the wake socket takes.
pub const WAKE_BUFFER_LEN: usize = 64;

/// One socket in a `WSAPoll` call.
#[derive(Debug, Clone, Copy, PartialEq, Eq, Structural)]
pub struct PollEntry {
    /// The socket.
    pub fd: usize,
    /// What to ask for.
    pub events: i16,
    /// What came back.
    pub revents: i16,
    /// What to report the socket with.
    pub data: u64,
}

/// The entry that asks about a registered socket.
pub open spec fn entry_of(fd: usize, registration: SocketRegistration) -> PollEntry {
    PollEntry {
        fd,
        events: poll_bits(registration.interest@),
        revents: 0,
        data: registration.data,
    }
}

/// Whether `list` asks about each registered socket, once.
pub open spec fn lists_sockets(
    sockets: Map<usize, SocketRegistration>,
    list: Seq<PollEntry>,
) -> bool {
    &&& forall|i: int|
        0 <= i < list.len() ==> sockets.contains_key(#[trigger] list[i].fd) && list[i] == entry_of(
            list[i].fd,
            sockets[list[i].fd],
        )
    &&& forall|i: int, j: int|
        0 <= i < j < list.len() ==> #[trigger] list[i].fd != #[trigger] list[j].fd
    &&& forall|s: usize| #[trigger]
        sockets.contains_key(s) ==> exists|i: int| 0 <= i < list.len() && #[trigger] list[i].fd == s
}

/// Whether `list` asks about each registered socket and, last, about the wake
/// socket.
pub open spec fn lists_sockets_and_wake(
    sockets: Map<usize, SocketRegistration>,
    wake: usize,
    list: Seq<PollEntry>,
) -> bool {
    &&& list.len() > 0
    &&& lists_sockets(sockets, list.drop_last())
    &&& list.last() == (PollEntry {
        fd: wake,
        events: sys::pollrdnorm_value(),
        revents: 0,
        data: 0,
    })
}

/// The entries of `list` with what came back for each of them: nothing where
/// `revents` has nothing.
pub open spec fn polled(list: Seq<PollEntry>, revents: Seq<i16>) -> Seq<PollEntry> {
    Seq::new(
        list.len(),
        |i: int|
            PollEntry {
                revents: if i < revents.len() {
                    revents[i]
                } else {
                    0
                },
                ..list[i]
            },
    )
}

/// Write down what came back for each entry.
fn fill_in(list: Vec<PollEntry>, revents: &Vec<i16>) -> (r: Vec<PollEntry>)
    ensures
        r@ == polled(list@, revents@),
{
    let mut out: Vec<PollEntry> = Vec::new();
    let mut i: usize = 0;
    while i < list.len()
        invariant
            i <= list@.len(),
            out@ == polled(list@, revents@).take(i as int),
        decreases list.len() - i,
    {
        let came: i16 = if i < revents.len() {
            revents[i]
        } else {
            0
        };
        let entry: PollEntry = list[i];
        out.push(
            PollEntry { fd: entry.fd, events: entry.events, revents: came, data: entry.data },
        );
        assert(out@ =~= polled(list@, revents@).take(i + 1));
        i = i + 1;
    }
    assert(out@ =~= polled(list@, revents@));
    out
}

/// What a polled list reports, in its order.
pub open spec fn ready(list: Seq<PollEntry>) -> Seq<EpollEvent>
    decreases list.len(),
{
    if list.len() == 0 {
        seq![]
    } else {
        let before = ready(list.drop_last());
        if list.last().revents == 0 {
            before
        } else {
            before.push(
                EpollEvent { events: reported_bits(list.last().revents), data: list.last().data },
            )
        }
    }
}

/// The first `count` of `events`, or all if there are fewer.
pub open spec fn at_most(events: Seq<EpollEvent>, count: nat) -> Seq<EpollEvent> {
    if events.len() <= count {
        events
    } else {
        events.take(count as int)
    }
}

/// What a sweep returns: the failure of the poll, or the first `capacity`
/// sockets that are ready.
pub fn sweep_sockets(list: &Vec<PollEntry>, ret: i32, last_error: i32, capacity: usize) -> (r:
    Result<Vec<EpollEvent>, Error>)
    ensures
        ret == sys::socket_error_value() ==> fails(r, ErrorView::Os(last_error)),
        ret != sys::socket_error_value() ==> (r matches Ok(events) && events@ == at_most(
            ready(list@),
            capacity as nat,
        )),
{
    if ret == sys::socket_error() {
        return Err(Error::Os(last_error));
    }
    let mut events: Vec<EpollEvent> = Vec::new();
    let mut i: usize = 0;
    while i < list.len() && events.len() < capacity
        invariant
            i <= list@.len(),
            events@.len() <= capacity,
            events@ == ready(list@.take(i as int)),
        decreases list.len() - i,
    {
        let ghost now = list@.take(i + 1);
        assert(now.drop_last() =~= list@.take(i as int));
        if let Some(set) = event_set_of(list[i].revents) {
            events.push(EpollEvent::new(set, list[i].data));
        }
        i = i + 1;
    }
    proof {
        lemma_ready_grows(list@, i as int);
        assert(list@.take(list@.len() as int) =~= list@);
        assert(events@ =~= at_most(ready(list@), capacity as nat));
    }
    Ok(events)
}

proof fn lemma_ready_grows(list: Seq<PollEntry>, count: int)
    requires
        0 <= count <= list.len(),
    ensures
        ready(list.take(count)).len() <= ready(list).len(),
        ready(list).take(ready(list.take(count)).len() as int) == ready(list.take(count)),
    decreases list.len() - count,
{
    if count == list.len() {
        assert(list.take(count) =~= list);
        assert(ready(list).take(ready(list).len() as int) =~= ready(list));
    } else {
        lemma_ready_grows(list, count + 1);
        let (a, b, c) = (ready(list.take(count)), ready(list.take(count + 1)), ready(list));
        assert(list.take(count + 1).drop_last() =~= list.take(count));
        assert(c.take(a.len() as int) =~= c.take(b.len() as int).take(a.len() as int));
        assert(b.take(a.len() as int) =~= a);
    }
}

/// What a poll that could block came back with.
#[derive(Debug, Clone, Copy, PartialEq, Eq, Structural)]
pub enum Blocked {
    /// The time ran out.
    TimedOut,
    /// A socket is ready.
    Ready,
    /// The wake socket is readable, and has to be drained, or every later poll
    /// returns at once.
    Wake,
}

/// What a poll that could block says, from what `WSAPoll` returned and what it
/// wrote for the wake socket.
pub fn poll_block(ret: i32, last_error: i32, wake_revents: i16) -> (r: Result<Blocked, Error>)
    ensures
        ret == sys::socket_error_value() ==> fails(r, ErrorView::Os(last_error)),
        ret != sys::socket_error_value() ==> r == Ok::<Blocked, Error>(
            if ret == 0 {
                Blocked::TimedOut
            } else if wake_revents != 0 {
                Blocked::Wake
            } else {
                Blocked::Ready
            },
        ),
{
    if ret == sys::socket_error() {
        return Err(Error::Os(last_error));
    }
    if ret == 0 {
        return Ok(Blocked::TimedOut);
    }
    if wake_revents != 0 {
        Ok(Blocked::Wake)
    } else {
        Ok(Blocked::Ready)
    }
}

/// Whether to read from the wake socket again, after a read that returned `n`.
/// Each wake-up is a datagram of its own, so one read takes one of them, and
/// only a read that finds nothing says that the socket is drained.
pub fn drain_again(n: i32) -> (r: bool)
    ensures
        r == (n > 0),
{
    n > 0
}

/// What a dequeue of one batch came back with.
#[derive(Debug)]
pub enum Batch {
    /// The completion keys of these packets.
    Keys(Vec<usize>),
    /// The call failed, with this last error.
    Failed(u32),
}

/// What dequeued keys report: an event for each live token, in their order.
pub open spec fn resolved(data: Map<usize, u64>, keys: Seq<usize>) -> Seq<EpollEvent>
    decreases keys.len(),
{
    if keys.len() == 0 {
        seq![]
    } else {
        let before = resolved(data, keys.drop_last());
        if data.contains_key(keys.last()) {
            before.push(EpollEvent { events: 1, data: data[keys.last()] })
        } else {
            before
        }
    }
}

/// A wait for handles: what was found so far, and how the next dequeue waits.
#[derive(Debug)]
pub struct HandleWait {
    found: Vec<EpollEvent>,
    capacity: usize,
    wait_ms: u32,
}

/// A [`HandleWait`] as plain values.
#[verifier::ext_equal]
pub struct HandleWaitView {
    /// What was found.
    pub found: Seq<EpollEvent>,
    /// How much may be found.
    pub capacity: usize,
    /// How long the next dequeue waits, in milliseconds.
    pub wait_ms: u32,
}

impl View for HandleWait {
    type V = HandleWaitView;

    closed spec fn view(&self) -> HandleWaitView {
        HandleWaitView { found: self.found@, capacity: self.capacity, wait_ms: self.wait_ms }
    }
}

impl HandleWaitView {
    /// What is never found is more than there is room for.
    pub open spec fn wf(self) -> bool {
        self.found.len() <= self.capacity
    }

    /// How many packets the next dequeue may take.
    pub open spec fn want(self) -> int {
        if self.capacity - self.found.len() < BATCH {
            self.capacity - self.found.len()
        } else {
            BATCH as int
        }
    }

    /// The wait once `keys` were dequeued. Dequeues block until something was
    /// found, and not after that.
    pub open spec fn with_keys(self, data: Map<usize, u64>, keys: Seq<usize>) -> HandleWaitView {
        let found = self.found + resolved(data, keys);
        HandleWaitView {
            found,
            wait_ms: if found.len() > 0 {
                0
            } else {
                self.wait_ms
            },
            ..self
        }
    }

    /// Whether the next dequeue has to be told what is left: nothing was found
    /// in a wait that may still last, though not for ever.
    pub open spec fn needs_clock(self) -> bool {
        self.found.len() == 0 && self.wait_ms != 0 && self.wait_ms != sys::infinite_value()
    }

    /// The wait once the clock was read.
    pub open spec fn with_left(self, left: Left) -> HandleWaitView {
        HandleWaitView { wait_ms: budget_of(left), ..self }
    }
}

/// How a wait for handles begins.
pub open spec fn fresh_handle_wait(timeout: i32, capacity: usize) -> HandleWaitView {
    HandleWaitView {
        found: seq![],
        capacity,
        wait_ms: if timeout < 0 {
            sys::infinite_value()
        } else {
            timeout as u32
        },
    }
}

proof fn lemma_resolved_is_no_longer(data: Map<usize, u64>, keys: Seq<usize>)
    ensures
        resolved(data, keys).len() <= keys.len(),
    decreases keys.len(),
{
    if keys.len() > 0 {
        lemma_resolved_is_no_longer(data, keys.drop_last());
    }
}

impl HandleWait {
    /// A wait for at most `capacity` events, for `timeout` milliseconds, or for
    /// ever if that is negative.
    pub fn new(timeout: i32, capacity: usize) -> (r: HandleWait)
        ensures
            r@ == fresh_handle_wait(timeout, capacity),
    {
        HandleWait {
            found: Vec::new(),
            capacity,
            wait_ms: if timeout < 0 {
                sys::infinite()
            } else {
                timeout as u32
            },
        }
    }

    /// How many packets to dequeue next and how long to wait for them, or
    /// nothing when there is no more room.
    pub fn next(&self) -> (r: Option<(u32, u32)>)
        requires
            self@.wf(),
        ensures
            self@.want() == 0 ==> r is None,
            self@.want() > 0 ==> r == Some((self@.want() as u32, self@.wait_ms)),
    {
        let room: usize = self.capacity - self.found.len();
        if room == 0 {
            return None;
        }
        let want: usize = if room < BATCH {
            room
        } else {
            BATCH
        };
        Some((want as u32, self.wait_ms))
    }

    /// Whether the next dequeue has to be told what is left: the packets so far
    /// reported nothing, and the wait may still last, though not for ever.
    pub fn needs_clock(&self) -> (r: bool)
        ensures
            r == self@.needs_clock(),
    {
        self.found.len() == 0 && self.wait_ms != 0 && self.wait_ms != sys::infinite()
    }

    /// Let the next dequeue wait for what is left.
    pub fn set_left(&mut self, left: Left)
        ensures
            final(self)@ == old(self)@.with_left(left),
    {
        self.wait_ms = budget(left);
    }
}

/// What a wait for handles returns after a dequeue, if it is over.
pub open spec fn handles_outcome(
    before: HandleWaitView,
    after: HandleWaitView,
    batch: Batch,
) -> Option<Result<usize, Error>> {
    match batch {
        Batch::Keys(_) => if after.want() == 0 {
            Some(Ok(after.found.len() as usize))
        } else {
            None
        },
        Batch::Failed(error) => if before.found.len() > 0 {
            Some(Ok(before.found.len() as usize))
        } else if error != sys::wait_timeout_value() {
            Some(Err(Error::Os(error as i32)))
        } else if before.wait_ms == sys::infinite_value() {
            None
        } else {
            Some(Ok(0))
        },
    }
}

impl Epoll {
    /// Take one batch of a wait for handles apart. A key with no entry belongs
    /// to a registration that was deleted after its completion was queued, and
    /// is not reported. Returns what the wait returns, once it is over: when
    /// there is no more room, and when a dequeue fails. After something was
    /// found, that a dequeue fails only says that nothing more is ready; and a
    /// wait for ever does not time out.
    pub fn wait_handles(&self, wait: &mut HandleWait, batch: Batch) -> (r: Option<
        Result<usize, Error>,
    >)
        requires
            old(wait)@.wf(),
            batch matches Batch::Keys(keys) ==> keys@.len() <= old(wait)@.want(),
        ensures
            final(wait)@.wf(),
            final(wait)@ == match batch {
                Batch::Keys(keys) => old(wait)@.with_keys(self@.data_by_token, keys@),
                Batch::Failed(_) => old(wait)@,
            },
            r == handles_outcome(old(wait)@, final(wait)@, batch),
    {
        let keys: Vec<usize> = match batch {
            Batch::Failed(error) => {
                if wait.found.len() > 0 {
                    return Some(Ok(wait.found.len()));
                }
                if error != sys::wait_timeout() {
                    return Some(Err(Error::Os(error as i32)));
                }
                if wait.wait_ms == sys::infinite() {
                    return None;
                }
                return Some(Ok(0));
            },
            Batch::Keys(keys) => keys,
        };
        let mut i: usize = 0;
        while i < keys.len()
            invariant
                i <= keys@.len(),
                wait@ == (HandleWaitView {
                    found: old(wait)@.found + resolved(
                        self@.data_by_token,
                        keys@.take(i as int),
                    ),
                    ..old(wait)@
                }),
            decreases keys.len() - i,
        {
            assert(keys@.take(i + 1).drop_last() =~= keys@.take(i as int));
            if let Some(data) = self.data_by_token.get(&keys[i]) {
                wait.found.push(EpollEvent::new(EventSet::IN(), *data));
            }
            assert(wait@.found =~= old(wait)@.found + resolved(
                self@.data_by_token,
                keys@.take(i + 1),
            ));
            i = i + 1;
        }
        assert(keys@.take(i as int) =~= keys@);
        if wait.found.len() > 0 {
            wait.wait_ms = 0;
        }
        proof {
            lemma_resolved_is_no_longer(self@.data_by_token, keys@);
        }
        if wait.found.len() == wait.capacity {
            Some(Ok(wait.found.len()))
        } else {
            None
        }
    }

    /// The registered sockets, to be polled.
    fn poll_list(&self) -> (r: Vec<PollEntry>)
        ensures
            lists_sockets(self@.sockets, r@),
    {
        let mut list: Vec<PollEntry> = Vec::new();
        let keys = self.sockets.keys();
        let ghost all = IteratorSpec::remaining(&keys).unref();
        for fd in it: keys
            invariant
                it.seq().unref() == all,
                all.len() == it.seq().len(),
                list@.len() == it.index(),
                all.to_set() == self@.sockets.dom(),
                all.no_duplicates(),
                forall|i: int| 0 <= i < list@.len() ==> #[trigger] list@[i].fd == all[i],
                forall|i: int|
                    0 <= i < list@.len() ==> list@[i] == entry_of(
                        #[trigger] list@[i].fd,
                        self@.sockets[list@[i].fd],
                    ),
        {
            assert(all[it.index() as int] == *fd);
            assert(all.contains(*fd));
            assert(self@.sockets.dom().contains(*fd));
            if let Some(registration) = self.sockets.get(fd) {
                list.push(
                    PollEntry {
                        fd: *fd,
                        events: poll_events(registration.interest),
                        revents: 0,
                        data: registration.data,
                    },
                );
            }
        }
        assert forall|i: int| 0 <= i < list@.len() implies self@.sockets.contains_key(
            #[trigger] list@[i].fd,
        ) by {
            assert(all.contains(all[i]));
            assert(self@.sockets.dom().contains(all[i]));
        }
        assert forall|s: usize| #[trigger] self@.sockets.contains_key(s) implies exists|i: int|
            0 <= i < list@.len() && #[trigger] list@[i].fd == s by {
            assert(all.to_set().contains(s));
            let i = choose|i: int| 0 <= i < all.len() && all[i] == s;
            assert(list@[i].fd == s);
        }
        list
    }

    /// The sockets to sweep for at most `capacity` events, or nothing when
    /// there is no room or no socket.
    pub fn sweep_list(&self, capacity: usize) -> (r: Option<Vec<PollEntry>>)
        ensures
            capacity == 0 || self@.sockets.len() == 0 ==> r is None,
            capacity > 0 && self@.sockets.len() > 0 ==> (r matches Some(list) && lists_sockets(
                self@.sockets,
                list@,
            )),
    {
        if capacity == 0 || self.sockets.len() == 0 {
            return None;
        }
        Some(self.poll_list())
    }

    /// The sockets to block on, with the wake socket last, or nothing when
    /// there is no wake socket.
    pub fn block_list(&self) -> (r: Option<Vec<PollEntry>>)
        ensures
            match self@.wake {
                None => r is None,
                Some(wake) => r matches Some(list) && lists_sockets_and_wake(
                    self@.sockets,
                    wake,
                    list@,
                ),
            },
    {
        let wake: usize = match self.wake {
            Some(wake) => wake,
            None => return None,
        };
        let mut list: Vec<PollEntry> = self.poll_list();
        let ghost before = list@;
        list.push(PollEntry { fd: wake, events: sys::pollrdnorm(), revents: 0, data: 0 });
        assert(list@.drop_last() =~= before);
        Some(list)
    }
}

/// Where a wait stands.
#[derive(Debug)]
pub enum WaitStep {
    /// Poll these sockets, at a zero timeout.
    Sweep(Vec<PollEntry>),
    /// Dequeue from the completion port.
    Dequeue {
        /// At most this many packets.
        want: u32,
        /// Waiting this long for the first of them, in milliseconds.
        wait_ms: u32,
    },
    /// Read the clock.
    Clock,
    /// Poll these sockets, of which the last is the wake socket.
    Block {
        /// The sockets.
        list: Vec<PollEntry>,
        /// The timeout, in milliseconds.
        timeout_ms: i32,
    },
    /// Read from the wake socket for as long as [`drain_again`] says so.
    Drain {
        /// The wake socket.
        socket: usize,
    },
    /// It is over, with this many events or this failure.
    Done(Result<usize, Error>),
}

/// What the kernel said to a [`WaitStep`].
#[derive(Debug)]
pub enum WaitReply {
    /// The sweep.
    Swept {
        /// What `WSAPoll` returned.
        ret: i32,
        /// The last error, if it failed.
        last_error: i32,
        /// What it wrote for each socket of the list.
        revents: Vec<i16>,
    },
    /// The dequeue.
    Dequeued(Batch),
    /// What is left until the deadline.
    Clock(Left),
    /// The poll that could block.
    Blocked {
        /// What `WSAPoll` returned.
        ret: i32,
        /// The last error, if it failed.
        last_error: i32,
        /// What it wrote for the wake socket.
        wake_revents: i16,
    },
    /// The wake socket is drained.
    Drained,
}

/// A wait: what it was asked for and what it has found.
#[derive(Debug)]
pub struct Waiter {
    timeout: i32,
    capacity: usize,
    sockets: bool,
    swept: Vec<EpollEvent>,
    handles: HandleWait,
    remaining: i32,
}

/// A [`Waiter`] as plain values.
#[verifier::ext_equal]
pub struct WaiterView {
    /// How long to wait, in milliseconds; for ever if negative.
    pub timeout: i32,
    /// How many events there is room for.
    pub capacity: usize,
    /// Whether a socket was registered when the wait began.
    pub sockets: bool,
    /// What the latest sweep found.
    pub swept: Seq<EpollEvent>,
    /// The latest wait for handles.
    pub handles: HandleWaitView,
    /// What was left when the clock was last read, in milliseconds; for ever if
    /// negative.
    pub remaining: i32,
}

impl View for Waiter {
    type V = WaiterView;

    closed spec fn view(&self) -> WaiterView {
        WaiterView {
            timeout: self.timeout,
            capacity: self.capacity,
            sockets: self.sockets,
            swept: self.swept@,
            handles: self.handles@,
            remaining: self.remaining,
        }
    }
}

impl WaiterView {
    /// What holds of a wait: there is room for all that was found, and with
    /// sockets the handles are asked without waiting.
    pub open spec fn wf(self) -> bool {
        &&& self.handles.wf()
        &&& self.swept.len() + self.handles.capacity <= self.capacity
        &&& !self.sockets ==> self.swept.len() == 0
        &&& self.sockets ==> self.handles.wait_ms == 0
    }

    /// What was found: sockets first, then handles.
    pub open spec fn events(self) -> Seq<EpollEvent> {
        self.swept + self.handles.found
    }

    /// Whether a wait can stand at `step`: it dequeues what there is room for,
    /// and it sweeps, blocks or reads the clock only when it has found nothing.
    /// Once it is over, the count is that of the events found, and a wait that
    /// failed has found no handle.
    pub open spec fn stands_at(self, step: WaitStep) -> bool {
        match step {
            WaitStep::Sweep(_) => self.sockets && self.events().len() == 0,
            WaitStep::Dequeue { want, wait_ms } => self.handles.want() > 0 && want
                == self.handles.want() && wait_ms == self.handles.wait_ms,
            WaitStep::Clock => self.events().len() == 0 && (self.sockets || self.handles.want()
                > 0),
            WaitStep::Block { .. } => self.sockets && self.events().len() == 0,
            WaitStep::Drain { .. } => self.sockets && self.events().len() == 0,
            WaitStep::Done(Ok(n)) => n == self.events().len(),
            WaitStep::Done(Err(_)) => self.handles.found.len() == 0,
        }
    }
}

/// How long to block when `remaining` milliseconds are left.
pub open spec fn block_for(remaining: i32) -> i32 {
    if remaining < 0 || remaining > RECHECK_MS {
        RECHECK_MS
    } else {
        remaining
    }
}

/// What is left, in milliseconds.
pub open spec fn remaining_of(left: Left) -> i32 {
    match left {
        Left::Forever => -1i32,
        Left::Nothing => 0,
        Left::Nanoseconds(n) => if n / 1_000_000 <= i32::MAX {
            (n / 1_000_000) as i32
        } else {
            i32::MAX
        },
    }
}

/// Whether the wait goes on to block.
pub open spec fn blocks(
    list: EpollView,
    before: WaiterView,
    remaining: i32,
    after: WaiterView,
    r: WaitStep,
) -> bool {
    &&& after == (WaiterView { remaining, ..before })
    &&& r matches WaitStep::Block { list: polled, timeout_ms }
    &&& timeout_ms == block_for(remaining)
    &&& list.wake matches Some(wake)
    &&& lists_sockets_and_wake(list.sockets, wake, polled@)
}

/// Whether the wait goes on as it does once the handles have been looked at,
/// with `count` events.
pub open spec fn passes_handles(
    list: EpollView,
    before: WaiterView,
    count: nat,
    after: WaiterView,
    r: WaitStep,
) -> bool {
    if !before.sockets || before.swept.len() + count > 0 {
        after == before && r == WaitStep::Done(
            Ok::<usize, Error>((before.swept.len() + count) as usize),
        )
    } else if before.timeout < 0 {
        blocks(list, before, -1i32, after, r)
    } else {
        after == before && r == WaitStep::Clock
    }
}

/// Whether the wait goes on to look at the handles, without waiting.
pub open spec fn begins_handles(
    list: EpollView,
    before: WaiterView,
    after: WaiterView,
    r: WaitStep,
) -> bool {
    let handles = fresh_handle_wait(0, (before.capacity - before.swept.len()) as usize);
    let now = WaiterView { handles, ..before };
    if handles.want() == 0 {
        passes_handles(list, now, 0, after, r)
    } else {
        after == now && r == (WaitStep::Dequeue { want: handles.want() as u32, wait_ms: 0 })
    }
}

/// Whether the wait goes on with a round: the sockets, then the handles.
pub open spec fn begins_round(
    list: EpollView,
    before: WaiterView,
    after: WaiterView,
    r: WaitStep,
) -> bool {
    let now = WaiterView { swept: seq![], handles: fresh_handle_wait(0, 0), ..before };
    if before.capacity == 0 || list.sockets.len() == 0 {
        begins_handles(list, now, after, r)
    } else {
        &&& after == now
        &&& r matches WaitStep::Sweep(polled)
        &&& lists_sockets(list.sockets, polled@)
    }
}

/// Whether the wait goes on as it does after blocking: it is over when the
/// time ran out and the poll had all that was left of it.
pub open spec fn passes_block(
    list: EpollView,
    before: WaiterView,
    timed_out: bool,
    after: WaiterView,
    r: WaitStep,
) -> bool {
    if timed_out && 0 <= before.remaining <= RECHECK_MS {
        after == before && r == WaitStep::Done(Ok::<usize, Error>(0))
    } else {
        begins_round(list, before, after, r)
    }
}

/// How a wait begins.
pub open spec fn begins_wait(
    list: EpollView,
    timeout: i32,
    capacity: usize,
    after: WaiterView,
    r: WaitStep,
) -> bool {
    let fresh = WaiterView {
        timeout,
        capacity,
        sockets: list.sockets.len() > 0,
        swept: seq![],
        handles: fresh_handle_wait(timeout, capacity),
        remaining: -1i32,
    };
    if list.sockets.len() > 0 {
        begins_round(list, fresh, after, r)
    } else if capacity == 0 {
        after == fresh && r == WaitStep::Done(Ok::<usize, Error>(0))
    } else {
        after == fresh && r == (WaitStep::Dequeue {
            want: fresh.handles.want() as u32,
            wait_ms: fresh.handles.wait_ms,
        })
    }
}

/// What a step of a wait does. A reply to another step changes nothing.
pub open spec fn wait_follows(
    list: EpollView,
    before: WaiterView,
    step: WaitStep,
    reply: WaitReply,
    after: WaiterView,
    r: WaitStep,
) -> bool {
    match (step, reply) {
        (
            WaitStep::Sweep(asked),
            WaitReply::Swept { ret, last_error, revents },
        ) => if ret == sys::socket_error_value() {
            after == before && r == WaitStep::Done(Err::<usize, Error>(Error::Os(last_error)))
        } else {
            let swept = at_most(ready(polled(asked@, revents@)), before.capacity as nat);
            begins_handles(list, WaiterView { swept, ..before }, after, r)
        },
        (WaitStep::Dequeue { .. }, WaitReply::Dequeued(batch)) => {
            let handles = match batch {
                Batch::Keys(keys) => before.handles.with_keys(list.data_by_token, keys@),
                Batch::Failed(_) => before.handles,
            };
            let now = WaiterView { handles, ..before };
            match handles_outcome(before.handles, handles, batch) {
                None => after == now && r == if handles.needs_clock() {
                    WaitStep::Clock
                } else {
                    WaitStep::Dequeue { want: handles.want() as u32, wait_ms: handles.wait_ms }
                },
                Some(Ok(count)) => passes_handles(list, now, count as nat, after, r),
                Some(Err(e)) => after == now && r == WaitStep::Done(Err::<usize, Error>(e)),
            }
        },
        (WaitStep::Clock, WaitReply::Clock(left)) => if !before.sockets {
            &&& after == (WaiterView { handles: before.handles.with_left(left), ..before })
            &&& r == (WaitStep::Dequeue {
                want: before.handles.want() as u32,
                wait_ms: budget_of(left),
            })
        } else if left == Left::Nothing {
            after == before && r == WaitStep::Done(Ok::<usize, Error>(0))
        } else {
            blocks(list, before, remaining_of(left), after, r)
        },
        (
            WaitStep::Block { .. },
            WaitReply::Blocked { ret, last_error, wake_revents },
        ) => if ret == sys::socket_error_value() {
            after == before && r == WaitStep::Done(Err::<usize, Error>(Error::Os(last_error)))
        } else if ret != 0 && wake_revents != 0 {
            &&& after == before
            &&& list.wake matches Some(wake)
            &&& r == (WaitStep::Drain { socket: wake })
        } else {
            passes_block(list, before, ret == 0, after, r)
        },
        (WaitStep::Drain { .. }, WaitReply::Drained) => passes_block(
            list,
            before,
            false,
            after,
            r,
        ),
        _ => after == before && r == step,
    }
}

impl Waiter {
    /// What was found, in the order to report it.
    pub fn into_events(self) -> (r: Vec<EpollEvent>)
        ensures
            r@ == self@.events(),
    {
        let mut events: Vec<EpollEvent> = self.swept;
        let mut found: Vec<EpollEvent> = self.handles.found;
        events.append(&mut found);
        events
    }
}

impl Epoll {
    /// Begin to wait for at most `capacity` events, for `timeout` milliseconds,
    /// or for ever if that is negative. The result is the wait and where it
    /// stands.
    pub fn wait(&self, timeout: i32, capacity: usize) -> (r: (Waiter, WaitStep))
        requires
            self.wf(),
        ensures
            r.0@.wf(),
            r.0@.stands_at(r.1),
            begins_wait(self@, timeout, capacity, r.0@, r.1),
    {
        let sockets: bool = self.sockets.len() > 0;
        let mut waiter: Waiter = Waiter {
            timeout,
            capacity,
            sockets,
            swept: Vec::new(),
            handles: HandleWait::new(timeout, capacity),
            remaining: -1,
        };
        let ghost fresh = waiter@;
        if sockets {
            proof {
                lemma_a_socket_means_a_wake_socket(self@);
            }
            let step: WaitStep = self.begin_round(&mut waiter);
            return (waiter, step);
        }
        assert(waiter@.events() =~= Seq::<EpollEvent>::empty());
        match waiter.handles.next() {
            Some((want, wait_ms)) => (waiter, WaitStep::Dequeue { want, wait_ms }),
            None => (waiter, WaitStep::Done(Ok(0))),
        }
    }

    /// Take what the kernel said to `step`. The result is where the wait
    /// stands then.
    pub fn wait_next(&self, waiter: &mut Waiter, step: WaitStep, reply: WaitReply) -> (r: WaitStep)
        requires
            self.wf(),
            old(waiter)@.wf(),
            old(waiter)@.stands_at(step),
            old(waiter)@.sockets ==> self@.wake is Some,
            reply matches WaitReply::Dequeued(Batch::Keys(keys)) ==> step is Dequeue ==> keys@.len()
                <= old(waiter)@.handles.want(),
        ensures
            final(waiter)@.wf(),
            final(waiter)@.stands_at(r),
            wait_follows(self@, old(waiter)@, step, reply, final(waiter)@, r),
    {
        match (step, reply) {
            (WaitStep::Sweep(asked), WaitReply::Swept { ret, last_error, revents }) => {
                let list: Vec<PollEntry> = fill_in(asked, &revents);
                match sweep_sockets(&list, ret, last_error, waiter.capacity) {
                    Ok(swept) => {
                        waiter.swept = swept;
                        self.begin_handles(waiter)
                    },
                    Err(e) => WaitStep::Done(Err(e)),
                }
            },
            (WaitStep::Dequeue { .. }, WaitReply::Dequeued(batch)) => {
                match self.wait_handles(&mut waiter.handles, batch) {
                    None => if waiter.handles.needs_clock() {
                        WaitStep::Clock
                    } else {
                        Epoll::dequeue(waiter)
                    },
                    Some(Ok(count)) => self.pass_handles(waiter, count),
                    Some(Err(e)) => WaitStep::Done(Err(e)),
                }
            },
            (WaitStep::Clock, WaitReply::Clock(left)) => {
                if !waiter.sockets {
                    waiter.handles.set_left(left);
                    return Epoll::dequeue(waiter);
                }
                match left {
                    Left::Nothing => WaitStep::Done(Ok(0)),
                    Left::Forever => self.block(waiter, -1),
                    Left::Nanoseconds(n) => {
                        let ms: u128 = n / 1_000_000;
                        let remaining: i32 = if ms <= i32::MAX as u128 {
                            ms as i32
                        } else {
                            i32::MAX
                        };
                        self.block(waiter, remaining)
                    },
                }
            },
            (WaitStep::Block { .. }, WaitReply::Blocked { ret, last_error, wake_revents }) => {
                match poll_block(ret, last_error, wake_revents) {
                    Err(e) => WaitStep::Done(Err(e)),
                    Ok(Blocked::TimedOut) => self.pass_block(waiter, true),
                    Ok(Blocked::Ready) => self.pass_block(waiter, false),
                    Ok(Blocked::Wake) => match self.wake {
                        Some(socket) => WaitStep::Drain { socket },
                        None => WaitStep::Done(Ok(0)),
                    },
                }
            },
            (WaitStep::Drain { .. }, WaitReply::Drained) => self.pass_block(waiter, false),
            (step, _) => step,
        }
    }

    /// The next dequeue of a wait that has room.
    fn dequeue(waiter: &Waiter) -> (r: WaitStep)
        requires
            waiter@.wf(),
            waiter@.handles.want() > 0,
        ensures
            r == (WaitStep::Dequeue {
                want: waiter@.handles.want() as u32,
                wait_ms: waiter@.handles.wait_ms,
            }),
    {
        match waiter.handles.next() {
            Some((want, wait_ms)) => WaitStep::Dequeue { want, wait_ms },
            None => WaitStep::Done(Ok(0)),
        }
    }

    fn begin_round(&self, waiter: &mut Waiter) -> (r: WaitStep)
        requires
            self@.wake is Some,
            old(waiter)@.sockets,
        ensures
            final(waiter)@.wf(),
            final(waiter)@.stands_at(r),
            begins_round(self@, old(waiter)@, final(waiter)@, r),
    {
        waiter.swept = Vec::new();
        waiter.handles = HandleWait::new(0, 0);
        match self.sweep_list(waiter.capacity) {
            Some(list) => WaitStep::Sweep(list),
            None => self.begin_handles(waiter),
        }
    }

    fn begin_handles(&self, waiter: &mut Waiter) -> (r: WaitStep)
        requires
            self@.wake is Some,
            old(waiter)@.sockets,
            old(waiter)@.swept.len() <= old(waiter)@.capacity,
        ensures
            final(waiter)@.wf(),
            final(waiter)@.stands_at(r),
            begins_handles(self@, old(waiter)@, final(waiter)@, r),
    {
        let room: usize = waiter.capacity - waiter.swept.len();
        waiter.handles = HandleWait::new(0, room);
        match waiter.handles.next() {
            Some((want, wait_ms)) => WaitStep::Dequeue { want, wait_ms },
            None => self.pass_handles(waiter, 0),
        }
    }

    fn pass_handles(&self, waiter: &mut Waiter, count: usize) -> (r: WaitStep)
        requires
            old(waiter)@.wf(),
            old(waiter)@.sockets ==> self@.wake is Some,
            count == old(waiter)@.handles.found.len(),
        ensures
            final(waiter)@.wf(),
            final(waiter)@.stands_at(r),
            passes_handles(self@, old(waiter)@, count as nat, final(waiter)@, r),
    {
        let total: usize = waiter.swept.len() + count;
        if !waiter.sockets || total > 0 {
            return WaitStep::Done(Ok(total));
        }
        if waiter.timeout < 0 {
            self.block(waiter, -1)
        } else {
            WaitStep::Clock
        }
    }

    fn block(&self, waiter: &mut Waiter, remaining: i32) -> (r: WaitStep)
        requires
            old(waiter)@.wf(),
            old(waiter)@.sockets,
            self@.wake is Some,
            old(waiter)@.events().len() == 0,
        ensures
            final(waiter)@.wf(),
            final(waiter)@.stands_at(r),
            blocks(self@, old(waiter)@, remaining, final(waiter)@, r),
    {
        waiter.remaining = remaining;
        let timeout_ms: i32 = if remaining < 0 || remaining > RECHECK_MS {
            RECHECK_MS
        } else {
            remaining
        };
        match self.block_list() {
            Some(list) => WaitStep::Block { list, timeout_ms },
            None => WaitStep::Done(Ok(0)),
        }
    }

    fn pass_block(&self, waiter: &mut Waiter, timed_out: bool) -> (r: WaitStep)
        requires
            old(waiter)@.wf(),
            old(waiter)@.sockets,
            self@.wake is Some,
            old(waiter)@.events().len() == 0,
        ensures
            final(waiter)@.wf(),
            final(waiter)@.stands_at(r),
            passes_block(self@, old(waiter)@, timed_out, final(waiter)@, r),
    {
        if timed_out && 0 <= waiter.remaining && waiter.remaining <= RECHECK_MS {
            return WaitStep::Done(Ok(0));
        }
        self.begin_round(waiter)
    }
}

proof fn lemma_a_socket_means_a_wake_socket(list: EpollView)
    requires
        list.wf(),
        list.sockets.len() > 0,
    ensures
        list.wake is Some,
{
    if list.sockets.dom() =~= Set::empty() {
    } else {
        let s = choose|s: usize| list.sockets.dom().contains(s);
        assert(list.sockets.contains_key(s));
    }
}

} // verus!
