//! An epoll-like interest list over an I/O completion port.
//!
//! *Sockets* report [`EventSet::IN`] and [`EventSet::OUT`] and are
//! level-triggered: each wait asks `WSAPoll` what is ready now.
//!
//! *Handles* report [`EventSet::IN`] only. They are expected to be auto-reset
//! events: satisfying the wait consumes the signal, so each one is delivered
//! as exactly one wake-up.
//!
//! While any socket is registered, a wait blocks in `WSAPoll` rather than on
//! the completion port, so a signalled handle reaches it over a wake socket
//! that is made with the first socket.

pub use crate::flags::EventSet;
pub use control::{can_stand_at, ctl_follows, Ctl, CtlReply};
pub use wait::{
    at_most, begins_wait, block_for, drain_again, lists_sockets, polled, ready, resolved,
    wait_follows, Batch, Blocked, HandleWait, PollEntry, WaitReply, WaitStep, Waiter, WaiterView,
    RECHECK_MS, WAKE_BUFFER_LEN,
};

use crate::error::{fails, non_null, Error, ErrorKind, ErrorView};
use crate::flags::{event_set_text, within, EVENT_SET_BITS};
use crate::sys;
use crate::text::{hex, push_hex};
use std::collections::HashMap;
use vstd::prelude::*;
use vstd::std_specs::iter::IteratorSpec;

pub mod control;
pub mod laws;
pub mod wait;

verus! {

broadcast use vstd::std_specs::hash::group_hash_axioms;

/// What can be done with a handle in an interest list.
#[derive(Debug, Clone, Copy, PartialEq, Eq, Structural)]
pub enum ControlOperation {
    /// Add a handle to the interest list.
    Add,
    /// Change what is associated with a handle in the interest list.
    Modify,
    /// Remove a handle from the interest list.
    Delete,
}

/// An event, as asked for and as reported.
#[derive(Debug, Clone, Copy)]
pub struct EpollEvent {
    /// The bits of an [`EventSet`].
    pub events: u32,
    /// Returned unchanged with the event.
    pub data: u64,
}

impl Default for EpollEvent {
    fn default() -> (r: EpollEvent)
        ensures
            r == (EpollEvent { events: 0, data: 0 }),
    {
        EpollEvent { events: 0, data: 0 }
    }
}

impl EpollEvent {
    /// An event of the kinds in `events`, with `data` to go with it.
    pub fn new(events: EventSet, data: u64) -> (r: EpollEvent)
        ensures
            r == (EpollEvent { events: events@, data }),
    {
        EpollEvent { events: events.bits(), data }
    }

    /// The kinds of the event, each of which must have a name.
    pub fn event_set(&self) -> (r: EventSet)
        requires
            within(self.events, EVENT_SET_BITS),
        ensures
            r@ == self.events,
            r.wf(),
    {
        EventSet::from_bits(self.events).unwrap()
    }

    /// What was given to go with the event.
    pub fn data(&self) -> (r: u64)
        ensures
            r == self.data,
    {
        self.data
    }
}

/// The complaint about bits that have no name.
pub open spec fn unknown_bits(bits: u32) -> ErrorView {
    ErrorView::Custom(ErrorKind::InvalidInput, "unknown EventSet bits: 0x"@ + hex(bits as nat))
}

/// The complaint about events that a handle does not report.
pub open spec fn handle_unsupported(bits: u32) -> ErrorView {
    ErrorView::Custom(
        ErrorKind::Unsupported,
        "a Windows Epoll handle only supports EventSet::IN, got "@ + event_set_text(bits),
    )
}

/// The complaint about events that a socket does not report.
pub open spec fn socket_unsupported(bits: u32) -> ErrorView {
    ErrorView::Custom(
        ErrorKind::Unsupported,
        "a Windows Epoll socket supports IN and OUT, got "@ + event_set_text(bits),
    )
}

fn unknown_bits_error(bits: u32) -> (r: Error)
    ensures
        r@ == unknown_bits(bits),
{
    let mut text: String = "unknown EventSet bits: 0x".to_owned();
    push_hex(&mut text, bits);
    Error::Custom(ErrorKind::InvalidInput, text)
}

fn handle_unsupported_error(events: EventSet) -> (r: Error)
    ensures
        r@ == handle_unsupported(events@),
{
    let mut text: String = "a Windows Epoll handle only supports EventSet::IN, got ".to_owned();
    text.append(events.text().as_str());
    Error::Custom(ErrorKind::Unsupported, text)
}

/// Check what a handle is to be watched for: [`EventSet::IN`] or nothing.
pub fn validate_event_set(bits: u32) -> (r: Result<(), Error>)
    ensures
        bits == 0 || bits == 1 ==> r is Ok,
        !within(bits, EVENT_SET_BITS) ==> fails(r, unknown_bits(bits)),
        within(bits, EVENT_SET_BITS) && bits != 0 && bits != 1 ==> fails(
            r,
            handle_unsupported(bits),
        ),
{
    proof {
        assert(0u32 & 0x3ff == 0 && 1u32 & 0x3ff == 1) by (bit_vector);
    }
    let events: EventSet = match EventSet::from_bits(bits) {
        Some(events) => events,
        None => return Err(unknown_bits_error(bits)),
    };
    if !events.is_empty() && events.bits() != EventSet::IN().bits() {
        return Err(handle_unsupported_error(events));
    }
    Ok(())
}

/// Check what a socket is to be watched for: readability and writability.
pub fn validate_socket_event_set(bits: u32) -> (r: Result<EventSet, Error>)
    ensures
        bits < 4 ==> (r matches Ok(events) && events@ == bits),
        !within(bits, EVENT_SET_BITS) ==> fails(r, unknown_bits(bits)),
        within(bits, EVENT_SET_BITS) && bits >= 4 ==> fails(r, socket_unsupported(bits)),
{
    proof {
        assert(bits < 4 ==> bits & 0x3ff == bits) by (bit_vector);
        assert((bits & !(1u32 | 2u32) == 0) == (bits < 4)) by (bit_vector);
    }
    let events: EventSet = match EventSet::from_bits(bits) {
        Some(events) => events,
        None => return Err(unknown_bits_error(bits)),
    };
    let supported: EventSet = EventSet::IN().union(EventSet::OUT());
    if !events.difference(supported).is_empty() {
        let mut text: String = "a Windows Epoll socket supports IN and OUT, got ".to_owned();
        text.append(events.text().as_str());
        return Err(Error::Custom(ErrorKind::Unsupported, text));
    }
    Ok(events)
}

/// Whether a handle names a socket, from what `getsockopt` returned for it.
pub fn is_socket(ret: i32) -> (r: bool)
    ensures
        r == (ret != sys::socket_error_value()),
{
    ret != sys::socket_error()
}

/// The `WSAPoll` request bits for an interest.
pub open spec fn poll_bits(interest: u32) -> i16 {
    if interest & 1 == 1 && interest & 2 == 2 {
        0x110
    } else if interest & 1 == 1 {
        sys::pollrdnorm_value()
    } else if interest & 2 == 2 {
        sys::pollwrnorm_value()
    } else {
        0
    }
}

/// The `WSAPoll` request bits for an interest.
pub fn poll_events(interest: EventSet) -> (r: i16)
    ensures
        r == poll_bits(interest@),
{
    proof {
        let i = interest@;
        assert(1u32 & i == i & 1 && 2u32 & i == i & 2) by (bit_vector);
        assert(0i16 | 0x100i16 == 0x100i16 && 0i16 | 0x10i16 == 0x10i16 && 0x100i16 | 0x10i16
            == 0x110i16) by (bit_vector);
    }
    let mut events: i16 = 0;
    if interest.contains(EventSet::IN()) {
        events = events | sys::pollrdnorm();
    }
    if interest.contains(EventSet::OUT()) {
        events = events | sys::pollwrnorm();
    }
    events
}

/// Whether a `WSAPoll` result counts as readable: it says so, it reports a
/// condition that the next read observes, or it reports nothing else.
pub open spec fn reads(revents: i16) -> bool {
    revents & 0x100 != 0 || revents & 0x7 != 0 || revents & 0x110 == 0
}

/// What is reported for a `WSAPoll` result, as the bits of an event set.
pub open spec fn reported_bits(revents: i16) -> u32 {
    if reads(revents) && revents & 0x10 != 0 {
        3
    } else if reads(revents) {
        1
    } else {
        2
    }
}

/// What to report for a `WSAPoll` result, or nothing if nothing happened.
///
/// An error, a hang-up and an invalid descriptor come whether or not they
/// were asked for. They are reported as readability, so that the caller's
/// next read observes them.
pub fn event_set_of(revents: i16) -> (r: Option<EventSet>)
    ensures
        revents == 0 ==> r is None,
        revents != 0 ==> (r matches Some(set) && set@ == reported_bits(revents)),
{
    if revents == 0 {
        return None;
    }
    proof {
        assert(0x1i16 | 0x2i16 == 0x3i16 && 0x3i16 | 0x4i16 == 0x7i16) by (bit_vector);
        assert((revents & 0x110 == 0) == (revents & 0x100 == 0 && revents & 0x10 == 0))
            by (bit_vector);
        assert(0u32 | 1u32 == 1 && 0u32 | 2u32 == 2 && 1u32 | 2u32 == 3 && 1u32 | 1u32 == 1)
            by (bit_vector);
        assert(1u32 | 3u32 == 3 && 1u32 | 0u32 == 1) by (bit_vector);
    }
    let mut set: EventSet = EventSet::empty();
    let trouble: i16 = sys::pollerr() | sys::pollhup() | sys::pollnval();
    if revents & sys::pollrdnorm() != 0 || revents & trouble != 0 {
        set = set.union(EventSet::IN());
    }
    if revents & sys::pollwrnorm() != 0 {
        set = set.union(EventSet::OUT());
    }
    if set.is_empty() {
        set = EventSet::IN();
    }
    Some(set)
}

/// A registered wait on one handle.
#[derive(Debug, Clone, Copy, PartialEq, Eq, Structural)]
pub struct Registration {
    /// The completion key that the wait posts.
    pub token: usize,
    /// The wait itself, for `UnregisterWaitEx`.
    pub wait_handle: usize,
}

/// What a registered socket is watched for, and what to report it with.
#[derive(Debug, Clone, Copy, PartialEq, Eq, Structural)]
pub struct SocketRegistration {
    /// The events to watch for.
    pub interest: EventSet,
    /// What goes with them.
    pub data: u64,
}

/// The interest list.
pub struct Epoll {
    iocp: usize,
    by_handle: HashMap<usize, Registration>,
    data_by_token: HashMap<usize, u64>,
    sockets: HashMap<usize, SocketRegistration>,
    next_token: usize,
    retired: Ghost<Set<usize>>,
    wake: Option<usize>,
}

/// An [`Epoll`] as mathematical maps.
#[verifier::ext_equal]
pub struct EpollView {
    /// The completion port.
    pub iocp: usize,
    /// Registered handles.
    pub by_handle: Map<usize, Registration>,
    /// What goes with the events of each live token.
    pub data_by_token: Map<usize, u64>,
    /// Registered sockets.
    pub sockets: Map<usize, SocketRegistration>,
    /// The token that is minted next.
    pub next_token: usize,
    /// The tokens of handles that were deleted.
    pub retired: Set<usize>,
    /// The wake socket, once there is one.
    pub wake: Option<usize>,
}

impl View for Epoll {
    type V = EpollView;

    closed spec fn view(&self) -> EpollView {
        EpollView {
            iocp: self.iocp,
            by_handle: self.by_handle@,
            data_by_token: self.data_by_token@,
            sockets: self.sockets@,
            next_token: self.next_token,
            retired: self.retired@,
            wake: self.wake,
        }
    }
}

impl EpollView {
    /// What holds of an interest list between calls: every token that was ever
    /// minted is below the next one, each registered handle has a live token
    /// of its own, each live token belongs to a handle, a token that was
    /// retired was minted and is not live, sockets are watched
    /// for nothing but readability and writability, and a socket is registered
    /// only when there is a wake socket; there are only so many of them.
    pub open spec fn wf(self) -> bool {
        &&& forall|h: usize| #[trigger]
            self.by_handle.contains_key(h) ==> self.data_by_token.contains_key(
                self.by_handle[h].token,
            )
        &&& forall|h: usize, k: usize|
            #![trigger self.by_handle.contains_key(h), self.by_handle.contains_key(k)]
            self.by_handle.contains_key(h) && self.by_handle.contains_key(k) && h != k
                ==> self.by_handle[h].token != self.by_handle[k].token
        &&& forall|t: usize| #[trigger]
            self.data_by_token.contains_key(t) ==> t < self.next_token && self.registers(t)
        &&& forall|t: usize| #[trigger]
            self.retired.contains(t) ==> t < self.next_token && !self.data_by_token.contains_key(t)
        &&& forall|s: usize| #[trigger]
            self.sockets.contains_key(s) ==> self.sockets[s].interest@ < 4 && self.wake is Some
        &&& self.sockets.dom().finite()
    }

    /// Whether some registered handle posts the token `t`.
    pub open spec fn registers(self, t: usize) -> bool {
        exists|h: usize| #[trigger] self.by_handle.contains_key(h) && self.by_handle[h].token == t
    }

    /// Whether `token` has been minted, for `handle`, and was never used.
    pub open spec fn reserved(self, handle: usize, token: usize) -> bool {
        &&& token < self.next_token
        &&& !self.data_by_token.contains_key(token)
        &&& !self.retired.contains(token)
        &&& !self.by_handle.contains_key(handle)
    }

    /// The list with `socket` watched.
    pub open spec fn with_socket(self, socket: usize, interest: EventSet, data: u64) -> EpollView {
        EpollView {
            sockets: self.sockets.insert(socket, SocketRegistration { interest, data }),
            ..self
        }
    }

    /// The list with `handle` watched.
    pub open spec fn with_handle(
        self,
        handle: usize,
        registration: Registration,
        data: u64,
    ) -> EpollView {
        EpollView {
            by_handle: self.by_handle.insert(handle, registration),
            data_by_token: self.data_by_token.insert(registration.token, data),
            ..self
        }
    }

    /// The list without `handle`, whose token is retired.
    pub open spec fn without_handle(self, handle: usize) -> EpollView {
        EpollView {
            by_handle: self.by_handle.remove(handle),
            data_by_token: self.data_by_token.remove(self.by_handle[handle].token),
            retired: self.retired.insert(self.by_handle[handle].token),
            ..self
        }
    }

    /// The list with nothing in it, and every token that was live retired.
    pub open spec fn emptied(self) -> EpollView {
        EpollView {
            by_handle: Map::empty(),
            data_by_token: Map::empty(),
            sockets: Map::empty(),
            retired: self.retired.union(self.data_by_token.dom()),
            wake: None,
            ..self
        }
    }

    /// The list with other data for `handle`.
    pub open spec fn with_data(self, handle: usize, data: u64) -> EpollView {
        EpollView {
            data_by_token: self.data_by_token.insert(self.by_handle[handle].token, data),
            ..self
        }
    }
}

proof fn lemma_registers_frame(before: EpollView, after: EpollView)
    requires
        before.by_handle == after.by_handle,
    ensures
        forall|t: usize| before.registers(t) == after.registers(t),
{
    assert forall|t: usize| before.registers(t) == after.registers(t) by {
        if before.registers(t) {
            let h = choose|h: usize| #[trigger]
                before.by_handle.contains_key(h) && before.by_handle[h].token == t;
            assert(after.by_handle.contains_key(h));
        }
        if after.registers(t) {
            let h = choose|h: usize| #[trigger]
                after.by_handle.contains_key(h) && after.by_handle[h].token == t;
            assert(before.by_handle.contains_key(h));
        }
    }
}

impl Epoll {
    /// What holds of an interest list between calls.
    pub open spec fn wf(&self) -> bool {
        self@.wf()
    }

    /// An empty interest list over the completion port that
    /// `CreateIoCompletionPort` returned, or its failure if that is null.
    pub fn new(iocp: usize, last_error: i32) -> (r: Result<Epoll, Error>)
        ensures
            iocp == 0 ==> fails(r, ErrorView::Os(last_error)),
            iocp != 0 ==> (r matches Ok(list) && list.wf() && list@ == (EpollView {
                iocp,
                by_handle: Map::empty(),
                data_by_token: Map::empty(),
                sockets: Map::empty(),
                next_token: 0,
                retired: Set::empty(),
                wake: None,
            })),
    {
        let iocp: usize = match non_null(iocp, last_error) {
            Ok(iocp) => iocp,
            Err(e) => return Err(e),
        };
        Ok(
            Epoll {
                iocp,
                by_handle: HashMap::new(),
                data_by_token: HashMap::new(),
                sockets: HashMap::new(),
                next_token: 0,
                retired: Ghost(Set::empty()),
                wake: None,
            },
        )
    }

    /// The completion port.
    pub fn as_raw_handle(&self) -> (r: usize)
        ensures
            r == self@.iocp,
    {
        self.iocp
    }

    /// The wake socket, once there is one.
    pub fn wake(&self) -> (r: Option<usize>)
        ensures
            r == self@.wake,
    {
        self.wake
    }

    /// Whether there is a token left to mint.
    pub fn can_mint(&self) -> (r: bool)
        ensures
            r == (self@.next_token < usize::MAX),
    {
        self.next_token < usize::MAX
    }
}

/// What the callback of a registered wait posts to the completion port: its
/// token as the key, and nothing else.
#[derive(Debug, Clone, Copy, PartialEq, Eq, Structural)]
pub struct WaitPost {
    /// The completion port.
    pub iocp: usize,
    /// The completion key.
    pub key: usize,
}

/// What the callback of the wait registered under `token` posts.
pub fn wait_post(iocp: usize, token: usize) -> (r: WaitPost)
    ensures
        r == (WaitPost { iocp, key: token }),
{
    WaitPost { iocp, key: token }
}

/// Where the callback of a registered wait sends a byte, given the published
/// wake socket: nowhere while that is negative. With sockets registered, a
/// wait blocks in `WSAPoll`, and the byte is what ends that.
pub fn wake_target(writer: isize) -> (r: Option<usize>)
    ensures
        writer < 0 ==> r is None,
        writer >= 0 ==> r == Some(writer as usize),
{
    if writer >= 0 {
        Some(writer as usize)
    } else {
        None
    }
}

/// One thing to do when an interest list goes away.
#[derive(Debug, Clone, Copy, PartialEq, Eq, Structural)]
pub enum Teardown {
    /// Stop publishing the wake socket.
    Unpublish,
    /// Unregister a wait, waiting out its callbacks.
    Unregister {
        /// The handle that is waited on.
        handle: usize,
        /// The wait.
        wait_handle: usize,
    },
    /// Close the wake socket.
    CloseWake(usize),
    /// Close the completion port.
    ClosePort(usize),
}

/// Whether `list` unregisters each wait, once.
pub open spec fn unregisters_all(
    by_handle: Map<usize, Registration>,
    list: Seq<Teardown>,
) -> bool {
    &&& forall|i: int|
        0 <= i < list.len() ==> (#[trigger] list[i]) is Unregister && by_handle.contains_key(
            list[i]->handle,
        ) && list[i]->wait_handle == by_handle[list[i]->handle].wait_handle
    &&& forall|i: int, j: int|
        0 <= i < j < list.len() ==> (#[trigger] list[i])->handle != (#[trigger] list[j])->handle
    &&& forall|h: usize| #[trigger]
        by_handle.contains_key(h) ==> exists|i: int|
            0 <= i < list.len() && (#[trigger] list[i])->handle == h
}

/// What follows the waits when an interest list goes away.
pub open spec fn teardown_tail(wake: Option<usize>, iocp: usize) -> Seq<Teardown> {
    match wake {
        Some(wake) => seq![Teardown::CloseWake(wake), Teardown::ClosePort(iocp)],
        None => seq![Teardown::ClosePort(iocp)],
    }
}

/// Whether `list` takes an interest list apart in the order that is safe: a
/// callback reads the wake socket, so that is unpublished first and closed
/// only after every wait is gone, and the port is closed last.
pub open spec fn tears_down(before: EpollView, list: Seq<Teardown>) -> bool {
    exists|waits: Seq<Teardown>| #[trigger]
        unregisters_all(before.by_handle, waits) && list == seq![Teardown::Unpublish] + waits
            + teardown_tail(before.wake, before.iocp)
}

impl Epoll {
    /// Empty the list, and hand out what has to be done, in order.
    pub fn teardown(&mut self) -> (r: Vec<Teardown>)
        requires
            old(self).wf(),
        ensures
            final(self).wf(),
            tears_down(old(self)@, r@),
            final(self)@ == old(self)@.emptied(),
    {
        let mut list: Vec<Teardown> = Vec::new();
        list.push(Teardown::Unpublish);
        let mut waits: Vec<Teardown> = self.registered_waits();
        let ghost all = waits@;
        list.append(&mut waits);
        if let Some(wake) = self.wake {
            list.push(Teardown::CloseWake(wake));
        }
        list.push(Teardown::ClosePort(self.iocp));
        assert(list@ =~= seq![Teardown::Unpublish] + all + teardown_tail(
            old(self)@.wake,
            old(self)@.iocp,
        ));
        proof {
            self.retired@ = self.retired@.union(self.data_by_token@.dom());
        }
        self.by_handle.clear();
        self.data_by_token.clear();
        self.sockets.clear();
        self.wake = None;
        list
    }

    fn registered_waits(&self) -> (r: Vec<Teardown>)
        ensures
            unregisters_all(self@.by_handle, r@),
    {
        let mut list: Vec<Teardown> = Vec::new();
        let keys = self.by_handle.keys();
        let ghost all = IteratorSpec::remaining(&keys).unref();
        for handle in it: keys
            invariant
                it.seq().unref() == all,
                all.len() == it.seq().len(),
                list@.len() == it.index(),
                all.to_set() == self@.by_handle.dom(),
                all.no_duplicates(),
                forall|i: int|
                    0 <= i < list@.len() ==> #[trigger] list@[i] == (Teardown::Unregister {
                        handle: all[i],
                        wait_handle: self@.by_handle[all[i]].wait_handle,
                    }),
        {
            assert(all[it.index() as int] == *handle);
            assert(all.contains(*handle));
            assert(self@.by_handle.dom().contains(*handle));
            if let Some(registration) = self.by_handle.get(handle) {
                list.push(
                    Teardown::Unregister {
                        handle: *handle,
                        wait_handle: registration.wait_handle,
                    },
                );
            }
        }
        assert forall|i: int| 0 <= i < list@.len() implies self@.by_handle.contains_key(
            (#[trigger] list@[i])->handle,
        ) by {
            assert(all.contains(all[i]));
            assert(self@.by_handle.dom().contains(all[i]));
        }
        assert forall|h: usize| #[trigger] self@.by_handle.contains_key(h) implies exists|i: int|
            0 <= i < list@.len() && (#[trigger] list@[i])->handle == h by {
            assert(all.to_set().contains(h));
            let i = choose|i: int| 0 <= i < all.len() && all[i] == h;
            assert(list@[i]->handle == h);
        }
        list
    }
}

} // verus!
