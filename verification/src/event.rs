//! Event notification between two parties, over an [`EventFd`].

pub use crate::eventfd::{EFD_CLOEXEC, EFD_NONBLOCK, EFD_SEMAPHORE};
pub use crate::flags::EventFlag;

use crate::error::{fails, Error, ErrorView};
use crate::eventfd::{EventFd, EventFdView};
use vstd::prelude::*;

verus! {

/// Signals an event to notify a peer.
#[derive(Debug)]
pub struct EventNotifier {
    event: EventFd,
}

impl View for EventNotifier {
    type V = EventFdView;

    closed spec fn view(&self) -> EventFdView {
        self.event@
    }
}

impl EventNotifier {
    /// What signalling the event came to, from what `SetEvent` returned.
    pub fn notify(&self, succeeded: bool, last_error: i32) -> (r: Result<(), Error>)
        ensures
            succeeded ==> r is Ok,
            !succeeded ==> fails(r, ErrorView::Os(last_error)),
    {
        self.event.write(1, succeeded, last_error)
    }

    /// The same event under another handle, from what `DuplicateHandle`
    /// returned and wrote.
    pub fn try_clone(&self, succeeded: bool, handle: usize, last_error: i32) -> (r: Result<
        EventNotifier,
        Error,
    >)
        ensures
            succeeded ==> (r matches Ok(notifier) && notifier@ == (EventFdView {
                event: handle,
                ..self@
            })),
            !succeeded ==> fails(r, ErrorView::Os(last_error)),
    {
        match self.event.try_clone(succeeded, handle, last_error) {
            Ok(event) => Ok(EventNotifier { event }),
            Err(e) => Err(e),
        }
    }

    /// The event object.
    pub fn as_raw_handle(&self) -> (r: usize)
        ensures
            r == self@.event,
    {
        self.event.as_raw_handle()
    }

    /// Adopt an event object.
    pub fn from_raw_handle(handle: usize) -> (r: EventNotifier)
        ensures
            r@ == (EventFdView { event: handle, nonblock: false }),
    {
        EventNotifier { event: EventFd::from_raw_handle(handle) }
    }

    /// Give the event object up.
    pub fn into_raw_handle(self) -> (r: usize)
        ensures
            r == self@.event,
    {
        self.event.into_raw_handle()
    }
}

/// Consumes a signalled event.
#[derive(Debug)]
pub struct EventConsumer {
    event: EventFd,
}

impl View for EventConsumer {
    type V = EventFdView;

    closed spec fn view(&self) -> EventFdView {
        self.event@
    }
}

impl EventConsumer {
    /// Consume a pending signal: nothing is left to do. The event is
    /// auto-reset, so the wait that it satisfied consumed the signal; touching
    /// the handle here could eat the next one.
    pub fn consume(&self) -> (r: Result<(), Error>)
        ensures
            r is Ok,
    {
        Ok(())
    }

    /// The same event under another handle, from what `DuplicateHandle`
    /// returned and wrote.
    pub fn try_clone(&self, succeeded: bool, handle: usize, last_error: i32) -> (r: Result<
        EventConsumer,
        Error,
    >)
        ensures
            succeeded ==> (r matches Ok(consumer) && consumer@ == (EventFdView {
                event: handle,
                ..self@
            })),
            !succeeded ==> fails(r, ErrorView::Os(last_error)),
    {
        match self.event.try_clone(succeeded, handle, last_error) {
            Ok(event) => Ok(EventConsumer { event }),
            Err(e) => Err(e),
        }
    }

    /// The event object.
    pub fn as_raw_handle(&self) -> (r: usize)
        ensures
            r == self@.event,
    {
        self.event.as_raw_handle()
    }

    /// Adopt an event object.
    pub fn from_raw_handle(handle: usize) -> (r: EventConsumer)
        ensures
            r@ == (EventFdView { event: handle, nonblock: false }),
    {
        EventConsumer { event: EventFd::from_raw_handle(handle) }
    }

    /// Give the event object up.
    pub fn into_raw_handle(self) -> (r: usize)
        ensures
            r == self@.event,
    {
        self.event.into_raw_handle()
    }
}

/// The flags of an [`EventFd`] that `flags` ask for: [`EventFlag::CLOEXEC`]
/// has no effect.
pub fn efd_flags(flags: EventFlag) -> (r: i32)
    ensures
        r == if 1u8 & flags@ == 1 {
            EFD_NONBLOCK
        } else {
            0
        },
{
    if flags.contains(EventFlag::NONBLOCK()) {
        EFD_NONBLOCK
    } else {
        0
    }
}

/// A consumer and a notifier of one auto-reset event, each with a handle of
/// its own: `created` is what `CreateEventW` returned, with the last error, and
/// then come what `DuplicateHandle` returned and wrote, and its last error.
pub fn new_event_consumer_and_notifier(
    flags: EventFlag,
    created: usize,
    create_error: i32,
    duplicated: bool,
    duplicate: usize,
    duplicate_error: i32,
) -> (r: Result<(EventConsumer, EventNotifier), Error>)
    ensures
        created == 0 ==> fails(r, ErrorView::Os(create_error)),
        created != 0 && !duplicated ==> fails(r, ErrorView::Os(duplicate_error)),
        created != 0 && duplicated ==> (r matches Ok(pair) && pair.0@ == (EventFdView {
            event: created,
            nonblock: 1u8 & flags@ == 1,
        }) && pair.1@ == (EventFdView { event: duplicate, nonblock: 1u8 & flags@ == 1 })),
{
    proof {
        assert(1i32 & 1i32 != 0 && 0i32 & 1i32 == 0) by (bit_vector);
    }
    let event: EventFd = match EventFd::new(efd_flags(flags), created, create_error) {
        Ok(event) => event,
        Err(e) => return Err(e),
    };
    match event.try_clone(duplicated, duplicate, duplicate_error) {
        Ok(clone) => Ok((EventConsumer { event }, EventNotifier { event: clone })),
        Err(e) => Err(e),
    }
}

/// A consumer and a notifier have one event under two handles: the consumer the
/// one that was made, the notifier the duplicate. Both wait, or both do not, by
/// the lowest flag.
pub proof fn two_handles_have_one_event(
    flags: EventFlag,
    created: usize,
    create_error: i32,
    duplicated: bool,
    duplicate: usize,
    duplicate_error: i32,
    r: Result<(EventConsumer, EventNotifier), Error>,
    f: i32,
)
    requires
        call_ensures(
            new_event_consumer_and_notifier,
            (flags, created, create_error, duplicated, duplicate, duplicate_error),
            r,
        ),
        call_ensures(efd_flags, (flags,), f),
    ensures
        f == if flags@ & 1 == 1 {
            1i32
        } else {
            0
        },
        r is Ok <==> created != 0 && duplicated,
        r matches Err(e) ==> e@ == ErrorView::Os(
            if created == 0 {
                create_error
            } else {
                duplicate_error
            },
        ),
        r matches Ok(pair) ==> {
            &&& pair.0@.event == created
            &&& pair.1@.event == duplicate
            &&& pair.0@.nonblock == (flags@ & 1 == 1)
            &&& pair.1@.nonblock == (flags@ & 1 == 1)
        },
{
    let bits = flags@;
    assert(1u8 & bits == bits & 1) by (bit_vector);
}

/// Each side hands its event on as it is: under another handle when that was
/// made, or adopted, or given up. Notifying fails exactly when the call did, and
/// consuming never does.
pub proof fn each_side_hands_its_event_on(
    notifier: &EventNotifier,
    consumer: &EventConsumer,
    succeeded: bool,
    handle: usize,
    last_error: i32,
    notified: Result<(), Error>,
    consumed: Result<(), Error>,
    n: Result<EventNotifier, Error>,
    c: Result<EventConsumer, Error>,
    adopted_n: EventNotifier,
    adopted_c: EventConsumer,
)
    requires
        call_ensures(EventNotifier::notify, (notifier, succeeded, last_error), notified),
        call_ensures(EventConsumer::consume, (consumer,), consumed),
        call_ensures(EventNotifier::try_clone, (notifier, succeeded, handle, last_error), n),
        call_ensures(EventConsumer::try_clone, (consumer, succeeded, handle, last_error), c),
        call_ensures(EventNotifier::from_raw_handle, (handle,), adopted_n),
        call_ensures(EventConsumer::from_raw_handle, (handle,), adopted_c),
    ensures
        match notified {
            Ok(_) => succeeded,
            Err(e) => !succeeded && e@ == ErrorView::Os(last_error),
        },
        consumed is Ok,
        match n {
            Ok(made) => succeeded && made@.event == handle && made@.nonblock
                == notifier@.nonblock,
            Err(e) => !succeeded && e@ == ErrorView::Os(last_error),
        },
        match c {
            Ok(made) => succeeded && made@.event == handle && made@.nonblock
                == consumer@.nonblock,
            Err(e) => !succeeded && e@ == ErrorView::Os(last_error),
        },
        adopted_n@.event == handle && !adopted_n@.nonblock,
        adopted_c@.event == handle && !adopted_c@.nonblock,
{
}

} // verus!
