//! An event file descriptor, over an auto-reset event object.
//!
//! An event has no counter: writing signals it, and reading waits for the
//! signal and consumes it. One write wakes exactly one reader.

use crate::error::{call_result, fails, non_null, Error, ErrorKind, ErrorView};
use crate::sys;
use crate::text::{hex, push_hex};
use vstd::prelude::*;

verus! {

/// Reads do not wait.
pub const EFD_NONBLOCK: i32 = 1;

/// No effect.
pub const EFD_CLOEXEC: i32 = 2;

/// No effect: there is no counter.
pub const EFD_SEMAPHORE: i32 = 4;

/// An auto-reset event object.
#[derive(Debug)]
pub struct EventFd {
    event: usize,
    nonblock: bool,
}

/// An [`EventFd`] as plain values.
pub struct EventFdView {
    /// The event object.
    pub event: usize,
    /// Whether reads do not wait.
    pub nonblock: bool,
}

impl View for EventFd {
    type V = EventFdView;

    closed spec fn view(&self) -> EventFdView {
        EventFdView { event: self.event, nonblock: self.nonblock }
    }
}

/// What a wait for an event's signal came to.
pub open spec fn signalled(ret: u32, last_error: i32, r: Result<bool, Error>) -> bool {
    if ret == sys::wait_object_0_value() {
        r == Ok::<bool, Error>(true)
    } else if ret == sys::wait_timeout_value() {
        r == Ok::<bool, Error>(false)
    } else if ret == sys::wait_failed_value() {
        fails(r, ErrorView::Os(last_error))
    } else {
        fails(r, unexpected_return(ret))
    }
}

/// The complaint about a code that a wait does not return.
pub open spec fn unexpected_return(ret: u32) -> ErrorView {
    ErrorView::Custom(
        ErrorKind::Other,
        "unexpected WaitForSingleObject return value: 0x"@ + hex(ret as nat),
    )
}

/// What a wait for an event's signal came to, from what `WaitForSingleObject`
/// returned. The event is auto-reset, so a satisfied wait consumes the signal.
pub fn wait_for_signal(ret: u32, last_error: i32) -> (r: Result<bool, Error>)
    ensures
        signalled(ret, last_error, r),
{
    if ret == sys::wait_object_0() {
        Ok(true)
    } else if ret == sys::wait_timeout() {
        Ok(false)
    } else if ret == sys::wait_failed() {
        Err(Error::Os(last_error))
    } else {
        let mut text: String = "unexpected WaitForSingleObject return value: 0x".to_owned();
        push_hex(&mut text, ret);
        Err(Error::Custom(ErrorKind::Other, text))
    }
}

impl EventFd {
    /// An event over the object that `CreateEventW` returned, or its failure if
    /// that is null. Only [`EFD_NONBLOCK`] has an effect.
    pub fn new(flag: i32, handle: usize, last_error: i32) -> (r: Result<EventFd, Error>)
        ensures
            handle == 0 ==> fails(r, ErrorView::Os(last_error)),
            handle != 0 ==> (r matches Ok(fd) && fd@ == (EventFdView {
                event: handle,
                nonblock: flag & EFD_NONBLOCK != 0,
            })),
    {
        match non_null(handle, last_error) {
            Ok(event) => Ok(EventFd { event, nonblock: flag & EFD_NONBLOCK != 0 }),
            Err(e) => Err(e),
        }
    }

    /// What signalling the event came to, from what `SetEvent` returned. The
    /// value is ignored.
    pub fn write(&self, v: u64, succeeded: bool, last_error: i32) -> (r: Result<(), Error>)
        ensures
            succeeded ==> r is Ok,
            !succeeded ==> fails(r, ErrorView::Os(last_error)),
    {
        call_result(succeeded, last_error)
    }

    /// How long a read waits, in milliseconds.
    pub fn read_timeout(&self) -> (r: u32)
        ensures
            self@.nonblock ==> r == 0,
            !self@.nonblock ==> r == sys::infinite_value(),
    {
        if self.nonblock {
            0
        } else {
            sys::infinite()
        }
    }

    /// What a read returns, from what `WaitForSingleObject` returned for
    /// [`EventFd::read_timeout`]: one for a signal, since there is no counter.
    pub fn read(&self, ret: u32, last_error: i32) -> (r: Result<u64, Error>)
        ensures
            ret == sys::wait_object_0_value() ==> r == Ok::<u64, Error>(1),
            ret == sys::wait_timeout_value() ==> fails(
                r,
                ErrorView::Simple(ErrorKind::WouldBlock),
            ),
            ret == sys::wait_failed_value() ==> fails(r, ErrorView::Os(last_error)),
            ret != sys::wait_object_0_value() && ret != sys::wait_timeout_value() && ret
                != sys::wait_failed_value() ==> fails(r, unexpected_return(ret)),
    {
        match wait_for_signal(ret, last_error) {
            Ok(true) => Ok(1),
            Ok(false) => Err(Error::Simple(ErrorKind::WouldBlock)),
            Err(e) => Err(e),
        }
    }

    /// The same event under another handle, from what `DuplicateHandle`
    /// returned and wrote.
    pub fn try_clone(&self, succeeded: bool, handle: usize, last_error: i32) -> (r: Result<
        EventFd,
        Error,
    >)
        ensures
            succeeded ==> (r matches Ok(fd) && fd@ == (EventFdView { event: handle, ..self@ })),
            !succeeded ==> fails(r, ErrorView::Os(last_error)),
    {
        match call_result(succeeded, last_error) {
            Ok(()) => Ok(EventFd { event: handle, nonblock: self.nonblock }),
            Err(e) => Err(e),
        }
    }

    /// The event object.
    pub fn as_raw_handle(&self) -> (r: usize)
        ensures
            r == self@.event,
    {
        self.event
    }

    /// Adopt an event object. Its reads wait: a handle carries no mode to
    /// inherit.
    pub fn from_raw_handle(handle: usize) -> (r: EventFd)
        ensures
            r@ == (EventFdView { event: handle, nonblock: false }),
    {
        EventFd { event: handle, nonblock: false }
    }

    /// Give the event object up.
    pub fn into_raw_handle(self) -> (r: usize)
        ensures
            r == self@.event,
    {
        self.event
    }
}

/// What a wait returned decides: 0 is a signal, 258 is none, all ones is a failed
/// call, and anything else is unexpected.
pub proof fn a_wait_is_told_by_what_it_returned(
    event: &EventFd,
    ret: u32,
    last_error: i32,
    s: Result<bool, Error>,
    r: Result<u64, Error>,
)
    requires
        call_ensures(wait_for_signal, (ret, last_error), s),
        call_ensures(EventFd::read, (event, ret, last_error), r),
    ensures
        ret == 0 ==> s == Ok::<bool, Error>(true) && r == Ok::<u64, Error>(1),
        ret == 258 ==> s == Ok::<bool, Error>(false) && (r matches Err(e) && e@
            == ErrorView::Simple(ErrorKind::WouldBlock)),
        ret == 0xFFFF_FFFF ==> (s matches Err(e) && e@ == ErrorView::Os(last_error)) && (
        r matches Err(e) && e@ == ErrorView::Os(last_error)),
        ret != 0 && ret != 258 && ret != 0xFFFF_FFFF ==> {
            &&& s matches Err(e)
            &&& r matches Err(f)
            &&& e@ == f@
            &&& e@ == ErrorView::Custom(
                ErrorKind::Other,
                "unexpected WaitForSingleObject return value: 0x"@ + hex(ret as nat),
            )
        },
{
}

/// An event that was made not to wait does not, and any other waits for ever. A
/// duplicate waits as the event does, and one that was adopted waits.
pub proof fn an_event_waits_as_it_was_made_to(
    flag: i32,
    handle: usize,
    last_error: i32,
    made: Result<EventFd, Error>,
    event: &EventFd,
    timeout: u32,
    duplicated: bool,
    clone: Result<EventFd, Error>,
    adopted: EventFd,
)
    requires
        call_ensures(EventFd::new, (flag, handle, last_error), made),
        call_ensures(EventFd::read_timeout, (event,), timeout),
        call_ensures(EventFd::try_clone, (event, duplicated, handle, last_error), clone),
        call_ensures(EventFd::from_raw_handle, (handle,), adopted),
    ensures
        match made {
            Ok(fd) => handle != 0 && fd@.event == handle && fd@.nonblock == (flag & 1 != 0),
            Err(e) => handle == 0 && e@ == ErrorView::Os(last_error),
        },
        timeout == if event@.nonblock {
            0u32
        } else {
            0xFFFF_FFFF
        },
        match clone {
            Ok(fd) => duplicated && fd@.event == handle && fd@.nonblock == event@.nonblock,
            Err(e) => !duplicated && e@ == ErrorView::Os(last_error),
        },
        adopted@.event == handle,
        !adopted@.nonblock,
{
}

/// Signalling fails exactly when the call did, whatever is written; and an event
/// gives its object out as it is.
pub proof fn a_write_fails_when_the_call_did(
    event: &EventFd,
    v: u64,
    succeeded: bool,
    last_error: i32,
    w: Result<(), Error>,
    raw: usize,
    owned: EventFd,
    given_up: usize,
)
    requires
        call_ensures(EventFd::write, (event, v, succeeded, last_error), w),
        call_ensures(EventFd::as_raw_handle, (event,), raw),
        call_ensures(EventFd::into_raw_handle, (owned,), given_up),
    ensures
        match w {
            Ok(_) => succeeded,
            Err(e) => !succeeded && e@ == ErrorView::Os(last_error),
        },
        raw == event@.event,
        given_up == owned@.event,
{
}

} // verus!
