//! Timers that post to a port.

use super::{lemma_registers_frame, Bridged, BridgedKind, Port};
use crate::error::{fails, non_null, Error, ErrorView};
use vstd::prelude::*;

verus! {

broadcast use vstd::std_specs::hash::group_hash_axioms;

/// A one-shot timer that posts to a port when it expires.
#[derive(Debug)]
pub struct Timer {
    timer: usize,
    token: usize,
}

/// A due time as the thread pool takes it: two halves of a 64-bit number.
#[derive(Debug, Clone, Copy, PartialEq, Eq, Structural)]
pub struct FileTime {
    /// The low half.
    pub low: u32,
    /// The high half.
    pub high: u32,
}

/// A `SetThreadpoolTimer` that the caller now asks for.
#[derive(Debug, Clone, Copy, PartialEq, Eq, Structural)]
pub struct SetTimer {
    /// The timer to set.
    pub timer: usize,
    /// When it is due, or nothing to stop it.
    pub due: Option<FileTime>,
}

/// How many units of 100 nanoseconds a timer waits, at most the largest
/// number that can be negated.
pub open spec fn ticks_of(nanoseconds: u128) -> int {
    if nanoseconds / 100 <= i64::MAX {
        (nanoseconds / 100) as int
    } else {
        i64::MAX as int
    }
}

impl FileTime {
    /// The number that the two halves spell, in two's complement.
    pub open spec fn value(self) -> int {
        let unsigned = self.high * 0x1_0000_0000 + self.low;
        if unsigned < 0x8000_0000_0000_0000 {
            unsigned
        } else {
            unsigned - 0x1_0000_0000_0000_0000
        }
    }

    /// The due time `nanoseconds` from now: a relative one is negative.
    pub fn after(nanoseconds: u128) -> (r: FileTime)
        ensures
            r.value() == -ticks_of(nanoseconds),
    {
        let units: u128 = nanoseconds / 100;
        let ticks: u64 = if units <= i64::MAX as u128 {
            units as u64
        } else {
            i64::MAX as u64
        };
        let due: u64 = if ticks == 0 {
            0
        } else {
            u64::MAX - ticks + 1
        };
        FileTime { low: (due % 0x1_0000_0000) as u32, high: (due / 0x1_0000_0000) as u32 }
    }
}

impl Timer {
    /// The token that the timer posts.
    pub closed spec fn posts(self) -> usize {
        self.token
    }

    /// The thread pool's timer.
    pub closed spec fn object(self) -> usize {
        self.timer
    }

    /// A timer that reports `key` on `port`, given the token minted for it and
    /// the timer that `CreateThreadpoolTimer` returned, or its failure if that
    /// is null. It is not running until [`Timer::set`].
    pub fn new<H>(port: &mut Port<H>, token: usize, key: usize, timer: usize, last_error: i32) -> (r:
        Result<Timer, Error>)
        requires
            old(port).wf(),
            old(port)@.unused(token),
        ensures
            final(port).wf(),
            timer == 0 ==> fails(r, ErrorView::Os(last_error)) && final(port)@ == old(port)@,
            timer != 0 ==> (r matches Ok(t) && t.posts() == token && t.object() == timer)
                && final(port)@ == old(port)@.with_timer(token, key),
    {
        let timer: usize = match non_null(timer, last_error) {
            Ok(timer) => timer,
            Err(e) => return Err(e),
        };
        port.bridged.insert(token, Bridged { key, kind: BridgedKind::Timer });
        proof {
            lemma_registers_frame(old(port)@, port@);
            assert forall|t: usize| #[trigger]
                port@.bridged.contains_key(t) && port@.bridged[t].kind
                    == BridgedKind::Signal implies port@.registers(t) by {
                assert(old(port)@.bridged.contains_key(t));
            }
        }
        Ok(Timer { timer, token })
    }

    /// Expire once, `after` nanoseconds from now.
    pub fn set(&self, after: u128) -> (r: SetTimer)
        ensures
            r.timer == self.object(),
            r.due matches Some(due) && due.value() == -ticks_of(after),
    {
        SetTimer { timer: self.timer, due: Some(FileTime::after(after)) }
    }

    /// Stop the timer. The caller then waits out its callbacks.
    pub fn cancel(&self) -> (r: SetTimer)
        ensures
            r == (SetTimer { timer: self.object(), due: None }),
    {
        SetTimer { timer: self.timer, due: None }
    }

    /// Retire the timer's token, and hand out the timer to be closed. A packet
    /// that is already queued for it is skipped from here on.
    pub fn close<H>(self, port: &mut Port<H>) -> (r: usize)
        requires
            old(port).wf(),
        ensures
            final(port).wf(),
            r == self.object(),
            final(port)@ == old(port)@.without_timer(self.posts()),
    {
        let times: bool = match port.bridged.get(&self.token) {
            Some(bridged) => matches!(bridged.kind, BridgedKind::Timer),
            None => false,
        };
        if times {
            port.bridged.remove(&self.token);
            proof {
                port.retired@ = port.retired@.insert(self.token);
                lemma_registers_frame(old(port)@, port@);
                assert(port@ =~= old(port)@.without_timer(self.token));
            }
        }
        self.timer
    }
}

} // verus!
