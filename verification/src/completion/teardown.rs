//! Taking a port down: stop the bridges, cancel every outstanding operation,
//! dequeue until each has completed, and leak what never does.

use super::{lemma_registers_frame, Cancellation, Pending, Port, PortView, SignalRegistration};
use crate::error::Error;
use std::collections::HashMap;
use vstd::prelude::*;
use vstd::std_specs::iter::IteratorSpec;

verus! {

broadcast use vstd::std_specs::hash::group_hash_axioms;

/// How long one dequeue of a teardown waits, in milliseconds.
pub const DRAIN_MS: u32 = 1000;

/// How long a teardown waits for any operation to complete, in nanoseconds.
pub const PATIENCE: u128 = 5_000_000_000;

/// What a teardown starts with.
pub struct Teardown {
    /// The waits to unregister, by handle.
    pub signals: HashMap<usize, SignalRegistration>,
    /// The requests to cancel.
    pub cancellations: Vec<Cancellation>,
}

/// Whether `list` asks to cancel each outstanding operation, once.
pub open spec fn cancels_all<H>(
    outstanding: Map<usize, Pending<H>>,
    list: Seq<Cancellation>,
) -> bool {
    &&& forall|i: int|
        0 <= i < list.len() ==> outstanding.contains_key(#[trigger] list[i].block)
            && list[i].handle == outstanding[list[i].block].handle
    &&& forall|i: int, j: int|
        0 <= i < j < list.len() ==> #[trigger] list[i].block != #[trigger] list[j].block
    &&& forall|b: usize| #[trigger]
        outstanding.contains_key(b) ==> exists|i: int|
            0 <= i < list.len() && #[trigger] list[i].block == b
}

/// How a teardown goes on.
#[derive(Debug, Clone, Copy, PartialEq, Eq, Structural)]
pub enum Drain {
    /// Something completed: count the time from here.
    Progress,
    /// Nothing completed, and there is patience left.
    Waiting,
    /// Leave what is still outstanding allocated.
    GiveUp,
}

/// How a teardown goes on after a dequeue, `idle` nanoseconds after something
/// last completed.
pub fn drain_step(dequeued: &Result<usize, Error>, idle: u128) -> (r: Drain)
    ensures
        r == match *dequeued {
            Ok(count) => if count > 0 {
                Drain::Progress
            } else if idle < PATIENCE {
                Drain::Waiting
            } else {
                Drain::GiveUp
            },
            Err(_) => Drain::GiveUp,
        },
{
    match dequeued {
        Ok(count) => if *count > 0 {
            Drain::Progress
        } else if idle < PATIENCE {
            Drain::Waiting
        } else {
            Drain::GiveUp
        },
        Err(_) => Drain::GiveUp,
    }
}

impl<H> Port<H> {
    /// Begin to tear the port down: no signal and no timer is bridged any
    /// more, and every outstanding operation, which stays outstanding, is to
    /// be cancelled.
    pub fn teardown(&mut self) -> (r: Teardown)
        requires
            old(self).wf(),
        ensures
            final(self).wf(),
            r.signals@ == old(self)@.signals,
            cancels_all(old(self)@.outstanding, r.cancellations@),
            final(self)@ == old(self)@.silenced(),
    {
        let mut signals: HashMap<usize, SignalRegistration> = HashMap::new();
        std::mem::swap(&mut signals, &mut self.signals);
        proof {
            self.retired@ = self.retired@.union(self.bridged@.dom());
        }
        self.bridged.clear();
        let cancellations: Vec<Cancellation> = self.cancellations();
        assert(self@ =~= old(self)@.silenced());
        Teardown { signals, cancellations }
    }

    fn cancellations(&self) -> (r: Vec<Cancellation>)
        ensures
            cancels_all(self@.outstanding, r@),
    {
        let mut list: Vec<Cancellation> = Vec::new();
        let keys = self.outstanding.keys();
        let ghost all = IteratorSpec::remaining(&keys).unref();
        for block in it: keys
            invariant
                it.seq().unref() == all,
                all.len() == it.seq().len(),
                list@.len() == it.index(),
                all.to_set() == self@.outstanding.dom(),
                all.no_duplicates(),
                forall|i: int| 0 <= i < list@.len() ==> #[trigger] list@[i].block == all[i],
                forall|i: int|
                    0 <= i < list@.len() ==> list@[i].handle
                        == self@.outstanding[#[trigger] list@[i].block].handle,
        {
            assert(all[it.index() as int] == *block);
            assert(all.contains(*block));
            assert(self@.outstanding.dom().contains(*block));
            if let Some(pending) = self.outstanding.get(block) {
                list.push(Cancellation { handle: pending.handle, block: *block });
            }
        }
        assert forall|i: int| 0 <= i < list@.len() implies self@.outstanding.contains_key(
            #[trigger] list@[i].block,
        ) by {
            assert(all.contains(all[i]));
            assert(self@.outstanding.dom().contains(all[i]));
        }
        assert forall|b: usize| #[trigger] self@.outstanding.contains_key(b) implies exists|i: int|
            0 <= i < list@.len() && #[trigger] list@[i].block == b by {
            assert(all.to_set().contains(b));
            let i = choose|i: int| 0 <= i < all.len() && all[i] == b;
            assert(list@[i].block == b);
        }
        list
    }

    /// Hand out what never completed, so that it can be leaked with its block:
    /// the kernel may still write to that.
    pub fn abandon(&mut self) -> (r: HashMap<usize, Pending<H>>)
        requires
            old(self).wf(),
        ensures
            final(self).wf(),
            r@ == old(self)@.outstanding,
            final(self)@ == (PortView { outstanding: Map::empty(), ..old(self)@ }),
    {
        let mut left: HashMap<usize, Pending<H>> = HashMap::new();
        std::mem::swap(&mut left, &mut self.outstanding);
        proof {
            lemma_registers_frame(old(self)@, self@);
        }
        left
    }
}

} // verus!
