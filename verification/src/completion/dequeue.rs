//! Taking dequeued packets apart.

use super::{operation_of, BridgedKind, Operation, Pending, Port, PortView, RESERVED_KEY};
use crate::error::Error;
use crate::sys;
use vstd::prelude::*;

verus! {

broadcast use vstd::std_specs::hash::group_hash_axioms;

/// One dequeued packet, told apart as the module header describes.
#[derive(Debug)]
pub enum Completion<H> {
    /// A registered signal was set.
    Signal {
        /// The key given at registration, or by the latest [`Port::rekey`].
        key: usize,
    },
    /// A [`Timer`] expired.
    Timer {
        /// The key given to [`Timer::new`].
        key: usize,
    },
    /// A submitted operation finished, successfully or not.
    Operation {
        /// The key that the handle was associated with.
        key: usize,
        /// The byte count on success, or the error that it ended with.
        result: Result<usize, Error>,
        /// The operation, back in the caller's hands.
        operation: Operation<H>,
    },
    /// Someone posted a packet.
    Posted {
        /// The key that the poster gave.
        key: usize,
        /// The byte count that the poster gave.
        bytes: u32,
        /// The pointer value that the poster gave: a number.
        pointer: usize,
    },
}

/// One dequeued packet, as the kernel reports it, with what it left in the
/// block for a packet that completes an operation.
#[derive(Debug)]
pub struct Packet {
    /// The completion key.
    pub key: usize,
    /// The pointer, as a number.
    pub pointer: usize,
    /// The byte count.
    pub bytes: u32,
    /// The status word of the block, if the pointer is one.
    pub status: usize,
    /// `RtlNtStatusToDosError` of that status.
    pub code: u32,
    /// The buffer of the block, if the pointer is one.
    pub buffer: Vec<u8>,
}

/// What a dequeue of one batch came back with.
#[derive(Debug)]
pub enum Dequeued {
    /// These packets.
    Packets(Vec<Packet>),
    /// The call failed, with this last error.
    Failed(u32),
}

/// Whether a status word says that the request failed: its low 32 bits, as a
/// signed number, are negative.
pub open spec fn is_failure(status: usize) -> bool {
    status as int % 0x1_0000_0000 >= 0x8000_0000
}

/// What a finished request reports.
pub open spec fn result_of(status: usize, bytes: u32, code: u32) -> Result<usize, Error> {
    if is_failure(status) {
        Err(Error::Os(code as i32))
    } else {
        Ok(bytes as usize)
    }
}

/// What one packet reports to the caller, if anything.
pub open spec fn report<H>(port: PortView<H>, packet: Packet) -> Option<Completion<H>> {
    if packet.key == RESERVED_KEY {
        if port.bridged.contains_key(packet.pointer) {
            let bridged = port.bridged[packet.pointer];
            match bridged.kind {
                BridgedKind::Signal => Some(Completion::Signal { key: bridged.key }),
                BridgedKind::Timer => Some(Completion::Timer { key: bridged.key }),
            }
        } else {
            None
        }
    } else if port.outstanding.contains_key(packet.pointer) {
        Some(
            Completion::Operation {
                key: packet.key,
                result: result_of(packet.status, packet.bytes, packet.code),
                operation: operation_of(
                    packet.pointer,
                    port.outstanding[packet.pointer].handle,
                    packet.buffer,
                    port.outstanding[packet.pointer].held,
                ),
            },
        )
    } else {
        Some(
            Completion::Posted { key: packet.key, bytes: packet.bytes, pointer: packet.pointer },
        )
    }
}

/// The port once a packet has been dequeued.
pub open spec fn without<H>(port: PortView<H>, packet: Packet) -> PortView<H> {
    if packet.key == RESERVED_KEY {
        port
    } else {
        PortView { outstanding: port.outstanding.remove(packet.pointer), ..port }
    }
}

/// The port once a batch has been dequeued.
pub open spec fn drained<H>(port: PortView<H>, packets: Seq<Packet>) -> PortView<H>
    decreases packets.len(),
{
    if packets.len() == 0 {
        port
    } else {
        without(drained(port, packets.drop_last()), packets.last())
    }
}

/// What a batch reports, in the order of its packets.
pub open spec fn reports<H>(port: PortView<H>, packets: Seq<Packet>) -> Seq<Completion<H>>
    decreases packets.len(),
{
    if packets.len() == 0 {
        seq![]
    } else {
        let before = reports(port, packets.drop_last());
        match report(drained(port, packets.drop_last()), packets.last()) {
            Some(completion) => before.push(completion),
            None => before,
        }
    }
}

/// What dequeuing a batch returns.
pub open spec fn dequeue_outcome<H>(port: PortView<H>, batch: Dequeued) -> Result<usize, Error> {
    match batch {
        Dequeued::Packets(packets) => Ok(reports(port, packets@).len() as usize),
        Dequeued::Failed(error) => if error == sys::wait_timeout_value() {
            Ok(0)
        } else {
            Err(Error::Os(error as i32))
        },
    }
}

/// The packets that a batch holds.
pub open spec fn packets_of(batch: Dequeued) -> Seq<Packet> {
    match batch {
        Dequeued::Packets(packets) => packets@,
        Dequeued::Failed(_) => seq![],
    }
}

proof fn lemma_drained_keeps_wf<H>(port: PortView<H>, packets: Seq<Packet>)
    requires
        port.wf(),
    ensures
        drained(port, packets).wf(),
        drained(port, packets).handle == port.handle,
        drained(port, packets).signals == port.signals,
        drained(port, packets).bridged == port.bridged,
        drained(port, packets).next_token == port.next_token,
        reports(port, packets).len() <= packets.len(),
    decreases packets.len(),
{
    if packets.len() > 0 {
        lemma_drained_keeps_wf(port, packets.drop_last());
        let before = drained(port, packets.drop_last());
        let now = drained(port, packets);
        assert forall|t: usize| #[trigger]
            now.bridged.contains_key(t) && now.bridged[t].kind
                == BridgedKind::Signal implies now.registers(t) by {
            assert(before.registers(t));
            let h = choose|h: usize| #[trigger]
                before.signals.contains_key(h) && before.signals[h].token == t;
            assert(now.signals.contains_key(h));
        }
    }
}

/// The result of a finished request, from the status that the kernel left in
/// its block, the byte count in its packet, and the translated status.
pub fn status_to_result(status: usize, bytes: u32, code: u32) -> (r: Result<usize, Error>)
    ensures
        r == result_of(status, bytes, code),
{
    let low: u64 = status as u64 % 0x1_0000_0000;
    if low >= 0x8000_0000 {
        Err(Error::Os(code as i32))
    } else {
        Ok(bytes as usize)
    }
}

impl<H> Port<H> {
    /// Take one batch of packets apart, appending what it reports. Returns how
    /// many were appended: none on expiry, or when the batch held only packets
    /// of registrations that are gone.
    pub fn dequeue_batch(&mut self, batch: Dequeued, completions: &mut Vec<Completion<H>>) -> (r:
        Result<usize, Error>)
        requires
            old(self).wf(),
        ensures
            final(self).wf(),
            final(self)@ == drained(old(self)@, packets_of(batch)),
            final(completions)@ == old(completions)@ + reports(old(self)@, packets_of(batch)),
            r == dequeue_outcome(old(self)@, batch),
    {
        let packets: Vec<Packet> = match batch {
            Dequeued::Failed(error) => {
                assert(completions@ =~= old(completions)@ + Seq::<Completion<H>>::empty());
                if error == sys::wait_timeout() {
                    return Ok(0);
                }
                return Err(Error::Os(error as i32));
            },
            Dequeued::Packets(packets) => packets,
        };
        let mut count: usize = 0;
        let ghost all = packets@;
        assert(all.len() == packets.len());
        for entry in it: packets.into_iter()
            invariant
                it.seq() == all,
                old(self).wf(),
                self@ == drained(old(self)@, all.take(it.index() as int)),
                completions@ == old(completions)@ + reports(
                    old(self)@,
                    all.take(it.index() as int),
                ),
                count == reports(old(self)@, all.take(it.index() as int)).len(),
                count <= it.index(),
                all.len() <= usize::MAX,
        {
            let ghost so_far = all.take(it.index() as int);
            let ghost now = all.take(it.index() + 1);
            let ghost before = self@;
            let ghost packet = entry;
            proof {
                assert(now.drop_last() =~= so_far);
                assert(now.last() == packet);
                lemma_drained_keeps_wf(old(self)@, so_far);
            }
            if entry.key == RESERVED_KEY {
                if let Some(bridged) = self.bridged.get(&entry.pointer) {
                    completions.push(
                        match bridged.kind {
                            BridgedKind::Signal => Completion::Signal { key: bridged.key },
                            BridgedKind::Timer => Completion::Timer { key: bridged.key },
                        },
                    );
                    count = count + 1;
                }
            } else {
                let owned: Option<Pending<H>> = self.outstanding.remove(&entry.pointer);
                if let Some(pending) = owned {
                    let result: Result<usize, Error> = status_to_result(
                        entry.status,
                        entry.bytes,
                        entry.code,
                    );
                    let operation: Operation<H> = Operation {
                        block: entry.pointer,
                        handle: pending.handle,
                        buffer: entry.buffer,
                        held: pending.held,
                    };
                    completions.push(Completion::Operation { key: entry.key, result, operation });
                } else {
                    completions.push(
                        Completion::Posted {
                            key: entry.key,
                            bytes: entry.bytes,
                            pointer: entry.pointer,
                        },
                    );
                }
                count = count + 1;
            }
            assert(self@ =~= without(before, packet));
            assert(completions@ =~= old(completions)@ + reports(old(self)@, now));
        }
        proof {
            assert(all.take(all.len() as int) =~= all);
            lemma_drained_keeps_wf(old(self)@, all);
        }
        Ok(count)
    }
}

/// How long a wait may still last.
#[derive(Debug, Clone, Copy, PartialEq, Eq, Structural)]
pub enum Left {
    /// For ever.
    Forever,
    /// This many nanoseconds.
    Nanoseconds(u128),
    /// The deadline has passed.
    Nothing,
}

/// The timeout of the next dequeue, in milliseconds: whole milliseconds of
/// what is left, and endless only for a wait that may last for ever.
pub open spec fn budget_of(left: Left) -> u32 {
    match left {
        Left::Forever => sys::infinite_value(),
        Left::Nothing => 0,
        Left::Nanoseconds(n) => if n / 1_000_000 < u32::MAX {
            (n / 1_000_000) as u32
        } else {
            (u32::MAX - 1) as u32
        },
    }
}

/// The timeout of the next dequeue.
pub fn budget(left: Left) -> (r: u32)
    ensures
        r == budget_of(left),
{
    match left {
        Left::Forever => sys::infinite(),
        Left::Nothing => 0,
        Left::Nanoseconds(n) => {
            let ms: u128 = n / 1_000_000;
            if ms < u32::MAX as u128 {
                ms as u32
            } else {
                u32::MAX - 1
            }
        },
    }
}

impl<H> Port<H> {
    /// One round of a wait: take a batch apart that was dequeued under the
    /// timeout `budget`. `Ok(Some(n))` ends the wait with `n` completions
    /// appended; `Ok(None)` means that the batch reported nothing though time
    /// is left, so the wait goes round again.
    pub fn wait(&mut self, budget: u32, batch: Dequeued, completions: &mut Vec<Completion<H>>) -> (r:
        Result<Option<usize>, Error>)
        requires
            old(self).wf(),
        ensures
            final(self).wf(),
            final(self)@ == drained(old(self)@, packets_of(batch)),
            final(completions)@ == old(completions)@ + reports(old(self)@, packets_of(batch)),
            match dequeue_outcome(old(self)@, batch) {
                Ok(count) => r == Ok::<Option<usize>, Error>(
                    if count > 0 || budget == 0 {
                        Some(count)
                    } else {
                        None
                    },
                ),
                Err(e) => r == Err::<Option<usize>, Error>(e),
            },
    {
        match self.dequeue_batch(batch, completions) {
            Ok(count) => if count > 0 || budget == 0 {
                Ok(Some(count))
            } else {
                Ok(None)
            },
            Err(e) => Err(e),
        }
    }
}

} // verus!
