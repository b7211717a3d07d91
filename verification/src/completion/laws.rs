//! What a completion port promises across calls.

use super::{
    budget_of, drained, issues, register_follows, report, reports, result_of, with_signal, without,
    Bridged, Call, Completion, Left, Operation, Packet, Pending, Port, PortView, Post, Registered,
    Registering, Request, SignalRegistration, RESERVED_KEY,
};
use crate::error::{fails, ErrorKind, ErrorView};
use crate::sys;
use crate::waitable::{next_probe, Answer, Probe};
use vstd::multiset::Multiset;
use vstd::prelude::*;

pub mod effects;

verus! {

/// A token that is about to be minted names nothing: no live token and no
/// registered signal. Since minting only counts up, no packet that was ever
/// queued can be taken for a packet of the new registration.
pub proof fn a_fresh_token_names_nothing<H>(port: PortView<H>)
    requires
        port.wf(),
    ensures
        !port.bridged.contains_key(port.next_token),
        !port.registers(port.next_token),
{
}

/// A packet under the reserved key whose token is not live reports nothing and
/// changes nothing. Zero and every number that was not minted yet are never
/// live.
pub proof fn a_stale_token_is_skipped<H>(port: PortView<H>, packet: Packet)
    requires
        port.wf(),
        packet.key == RESERVED_KEY,
        !port.bridged.contains_key(packet.pointer) || packet.pointer == 0 || packet.pointer
            >= port.next_token,
    ensures
        report(port, packet) is None,
        without(port, packet) == port,
{
}

/// Once a signal is registered, its token's packet reports its key.
pub proof fn a_registered_signal_reports_its_key<H>(
    port: PortView<H>,
    handle: usize,
    key: usize,
    registration: SignalRegistration,
    packet: Packet,
)
    requires
        packet.key == RESERVED_KEY,
        packet.pointer == registration.token,
    ensures
        report(with_signal(port, handle, key, registration), packet) == Some(
            Completion::<H>::Signal { key },
        ),
{
}

/// A packet that was queued before a rekey reports the new key, and the
/// registration keeps its token.
pub proof fn rekeying_keeps_queued_packets<H>(
    before: PortView<H>,
    after: PortView<H>,
    handle: usize,
    key: usize,
    packet: Packet,
)
    requires
        before.wf(),
        before.signals.contains_key(handle),
        after == before.rekeyed(handle, key),
        packet.key == RESERVED_KEY,
        packet.pointer == before.signals[handle].token,
    ensures
        report(before, packet) is Some,
        report(after, packet) == Some(Completion::<H>::Signal { key }),
        after.signals == before.signals,
{
}

/// Each packet of a registered signal is reported exactly once, under the key
/// of the registration, wherever it stands in its batch, and takes nothing from
/// the others.
pub proof fn a_signal_is_reported_once_each_time<H>(
    port: PortView<H>,
    handle: usize,
    before: Seq<Packet>,
    packet: Packet,
    after: Seq<Packet>,
)
    requires
        port.wf(),
        port.signals.contains_key(handle),
        packet.key == RESERVED_KEY,
        packet.pointer == port.signals[handle].token,
    ensures
        reports(port, before + seq![packet] + after) == reports(port, before) + seq![
            Completion::<H>::Signal { key: port.bridged[port.signals[handle].token].key },
        ] + reports(drained(port, before), after),
        drained(port, before + seq![packet] + after) == drained(port, before + after),
{
    let key = port.bridged[port.signals[handle].token].key;
    let now = drained(port, before);
    batches_may_be_cut_anywhere(port, before + seq![packet], after);
    batches_may_be_cut_anywhere(port, before, seq![packet]);
    batches_may_be_cut_anywhere(port, before, after);
    lemma_dequeuing_leaves_the_bridges(port, before);
    reveal_with_fuel(reports, 2);
    reveal_with_fuel(drained, 2);
    assert(seq![packet].drop_last() =~= seq![]);
    assert(report(now, packet) == Some(Completion::<H>::Signal { key }));
    assert(reports(now, seq![packet]) =~= seq![Completion::<H>::Signal { key }]);
    assert(drained(now, seq![packet]) == now);
}

proof fn lemma_dequeuing_leaves_the_bridges<H>(port: PortView<H>, packets: Seq<Packet>)
    ensures
        drained(port, packets) == (PortView {
            outstanding: drained(port, packets).outstanding,
            ..port
        }),
    decreases packets.len(),
{
    if packets.len() > 0 {
        lemma_dequeuing_leaves_the_bridges(port, packets.drop_last());
    }
}

/// A signal that is registered is not registered again, whatever key is asked
/// for: the second registration is refused, and the first one stands as it was.
/// As long as it does, each packet of it is reported once, under its own key;
/// and once it is unregistered, none is.
pub proof fn a_second_registration_changes_nothing<H>(
    port: PortView<H>,
    handle: usize,
    key: usize,
    debug: bool,
    probe: Probe,
    answer: Answer,
    after: PortView<H>,
    r: Registering,
    earlier: Seq<Packet>,
    packet: Packet,
    later: Seq<Packet>,
)
    requires
        port.wf(),
        port.signals.contains_key(handle),
        register_follows(
            port,
            handle,
            key,
            debug,
            Registering::Probe(probe),
            Registered::Probe(answer),
            after,
            r,
        ),
        packet.key == RESERVED_KEY,
        packet.pointer == port.signals[handle].token,
    ensures
        after == port,
        r !is RegisterWait,
        next_probe(probe, debug, answer) == Probe::Waitable ==> (r matches Registering::Done(result)
            && fails(result, ErrorView::Simple(ErrorKind::AlreadyExists))),
        reports(after, earlier + seq![packet] + later) == reports(port, earlier) + seq![
            Completion::<H>::Signal { key: port.bridged[port.signals[handle].token].key },
        ] + reports(drained(port, earlier), later),
        !after.without_signal(handle).signals.contains_key(handle),
        report(after.without_signal(handle), packet) is None,
{
    a_signal_is_reported_once_each_time(port, handle, earlier, packet, later);
}

/// Whether a port can come to be `after` from `before` in one step: by minting a
/// token, by a step of a registration, by changing a key, by the end of a
/// registration, by the making and the end of a timer, by a teardown, or by
/// anything that only concerns operations: submitting them, giving them up and
/// dequeuing.
pub open spec fn one_change<H>(before: PortView<H>, after: PortView<H>) -> bool {
    ||| after == before.minted() && before.next_token < usize::MAX
    ||| exists|
        handle: usize,
        key: usize,
        debug: bool,
        step: Registering,
        reply: Registered,
        r: Registering,
    |
        (step is Probe ==> before.next_token < usize::MAX) && (
        step matches Registering::RegisterWait { token } ==> before.reserved(handle, token))
            && #[trigger] register_follows(before, handle, key, debug, step, reply, after, r)
    ||| exists|handle: usize, key: usize|
        before.signals.contains_key(handle) && after == #[trigger] before.rekeyed(handle, key)
    ||| exists|handle: usize|
        before.signals.contains_key(handle) && after == #[trigger] before.without_signal(handle)
    ||| exists|token: usize, key: usize|
        before.unused(token) && after == #[trigger] before.with_timer(token, key)
    ||| exists|token: usize| after == #[trigger] before.without_timer(token)
    ||| after == before.silenced()
    ||| after == (PortView { outstanding: after.outstanding, ..before })
}

/// Whether `history` is what becomes of a port, one step after another.
pub open spec fn is_history<H>(history: Seq<PortView<H>>) -> bool {
    &&& forall|i: int| 0 <= i < history.len() ==> (#[trigger] history[i]).wf()
    &&& forall|i: int|
        0 <= i < history.len() - 1 ==> one_change(#[trigger] history[i], history[i + 1])
}

proof fn lemma_a_change_keeps_what_is_retired<H>(before: PortView<H>, after: PortView<H>)
    requires
        before.wf(),
        one_change(before, after),
    ensures
        before.retired.subset_of(after.retired),
        before.next_token <= after.next_token,
{
}

proof fn lemma_retired_for_good<H>(history: Seq<PortView<H>>, token: usize, i: int)
    requires
        is_history(history),
        0 <= i < history.len(),
        history[0].retired.contains(token),
    ensures
        history[i].retired.contains(token),
        history[0].next_token <= history[i].next_token,
    decreases i,
{
    if i > 0 {
        lemma_retired_for_good(history, token, i - 1);
        lemma_a_change_keeps_what_is_retired(history[i - 1], history[i]);
    }
}

/// Whether a change leaves the signal on `handle` alone: it neither changes its
/// key, nor ends its registration, nor takes the port down.
pub open spec fn leaves_alone<H>(before: PortView<H>, after: PortView<H>, handle: usize) -> bool {
    &&& forall|key: usize| after == #[trigger] before.rekeyed(handle, key) ==> after == before
    &&& after != before.without_signal(handle)
    &&& after != before.silenced()
}

proof fn lemma_a_signal_left_alone_stands<H>(before: PortView<H>, after: PortView<H>, handle: usize)
    requires
        before.wf(),
        one_change(before, after),
        before.signals.contains_key(handle),
        leaves_alone(before, after, handle),
    ensures
        after.signals.contains_key(handle),
        after.signals[handle] == before.signals[handle],
        after.bridged[before.signals[handle].token] == before.bridged[before.signals[handle].token],
{
    let token = before.signals[handle].token;
    assert(before.bridged.contains_key(token));
    if exists|other: usize, key: usize|
        before.signals.contains_key(other) && after == #[trigger] before.rekeyed(other, key) {
        let (other, key) = choose|other: usize, key: usize|
            before.signals.contains_key(other) && after == #[trigger] before.rekeyed(other, key);
        assert(other != handle || after == before);
    }
}

/// A registration stands until it is changed: whatever else becomes of the port,
/// and a second registration of the handle is no change, each later packet of it
/// is reported exactly once, under the key that it was given.
pub proof fn a_registration_stands_until_it_is_changed<H>(
    history: Seq<PortView<H>>,
    handle: usize,
    i: int,
    before: Seq<Packet>,
    packet: Packet,
    after: Seq<Packet>,
)
    requires
        is_history(history),
        0 <= i < history.len(),
        history[0].signals.contains_key(handle),
        forall|k: int|
            0 <= k < i ==> leaves_alone(#[trigger] history[k], history[k + 1], handle),
        packet.key == RESERVED_KEY,
        packet.pointer == history[0].signals[handle].token,
    ensures
        history[i].signals.contains_key(handle),
        history[i].signals[handle] == history[0].signals[handle],
        history[i].bridged[packet.pointer] == history[0].bridged[packet.pointer],
        reports(history[i], before + seq![packet] + after) == reports(history[i], before) + seq![
            Completion::<H>::Signal { key: history[0].bridged[packet.pointer].key },
        ] + reports(drained(history[i], before), after),
    decreases i,
{
    if i > 0 {
        a_registration_stands_until_it_is_changed(history, handle, i - 1, before, packet, after);
        assert(leaves_alone(history[i - 1], history[i], handle));
        lemma_a_signal_left_alone_stands(history[i - 1], history[i], handle);
    }
    a_signal_is_reported_once_each_time(history[i], handle, before, packet, after);
}

/// A token that was retired is never live again, in any later state of the port:
/// no packet that carries it is ever reported, and every token that is minted
/// from then on is another one.
pub proof fn a_retired_token_is_never_delivered<H>(
    history: Seq<PortView<H>>,
    token: usize,
    i: int,
    packet: Packet,
)
    requires
        is_history(history),
        0 <= i < history.len(),
        history[0].retired.contains(token),
        packet.key == RESERVED_KEY,
        packet.pointer == token,
    ensures
        report(history[i], packet) is None,
        without(history[i], packet) == history[i],
        token < history[i].next_token,
{
    lemma_retired_for_good(history, token, i);
}

/// Once a signal was unregistered, no packet of that registration is reported,
/// not even one that was queued already, whatever becomes of the port meanwhile,
/// even when the handle is registered again. The handle is free to be
/// registered, and the other registrations are as they were.
pub proof fn an_unregistered_signal_is_never_delivered<H>(
    port: PortView<H>,
    handle: usize,
    history: Seq<PortView<H>>,
    i: int,
    packet: Packet,
)
    requires
        port.wf(),
        port.signals.contains_key(handle),
        is_history(history),
        0 <= i < history.len(),
        history[0] == port.without_signal(handle),
        packet.key == RESERVED_KEY,
        packet.pointer == port.signals[handle].token,
    ensures
        report(history[i], packet) is None,
        !history[0].signals.contains_key(handle),
        forall|other: usize|
            other != handle && #[trigger] port.signals.contains_key(other)
                ==> history[0].signals.contains_key(other) && history[0].signals[other]
                == port.signals[other] && history[0].bridged[port.signals[other].token]
                == port.bridged[port.signals[other].token],
{
    a_retired_token_is_never_delivered(history, port.signals[handle].token, i, packet);
}

/// What is posted comes back with all three values intact, unless its pointer
/// is the address of an outstanding operation's block.
pub proof fn a_post_comes_back_intact<H>(port: PortView<H>, packet: Packet)
    requires
        packet.key != RESERVED_KEY,
        !port.outstanding.contains_key(packet.pointer),
    ensures
        report(port, packet) == Some(
            Completion::<H>::Posted {
                key: packet.key,
                bytes: packet.bytes,
                pointer: packet.pointer,
            },
        ),
        without(port, packet) == port,
{
    assert(port.outstanding.remove(packet.pointer) =~= port.outstanding);
}

/// The posts among what was reported, as key, byte count and pointer.
pub open spec fn posted<H>(completions: Seq<Completion<H>>) -> Multiset<(usize, u32, usize)>
    decreases completions.len(),
{
    if completions.len() == 0 {
        Multiset::empty()
    } else {
        let before = posted(completions.drop_last());
        match completions.last() {
            Completion::Posted { key, bytes, pointer } => before.insert((key, bytes, pointer)),
            _ => before,
        }
    }
}

/// Whether a packet is the port's own business: one of its tokens, or the end of
/// an operation.
pub open spec fn is_own<H>(port: PortView<H>, packet: Packet) -> bool {
    packet.key == RESERVED_KEY || port.outstanding.contains_key(packet.pointer)
}

/// The packets of a batch that someone posted.
pub open spec fn sent<H>(port: PortView<H>, packets: Seq<Packet>) -> Multiset<(usize, u32, usize)>
    decreases packets.len(),
{
    if packets.len() == 0 {
        Multiset::empty()
    } else {
        let before = sent(port, packets.drop_last());
        let packet = packets.last();
        if is_own(port, packet) {
            before
        } else {
            before.insert((packet.key, packet.bytes, packet.pointer))
        }
    }
}

/// Whether no operation is completed by two packets of a batch.
pub open spec fn completes_once<H>(port: PortView<H>, packets: Seq<Packet>) -> bool {
    forall|i: int, j: int|
        0 <= i < j < packets.len() && (#[trigger] packets[i]).key != RESERVED_KEY && (
        #[trigger] packets[j]).key != RESERVED_KEY && port.outstanding.contains_key(
            packets[j].pointer,
        ) ==> packets[i].pointer != packets[j].pointer
}

proof fn lemma_still_outstanding<H>(port: PortView<H>, packets: Seq<Packet>, block: usize)
    ensures
        drained(port, packets).outstanding.contains_key(block) <==> (
        port.outstanding.contains_key(block) && forall|i: int|
            0 <= i < packets.len() && (#[trigger] packets[i]).key != RESERVED_KEY
                ==> packets[i].pointer != block),
    decreases packets.len(),
{
    if packets.len() > 0 {
        let earlier = packets.drop_last();
        lemma_still_outstanding(port, earlier, block);
        assert(forall|i: int| 0 <= i < earlier.len() ==> earlier[i] == packets[i]);
        assert(packets[packets.len() - 1] == packets.last());
        if drained(port, packets).outstanding.contains_key(block) {
            assert forall|i: int|
                0 <= i < packets.len() && (#[trigger] packets[i]).key
                    != RESERVED_KEY implies packets[i].pointer != block by {
                if i < earlier.len() {
                    assert(earlier[i].key != RESERVED_KEY);
                }
            }
        }
        if !drained(port, earlier).outstanding.contains_key(block)
            && port.outstanding.contains_key(block) {
            let i = choose|i: int|
                0 <= i < earlier.len() && (#[trigger] earlier[i]).key != RESERVED_KEY
                    && earlier[i].pointer == block;
            assert(packets[i].key != RESERVED_KEY && packets[i].pointer == block);
        }
    }
}

proof fn lemma_a_batch_hands_out_its_posts<H>(port: PortView<H>, packets: Seq<Packet>)
    requires
        completes_once(port, packets),
    ensures
        posted(reports(port, packets)) == sent(port, packets),
    decreases packets.len(),
{
    if packets.len() > 0 {
        let earlier = packets.drop_last();
        let packet = packets.last();
        assert(forall|i: int| 0 <= i < earlier.len() ==> earlier[i] == packets[i]);
        lemma_a_batch_hands_out_its_posts(port, earlier);
        lemma_still_outstanding(port, earlier, packet.pointer);
        let some = reports(port, earlier);
        let out = reports(port, packets);
        if packet.key != RESERVED_KEY {
            assert(out.drop_last() =~= some);
            if port.outstanding.contains_key(packet.pointer) {
                assert forall|i: int|
                    0 <= i < earlier.len() && (#[trigger] earlier[i]).key
                        != RESERVED_KEY implies earlier[i].pointer != packet.pointer by {
                    assert(packets[i].pointer != packets[packets.len() - 1].pointer);
                }
            }
        } else if port.bridged.contains_key(packet.pointer) {
            lemma_dequeuing_leaves_the_bridges(port, earlier);
            assert(out.drop_last() =~= some);
        } else {
            lemma_dequeuing_leaves_the_bridges(port, earlier);
        }
    }
}

/// What several dequeues report of posts: `ports[i]` is the port when the batch
/// `batches[i]` is taken apart, whatever has become of it since the one before.
pub open spec fn all_posted<H>(
    ports: Seq<PortView<H>>,
    batches: Seq<Seq<Packet>>,
) -> Multiset<(usize, u32, usize)>
    decreases batches.len(),
{
    if batches.len() == 0 {
        Multiset::empty()
    } else {
        all_posted(ports.drop_last(), batches.drop_last()).add(
            posted(reports(ports.last(), batches.last())),
        )
    }
}

/// What several dequeues took out of the queue that was posted.
pub open spec fn all_sent<H>(
    ports: Seq<PortView<H>>,
    batches: Seq<Seq<Packet>>,
) -> Multiset<(usize, u32, usize)>
    decreases batches.len(),
{
    if batches.len() == 0 {
        Multiset::empty()
    } else {
        all_sent(ports.drop_last(), batches.drop_last()).add(sent(ports.last(), batches.last()))
    }
}

/// Over any number of dequeues, exactly the packets that someone posted are
/// reported as posts, given that no operation is completed twice in one batch.
pub proof fn nothing_but_posts_is_reported_as_posted<H>(
    ports: Seq<PortView<H>>,
    batches: Seq<Seq<Packet>>,
)
    requires
        ports.len() == batches.len(),
        forall|i: int|
            0 <= i < batches.len() ==> completes_once(ports[i], #[trigger] batches[i]),
    ensures
        all_posted(ports, batches) == all_sent(ports, batches),
{
    lemma_all_batches_hand_out_their_posts(ports, batches);
}

proof fn lemma_all_batches_hand_out_their_posts<H>(
    ports: Seq<PortView<H>>,
    batches: Seq<Seq<Packet>>,
)
    requires
        ports.len() == batches.len(),
        forall|i: int|
            0 <= i < batches.len() ==> completes_once(ports[i], #[trigger] batches[i]),
    ensures
        all_posted(ports, batches) == all_sent(ports, batches),
    decreases batches.len(),
{
    if batches.len() > 0 {
        let (p, b) = (ports.drop_last(), batches.drop_last());
        assert forall|i: int| 0 <= i < b.len() implies completes_once(p[i], #[trigger] b[i]) by {
            assert(completes_once(ports[i], batches[i]));
        }
        lemma_all_batches_hand_out_their_posts(p, b);
        assert(completes_once(ports[batches.len() - 1], batches[batches.len() - 1]));
        lemma_a_batch_hands_out_its_posts(ports.last(), batches.last());
    }
}

/// One thing that happens at the queue of a completion port.
#[verifier::reject_recursive_types(H)]
pub enum Turn<H> {
    /// `post` is posted, and `packet` is queued for it.
    Posted {
        /// What was posted.
        post: Post,
        /// The packet, at the end of the queue.
        packet: Packet,
    },
    /// The kernel queues `packet`: for a signal or a timer, or because a request
    /// has completed.
    Queued {
        /// The packet, at the end of the queue.
        packet: Packet,
    },
    /// A thread dequeues the first packets of the queue, and takes them apart
    /// with `port`, as that is then.
    Dequeued {
        /// The port, whatever has become of it meanwhile.
        port: PortView<H>,
        /// How many packets, at most.
        count: nat,
    },
}

/// How many packets a dequeue of at most `count` takes.
pub open spec fn took(queue: Seq<Packet>, count: nat) -> int {
    if count <= queue.len() {
        count as int
    } else {
        queue.len() as int
    }
}

/// The queue after these turns.
pub open spec fn queued<H>(turns: Seq<Turn<H>>) -> Seq<Packet>
    decreases turns.len(),
{
    if turns.len() == 0 {
        seq![]
    } else {
        let before = queued(turns.drop_last());
        match turns.last() {
            Turn::Posted { packet, .. } => before.push(packet),
            Turn::Queued { packet } => before.push(packet),
            Turn::Dequeued { count, .. } => before.skip(took(before, count)),
        }
    }
}

/// What was posted in these turns.
pub open spec fn sent_in<H>(turns: Seq<Turn<H>>) -> Multiset<(usize, u32, usize)>
    decreases turns.len(),
{
    if turns.len() == 0 {
        Multiset::empty()
    } else {
        let before = sent_in(turns.drop_last());
        match turns.last() {
            Turn::Posted { post, .. } => before.insert((post.key, post.bytes, post.pointer)),
            _ => before,
        }
    }
}

/// What was reported as posted in these turns, by all threads.
pub open spec fn posted_in<H>(turns: Seq<Turn<H>>) -> Multiset<(usize, u32, usize)>
    decreases turns.len(),
{
    if turns.len() == 0 {
        Multiset::empty()
    } else {
        let earlier = turns.drop_last();
        match turns.last() {
            Turn::Dequeued { port, count } => posted_in(earlier).add(
                posted(reports(port, queued(earlier).take(took(queued(earlier), count)))),
            ),
            _ => posted_in(earlier),
        }
    }
}

/// Whether a turn can happen while `pointer` is the address of no live block: a
/// post carries its values, what the kernel queues of its own does not carry
/// that pointer, unless it is a token, and no operation is outstanding there.
pub open spec fn turn_without<H>(turn: Turn<H>, pointer: usize) -> bool {
    match turn {
        Turn::Posted { post, packet } => packet.key == post.key && packet.bytes == post.bytes
            && packet.pointer == post.pointer,
        Turn::Queued { packet } => packet.key == RESERVED_KEY || packet.pointer != pointer,
        Turn::Dequeued { port, .. } => !port.outstanding.contains_key(pointer),
    }
}

/// How often the values `v` are among `packets`.
pub open spec fn carried(packets: Seq<Packet>, v: (usize, u32, usize)) -> nat
    decreases packets.len(),
{
    if packets.len() == 0 {
        0
    } else {
        let packet = packets.last();
        carried(packets.drop_last(), v) + if (packet.key, packet.bytes, packet.pointer) == v {
            1nat
        } else {
            0
        }
    }
}

proof fn lemma_carried_adds(a: Seq<Packet>, b: Seq<Packet>, v: (usize, u32, usize))
    ensures
        carried(a + b, v) == carried(a, v) + carried(b, v),
    decreases b.len(),
{
    if b.len() == 0 {
        assert(a + b =~= a);
    } else {
        assert((a + b).drop_last() =~= a + b.drop_last());
        lemma_carried_adds(a, b.drop_last(), v);
    }
}

proof fn lemma_a_batch_reports_what_it_carries<H>(
    port: PortView<H>,
    packets: Seq<Packet>,
    v: (usize, u32, usize),
)
    requires
        v.0 != RESERVED_KEY,
        !port.outstanding.contains_key(v.2),
    ensures
        posted(reports(port, packets)).count(v) == carried(packets, v),
    decreases packets.len(),
{
    if packets.len() > 0 {
        let earlier = packets.drop_last();
        let packet = packets.last();
        lemma_a_batch_reports_what_it_carries(port, earlier, v);
        lemma_still_outstanding(port, earlier, packet.pointer);
        let some = reports(port, earlier);
        let out = reports(port, packets);
        if report(drained(port, earlier), packet) is Some {
            assert(out.drop_last() =~= some);
        }
    }
}

proof fn lemma_nothing_is_lost_on_the_way<H>(turns: Seq<Turn<H>>, v: (usize, u32, usize))
    requires
        v.0 != RESERVED_KEY,
        forall|i: int| 0 <= i < turns.len() ==> turn_without(#[trigger] turns[i], v.2),
    ensures
        posted_in(turns).count(v) + carried(queued(turns), v) == sent_in(turns).count(v),
    decreases turns.len(),
{
    if turns.len() > 0 {
        let earlier = turns.drop_last();
        let turn = turns.last();
        assert(turn == turns[turns.len() - 1]);
        assert forall|i: int| 0 <= i < earlier.len() implies turn_without(
            #[trigger] earlier[i],
            v.2,
        ) by {
            assert(earlier[i] == turns[i]);
        }
        lemma_nothing_is_lost_on_the_way(earlier, v);
        let before = queued(earlier);
        match turn {
            Turn::Posted { packet, .. } => {
                assert(queued(turns).drop_last() =~= before);
            },
            Turn::Queued { packet } => {
                assert(queued(turns).drop_last() =~= before);
            },
            Turn::Dequeued { port, count } => {
                let n = took(before, count);
                assert(before =~= before.take(n) + before.skip(n));
                lemma_carried_adds(before.take(n), before.skip(n), v);
                lemma_a_batch_reports_what_it_carries(port, before.take(n), v);
            },
        }
    }
}

/// What is posted comes back, none lost and none twice, however many posts there
/// are, however many threads dequeue them, in whatever batches, and whatever
/// else the queue holds and becomes of the port meanwhile: once the queue is
/// empty, each set of values was reported as posted exactly as often as it was
/// posted. A post may not use the reserved key, nor carry the address of a live
/// block.
pub proof fn what_is_posted_comes_back<H>(
    turns: Seq<Turn<H>>,
    key: usize,
    bytes: u32,
    pointer: usize,
)
    requires
        key != RESERVED_KEY,
        forall|i: int| 0 <= i < turns.len() ==> turn_without(#[trigger] turns[i], pointer),
        queued(turns).len() == 0,
    ensures
        posted_in(turns).count((key, bytes, pointer)) == sent_in(turns).count(
            (key, bytes, pointer),
        ),
{
    lemma_nothing_is_lost_on_the_way(turns, (key, bytes, pointer));
}

/// The same of all values at once: when no operation is outstanding and the
/// kernel queues nothing but tokens, what was reported as posted is, as a
/// multiset, what was posted.
pub proof fn posts_alone_come_back_as_they_were_sent<H>(turns: Seq<Turn<H>>)
    requires
        forall|i: int|
            0 <= i < turns.len() ==> (match #[trigger] turns[i] {
                Turn::Posted { post, packet } => post.key != RESERVED_KEY && packet.key == post.key
                    && packet.bytes == post.bytes && packet.pointer == post.pointer,
                Turn::Queued { packet } => packet.key == RESERVED_KEY,
                Turn::Dequeued { port, .. } => port.outstanding == Map::<usize, Pending<H>>::empty(),
            }),
        queued(turns).len() == 0,
    ensures
        posted_in(turns) == sent_in(turns),
{
    assert forall|v: (usize, u32, usize)| posted_in(turns).count(v) == sent_in(turns).count(v) by {
        if v.0 != RESERVED_KEY {
            assert forall|i: int| 0 <= i < turns.len() implies turn_without(
                #[trigger] turns[i],
                v.2,
            ) by {}
            lemma_nothing_is_lost_on_the_way(turns, v);
        } else {
            lemma_no_post_uses_the_reserved_key(turns, v);
        }
    }
    assert(posted_in(turns) =~= sent_in(turns));
}

proof fn lemma_no_report_uses_the_reserved_key<H>(
    port: PortView<H>,
    packets: Seq<Packet>,
    v: (usize, u32, usize),
)
    requires
        v.0 == RESERVED_KEY,
    ensures
        posted(reports(port, packets)).count(v) == 0,
    decreases packets.len(),
{
    if packets.len() > 0 {
        let earlier = packets.drop_last();
        lemma_no_report_uses_the_reserved_key(port, earlier, v);
        if report(drained(port, earlier), packets.last()) is Some {
            assert(reports(port, packets).drop_last() =~= reports(port, earlier));
        }
    }
}

proof fn lemma_no_post_uses_the_reserved_key<H>(turns: Seq<Turn<H>>, v: (usize, u32, usize))
    requires
        v.0 == RESERVED_KEY,
        forall|i: int|
            0 <= i < turns.len() ==> (#[trigger] turns[i] matches Turn::Posted { post, .. }
                ==> post.key != RESERVED_KEY),
    ensures
        posted_in(turns).count(v) == 0,
        sent_in(turns).count(v) == 0,
    decreases turns.len(),
{
    if turns.len() > 0 {
        let earlier = turns.drop_last();
        assert(turns.last() == turns[turns.len() - 1]);
        assert forall|i: int| 0 <= i < earlier.len() implies (
        #[trigger] earlier[i] matches Turn::Posted { post, .. } ==> post.key != RESERVED_KEY) by {
            assert(earlier[i] == turns[i]);
        }
        lemma_no_post_uses_the_reserved_key(earlier, v);
        if let Turn::Dequeued { port, count } = turns.last() {
            let before = queued(earlier);
            lemma_no_report_uses_the_reserved_key(port, before.take(took(before, count)), v);
        }
    }
}

/// A batch reports at most one completion per packet.
pub proof fn a_batch_reports_no_more_than_it_holds<H>(port: PortView<H>, packets: Seq<Packet>)
    ensures
        reports(port, packets).len() <= packets.len(),
    decreases packets.len(),
{
    if packets.len() > 0 {
        a_batch_reports_no_more_than_it_holds(port, packets.drop_last());
    }
}

/// How queued packets are cut into batches does not matter: two batches leave
/// and report what they would as one.
pub proof fn batches_may_be_cut_anywhere<H>(
    port: PortView<H>,
    first: Seq<Packet>,
    second: Seq<Packet>,
)
    ensures
        drained(port, first + second) == drained(drained(port, first), second),
        reports(port, first + second) == reports(port, first) + reports(
            drained(port, first),
            second,
        ),
    decreases second.len(),
{
    if second.len() == 0 {
        assert(first + second =~= first);
        assert(reports(port, first) + Seq::<Completion<H>>::empty() =~= reports(port, first));
    } else {
        batches_may_be_cut_anywhere(port, first, second.drop_last());
        assert((first + second).drop_last() =~= first + second.drop_last());
        assert(reports(port, first + second) =~= reports(port, first) + reports(
            drained(port, first),
            second,
        ));
    }
}

/// Whether `completion` hands back the operation whose block is at `block`.
pub open spec fn hands_back<H>(completion: Completion<H>, block: usize) -> bool {
    completion matches Completion::Operation { operation, .. } && operation@.block == block
}

/// Every outstanding operation is either still outstanding after a batch and
/// was not reported, or was reported by exactly one completion of the batch
/// and is outstanding no more. The completion holds what the operation held,
/// and no other operation is ever reported.
pub proof fn every_operation_is_reported_once_or_stays<H>(
    port: PortView<H>,
    packets: Seq<Packet>,
    block: usize,
)
    requires
        port.wf(),
    ensures
        ({
            let after = drained(port, packets).outstanding;
            let out = reports(port, packets);
            &&& after.contains_key(block) ==> port.outstanding.contains_key(block) && after[block]
                == port.outstanding[block] && forall|i: int|
                0 <= i < out.len() ==> !hands_back(#[trigger] out[i], block)
            &&& port.outstanding.contains_key(block) && !after.contains_key(block) ==> exists|
                i: int,
            |
                0 <= i < out.len() && hands_back(#[trigger] out[i], block)
            &&& forall|i: int|
                0 <= i < out.len() && hands_back(#[trigger] out[i], block)
                    ==> port.outstanding.contains_key(block) && out[i]->operation@.handle
                    == port.outstanding[block].handle && out[i]->operation@.held
                    == port.outstanding[block].held
            &&& forall|i: int, j: int|
                0 <= i < out.len() && 0 <= j < out.len() && hands_back(#[trigger] out[i], block)
                    && hands_back(#[trigger] out[j], block) ==> i == j
        }),
    decreases packets.len(),
{
    broadcast use super::an_operation_has_its_parts;

    if packets.len() > 0 {
        let earlier = packets.drop_last();
        every_operation_is_reported_once_or_stays(port, earlier, block);
        every_operation_is_reported_once_or_stays(port, earlier, packets.last().pointer);
        let before = drained(port, earlier).outstanding;
        let after = drained(port, packets).outstanding;
        let some = reports(port, earlier);
        let out = reports(port, packets);
        assert(forall|i: int| 0 <= i < some.len() ==> out[i] == some[i]);
        if port.outstanding.contains_key(block) && !after.contains_key(block) {
            if before.contains_key(block) {
                assert(hands_back(out[out.len() - 1], block));
            } else {
                let i = choose|i: int| 0 <= i < some.len() && hands_back(#[trigger] some[i], block);
                assert(hands_back(out[i], block));
            }
        }
    }
}

/// A refused submission leaves no trace: the operation went in before the
/// request was issued, and is out again once the kernel has refused it.
pub proof fn a_refused_submission_leaves_no_trace<H>(
    before: PortView<H>,
    submitted: PortView<H>,
    handle: usize,
    operation: Operation<H>,
)
    requires
        !before.outstanding.contains_key(operation@.block),
        Port::takes_in(before, submitted, handle, operation),
    ensures
        (PortView { outstanding: submitted.outstanding.remove(operation@.block), ..submitted })
            == before,
{
    assert(submitted.outstanding.remove(operation@.block) =~= before.outstanding);
}

/// A finite wait is never turned into an endless one, and never lasts longer
/// than what is left of it.
pub proof fn a_finite_wait_stays_finite(nanoseconds: u128)
    ensures
        budget_of(Left::Nanoseconds(nanoseconds)) != sys::infinite_value(),
        budget_of(Left::Nanoseconds(nanoseconds)) * 1_000_000 <= nanoseconds,
{
}

/// Only a wait whose time is up, to the millisecond, is told not to wait, and
/// so may end with nothing.
pub proof fn only_an_expired_wait_ends_empty(left: Left)
    requires
        budget_of(left) == 0,
    ensures
        left == Left::Nothing || (left matches Left::Nanoseconds(n) && n < 1_000_000),
{
}

/// Once a teardown has begun, no packet of a signal or a timer reports
/// anything.
pub proof fn a_teardown_silences_the_bridges<H>(port: PortView<H>, packet: Packet)
    requires
        port.bridged == Map::<usize, Bridged>::empty(),
        packet.key == RESERVED_KEY,
    ensures
        report(port, packet) is None,
{
}

/// Once a timer was closed, no packet of it is reported, not even one that was
/// queued already, whatever becomes of the port meanwhile.
pub proof fn a_closed_timer_is_never_delivered<H>(
    port: PortView<H>,
    token: usize,
    history: Seq<PortView<H>>,
    i: int,
    packet: Packet,
)
    requires
        port.wf(),
        port.times(token),
        is_history(history),
        0 <= i < history.len(),
        history[0] == port.without_timer(token),
        packet.key == RESERVED_KEY,
        packet.pointer == token,
    ensures
        report(history[i], packet) is None,
{
    a_retired_token_is_never_delivered(history, token, i, packet);
}

/// While a timer is there, its packet reports its key.
pub proof fn a_timer_reports_its_key<H>(
    port: PortView<H>,
    token: usize,
    key: usize,
    packet: Packet,
)
    requires
        packet.key == RESERVED_KEY,
        packet.pointer == token,
    ensures
        report(port.with_timer(token, key), packet) == Some(Completion::<H>::Timer { key }),
{
}

/// A submitted operation comes back with the packet that completes it, whether
/// or not it was cancelled meanwhile: under the key of its packet, with its
/// token, its handle and what it held, and with the buffer as the kernel left
/// it. It is outstanding no more.
pub proof fn a_submitted_operation_comes_back<H>(
    before: PortView<H>,
    after: PortView<H>,
    handle: usize,
    operation: Operation<H>,
    packet: Packet,
)
    requires
        Port::takes_in(before, after, handle, operation),
        packet.key != RESERVED_KEY,
        packet.pointer == operation@.block,
    ensures
        report(after, packet) matches Some(
            Completion::Operation { key, result, operation: done },
        ) && key == packet.key && result == result_of(packet.status, packet.bytes, packet.code)
            && done@.block == operation@.block && done@.handle == handle && done@.held
            == operation@.held && done@.buffer == packet.buffer@,
        !without(after, packet).outstanding.contains_key(operation@.block),
{
    broadcast use super::an_operation_has_its_parts;

}

/// The operations that a batch hands back, in order.
pub open spec fn handed_back<H>(completions: Seq<Completion<H>>) -> Seq<Operation<H>>
    decreases completions.len(),
{
    if completions.len() == 0 {
        seq![]
    } else {
        let before = handed_back(completions.drop_last());
        match completions.last() {
            Completion::Operation { operation, .. } => before.push(operation),
            _ => before,
        }
    }
}

/// Whether no two operations that there are have the same token: those in the
/// caller's hands, which are `held`, and those that are outstanding. A new
/// operation is one of them when its block is at an address of its own.
pub open spec fn all_distinct<H>(held: Seq<Operation<H>>, port: PortView<H>) -> bool {
    &&& forall|i: int, j: int|
        0 <= i < j < held.len() ==> (#[trigger] held[i])@.block != (#[trigger] held[j])@.block
    &&& forall|i: int|
        0 <= i < held.len() ==> !port.outstanding.contains_key((#[trigger] held[i])@.block)
}

/// Submitting an operation leaves all tokens distinct, and the operation's own
/// is outstanding, on the handle that it was submitted on.
pub proof fn submitting_keeps_tokens_distinct<H>(
    held: Seq<Operation<H>>,
    before: PortView<H>,
    i: int,
    handle: usize,
    after: PortView<H>,
)
    requires
        all_distinct(held, before),
        0 <= i < held.len(),
        Port::takes_in(before, after, handle, held[i]),
    ensures
        all_distinct(held.remove(i), after),
        after.outstanding.contains_key(held[i]@.block),
        after.outstanding[held[i]@.block].handle == handle,
{
    let left = held.remove(i);
    assert forall|a: int| 0 <= a < left.len() implies !after.outstanding.contains_key(
        (#[trigger] left[a])@.block,
    ) by {
        let b = if a < i {
            a
        } else {
            a + 1
        };
        assert(left[a] == held[b]);
        assert(held[b]@.block != held[i]@.block);
    }
    assert forall|a: int, b: int| 0 <= a < b < left.len() implies (#[trigger] left[a])@.block != (
    #[trigger] left[b])@.block by {
        let x = if a < i {
            a
        } else {
            a + 1
        };
        let y = if b < i {
            b
        } else {
            b + 1
        };
        assert(left[a] == held[x] && left[b] == held[y]);
    }
}

/// Dequeuing a batch leaves all tokens distinct: those of the operations that it
/// hands back, of those that are still outstanding, and of the caller's others.
/// Each operation comes back with the token that it was outstanding under.
pub proof fn dequeuing_keeps_tokens_distinct<H>(
    held: Seq<Operation<H>>,
    port: PortView<H>,
    packets: Seq<Packet>,
)
    requires
        all_distinct(held, port),
    ensures
        all_distinct(held + handed_back(reports(port, packets)), drained(port, packets)),
        forall|i: int|
            0 <= i < handed_back(reports(port, packets)).len() ==> port.outstanding.contains_key(
                (#[trigger] handed_back(reports(port, packets))[i])@.block,
            ),
    decreases packets.len(),
{
    broadcast use super::an_operation_has_its_parts;

    if packets.len() == 0 {
        assert(held + handed_back(reports(port, packets)) =~= held);
    } else {
        let earlier = packets.drop_last();
        let packet = packets.last();
        dequeuing_keeps_tokens_distinct(held, port, earlier);
        lemma_still_outstanding(port, earlier, packet.pointer);
        let before = drained(port, earlier);
        let now = drained(port, packets);
        let some = handed_back(reports(port, earlier));
        let all = handed_back(reports(port, packets));
        if let Some(completion) = report(before, packet) {
            let out = reports(port, packets);
            assert(out.drop_last() =~= reports(port, earlier));
            if let Completion::Operation { operation, .. } = completion {
                assert(all == some.push(operation));
                assert(held + all =~= (held + some).push(operation));
                assert(operation@.block == packet.pointer);
                assert forall|i: int|
                    0 <= i < (held + all).len() implies !now.outstanding.contains_key(
                    (#[trigger] (held + all)[i])@.block,
                ) by {
                    if i < (held + some).len() {
                        assert((held + all)[i] == (held + some)[i]);
                    }
                }
                assert forall|i: int, j: int| 0 <= i < j < (held + all).len() implies (#[trigger] (
                held + all)[i])@.block != (#[trigger] (held + all)[j])@.block by {
                    assert((held + all)[i] == (held + some)[i]);
                    if j < (held + some).len() {
                        assert((held + all)[j] == (held + some)[j]);
                    }
                }
                assert forall|i: int| 0 <= i < all.len() implies port.outstanding.contains_key(
                    (#[trigger] all[i])@.block,
                ) by {
                    if i < some.len() {
                        assert(all[i] == some[i]);
                    }
                }
            } else {
                assert(all == some);
            }
        }
    }
}

/// An operation keeps its token all along: the request that is issued for it, and
/// so the token that its submission returns, and the operation that comes back,
/// have the token that it had before.
pub proof fn an_operation_keeps_its_token<H>(
    before: PortView<H>,
    after: PortView<H>,
    call: Call,
    handle: usize,
    offset: u64,
    operation: Operation<H>,
    request: Request,
    packet: Packet,
)
    requires
        Port::takes_in(before, after, handle, operation),
        issues(request, call, handle, offset, operation@),
        packet.key != RESERVED_KEY,
        packet.pointer == request.block,
    ensures
        request.block == operation@.block,
        report(after, packet) matches Some(Completion::Operation { operation: done, .. })
            && done@.block == operation@.block,
{
    a_submitted_operation_comes_back(before, after, handle, operation, packet);
}

/// What there is of operations: those in the caller's hands, and a port.
#[verifier::reject_recursive_types(H)]
pub struct World<H> {
    /// The operations in the caller's hands.
    pub held: Seq<Operation<H>>,
    /// The port.
    pub port: PortView<H>,
}

/// Whether the block of a new operation would have an address of its own, as
/// every allocation has while it lasts.
pub open spec fn is_free<H>(world: World<H>, block: usize) -> bool {
    &&& forall|i: int| 0 <= i < world.held.len() ==> (#[trigger] world.held[i])@.block != block
    &&& !world.port.outstanding.contains_key(block)
}

/// Whether operations can come to be `after` from `before` in one step: one is
/// made, one changes other than in its block, one is dropped, one is submitted,
/// a submission is refused, a batch is dequeued, or something becomes of the
/// port that has nothing to do with operations.
pub open spec fn one_step<H>(before: World<H>, after: World<H>) -> bool {
    ||| exists|operation: Operation<H>|
        is_free(before, operation@.block) && #[trigger] before.held.push(operation) == after.held
            && after.port == before.port
    ||| exists|i: int, operation: Operation<H>|
        0 <= i < before.held.len() && operation@.block == before.held[i]@.block && after.held
            == #[trigger] before.held.update(i, operation) && after.port == before.port
    ||| exists|i: int|
        0 <= i < before.held.len() && after.held == #[trigger] before.held.remove(i) && after.port
            == before.port
    ||| exists|i: int, handle: usize|
        0 <= i < before.held.len() && after.held == before.held.remove(i)
            && #[trigger] Port::takes_in(before.port, after.port, handle, before.held[i])
    ||| exists|token: usize|
        after.held == before.held && after.port == (PortView {
            outstanding: #[trigger] before.port.outstanding.remove(token),
            ..before.port
        })
    ||| exists|packets: Seq<Packet>|
        after.held == before.held + handed_back(#[trigger] reports(before.port, packets))
            && after.port == drained(before.port, packets)
    ||| after.held == before.held && after.port.outstanding == before.port.outstanding
}

proof fn lemma_a_step_keeps_tokens_distinct<H>(before: World<H>, after: World<H>)
    requires
        all_distinct(before.held, before.port),
        one_step(before, after),
    ensures
        all_distinct(after.held, after.port),
{
    if exists|i: int|
        0 <= i < before.held.len() && after.held == #[trigger] before.held.remove(i) && after.port
            == before.port {
        let i = choose|i: int|
            0 <= i < before.held.len() && after.held == #[trigger] before.held.remove(i)
                && after.port == before.port;
        lemma_fewer_are_distinct(before.held, before.port, i);
    } else if exists|i: int, handle: usize|
        0 <= i < before.held.len() && after.held == before.held.remove(i)
            && #[trigger] Port::takes_in(before.port, after.port, handle, before.held[i]) {
        let (i, handle) = choose|i: int, handle: usize|
            0 <= i < before.held.len() && after.held == before.held.remove(i)
                && #[trigger] Port::takes_in(before.port, after.port, handle, before.held[i]);
        submitting_keeps_tokens_distinct(before.held, before.port, i, handle, after.port);
    } else if exists|packets: Seq<Packet>|
        after.held == before.held + handed_back(#[trigger] reports(before.port, packets))
            && after.port == drained(before.port, packets) {
        let packets = choose|packets: Seq<Packet>|
            after.held == before.held + handed_back(#[trigger] reports(before.port, packets))
                && after.port == drained(before.port, packets);
        dequeuing_keeps_tokens_distinct(before.held, before.port, packets);
    } else if exists|i: int, operation: Operation<H>|
        0 <= i < before.held.len() && operation@.block == before.held[i]@.block && after.held
            == #[trigger] before.held.update(i, operation) && after.port == before.port {
        let (i, operation) = choose|i: int, operation: Operation<H>|
            0 <= i < before.held.len() && operation@.block == before.held[i]@.block && after.held
                == #[trigger] before.held.update(i, operation) && after.port == before.port;
        assert forall|a: int| 0 <= a < after.held.len() implies (#[trigger] after.held[a])@.block
            == before.held[a]@.block by {}
    }
}

proof fn lemma_fewer_are_distinct<H>(held: Seq<Operation<H>>, port: PortView<H>, i: int)
    requires
        all_distinct(held, port),
        0 <= i < held.len(),
    ensures
        all_distinct(held.remove(i), port),
{
    let left = held.remove(i);
    assert forall|a: int| 0 <= a < left.len() implies !port.outstanding.contains_key(
        (#[trigger] left[a])@.block,
    ) by {
        assert(left[a] == held[if a < i {
            a
        } else {
            a + 1
        }]);
    }
    assert forall|a: int, b: int| 0 <= a < b < left.len() implies (#[trigger] left[a])@.block != (
    #[trigger] left[b])@.block by {
        assert(left[a] == held[if a < i {
            a
        } else {
            a + 1
        }]);
        assert(left[b] == held[if b < i {
            b
        } else {
            b + 1
        }]);
    }
}

/// Two operations that there are at the same time, in the caller's hands or
/// outstanding, never have the same token: not in any state that a port and its
/// operations come to from the beginning, when there is none. All that this
/// rests on is that a new block has an address of its own.
pub proof fn live_operations_have_tokens_of_their_own<H>(history: Seq<World<H>>, i: int)
    requires
        0 <= i < history.len(),
        history[0].held.len() == 0,
        history[0].port.outstanding == Map::<usize, Pending<H>>::empty(),
        forall|k: int|
            0 <= k < history.len() - 1 ==> one_step(#[trigger] history[k], history[k + 1]),
    ensures
        all_distinct(history[i].held, history[i].port),
    decreases i,
{
    if i > 0 {
        live_operations_have_tokens_of_their_own(history, i - 1);
        assert(one_step(history[i - 1], history[i]));
        lemma_a_step_keeps_tokens_distinct(history[i - 1], history[i]);
    }
}

/// A submission counts one more operation as outstanding, and a refused one
/// counts none.
pub proof fn a_submission_is_counted_once<H>(
    before: PortView<H>,
    after: PortView<H>,
    handle: usize,
    operation: Operation<H>,
)
    requires
        before.wf(),
        !before.outstanding.contains_key(operation@.block),
        Port::takes_in(before, after, handle, operation),
    ensures
        after.outstanding.len() == before.outstanding.len() + 1,
        after.outstanding.remove(operation@.block).len() == before.outstanding.len(),
{
    assert(after.outstanding.dom() =~= before.outstanding.dom().insert(operation@.block));
    assert(after.outstanding.remove(operation@.block) =~= before.outstanding);
}

/// Each operation that a batch hands back counts one less as outstanding, and
/// nothing else changes the count.
pub proof fn a_completion_is_counted_once<H>(port: PortView<H>, packets: Seq<Packet>)
    requires
        port.wf(),
    ensures
        drained(port, packets).outstanding.len() + handed_back(reports(port, packets)).len()
            == port.outstanding.len(),
        drained(port, packets).outstanding.dom().finite(),
    decreases packets.len(),
{
    if packets.len() > 0 {
        let earlier = packets.drop_last();
        let packet = packets.last();
        a_completion_is_counted_once(port, earlier);
        let before = drained(port, earlier);
        let now = drained(port, packets);
        if report(before, packet) is Some {
            assert(reports(port, packets).drop_last() =~= reports(port, earlier));
        }
        if packet.key != RESERVED_KEY {
            assert(now.outstanding.dom() =~= before.outstanding.dom().remove(packet.pointer));
        }
    }
}

} // verus!
