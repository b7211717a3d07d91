//! Sets of flags, as bits.

use vstd::prelude::*;

verus! {

/// The types of events that can be monitored.
#[derive(Debug, Clone, Copy, PartialEq, Eq, Structural)]
pub struct EventSet {
    bits: u32,
}

/// Every bit that an [`EventSet`] may have.
pub const EVENT_SET_BITS: u32 = 0x3ff;

/// Whether each bit of `part` is a bit of `whole`.
pub open spec fn within(part: u32, whole: u32) -> bool {
    part & whole == part
}

impl View for EventSet {
    type V = u32;

    closed spec fn view(&self) -> u32 {
        self.bits
    }
}

#[allow(non_snake_case)]
impl EventSet {
    /// Whether the set has only bits that have a name.
    pub open spec fn wf(self) -> bool {
        within(self@, EVENT_SET_BITS)
    }

    /// A registered handle is signalled, or a registered socket is readable.
    pub fn IN() -> (r: EventSet)
        ensures
            r@ == 0x1,
            r.wf(),
    {
        EventSet::known(0x1)
    }

    /// A registered socket is writable.
    pub fn OUT() -> (r: EventSet)
        ensures
            r@ == 0x2,
            r.wf(),
    {
        EventSet::known(0x2)
    }

    /// Reported as [`EventSet::IN`]; not to be asked for.
    pub fn ERROR() -> (r: EventSet)
        ensures
            r@ == 0x4,
            r.wf(),
    {
        EventSet::known(0x4)
    }

    /// Reported as [`EventSet::IN`]; not to be asked for.
    pub fn READ_HANG_UP() -> (r: EventSet)
        ensures
            r@ == 0x8,
            r.wf(),
    {
        EventSet::known(0x8)
    }

    /// Not to be asked for.
    pub fn EDGE_TRIGGERED() -> (r: EventSet)
        ensures
            r@ == 0x10,
            r.wf(),
    {
        EventSet::known(0x10)
    }

    /// Not to be asked for.
    pub fn HANG_UP() -> (r: EventSet)
        ensures
            r@ == 0x20,
            r.wf(),
    {
        EventSet::known(0x20)
    }

    /// Not to be asked for.
    pub fn PRIORITY() -> (r: EventSet)
        ensures
            r@ == 0x40,
            r.wf(),
    {
        EventSet::known(0x40)
    }

    /// Not to be asked for.
    pub fn WAKE_UP() -> (r: EventSet)
        ensures
            r@ == 0x80,
            r.wf(),
    {
        EventSet::known(0x80)
    }

    /// Not to be asked for.
    pub fn ONE_SHOT() -> (r: EventSet)
        ensures
            r@ == 0x100,
            r.wf(),
    {
        EventSet::known(0x100)
    }

    /// Not to be asked for.
    pub fn EXCLUSIVE() -> (r: EventSet)
        ensures
            r@ == 0x200,
            r.wf(),
    {
        EventSet::known(0x200)
    }

    fn known(bits: u32) -> (r: EventSet)
        requires
            bits <= EVENT_SET_BITS,
        ensures
            r@ == bits,
            r.wf(),
    {
        assert(bits & 0x3ff == bits) by (bit_vector)
            requires
                bits <= 0x3ff,
        ;
        EventSet { bits }
    }

    /// The set with no bits.
    pub fn empty() -> (r: EventSet)
        ensures
            r@ == 0,
            r.wf(),
    {
        EventSet::known(0)
    }

    /// The bits.
    pub fn bits(self) -> (r: u32)
        ensures
            r == self@,
    {
        self.bits
    }

    /// The set with these bits, if each of them has a name.
    pub fn from_bits(bits: u32) -> (r: Option<EventSet>)
        ensures
            within(bits, EVENT_SET_BITS) ==> (r matches Some(set) && set@ == bits && set.wf()),
            !within(bits, EVENT_SET_BITS) ==> r is None,
    {
        if bits & EVENT_SET_BITS == bits {
            Some(EventSet { bits })
        } else {
            None
        }
    }

    /// Whether the set has no bits.
    pub fn is_empty(self) -> (r: bool)
        ensures
            r == (self@ == 0),
    {
        self.bits == 0
    }

    /// Whether each bit of `other` is in the set.
    pub fn contains(self, other: EventSet) -> (r: bool)
        ensures
            r == within(other@, self@),
    {
        other.bits & self.bits == other.bits
    }

    /// The bits of either set.
    pub fn union(self, other: EventSet) -> (r: EventSet)
        ensures
            r@ == self@ | other@,
            self.wf() && other.wf() ==> r.wf(),
    {
        let (a, b): (u32, u32) = (self.bits, other.bits);
        assert(a & 0x3ff == a && b & 0x3ff == b ==> (a | b) & 0x3ff == a | b) by (bit_vector);
        EventSet { bits: a | b }
    }

    /// The bits of this set that are not in `other`.
    pub fn difference(self, other: EventSet) -> (r: EventSet)
        ensures
            r@ == self@ & !other@,
            self.wf() ==> r.wf(),
    {
        let (a, b): (u32, u32) = (self.bits, other.bits);
        assert(a & 0x3ff == a ==> (a & !b) & 0x3ff == a & !b) by (bit_vector);
        EventSet { bits: a & !b }
    }

    /// The set in words, as a debugging aid.
    pub fn text(self) -> (r: String)
        ensures
            r@ == event_set_text(self@),
    {
        let names: [&'static str; 10] = [
            "IN",
            "OUT",
            "ERROR",
            "READ_HANG_UP",
            "EDGE_TRIGGERED",
            "HANG_UP",
            "PRIORITY",
            "WAKE_UP",
            "ONE_SHOT",
            "EXCLUSIVE",
        ];
        if self.bits == 0 {
            return "EventSet(0x0)".to_owned();
        }
        let mut out: String = "EventSet(".to_owned();
        let mut first: bool = true;
        let mut i: usize = 0;
        let ghost mut listed: Seq<char> = seq![];
        while i < 10
            invariant
                i <= 10,
                listed == names_text(self@, i as nat),
                first == (listed.len() == 0),
                out@ == "EventSet("@ + listed,
                forall|j: int| 0 <= j < 10 ==> names@[j]@ == flag_name(j),
            decreases 10 - i,
        {
            let bit: u32 = 1u32 << i;
            if self.bits & bit != 0 {
                if !first {
                    out.append(" | ");
                }
                out.append(names[i]);
                first = false;
            }
            proof {
                listed = names_text(self@, (i + 1) as nat);
                lemma_flag_names_are_not_empty();
                assert(out@ =~= "EventSet("@ + listed);
            }
            i = i + 1;
        }
        out.append(")");
        assert(out@ =~= event_set_text(self@));
        out
    }
}

/// The name of the flag whose bit is number `i`.
pub open spec fn flag_name(i: int) -> Seq<char> {
    if i == 0 {
        "IN"@
    } else if i == 1 {
        "OUT"@
    } else if i == 2 {
        "ERROR"@
    } else if i == 3 {
        "READ_HANG_UP"@
    } else if i == 4 {
        "EDGE_TRIGGERED"@
    } else if i == 5 {
        "HANG_UP"@
    } else if i == 6 {
        "PRIORITY"@
    } else if i == 7 {
        "WAKE_UP"@
    } else if i == 8 {
        "ONE_SHOT"@
    } else {
        "EXCLUSIVE"@
    }
}

proof fn lemma_flag_names_are_not_empty()
    ensures
        forall|i: int| 0 <= i < 10 ==> #[trigger] flag_name(i).len() > 0,
{
    reveal_strlit("IN");
    reveal_strlit("OUT");
    reveal_strlit("ERROR");
    reveal_strlit("READ_HANG_UP");
    reveal_strlit("EDGE_TRIGGERED");
    reveal_strlit("HANG_UP");
    reveal_strlit("PRIORITY");
    reveal_strlit("WAKE_UP");
    reveal_strlit("ONE_SHOT");
    reveal_strlit("EXCLUSIVE");
}

/// The names of the flags among the lowest `count` bits, with a bar between
/// them.
pub open spec fn names_text(bits: u32, count: nat) -> Seq<char>
    decreases count,
{
    if count == 0 {
        seq![]
    } else {
        let before = names_text(bits, (count - 1) as nat);
        if bits & (1u32 << ((count - 1) as u32)) == 0 {
            before
        } else if before.len() == 0 {
            flag_name(count - 1)
        } else {
            before + " | "@ + flag_name(count - 1)
        }
    }
}

/// An event set in words.
pub open spec fn event_set_text(bits: u32) -> Seq<char> {
    if bits == 0 {
        "EventSet(0x0)"@
    } else {
        "EventSet("@ + names_text(bits, 10) + ")"@
    }
}

impl std::ops::BitOr<EventSet> for EventSet {
    type Output = EventSet;

    fn bitor(self, other: EventSet) -> EventSet {
        self.union(other)
    }
}

impl vstd::std_specs::ops::BitOrSpecImpl<EventSet> for EventSet {
    open spec fn obeys_bitor_spec() -> bool {
        true
    }

    open spec fn bitor_req(self, other: EventSet) -> bool {
        true
    }

    closed spec fn bitor_spec(self, other: EventSet) -> EventSet {
        EventSet { bits: self.bits | other.bits }
    }
}

/// The union that `|` makes has the bits of both sets.
pub proof fn a_union_has_the_bits_of_both(a: EventSet, b: EventSet)
    ensures
        vstd::std_specs::ops::BitOrSpec::bitor_spec(a, b)@ == a@ | b@,
{
}

/// Flags for an event notifier and consumer.
#[derive(Debug, Clone, Copy, PartialEq, Eq, Structural)]
pub struct EventFlag {
    bits: u8,
}

impl View for EventFlag {
    type V = u8;

    closed spec fn view(&self) -> u8 {
        self.bits
    }
}

#[allow(non_snake_case)]
impl EventFlag {
    /// Do not wait.
    pub fn NONBLOCK() -> (r: EventFlag)
        ensures
            r@ == 1,
    {
        EventFlag { bits: 1 }
    }

    /// Close on exec, which has no effect here.
    pub fn CLOEXEC() -> (r: EventFlag)
        ensures
            r@ == 2,
    {
        EventFlag { bits: 2 }
    }

    /// The set with no flags.
    pub fn empty() -> (r: EventFlag)
        ensures
            r@ == 0,
    {
        EventFlag { bits: 0 }
    }

    /// The bits.
    pub fn bits(self) -> (r: u8)
        ensures
            r == self@,
    {
        self.bits
    }

    /// Whether each flag of `other` is in the set.
    pub fn contains(self, other: EventFlag) -> (r: bool)
        ensures
            r == (other@ & self@ == other@),
    {
        other.bits & self.bits == other.bits
    }

    /// The flags of either set.
    pub fn union(self, other: EventFlag) -> (r: EventFlag)
        ensures
            r@ == self@ | other@,
    {
        EventFlag { bits: self.bits | other.bits }
    }
}

/// Whether bit number `i` of `bits` is set.
pub open spec fn has_bit(bits: u32, i: u32) -> bool {
    (bits >> i) & 1 == 1
}

/// A set contains another exactly when it has each of its bits. The union has
/// the bits of either, the difference those of the first that are not in the
/// second, and the empty set none.
pub proof fn sets_are_combined_bit_by_bit(
    a: EventSet,
    b: EventSet,
    contains: bool,
    union: EventSet,
    difference: EventSet,
    empty: EventSet,
    is_empty: bool,
    bits: u32,
)
    requires
        call_ensures(EventSet::contains, (a, b), contains),
        call_ensures(EventSet::union, (a, b), union),
        call_ensures(EventSet::difference, (a, b), difference),
        call_ensures(EventSet::empty, (), empty),
        call_ensures(EventSet::is_empty, (a,), is_empty),
        call_ensures(EventSet::bits, (a,), bits),
    ensures
        bits == a@,
        empty@ == 0,
        is_empty <==> a@ == 0,
        contains ==> forall|i: u32| i < 32 && #[trigger] has_bit(b@, i) ==> has_bit(a@, i),
        (forall|i: u32| i < 32 && #[trigger] has_bit(b@, i) ==> has_bit(a@, i)) ==> contains,
        forall|i: u32|
            i < 32 ==> (#[trigger] has_bit(union@, i) <==> has_bit(a@, i) || has_bit(b@, i)),
        forall|i: u32|
            i < 32 ==> (#[trigger] has_bit(difference@, i) <==> has_bit(a@, i) && !has_bit(b@, i)),
{
    let (x, y) = (a@, b@);
    assert forall|i: u32| i < 32 implies (#[trigger] has_bit(union@, i) <==> has_bit(a@, i)
        || has_bit(b@, i)) by {
        assert(((x | y) >> i) & 1 == 1 <==> (x >> i) & 1 == 1 || (y >> i) & 1 == 1) by (bit_vector)
            requires
                i < 32,
        ;
    }
    assert forall|i: u32| i < 32 implies (#[trigger] has_bit(difference@, i) <==> has_bit(a@, i)
        && !has_bit(b@, i)) by {
        assert(((x & !y) >> i) & 1 == 1 <==> (x >> i) & 1 == 1 && (y >> i) & 1 != 1)
            by (bit_vector)
            requires
                i < 32,
        ;
    }
    if contains {
        assert forall|i: u32| i < 32 && #[trigger] has_bit(b@, i) implies has_bit(a@, i) by {
            assert(y & x == y && (y >> i) & 1 == 1 ==> (x >> i) & 1 == 1) by (bit_vector)
                requires
                    i < 32,
            ;
        }
    } else {
        let missing = y & !x;
        assert(missing != 0) by (bit_vector)
            requires
                y & x != y,
                missing == y & !x,
        ;
        lemma_some_bit_is_set(missing, 32);
        let i = choose|i: u32| i < 32 && #[trigger] has_bit(missing, i);
        assert((y >> i) & 1 == 1 && (x >> i) & 1 != 1) by (bit_vector)
            requires
                i < 32,
                missing == y & !x,
                (missing >> i) & 1 == 1,
        ;
        assert(has_bit(b@, i) && !has_bit(a@, i));
    }
}

proof fn lemma_some_bit_is_set(bits: u32, below: u32)
    requires
        bits != 0,
        below <= 32,
        below < 32 ==> bits >> below == 0,
    ensures
        exists|i: u32| i < 32 && #[trigger] has_bit(bits, i),
    decreases below,
{
    if below == 0 {
        assert(bits >> 0u32 == bits) by (bit_vector);
    } else {
        let i: u32 = (below - 1) as u32;
        if has_bit(bits, i) {
        } else {
            assert(bits >> i == 0) by (bit_vector)
                requires
                    i < 32,
                    (bits >> i) & 1 != 1,
                    i < 31 ==> bits >> ((i + 1) as u32) == 0,
            ;
            lemma_some_bit_is_set(bits, i);
        }
    }
}

/// Exactly the lowest ten bits have a name, and a set is made of just the bits
/// that were given.
pub proof fn ten_bits_have_a_name(bits: u32, r: Option<EventSet>)
    requires
        call_ensures(EventSet::from_bits, (bits,), r),
    ensures
        r is Some <==> bits < 0x400,
        r matches Some(set) ==> set@ == bits,
{
    assert(bits & 0x3ff == bits <==> bits < 0x400) by (bit_vector);
}

/// A set in words is its flags in the order of their bits, each by its name and
/// with a bar before it unless it is the first. A set of one flag is that flag.
pub proof fn a_set_in_words_names_each_flag(set: EventSet, r: String, bits: u32, i: u32)
    requires
        call_ensures(EventSet::text, (set,), r),
        i < 10,
    ensures
        set@ == 0 ==> r@ == "EventSet(0x0)"@,
        set@ != 0 ==> r@ == "EventSet("@ + names_text(set@, 10) + ")"@,
        names_text(bits, 0) == Seq::<char>::empty(),
        !has_bit(bits, i) ==> names_text(bits, (i + 1) as nat) == names_text(bits, i as nat),
        has_bit(bits, i) && names_text(bits, i as nat).len() == 0 ==> names_text(
            bits,
            (i + 1) as nat,
        ) == seq![
            "IN"@,
            "OUT"@,
            "ERROR"@,
            "READ_HANG_UP"@,
            "EDGE_TRIGGERED"@,
            "HANG_UP"@,
            "PRIORITY"@,
            "WAKE_UP"@,
            "ONE_SHOT"@,
            "EXCLUSIVE"@,
        ][i as int],
        has_bit(bits, i) && names_text(bits, i as nat).len() > 0 ==> names_text(
            bits,
            (i + 1) as nat,
        ) == names_text(bits, i as nat) + " | "@ + seq![
            "IN"@,
            "OUT"@,
            "ERROR"@,
            "READ_HANG_UP"@,
            "EDGE_TRIGGERED"@,
            "HANG_UP"@,
            "PRIORITY"@,
            "WAKE_UP"@,
            "ONE_SHOT"@,
            "EXCLUSIVE"@,
        ][i as int],
{
    assert(bits & (1u32 << i) == 0 <==> (bits >> i) & 1 != 1) by (bit_vector)
        requires
            i < 32,
    ;
}

/// The flags of a doorbell: each is a bit of its own, and a set contains another
/// exactly when it adds nothing.
pub proof fn doorbell_flags_are_bits(
    a: EventFlag,
    b: EventFlag,
    contains: bool,
    union: EventFlag,
    bits: u8,
)
    requires
        call_ensures(EventFlag::contains, (a, b), contains),
        call_ensures(EventFlag::union, (a, b), union),
        call_ensures(EventFlag::bits, (a,), bits),
    ensures
        bits == a@,
        contains <==> union@ == a@,
        forall|i: u8|
            i < 8 ==> (((#[trigger] (union@ >> i)) & 1 == 1) <==> ((a@ >> i) & 1 == 1) || ((b@ >> i)
                & 1 == 1)),
{
    let (x, y) = (a@, b@);
    assert(y & x == y <==> x | y == x) by (bit_vector);
    assert forall|i: u8| i < 8 implies (((#[trigger] (union@ >> i)) & 1 == 1) <==> ((a@ >> i) & 1
        == 1) || ((b@ >> i) & 1 == 1)) by {
        assert(((x | y) >> i) & 1 == 1 <==> (x >> i) & 1 == 1 || (y >> i) & 1 == 1) by (bit_vector)
            requires
                i < 8,
        ;
    }
}

} // verus!
