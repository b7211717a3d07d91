use vmm_sys_util::flags::{EventFlag, EventSet};

#[test]
fn each_flag_has_a_bit_of_its_own() {
    let flags = [
        EventSet::IN(),
        EventSet::OUT(),
        EventSet::ERROR(),
        EventSet::READ_HANG_UP(),
        EventSet::EDGE_TRIGGERED(),
        EventSet::HANG_UP(),
        EventSet::PRIORITY(),
        EventSet::WAKE_UP(),
        EventSet::ONE_SHOT(),
        EventSet::EXCLUSIVE(),
    ];
    for (i, flag) in flags.iter().enumerate() {
        assert_eq!(flag.bits(), 1 << i);
    }
}

#[test]
fn unknown_bits_make_no_set() {
    assert_eq!(EventSet::from_bits(0x3ff).unwrap().bits(), 0x3ff);
    assert!(EventSet::from_bits(0x400).is_none());
    assert!(EventSet::from_bits(1 << 30).is_none());
    assert_eq!(EventSet::from_bits(0), Some(EventSet::empty()));
}

#[test]
fn sets_are_combined_bit_by_bit() {
    let both = EventSet::IN() | EventSet::OUT();
    assert_eq!(both.bits(), 3);
    assert_eq!(both, EventSet::IN().union(EventSet::OUT()));
    assert!(both.contains(EventSet::IN()));
    assert!(!EventSet::IN().contains(both));
    assert!(both.contains(EventSet::empty()));
    assert_eq!(both.difference(EventSet::IN()), EventSet::OUT());
    assert!(EventSet::IN().difference(both).is_empty());
    assert!(!both.is_empty());
}

#[test]
fn a_set_is_spelled_with_the_names_of_its_flags() {
    assert_eq!(EventSet::empty().text(), "EventSet(0x0)");
    assert_eq!(EventSet::OUT().text(), "EventSet(OUT)");
    assert_eq!((EventSet::OUT() | EventSet::ERROR()).text(), "EventSet(OUT | ERROR)");
    assert_eq!(
        EventSet::from_bits(0x3ff).unwrap().text(),
        "EventSet(IN | OUT | ERROR | READ_HANG_UP | EDGE_TRIGGERED | HANG_UP | PRIORITY | \
         WAKE_UP | ONE_SHOT | EXCLUSIVE)"
    );
}

#[test]
fn event_flags_are_bits() {
    assert_eq!(EventFlag::empty().bits(), 0);
    assert_eq!(EventFlag::NONBLOCK().bits(), 1);
    assert_eq!(EventFlag::CLOEXEC().bits(), 2);
    let both = EventFlag::NONBLOCK().union(EventFlag::CLOEXEC());
    assert!(both.contains(EventFlag::NONBLOCK()));
    assert!(!EventFlag::CLOEXEC().contains(EventFlag::NONBLOCK()));
}
