use std::collections::HashSet;
use vmm_sys_util::error::ErrorKind;
use vmm_sys_util::event::{
    efd_flags, new_event_consumer_and_notifier, EventConsumer, EventFlag, EventNotifier,
    EFD_CLOEXEC, EFD_SEMAPHORE,
};
use vmm_sys_util::eventfd::{wait_for_signal, EventFd, EFD_NONBLOCK};

/// An auto-reset event object: a satisfied wait consumes the signal.
struct Object {
    signalled: bool,
}

impl Object {
    fn set(&mut self) -> bool {
        self.signalled = true;
        true
    }

    fn wait(&mut self, timeout: u32) -> u32 {
        if self.signalled {
            self.signalled = false;
            return 0;
        }
        assert_eq!(timeout, 0, "this would wait for ever");
        258
    }
}

fn pair() -> (EventConsumer, EventNotifier) {
    new_event_consumer_and_notifier(EventFlag::empty(), 0x10, 0, true, 0x14, 0)
        .expect("Failed to create notifier and consumer")
}

#[test]
fn test_notify_and_consume() {
    let (consumer, notifier) = pair();
    let mut object = Object { signalled: false };
    notifier.notify(object.set(), 0).unwrap();
    assert!(consumer.consume().is_ok());
    assert!(object.signalled, "consuming leaves the handle alone");
}

#[test]
fn event_test_clone() {
    let (consumer, notifier) = pair();
    let cloned_notifier = notifier.try_clone(true, 0x18, 0).expect("Failed to clone notifier");
    let cloned_consumer = consumer.try_clone(true, 0x1C, 0).expect("Failed to clone consumer");
    assert_eq!(cloned_notifier.as_raw_handle(), 0x18);
    assert_eq!(cloned_consumer.as_raw_handle(), 0x1C);

    cloned_notifier.notify(true, 0).unwrap();
    assert!(cloned_consumer.consume().is_ok());
    assert_eq!(notifier.try_clone(false, 0, 6).unwrap_err().raw_os_error(), Some(6));
    assert_eq!(consumer.try_clone(false, 0, 6).unwrap_err().raw_os_error(), Some(6));
}

#[test]
fn test_consume_does_not_block_when_unsignaled() {
    let (consumer, _notifier) = pair();
    assert!(consumer.consume().is_ok());
}

#[test]
fn test_from_raw_handle() {
    let (consumer, notifier) = pair();
    let handle = notifier.into_raw_handle();
    assert_eq!(handle, 0x14);
    let notifier = EventNotifier::from_raw_handle(handle);
    notifier.notify(true, 0).unwrap();
    assert!(consumer.consume().is_ok());
    assert_eq!(EventConsumer::from_raw_handle(consumer.into_raw_handle()).as_raw_handle(), 0x10);
}

#[test]
fn a_pair_that_cannot_be_made_reports_the_error() {
    let flags = EventFlag::NONBLOCK().union(EventFlag::CLOEXEC());
    assert_eq!(efd_flags(flags), EFD_NONBLOCK);
    assert_eq!(efd_flags(EventFlag::CLOEXEC()), 0);
    let err = new_event_consumer_and_notifier(flags, 0, 8, false, 0, 9).err().unwrap();
    assert_eq!(err.raw_os_error(), Some(8));
    let err = new_event_consumer_and_notifier(flags, 0x10, 8, false, 0, 9).err().unwrap();
    assert_eq!(err.raw_os_error(), Some(9));
    assert_eq!(pair().1.notify(false, 6).unwrap_err().raw_os_error(), Some(6));
}

#[test]
fn test_new() {
    EventFd::new(EFD_NONBLOCK, 0x10, 0).unwrap();
    EventFd::new(0, 0x10, 0).unwrap();
    assert_eq!(EventFd::new(0, 0, 8).unwrap_err().raw_os_error(), Some(8));
}

#[test]
fn test_write_read_signal() {
    let mut object = Object { signalled: false };
    let evt = EventFd::new(EFD_NONBLOCK, 0x10, 0).unwrap();
    evt.write(55, object.set(), 0).unwrap();
    assert_eq!(evt.read(object.wait(evt.read_timeout()), 0).unwrap(), 1);
}

#[test]
fn test_read_nothing() {
    let mut object = Object { signalled: false };
    let evt = EventFd::new(EFD_NONBLOCK, 0x10, 0).unwrap();
    let err = evt.read(object.wait(evt.read_timeout()), 0).unwrap_err();
    assert_eq!(err.kind(), Some(ErrorKind::WouldBlock));
}

#[test]
fn a_single_write_wakes_exactly_one_reader() {
    let mut object = Object { signalled: false };
    let evt = EventFd::new(EFD_NONBLOCK, 0x10, 0).unwrap();
    evt.write(1, object.set(), 0).unwrap();
    let successes: usize = (0..4)
        .map(|_| evt.read(object.wait(evt.read_timeout()), 0).is_ok() as usize)
        .sum();
    assert_eq!(successes, 1);
    let err = evt.read(object.wait(evt.read_timeout()), 0).unwrap_err();
    assert_eq!(err.kind(), Some(ErrorKind::WouldBlock));
}

#[test]
fn eventfd_test_clone() {
    let mut object = Object { signalled: false };
    let evt = EventFd::new(EFD_NONBLOCK, 0x10, 0).unwrap();
    let evt_clone = evt.try_clone(true, 0x14, 0).unwrap();
    assert_eq!(evt_clone.as_raw_handle(), 0x14);
    evt.write(923, object.set(), 0).unwrap();
    assert_eq!(evt_clone.read(object.wait(evt_clone.read_timeout()), 0).unwrap(), 1);
    assert_eq!(evt.try_clone(false, 0, 6).unwrap_err().raw_os_error(), Some(6));
}

#[test]
fn a_duplicated_eventfd_is_the_same_event() {
    let mut object = Object { signalled: false };
    let evt = EventFd::new(0, 0x10, 0).unwrap();
    let peer = EventFd::from_raw_handle(0x14);

    evt.write(1, object.set(), 0).unwrap();
    assert_eq!(peer.read_timeout(), u32::MAX, "an adopted event waits");
    assert_eq!(peer.read(object.wait(peer.read_timeout()), 0).unwrap(), 1);
}

#[test]
fn an_adopted_eventfd_can_be_polled() {
    let mut object = Object { signalled: false };
    let evt = EventFd::new(0, 0x10, 0).unwrap();
    let peer = EventFd::new(EFD_NONBLOCK, 0x14, 0).unwrap();

    let err = peer.read(object.wait(peer.read_timeout()), 0).unwrap_err();
    assert_eq!(err.kind(), Some(ErrorKind::WouldBlock));
    evt.write(1, object.set(), 0).unwrap();
    assert_eq!(peer.read(object.wait(peer.read_timeout()), 0).unwrap(), 1);
}

/// The handles that a process has open.
struct Handles {
    open: HashSet<usize>,
    next: usize,
}

impl Handles {
    fn new() -> Handles {
        Handles { open: HashSet::new(), next: 0x10 }
    }

    /// Open one: an object is made, or a handle is duplicated.
    fn open(&mut self) -> usize {
        self.next += 4;
        assert!(self.open.insert(self.next));
        self.next
    }

    fn close(&mut self, handle: usize) {
        assert!(self.open.remove(&handle), "{handle:#x} is not open");
    }
}

#[test]
fn a_thousand_eventfd_cycles_leak_no_handles() {
    const N: usize = 1000;
    let mut handles = Handles::new();
    let before = handles.open.len();
    for _ in 0..N {
        let e = EventFd::new(0, handles.open(), 0).unwrap();
        let c = e.try_clone(true, handles.open(), 0).unwrap();
        let d = EventFd::from_raw_handle(handles.open());
        assert_eq!(handles.open.len(), before + 3);
        for fd in [e, c, d] {
            handles.close(fd.into_raw_handle());
        }
    }
    let after = handles.open.len();
    assert!(
        after.saturating_sub(before) < N / 2,
        "handle count grew from {before} to {after} over {N} cycles"
    );
    assert_eq!(after, before);
}

#[test]
fn eventfd_a_thousand_into_raw_handle_cycles_leak_no_handles() {
    const N: usize = 1000;
    let mut handles = Handles::new();
    let before = handles.open.len();
    for _ in 0..N {
        let h = EventFd::new(0, handles.open(), 0).unwrap().into_raw_handle();
        handles.close(h);
    }
    let after = handles.open.len();
    assert!(
        after.saturating_sub(before) < N / 2,
        "handle count grew from {before} to {after} over {N} cycles"
    );
    assert_eq!(after, before);
}

#[test]
fn a_wait_for_a_signal_tells_its_four_outcomes_apart() {
    assert_eq!(wait_for_signal(0, 0).unwrap(), true);
    assert_eq!(wait_for_signal(258, 0).unwrap(), false);
    assert_eq!(wait_for_signal(u32::MAX, 6).unwrap_err().raw_os_error(), Some(6));
    let err = wait_for_signal(0x80, 6).unwrap_err();
    assert_eq!(err.kind(), Some(ErrorKind::Other));
    assert_eq!(err.message(), Some("unexpected WaitForSingleObject return value: 0x80"));
    let fd = EventFd::from_raw_handle(0x10);
    assert_eq!(fd.read(0x80, 6).unwrap_err().kind(), Some(ErrorKind::Other));
    assert_eq!(fd.read(u32::MAX, 6).unwrap_err().raw_os_error(), Some(6));
    assert_eq!(fd.write(1, false, 6).unwrap_err().raw_os_error(), Some(6));
    assert_eq!((EFD_CLOEXEC, EFD_SEMAPHORE), (2, 4));
}
