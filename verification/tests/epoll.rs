use std::collections::{HashMap, HashSet, VecDeque};
use vmm_sys_util::completion::{resignal, Left};
use vmm_sys_util::epoll::wait::{poll_block, sweep_sockets, Blocked, HandleWait};
use vmm_sys_util::epoll::{
    drain_again, event_set_of, is_socket, poll_events, validate_event_set,
    validate_socket_event_set, wait_post, wake_target, Batch, ControlOperation, Ctl, CtlReply,
    Epoll, EpollEvent, EventSet, PollEntry, Teardown, WaitReply, WaitStep,
};
use vmm_sys_util::error::{Error, ErrorKind};
use vmm_sys_util::event::EventConsumer;
use vmm_sys_util::waitable::{Answer, Host, Misuse, Probe, STATUS_ACCESS_DENIED};

const WAKE: usize = 0xFEED;

/// What a handle names.
#[derive(Clone, Copy)]
enum Object {
    AutoReset,
    ManualReset,
    NarrowEvent,
    NarrowSemaphore,
    CompletionPort,
    Socket,
}

fn kind_of(object: Object) -> &'static str {
    match object {
        Object::AutoReset | Object::ManualReset | Object::NarrowEvent => "Event",
        Object::NarrowSemaphore => "Semaphore",
        Object::CompletionPort => "IoCompletion",
        Object::Socket => "File",
    }
}

fn description(name: &str) -> [u8; 512] {
    let mut buffer = [0u8; 512];
    let len = (name.len() * 2) as u16;
    buffer[..2].copy_from_slice(&len.to_le_bytes());
    let width = std::mem::size_of::<usize>();
    buffer[width..2 * width].copy_from_slice(&0x1000usize.to_le_bytes());
    buffer
}

/// A kernel that answers an interest list's questions.
struct Kernel {
    objects: HashMap<usize, Object>,
    waits: HashMap<usize, usize>,
    queue: VecDeque<usize>,
    revents: HashMap<usize, i16>,
    /// How many wake-ups are in the wake socket, a datagram each.
    wake_ups: usize,
    wakes_made: usize,
    now_ms: u64,
    polls: usize,
    /// What becomes signalled when the clock reaches a time.
    later: Option<(u64, usize)>,
}

impl Kernel {
    fn new() -> Kernel {
        Kernel {
            objects: HashMap::new(),
            waits: HashMap::new(),
            queue: VecDeque::new(),
            revents: HashMap::new(),
            wake_ups: 0,
            wakes_made: 0,
            now_ms: 0,
            polls: 0,
            later: None,
        }
    }

    fn event(&mut self, handle: usize) -> usize {
        self.objects.insert(handle, Object::AutoReset);
        handle
    }

    fn socket(&mut self, handle: usize) -> usize {
        self.objects.insert(handle, Object::Socket);
        self.revents.insert(handle, 0);
        handle
    }

    fn answer(&self, handle: usize, probe: Probe) -> Answer {
        let object = self.objects.get(&handle).copied();
        match probe {
            Probe::Information => Answer::Information(object.is_some()),
            Probe::ObjectType => Answer::ObjectType {
                status: 0,
                buffer: description(kind_of(object.unwrap())),
            },
            Probe::ObjectName { .. } => {
                Answer::ObjectName(kind_of(object.unwrap()).encode_utf16().collect())
            }
            Probe::EventMode => match object.unwrap() {
                Object::AutoReset => Answer::EventMode { status: 0, event_type: 1 },
                Object::ManualReset => Answer::EventMode { status: 0, event_type: 0 },
                Object::NarrowEvent => {
                    Answer::EventMode { status: STATUS_ACCESS_DENIED, event_type: 1 }
                }
                _ => Answer::EventMode { status: 0xC000_0024u32 as i32, event_type: 1 },
            },
            other => panic!("no question: {other:?}"),
        }
    }

    fn ctl(
        &mut self,
        list: &mut Epoll,
        operation: ControlOperation,
        handle: usize,
        event: EpollEvent,
    ) -> Result<(), Error> {
        let mut step = Ctl::start();
        loop {
            let reply = match &step {
                Ctl::SocketType => match self.objects.get(&handle) {
                    Some(Object::Socket) => CtlReply::SocketType(0),
                    _ => CtlReply::SocketType(-1),
                },
                Ctl::MakeWake => {
                    self.wakes_made += 1;
                    CtlReply::Wake(Ok(WAKE))
                }
                Ctl::Probe(probe) => CtlReply::Probe(self.answer(handle, *probe)),
                Ctl::RegisterWait { token } => {
                    self.waits.insert(handle, *token);
                    CtlReply::Wait { succeeded: true, wait_handle: handle + 1, last_error: 0 }
                }
                Ctl::UnregisterWait { wait_handle } => {
                    assert_eq!(*wait_handle, handle + 1);
                    self.waits.remove(&handle).unwrap();
                    CtlReply::Unregistered { succeeded: true, last_error: 0 }
                }
                Ctl::Misused(misuse) => panic!("{}", misuse.message(Host::Epoll)),
                Ctl::Done(_) => break,
            };
            step = list.ctl(operation, handle, event, true, step, reply);
        }
        match step {
            Ctl::Done(result) => result,
            other => panic!("not over: {other:?}"),
        }
    }

    /// Signal an event: its registered wait posts its token, and ends a poll.
    fn signal(&mut self, list: &Epoll, handle: usize) {
        if let Some(token) = self.waits.get(&handle) {
            self.queue.push_back(wait_post(list.as_raw_handle(), *token).key);
            let writer = match list.wake() {
                Some(socket) => socket as isize,
                None => -1,
            };
            if let Some(socket) = wake_target(writer) {
                assert_eq!(socket, WAKE);
                self.wake_ups += 1;
            }
        }
    }

    /// One `recv` from the wake socket: a datagram of one byte, or nothing.
    fn read_wake(&mut self) -> i32 {
        if self.wake_ups == 0 {
            return -1;
        }
        self.wake_ups -= 1;
        1
    }

    fn poll(&mut self, list: &mut [PollEntry]) -> i32 {
        self.polls += 1;
        let mut ready = 0;
        for entry in list.iter_mut() {
            entry.revents = if entry.fd == WAKE {
                assert_eq!(entry.events, 0x100);
                if self.wake_ups > 0 {
                    0x100
                } else {
                    0
                }
            } else {
                // Conditions come whether or not they were asked for.
                self.revents[&entry.fd] & (entry.events | 0x7)
            };
            if entry.revents != 0 {
                ready += 1;
            }
        }
        ready
    }

    fn wait(
        &mut self,
        list: &Epoll,
        timeout: i32,
        ready: &mut [EpollEvent],
    ) -> Result<usize, Error> {
        let deadline = self.now_ms + timeout.max(0) as u64;
        let (mut waiter, mut step) = list.wait(timeout, ready.len());
        loop {
            let reply = match &mut step {
                WaitStep::Sweep(asked) => {
                    let mut polled: Vec<PollEntry> = asked.clone();
                    let ret = self.poll(&mut polled);
                    let revents = polled.iter().map(|entry| entry.revents).collect();
                    WaitReply::Swept { ret, last_error: 0, revents }
                }
                WaitStep::Dequeue { want, wait_ms } => {
                    if self.queue.is_empty() {
                        assert_ne!(*wait_ms, u32::MAX, "nothing will ever come");
                        self.now_ms += *wait_ms as u64;
                        WaitReply::Dequeued(Batch::Failed(258))
                    } else {
                        let n = self.queue.len().min(*want as usize);
                        WaitReply::Dequeued(Batch::Keys(self.queue.drain(..n).collect()))
                    }
                }
                WaitStep::Clock => WaitReply::Clock(if deadline < self.now_ms {
                    Left::Nothing
                } else {
                    Left::Nanoseconds((deadline - self.now_ms) as u128 * 1_000_000)
                }),
                WaitStep::Block { list: asked, timeout_ms } => {
                    assert!(*timeout_ms <= 50);
                    let mut polled: Vec<PollEntry> = asked.clone();
                    let mut ret = self.poll(&mut polled);
                    if ret == 0 {
                        self.now_ms += *timeout_ms as u64;
                        if let Some((time, handle)) = self.later {
                            if time <= self.now_ms {
                                self.later = None;
                                self.signal(list, handle);
                                ret = self.poll(&mut polled);
                            }
                        }
                    }
                    let wake_revents = polled.last().unwrap().revents;
                    WaitReply::Blocked { ret, last_error: 0, wake_revents }
                }
                WaitStep::Drain { socket } => {
                    assert_eq!(*socket, WAKE);
                    while drain_again(self.read_wake()) {}
                    WaitReply::Drained
                }
                WaitStep::Done(_) => break,
            };
            step = list.wait_next(&mut waiter, step, reply);
        }
        let events = waiter.into_events();
        match step {
            WaitStep::Done(Ok(count)) => {
                assert_eq!(count, events.len());
                ready[..count].copy_from_slice(&events);
                Ok(count)
            }
            WaitStep::Done(Err(e)) => Err(e),
            other => panic!("not over: {other:?}"),
        }
    }
}

fn new_list() -> Epoll {
    Epoll::new(0x50, 0).unwrap()
}

#[test]
fn test_consume_after_epoll_wait_does_not_deadlock() {
    const TIMEOUT: i32 = 5000;
    let mut kernel = Kernel::new();
    let mut epoll = new_list();
    let event_fd = kernel.event(0x10);
    let consumer = EventConsumer::from_raw_handle(0x14);

    kernel
        .ctl(&mut epoll, ControlOperation::Add, event_fd, EpollEvent::new(EventSet::IN(), 1))
        .unwrap();
    kernel.signal(&epoll, event_fd);

    let mut ready = [EpollEvent::default(); 8];
    let count = kernel.wait(&epoll, TIMEOUT, &mut ready[..]).unwrap();
    assert_eq!(count, 1);
    consumer.consume().unwrap();
    kernel
        .ctl(&mut epoll, ControlOperation::Delete, event_fd, EpollEvent::default())
        .unwrap();
}

#[test]
fn test_event_ops() {
    let mut event = EpollEvent::default();
    assert_eq!(event.events, 0);
    assert_eq!(event.data(), 0);

    event = EpollEvent::new(EventSet::IN(), 2);
    assert_eq!(event.events, 1);
    assert_eq!(event.event_set(), EventSet::IN());
    assert_eq!(event.data(), 2);
}

#[test]
fn ctl_returns_an_error_for_unknown_bits_instead_of_panicking() {
    let mut kernel = Kernel::new();
    let mut epoll = new_list();
    let event_fd = kernel.event(0x10);
    let mut event = EpollEvent::new(EventSet::IN(), 0);
    event.events = 1 << 30;
    let err = kernel.ctl(&mut epoll, ControlOperation::Add, event_fd, event).unwrap_err();
    assert_eq!(err.kind(), Some(ErrorKind::InvalidInput));
    assert_eq!(err.message(), Some("unknown EventSet bits: 0x40000000"));
}

#[test]
fn test_ctl_rejects_unsupported_events() {
    let mut kernel = Kernel::new();
    let mut epoll = new_list();
    let event_fd = kernel.event(0x10);
    let err = kernel
        .ctl(&mut epoll, ControlOperation::Add, event_fd, EpollEvent::new(EventSet::OUT(), 0))
        .unwrap_err();
    assert_eq!(err.kind(), Some(ErrorKind::Unsupported));
    assert_eq!(
        err.message(),
        Some("a Windows Epoll handle only supports EventSet::IN, got EventSet(OUT)")
    );
}

#[test]
fn a_handle_is_watched_for_something() {
    let mut kernel = Kernel::new();
    let mut epoll = new_list();
    let event_fd = kernel.event(0x10);
    for operation in [ControlOperation::Add, ControlOperation::Modify] {
        let err = kernel
            .ctl(&mut epoll, operation, event_fd, EpollEvent::new(EventSet::empty(), 0))
            .unwrap_err();
        assert_eq!(err.kind(), Some(ErrorKind::Unsupported));
    }
    let err = kernel
        .ctl(&mut epoll, ControlOperation::Delete, event_fd, EpollEvent::default())
        .unwrap_err();
    assert_eq!(err.kind(), Some(ErrorKind::NotFound));
}

#[test]
fn test_epoll_add_signal_wait() {
    const TIMEOUT: i32 = 5000;
    let mut kernel = Kernel::new();
    let mut epoll = new_list();
    let event_fd_1 = kernel.event(0x10);
    let event_fd_2 = kernel.event(0x20);

    kernel
        .ctl(&mut epoll, ControlOperation::Add, event_fd_1, EpollEvent::new(EventSet::IN(), 1))
        .unwrap();
    kernel
        .ctl(&mut epoll, ControlOperation::Add, event_fd_2, EpollEvent::new(EventSet::IN(), 2))
        .unwrap();

    // Adding the same handle twice fails.
    assert!(kernel
        .ctl(&mut epoll, ControlOperation::Add, event_fd_1, EpollEvent::new(EventSet::IN(), 1))
        .is_err());

    kernel.signal(&epoll, event_fd_1);

    let mut ready = [EpollEvent::default(); 8];
    let count = kernel.wait(&epoll, TIMEOUT, &mut ready[..]).unwrap();
    assert_eq!(count, 1);
    assert_eq!(ready[0].data(), 1);

    kernel
        .ctl(&mut epoll, ControlOperation::Delete, event_fd_1, EpollEvent::default())
        .unwrap();
    kernel
        .ctl(&mut epoll, ControlOperation::Delete, event_fd_2, EpollEvent::default())
        .unwrap();

    // Deleting a handle that's not registered fails.
    assert!(kernel
        .ctl(&mut epoll, ControlOperation::Delete, event_fd_2, EpollEvent::default())
        .is_err());
}

fn misuse_of(object: Object) -> Misuse {
    let mut kernel = Kernel::new();
    let mut epoll = new_list();
    kernel.objects.insert(0x10, object);
    let event = EpollEvent::new(EventSet::IN(), 0);
    let mut step = Ctl::start();
    loop {
        let reply = match &step {
            Ctl::SocketType => CtlReply::SocketType(-1),
            Ctl::Probe(probe) => CtlReply::Probe(kernel.answer(0x10, *probe)),
            Ctl::Misused(misuse) => return *misuse,
            other => panic!("unexpected {other:?}"),
        };
        step = epoll.ctl(ControlOperation::Add, 0x10, event, true, step, reply);
    }
}

#[test]
fn a_debug_list_complains_of_events_that_it_cannot_wait_on() {
    assert_eq!(misuse_of(Object::ManualReset), Misuse::ManualReset);
    assert!(Misuse::ManualReset.message(Host::Epoll).contains("auto-reset"));
    assert_eq!(misuse_of(Object::NarrowEvent), Misuse::Unverifiable);
    assert!(Misuse::Unverifiable.message(Host::Epoll).contains("EVENT_QUERY_STATE"));
}

#[test]
fn epoll_a_restricted_rights_semaphore_is_still_registrable() {
    let mut kernel = Kernel::new();
    let mut epoll = new_list();
    kernel.objects.insert(0x10, Object::NarrowSemaphore);
    kernel
        .ctl(&mut epoll, ControlOperation::Add, 0x10, EpollEvent::new(EventSet::IN(), 0))
        .expect("a restricted-rights non-event waitable must register");
    kernel
        .ctl(&mut epoll, ControlOperation::Delete, 0x10, EpollEvent::default())
        .unwrap();
}

#[test]
fn epoll_a_stale_completion_key_is_skipped_not_misdelivered() {
    let mut kernel = Kernel::new();
    let mut epoll = new_list();
    let event_fd = kernel.event(0x10);
    kernel
        .ctl(&mut epoll, ControlOperation::Add, event_fd, EpollEvent::new(EventSet::IN(), 7))
        .unwrap();

    kernel.queue.push_back(usize::MAX);
    kernel.signal(&epoll, event_fd);

    let mut ready = [EpollEvent::default(); 8];
    let mut total = 0;
    while total == 0 {
        total = kernel.wait(&epoll, 5000, &mut ready[..]).unwrap();
    }
    assert_eq!(total, 1);
    assert_eq!(ready[0].data(), 7);
    assert_eq!(kernel.wait(&epoll, 100, &mut ready[..]).unwrap(), 0);

    kernel
        .ctl(&mut epoll, ControlOperation::Delete, event_fd, EpollEvent::default())
        .unwrap();
}

#[test]
fn epoll_each_signal_delivers_exactly_one_wakeup_and_no_storm() {
    let mut kernel = Kernel::new();
    let mut epoll = new_list();
    let event_fd = kernel.event(0x10);
    kernel
        .ctl(&mut epoll, ControlOperation::Add, event_fd, EpollEvent::new(EventSet::IN(), 9))
        .unwrap();

    kernel.signal(&epoll, event_fd);
    kernel.signal(&epoll, event_fd);

    let mut ready = [EpollEvent::default(); 8];
    let mut total = 0;
    while total < 2 {
        let n = kernel.wait(&epoll, 5000, &mut ready[..]).unwrap();
        assert_ne!(n, 0, "wake-up lost: got {total} of 2");
        total += n;
    }
    assert_eq!(total, 2);
    assert_eq!(kernel.wait(&epoll, 100, &mut ready[..]).unwrap(), 0);

    kernel
        .ctl(&mut epoll, ControlOperation::Delete, event_fd, EpollEvent::default())
        .unwrap();
}

#[test]
fn modify_does_not_drop_a_queued_completion() {
    let mut kernel = Kernel::new();
    let mut epoll = new_list();
    let event_fd = kernel.event(0x10);
    kernel
        .ctl(&mut epoll, ControlOperation::Add, event_fd, EpollEvent::new(EventSet::IN(), 7))
        .unwrap();

    kernel.signal(&epoll, event_fd);
    kernel
        .ctl(&mut epoll, ControlOperation::Modify, event_fd, EpollEvent::new(EventSet::IN(), 42))
        .unwrap();

    let mut ready = [EpollEvent::default(); 8];
    let mut total = 0;
    while total == 0 {
        total = kernel.wait(&epoll, 5000, &mut ready[..]).unwrap();
    }
    assert_eq!(total, 1);
    assert_eq!(ready[0].data(), 42);

    let stranger = kernel.event(0x20);
    let err = kernel
        .ctl(&mut epoll, ControlOperation::Modify, stranger, EpollEvent::new(EventSet::IN(), 1))
        .unwrap_err();
    assert_eq!(err.kind(), Some(ErrorKind::NotFound));

    kernel
        .ctl(&mut epoll, ControlOperation::Delete, event_fd, EpollEvent::default())
        .unwrap();
}

#[test]
fn epoll_a_batch_of_ready_doorbells_is_delivered_together() {
    const N: u64 = 8;
    let mut kernel = Kernel::new();
    let mut epoll = new_list();
    let fds: Vec<usize> = (0..N as usize).map(|i| kernel.event(0x10 + 0x10 * i)).collect();
    for (i, fd) in fds.iter().enumerate() {
        kernel
            .ctl(
                &mut epoll,
                ControlOperation::Add,
                *fd,
                EpollEvent::new(EventSet::IN(), i as u64),
            )
            .unwrap();
    }
    for fd in &fds {
        kernel.signal(&epoll, *fd);
    }

    let mut seen = HashSet::new();
    let mut ready = [EpollEvent::default(); 16];
    while seen.len() < N as usize {
        let n = kernel.wait(&epoll, 5000, &mut ready[..]).unwrap();
        assert_ne!(n, 0, "doorbell lost: got {} of {N}", seen.len());
        for ev in &ready[..n] {
            assert!(seen.insert(ev.data()), "duplicate wake-up for {}", ev.data());
        }
    }
    assert_eq!(seen, (0..N).collect());

    for fd in &fds {
        kernel
            .ctl(&mut epoll, ControlOperation::Delete, *fd, EpollEvent::default())
            .unwrap();
    }
}

#[test]
fn test_epoll_wait_timeout() {
    let mut kernel = Kernel::new();
    let epoll = new_list();
    let mut ready = [EpollEvent::default(); 8];
    let count = kernel.wait(&epoll, 50, &mut ready[..]).unwrap();
    assert_eq!(count, 0);
    assert_eq!(kernel.now_ms, 50);
}

#[test]
fn test_epoll_modify() {
    const TIMEOUT: i32 = 5000;
    let mut kernel = Kernel::new();
    let mut epoll = new_list();
    let event_fd = kernel.event(0x10);
    kernel
        .ctl(&mut epoll, ControlOperation::Add, event_fd, EpollEvent::new(EventSet::IN(), 1))
        .unwrap();
    kernel
        .ctl(&mut epoll, ControlOperation::Modify, event_fd, EpollEvent::new(EventSet::IN(), 42))
        .unwrap();

    kernel.signal(&epoll, event_fd);
    let mut ready = [EpollEvent::default(); 8];
    let count = kernel.wait(&epoll, TIMEOUT, &mut ready[..]).unwrap();
    assert_eq!(count, 1);
    assert_eq!(ready[0].data(), 42);

    kernel
        .ctl(&mut epoll, ControlOperation::Delete, event_fd, EpollEvent::default())
        .unwrap();
}

#[test]
fn epoll_a_thousand_fire_cycles_leak_no_handles() {
    const N: usize = 1000;
    let mut kernel = Kernel::new();
    let mut epoll = new_list();
    let event_fd = kernel.event(0x10);
    kernel
        .ctl(&mut epoll, ControlOperation::Add, event_fd, EpollEvent::new(EventSet::IN(), 7))
        .unwrap();
    let mut events = [EpollEvent::default(); 4];
    let before = kernel.waits.len();
    for _ in 0..N {
        kernel.signal(&epoll, event_fd);
        while kernel.wait(&epoll, 1000, &mut events).unwrap() == 0 {}
    }
    let after = kernel.waits.len();
    assert!(
        after.saturating_sub(before) < N / 2,
        "handle count grew from {before} to {after} over {N} fire cycles"
    );
}

#[test]
fn epoll_a_thousand_registration_cycles_leak_no_handles() {
    const N: usize = 1000;
    let mut kernel = Kernel::new();
    let mut epoll = new_list();
    let event_fd = kernel.event(0x10);
    let before = kernel.waits.len();
    for i in 0..N {
        kernel
            .ctl(
                &mut epoll,
                ControlOperation::Add,
                event_fd,
                EpollEvent::new(EventSet::IN(), i as u64),
            )
            .unwrap();
        kernel
            .ctl(
                &mut epoll,
                ControlOperation::Delete,
                event_fd,
                EpollEvent::new(EventSet::empty(), 0),
            )
            .unwrap();
    }
    let after = kernel.waits.len();
    assert!(
        after.saturating_sub(before) < N / 2,
        "handle count grew from {before} to {after} over {N} cycles"
    );
}

#[test]
fn a_socket_reports_readability_and_goes_on_reporting_it() {
    let mut kernel = Kernel::new();
    let mut epoll = new_list();
    let server = kernel.socket(0x30);

    kernel
        .ctl(&mut epoll, ControlOperation::Add, server, EpollEvent::new(EventSet::IN(), 7))
        .unwrap();

    // A byte arrived and stays unread.
    kernel.revents.insert(server, 0x100);

    let mut events = [EpollEvent::default(); 4];
    assert_eq!(kernel.wait(&epoll, 5000, &mut events).unwrap(), 1);
    assert_eq!(events[0].data(), 7);
    assert!(events[0].event_set().contains(EventSet::IN()));

    assert_eq!(kernel.wait(&epoll, 0, &mut events).unwrap(), 1);
    assert_eq!(events[0].data(), 7);
}

/// A read from an empty socket with a receive timeout of 150 ms: one that blocks
/// times out, one that does not would block at once.
fn read_empty(nonblocking: &HashSet<usize>, socket: usize) -> &'static str {
    if nonblocking.contains(&socket) {
        "WouldBlock"
    } else {
        "TimedOut"
    }
}

#[test]
fn registering_a_socket_leaves_it_in_blocking_mode() {
    let mut epoll = new_list();
    let server = 0x30;
    let mut nonblocking = HashSet::new();
    let event = EpollEvent::new(EventSet::IN(), 1);
    let mut step = Ctl::start();
    // All that is asked for is what kind of thing the handle is, and a socket of
    // the list's own, which alone does not block.
    let mut asked = Vec::new();
    loop {
        let reply = match &step {
            Ctl::SocketType => {
                asked.push("type");
                CtlReply::SocketType(0)
            }
            Ctl::MakeWake => {
                asked.push("wake");
                nonblocking.insert(WAKE);
                CtlReply::Wake(Ok(WAKE))
            }
            Ctl::Done(result) => {
                assert!(result.is_ok());
                break;
            }
            other => panic!("unexpected {other:?}"),
        };
        step = epoll.ctl(ControlOperation::Add, server, event, true, step, reply);
    }
    assert_eq!(asked, vec!["type", "wake"]);
    assert_eq!(read_empty(&nonblocking, server), "TimedOut");
    assert_eq!(read_empty(&nonblocking, WAKE), "WouldBlock");
}

#[test]
fn a_socket_reports_writability() {
    let mut kernel = Kernel::new();
    let mut epoll = new_list();
    let client = kernel.socket(0x30);
    kernel.revents.insert(client, 0x10);

    kernel
        .ctl(&mut epoll, ControlOperation::Add, client, EpollEvent::new(EventSet::OUT(), 9))
        .unwrap();

    let mut events = [EpollEvent::default(); 4];
    assert_eq!(kernel.wait(&epoll, 5000, &mut events).unwrap(), 1);
    assert_eq!(events[0].data(), 9);
    assert!(events[0].event_set().contains(EventSet::OUT()));
    assert_eq!(kernel.wait(&epoll, 0, &mut events).unwrap(), 1);
}

#[test]
fn a_signalled_handle_wakes_a_wait_blocked_on_sockets() {
    let mut kernel = Kernel::new();
    let mut epoll = new_list();
    let server = kernel.socket(0x30);
    let event_fd = kernel.event(0x10);

    kernel
        .ctl(&mut epoll, ControlOperation::Add, server, EpollEvent::new(EventSet::IN(), 1))
        .unwrap();
    kernel
        .ctl(&mut epoll, ControlOperation::Add, event_fd, EpollEvent::new(EventSet::IN(), 42))
        .unwrap();

    kernel.later = Some((100, event_fd));

    // The socket is idle, so only the handle can end this wait.
    let mut events = [EpollEvent::default(); 4];
    assert_eq!(kernel.wait(&epoll, 5000, &mut events).unwrap(), 1);
    assert_eq!(events[0].data(), 42);
    assert!(kernel.now_ms <= 150);
    assert_eq!(kernel.wake_ups, 0, "the wake socket was drained");
}

#[test]
fn a_missed_wake_up_makes_a_wait_late_not_endless() {
    let mut kernel = Kernel::new();
    let mut epoll = new_list();
    let server = kernel.socket(0x30);
    let event_fd = kernel.event(0x10);
    kernel
        .ctl(&mut epoll, ControlOperation::Add, server, EpollEvent::new(EventSet::IN(), 1))
        .unwrap();
    kernel
        .ctl(&mut epoll, ControlOperation::Add, event_fd, EpollEvent::new(EventSet::IN(), 42))
        .unwrap();
    kernel.signal(&epoll, event_fd);
    kernel.wake_ups = 0;
    let mut events = [EpollEvent::default(); 4];
    assert_eq!(kernel.wait(&epoll, -1, &mut events).unwrap(), 1);
    assert_eq!(events[0].data(), 42);
}

#[test]
fn a_wait_for_ever_goes_on_until_there_is_something() {
    let mut kernel = Kernel::new();
    let mut epoll = new_list();
    let server = kernel.socket(0x30);
    let event_fd = kernel.event(0x10);
    kernel
        .ctl(&mut epoll, ControlOperation::Add, server, EpollEvent::new(EventSet::IN(), 1))
        .unwrap();
    kernel
        .ctl(&mut epoll, ControlOperation::Add, event_fd, EpollEvent::new(EventSet::IN(), 42))
        .unwrap();
    // A wake-up for nothing does not end the wait either.
    kernel.wake_ups = 1;
    kernel.later = Some((1000, event_fd));
    let mut events = [EpollEvent::default(); 4];
    assert_eq!(kernel.wait(&epoll, -1, &mut events).unwrap(), 1);
    assert_eq!(events[0].data(), 42);
    assert_eq!(kernel.now_ms, 1000);
}

#[test]
fn a_wait_with_sockets_lasts_as_long_as_it_was_told() {
    let mut kernel = Kernel::new();
    let mut epoll = new_list();
    let server = kernel.socket(0x30);
    kernel
        .ctl(&mut epoll, ControlOperation::Add, server, EpollEvent::new(EventSet::IN(), 1))
        .unwrap();
    let mut events = [EpollEvent::default(); 4];
    assert_eq!(kernel.wait(&epoll, 120, &mut events).unwrap(), 0);
    assert_eq!(kernel.now_ms, 120);
    // A sweep and a block, three times: 50, 50 and 20 milliseconds.
    assert_eq!(kernel.polls, 6);
    assert_eq!(kernel.wait(&epoll, 0, &mut events).unwrap(), 0);
    assert_eq!(kernel.now_ms, 120);
}

#[test]
fn sockets_and_handles_are_reported_together() {
    let mut kernel = Kernel::new();
    let mut epoll = new_list();
    let server = kernel.socket(0x30);
    let event_fd = kernel.event(0x10);
    kernel
        .ctl(&mut epoll, ControlOperation::Add, server, EpollEvent::new(EventSet::IN(), 1))
        .unwrap();
    kernel
        .ctl(&mut epoll, ControlOperation::Add, event_fd, EpollEvent::new(EventSet::IN(), 42))
        .unwrap();
    kernel.revents.insert(server, 0x100);
    kernel.signal(&epoll, event_fd);
    let mut events = [EpollEvent::default(); 4];
    assert_eq!(kernel.wait(&epoll, 5000, &mut events).unwrap(), 2);
    assert_eq!((events[0].data(), events[1].data()), (1, 42));

    // With room for one, the socket comes first and the handle stays queued.
    kernel.signal(&epoll, event_fd);
    let mut one = [EpollEvent::default(); 1];
    assert_eq!(kernel.wait(&epoll, 5000, &mut one).unwrap(), 1);
    assert_eq!(one[0].data(), 1);
    assert_eq!(kernel.queue.len(), 1);
}

#[test]
fn socket_ctl_rejects_events_it_cannot_report() {
    let mut kernel = Kernel::new();
    let mut epoll = new_list();
    let client = kernel.socket(0x30);

    let err = kernel
        .ctl(
            &mut epoll,
            ControlOperation::Add,
            client,
            EpollEvent::new(EventSet::READ_HANG_UP(), 1),
        )
        .unwrap_err();
    assert_eq!(err.kind(), Some(ErrorKind::Unsupported));
    assert_eq!(
        err.message(),
        Some("a Windows Epoll socket supports IN and OUT, got EventSet(READ_HANG_UP)")
    );

    // ...but IN|OUT together is exactly what a socket is for.
    kernel
        .ctl(
            &mut epoll,
            ControlOperation::Add,
            client,
            EpollEvent::new(EventSet::IN() | EventSet::OUT(), 1),
        )
        .unwrap();

    let err = kernel
        .ctl(&mut epoll, ControlOperation::Add, client, EpollEvent::new(EventSet::IN(), 1))
        .unwrap_err();
    assert_eq!(err.kind(), Some(ErrorKind::AlreadyExists));
    assert_eq!(kernel.wakes_made, 1, "one wake socket serves all");
    let other = kernel.socket(0x34);
    let err = kernel
        .ctl(&mut epoll, ControlOperation::Modify, other, EpollEvent::new(EventSet::IN(), 1))
        .unwrap_err();
    assert_eq!(err.kind(), Some(ErrorKind::NotFound));
}

#[test]
fn a_modified_socket_reports_its_new_interest_and_data() {
    let mut kernel = Kernel::new();
    let mut epoll = new_list();
    let client = kernel.socket(0x30);
    kernel.revents.insert(client, 0x10);
    kernel
        .ctl(&mut epoll, ControlOperation::Add, client, EpollEvent::new(EventSet::IN(), 1))
        .unwrap();
    let mut events = [EpollEvent::default(); 4];
    assert_eq!(kernel.wait(&epoll, 0, &mut events).unwrap(), 0);
    kernel
        .ctl(&mut epoll, ControlOperation::Modify, client, EpollEvent::new(EventSet::OUT(), 2))
        .unwrap();
    assert_eq!(kernel.wait(&epoll, 0, &mut events).unwrap(), 1);
    assert_eq!((events[0].events, events[0].data()), (2, 2));
}

#[test]
fn a_deleted_socket_is_no_longer_reported() {
    let mut kernel = Kernel::new();
    let mut epoll = new_list();
    let server = kernel.socket(0x30);

    kernel
        .ctl(&mut epoll, ControlOperation::Add, server, EpollEvent::new(EventSet::IN(), 3))
        .unwrap();
    kernel.revents.insert(server, 0x100);

    let mut events = [EpollEvent::default(); 4];
    assert_eq!(kernel.wait(&epoll, 5000, &mut events).unwrap(), 1);

    kernel
        .ctl(
            &mut epoll,
            ControlOperation::Delete,
            server,
            EpollEvent::new(EventSet::empty(), 0),
        )
        .unwrap();
    assert_eq!(kernel.wait(&epoll, 0, &mut events).unwrap(), 0);

    // Deleting twice is a miss, not a silent success.
    assert!(kernel
        .ctl(
            &mut epoll,
            ControlOperation::Delete,
            server,
            EpollEvent::new(EventSet::empty(), 0),
        )
        .is_err());
}

#[test]
fn nesting_an_epoll_is_refused_rather_than_fatal() {
    let mut kernel = Kernel::new();
    let mut outer = new_list();
    kernel.objects.insert(0x60, Object::CompletionPort);
    let err = kernel
        .ctl(&mut outer, ControlOperation::Add, 0x60, EpollEvent::new(EventSet::IN(), 1))
        .unwrap_err();
    assert_eq!(err.kind(), Some(ErrorKind::InvalidInput));
}

#[test]
fn epoll_an_invalid_handle_is_refused_rather_than_fatal() {
    let mut kernel = Kernel::new();
    let mut epoll = new_list();
    for bad in [-1isize, 0isize] {
        let err = kernel
            .ctl(
                &mut epoll,
                ControlOperation::Add,
                bad as usize,
                EpollEvent::new(EventSet::IN(), 1),
            )
            .unwrap_err();
        assert_eq!(err.kind(), Some(ErrorKind::InvalidInput), "for {bad}");
    }
}

#[test]
fn a_list_that_watches_handles_makes_no_wake_socket() {
    let mut kernel = Kernel::new();
    let mut epoll = new_list();
    let event_fd = kernel.event(0x10);
    kernel
        .ctl(&mut epoll, ControlOperation::Add, event_fd, EpollEvent::new(EventSet::IN(), 1))
        .unwrap();
    assert_eq!(kernel.wakes_made, 0);
    assert_eq!(epoll.wake(), None);
    assert!(epoll.can_mint());
}

#[test]
fn a_wake_socket_that_cannot_be_made_refuses_the_socket() {
    let mut epoll = new_list();
    let event = EpollEvent::new(EventSet::IN(), 1);
    let step = epoll.ctl(
        ControlOperation::Add,
        0x30,
        event,
        false,
        Ctl::start(),
        CtlReply::SocketType(0),
    );
    assert!(matches!(step, Ctl::MakeWake));
    let wake = CtlReply::Wake(Err(Error::Os(10055)));
    match epoll.ctl(ControlOperation::Add, 0x30, event, false, step, wake) {
        Ctl::Done(result) => assert_eq!(result.unwrap_err().raw_os_error(), Some(10055)),
        other => panic!("unexpected {other:?}"),
    }
    assert_eq!(epoll.wake(), None);
    assert!(epoll.sweep_list(1).is_none());
    assert!(epoll.block_list().is_none());
}

#[test]
fn a_failed_registration_or_removal_reports_the_error() {
    let mut epoll = new_list();
    let event = EpollEvent::new(EventSet::IN(), 1);
    let step = Ctl::Probe(Probe::ObjectType);
    let unknown = CtlReply::Probe(Answer::ObjectType { status: -1, buffer: [0; 512] });
    let step = epoll.ctl(ControlOperation::Add, 0x10, event, false, step, unknown);
    assert!(matches!(step, Ctl::RegisterWait { token: 0 }));
    let failed = CtlReply::Wait { succeeded: false, wait_handle: 0, last_error: 14 };
    match epoll.ctl(ControlOperation::Add, 0x10, event, false, step, failed) {
        Ctl::Done(result) => assert_eq!(result.unwrap_err().raw_os_error(), Some(14)),
        other => panic!("unexpected {other:?}"),
    }
    let step = Ctl::UnregisterWait { wait_handle: 0x11 };
    let failed = CtlReply::Unregistered { succeeded: false, last_error: 6 };
    match epoll.ctl(ControlOperation::Delete, 0x10, event, false, step, failed) {
        Ctl::Done(result) => assert_eq!(result.unwrap_err().raw_os_error(), Some(6)),
        other => panic!("unexpected {other:?}"),
    }
}

#[test]
fn a_null_port_is_the_failure_of_an_interest_list() {
    assert_eq!(Epoll::new(0, 8).err().unwrap().raw_os_error(), Some(8));
}

#[test]
fn events_are_validated_by_their_bits() {
    assert!(validate_event_set(0).is_ok());
    assert!(validate_event_set(1).is_ok());
    assert_eq!(validate_event_set(3).unwrap_err().kind(), Some(ErrorKind::Unsupported));
    assert_eq!(validate_event_set(0x400).unwrap_err().kind(), Some(ErrorKind::InvalidInput));
    assert_eq!(
        validate_event_set(0x400).unwrap_err().message(),
        Some("unknown EventSet bits: 0x400")
    );
    for bits in 0..4 {
        assert_eq!(validate_socket_event_set(bits).unwrap().bits(), bits);
    }
    assert_eq!(validate_socket_event_set(4).unwrap_err().kind(), Some(ErrorKind::Unsupported));
    assert_eq!(
        validate_socket_event_set(0x401).unwrap_err().kind(),
        Some(ErrorKind::InvalidInput)
    );
    assert!(is_socket(0));
    assert!(!is_socket(-1));
}

#[test]
fn interests_and_results_are_poll_bits() {
    assert_eq!(poll_events(EventSet::empty()), 0);
    assert_eq!(poll_events(EventSet::IN()), 0x100);
    assert_eq!(poll_events(EventSet::OUT()), 0x10);
    assert_eq!(poll_events(EventSet::IN() | EventSet::OUT()), 0x110);

    assert_eq!(event_set_of(0), None);
    assert_eq!(event_set_of(0x100), Some(EventSet::IN()));
    assert_eq!(event_set_of(0x10), Some(EventSet::OUT()));
    assert_eq!(event_set_of(0x110), Some(EventSet::IN() | EventSet::OUT()));
    // Conditions are readable, also beside writability.
    for condition in [1, 2, 4, 7] {
        assert_eq!(event_set_of(condition), Some(EventSet::IN()));
        assert_eq!(event_set_of(condition | 0x10), Some(EventSet::IN() | EventSet::OUT()));
    }
    // Anything else that happened is readable too.
    assert_eq!(event_set_of(0x200), Some(EventSet::IN()));
    assert_eq!(event_set_of(0x210), Some(EventSet::OUT()));
}

fn entry(fd: usize, revents: i16) -> PollEntry {
    PollEntry { fd, events: 0x100, revents, data: fd as u64 }
}

#[test]
fn a_sweep_takes_the_first_that_are_ready() {
    let list = vec![entry(1, 0), entry(2, 0x100), entry(3, 2), entry(4, 0x10)];
    let data = |n| {
        sweep_sockets(&list, 3, 0, n).unwrap().iter().map(|e| e.data()).collect::<Vec<u64>>()
    };
    assert_eq!(data(8), vec![2, 3, 4]);
    assert_eq!(data(3), vec![2, 3, 4]);
    assert_eq!(data(2), vec![2, 3]);
    assert_eq!(data(0), Vec::<u64>::new());
    assert_eq!(sweep_sockets(&list, -1, 10038, 8).unwrap_err().raw_os_error(), Some(10038));
}

#[test]
fn a_poll_that_could_block_tells_what_ended_it() {
    assert_eq!(poll_block(0, 0, 0).unwrap(), Blocked::TimedOut);
    assert_eq!(poll_block(1, 0, 0).unwrap(), Blocked::Ready);
    assert_eq!(poll_block(1, 0, 0x100).unwrap(), Blocked::Wake);
    assert_eq!(poll_block(-1, 10038, 0).unwrap_err().raw_os_error(), Some(10038));
    assert!(drain_again(64));
    assert!(drain_again(1));
    assert!(!drain_again(0));
    assert!(!drain_again(-1));
}

#[test]
fn a_wait_for_handles_dequeues_what_there_is_room_for() {
    let epoll = new_list();
    let wait = HandleWait::new(-1, 100);
    assert_eq!(wait.next(), Some((64, u32::MAX)));
    let wait = HandleWait::new(7, 5);
    assert_eq!(wait.next(), Some((5, 7)));
    assert_eq!(HandleWait::new(7, 0).next(), None);

    // A batch of stale keys finds nothing, and the wait goes on for what is left.
    let mut wait = HandleWait::new(7, 5);
    assert!(epoll.wait_handles(&mut wait, Batch::Keys(vec![3, 4])).is_none());
    assert!(wait.needs_clock());
    wait.set_left(Left::Nanoseconds(4_500_000));
    assert_eq!(wait.next(), Some((5, 4)));
    assert_eq!(epoll.wait_handles(&mut wait, Batch::Failed(258)).unwrap().unwrap(), 0);
    let err = epoll.wait_handles(&mut wait, Batch::Failed(6)).unwrap().unwrap_err();
    assert_eq!(err.raw_os_error(), Some(6));
}

#[test]
fn a_failed_dequeue_after_a_find_is_no_error() {
    let mut kernel = Kernel::new();
    let mut epoll = new_list();
    let event_fd = kernel.event(0x10);
    kernel
        .ctl(&mut epoll, ControlOperation::Add, event_fd, EpollEvent::new(EventSet::IN(), 1))
        .unwrap();
    let mut wait = HandleWait::new(7, 5);
    assert!(epoll.wait_handles(&mut wait, Batch::Keys(vec![0, 9, 0])).is_none());
    assert_eq!(epoll.wait_handles(&mut wait, Batch::Failed(6)).unwrap().unwrap(), 2);
    let (mut waiter, step) = epoll.wait(7, 1);
    let step = epoll.wait_next(
        &mut waiter,
        step,
        WaitReply::Dequeued(Batch::Keys(vec![0])),
    );
    assert!(matches!(step, WaitStep::Done(Ok(1))));
}

#[test]
fn a_list_is_taken_apart_in_a_safe_order() {
    let mut kernel = Kernel::new();
    let mut epoll = new_list();
    for handle in [0x10, 0x20] {
        kernel.event(handle);
        kernel
            .ctl(&mut epoll, ControlOperation::Add, handle, EpollEvent::new(EventSet::IN(), 1))
            .unwrap();
    }
    let server = kernel.socket(0x30);
    kernel
        .ctl(&mut epoll, ControlOperation::Add, server, EpollEvent::new(EventSet::IN(), 1))
        .unwrap();
    let steps = epoll.teardown();
    assert_eq!(steps.len(), 5);
    assert_eq!(steps[0], Teardown::Unpublish);
    let waits: HashSet<usize> = steps[1..3]
        .iter()
        .map(|step| match step {
            Teardown::Unregister { handle, wait_handle } => {
                assert_eq!(*wait_handle, handle + 1);
                *handle
            }
            other => panic!("unexpected {other:?}"),
        })
        .collect();
    assert_eq!(waits, [0x10, 0x20].into_iter().collect());
    assert_eq!(steps[3], Teardown::CloseWake(WAKE));
    assert_eq!(steps[4], Teardown::ClosePort(0x50));
    assert_eq!(epoll.teardown(), vec![Teardown::Unpublish, Teardown::ClosePort(0x50)]);
}

#[test]
fn a_callback_wakes_a_blocked_poll_only_when_there_is_one() {
    assert_eq!(wake_target(-1), None);
    assert_eq!(wake_target(0), Some(0));
    assert_eq!(wake_target(0x30), Some(0x30));
    assert_eq!(wait_post(0x50, 7).key, 7);
    assert!(resignal(false, 1450));
}

#[test]
fn stale_completions_do_not_end_a_wait_for_ever() {
    let mut kernel = Kernel::new();
    let mut epoll = new_list();
    let gone = kernel.event(0x10);
    let stays = kernel.event(0x20);
    for (handle, data) in [(gone, 7), (stays, 42)] {
        kernel
            .ctl(&mut epoll, ControlOperation::Add, handle, EpollEvent::new(EventSet::IN(), data))
            .unwrap();
    }
    kernel.signal(&epoll, gone);
    kernel.ctl(&mut epoll, ControlOperation::Delete, gone, EpollEvent::default()).unwrap();
    let stale = kernel.queue.pop_front().unwrap();
    let live = kernel.waits[&stays];

    let (mut waiter, step) = epoll.wait(-1, 4);
    assert!(matches!(step, WaitStep::Dequeue { want: 4, wait_ms: u32::MAX }));
    let batch = WaitReply::Dequeued(Batch::Keys(vec![stale]));
    let step = epoll.wait_next(&mut waiter, step, batch);
    assert!(matches!(step, WaitStep::Dequeue { want: 4, wait_ms: u32::MAX }));
    // A wait for ever does not time out.
    let step = epoll.wait_next(&mut waiter, step, WaitReply::Dequeued(Batch::Failed(258)));
    assert!(matches!(step, WaitStep::Dequeue { want: 4, wait_ms: u32::MAX }));
    let batch = WaitReply::Dequeued(Batch::Keys(vec![live]));
    let step = epoll.wait_next(&mut waiter, step, batch);
    assert!(matches!(step, WaitStep::Dequeue { want: 3, wait_ms: 0 }));
    let step = epoll.wait_next(&mut waiter, step, WaitReply::Dequeued(Batch::Failed(258)));
    assert!(matches!(step, WaitStep::Done(Ok(1))));
    assert_eq!(waiter.into_events()[0].data(), 42);
}

#[test]
fn stale_completions_do_not_shorten_a_finite_wait() {
    let mut kernel = Kernel::new();
    let epoll = new_list();
    kernel.queue.push_back(3);
    let mut events = [EpollEvent::default(); 4];
    assert_eq!(kernel.wait(&epoll, 100, &mut events).unwrap(), 0);
    assert_eq!(kernel.now_ms, 100);

    // What was used up before the clock was read is not waited for again.
    let (mut waiter, step) = epoll.wait(100, 4);
    let step = epoll.wait_next(&mut waiter, step, WaitReply::Dequeued(Batch::Keys(vec![3])));
    assert!(matches!(step, WaitStep::Clock));
    let step = epoll.wait_next(&mut waiter, step, WaitReply::Clock(Left::Nanoseconds(30_999_999)));
    assert!(matches!(step, WaitStep::Dequeue { want: 4, wait_ms: 30 }));
    let step = epoll.wait_next(&mut waiter, step, WaitReply::Dequeued(Batch::Keys(vec![3])));
    let step = epoll.wait_next(&mut waiter, step, WaitReply::Clock(Left::Nothing));
    assert!(matches!(step, WaitStep::Dequeue { want: 4, wait_ms: 0 }));
    let step = epoll.wait_next(&mut waiter, step, WaitReply::Dequeued(Batch::Failed(258)));
    assert!(matches!(step, WaitStep::Done(Ok(0))));
}

#[test]
fn every_wake_up_is_drained_at_once() {
    let mut kernel = Kernel::new();
    let mut epoll = new_list();
    let server = kernel.socket(0x30);
    let event_fd = kernel.event(0x10);
    kernel
        .ctl(&mut epoll, ControlOperation::Add, server, EpollEvent::new(EventSet::IN(), 1))
        .unwrap();
    kernel
        .ctl(&mut epoll, ControlOperation::Add, event_fd, EpollEvent::new(EventSet::IN(), 42))
        .unwrap();
    kernel.signal(&epoll, event_fd);
    kernel.signal(&epoll, event_fd);
    let mut events = [EpollEvent::default(); 4];
    assert_eq!(kernel.wait(&epoll, 1000, &mut events).unwrap(), 2);
    // Both wake-ups are still in the wake socket: the wait did not block. The
    // next one does, drains them both, and then waits its time out.
    assert_eq!(kernel.wake_ups, 2);
    assert_eq!(kernel.wait(&epoll, 40, &mut events).unwrap(), 0);
    assert_eq!(kernel.wake_ups, 0);
    assert_eq!(kernel.now_ms, 40);
}

#[test]
fn one_signal_is_reported_once_while_a_socket_is_registered() {
    let mut kernel = Kernel::new();
    let mut epoll = new_list();
    let server = kernel.socket(0x30);
    let event_fd = kernel.event(0x10);
    kernel
        .ctl(&mut epoll, ControlOperation::Add, server, EpollEvent::new(EventSet::IN(), 1))
        .unwrap();
    kernel
        .ctl(&mut epoll, ControlOperation::Add, event_fd, EpollEvent::new(EventSet::IN(), 7))
        .unwrap();
    kernel.queue.push_back(usize::MAX);
    kernel.signal(&epoll, event_fd);
    // What is queued is reported with the data that the handle has then.
    kernel
        .ctl(&mut epoll, ControlOperation::Modify, event_fd, EpollEvent::new(EventSet::IN(), 42))
        .unwrap();
    let mut events = [EpollEvent::default(); 1];
    assert_eq!(kernel.wait(&epoll, -1, &mut events).unwrap(), 1);
    assert_eq!((events[0].events, events[0].data()), (1, 42));
    assert_eq!(kernel.wait(&epoll, 100, &mut events).unwrap(), 0);
}

#[test]
fn a_sweep_reports_sockets_with_what_they_were_registered_with() {
    let mut kernel = Kernel::new();
    let mut epoll = new_list();
    let server = kernel.socket(0x30);
    kernel
        .ctl(&mut epoll, ControlOperation::Add, server, EpollEvent::new(EventSet::IN(), 5))
        .unwrap();
    for (revents, found) in [(vec![0x100], 1), (vec![0x100, 0x100], 1), (vec![], 0)] {
        let (mut waiter, step) = epoll.wait(0, 4);
        let reply = WaitReply::Swept { ret: 1, last_error: 0, revents };
        epoll.wait_next(&mut waiter, step, reply);
        let events = waiter.into_events();
        assert_eq!(events.len(), found);
        for event in events {
            assert_eq!(event.data(), 5);
        }
    }
}

#[test]
fn a_handle_that_is_added_again_is_not_taken_for_the_old_one() {
    let mut kernel = Kernel::new();
    let mut epoll = new_list();
    let event_fd = kernel.event(0x10);
    let add = EpollEvent::new(EventSet::IN(), 7);
    kernel.ctl(&mut epoll, ControlOperation::Add, event_fd, add).unwrap();
    kernel.signal(&epoll, event_fd);
    for _ in 0..3 {
        let none = EpollEvent::default();
        kernel.ctl(&mut epoll, ControlOperation::Delete, event_fd, none).unwrap();
        kernel.ctl(&mut epoll, ControlOperation::Add, event_fd, add).unwrap();
    }
    let mut events = [EpollEvent::default(); 4];
    assert_eq!(kernel.wait(&epoll, 10, &mut events).unwrap(), 0);
}

#[test]
fn a_handle_is_modified_in_place() {
    let mut kernel = Kernel::new();
    let mut epoll = new_list();
    let event_fd = kernel.event(0x10);
    assert_eq!(epoll.modify(event_fd, 42).unwrap_err().kind(), Some(ErrorKind::NotFound));
    kernel
        .ctl(&mut epoll, ControlOperation::Add, event_fd, EpollEvent::new(EventSet::IN(), 7))
        .unwrap();
    kernel.signal(&epoll, event_fd);
    epoll.modify(event_fd, 42).unwrap();
    let mut events = [EpollEvent::default(); 4];
    assert_eq!(kernel.wait(&epoll, -1, &mut events).unwrap(), 1);
    assert_eq!(events[0].data(), 42);
    assert_eq!(kernel.wait(&epoll, 100, &mut events).unwrap(), 0);
}
