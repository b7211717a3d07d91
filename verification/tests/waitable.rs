use vmm_sys_util::error::ErrorKind;
use vmm_sys_util::waitable::{
    Answer, Host, Misuse, Probe, Refusal, NAME_LIMIT, STATUS_ACCESS_DENIED, SYNCHRONIZATION_EVENT,
};

fn description(bytes: u16, pointer: usize) -> [u8; 512] {
    let mut buffer = [0u8; 512];
    buffer[..2].copy_from_slice(&bytes.to_le_bytes());
    let width = std::mem::size_of::<usize>();
    buffer[width..2 * width].copy_from_slice(&pointer.to_le_bytes());
    buffer
}

fn after_type(debug: bool, status: i32, bytes: u16, pointer: usize) -> Probe {
    Probe::ObjectType
        .next(debug, Answer::ObjectType { status, buffer: description(bytes, pointer) })
}

fn after_name(debug: bool, name: &[u16]) -> Probe {
    Probe::ObjectName { pointer: 1, length: name.len() }
        .next(debug, Answer::ObjectName(name.to_vec()))
}

#[test]
fn a_handle_that_names_nothing_is_refused_at_once() {
    let probe = Probe::start().next(true, Answer::Information(false));
    assert_eq!(probe, Probe::Refused(Refusal::NotAHandle));
    assert!(probe.is_verdict());
    let probe = Probe::start().next(true, Answer::Information(true));
    assert_eq!(probe, Probe::ObjectType);
    assert!(!probe.is_verdict());
}

#[test]
fn a_type_that_cannot_be_read_lets_the_handle_pass() {
    assert_eq!(after_type(false, -1, 10, 0x1000), Probe::Waitable);
    assert_eq!(after_type(true, -1, 10, 0x1000), Probe::EventMode);
    assert_eq!(after_type(false, 0, 10, 0), Probe::Waitable);
    assert_eq!(after_type(false, 0, 1, 0x1000), Probe::Waitable);
    assert_eq!(after_type(false, 0, 2 * NAME_LIMIT as u16 + 2, 0x1000), Probe::Waitable);
    assert_eq!(
        after_type(false, 0, 2 * NAME_LIMIT as u16 + 1, 0x1000),
        Probe::ObjectName { pointer: 0x1000, length: 64 }
    );
    assert_eq!(
        after_type(true, 0, 24, usize::MAX - 0x10),
        Probe::ObjectName { pointer: usize::MAX - 0x10, length: 12 }
    );
}

#[test]
fn a_completion_port_is_known_by_its_type() {
    let port: Vec<u16> = "IoCompletion".encode_utf16().collect();
    assert_eq!(after_name(false, &port), Probe::Refused(Refusal::CompletionPort));
    assert_eq!(after_name(true, &port), Probe::Refused(Refusal::CompletionPort));
    let event: Vec<u16> = "Event".encode_utf16().collect();
    assert_eq!(after_name(false, &event), Probe::Waitable);
    assert_eq!(after_name(true, &event), Probe::EventMode);
    // What is no text is no completion port either.
    let mut broken = port.clone();
    broken[0] = 0xD800;
    assert_eq!(after_name(false, &broken), Probe::Waitable);
    broken.truncate(11);
    assert_eq!(after_name(false, &broken), Probe::Waitable);
}

#[test]
fn only_a_confirmed_manual_reset_event_is_misused() {
    let mode = |status, event_type| {
        Probe::EventMode.next(true, Answer::EventMode { status, event_type })
    };
    assert_eq!(mode(0, SYNCHRONIZATION_EVENT), Probe::Waitable);
    assert_eq!(mode(0, 0), Probe::Misused(Misuse::ManualReset));
    assert_eq!(mode(STATUS_ACCESS_DENIED, 1), Probe::Misused(Misuse::Unverifiable));
    assert_eq!(mode(0xC000_0024u32 as i32, 0), Probe::Waitable);
    assert_eq!(STATUS_ACCESS_DENIED, 0xC000_0022u32 as i32);
}

#[test]
fn an_answer_to_another_question_changes_nothing() {
    assert_eq!(
        Probe::start().next(true, Answer::ObjectName(Vec::new())),
        Probe::Information
    );
    assert_eq!(Probe::Waitable.next(true, Answer::Information(false)), Probe::Waitable);
}

#[test]
fn a_refusal_names_the_loop_that_refuses() {
    let err = Refusal::NotAHandle.error(Host::Epoll);
    assert_eq!(err.kind(), Some(ErrorKind::InvalidInput));
    assert_eq!(
        err.message(),
        Some("not a valid handle, so it cannot be registered with an Epoll")
    );
    assert_eq!(
        Refusal::NotAHandle.error(Host::Port).message(),
        Some("not a valid handle, so it cannot be registered with a Port")
    );
    assert_eq!(
        Refusal::CompletionPort.error(Host::Epoll).message(),
        Some(
            "an I/O completion port cannot be waited on, so it cannot be \
             registered with an Epoll; on Windows an Epoll cannot be nested \
             inside another one the way an epoll fd can on Linux"
        )
    );
    assert!(Misuse::ManualReset.message(Host::Epoll).starts_with("Epoll requires auto-reset"));
    assert!(Misuse::Unverifiable.message(Host::Epoll).contains("EVENT_QUERY_STATE"));
}
