use vmm_sys_util::afd::{
    base_socket, device_name, nt_error, open, poll, try_ioctl, BaseSocket, PollInfo,
    IOCTL_AFD_POLL, POLL_ABORT, POLL_ACCEPT, POLL_ALWAYS, POLL_CONNECT, POLL_CONNECT_FAIL,
    POLL_DISCONNECT, POLL_LOCAL_CLOSE, POLL_RECEIVE, POLL_RECEIVE_EXPEDITED, POLL_SEND,
};
use vmm_sys_util::error::{Error, ErrorKind};
use windows_sys::Win32::Networking::WinSock::{
    SIO_BASE_HANDLE, SIO_BSP_HANDLE, SIO_BSP_HANDLE_POLL, SIO_BSP_HANDLE_SELECT,
};

#[test]
fn a_poll_asks_about_one_socket_without_a_timeout() {
    let info = PollInfo::new(0x30, POLL_RECEIVE | POLL_SEND);
    assert_eq!(info.timeout, i64::MAX);
    assert_eq!((info.number_of_handles, info.exclusive), (1, 0));
    assert_eq!(info.handles[0].handle, 0x30);
    assert_eq!(info.handles[0].events, 5);
    assert_eq!(info.handles[0].status, 0);
}

#[test]
fn the_poll_bits_are_those_of_the_driver() {
    let bits = [
        POLL_RECEIVE,
        POLL_RECEIVE_EXPEDITED,
        POLL_SEND,
        POLL_DISCONNECT,
        POLL_ABORT,
        POLL_LOCAL_CLOSE,
        POLL_CONNECT,
        POLL_ACCEPT,
        POLL_CONNECT_FAIL,
    ];
    for (i, bit) in bits.iter().enumerate() {
        assert_eq!(*bit, 1 << i);
    }
    assert_eq!(POLL_ALWAYS, POLL_ABORT | POLL_LOCAL_CLOSE | POLL_CONNECT_FAIL);
    assert_eq!(IOCTL_AFD_POLL, 0x0001_2024);
}

#[test]
fn the_device_is_named_by_its_path() {
    let name = device_name();
    assert_eq!(name.len(), 24);
    assert_eq!(String::from_utf16(&name).unwrap(), "\\Device\\Afd\\vmm-sys-util");
    assert_eq!(&name[..3], &[0x5c, 0x44, 0x65]);
}

#[test]
fn a_failed_status_is_reported_as_it_is() {
    let err = nt_error(0xC000_0034u32 as i32, "opening it");
    assert_eq!(err.kind(), Some(ErrorKind::Other));
    assert_eq!(err.message(), Some("opening it failed: NTSTATUS 0xc0000034"));
    assert_eq!(nt_error(1, "it").message(), Some("it failed: NTSTATUS 0x00000001"));
}

#[test]
fn opening_and_polling_fail_cleanly() {
    assert_eq!(open(0, 0x70).unwrap(), 0x70);
    let err = open(0xC000_0034u32 as i32, 0x70).unwrap_err();
    assert_eq!(err.message(), Some("opening \\Device\\Afd failed: NTSTATUS 0xc0000034"));
    assert_eq!(poll(0).unwrap(), true);
    assert_eq!(poll(0x103).unwrap(), false);
    let err = poll(0xC000_000Du32 as i32).unwrap_err();
    assert_eq!(err.message(), Some("IOCTL_AFD_POLL failed: NTSTATUS 0xc000000d"));
}

/// Search for the base socket of `socket`, with these answers in turn.
fn search(socket: usize, answers: [Option<usize>; 4]) -> (Vec<u32>, Result<usize, Error>) {
    let mut asked = Vec::new();
    let mut step = base_socket();
    for answer in answers {
        if let Some(ioctl) = step.ioctl() {
            asked.push(ioctl);
            let reply = match answer {
                Some(base) => try_ioctl(0, base, 0),
                None => try_ioctl(-1, 0, 10045),
            };
            step = step.next(socket, reply);
        }
    }
    assert_eq!(step.ioctl(), None);
    match step {
        BaseSocket::Done(result) => (asked, result),
        other => panic!("not over: {other:?}"),
    }
}

#[test]
fn the_base_socket_is_what_the_first_question_answers() {
    let (asked, base) = search(9, [Some(9), None, None, None]);
    assert_eq!(asked, vec![SIO_BASE_HANDLE]);
    assert_eq!(base.unwrap(), 9);
    assert_eq!(try_ioctl(-1, 0, 10045).unwrap_err().raw_os_error(), Some(10045));
}

#[test]
fn the_other_questions_count_only_for_another_socket() {
    let all = vec![SIO_BASE_HANDLE, SIO_BSP_HANDLE_SELECT, SIO_BSP_HANDLE_POLL, SIO_BSP_HANDLE];
    let (asked, base) = search(9, [None, Some(5), None, None]);
    assert_eq!(asked, all[..2].to_vec());
    assert_eq!(base.unwrap(), 5);
    let (asked, base) = search(9, [None, Some(9), Some(6), None]);
    assert_eq!(asked, all[..3].to_vec());
    assert_eq!(base.unwrap(), 6);
    let (asked, base) = search(9, [None, None, Some(9), Some(7)]);
    assert_eq!(asked, all);
    assert_eq!(base.unwrap(), 7);
    let (asked, base) = search(9, [None, Some(9), None, Some(9)]);
    assert_eq!(asked, all);
    let err = base.unwrap_err();
    assert_eq!(err.kind(), Some(ErrorKind::InvalidInput));
    assert_eq!(
        err.message(),
        Some("cannot find the base socket to poll; a layered service provider may be in the way")
    );
}
