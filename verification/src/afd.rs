//! Asking the Windows AFD driver whether a socket is ready.
//!
//! `\Device\Afd` is the layer under Winsock. It is not documented; every
//! failure here is an ordinary error that a caller can report.

use crate::error::{fails, Error, ErrorKind, ErrorView};
use crate::sys;
use crate::text::{fixed_digits_spell_their_number, hex_fixed, push_hex_fixed, spelled, spellings};
use crate::utf16;
use vstd::prelude::*;

verus! {

/// There is something to receive.
pub const POLL_RECEIVE: u32 = 0x1;

/// There is something urgent to receive.
pub const POLL_RECEIVE_EXPEDITED: u32 = 0x2;

/// There is room to send.
pub const POLL_SEND: u32 = 0x4;

/// The peer sends no more.
pub const POLL_DISCONNECT: u32 = 0x8;

/// The connection was aborted.
pub const POLL_ABORT: u32 = 0x10;

/// The socket was closed on this side.
pub const POLL_LOCAL_CLOSE: u32 = 0x20;

/// A connection was made.
pub const POLL_CONNECT: u32 = 0x40;

/// A connection is there to be accepted.
pub const POLL_ACCEPT: u32 = 0x80;

/// A connection could not be made.
pub const POLL_CONNECT_FAIL: u32 = 0x100;

/// What the driver reports whether or not it was asked for: an abort, a local
/// close and a failed connection.
pub const POLL_ALWAYS: u32 = 0x130;

/// The control code of a poll.
pub const IOCTL_AFD_POLL: u32 = 0x0001_2024;

/// One socket's entry in a poll request.
#[derive(Debug, Clone, Copy, PartialEq, Eq, Structural)]
pub struct PollHandleInfo {
    /// The base socket.
    pub handle: usize,
    /// What to ask for, and what came back.
    pub events: u32,
    /// The status that came back.
    pub status: i32,
}

/// A poll request about one socket, and the answer to it.
#[derive(Debug, Clone, Copy)]
pub struct PollInfo {
    /// In units of 100 nanoseconds, negative for a relative one; the largest
    /// number for none.
    pub timeout: i64,
    /// How many entries there are.
    pub number_of_handles: u32,
    /// Whether the poll replaces an earlier one.
    pub exclusive: u32,
    /// The entries.
    pub handles: [PollHandleInfo; 1],
}

impl PollInfo {
    /// A request about `handle` for `events`, with no timeout.
    pub fn new(handle: usize, events: u32) -> (r: PollInfo)
        ensures
            r.timeout == i64::MAX,
            r.number_of_handles == 1,
            r.exclusive == 0,
            r.handles@ == seq![PollHandleInfo { handle, events, status: 0 }],
    {
        let handles: [PollHandleInfo; 1] = [PollHandleInfo { handle, events, status: 0 }];
        assert(handles@ =~= seq![PollHandleInfo { handle, events, status: 0 }]);
        PollInfo { timeout: i64::MAX, number_of_handles: 1, exclusive: 0, handles }
    }
}

/// The path of the device. What follows `\Device\Afd` is free-form: it makes
/// the handle recognisable.
pub open spec fn device_path() -> Seq<char> {
    "\\Device\\Afd\\vmm-sys-util"@
}

/// The path of the device, as a counted string.
pub fn device_name() -> (r: Vec<u16>)
    ensures
        r@ == utf16::encoded(device_path()),
{
    utf16::encode("\\Device\\Afd\\vmm-sys-util")
}

/// What a failed call says, with its status as it came.
pub open spec fn nt_text(status: i32, doing: Seq<char>) -> Seq<char> {
    doing + " failed: NTSTATUS 0x"@ + hex_fixed((status as u32) as nat, 8)
}

/// The failure `status` of what was being attempted. The status is reported
/// as it is: these codes are no operating system errors.
pub fn nt_error(status: i32, doing: &str) -> (r: Error)
    ensures
        r@ == ErrorView::Custom(ErrorKind::Other, nt_text(status, doing@)),
{
    let mut text: String = doing.to_owned();
    text.append(" failed: NTSTATUS 0x");
    push_hex_fixed(&mut text, status as u32, 8);
    Error::Custom(ErrorKind::Other, text)
}

/// The device, from what `NtOpenFile` returned and the handle that it wrote.
pub fn open(status: i32, handle: usize) -> (r: Result<usize, Error>)
    ensures
        status == sys::status_success_value() ==> r == Ok::<usize, Error>(handle),
        status != sys::status_success_value() ==> fails(
            r,
            ErrorView::Custom(ErrorKind::Other, nt_text(status, "opening \\Device\\Afd"@)),
        ),
{
    if status != sys::status_success() {
        return Err(nt_error(status, "opening \\Device\\Afd"));
    }
    Ok(handle)
}

/// Whether the answer to a poll is there already, from what
/// `NtDeviceIoControlFile` returned. If not, the request is outstanding and
/// completes on the port that the device is associated with.
pub fn poll(status: i32) -> (r: Result<bool, Error>)
    ensures
        status == sys::status_success_value() ==> r == Ok::<bool, Error>(true),
        status == sys::status_pending_value() ==> r == Ok::<bool, Error>(false),
        status != sys::status_success_value() && status != sys::status_pending_value() ==> fails(
            r,
            ErrorView::Custom(ErrorKind::Other, nt_text(status, "IOCTL_AFD_POLL"@)),
        ),
{
    if status == sys::status_success() {
        Ok(true)
    } else if status == sys::status_pending() {
        Ok(false)
    } else {
        Err(nt_error(status, "IOCTL_AFD_POLL"))
    }
}

/// The socket that a control call answered with, from what `WSAIoctl` returned
/// and wrote.
pub fn try_ioctl(ret: i32, base: usize, last_error: i32) -> (r: Result<usize, Error>)
    ensures
        ret == sys::socket_error_value() ==> fails(r, ErrorView::Os(last_error)),
        ret != sys::socket_error_value() ==> r == Ok::<usize, Error>(base),
{
    if ret == sys::socket_error() {
        return Err(Error::Os(last_error));
    }
    Ok(base)
}

/// Where the search for the base socket stands. A layered service provider can
/// sit in front of a socket, and one is known to break the first question, so
/// three others follow.
#[derive(Debug)]
pub enum BaseSocket {
    /// Ask `SIO_BASE_HANDLE`.
    Base,
    /// Ask `SIO_BSP_HANDLE_SELECT`.
    Select,
    /// Ask `SIO_BSP_HANDLE_POLL`.
    Poll,
    /// Ask `SIO_BSP_HANDLE`.
    Provider,
    /// It is over, with this result.
    Done(Result<usize, Error>),
}

/// The failure of the search.
pub open spec fn no_base_socket() -> ErrorView {
    ErrorView::Custom(
        ErrorKind::InvalidInput,
        "cannot find the base socket to poll; a layered service provider may be in the way"@,
    )
}

/// Whether `answer` is one of the later answers that counts: a socket that is
/// not the one asked about.
pub open spec fn counts(socket: usize, answer: Result<usize, Error>) -> bool {
    answer matches Ok(base) && base != socket
}

impl BaseSocket {
    /// The control code of the question, if there is one left.
    pub fn ioctl(&self) -> (r: Option<u32>)
        ensures
            r == match *self {
                BaseSocket::Base => Some(sys::sio_base_handle_value()),
                BaseSocket::Select => Some(sys::sio_bsp_handle_select_value()),
                BaseSocket::Poll => Some(sys::sio_bsp_handle_poll_value()),
                BaseSocket::Provider => Some(sys::sio_bsp_handle_value()),
                BaseSocket::Done(_) => None,
            },
    {
        match self {
            BaseSocket::Base => Some(sys::sio_base_handle()),
            BaseSocket::Select => Some(sys::sio_bsp_handle_select()),
            BaseSocket::Poll => Some(sys::sio_bsp_handle_poll()),
            BaseSocket::Provider => Some(sys::sio_bsp_handle()),
            BaseSocket::Done(_) => None,
        }
    }
}

/// Whether `r` is over, with the base socket that was answered.
pub open spec fn found(r: BaseSocket, answer: Result<usize, Error>) -> bool {
    r matches BaseSocket::Done(result) && result is Ok && result == answer
}

/// Begin the search for the socket that the driver knows.
pub fn base_socket() -> (r: BaseSocket)
    ensures
        r == BaseSocket::Base,
{
    BaseSocket::Base
}

/// What follows on an answer about `socket`.
pub open spec fn search_follows(
    step: BaseSocket,
    socket: usize,
    answer: Result<usize, Error>,
    r: BaseSocket,
) -> bool {
    match step {
        BaseSocket::Base => if answer is Ok {
            found(r, answer)
        } else {
            r == BaseSocket::Select
        },
        BaseSocket::Select => if counts(socket, answer) {
            found(r, answer)
        } else {
            r == BaseSocket::Poll
        },
        BaseSocket::Poll => if counts(socket, answer) {
            found(r, answer)
        } else {
            r == BaseSocket::Provider
        },
        BaseSocket::Provider => if counts(socket, answer) {
            found(r, answer)
        } else {
            r matches BaseSocket::Done(result) && fails(result, no_base_socket())
        },
        BaseSocket::Done(_) => r == step,
    }
}

impl BaseSocket {
    /// Take the answer about `socket` to the question that `self` is.
    pub fn next(self, socket: usize, answer: Result<usize, Error>) -> (r: BaseSocket)
        ensures
            search_follows(self, socket, answer, r),
    {
        match self {
            BaseSocket::Base => match answer {
                Ok(base) => BaseSocket::Done(Ok(base)),
                Err(_) => BaseSocket::Select,
            },
            BaseSocket::Select => match answer {
                Ok(base) if base != socket => BaseSocket::Done(Ok(base)),
                _ => BaseSocket::Poll,
            },
            BaseSocket::Poll => match answer {
                Ok(base) if base != socket => BaseSocket::Done(Ok(base)),
                _ => BaseSocket::Provider,
            },
            BaseSocket::Provider => match answer {
                Ok(base) if base != socket => BaseSocket::Done(Ok(base)),
                _ => BaseSocket::Done(
                    Err(
                        Error::new(
                            ErrorKind::InvalidInput,
                            "cannot find the base socket to poll; a layered service provider may be in the way",
                        ),
                    ),
                ),
            },
            done => done,
        }
    }
}

/// Four questions end the search. The first answer is taken as it is; of the
/// others, the first that is a socket other than the one asked about; and if
/// there is none, the search fails.
pub proof fn four_questions_end_the_search(
    socket: usize,
    a: Result<usize, Error>,
    b: Result<usize, Error>,
    c: Result<usize, Error>,
    d: Result<usize, Error>,
    s1: BaseSocket,
    s2: BaseSocket,
    s3: BaseSocket,
    s4: BaseSocket,
)
    requires
        search_follows(BaseSocket::Base, socket, a, s1),
        search_follows(s1, socket, b, s2),
        search_follows(s2, socket, c, s3),
        search_follows(s3, socket, d, s4),
    ensures
        if a is Ok {
            found(s4, a)
        } else if counts(socket, b) {
            found(s4, b)
        } else if counts(socket, c) {
            found(s4, c)
        } else if counts(socket, d) {
            found(s4, d)
        } else {
            s4 matches BaseSocket::Done(result) && fails(result, no_base_socket())
        },
{
}

/// The device's name is a plain counted string of 24 code units.
pub proof fn the_device_name_has_24_units()
    ensures
        utf16::encoded(device_path()).len() == 24,
{
    reveal_strlit("\\Device\\Afd\\vmm-sys-util");
    lemma_plain_text_has_one_unit_each(device_path());
}

proof fn lemma_plain_text_has_one_unit_each(text: Seq<char>)
    requires
        forall|i: int| 0 <= i < text.len() ==> (#[trigger] text[i] as u32) < 0x80,
    ensures
        utf16::encoded(text).len() == text.len(),
    decreases text.len(),
{
    if text.len() > 0 {
        lemma_plain_text_has_one_unit_each(text.drop_last());
    }
}

/// A request asks about one socket, once, for what was asked, and without an
/// end.
pub proof fn a_request_asks_about_one_socket(handle: usize, events: u32, r: PollInfo)
    requires
        call_ensures(PollInfo::new, (handle, events), r),
    ensures
        r.number_of_handles == 1,
        r.handles@.len() == 1,
        r.handles@[0].handle == handle,
        r.handles@[0].events == events,
        r.handles@[0].status == 0,
        r.timeout == 0x7FFF_FFFF_FFFF_FFFF,
        r.exclusive == 0,
{
}

/// The device's name reads as its path, character by character.
pub proof fn the_device_name_reads_as_its_path(r: Vec<u16>)
    requires
        call_ensures(device_name, (), r),
    ensures
        utf16::decoded(r@) == "\\Device\\Afd\\vmm-sys-util"@,
        r@.len() == 24,
{
    utf16::decoding_undoes_encoding(device_path());
    the_device_name_has_24_units();
}

/// Whether `text` says that `doing` failed, and spells the status in eight
/// digits.
pub open spec fn reports_status(text: Seq<char>, doing: Seq<char>, status: i32) -> bool {
    let head = doing + " failed: NTSTATUS 0x"@;
    &&& text.len() == head.len() + 8
    &&& text.take(head.len() as int) == head
    &&& spelled(text.skip(head.len() as int)) == if status < 0 {
        status + 0x1_0000_0000
    } else {
        status as int
    }
}

proof fn lemma_a_status_is_spelled(status: i32, doing: Seq<char>)
    ensures
        reports_status(nt_text(status, doing), doing, status),
{
    let head = doing + " failed: NTSTATUS 0x"@;
    let number = (status as u32) as nat;
    fixed_digits_spell_their_number(number, 8);
    assert(spellings(8) == 0x1_0000_0000) by {
        reveal_with_fuel(spellings, 9);
    }
    assert(nt_text(status, doing).take(head.len() as int) =~= head);
    assert(nt_text(status, doing).skip(head.len() as int) =~= hex_fixed(number, 8));
    assert(status >= 0 ==> status as u32 == status) by (bit_vector);
    assert(status < 0 ==> status as u32 == status + 0x1_0000_0000) by (bit_vector);
}

/// A status other than the expected ones is reported in words, with what was
/// being attempted and its number.
pub proof fn a_status_is_reported_as_it_came(
    status: i32,
    doing: &str,
    handle: usize,
    n: Error,
    o: Result<usize, Error>,
    p: Result<bool, Error>,
)
    requires
        call_ensures(nt_error, (status, doing), n),
        call_ensures(open, (status, handle), o),
        call_ensures(poll, (status,), p),
    ensures
        n@ matches ErrorView::Custom(kind, text) && kind == ErrorKind::Other && reports_status(
            text,
            doing@,
            status,
        ),
        match o {
            Ok(opened) => status == 0 && opened == handle,
            Err(e) => status != 0 && (e@ matches ErrorView::Custom(kind, text) && kind
                == ErrorKind::Other && reports_status(text, "opening \\Device\\Afd"@, status)),
        },
        match p {
            Ok(there) => if there {
                status == 0
            } else {
                status == 259
            },
            Err(e) => status != 0 && status != 259 && (e@ matches ErrorView::Custom(kind, text)
                && kind == ErrorKind::Other && reports_status(text, "IOCTL_AFD_POLL"@, status)),
        },
{
    lemma_a_status_is_spelled(status, doing@);
    lemma_a_status_is_spelled(status, "opening \\Device\\Afd"@);
    lemma_a_status_is_spelled(status, "IOCTL_AFD_POLL"@);
}

/// A control call answers with a socket unless it failed, and each question has
/// its own control code.
pub proof fn each_question_has_its_code(
    ret: i32,
    base: usize,
    last_error: i32,
    a: Result<usize, Error>,
    question: &BaseSocket,
    code: Option<u32>,
    first: BaseSocket,
)
    requires
        call_ensures(try_ioctl, (ret, base, last_error), a),
        call_ensures(BaseSocket::ioctl, (question,), code),
        call_ensures(base_socket, (), first),
    ensures
        first == BaseSocket::Base,
        match a {
            Ok(answer) => ret != -1i32 && answer == base,
            Err(e) => ret == -1i32 && e@ == ErrorView::Os(last_error),
        },
        code is None <==> *question is Done,
        *question is Base ==> code == Some(0x4800_0022u32),
        *question is Select ==> code == Some(0x4800_001Cu32),
        *question is Poll ==> code == Some(0x4800_001Du32),
        *question is Provider ==> code == Some(0x4800_001Bu32),
{
}

/// How the search goes on, question by question: the first answer that is a
/// socket ends it, but for the later questions only if that is another socket
/// than the one asked about.
pub proof fn the_search_ends_with_another_socket(
    step: BaseSocket,
    socket: usize,
    answer: Result<usize, Error>,
    r: BaseSocket,
)
    requires
        call_ensures(BaseSocket::next, (step, socket, answer), r),
    ensures
        step is Base ==> match answer {
            Ok(base) => r == BaseSocket::Done(Ok::<usize, Error>(base)),
            Err(_) => r == BaseSocket::Select,
        },
        step is Select || step is Poll || step is Provider ==> (answer matches Ok(base) ==> (base
            != socket <==> r == BaseSocket::Done(Ok::<usize, Error>(base)))),
        step is Select && !(answer matches Ok(base) && base != socket) ==> r == BaseSocket::Poll,
        step is Poll && !(answer matches Ok(base) && base != socket) ==> r == BaseSocket::Provider,
        step is Provider && !(answer matches Ok(base) && base != socket) ==> (
        r matches BaseSocket::Done(Err(e)) && e@ == ErrorView::Custom(
            ErrorKind::InvalidInput,
            "cannot find the base socket to poll; a layered service provider may be in the way"@,
        )),
        step is Done ==> r == step,
{
}

} // verus!
