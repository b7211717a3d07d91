//! Whether a handle can be waited on by the thread pool.
//!
//! Registering a wait on a handle that cannot be waited on does not fail: the
//! thread pool accepts it and the process dies later. So a loop asks about the
//! handle first. [`Probe`] is that conversation: each value is either the next
//! question to put to the kernel or the verdict.

use crate::error::{Error, ErrorKind, ErrorView};
use crate::utf16;
use vstd::prelude::*;

verus! {

/// How many bytes an object's type description may take.
pub const TYPE_BUFFER_LEN: usize = 512;

/// The longest type name that is looked at, in code units.
pub const NAME_LIMIT: usize = 64;

/// The `NtQueryEvent` answer for "this event is auto-reset".
pub const SYNCHRONIZATION_EVENT: i32 = 1;

/// The `NtQueryEvent` status for an event held without the right to query it.
pub const STATUS_ACCESS_DENIED: i32 = -1073741790;

/// Which loop asks, for the wording of a refusal.
#[derive(Debug, Clone, Copy, PartialEq, Eq, Structural)]
pub enum Host {
    /// An [`Epoll`](crate::epoll::Epoll).
    Epoll,
    /// A [`Port`](crate::completion::Port).
    Port,
}

/// Why a handle cannot be registered.
#[derive(Debug, Clone, Copy, PartialEq, Eq, Structural)]
pub enum Refusal {
    /// It names nothing.
    NotAHandle,
    /// It names a completion port, which is never signalled.
    CompletionPort,
}

/// A programming error that debug builds catch when a handle is registered.
#[derive(Debug, Clone, Copy, PartialEq, Eq, Structural)]
pub enum Misuse {
    /// The event stays signalled, so a persistent wait would fire for ever.
    ManualReset,
    /// The handle is an event whose reset mode it gives no right to ask for.
    Unverifiable,
}

/// What comes next in finding out about a handle.
#[derive(Debug, Clone, Copy, PartialEq, Eq, Structural)]
pub enum Probe {
    /// Call `GetHandleInformation`.
    Information,
    /// Call `NtQueryObject` for the object's type.
    ObjectType,
    /// Read the `length` code units at `pointer`: the name of the type.
    ObjectName {
        /// Where the name is.
        pointer: usize,
        /// How many code units it has.
        length: usize,
    },
    /// Call `NtQueryEvent` for the event's reset mode.
    EventMode,
    /// The handle can be registered.
    Waitable,
    /// The handle is refused.
    Refused(Refusal),
    /// The handle is one that a debug build does not let pass.
    Misused(Misuse),
}

/// What the kernel answered.
#[derive(Debug)]
pub enum Answer {
    /// Whether `GetHandleInformation` succeeded.
    Information(bool),
    /// What `NtQueryObject` returned and wrote.
    ObjectType {
        /// Its status.
        status: i32,
        /// The type description: a counted string's length, its capacity and
        /// its address, then the string.
        buffer: [u8; TYPE_BUFFER_LEN],
    },
    /// The code units of the type's name.
    ObjectName(Vec<u16>),
    /// What `NtQueryEvent` returned and wrote.
    EventMode {
        /// Its status.
        status: i32,
        /// The event's reset mode.
        event_type: i32,
    },
}

/// The number that bytes spell, the lowest first.
pub open spec fn le_value(bytes: Seq<u8>) -> nat
    decreases bytes.len(),
{
    if bytes.len() == 0 {
        0
    } else {
        bytes[0] as nat + 256 * le_value(bytes.skip(1))
    }
}

spec fn le_bound(count: nat) -> nat
    decreases count,
{
    if count == 0 {
        1
    } else {
        256 * le_bound((count - 1) as nat)
    }
}

/// The `count` bytes at `at`, read as a number.
fn le_read(bytes: &[u8], at: usize, count: usize) -> (r: u64)
    requires
        count <= 8,
        at + count <= bytes@.len() <= TYPE_BUFFER_LEN,
    ensures
        r == le_value(bytes@.subrange(at as int, at + count)),
        r < le_bound(count as nat),
    decreases count,
{
    let ghost here = bytes@.subrange(at as int, at + count);
    if count == 0 {
        0
    } else {
        let rest: u64 = le_read(bytes, at + 1, count - 1);
        proof {
            assert(here.skip(1) =~= bytes@.subrange(at + 1, at + count));
            assert(le_bound(count as nat) <= 0x1_0000_0000_0000_0000) by {
                reveal_with_fuel(le_bound, 9);
            }
        }
        bytes[at] as u64 + 256 * rest
    }
}

/// The width of an address in bytes.
pub open spec fn word() -> int {
    if usize::BITS == 64 {
        8
    } else {
        4
    }
}

/// How many code units the type's name has, from the type description.
pub open spec fn name_length(buffer: Seq<u8>) -> nat {
    le_value(buffer.subrange(0, 2)) / 2
}

/// Where the type's name is, from the type description.
pub open spec fn name_pointer(buffer: Seq<u8>) -> nat {
    le_value(buffer.subrange(word(), 2 * word()))
}

/// What follows once nothing speaks against the object's type: debug builds
/// look at an event's reset mode, other builds are done.
pub open spec fn type_passed(debug: bool) -> Probe {
    if debug {
        Probe::EventMode
    } else {
        Probe::Waitable
    }
}

/// What follows on an answer. An answer to another question changes nothing.
pub open spec fn next_probe(probe: Probe, debug: bool, answer: Answer) -> Probe {
    match (probe, answer) {
        (Probe::Information, Answer::Information(valid)) => if valid {
            Probe::ObjectType
        } else {
            Probe::Refused(Refusal::NotAHandle)
        },
        (Probe::ObjectType, Answer::ObjectType { status, buffer }) => if status < 0
            || name_pointer(buffer@) == 0 || name_length(buffer@) == 0 || name_length(buffer@)
            > NAME_LIMIT {
            type_passed(debug)
        } else {
            Probe::ObjectName {
                pointer: name_pointer(buffer@) as usize,
                length: name_length(buffer@) as usize,
            }
        },
        (Probe::ObjectName { .. }, Answer::ObjectName(name)) => if utf16::decoded(name@)
            == "IoCompletion"@ {
            Probe::Refused(Refusal::CompletionPort)
        } else {
            type_passed(debug)
        },
        (Probe::EventMode, Answer::EventMode { status, event_type }) => if status
            == STATUS_ACCESS_DENIED {
            Probe::Misused(Misuse::Unverifiable)
        } else if status == 0 && event_type != SYNCHRONIZATION_EVENT {
            Probe::Misused(Misuse::ManualReset)
        } else {
            Probe::Waitable
        },
        _ => probe,
    }
}

impl Probe {
    /// The first question about a handle.
    pub fn start() -> (r: Probe)
        ensures
            r == Probe::Information,
    {
        Probe::Information
    }

    /// Take the kernel's answer to the question that `self` is. `debug` says
    /// whether reset modes are looked at.
    pub fn next(self, debug: bool, answer: Answer) -> (r: Probe)
        ensures
            r == next_probe(self, debug, answer),
    {
        match (self, answer) {
            (Probe::Information, Answer::Information(valid)) => if valid {
                Probe::ObjectType
            } else {
                Probe::Refused(Refusal::NotAHandle)
            },
            (Probe::ObjectType, Answer::ObjectType { status, buffer }) => reject_unwaitable_type(
                debug,
                status,
                &buffer,
            ),
            (Probe::ObjectName { .. }, Answer::ObjectName(name)) => reject_unwaitable_name(
                debug,
                &name,
            ),
            (Probe::EventMode, Answer::EventMode { status, event_type }) => debug_check_auto_reset(
                status,
                event_type,
            ),
            _ => self,
        }
    }

    /// Whether `self` is a verdict, with no question left.
    pub fn is_verdict(&self) -> (r: bool)
        ensures
            r == (*self is Waitable || *self is Refused || *self is Misused),
    {
        matches!(*self, Probe::Waitable | Probe::Refused(_) | Probe::Misused(_))
    }
}

fn passed(debug: bool) -> (r: Probe)
    ensures
        r == type_passed(debug),
{
    if debug {
        Probe::EventMode
    } else {
        Probe::Waitable
    }
}

/// What the type description says of the object's name. A failed query and a
/// name that is missing or too long let the handle pass, rather than refuse
/// one that may well be waitable.
fn reject_unwaitable_type(debug: bool, status: i32, buffer: &[u8; TYPE_BUFFER_LEN]) -> (r: Probe)
    ensures
        status < 0 || name_pointer(buffer@) == 0 || name_length(buffer@) == 0 || name_length(
            buffer@,
        ) > NAME_LIMIT ==> r == type_passed(debug),
        status >= 0 && name_pointer(buffer@) != 0 && 0 < name_length(buffer@) <= NAME_LIMIT ==> r
            == (Probe::ObjectName {
            pointer: name_pointer(buffer@) as usize,
            length: name_length(buffer@) as usize,
        }),
{
    if status < 0 {
        return passed(debug);
    }
    let bytes: &[u8] = vstd::array::array_as_slice(buffer);
    let length: u64 = le_read(bytes, 0, 2) / 2;
    let width: usize = if usize::BITS == 64 {
        8
    } else {
        4
    };
    let pointer: u64 = le_read(bytes, width, width);
    if pointer == 0 || length == 0 || length > NAME_LIMIT as u64 {
        return passed(debug);
    }
    Probe::ObjectName { pointer: pointer as usize, length: length as usize }
}

/// Whether the object's type is the one that is never signalled.
fn reject_unwaitable_name(debug: bool, name: &Vec<u16>) -> (r: Probe)
    ensures
        r == if utf16::decoded(name@) == "IoCompletion"@ {
            Probe::Refused(Refusal::CompletionPort)
        } else {
            type_passed(debug)
        },
{
    let text: String = utf16::decode(name.as_slice());
    if text == "IoCompletion".to_owned() {
        Probe::Refused(Refusal::CompletionPort)
    } else {
        passed(debug)
    }
}

/// Whether an event's reset mode lets it be waited on for ever. A query that
/// fails for any reason but the lack of access means some other waitable.
fn debug_check_auto_reset(status: i32, event_type: i32) -> (r: Probe)
    ensures
        r == next_probe(Probe::EventMode, true, Answer::EventMode { status, event_type }),
{
    if status == STATUS_ACCESS_DENIED {
        Probe::Misused(Misuse::Unverifiable)
    } else if status == 0 && event_type != SYNCHRONIZATION_EVENT {
        Probe::Misused(Misuse::ManualReset)
    } else {
        Probe::Waitable
    }
}

/// The words of a refusal.
pub open spec fn refusal_text(refusal: Refusal, host: Host) -> Seq<char> {
    match (refusal, host) {
        (
            Refusal::NotAHandle,
            Host::Epoll,
        ) => "not a valid handle, so it cannot be registered with an Epoll"@,
        (
            Refusal::NotAHandle,
            Host::Port,
        ) => "not a valid handle, so it cannot be registered with a Port"@,
        (
            Refusal::CompletionPort,
            Host::Epoll,
        ) => "an I/O completion port cannot be waited on, so it cannot be registered with an Epoll; on Windows an Epoll cannot be nested inside another one the way an epoll fd can on Linux"@,
        (
            Refusal::CompletionPort,
            Host::Port,
        ) => "an I/O completion port cannot be waited on, so it cannot be registered with a Port; a Port cannot be nested inside another the way an epoll fd can on Linux"@,
    }
}

impl Refusal {
    /// The error that a loop reports for a refused handle.
    pub fn error(self, host: Host) -> (r: Error)
        ensures
            r@ == ErrorView::Custom(ErrorKind::InvalidInput, refusal_text(self, host)),
    {
        let text: &str = match (self, host) {
            (
                Refusal::NotAHandle,
                Host::Epoll,
            ) => "not a valid handle, so it cannot be registered with an Epoll",
            (
                Refusal::NotAHandle,
                Host::Port,
            ) => "not a valid handle, so it cannot be registered with a Port",
            (
                Refusal::CompletionPort,
                Host::Epoll,
            ) => "an I/O completion port cannot be waited on, so it cannot be registered with an Epoll; on Windows an Epoll cannot be nested inside another one the way an epoll fd can on Linux",
            (
                Refusal::CompletionPort,
                Host::Port,
            ) => "an I/O completion port cannot be waited on, so it cannot be registered with a Port; a Port cannot be nested inside another the way an epoll fd can on Linux",
        };
        Error::new(ErrorKind::InvalidInput, text)
    }
}

/// What a debug build says of a misused handle.
pub open spec fn misuse_text(misuse: Misuse, host: Host) -> Seq<char> {
    match (misuse, host) {
        (
            Misuse::ManualReset,
            Host::Epoll,
        ) => "Epoll requires auto-reset events; a manual-reset event stays signaled and would fire its persistent wait continuously"@,
        (
            Misuse::ManualReset,
            Host::Port,
        ) => "Port requires auto-reset events; a manual-reset event stays signaled and would fire its persistent wait continuously"@,
        (
            Misuse::Unverifiable,
            Host::Epoll,
        ) => "Epoll cannot verify this event's reset mode: the handle lacks EVENT_QUERY_STATE; it must be granted when the handle is created or duplicated"@,
        (
            Misuse::Unverifiable,
            Host::Port,
        ) => "Port cannot verify this event's reset mode: the handle lacks EVENT_QUERY_STATE; it must be granted when the handle is created or duplicated"@,
    }
}

impl Misuse {
    /// The message that a debug build panics with.
    pub fn message(self, host: Host) -> (r: &'static str)
        ensures
            r@ == misuse_text(self, host),
    {
        match (self, host) {
            (
                Misuse::ManualReset,
                Host::Epoll,
            ) => "Epoll requires auto-reset events; a manual-reset event stays signaled and would fire its persistent wait continuously",
            (
                Misuse::ManualReset,
                Host::Port,
            ) => "Port requires auto-reset events; a manual-reset event stays signaled and would fire its persistent wait continuously",
            (
                Misuse::Unverifiable,
                Host::Epoll,
            ) => "Epoll cannot verify this event's reset mode: the handle lacks EVENT_QUERY_STATE; it must be granted when the handle is created or duplicated",
            (
                Misuse::Unverifiable,
                Host::Port,
            ) => "Port cannot verify this event's reset mode: the handle lacks EVENT_QUERY_STATE; it must be granted when the handle is created or duplicated",
        }
    }
}

/// Everything that a handle can be asked about.
pub struct Facts {
    /// Whether it names anything.
    pub valid: bool,
    /// The status of the query for its type.
    pub type_status: i32,
    /// The description of its type.
    pub description: [u8; TYPE_BUFFER_LEN],
    /// The name of its type.
    pub name: Vec<u16>,
    /// The status of the query for its reset mode.
    pub mode_status: i32,
    /// Its reset mode.
    pub mode: i32,
}

impl Facts {
    /// The answer to a question.
    pub open spec fn answer(self, probe: Probe) -> Answer {
        match probe {
            Probe::Information => Answer::Information(self.valid),
            Probe::ObjectType => Answer::ObjectType {
                status: self.type_status,
                buffer: self.description,
            },
            Probe::ObjectName { .. } => Answer::ObjectName(self.name),
            _ => Answer::EventMode { status: self.mode_status, event_type: self.mode },
        }
    }

    /// The probe once `count` more questions have been asked.
    pub open spec fn asked(self, probe: Probe, debug: bool, count: nat) -> Probe
        decreases count,
    {
        if count == 0 {
            probe
        } else {
            let before = self.asked(probe, debug, (count - 1) as nat);
            next_probe(before, debug, self.answer(before))
        }
    }

    /// Whether the description of the type names a type that can be looked at.
    pub open spec fn named(self) -> bool {
        self.type_status >= 0 && name_pointer(self.description@) != 0 && 0 < name_length(
            self.description@,
        ) <= NAME_LIMIT
    }

    /// Whether the handle is known to name a completion port.
    pub open spec fn is_port(self) -> bool {
        self.named() && utf16::decoded(self.name@) == "IoCompletion"@
    }

    /// What a handle with these facts comes to.
    pub open spec fn verdict(self, debug: bool) -> Probe {
        if !self.valid {
            Probe::Refused(Refusal::NotAHandle)
        } else if self.is_port() {
            Probe::Refused(Refusal::CompletionPort)
        } else if debug && self.mode_status == STATUS_ACCESS_DENIED {
            Probe::Misused(Misuse::Unverifiable)
        } else if debug && self.mode_status == 0 && self.mode != SYNCHRONIZATION_EVENT {
            Probe::Misused(Misuse::ManualReset)
        } else {
            Probe::Waitable
        }
    }
}

/// Four questions decide on any handle: one that names nothing and a completion
/// port are refused; with reset modes looked at, so is an event that is known
/// not to be auto-reset or cannot be asked; anything else can be waited on.
pub proof fn four_questions_decide(facts: Facts, debug: bool)
    ensures
        facts.asked(Probe::Information, debug, 4) == facts.verdict(debug),
{
    reveal_with_fuel(Facts::asked, 5);
}

/// A verdict is final: no answer changes it.
pub proof fn a_verdict_is_final(probe: Probe, debug: bool, answer: Answer)
    requires
        probe is Waitable || probe is Refused || probe is Misused,
    ensures
        next_probe(probe, debug, answer) == probe,
{
}

/// A completion port is refused wherever it is registered, whether or not
/// reset modes are looked at.
pub proof fn a_completion_port_is_never_waitable(facts: Facts, debug: bool)
    requires
        facts.valid,
        facts.is_port(),
    ensures
        facts.asked(Probe::Information, debug, 4) == Probe::Refused(Refusal::CompletionPort),
{
    four_questions_decide(facts, debug);
}

/// What each answer leads to, question by question: a handle that names nothing
/// is refused; one whose type has a name is asked for it; one whose type is that
/// of completion ports is refused; and the reset mode is asked for only where
/// that is looked at.
pub proof fn each_answer_leads_to_the_next_question(
    probe: Probe,
    debug: bool,
    answer: Answer,
    r: Probe,
)
    requires
        call_ensures(Probe::next, (probe, debug, answer), r),
    ensures
        r == next_probe(probe, debug, answer),
        probe is Information ==> (answer matches Answer::Information(valid) ==> if valid {
            r == Probe::ObjectType
        } else {
            r == Probe::Refused(Refusal::NotAHandle)
        }),
        probe is ObjectName ==> (answer matches Answer::ObjectName(name) ==> if utf16::decoded(
            name@,
        ) == "IoCompletion"@ {
            r == Probe::Refused(Refusal::CompletionPort)
        } else if debug {
            r == Probe::EventMode
        } else {
            r == Probe::Waitable
        }),
        probe is EventMode ==> (answer matches Answer::EventMode { status, event_type } ==> {
            &&& r == Probe::Misused(Misuse::Unverifiable) <==> status == -1073741790i32
            &&& r == Probe::Misused(Misuse::ManualReset) <==> status == 0 && event_type != 1
            &&& r == Probe::Waitable <==> status != -1073741790i32 && (status != 0 || event_type
                == 1)
        }),
        probe is Waitable || probe is Refused || probe is Misused ==> r == probe,
        match (probe, answer) {
            (Probe::Information, Answer::Information(_)) => true,
            (Probe::ObjectType, Answer::ObjectType { .. }) => true,
            (Probe::ObjectName { .. }, Answer::ObjectName(_)) => true,
            (Probe::EventMode, Answer::EventMode { .. }) => true,
            _ => r == probe,
        },
{
}

/// The name of a type is asked for where its description says that it is, in as
/// many code units as it says, which is half the number that its first two bytes
/// spell. A description that could not be had, one without a name, and one whose
/// name has more than 64 units let the handle pass.
pub proof fn a_type_is_asked_for_its_name_where_that_is(
    debug: bool,
    status: i32,
    buffer: [u8; TYPE_BUFFER_LEN],
    r: Probe,
)
    requires
        call_ensures(
            Probe::next,
            (Probe::ObjectType, debug, Answer::ObjectType { status, buffer }),
            r,
        ),
    ensures
        ({
            let units = (buffer@[0] + 256 * buffer@[1]) / 2;
            let low = buffer@[4] + 0x100 * buffer@[5] + 0x1_0000 * buffer@[6] + 0x100_0000
                * buffer@[7];
            let wide = buffer@[8] + 0x100 * buffer@[9] + 0x1_0000 * buffer@[10] + 0x100_0000
                * buffer@[11] + 0x1_0000_0000 * buffer@[12] + 0x100_0000_0000 * buffer@[13]
                + 0x1_0000_0000_0000 * buffer@[14] + 0x100_0000_0000_0000 * buffer@[15];
            let address = if usize::BITS == 64 {
                wide
            } else {
                low
            };
            if status < 0 || address == 0 || units == 0 || units > 64 {
                r == if debug {
                    Probe::EventMode
                } else {
                    Probe::Waitable
                }
            } else {
                r matches Probe::ObjectName { pointer, length } && pointer == address && length
                    == units
            }
        }),
{
    let b = buffer@;
    reveal_with_fuel(le_value, 9);
    assert(b.len() == TYPE_BUFFER_LEN);
    let two = b.subrange(0, 2);
    assert(two.skip(1).skip(1) =~= seq![]);
    assert(le_value(two) == b[0] + 256 * b[1]);
    let four = b.subrange(4, 8);
    assert(four.skip(1).skip(1).skip(1).skip(1) =~= seq![]);
    assert(le_value(four) == b[4] + 0x100 * b[5] + 0x1_0000 * b[6] + 0x100_0000 * b[7]);
    lemma_le_value_of_eight(b.subrange(8, 16));
}

proof fn lemma_le_value_of_eight(b: Seq<u8>)
    requires
        b.len() == 8,
    ensures
        le_value(b) == b[0] + 0x100 * b[1] + 0x1_0000 * b[2] + 0x100_0000 * b[3] + 0x1_0000_0000
            * b[4] + 0x100_0000_0000 * b[5] + 0x1_0000_0000_0000 * b[6] + 0x100_0000_0000_0000
            * b[7],
{
    let half = b.skip(1).skip(1).skip(1).skip(1);
    reveal_with_fuel(le_value, 5);
    assert(half.skip(1).skip(1).skip(1).skip(1) =~= seq![]);
    assert(le_value(half) == b[4] + 0x100 * b[5] + 0x1_0000 * b[6] + 0x100_0000 * b[7]);
    assert(le_value(b) == b[0] + 0x100 * b[1] + 0x1_0000 * b[2] + 0x100_0000 * b[3]
        + 0x1_0000_0000 * le_value(half));
}

/// Only a verdict ends the questions, and the first question is whether the
/// handle names anything.
pub proof fn a_verdict_leaves_no_question(first: Probe, probe: &Probe, r: bool)
    requires
        call_ensures(Probe::start, (), first),
        call_ensures(Probe::is_verdict, (probe,), r),
    ensures
        first == Probe::Information,
        r <==> *probe == Probe::Waitable || *probe is Refused || *probe is Misused,
{
}

/// A refusal is an invalid input, and it names the loop that refused.
pub proof fn a_refusal_names_its_loop(refusal: Refusal, host: Host, r: Error)
    requires
        call_ensures(Refusal::error, (refusal, host), r),
    ensures
        r@ == ErrorView::Custom(
            ErrorKind::InvalidInput,
            match refusal {
                Refusal::NotAHandle => match host {
                    Host::Epoll => "not a valid handle, so it cannot be registered with an Epoll"@,
                    Host::Port => "not a valid handle, so it cannot be registered with a Port"@,
                },
                Refusal::CompletionPort => match host {
                    Host::Epoll =>
                        "an I/O completion port cannot be waited on, so it cannot be registered with an Epoll; on Windows an Epoll cannot be nested inside another one the way an epoll fd can on Linux"@,
                    Host::Port =>
                        "an I/O completion port cannot be waited on, so it cannot be registered with a Port; a Port cannot be nested inside another the way an epoll fd can on Linux"@,
                },
            },
        ),
{
}

/// What a debug build says of a misused handle names the loop and what is wrong.
pub proof fn a_misuse_names_its_loop(misuse: Misuse, host: Host, r: &'static str)
    requires
        call_ensures(Misuse::message, (misuse, host), r),
    ensures
        r@ == match misuse {
            Misuse::ManualReset => match host {
                Host::Epoll =>
                    "Epoll requires auto-reset events; a manual-reset event stays signaled and would fire its persistent wait continuously"@,
                Host::Port =>
                    "Port requires auto-reset events; a manual-reset event stays signaled and would fire its persistent wait continuously"@,
            },
            Misuse::Unverifiable => match host {
                Host::Epoll =>
                    "Epoll cannot verify this event's reset mode: the handle lacks EVENT_QUERY_STATE; it must be granted when the handle is created or duplicated"@,
                Host::Port =>
                    "Port cannot verify this event's reset mode: the handle lacks EVENT_QUERY_STATE; it must be granted when the handle is created or duplicated"@,
            },
        },
{
}

} // verus!
