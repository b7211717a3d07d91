//! A completion port: requests are submitted, and reported when they are done.
//!
//! [`Port`] is what a loop over an I/O completion port keeps track of. Three
//! kinds of packet arrive on it. A packet under [`RESERVED_KEY`] comes from a
//! registered signal or a timer, and its pointer is their token. A packet whose
//! pointer is the address of an outstanding [`Operation`] says that the kernel
//! is done with it. Anything else was posted, and is reported as it came.
//!
//! Four rules hold of it:
//!
//! 1. The buffer belongs to the operation for the life of the request. When
//!    the operation is submitted, the buffer goes out with the [`Request`], to
//!    be put where the kernel can write to it; it comes back with the packet
//!    that completes the request, and the caller gets both in the
//!    [`Completion::Operation`] that reports it, and not before.
//! 2. A cancelled operation still completes. [`Port::cancel`] only asks.
//! 3. Every outstanding operation is drained before its memory is freed. What
//!    does not come back is handed out to be leaked.
//! 4. A port is not waitable and cannot be registered with another one.

pub use dequeue::{
    budget, budget_of, dequeue_outcome, drained, is_failure, packets_of, report, reports, result_of,
    status_to_result, without, Completion, Dequeued, Left, Packet,
};
pub use register::{
    bridged_post, follows_probe, register_follows, resignal, with_signal, Registered, Registering,
};
pub use submit::{
    cancel_block, issues, offset_halves, post, request_outstanding, reserved_key_error,
    reserved_key_text, set_offset, Association, Call, Cancellation, Post, Request,
};
pub use teardown::{cancels_all, drain_step, Drain, Teardown, DRAIN_MS, PATIENCE};
pub use timer::{ticks_of, FileTime, SetTimer, Timer};

use crate::error::{fails, non_null, Error, ErrorKind, ErrorView};
use std::collections::HashMap;
use vstd::prelude::*;

pub mod dequeue;
pub mod laws;
pub mod register;
pub mod socket;
pub mod submit;
pub mod teardown;
pub mod timer;

verus! {

broadcast use vstd::std_specs::hash::group_hash_axioms;

/// The completion key that a port keeps for its own packets.
pub const RESERVED_KEY: usize = usize::MAX;

/// How many packets one dequeue may return.
pub const BATCH: usize = 64;

/// Identifies a submitted [`Operation`] until it completes: the address of
/// its block.
#[derive(Clone, Copy, Debug, PartialEq, Eq, Hash, Structural)]
pub struct Token(usize);

impl Token {
    /// The address that the token is.
    pub closed spec fn address(self) -> usize {
        self.0
    }

    /// The token of the block at `address`.
    pub fn of(address: usize) -> (r: Token)
        ensures
            r.address() == address,
    {
        Token(address)
    }

    /// The address that the token is.
    pub fn value(self) -> (r: usize)
        ensures
            r == self.address(),
    {
        self.0
    }
}

/// The socket that an accept is filling in.
#[derive(Debug, PartialEq, Eq, Structural)]
pub struct Accepting {
    socket: usize,
}

impl View for Accepting {
    type V = usize;

    closed spec fn view(&self) -> usize {
        self.socket
    }
}

impl Accepting {
    pub(crate) fn new(socket: usize) -> (r: Accepting)
        ensures
            r@ == socket,
    {
        Accepting { socket }
    }

    /// The socket, to be closed when the accept is never finished.
    pub fn socket(&self) -> (r: usize)
        ensures
            r == self@,
    {
        self.socket
    }
}

/// What an operation keeps alive while it is outstanding.
#[derive(Debug)]
pub enum Held<H> {
    /// A socket that is being accepted.
    Accepting(Accepting),
    /// Anything else.
    Item(H),
}

/// One request: the address of its block, the handle it was issued on, and the
/// buffer it reads into or writes from. The buffer's length is the I/O length.
#[derive(Debug)]
pub struct Operation<H> {
    block: usize,
    handle: usize,
    buffer: Vec<u8>,
    held: Option<Held<H>>,
}

/// An [`Operation`] as plain values.
#[verifier::reject_recursive_types(H)]
pub struct OperationView<H> {
    pub block: usize,
    pub handle: usize,
    pub buffer: Seq<u8>,
    pub held: Option<Held<H>>,
}

impl<H> View for Operation<H> {
    type V = OperationView<H>;

    closed spec fn view(&self) -> OperationView<H> {
        OperationView {
            block: self.block,
            handle: self.handle,
            buffer: self.buffer@,
            held: self.held,
        }
    }
}

/// The operation made of these parts.
pub closed spec fn operation_of<H>(
    block: usize,
    handle: usize,
    buffer: Vec<u8>,
    held: Option<Held<H>>,
) -> Operation<H> {
    Operation { block, handle, buffer, held }
}

/// An operation made of parts has these parts.
pub broadcast proof fn an_operation_has_its_parts<H>(
    block: usize,
    handle: usize,
    buffer: Vec<u8>,
    held: Option<Held<H>>,
)
    ensures
        (#[trigger] operation_of(block, handle, buffer, held))@ == (OperationView {
            block,
            handle,
            buffer: buffer@,
            held,
        }),
{
}

impl<H> Operation<H> {
    /// An operation over `buffer`, whose block is at `block`. It holds nothing
    /// and has not been issued on a handle.
    pub fn new(block: usize, buffer: Vec<u8>) -> (r: Operation<H>)
        ensures
            r@ == (OperationView { block, handle: 0, buffer: buffer@, held: None::<Held<H>> }),
    {
        Operation { block, handle: 0, buffer, held: None }
    }

    /// The buffer. After a read of `bytes` completes, the first `bytes` of it
    /// are what was read.
    pub fn buffer(&self) -> (r: &[u8])
        ensures
            r@ == self@.buffer,
    {
        self.buffer.as_slice()
    }

    /// The buffer, for filling before a write or resizing between uses.
    pub fn buffer_mut(&mut self) -> (r: &mut Vec<u8>)
        ensures
            r@ == old(self)@.buffer,
            final(self)@ == (OperationView { buffer: final(r)@, ..old(self)@ }),
    {
        &mut self.buffer
    }

    /// Take the buffer out, dropping the rest of the operation.
    pub fn into_buffer(self) -> (r: Vec<u8>)
        ensures
            r@ == self@.buffer,
    {
        self.buffer
    }

    /// Keep `item` until this operation completes and is dequeued. Returns what
    /// was held before.
    pub fn hold(&mut self, item: Held<H>) -> (r: Option<Held<H>>)
        ensures
            r == old(self)@.held,
            final(self)@ == (OperationView { held: Some(item), ..old(self)@ }),
    {
        let before: Option<Held<H>> = self.held.take();
        self.held = Some(item);
        before
    }

    /// Take back what [`Operation::hold`] was given.
    pub fn take_held(&mut self) -> (r: Option<Held<H>>)
        ensures
            r == old(self)@.held,
            final(self)@ == (OperationView { held: None::<Held<H>>, ..old(self)@ }),
    {
        self.held.take()
    }

    /// Whether something is held.
    pub fn holds_something(&self) -> (r: bool)
        ensures
            r == (self@.held is Some),
    {
        self.held.is_some()
    }

    /// The token that this operation is, or will be, submitted under.
    pub fn token(&self) -> (r: Token)
        ensures
            r.address() == self@.block,
    {
        Token(self.block)
    }

    /// The buffer's length as the kernel takes it, or an error if it is too
    /// long for one request.
    pub(crate) fn io_range(&self) -> (r: Result<u32, Error>)
        ensures
            self@.buffer.len() <= u32::MAX ==> r == Ok::<u32, Error>(self@.buffer.len() as u32),
            self@.buffer.len() > u32::MAX ==> fails(r, too_long()),
    {
        let len: usize = self.buffer.len();
        if len as u64 > u32::MAX as u64 {
            Err(
                Error::new(
                    ErrorKind::InvalidInput,
                    "an operation's buffer must fit in a u32 length",
                ),
            )
        } else {
            Ok(len as u32)
        }
    }
}

/// The failure of a request whose buffer is too long.
pub open spec fn too_long() -> ErrorView {
    ErrorView::Custom(
        ErrorKind::InvalidInput,
        "an operation's buffer must fit in a u32 length"@,
    )
}

/// What a bridged token stands for.
#[derive(Debug, Clone, Copy, PartialEq, Eq, Structural)]
pub enum BridgedKind {
    /// A registered signal.
    Signal,
    /// A timer.
    Timer,
}

/// What a bridged token reports when its packet is dequeued.
#[derive(Debug, Clone, Copy, PartialEq, Eq, Structural)]
pub struct Bridged {
    /// The key to report.
    pub key: usize,
    /// As what to report it.
    pub kind: BridgedKind,
}

/// A registered wait on one signal handle.
#[derive(Debug, Clone, Copy, PartialEq, Eq, Structural)]
pub struct SignalRegistration {
    /// The token that the wait posts.
    pub token: usize,
    /// The wait itself, for `UnregisterWaitEx`.
    pub wait_handle: usize,
}

/// What a port keeps of an operation while the kernel has its block.
#[derive(Debug)]
pub struct Pending<H> {
    /// The handle that the request was issued on.
    pub handle: usize,
    /// What must not be released before the request completes.
    pub held: Option<Held<H>>,
}

/// What a loop over a completion port keeps track of.
pub struct Port<H> {
    handle: usize,
    signals: HashMap<usize, SignalRegistration>,
    bridged: HashMap<usize, Bridged>,
    outstanding: HashMap<usize, Pending<H>>,
    next_token: usize,
    retired: Ghost<Set<usize>>,
}

/// A [`Port`] as mathematical maps.
#[verifier::ext_equal]
#[verifier::reject_recursive_types(H)]
pub struct PortView<H> {
    /// The completion port.
    pub handle: usize,
    /// Registered signals, by the handle that each one waits on.
    pub signals: Map<usize, SignalRegistration>,
    /// Live tokens, of signals and timers alike.
    pub bridged: Map<usize, Bridged>,
    /// Submitted operations that have not been dequeued, by block address.
    pub outstanding: Map<usize, Pending<H>>,
    /// The token that is minted next.
    pub next_token: usize,
    /// The tokens of signals and timers that are gone.
    pub retired: Set<usize>,
}

impl<H> PortView<H> {
    /// What holds of a port between calls: every token ever minted is below
    /// the next one and not zero, each registered signal has a live token of
    /// its own that reports a signal, each live signal token belongs to a
    /// registration, a token that was retired was minted and is not live, and
    /// only so many operations are outstanding.
    pub open spec fn wf(self) -> bool {
        &&& self.next_token >= 1
        &&& forall|h: usize| #[trigger]
            self.signals.contains_key(h) ==> self.bridged.contains_key(self.signals[h].token)
                && self.bridged[self.signals[h].token].kind == BridgedKind::Signal
        &&& forall|h: usize, k: usize|
            #![trigger self.signals.contains_key(h), self.signals.contains_key(k)]
            self.signals.contains_key(h) && self.signals.contains_key(k) && h != k
                ==> self.signals[h].token != self.signals[k].token
        &&& forall|t: usize| #[trigger]
            self.bridged.contains_key(t) ==> 1 <= t < self.next_token
        &&& forall|t: usize| #[trigger]
            self.bridged.contains_key(t) && self.bridged[t].kind == BridgedKind::Signal
                ==> self.registers(t)
        &&& forall|t: usize| #[trigger]
            self.retired.contains(t) ==> t < self.next_token && !self.bridged.contains_key(t)
        &&& self.outstanding.dom().finite()
    }

    /// Whether some registered signal posts the token `t`.
    pub open spec fn registers(self, t: usize) -> bool {
        exists|h: usize| #[trigger] self.signals.contains_key(h) && self.signals[h].token == t
    }

    /// Whether `token` has been minted and was never used.
    pub open spec fn unused(self, token: usize) -> bool {
        &&& 1 <= token < self.next_token
        &&& !self.bridged.contains_key(token)
        &&& !self.retired.contains(token)
    }

    /// Whether `token` is there to be used for `handle`.
    pub open spec fn reserved(self, handle: usize, token: usize) -> bool {
        self.unused(token) && !self.signals.contains_key(handle)
    }

    /// The port with one more token minted.
    pub open spec fn minted(self) -> PortView<H> {
        PortView { next_token: (self.next_token + 1) as usize, ..self }
    }

    /// The port with another key for the signal on `handle`.
    pub open spec fn rekeyed(self, handle: usize, key: usize) -> PortView<H> {
        PortView {
            bridged: self.bridged.insert(
                self.signals[handle].token,
                Bridged { key, kind: BridgedKind::Signal },
            ),
            ..self
        }
    }

    /// The port without the signal on `handle`, whose token is retired.
    pub open spec fn without_signal(self, handle: usize) -> PortView<H> {
        PortView {
            signals: self.signals.remove(handle),
            bridged: self.bridged.remove(self.signals[handle].token),
            retired: self.retired.insert(self.signals[handle].token),
            ..self
        }
    }

    /// The port with a timer that posts `token` and reports `key`.
    pub open spec fn with_timer(self, token: usize, key: usize) -> PortView<H> {
        PortView {
            bridged: self.bridged.insert(token, Bridged { key, kind: BridgedKind::Timer }),
            ..self
        }
    }

    /// Whether `token` is that of a timer.
    pub open spec fn times(self, token: usize) -> bool {
        self.bridged.contains_key(token) && self.bridged[token].kind == BridgedKind::Timer
    }

    /// The port without the timer that posts `token`, which is retired. A port
    /// that has no such timer, or was taken down, stays as it is.
    pub open spec fn without_timer(self, token: usize) -> PortView<H> {
        if self.times(token) {
            PortView {
                bridged: self.bridged.remove(token),
                retired: self.retired.insert(token),
                ..self
            }
        } else {
            self
        }
    }

    /// The port with no signal and no timer, and every live token retired.
    pub open spec fn silenced(self) -> PortView<H> {
        PortView {
            signals: Map::empty(),
            bridged: Map::empty(),
            retired: self.retired.union(self.bridged.dom()),
            ..self
        }
    }
}

impl<H> View for Port<H> {
    type V = PortView<H>;

    closed spec fn view(&self) -> PortView<H> {
        PortView {
            handle: self.handle,
            signals: self.signals@,
            bridged: self.bridged@,
            outstanding: self.outstanding@,
            next_token: self.next_token,
            retired: self.retired@,
        }
    }
}

impl<H> Port<H> {
    /// What holds of a port between calls.
    pub open spec fn wf(&self) -> bool {
        self@.wf()
    }

    /// A port with nothing associated, over the completion port that
    /// `CreateIoCompletionPort` returned, or its failure if that is null.
    pub fn new(handle: usize, last_error: i32) -> (r: Result<Port<H>, Error>)
        ensures
            handle == 0 ==> fails(r, ErrorView::Os(last_error)),
            handle != 0 ==> (r matches Ok(port) && port.wf() && port@ == (PortView::<H> {
                handle,
                signals: Map::empty(),
                bridged: Map::empty(),
                outstanding: Map::empty(),
                next_token: 1,
                retired: Set::empty(),
            })),
    {
        let handle: usize = match non_null(handle, last_error) {
            Ok(handle) => handle,
            Err(e) => return Err(e),
        };
        Ok(
            Port {
                handle,
                signals: HashMap::new(),
                bridged: HashMap::new(),
                outstanding: HashMap::new(),
                next_token: 1,
                retired: Ghost(Set::empty()),
            },
        )
    }

    /// The completion port, to wait on and post to.
    pub fn as_raw_handle(&self) -> (r: usize)
        ensures
            r == self@.handle,
    {
        self.handle
    }

    /// Whether there is a token left to mint.
    pub fn can_mint(&self) -> (r: bool)
        ensures
            r == (self@.next_token < usize::MAX),
    {
        self.next_token < usize::MAX
    }

    /// Mint a token. Tokens count up and are never reused.
    pub fn mint_token(&mut self) -> (r: usize)
        requires
            old(self).wf(),
            old(self)@.next_token < usize::MAX,
        ensures
            final(self).wf(),
            r == old(self)@.next_token,
            final(self)@ == old(self)@.minted(),
            final(self)@.unused(r),
    {
        let token: usize = self.next_token;
        self.next_token = token + 1;
        proof {
            lemma_registers_frame(old(self)@, self@);
            assert(self@.retired == old(self)@.retired);
        }
        token
    }
}

/// What a change that leaves signals and tokens alone leaves alone.
proof fn lemma_registers_frame<H>(before: PortView<H>, after: PortView<H>)
    requires
        before.signals == after.signals,
    ensures
        forall|t: usize| before.registers(t) == after.registers(t),
{
    assert forall|t: usize| before.registers(t) == after.registers(t) by {
        if before.registers(t) {
            let h = choose|h: usize| #[trigger]
                before.signals.contains_key(h) && before.signals[h].token == t;
            assert(after.signals.contains_key(h));
        }
        if after.registers(t) {
            let h = choose|h: usize| #[trigger]
                after.signals.contains_key(h) && after.signals[h].token == t;
            assert(before.signals.contains_key(h));
        }
    }
}

} // verus!
