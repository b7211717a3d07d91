//! Bridging signals into a port.

use super::{
    lemma_registers_frame, Bridged, BridgedKind, Port, PortView, Post, SignalRegistration,
    RESERVED_KEY,
};
use crate::error::{fails, Error, ErrorKind, ErrorView};
use crate::sys;
use crate::waitable::{next_probe, refusal_text, Answer, Host, Misuse, Probe};
use vstd::prelude::*;

verus! {

broadcast use vstd::std_specs::hash::group_hash_axioms;

/// Where the registration of a signal stands.
#[derive(Debug)]
pub enum Registering {
    /// The handle is being asked about.
    Probe(Probe),
    /// Call `RegisterWaitForSingleObject`, with a callback that posts `token`
    /// under [`RESERVED_KEY`].
    RegisterWait {
        /// The token to post.
        token: usize,
    },
    /// It is over, with this result.
    Done(Result<(), Error>),
    /// A debug build does not let the handle pass.
    Misused(Misuse),
}

/// What the kernel said to a [`Registering`].
#[derive(Debug)]
pub enum Registered {
    /// The answer to a [`Probe`].
    Probe(Answer),
    /// How the registration of the wait went.
    Wait {
        /// Whether the call succeeded.
        succeeded: bool,
        /// The wait, if it did.
        wait_handle: usize,
        /// The last error, if it did not.
        last_error: i32,
    },
}

impl Registering {
    /// The first step of every registration.
    pub fn start() -> (r: Registering)
        ensures
            r == Registering::Probe(Probe::Information),
    {
        Registering::Probe(Probe::start())
    }
}

/// Whether `after` is the step that follows a probe.
pub open spec fn follows_probe<H>(
    before: PortView<H>,
    handle: usize,
    probe: Probe,
    after: Registering,
) -> bool {
    match probe {
        Probe::Waitable => if before.signals.contains_key(handle) {
            after matches Registering::Done(r) && fails(
                r,
                ErrorView::Simple(ErrorKind::AlreadyExists),
            )
        } else {
            after == (Registering::RegisterWait { token: before.next_token })
        },
        Probe::Refused(refusal) => after matches Registering::Done(r) && fails(
            r,
            ErrorView::Custom(ErrorKind::InvalidInput, refusal_text(refusal, Host::Port)),
        ),
        Probe::Misused(misuse) => after == Registering::Misused(misuse),
        _ => after == Registering::Probe(probe),
    }
}

/// A port with the signal on `handle` registered under `key`.
pub open spec fn with_signal<H>(
    port: PortView<H>,
    handle: usize,
    key: usize,
    registration: SignalRegistration,
) -> PortView<H> {
    PortView {
        signals: port.signals.insert(handle, registration),
        bridged: port.bridged.insert(
            registration.token,
            Bridged { key, kind: BridgedKind::Signal },
        ),
        ..port
    }
}

/// What a step of a registration does: the port and the step that follow. A
/// reply to another step changes nothing.
pub open spec fn register_follows<H>(
    before: PortView<H>,
    handle: usize,
    key: usize,
    debug: bool,
    step: Registering,
    reply: Registered,
    after: PortView<H>,
    r: Registering,
) -> bool {
    match (step, reply) {
        (Registering::Probe(probe), Registered::Probe(answer)) => {
            &&& follows_probe(before, handle, next_probe(probe, debug, answer), r)
            &&& after == if r is RegisterWait {
                before.minted()
            } else {
                before
            }
        },
        (
            Registering::RegisterWait { token },
            Registered::Wait { succeeded, wait_handle, last_error },
        ) => if succeeded {
            &&& r == Registering::Done(Ok::<(), Error>(()))
            &&& after == with_signal(
                before,
                handle,
                key,
                SignalRegistration { token, wait_handle },
            )
        } else {
            &&& r matches Registering::Done(result) && fails(result, ErrorView::Os(last_error))
            &&& after == before
        },
        _ => r == step && after == before,
    }
}

proof fn lemma_with_signal_keeps_wf<H>(
    port: PortView<H>,
    handle: usize,
    key: usize,
    registration: SignalRegistration,
)
    requires
        port.wf(),
        port.reserved(handle, registration.token),
    ensures
        with_signal(port, handle, key, registration).wf(),
{
    let now = with_signal(port, handle, key, registration);
    assert forall|t: usize| #[trigger]
        now.bridged.contains_key(t) && now.bridged[t].kind
            == BridgedKind::Signal implies now.registers(t) by {
        if t == registration.token {
            assert(now.signals.contains_key(handle));
        } else {
            assert(port.bridged.contains_key(t));
            assert(port.registers(t));
            let h = choose|h: usize| #[trigger]
                port.signals.contains_key(h) && port.signals[h].token == t;
            assert(now.signals.contains_key(h));
        }
    }
}

impl<H> Port<H> {
    /// Bridge the waitable `handle` into the port, one step at a time: each
    /// time it is signalled, a [`Completion::Signal`] with `key` arrives.
    ///
    /// `step` is where the registration stands, beginning with
    /// [`Registering::start`]; `reply` is what the kernel said to it. The
    /// result is where it stands then. A reply to another step changes nothing.
    /// `debug` says whether reset modes are looked at.
    pub fn register(
        &mut self,
        handle: usize,
        key: usize,
        debug: bool,
        step: Registering,
        reply: Registered,
    ) -> (r: Registering)
        requires
            old(self).wf(),
            step is Probe ==> old(self)@.next_token < usize::MAX,
            step matches Registering::RegisterWait { token } ==> old(self)@.reserved(handle, token),
        ensures
            final(self).wf(),
            r matches Registering::RegisterWait { token } ==> final(self)@.reserved(handle, token),
            register_follows(old(self)@, handle, key, debug, step, reply, final(self)@, r),
    {
        match (step, reply) {
            (Registering::Probe(probe), Registered::Probe(answer)) => {
                match probe.next(debug, answer) {
                    Probe::Waitable => {
                        if self.signals.contains_key(&handle) {
                            Registering::Done(Err(Error::Simple(ErrorKind::AlreadyExists)))
                        } else {
                            let token: usize = self.mint_token();
                            Registering::RegisterWait { token }
                        }
                    },
                    Probe::Refused(refusal) => Registering::Done(Err(refusal.error(Host::Port))),
                    Probe::Misused(misuse) => Registering::Misused(misuse),
                    other => Registering::Probe(other),
                }
            },
            (
                Registering::RegisterWait { token },
                Registered::Wait { succeeded, wait_handle, last_error },
            ) => {
                if !succeeded {
                    return Registering::Done(Err(Error::Os(last_error)));
                }
                let registration: SignalRegistration = SignalRegistration { token, wait_handle };
                proof {
                    lemma_with_signal_keeps_wf(self@, handle, key, registration);
                }
                self.signals.insert(handle, registration);
                self.bridged.insert(token, Bridged { key, kind: BridgedKind::Signal });
                assert(self@ =~= with_signal(old(self)@, handle, key, registration));
                Registering::Done(Ok(()))
            },
            (step, _) => step,
        }
    }

    /// Change the key that a registered handle reports. The token stays, so a
    /// packet that is already queued reports the new key.
    pub fn rekey(&mut self, handle: usize, key: usize) -> (r: Result<(), Error>)
        requires
            old(self).wf(),
        ensures
            final(self).wf(),
            old(self)@.signals.contains_key(handle) ==> r is Ok && final(self)@ == old(
                self,
            )@.rekeyed(handle, key),
            !old(self)@.signals.contains_key(handle) ==> fails(
                r,
                ErrorView::Simple(ErrorKind::NotFound),
            ) && final(self)@ == old(self)@,
    {
        let token: usize = match self.signals.get(&handle) {
            Some(registration) => registration.token,
            None => return Err(Error::Simple(ErrorKind::NotFound)),
        };
        self.bridged.insert(token, Bridged { key, kind: BridgedKind::Signal });
        proof {
            lemma_registers_frame(old(self)@, self@);
            assert(old(self)@.signals.contains_key(handle));
            assert(self@.registers(token));
            assert(self@.retired == old(self)@.retired);
        }
        Ok(())
    }

    /// Stop bridging a handle, and hand out the wait to unregister. A packet
    /// that is already queued for it is skipped, not delivered.
    pub fn unregister(&mut self, handle: usize) -> (r: Result<SignalRegistration, Error>)
        requires
            old(self).wf(),
        ensures
            final(self).wf(),
            old(self)@.signals.contains_key(handle) ==> r == Ok::<SignalRegistration, Error>(
                old(self)@.signals[handle],
            ) && final(self)@ == old(self)@.without_signal(handle),
            !old(self)@.signals.contains_key(handle) ==> fails(
                r,
                ErrorView::Simple(ErrorKind::NotFound),
            ) && final(self)@ == old(self)@,
    {
        let registration: SignalRegistration = match self.signals.remove(&handle) {
            Some(registration) => registration,
            None => {
                assert(self@ =~= old(self)@);
                return Err(Error::Simple(ErrorKind::NotFound));
            },
        };
        self.bridged.remove(&registration.token);
        proof {
            self.retired@ = self.retired@.insert(registration.token);
            let before = old(self)@;
            let now = self@;
            assert(now.retired == before.retired.insert(registration.token));
            assert(before.signals.contains_key(handle));
            assert forall|t: usize| #[trigger]
                now.bridged.contains_key(t) && now.bridged[t].kind
                    == BridgedKind::Signal implies now.registers(t) by {
                assert(before.bridged.contains_key(t));
                assert(before.registers(t));
                let h = choose|h: usize| #[trigger]
                    before.signals.contains_key(h) && before.signals[h].token == t;
                assert(now.signals.contains_key(h));
            }
        }
        Ok(registration)
    }
}

/// The packet that the callback of a bridged wait or timer posts.
pub fn bridged_post(port: usize, token: usize) -> (r: Post)
    ensures
        r == (Post { port, key: RESERVED_KEY, bytes: 0, pointer: token }),
{
    Post { port, key: RESERVED_KEY, bytes: 0, pointer: token }
}

/// Whether the callback of a bridged wait signals its handle again: the
/// signal is already consumed, so a failed post would lose it, unless the port
/// is gone and there is nowhere left to deliver to.
pub fn resignal(posted: bool, last_error: u32) -> (r: bool)
    ensures
        r == (!posted && last_error != sys::error_invalid_handle_value()),
{
    !posted && last_error != sys::error_invalid_handle()
}

} // verus!
