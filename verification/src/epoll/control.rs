//! Changing an interest list.

use super::{
    handle_unsupported, handle_unsupported_error, is_socket, lemma_registers_frame,
    socket_unsupported, unknown_bits, validate_event_set, validate_socket_event_set,
    ControlOperation, Epoll, EpollEvent, EpollView, EventSet, Registration, SocketRegistration,
};
use crate::error::{call_result, fails, Error, ErrorKind, ErrorView};
use crate::flags::{within, EVENT_SET_BITS};
use crate::sys;
use crate::waitable::{next_probe, refusal_text, Answer, Host, Misuse, Probe};
use vstd::prelude::*;

verus! {

broadcast use vstd::std_specs::hash::group_hash_axioms;

proof fn lemma_with_handle_keeps_wf(
    before: EpollView,
    handle: usize,
    registration: Registration,
    data: u64,
)
    requires
        before.wf(),
        before.reserved(handle, registration.token),
    ensures
        before.with_handle(handle, registration, data).wf(),
{
    let now = before.with_handle(handle, registration, data);
    assert forall|t: usize| #[trigger] now.data_by_token.contains_key(t) implies t < now.next_token
        && now.registers(t) by {
        if t == registration.token {
            assert(now.by_handle.contains_key(handle));
        } else {
            assert(before.data_by_token.contains_key(t));
            let h = choose|h: usize| #[trigger]
                before.by_handle.contains_key(h) && before.by_handle[h].token == t;
            assert(now.by_handle.contains_key(h));
        }
    }
}

proof fn lemma_without_handle_keeps_wf(before: EpollView, handle: usize)
    requires
        before.wf(),
        before.by_handle.contains_key(handle),
    ensures
        before.without_handle(handle).wf(),
{
    let now = before.without_handle(handle);
    assert forall|t: usize| #[trigger] now.data_by_token.contains_key(t) implies t < now.next_token
        && now.registers(t) by {
        assert(before.data_by_token.contains_key(t));
        let h = choose|h: usize| #[trigger]
            before.by_handle.contains_key(h) && before.by_handle[h].token == t;
        assert(now.by_handle.contains_key(h));
    }
}

/// Where a change to the interest list stands.
#[derive(Debug)]
pub enum Ctl {
    /// Ask `getsockopt` for the handle's socket type.
    SocketType,
    /// Make a datagram socket that is connected to itself and does not block.
    MakeWake,
    /// The handle is being asked about.
    Probe(Probe),
    /// Call `RegisterWaitForSingleObject`, with a callback that posts `token`.
    RegisterWait {
        /// The token to post.
        token: usize,
    },
    /// Call `UnregisterWaitEx`, waiting out its callbacks.
    UnregisterWait {
        /// The wait.
        wait_handle: usize,
    },
    /// It is over, with this result.
    Done(Result<(), Error>),
    /// A debug build does not let the handle pass.
    Misused(Misuse),
}

/// What the kernel said to a [`Ctl`].
#[derive(Debug)]
pub enum CtlReply {
    /// What `getsockopt` returned.
    SocketType(i32),
    /// The wake socket, or why there is none.
    Wake(Result<usize, Error>),
    /// The answer to a [`Probe`].
    Probe(Answer),
    /// How the registration of the wait went.
    Wait {
        /// Whether the call succeeded.
        succeeded: bool,
        /// The wait, if it did.
        wait_handle: usize,
        /// The last error, if it did not.
        last_error: i32,
    },
    /// How the end of the wait went.
    Unregistered {
        /// Whether the call succeeded.
        succeeded: bool,
        /// The last error, if it did not.
        last_error: i32,
    },
}

impl Ctl {
    /// The first step of every change.
    pub fn start() -> (r: Ctl)
        ensures
            r == Ctl::SocketType,
    {
        Ctl::SocketType
    }
}

/// Whether `r` is over, with the failure `e`.
pub open spec fn done_with(r: Ctl, e: ErrorView) -> bool {
    r matches Ctl::Done(result) && fails(result, e)
}

/// Whether `r` is over, with success.
pub open spec fn done_well(r: Ctl) -> bool {
    r matches Ctl::Done(result) && result is Ok
}

/// What adding a socket does once there is a wake socket.
pub open spec fn adds_socket(
    before: EpollView,
    socket: usize,
    event: EpollEvent,
    after: EpollView,
    r: Ctl,
) -> bool {
    if before.sockets.contains_key(socket) {
        done_with(r, ErrorView::Simple(ErrorKind::AlreadyExists)) && after == before
    } else {
        &&& done_well(r)
        &&& after.sockets.contains_key(socket)
        &&& after.sockets[socket].interest@ == event.events
        &&& after == before.with_socket(socket, after.sockets[socket].interest, event.data)
    }
}

/// What a change to a socket does.
pub open spec fn changes_socket(
    before: EpollView,
    operation: ControlOperation,
    socket: usize,
    event: EpollEvent,
    after: EpollView,
    r: Ctl,
) -> bool {
    if operation == ControlOperation::Delete {
        if before.sockets.contains_key(socket) {
            done_well(r) && after == (EpollView {
                sockets: before.sockets.remove(socket),
                ..before
            })
        } else {
            done_with(r, ErrorView::Simple(ErrorKind::NotFound)) && after == before
        }
    } else if !within(event.events, EVENT_SET_BITS) {
        done_with(r, unknown_bits(event.events)) && after == before
    } else if event.events >= 4 {
        done_with(r, socket_unsupported(event.events)) && after == before
    } else if operation == ControlOperation::Add {
        if before.wake is None {
            r == Ctl::MakeWake && after == before
        } else {
            adds_socket(before, socket, event, after, r)
        }
    } else if before.sockets.contains_key(socket) {
        &&& done_well(r)
        &&& after.sockets.contains_key(socket)
        &&& after.sockets[socket].interest@ == event.events
        &&& after == before.with_socket(socket, after.sockets[socket].interest, event.data)
    } else {
        done_with(r, ErrorView::Simple(ErrorKind::NotFound)) && after == before
    }
}

/// What a change to a handle does before anything is known of the handle.
pub open spec fn changes_handle(
    before: EpollView,
    operation: ControlOperation,
    handle: usize,
    event: EpollEvent,
    after: EpollView,
    r: Ctl,
) -> bool {
    if !within(event.events, EVENT_SET_BITS) {
        done_with(r, unknown_bits(event.events)) && after == before
    } else if event.events != 1 && !(event.events == 0 && operation == ControlOperation::Delete) {
        done_with(r, handle_unsupported(event.events)) && after == before
    } else {
        match operation {
            ControlOperation::Add => r == Ctl::Probe(Probe::Information) && after == before,
            ControlOperation::Modify => if before.by_handle.contains_key(handle) {
                done_well(r) && after == before.with_data(handle, event.data)
            } else {
                done_with(r, ErrorView::Simple(ErrorKind::NotFound)) && after == before
            },
            ControlOperation::Delete => if before.by_handle.contains_key(handle) {
                &&& r == (Ctl::UnregisterWait { wait_handle: before.by_handle[handle].wait_handle })
                &&& after == before.without_handle(handle)
            } else {
                done_with(r, ErrorView::Simple(ErrorKind::NotFound)) && after == before
            },
        }
    }
}

/// What follows on the outcome of a probe.
pub open spec fn follows_probe(
    before: EpollView,
    handle: usize,
    probe: Probe,
    after: EpollView,
    r: Ctl,
) -> bool {
    match probe {
        Probe::Waitable => if before.by_handle.contains_key(handle) {
            done_with(r, ErrorView::Simple(ErrorKind::AlreadyExists)) && after == before
        } else {
            &&& r == (Ctl::RegisterWait { token: before.next_token })
            &&& after == (EpollView {
                next_token: (before.next_token + 1) as usize,
                ..before
            })
        },
        Probe::Refused(refusal) => done_with(
            r,
            ErrorView::Custom(ErrorKind::InvalidInput, refusal_text(refusal, Host::Epoll)),
        ) && after == before,
        Probe::Misused(misuse) => r == Ctl::Misused(misuse) && after == before,
        _ => r == Ctl::Probe(probe) && after == before,
    }
}

/// What a step of a change does: the list and the step that follow. A reply to
/// another step changes nothing.
pub open spec fn ctl_follows(
    before: EpollView,
    operation: ControlOperation,
    handle: usize,
    event: EpollEvent,
    debug: bool,
    step: Ctl,
    reply: CtlReply,
    after: EpollView,
    r: Ctl,
) -> bool {
    match (step, reply) {
        (Ctl::SocketType, CtlReply::SocketType(ret)) => if ret != sys::socket_error_value() {
            changes_socket(before, operation, handle, event, after, r)
        } else {
            changes_handle(before, operation, handle, event, after, r)
        },
        (Ctl::MakeWake, CtlReply::Wake(wake)) => match wake {
            Ok(socket) => adds_socket(
                EpollView { wake: Some(socket), ..before },
                handle,
                event,
                after,
                r,
            ),
            Err(e) => r == Ctl::Done(Err::<(), Error>(e)) && after == before,
        },
        (Ctl::Probe(probe), CtlReply::Probe(answer)) => follows_probe(
            before,
            handle,
            next_probe(probe, debug, answer),
            after,
            r,
        ),
        (
            Ctl::RegisterWait { token },
            CtlReply::Wait { succeeded, wait_handle, last_error },
        ) => if succeeded {
            done_well(r) && after == before.with_handle(
                handle,
                Registration { token, wait_handle },
                event.data,
            )
        } else {
            done_with(r, ErrorView::Os(last_error)) && after == before
        },
        (Ctl::UnregisterWait { .. }, CtlReply::Unregistered { succeeded, last_error }) => {
            &&& after == before
            &&& if succeeded {
                done_well(r)
            } else {
                done_with(r, ErrorView::Os(last_error))
            }
        },
        _ => r == step && after == before,
    }
}

/// Whether `step` is one that a change can stand at.
pub open spec fn can_stand_at(list: EpollView, handle: usize, event: EpollEvent, step: Ctl) -> bool {
    match step {
        Ctl::RegisterWait { token } => list.reserved(handle, token),
        Ctl::MakeWake => list.wake is None && event.events < 4,
        Ctl::Probe(_) => list.next_token < usize::MAX,
        _ => true,
    }
}

impl Epoll {
    /// Add, modify or remove a handle in the interest list, one step at a time.
    ///
    /// `step` is where the change stands, beginning with [`Ctl::start`];
    /// `reply` is what the kernel said to it. The result is where it stands
    /// then. A reply to another step changes nothing. `debug` says whether
    /// reset modes are looked at.
    ///
    /// For a socket, `event` may ask for [`EventSet::IN`] and
    /// [`EventSet::OUT`]. For a handle only [`EventSet::IN`] is accepted, or
    /// nothing, for [`ControlOperation::Delete`].
    pub fn ctl(
        &mut self,
        operation: ControlOperation,
        handle: usize,
        event: EpollEvent,
        debug: bool,
        step: Ctl,
        reply: CtlReply,
    ) -> (r: Ctl)
        requires
            old(self).wf(),
            can_stand_at(old(self)@, handle, event, step),
        ensures
            final(self).wf(),
            old(self)@.next_token < usize::MAX ==> can_stand_at(final(self)@, handle, event, r),
            ctl_follows(
                old(self)@,
                operation,
                handle,
                event,
                debug,
                step,
                reply,
                final(self)@,
                r,
            ),
    {
        match (step, reply) {
            (Ctl::SocketType, CtlReply::SocketType(ret)) => {
                if is_socket(ret) {
                    self.ctl_socket(operation, handle, event)
                } else {
                    self.ctl_handle(operation, handle, event)
                }
            },
            (Ctl::MakeWake, CtlReply::Wake(wake)) => match wake {
                Ok(socket) => {
                    self.ensure_wake(socket);
                    match validate_socket_event_set(event.events) {
                        Ok(interest) => Ctl::Done(self.add_socket(handle, interest, event.data)),
                        Err(e) => Ctl::Done(Err(e)),
                    }
                },
                Err(e) => Ctl::Done(Err(e)),
            },
            (Ctl::Probe(probe), CtlReply::Probe(answer)) => {
                match probe.next(debug, answer) {
                    Probe::Waitable => {
                        if self.by_handle.contains_key(&handle) {
                            Ctl::Done(Err(Error::Simple(ErrorKind::AlreadyExists)))
                        } else {
                            let token: usize = self.next_token;
                            self.next_token = token + 1;
                            proof {
                                lemma_registers_frame(old(self)@, self@);
                            }
                            Ctl::RegisterWait { token }
                        }
                    },
                    Probe::Refused(refusal) => Ctl::Done(Err(refusal.error(Host::Epoll))),
                    Probe::Misused(misuse) => Ctl::Misused(misuse),
                    other => Ctl::Probe(other),
                }
            },
            (
                Ctl::RegisterWait { token },
                CtlReply::Wait { succeeded, wait_handle, last_error },
            ) => {
                if !succeeded {
                    return Ctl::Done(Err(Error::Os(last_error)));
                }
                self.add(handle, Registration { token, wait_handle }, event.data);
                Ctl::Done(Ok(()))
            },
            (Ctl::UnregisterWait { .. }, CtlReply::Unregistered { succeeded, last_error }) => {
                Ctl::Done(call_result(succeeded, last_error))
            },
            (step, _) => step,
        }
    }

    fn ctl_socket(&mut self, operation: ControlOperation, socket: usize, event: EpollEvent) -> (r:
        Ctl)
        requires
            old(self).wf(),
        ensures
            final(self).wf(),
            changes_socket(old(self)@, operation, socket, event, final(self)@, r),
            old(self)@.next_token < usize::MAX ==> can_stand_at(final(self)@, socket, event, r),
    {
        if matches!(operation, ControlOperation::Delete) {
            return Ctl::Done(self.delete_socket(socket));
        }
        let interest: EventSet = match validate_socket_event_set(event.events) {
            Ok(interest) => interest,
            Err(e) => return Ctl::Done(Err(e)),
        };
        match operation {
            ControlOperation::Add => {
                if self.wake.is_none() {
                    Ctl::MakeWake
                } else {
                    Ctl::Done(self.add_socket(socket, interest, event.data))
                }
            },
            _ => Ctl::Done(self.modify_socket(socket, interest, event.data)),
        }
    }

    fn ctl_handle(&mut self, operation: ControlOperation, handle: usize, event: EpollEvent) -> (r:
        Ctl)
        requires
            old(self).wf(),
        ensures
            final(self).wf(),
            changes_handle(old(self)@, operation, handle, event, final(self)@, r),
            old(self)@.next_token < usize::MAX ==> can_stand_at(final(self)@, handle, event, r),
    {
        if let Err(e) = validate_event_set(event.events) {
            return Ctl::Done(Err(e));
        }
        if event.events == 0 && !matches!(operation, ControlOperation::Delete) {
            return Ctl::Done(Err(handle_unsupported_error(EventSet::empty())));
        }
        match operation {
            ControlOperation::Add => Ctl::Probe(Probe::start()),
            ControlOperation::Modify => Ctl::Done(self.modify(handle, event.data)),
            ControlOperation::Delete => match self.delete(handle) {
                Ok(registration) => Ctl::UnregisterWait { wait_handle: registration.wait_handle },
                Err(e) => Ctl::Done(Err(e)),
            },
        }
    }

    /// Keep the wake socket that was made for the first socket.
    fn ensure_wake(&mut self, socket: usize)
        requires
            old(self).wf(),
        ensures
            final(self).wf(),
            final(self)@ == (EpollView { wake: Some(socket), ..old(self)@ }),
    {
        self.wake = Some(socket);
        proof {
            lemma_registers_frame(old(self)@, self@);
        }
    }

    fn add_socket(&mut self, socket: usize, interest: EventSet, data: u64) -> (r: Result<
        (),
        Error,
    >)
        requires
            old(self).wf(),
            old(self)@.wake is Some,
            interest@ < 4,
        ensures
            final(self).wf(),
            old(self)@.sockets.contains_key(socket) ==> fails(
                r,
                ErrorView::Simple(ErrorKind::AlreadyExists),
            ) && final(self)@ == old(self)@,
            !old(self)@.sockets.contains_key(socket) ==> r is Ok && final(self)@ == old(
                self,
            )@.with_socket(socket, interest, data),
    {
        if self.sockets.contains_key(&socket) {
            return Err(Error::Simple(ErrorKind::AlreadyExists));
        }
        self.sockets.insert(socket, SocketRegistration { interest, data });
        proof {
            lemma_registers_frame(old(self)@, self@);
        }
        Ok(())
    }

    fn modify_socket(&mut self, socket: usize, interest: EventSet, data: u64) -> (r: Result<
        (),
        Error,
    >)
        requires
            old(self).wf(),
            interest@ < 4,
        ensures
            final(self).wf(),
            old(self)@.sockets.contains_key(socket) ==> r is Ok && final(self)@ == old(
                self,
            )@.with_socket(socket, interest, data),
            !old(self)@.sockets.contains_key(socket) ==> fails(
                r,
                ErrorView::Simple(ErrorKind::NotFound),
            ) && final(self)@ == old(self)@,
    {
        if !self.sockets.contains_key(&socket) {
            return Err(Error::Simple(ErrorKind::NotFound));
        }
        self.sockets.insert(socket, SocketRegistration { interest, data });
        proof {
            lemma_registers_frame(old(self)@, self@);
        }
        Ok(())
    }

    fn delete_socket(&mut self, socket: usize) -> (r: Result<(), Error>)
        requires
            old(self).wf(),
        ensures
            final(self).wf(),
            old(self)@.sockets.contains_key(socket) ==> r is Ok && final(self)@ == (EpollView {
                sockets: old(self)@.sockets.remove(socket),
                ..old(self)@
            }),
            !old(self)@.sockets.contains_key(socket) ==> fails(
                r,
                ErrorView::Simple(ErrorKind::NotFound),
            ) && final(self)@ == old(self)@,
    {
        let removed: Option<SocketRegistration> = self.sockets.remove(&socket);
        proof {
            lemma_registers_frame(old(self)@, self@);
        }
        match removed {
            Some(_) => Ok(()),
            None => {
                assert(self@ =~= old(self)@);
                Err(Error::Simple(ErrorKind::NotFound))
            },
        }
    }

    fn add(&mut self, handle: usize, registration: Registration, data: u64)
        requires
            old(self).wf(),
            old(self)@.reserved(handle, registration.token),
        ensures
            final(self).wf(),
            final(self)@ == old(self)@.with_handle(handle, registration, data),
    {
        proof {
            lemma_with_handle_keeps_wf(self@, handle, registration, data);
        }
        self.by_handle.insert(handle, registration);
        self.data_by_token.insert(registration.token, data);
        assert(self@ =~= old(self)@.with_handle(handle, registration, data));
    }

    /// Change what goes with a handle's events: what a change with
    /// [`ControlOperation::Modify`] does to the list. The token stays, so that a
    /// completion that is already queued is reported, with the new data.
    pub fn modify(&mut self, handle: usize, data: u64) -> (r: Result<(), Error>)
        requires
            old(self).wf(),
        ensures
            final(self).wf(),
            old(self)@.by_handle.contains_key(handle) ==> r is Ok && final(self)@ == old(
                self,
            )@.with_data(handle, data),
            !old(self)@.by_handle.contains_key(handle) ==> fails(
                r,
                ErrorView::Simple(ErrorKind::NotFound),
            ) && final(self)@ == old(self)@,
    {
        let token: usize = match self.by_handle.get(&handle) {
            Some(registration) => registration.token,
            None => return Err(Error::Simple(ErrorKind::NotFound)),
        };
        self.data_by_token.insert(token, data);
        proof {
            lemma_registers_frame(old(self)@, self@);
            assert(old(self)@.by_handle.contains_key(handle));
        }
        Ok(())
    }

    /// Take a handle out of the list. A completion that is already queued for
    /// it finds no entry, and its token is never minted again.
    fn delete(&mut self, handle: usize) -> (r: Result<Registration, Error>)
        requires
            old(self).wf(),
        ensures
            final(self).wf(),
            old(self)@.by_handle.contains_key(handle) ==> r == Ok::<Registration, Error>(
                old(self)@.by_handle[handle],
            ) && final(self)@ == old(self)@.without_handle(handle),
            !old(self)@.by_handle.contains_key(handle) ==> fails(
                r,
                ErrorView::Simple(ErrorKind::NotFound),
            ) && final(self)@ == old(self)@,
    {
        let registration: Registration = match self.by_handle.remove(&handle) {
            Some(registration) => registration,
            None => {
                assert(self@ =~= old(self)@);
                return Err(Error::Simple(ErrorKind::NotFound));
            },
        };
        self.data_by_token.remove(&registration.token);
        proof {
            self.retired@ = self.retired@.insert(registration.token);
            lemma_without_handle_keeps_wf(old(self)@, handle);
            assert(self@ =~= old(self)@.without_handle(handle));
        }
        Ok(registration)
    }
}

} // verus!
