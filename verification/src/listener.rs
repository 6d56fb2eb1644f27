//! The primary instance's listener, as a state machine without I/O.
//!
//! The caller owns the channel, the connections and the handler. It does what
//! each [`ListenerAction`] asks and reports what came of it as a
//! [`ListenerEvent`]; the machine decides what comes next. Its transitions
//! are those of [`next`]. The listener counts how often its accept loop ended
//! and refuses to start once that count has passed [`CRASH_CEILING`].

use crate::identity::IdentityStore;
use crate::wire::{payload_of, unframe};
use vstd::prelude::*;
use vstd::string::*;

verus! {

/// The number of ended accept loops up to which the listener starts again.
pub const CRASH_CEILING: u16 = 5;

/// The operating system's error code on which the accept loop gives up.
pub const EXHAUSTION_CODE: i32 = 232;

/// Where the listener stands.
#[derive(Clone, Copy, Debug, PartialEq, Eq, Structural)]
pub enum Phase {
    /// Not started yet.
    NotListening,
    /// Asked for the channel to be bound; the outcome is awaited.
    Binding,
    /// The channel is bound; a connection is awaited.
    Accepting,
    /// A payload was handed to the handler; its return is awaited.
    HandlingConnection,
    /// The accept loop has ended; the listener waits to be started again.
    Restarting,
    /// The channel could not be bound. Final.
    FatalBindFailure,
    /// The accept loop has ended more often than the ceiling allows. Final.
    CeilingExceeded,
}

/// Why the listener cannot go on.
#[derive(Clone, Copy, Debug, PartialEq, Eq, Structural)]
pub enum Fatal {
    /// The channel could not be bound.
    BindFailed,
    /// The accept loop has ended more often than the ceiling allows.
    CeilingExceeded,
}

/// What is known of a failed accept.
#[derive(Clone, Copy, Debug, PartialEq, Eq, Structural)]
pub struct AcceptFailure {
    /// The operating system's error code, where there is one.
    pub os_code: Option<i32>,
}

/// The failure is one that does not mend itself: its code is the exhaustion
/// code. A failure with another code, or with none, passes.
pub open spec fn exhausted(failure: AcceptFailure) -> bool {
    failure.os_code == Some(EXHAUSTION_CODE)
}

impl AcceptFailure {
    /// Whether the accept loop gives up on this failure.
    pub fn is_exhaustion(&self) -> (gives_up: bool)
        ensures
            gives_up == exhausted(*self),
    {
        match self.os_code {
            Some(code) => code == EXHAUSTION_CODE,
            None => false,
        }
    }
}

/// What the caller reports to a started listener.
#[derive(Debug, PartialEq, Eq)]
pub enum ListenerEvent {
    /// The channel was bound (`true`) or could not be (`false`).
    Bound(bool),
    /// A connection was accepted and this text was read from it.
    Received(String),
    /// A connection was accepted and reading from it failed.
    ReadFailed,
    /// No connection could be accepted.
    AcceptFailed(AcceptFailure),
    /// The channel was torn down.
    Closed,
    /// The handler returned (`true`) or failed (`false`).
    Handled(bool),
}

/// What can happen to a listener: it is started, or one of the events of
/// [`ListenerEvent`] is reported to it.
pub enum EventModel {
    /// The listener is started for the channel of this identity.
    Listen(Seq<char>),
    Bound(bool),
    Received(Seq<char>),
    ReadFailed,
    AcceptFailed(AcceptFailure),
    Closed,
    Handled(bool),
}

impl View for ListenerEvent {
    type V = EventModel;

    open spec fn view(&self) -> EventModel {
        match *self {
            ListenerEvent::Bound(ok) => EventModel::Bound(ok),
            ListenerEvent::Received(text) => EventModel::Received(text@),
            ListenerEvent::ReadFailed => EventModel::ReadFailed,
            ListenerEvent::AcceptFailed(failure) => EventModel::AcceptFailed(failure),
            ListenerEvent::Closed => EventModel::Closed,
            ListenerEvent::Handled(ok) => EventModel::Handled(ok),
        }
    }
}

/// What the listener asks of its caller.
#[derive(Debug, PartialEq, Eq)]
pub enum ListenerAction {
    /// Bind the channel of this identity, then report `Bound`.
    Bind(String),
    /// Wait for a connection and read its line, then report `Received`,
    /// `ReadFailed`, `AcceptFailed` or `Closed`.
    Accept,
    /// Call the handler with this payload, then report `Handled`.
    Deliver(String),
    /// Give up the channel and start the listener again.
    Restart,
    /// End the process: the listener cannot go on.
    Fail(Fatal),
    /// Nothing: the event was not awaited and has changed nothing.
    Ignore,
}

/// A [`ListenerAction`] with its text as characters.
pub enum ActionModel {
    Bind(Seq<char>),
    Accept,
    Deliver(Seq<char>),
    Restart,
    Fail(Fatal),
    Ignore,
}

impl View for ListenerAction {
    type V = ActionModel;

    open spec fn view(&self) -> ActionModel {
        match *self {
            ListenerAction::Bind(identity) => ActionModel::Bind(identity@),
            ListenerAction::Accept => ActionModel::Accept,
            ListenerAction::Deliver(payload) => ActionModel::Deliver(payload@),
            ListenerAction::Restart => ActionModel::Restart,
            ListenerAction::Fail(why) => ActionModel::Fail(why),
            ListenerAction::Ignore => ActionModel::Ignore,
        }
    }
}

/// The state of a listener: its phase, and how often its accept loop ended.
pub struct ListenerModel {
    pub phase: Phase,
    pub crashes: nat,
}

impl ListenerModel {
    /// This state in another phase.
    pub open spec fn at(self, phase: Phase) -> ListenerModel {
        ListenerModel { phase, crashes: self.crashes }
    }

    /// This state after its accept loop has ended once more.
    pub open spec fn crashed(self) -> ListenerModel {
        ListenerModel { phase: Phase::Restarting, crashes: self.crashes + 1 }
    }
}

/// The state of a listener that was never started.
pub open spec fn initial() -> ListenerModel {
    ListenerModel { phase: Phase::NotListening, crashes: 0 }
}

/// The transitions of the listener: the state after `event` has happened in
/// state `m`, and what the listener then asks for.
pub open spec fn next(m: ListenerModel, event: EventModel) -> (ListenerModel, ActionModel) {
    match (m.phase, event) {
        (Phase::FatalBindFailure, _) => (m, ActionModel::Fail(Fatal::BindFailed)),
        (Phase::CeilingExceeded, _) => (m, ActionModel::Fail(Fatal::CeilingExceeded)),
        (Phase::NotListening, EventModel::Listen(identity))
        | (Phase::Restarting, EventModel::Listen(identity)) => {
            if m.crashes > CRASH_CEILING {
                (m.at(Phase::CeilingExceeded), ActionModel::Fail(Fatal::CeilingExceeded))
            } else {
                (m.at(Phase::Binding), ActionModel::Bind(identity))
            }
        },
        (Phase::Binding, EventModel::Bound(true)) => (m.at(Phase::Accepting), ActionModel::Accept),
        (Phase::Binding, EventModel::Bound(false)) => (
            m.at(Phase::FatalBindFailure),
            ActionModel::Fail(Fatal::BindFailed),
        ),
        (Phase::Accepting, EventModel::Received(text)) => (
            m.at(Phase::HandlingConnection),
            ActionModel::Deliver(payload_of(text)),
        ),
        (Phase::Accepting, EventModel::ReadFailed) => (m, ActionModel::Accept),
        (Phase::Accepting, EventModel::AcceptFailed(failure)) => {
            if exhausted(failure) {
                (m.crashed(), ActionModel::Restart)
            } else {
                (m, ActionModel::Accept)
            }
        },
        (Phase::Accepting, EventModel::Closed) => (m.crashed(), ActionModel::Restart),
        (Phase::HandlingConnection, EventModel::Handled(_)) => (
            m.at(Phase::Accepting),
            ActionModel::Accept,
        ),
        _ => (m, ActionModel::Ignore),
    }
}

/// A listener in state `m` asks for the channel to be bound when it is
/// started: it waits to be started, and its count has not passed the
/// ceiling.
pub open spec fn binds_when_started(m: ListenerModel) -> bool {
    (m.phase is NotListening || m.phase is Restarting) && m.crashes <= CRASH_CEILING
}

/// What holds of every state that a listener can be in: the count has
/// passed the ceiling by one at most, has not passed it while the channel is
/// bound or being bound, and has passed it where the listener gave up for
/// that.
pub open spec fn sound(m: ListenerModel) -> bool {
    &&& m.crashes <= CRASH_CEILING + 1
    &&& m.phase is NotListening ==> m.crashes == 0
    &&& (m.phase is Binding || m.phase is Accepting || m.phase is HandlingConnection
        || m.phase is FatalBindFailure) ==> m.crashes <= CRASH_CEILING
    &&& m.phase is Restarting ==> m.crashes >= 1
    &&& m.phase is CeilingExceeded ==> m.crashes == CRASH_CEILING + 1
}

/// The listener of a primary instance.
pub struct Listener {
    phase: Phase,
    crashes: u16,
}

impl View for Listener {
    type V = ListenerModel;

    closed spec fn view(&self) -> ListenerModel {
        ListenerModel { phase: self.phase, crashes: self.crashes as nat }
    }
}

impl Listener {
    #[verifier::type_invariant]
    spec fn well_formed(self) -> bool {
        sound(self@)
    }

    /// A listener that was never started.
    pub fn new() -> (listener: Listener)
        ensures
            listener@ == initial(),
            sound(listener@),
    {
        Listener { phase: Phase::NotListening, crashes: 0 }
    }

    /// Where the listener stands.
    pub fn phase(&self) -> (phase: Phase)
        ensures
            phase == self@.phase,
    {
        self.phase
    }

    /// How often the accept loop has ended.
    pub fn crash_count(&self) -> (count: u16)
        ensures
            count == self@.crashes,
            count <= CRASH_CEILING + 1,
    {
        proof {
            use_type_invariant(self);
        }
        self.crashes
    }

    /// Whether the listener asks for the channel to be bound when it is
    /// started, and so needs the identity.
    pub fn binds_when_started(&self) -> (binds: bool)
        ensures
            binds == binds_when_started(self@),
    {
        match self.phase {
            Phase::NotListening | Phase::Restarting => self.crashes <= CRASH_CEILING,
            _ => false,
        }
    }

    /// Takes in what the caller reports and says what to do next.
    pub fn step(&mut self, event: ListenerEvent) -> (action: ListenerAction)
        ensures
            (final(self)@, action@) == next(old(self)@, event@),
            sound(final(self)@),
    {
        proof {
            use_type_invariant(&*self);
        }
        let action = match self.phase {
            Phase::FatalBindFailure => ListenerAction::Fail(Fatal::BindFailed),
            Phase::CeilingExceeded => ListenerAction::Fail(Fatal::CeilingExceeded),
            Phase::Binding => match event {
                ListenerEvent::Bound(true) => {
                    self.phase = Phase::Accepting;
                    ListenerAction::Accept
                },
                ListenerEvent::Bound(false) => {
                    self.phase = Phase::FatalBindFailure;
                    ListenerAction::Fail(Fatal::BindFailed)
                },
                _ => ListenerAction::Ignore,
            },
            Phase::Accepting => match event {
                ListenerEvent::Received(text) => {
                    self.phase = Phase::HandlingConnection;
                    ListenerAction::Deliver(unframe(text.as_str()))
                },
                ListenerEvent::ReadFailed => ListenerAction::Accept,
                ListenerEvent::AcceptFailed(failure) => {
                    if failure.is_exhaustion() {
                        self.crash()
                    } else {
                        ListenerAction::Accept
                    }
                },
                ListenerEvent::Closed => self.crash(),
                _ => ListenerAction::Ignore,
            },
            Phase::HandlingConnection => match event {
                ListenerEvent::Handled(_) => {
                    self.phase = Phase::Accepting;
                    ListenerAction::Accept
                },
                _ => ListenerAction::Ignore,
            },
            Phase::NotListening | Phase::Restarting => ListenerAction::Ignore,
        };
        proof {
            use_type_invariant(&*self);
        }
        action
    }

    /// Ends the accept loop: counts the end and waits to be started again.
    fn crash(&mut self) -> (action: ListenerAction)
        requires
            old(self)@.phase is Accepting,
        ensures
            final(self)@ == old(self)@.crashed(),
            action@ == ActionModel::Restart,
    {
        proof {
            use_type_invariant(&*self);
        }
        *self = Listener { phase: Phase::Restarting, crashes: self.crashes + 1 };
        ListenerAction::Restart
    }
}

/// Starts the listener, for the first time or again after its accept loop
/// has ended, on the channel of the stored identity. Where the listener
/// asks for the channel to be bound, the identity must have been stored;
/// elsewhere the store is not read.
pub fn listen(listener: &mut Listener, store: &IdentityStore) -> (action: ListenerAction)
    requires
        binds_when_started(old(listener)@) ==> store@ is Some,
    ensures
        (final(listener)@, action@) == next(old(listener)@, EventModel::Listen(store@->0)),
        sound(final(listener)@),
{
    proof {
        use_type_invariant(&*listener);
    }
    let action = match listener.phase {
        Phase::FatalBindFailure => ListenerAction::Fail(Fatal::BindFailed),
        Phase::CeilingExceeded => ListenerAction::Fail(Fatal::CeilingExceeded),
        Phase::NotListening | Phase::Restarting => {
            if listener.crashes > CRASH_CEILING {
                listener.phase = Phase::CeilingExceeded;
                ListenerAction::Fail(Fatal::CeilingExceeded)
            } else {
                listener.phase = Phase::Binding;
                ListenerAction::Bind(store.get().to_owned())
            }
        },
        _ => ListenerAction::Ignore,
    };
    proof {
        use_type_invariant(&*listener);
    }
    action
}

} // verus!
