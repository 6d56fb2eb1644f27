//! The start of an instance: which role it takes, and how a secondary
//! instance hands its launch over to the primary one.
//!
//! The caller tries to connect to the rendezvous channel and reports what it
//! found. An instance that finds no channel is the primary one and claims the
//! identity. Every other instance is secondary: it goes through the steps of
//! a [`Handoff`] and exits.

use crate::activation::{dummy_keypress, dummy_stroke, foreground_target, target_for};
use crate::activation::{ForegroundTarget, KeyStroke, KEY_RELEASED};
use crate::identity::IdentityStore;
use crate::wire::{frame, framed, launch_payload, launch_payload_of};
use vstd::prelude::*;
use vstd::string::*;

verus! {

/// What the attempt to connect to the rendezvous channel found.
#[derive(Clone, Copy, Debug, PartialEq, Eq, Structural)]
pub enum Probe {
    /// A listener took the connection.
    Connected,
    /// There is no channel of this name.
    Absent,
    /// The attempt failed for another reason.
    Failed,
}

/// The part that an instance plays.
#[derive(Clone, Copy, Debug, PartialEq, Eq, Structural)]
pub enum Role {
    /// The one instance that listens on the channel.
    Primary,
    /// An instance that hands its launch to the primary one and exits.
    Secondary,
}

/// The role of an instance whose attempt to connect found `probe`. Only an
/// absent channel makes a primary instance: after any other failure a
/// listener may be there, and a second primary must not come up beside it.
pub open spec fn role_for(probe: Probe) -> Role {
    match probe {
        Probe::Absent => Role::Primary,
        _ => Role::Secondary,
    }
}

/// Decides the role of this instance from what its attempt to connect to the
/// channel named `identifier` found, and claims the identity for a primary
/// instance. The identity must not have been claimed before by an instance
/// that is to become primary.
pub fn prepare(store: &mut IdentityStore, identifier: &str, probe: Probe) -> (role: Role)
    requires
        probe is Absent ==> old(store)@ is None,
    ensures
        role == role_for(probe),
        role is Primary ==> final(store)@ == Some(identifier@),
        role is Secondary ==> final(store)@ == old(store)@,
{
    match probe {
        Probe::Absent => {
            store.set(identifier);
            Role::Primary
        },
        _ => Role::Secondary,
    }
}

/// How far a hand-over has come.
#[derive(Clone, Copy, Debug, PartialEq, Eq, Structural)]
pub enum HandoffPhase {
    /// The key events were asked for.
    Activating,
    /// The peer's process identifier was asked for.
    Identifying,
    /// The foreground permission was asked for.
    Granting,
    /// The payload was asked to be written.
    Sending,
    /// The process was asked to exit.
    Finished,
}

/// What the caller reports to a hand-over.
#[derive(Clone, Copy, Debug, PartialEq, Eq, Structural)]
pub enum HandoffEvent {
    /// The key events were sent.
    KeysSent,
    /// The peer's process identifier, where the connection could tell it.
    Peer(Option<u32>),
    /// The permission was granted (`true`) or refused (`false`).
    Granted(bool),
    /// The payload was written (`true`) or could not be (`false`).
    Sent(bool),
}

/// What a hand-over asks of its caller.
#[derive(Debug, PartialEq, Eq)]
pub enum HandoffAction {
    /// Put these events into the input queue, then report `KeysSent`.
    PressKeys([KeyStroke; 2]),
    /// Ask the connection for the peer's process identifier, then report
    /// `Peer`.
    QueryPeer,
    /// Allow this target to take the foreground, then report `Granted`.
    GrantForeground(ForegroundTarget),
    /// Write this text to the connection, then report `Sent`.
    Send(String),
    /// Exit with this status.
    Exit(i32),
    /// Nothing: the event was not awaited and has changed nothing.
    Ignore,
}

/// A [`HandoffAction`] with its data as sequences.
pub enum HandoffActionModel {
    PressKeys(Seq<KeyStroke>),
    QueryPeer,
    GrantForeground(ForegroundTarget),
    Send(Seq<char>),
    Exit(i32),
    Ignore,
}

impl View for HandoffAction {
    type V = HandoffActionModel;

    open spec fn view(&self) -> HandoffActionModel {
        match *self {
            HandoffAction::PressKeys(strokes) => HandoffActionModel::PressKeys(strokes@),
            HandoffAction::QueryPeer => HandoffActionModel::QueryPeer,
            HandoffAction::GrantForeground(target) => HandoffActionModel::GrantForeground(target),
            HandoffAction::Send(text) => HandoffActionModel::Send(text@),
            HandoffAction::Exit(status) => HandoffActionModel::Exit(status),
            HandoffAction::Ignore => HandoffActionModel::Ignore,
        }
    }
}

/// The state of a hand-over: its phase, and the text that it is to send.
pub struct HandoffModel {
    pub phase: HandoffPhase,
    pub message: Seq<char>,
}

impl HandoffModel {
    /// This state in another phase.
    pub open spec fn at(self, phase: HandoffPhase) -> HandoffModel {
        HandoffModel { phase, message: self.message }
    }
}

/// The hand-over of a launch with the command line `args`, as it begins.
pub open spec fn handoff_start(args: Seq<String>) -> HandoffModel {
    HandoffModel { phase: HandoffPhase::Activating, message: framed(launch_payload_of(args)) }
}

/// What a hand-over asks for first.
pub open spec fn first_action() -> HandoffActionModel {
    HandoffActionModel::PressKeys(seq![dummy_stroke(0), dummy_stroke(KEY_RELEASED)])
}

/// The transitions of a hand-over. No step can fail it: whether the
/// permission was granted and whether the payload was written changes
/// neither what comes next nor the exit status.
pub open spec fn handoff_next(h: HandoffModel, event: HandoffEvent) -> (
    HandoffModel,
    HandoffActionModel,
) {
    match (h.phase, event) {
        (HandoffPhase::Finished, _) => (h, HandoffActionModel::Exit(0)),
        (HandoffPhase::Activating, HandoffEvent::KeysSent) => (
            h.at(HandoffPhase::Identifying),
            HandoffActionModel::QueryPeer,
        ),
        (HandoffPhase::Identifying, HandoffEvent::Peer(peer)) => (
            h.at(HandoffPhase::Granting),
            HandoffActionModel::GrantForeground(target_for(peer)),
        ),
        (HandoffPhase::Granting, HandoffEvent::Granted(_)) => (
            h.at(HandoffPhase::Sending),
            HandoffActionModel::Send(h.message),
        ),
        (HandoffPhase::Sending, HandoffEvent::Sent(_)) => (
            h.at(HandoffPhase::Finished),
            HandoffActionModel::Exit(0),
        ),
        _ => (h, HandoffActionModel::Ignore),
    }
}

/// The hand-over of a secondary instance.
pub struct Handoff {
    phase: HandoffPhase,
    message: String,
}

impl View for Handoff {
    type V = HandoffModel;

    closed spec fn view(&self) -> HandoffModel {
        HandoffModel { phase: self.phase, message: self.message@ }
    }
}

impl Handoff {
    /// Begins the hand-over of a launch with the command line `args`.
    pub fn begin(args: &Vec<String>) -> (started: (Handoff, HandoffAction))
        ensures
            started.0@ == handoff_start(args@),
            started.1@ == first_action(),
    {
        let payload = launch_payload(args);
        let handoff = Handoff { phase: HandoffPhase::Activating, message: frame(payload.as_str()) };
        (handoff, HandoffAction::PressKeys(dummy_keypress()))
    }

    /// How far the hand-over has come.
    pub fn phase(&self) -> (phase: HandoffPhase)
        ensures
            phase == self@.phase,
    {
        self.phase
    }

    /// Takes in what the caller reports and says what to do next.
    pub fn step(&mut self, event: HandoffEvent) -> (action: HandoffAction)
        ensures
            (final(self)@, action@) == handoff_next(old(self)@, event),
    {
        match self.phase {
            HandoffPhase::Finished => HandoffAction::Exit(0),
            HandoffPhase::Activating => match event {
                HandoffEvent::KeysSent => {
                    self.phase = HandoffPhase::Identifying;
                    HandoffAction::QueryPeer
                },
                _ => HandoffAction::Ignore,
            },
            HandoffPhase::Identifying => match event {
                HandoffEvent::Peer(peer) => {
                    self.phase = HandoffPhase::Granting;
                    HandoffAction::GrantForeground(foreground_target(peer))
                },
                _ => HandoffAction::Ignore,
            },
            HandoffPhase::Granting => match event {
                HandoffEvent::Granted(_) => {
                    self.phase = HandoffPhase::Sending;
                    HandoffAction::Send(self.message.clone())
                },
                _ => HandoffAction::Ignore,
            },
            HandoffPhase::Sending => match event {
                HandoffEvent::Sent(_) => {
                    self.phase = HandoffPhase::Finished;
                    HandoffAction::Exit(0)
                },
                _ => HandoffAction::Ignore,
            },
        }
    }
}

/// Whether a listener holds the channel when the launch with number `i`
/// tries to connect: one does as soon as an earlier launch has become the
/// primary instance.
pub open spec fn held_before(probes: Seq<Probe>, i: int) -> bool {
    exists|j: int| 0 <= j < i && role_for(#[trigger] probes[j]) is Primary
}

/// The launches found the channel as an exclusive channel shows itself:
/// absent to a launch exactly when no listener held it.
pub open spec fn channel_is_exclusive(probes: Seq<Probe>) -> bool {
    forall|i: int|
        0 <= i < probes.len() ==> ((#[trigger] probes[i]) is Absent <==> !held_before(probes, i))
}

/// Of the launches of one application that come one after the other on an
/// exclusive channel, the first becomes the primary instance and every
/// later one a secondary instance.
pub proof fn lemma_one_primary(probes: Seq<Probe>)
    requires
        channel_is_exclusive(probes),
    ensures
        forall|i: int|
            0 <= i < probes.len() ==> (role_for(#[trigger] probes[i]) is Primary <==> i == 0),
{
    assert forall|i: int| 0 <= i < probes.len() implies (role_for(#[trigger] probes[i]) is Primary
        <==> i == 0) by {
        if i == 0 {
            assert(!held_before(probes, 0));
        } else {
            assert(!held_before(probes, 0));
            assert(role_for(probes[0]) is Primary);
            assert(held_before(probes, i));
        }
    }
}

/// A hand-over goes through its steps in their order and ends with the exit
/// status 0, whoever the peer is, and whether or not the permission was
/// granted and the payload written.
pub proof fn lemma_handoff_always_exits(
    start: HandoffModel,
    peer: Option<u32>,
    granted: bool,
    sent: bool,
)
    requires
        start.phase is Activating,
    ensures
        ({
            let identifying = handoff_next(start, HandoffEvent::KeysSent);
            let granting = handoff_next(identifying.0, HandoffEvent::Peer(peer));
            let sending = handoff_next(granting.0, HandoffEvent::Granted(granted));
            let finished = handoff_next(sending.0, HandoffEvent::Sent(sent));
            &&& identifying.1 == HandoffActionModel::QueryPeer
            &&& granting.1 == HandoffActionModel::GrantForeground(target_for(peer))
            &&& sending.1 == HandoffActionModel::Send(start.message)
            &&& finished.1 == HandoffActionModel::Exit(0)
            &&& finished.0 == start.at(HandoffPhase::Finished)
        }),
{
}

} // verus!
