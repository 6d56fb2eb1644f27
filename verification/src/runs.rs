//! Runs of the listener: what holds of every sequence of events.
//!
//! A run is what a listener goes through as events reach it one after the
//! other. Stated here: the listener keeps to its bound on restarts whatever
//! happens, it gives up for good, and it hands the payloads of secondary
//! launches to the handler unchanged and in their order.

use crate::connector::handoff_start;
use crate::listener::{
    exhausted, initial, next, sound, AcceptFailure, ActionModel, EventModel, Fatal,
    ListenerModel, Phase, CRASH_CEILING, EXHAUSTION_CODE,
};
use crate::wire::{framed, launch_payload_of, lemma_payload_fidelity, payload_of, single_line};
use vstd::prelude::*;

verus! {

/// The state after `events` have happened, one after the other, in state `m`.
pub open spec fn run(m: ListenerModel, events: Seq<EventModel>) -> ListenerModel
    decreases events.len(),
{
    if events.len() == 0 {
        m
    } else {
        next(run(m, events.drop_last()), events.last()).0
    }
}

/// What the listener asked for along that run, one action for each event.
pub open spec fn asked(m: ListenerModel, events: Seq<EventModel>) -> Seq<ActionModel>
    decreases events.len(),
{
    if events.len() == 0 {
        Seq::empty()
    } else {
        asked(m, events.drop_last()).push(next(run(m, events.drop_last()), events.last()).1)
    }
}

/// How often `actions` ask for the channel to be bound.
pub open spec fn binds(actions: Seq<ActionModel>) -> nat
    decreases actions.len(),
{
    if actions.len() == 0 {
        0
    } else if actions.last() is Bind {
        binds(actions.drop_last()) + 1
    } else {
        binds(actions.drop_last())
    }
}

/// The payloads that `actions` hand to the handler, in order.
pub open spec fn delivered(actions: Seq<ActionModel>) -> Seq<Seq<char>>
    decreases actions.len(),
{
    if actions.len() == 0 {
        Seq::empty()
    } else {
        match actions.last() {
            ActionModel::Deliver(payload) => delivered(actions.drop_last()).push(payload),
            _ => delivered(actions.drop_last()),
        }
    }
}

/// The event ends the accept loop.
pub open spec fn ends_loop(event: EventModel) -> bool {
    match event {
        EventModel::Closed => true,
        EventModel::AcceptFailed(failure) => exhausted(failure),
        _ => false,
    }
}

/// The events of a listener whose accept loop ends, by `exits[i]`, as soon
/// as it has started for the `i`-th time, and which is started again after
/// each end.
pub open spec fn failing_rounds(identity: Seq<char>, exits: Seq<EventModel>) -> Seq<EventModel>
    decreases exits.len(),
{
    if exits.len() == 0 {
        Seq::empty()
    } else {
        failing_rounds(identity, exits.drop_last()) + seq![
            EventModel::Listen(identity),
            EventModel::Bound(true),
            exits.last(),
        ]
    }
}

/// What comes of one attempt to accept a connection while the accept loop
/// goes on.
pub enum Arrival {
    /// A connection whose text was read; the handler then returned (`true`)
    /// or failed (`false`).
    Served(Seq<char>, bool),
    /// A connection from which nothing could be read.
    Unreadable,
    /// No connection, for a failure that passes.
    Refused(AcceptFailure),
}

/// None of `arrivals` ends the accept loop.
pub open spec fn passing(arrivals: Seq<Arrival>) -> bool {
    forall|i: int|
        0 <= i < arrivals.len() ==> ((#[trigger] arrivals[i]) matches Arrival::Refused(failure)
            ==> !exhausted(failure))
}

/// The events that one arrival brings to the listener.
pub open spec fn events_of(arrival: Arrival) -> Seq<EventModel> {
    match arrival {
        Arrival::Served(text, returned) => seq![
            EventModel::Received(text),
            EventModel::Handled(returned),
        ],
        Arrival::Unreadable => seq![EventModel::ReadFailed],
        Arrival::Refused(failure) => seq![EventModel::AcceptFailed(failure)],
    }
}

/// The events of a listener to which `arrivals` come one after the other.
pub open spec fn serving(arrivals: Seq<Arrival>) -> Seq<EventModel>
    decreases arrivals.len(),
{
    if arrivals.len() == 0 {
        Seq::empty()
    } else {
        serving(arrivals.drop_last()) + events_of(arrivals.last())
    }
}

/// The payloads of the connections whose text was read, in the order of the
/// arrivals.
pub open spec fn payloads(arrivals: Seq<Arrival>) -> Seq<Seq<char>>
    decreases arrivals.len(),
{
    if arrivals.len() == 0 {
        Seq::empty()
    } else {
        match arrivals.last() {
            Arrival::Served(text, _) => payloads(arrivals.drop_last()).push(payload_of(text)),
            _ => payloads(arrivals.drop_last()),
        }
    }
}

/// The binds that a state has used up: one for each ended accept loop, and
/// one more while the channel is bound or was last asked to be.
pub open spec fn spent(m: ListenerModel) -> nat {
    if m.phase is Binding || m.phase is Accepting || m.phase is HandlingConnection
        || m.phase is FatalBindFailure {
        m.crashes + 1
    } else {
        m.crashes
    }
}

/// A run over `first + second` is the run over `first`, then over `second`.
pub proof fn lemma_run_split(m: ListenerModel, first: Seq<EventModel>, second: Seq<EventModel>)
    ensures
        run(m, first + second) == run(run(m, first), second),
        asked(m, first + second) == asked(m, first) + asked(run(m, first), second),
    decreases second.len(),
{
    if second.len() > 0 {
        lemma_run_split(m, first, second.drop_last());
        assert((first + second).drop_last() =~= first + second.drop_last());
    }
}

/// The binds of `first + second` are those of `first` and those of `second`.
pub proof fn lemma_binds_split(first: Seq<ActionModel>, second: Seq<ActionModel>)
    ensures
        binds(first + second) == binds(first) + binds(second),
    decreases second.len(),
{
    if second.len() > 0 {
        lemma_binds_split(first, second.drop_last());
        assert((first + second).drop_last() =~= first + second.drop_last());
    }
}

/// The payloads of `first + second` are those of `first`, then those of
/// `second`.
pub proof fn lemma_delivered_split(first: Seq<ActionModel>, second: Seq<ActionModel>)
    ensures
        delivered(first + second) == delivered(first) + delivered(second),
    decreases second.len(),
{
    if second.len() > 0 {
        lemma_delivered_split(first, second.drop_last());
        assert((first + second).drop_last() =~= first + second.drop_last());
    }
}

/// No transition leaves the sound states, lowers the count, or asks for a
/// bind that the state after it has not accounted for.
pub proof fn lemma_step_keeps_sound(m: ListenerModel, event: EventModel)
    requires
        sound(m),
    ensures
        sound(next(m, event).0),
        next(m, event).0.crashes >= m.crashes,
        spent(next(m, event).0) == spent(m) + binds(seq![next(m, event).1]),
{
    lemma_binds_one(next(m, event).1);
}

/// No run leaves the sound states or lowers the count, and every bind of a
/// run is accounted for in the state that it ends in.
pub proof fn lemma_run_keeps_sound(m: ListenerModel, events: Seq<EventModel>)
    requires
        sound(m),
    ensures
        sound(run(m, events)),
        run(m, events).crashes >= m.crashes,
        spent(run(m, events)) == spent(m) + binds(asked(m, events)),
    decreases events.len(),
{
    if events.len() > 0 {
        let before = run(m, events.drop_last());
        lemma_run_keeps_sound(m, events.drop_last());
        lemma_step_keeps_sound(before, events.last());
        assert(asked(m, events).drop_last() =~= asked(m, events.drop_last()));
    }
}

/// Whatever happens to a listener, its accept loop is counted as ended at
/// most once more than the ceiling says, and the channel is bound at most
/// once for the first start and once for each restart up to the ceiling.
pub proof fn lemma_restart_bound(events: Seq<EventModel>)
    ensures
        run(initial(), events).crashes <= CRASH_CEILING + 1,
        binds(asked(initial(), events)) <= CRASH_CEILING + 1,
        binds(asked(initial(), events)) <= run(initial(), events).crashes + 1,
{
    lemma_run_keeps_sound(initial(), events);
}

/// Once the count has passed the ceiling, nothing binds the channel again
/// and nothing changes the count.
pub proof fn lemma_no_bind_past_ceiling(m: ListenerModel, events: Seq<EventModel>)
    requires
        sound(m),
        m.crashes > CRASH_CEILING,
    ensures
        binds(asked(m, events)) == 0,
        run(m, events).crashes == m.crashes,
{
    lemma_run_keeps_sound(m, events);
}

/// The accept loop is left on a failed accept exactly when the failure's
/// code is the exhaustion code. On every other failure the listener stays
/// as it is, count and all, and asks for the next connection.
pub proof fn lemma_only_exhaustion_ends_the_loop(m: ListenerModel, failure: AcceptFailure)
    requires
        m.phase is Accepting,
    ensures
        failure.os_code == Some(EXHAUSTION_CODE) ==> next(m, EventModel::AcceptFailed(failure)) == (
            m.crashed(),
            ActionModel::Restart,
        ),
        failure.os_code != Some(EXHAUSTION_CODE) ==> next(m, EventModel::AcceptFailed(failure)) == (
            m,
            ActionModel::Accept,
        ),
{
}

/// A listener that has given up stays as it is and answers every event by
/// giving up again.
pub proof fn lemma_fatal_is_final(m: ListenerModel, events: Seq<EventModel>)
    requires
        m.phase is FatalBindFailure || m.phase is CeilingExceeded,
    ensures
        run(m, events) == m,
        forall|i: int| 0 <= i < events.len() ==> (#[trigger] asked(m, events)[i]) is Fail,
        asked(m, events).len() == events.len(),
    decreases events.len(),
{
    if events.len() > 0 {
        lemma_fatal_is_final(m, events.drop_last());
    }
}

/// A run over one event is one transition.
pub proof fn lemma_run_one(m: ListenerModel, event: EventModel)
    ensures
        run(m, seq![event]) == next(m, event).0,
        asked(m, seq![event]) == seq![next(m, event).1],
{
    let one = seq![event];
    assert(run(m, one.drop_last()) == m);
    assert(asked(m, one.drop_last()) =~= Seq::<ActionModel>::empty());
}

/// One action binds once or not at all.
pub proof fn lemma_binds_one(action: ActionModel)
    ensures
        binds(seq![action]) == if action is Bind { 1nat } else { 0nat },
{
    assert(binds(seq![action].drop_last()) == 0);
}

/// One action hands over one payload or none.
pub proof fn lemma_delivered_one(action: ActionModel)
    ensures
        delivered(seq![action]) == match action {
            ActionModel::Deliver(payload) => seq![payload],
            _ => Seq::empty(),
        },
{
    assert(delivered(seq![action].drop_last()) =~= Seq::<Seq<char>>::empty());
}

/// A listener whose accept loop ends every time it has started is started
/// again after each of the first `CRASH_CEILING` ends.
/// After one end more its count stands at `CRASH_CEILING + 1`, the attempt
/// to start it is answered by giving up, and it has bound the channel
/// `CRASH_CEILING + 1` times, however many ends were forced.
pub proof fn lemma_forced_failures(identity: Seq<char>, exits: Seq<EventModel>)
    requires
        forall|i: int| 0 <= i < exits.len() ==> ends_loop(#[trigger] exits[i]),
    ensures
        ({
            let events = failing_rounds(identity, exits);
            let m = run(initial(), events);
            let restart = next(m, EventModel::Listen(identity));
            if exits.len() <= CRASH_CEILING {
                &&& m.crashes == exits.len()
                &&& binds(asked(initial(), events)) == exits.len()
                &&& restart == (m.at(Phase::Binding), ActionModel::Bind(identity))
            } else {
                &&& m.crashes == CRASH_CEILING + 1
                &&& binds(asked(initial(), events)) == CRASH_CEILING + 1
                &&& restart == (
                    m.at(Phase::CeilingExceeded),
                    ActionModel::Fail(Fatal::CeilingExceeded),
                )
            }
        }),
    decreases exits.len(),
{
    if exits.len() > 0 {
        let earlier = failing_rounds(identity, exits.drop_last());
        let before = run(initial(), earlier);
        let listen = EventModel::Listen(identity);
        let bound = EventModel::Bound(true);
        let exit = exits.last();
        lemma_forced_failures(identity, exits.drop_last());

        let started = next(before, listen);
        let accepting = next(started.0, bound);
        let ended = next(accepting.0, exit);
        let round = seq![listen] + seq![bound] + seq![exit];
        assert(seq![listen, bound, exit] =~= round);

        lemma_run_split(initial(), earlier, round);
        lemma_run_split(before, seq![listen] + seq![bound], seq![exit]);
        lemma_run_split(before, seq![listen], seq![bound]);
        lemma_run_one(before, listen);
        lemma_run_one(started.0, bound);
        lemma_run_one(accepting.0, exit);

        lemma_binds_split(asked(initial(), earlier), asked(before, round));
        lemma_binds_split(seq![started.1] + seq![accepting.1], seq![ended.1]);
        lemma_binds_split(seq![started.1], seq![accepting.1]);
        lemma_binds_one(started.1);
        lemma_binds_one(accepting.1);
        lemma_binds_one(ended.1);
    }
}

/// A listener that accepts connections one after the other hands the
/// payload of each connection whose text was read to the handler once, in
/// the order of the connections, and is then ready for the next one. A
/// connection that could not be read, a failure that passes and a handler
/// that fails change nothing of that.
pub proof fn lemma_delivery_order(m: ListenerModel, arrivals: Seq<Arrival>)
    requires
        m.phase is Accepting,
        passing(arrivals),
    ensures
        run(m, serving(arrivals)) == m,
        delivered(asked(m, serving(arrivals))) == payloads(arrivals),
    decreases arrivals.len(),
{
    if arrivals.len() > 0 {
        let earlier = serving(arrivals.drop_last());
        lemma_delivery_order(m, arrivals.drop_last());
        lemma_run_split(m, earlier, events_of(arrivals.last()));
        match arrivals.last() {
            Arrival::Served(text, returned) => {
                let received = EventModel::Received(text);
                let handled = EventModel::Handled(returned);
                let handling = m.at(Phase::HandlingConnection);
                let deliver = ActionModel::Deliver(payload_of(text));
                assert(seq![received, handled] =~= seq![received] + seq![handled]);
                lemma_run_split(m, seq![received], seq![handled]);
                lemma_run_one(m, received);
                lemma_run_one(handling, handled);
                lemma_delivered_split(asked(m, earlier), seq![deliver] + seq![ActionModel::Accept]);
                lemma_delivered_split(seq![deliver], seq![ActionModel::Accept]);
                lemma_delivered_one(deliver);
                lemma_delivered_one(ActionModel::Accept);
            },
            Arrival::Unreadable => {
                lemma_run_one(m, EventModel::ReadFailed);
                lemma_delivered_split(asked(m, earlier), seq![ActionModel::Accept]);
                lemma_delivered_one(ActionModel::Accept);
            },
            Arrival::Refused(failure) => {
                lemma_run_one(m, EventModel::AcceptFailed(failure));
                lemma_delivered_split(asked(m, earlier), seq![ActionModel::Accept]);
                lemma_delivered_one(ActionModel::Accept);
            },
        }
    }
}

/// The arrivals at a listener to which the launches with the command lines
/// `launches` hand themselves over, one after the other.
pub open spec fn handing_over(launches: Seq<Seq<String>>) -> Seq<Arrival> {
    launches.map_values(|args: Seq<String>| Arrival::Served(framed(launch_payload_of(args)), true))
}

/// The payloads of the launches with the command lines `launches`.
pub open spec fn launch_payloads(launches: Seq<Seq<String>>) -> Seq<Seq<char>> {
    launches.map_values(|args: Seq<String>| launch_payload_of(args))
}

/// What a secondary instance sends reaches the handler as it was launched
/// with: an accepting listener that receives the message of a hand-over
/// delivers the payload of that launch, if the payload holds no delimiter.
/// For a launch without an argument that is the empty payload.
pub proof fn lemma_handed_over_payload_is_delivered(m: ListenerModel, args: Seq<String>)
    requires
        m.phase is Accepting,
        single_line(launch_payload_of(args)),
    ensures
        next(m, EventModel::Received(handoff_start(args).message)) == (
            m.at(Phase::HandlingConnection),
            ActionModel::Deliver(launch_payload_of(args)),
        ),
        args.len() <= 1 ==> launch_payload_of(args) == Seq::<char>::empty(),
{
    lemma_payload_fidelity(launch_payload_of(args), Seq::empty());
    assert(framed(launch_payload_of(args)) + Seq::<char>::empty() =~= framed(
        launch_payload_of(args),
    ));
}

/// The handler sees the payloads of secondary launches in the order in which
/// the launches connected, each exactly as it was launched with, if no
/// payload holds a delimiter.
pub proof fn lemma_launches_are_delivered_in_order(m: ListenerModel, launches: Seq<Seq<String>>)
    requires
        m.phase is Accepting,
        forall|i: int| 0 <= i < launches.len() ==> single_line(launch_payload_of(#[trigger] launches[i])),
    ensures
        delivered(asked(m, serving(handing_over(launches)))) == launch_payloads(launches),
        run(m, serving(handing_over(launches))) == m,
{
    let arrivals = handing_over(launches);
    lemma_delivery_order(m, arrivals);
    lemma_payloads_of_launches(launches);
}

/// The payloads that the arrivals of `launches` carry are the payloads of
/// the launches.
proof fn lemma_payloads_of_launches(launches: Seq<Seq<String>>)
    requires
        forall|i: int| 0 <= i < launches.len() ==> single_line(launch_payload_of(#[trigger] launches[i])),
    ensures
        payloads(handing_over(launches)) == launch_payloads(launches),
    decreases launches.len(),
{
    if launches.len() > 0 {
        let last = launches.last();
        lemma_payloads_of_launches(launches.drop_last());
        assert(handing_over(launches).drop_last() =~= handing_over(launches.drop_last()));
        lemma_payload_fidelity(launch_payload_of(last), Seq::empty());
        assert(framed(launch_payload_of(last)) + Seq::<char>::empty() =~= framed(
            launch_payload_of(last),
        ));
        assert(launch_payloads(launches) =~= launch_payloads(launches.drop_last()).push(
            launch_payload_of(last),
        ));
    } else {
        assert(payloads(handing_over(launches)) =~= launch_payloads(launches));
    }
}

} // verus!
