//! What the dispatcher and the drainer guarantee together, joined by the
//! channel that carries launched jobs' handles, in order, from one to the
//! other.
use vstd::prelude::*;
use crate::dispatcher::{
    DispatchAction, DispatchEvent, DispatchPhase, Queued, dispatch_protocol, dispatch_run,
    lemma_dispatch_accounting, stopped, held,
};
use crate::drainer::{
    DrainEvent, DrainPhase, Forwarded, drain_protocol, drain_run, lemma_drain_accounting,
};
use crate::trace::occurrences;

verus! {

/// The messages that the dispatcher's actions hand to the drainer, in order:
/// a handle for each launch, the marker for the stop.
pub open spec fn forwarded(actions: Seq<DispatchAction>) -> Seq<Forwarded>
    decreases actions.len(),
{
    if actions.len() == 0 {
        Seq::empty()
    } else {
        let rest = forwarded(actions.drop_first());
        match actions[0] {
            DispatchAction::Launch => seq![Forwarded::Handle] + rest,
            DispatchAction::ForwardStop => seq![Forwarded::Stop] + rest,
            _ => rest,
        }
    }
}

/// The messages the drainer took in, in order.
pub open spec fn taken_in(events: Seq<DrainEvent>) -> Seq<Forwarded>
    decreases events.len(),
{
    if events.len() == 0 {
        Seq::empty()
    } else {
        let rest = taken_in(events.drop_first());
        match events[0] {
            DrainEvent::Received(m) => seq![m] + rest,
            _ => rest,
        }
    }
}

/// A handle is forwarded for each launch, the marker for each stop.
pub proof fn lemma_forwarded_counts(actions: Seq<DispatchAction>)
    ensures
        occurrences(forwarded(actions), Forwarded::Handle)
            == occurrences(actions, DispatchAction::Launch),
        occurrences(forwarded(actions), Forwarded::Stop)
            == occurrences(actions, DispatchAction::ForwardStop),
    decreases actions.len(),
{
    if actions.len() > 0 {
        lemma_forwarded_counts(actions.drop_first());
        let rest = forwarded(actions.drop_first());
        assert((seq![Forwarded::Handle] + rest).drop_first() =~= rest);
        assert((seq![Forwarded::Stop] + rest).drop_first() =~= rest);
    }
}

/// The drainer takes in one message per `Received` event.
pub proof fn lemma_taken_in_counts(events: Seq<DrainEvent>)
    ensures
        occurrences(taken_in(events), Forwarded::Handle)
            == occurrences(events, DrainEvent::Received(Forwarded::Handle)),
        occurrences(taken_in(events), Forwarded::Stop)
            == occurrences(events, DrainEvent::Received(Forwarded::Stop)),
    decreases events.len(),
{
    if events.len() > 0 {
        lemma_taken_in_counts(events.drop_first());
        let rest = taken_in(events.drop_first());
        assert((seq![Forwarded::Handle] + rest).drop_first() =~= rest);
        assert((seq![Forwarded::Stop] + rest).drop_first() =~= rest);
    }
}

/// The drain signal waits for all scheduled work. Run the dispatcher and the
/// drainer from their start, each on events that keep its protocol, with the
/// drainer taking in exactly what the dispatcher forwarded, in order. When
/// the drainer has sent its signal, it has joined one job per launch, and
/// so one per granted permit: every launched job has ended. Where it got the
/// stop marker, the dispatcher has stopped, and then every task it took off
/// the queue has been launched or discarded.
pub proof fn lemma_drained_means_all_joined(
    dispatch_events: Seq<DispatchEvent>,
    drain_events: Seq<DrainEvent>,
)
    requires
        dispatch_protocol(DispatchPhase::Receiving, dispatch_events),
        drain_protocol(DrainPhase::Receiving, drain_events),
        taken_in(drain_events) == forwarded(dispatch_run(DispatchPhase::Receiving, dispatch_events).1),
        drain_run(DrainPhase::Receiving, drain_events).0 == DrainPhase::Drained,
    ensures
        occurrences(drain_events, DrainEvent::Joined)
            == occurrences(dispatch_run(DispatchPhase::Receiving, dispatch_events).1, DispatchAction::Launch),
        occurrences(drain_events, DrainEvent::Joined)
            == occurrences(dispatch_events, DispatchEvent::PermitGranted),
        occurrences(drain_events, DrainEvent::Received(Forwarded::Stop)) > 0 ==> {
            &&& dispatch_run(DispatchPhase::Receiving, dispatch_events).0 == DispatchPhase::Stopped
            &&& occurrences(dispatch_run(DispatchPhase::Receiving, dispatch_events).1, DispatchAction::Launch)
                + occurrences(dispatch_run(DispatchPhase::Receiving, dispatch_events).1, DispatchAction::Discard)
                == occurrences(dispatch_events, DispatchEvent::Received(Queued::Task))
        },
{
    let actions = dispatch_run(DispatchPhase::Receiving, dispatch_events).1;
    lemma_dispatch_accounting(DispatchPhase::Receiving, dispatch_events);
    lemma_drain_accounting(DrainPhase::Receiving, drain_events);
    lemma_forwarded_counts(actions);
    lemma_taken_in_counts(drain_events);
    assert(stopped(DispatchPhase::Receiving) == 0);
    assert(held(DispatchPhase::Receiving) == 0);
}

} // verus!
