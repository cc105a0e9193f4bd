//! The drainer: the loop that joins, in order, the jobs the dispatcher
//! launched, and sends the drain signal once the stop marker comes.
use vstd::prelude::*;
use crate::trace::occurrences;

verus! {

/// What the dispatcher hands to the drainer, with the join handle left out.
#[derive(Debug, Clone, Copy, PartialEq, Eq, Structural)]
pub enum Forwarded {
    /// The join handle of a launched job.
    Handle,
    /// No handle follows.
    Stop,
}

/// What the drainer is waiting for.
#[derive(Debug, Clone, Copy, PartialEq, Eq, Structural)]
pub enum DrainWait {
    /// The next message from the dispatcher.
    NextMessage,
    /// The end of the job whose handle it holds.
    Join,
    /// Nothing: the pool is drained.
    Nothing,
}

/// What happened while the drainer waited.
#[derive(Debug, Clone, Copy, PartialEq, Eq, Structural)]
pub enum DrainEvent {
    /// A message from the dispatcher came.
    Received(Forwarded),
    /// The dispatcher's side of the channel is gone and nothing is left in it.
    AckClosed,
    /// The held job has ended, whether it finished or failed.
    Joined,
}

/// What the drainer does in answer to an event.
#[derive(Debug, Clone, Copy, PartialEq, Eq, Structural)]
pub enum DrainAction {
    /// Send the drain signal; the drainer is done.
    SignalDrained,
    /// Nothing to do but wait again.
    Continue,
}

/// Where the drainer stands.
#[derive(Debug, Clone, Copy, PartialEq, Eq, Structural)]
pub enum DrainPhase {
    /// Waiting for the next message from the dispatcher.
    Receiving,
    /// Holding a join handle and waiting for its job to end.
    Joining,
    /// Done: the drain signal is sent.
    Drained,
}

/// What the drainer waits for in each phase.
pub open spec fn drain_wait(phase: DrainPhase) -> DrainWait {
    match phase {
        DrainPhase::Receiving => DrainWait::NextMessage,
        DrainPhase::Joining => DrainWait::Join,
        DrainPhase::Drained => DrainWait::Nothing,
    }
}

/// Whether an event is one of those the wait can end with.
pub open spec fn drain_answers(wait: DrainWait, event: DrainEvent) -> bool {
    match wait {
        DrainWait::NextMessage => event is Received || event is AckClosed,
        DrainWait::Join => event is Joined,
        DrainWait::Nothing => false,
    }
}

/// One step of the drainer: the next phase and the action. An event that
/// does not answer the current wait changes nothing.
pub open spec fn drain_step(phase: DrainPhase, event: DrainEvent) -> (DrainPhase, DrainAction) {
    match phase {
        DrainPhase::Receiving => match event {
            DrainEvent::Received(Forwarded::Handle) => (DrainPhase::Joining, DrainAction::Continue),
            DrainEvent::Received(Forwarded::Stop) => (DrainPhase::Drained, DrainAction::SignalDrained),
            DrainEvent::AckClosed => (DrainPhase::Drained, DrainAction::SignalDrained),
            DrainEvent::Joined => (phase, DrainAction::Continue),
        },
        DrainPhase::Joining => match event {
            DrainEvent::Joined => (DrainPhase::Receiving, DrainAction::Continue),
            _ => (phase, DrainAction::Continue),
        },
        DrainPhase::Drained => (phase, DrainAction::Continue),
    }
}

/// The drainer run on a sequence of events: the phase it ends in and the
/// actions it takes, one per event.
pub open spec fn drain_run(phase: DrainPhase, events: Seq<DrainEvent>) -> (DrainPhase, Seq<DrainAction>)
    decreases events.len(),
{
    if events.len() == 0 {
        (phase, Seq::empty())
    } else {
        let (next, action) = drain_step(phase, events[0]);
        let (last, rest) = drain_run(next, events.drop_first());
        (last, seq![action] + rest)
    }
}

/// Whether every event answers what the drainer was waiting for when it came.
pub open spec fn drain_protocol(phase: DrainPhase, events: Seq<DrainEvent>) -> bool
    decreases events.len(),
{
    events.len() == 0 || {
        &&& drain_answers(drain_wait(phase), events[0])
        &&& drain_protocol(drain_step(phase, events[0]).0, events.drop_first())
    }
}

/// 1 where the drainer holds a join handle, else 0.
pub open spec fn joining(phase: DrainPhase) -> nat {
    if phase == DrainPhase::Joining { 1 } else { 0 }
}

/// 1 where the pool is drained, else 0.
pub open spec fn drained(phase: DrainPhase) -> nat {
    if phase == DrainPhase::Drained { 1 } else { 0 }
}

/// The drainer's state.
pub struct Drainer {
    phase: DrainPhase,
}

impl View for Drainer {
    type V = DrainPhase;

    closed spec fn view(&self) -> DrainPhase {
        self.phase
    }
}

impl Drainer {
    /// A drainer waiting for the first message.
    pub fn new() -> (d: Drainer)
        ensures
            d@ == DrainPhase::Receiving,
    {
        Drainer { phase: DrainPhase::Receiving }
    }

    /// What the drainer waits for now.
    pub fn waiting_for(&self) -> (wait: DrainWait)
        ensures
            wait == drain_wait(self@),
    {
        match self.phase {
            DrainPhase::Receiving => DrainWait::NextMessage,
            DrainPhase::Joining => DrainWait::Join,
            DrainPhase::Drained => DrainWait::Nothing,
        }
    }

    /// Takes in an event and says what to do about it.
    pub fn step(&mut self, event: DrainEvent) -> (action: DrainAction)
        ensures
            (final(self)@, action) == drain_step(old(self)@, event),
    {
        match self.phase {
            DrainPhase::Receiving => match event {
                DrainEvent::Received(Forwarded::Handle) => {
                    self.phase = DrainPhase::Joining;
                    DrainAction::Continue
                },
                DrainEvent::Received(Forwarded::Stop) | DrainEvent::AckClosed => {
                    self.phase = DrainPhase::Drained;
                    DrainAction::SignalDrained
                },
                DrainEvent::Joined => DrainAction::Continue,
            },
            DrainPhase::Joining => match event {
                DrainEvent::Joined => {
                    self.phase = DrainPhase::Receiving;
                    DrainAction::Continue
                },
                _ => DrainAction::Continue,
            },
            DrainPhase::Drained => DrainAction::Continue,
        }
    }
}

/// Once drained, the drainer stays drained and does nothing, whatever events
/// come; and a loop that keeps the protocol hands it none.
pub proof fn lemma_drained_is_final(events: Seq<DrainEvent>)
    ensures
        drain_run(DrainPhase::Drained, events).0 == DrainPhase::Drained,
        drain_run(DrainPhase::Drained, events).1.len() == events.len(),
        forall|i: int|
            0 <= i < events.len() ==> #[trigger] drain_run(DrainPhase::Drained, events).1[i]
                == DrainAction::Continue,
        drain_protocol(DrainPhase::Drained, events) ==> events.len() == 0,
    decreases events.len(),
{
    if events.len() > 0 {
        lemma_drained_is_final(events.drop_first());
        let rest = drain_run(DrainPhase::Drained, events.drop_first()).1;
        let all = drain_run(DrainPhase::Drained, events).1;
        assert(all == seq![DrainAction::Continue] + rest);
        assert forall|i: int| 0 <= i < events.len() implies #[trigger] all[i]
            == DrainAction::Continue by {
            if i > 0 {
                assert(all[i] == rest[i - 1]);
            }
        }
    }
}

/// What every run of the drainer accounts for. One action per event; the
/// drain signal goes out at most once, exactly when the drainer comes to
/// its end. And where the events keep the protocol, every job handle taken
/// in has been joined, but for the one still held: so when the signal goes
/// out, every job handed over has ended.
pub proof fn lemma_drain_accounting(phase: DrainPhase, events: Seq<DrainEvent>)
    ensures
        drain_run(phase, events).1.len() == events.len(),
        occurrences(drain_run(phase, events).1, DrainAction::SignalDrained) + drained(phase)
            == drained(drain_run(phase, events).0),
        drain_protocol(phase, events) ==> occurrences(events, DrainEvent::Received(Forwarded::Handle))
            + joining(phase) == occurrences(events, DrainEvent::Joined) + joining(
            drain_run(phase, events).0,
        ),
    decreases events.len(),
{
    if events.len() > 0 {
        let (next, action) = drain_step(phase, events[0]);
        lemma_drain_accounting(next, events.drop_first());
        let rest = drain_run(next, events.drop_first()).1;
        let all = drain_run(phase, events).1;
        assert(all == seq![action] + rest);
        assert(all.drop_first() =~= rest);
    }
}

/// Unfolding a run on its last event: the run on the first `i + 1` events
/// is the run on the first `i` followed by one step; and where the events
/// keep the protocol, the event at `i` answers the wait the drainer was in.
pub proof fn lemma_drain_run_prefix(phase: DrainPhase, events: Seq<DrainEvent>, i: int)
    requires
        0 <= i < events.len(),
    ensures
        drain_run(phase, events.take(i + 1)).0
            == drain_step(drain_run(phase, events.take(i)).0, events[i]).0,
        drain_protocol(phase, events) ==> drain_answers(
            drain_wait(drain_run(phase, events.take(i)).0),
            events[i],
        ),
    decreases i,
{
    let next = drain_step(phase, events[0]).0;
    if i == 0 {
        assert(events.take(0) =~= Seq::<DrainEvent>::empty());
        assert(events.take(1).drop_first() =~= Seq::<DrainEvent>::empty());
        assert(drain_run(next, events.take(1).drop_first()).0 == next);
    } else {
        lemma_drain_run_prefix(next, events.drop_first(), i - 1);
        assert(events.take(i).drop_first() =~= events.drop_first().take(i - 1));
        assert(events.take(i + 1).drop_first() =~= events.drop_first().take(i));
        assert(events.take(i)[0] == events[0]);
        assert(events.take(i + 1)[0] == events[0]);
        assert(events.drop_first()[i - 1] == events[i]);
    }
}

/// A job handle taken in is joined before the next message is taken: the
/// drainer waits for the jobs one by one, in the order they were handed over.
pub proof fn lemma_one_join_at_a_time(events: Seq<DrainEvent>, i: int)
    requires
        drain_protocol(DrainPhase::Receiving, events),
        0 <= i,
        i + 1 < events.len(),
        events[i] == DrainEvent::Received(Forwarded::Handle),
    ensures
        events[i + 1] == DrainEvent::Joined,
{
    lemma_drain_run_prefix(DrainPhase::Receiving, events, i);
    lemma_drain_run_prefix(DrainPhase::Receiving, events, i + 1);
}

/// The stop marker, or the closing of the channel, is the last thing the
/// drainer takes in.
pub proof fn lemma_nothing_after_drain(events: Seq<DrainEvent>, i: int)
    requires
        drain_protocol(DrainPhase::Receiving, events),
        0 <= i < events.len(),
        events[i] == DrainEvent::Received(Forwarded::Stop) || events[i] == DrainEvent::AckClosed,
    ensures
        i == events.len() - 1,
{
    lemma_drain_run_prefix(DrainPhase::Receiving, events, i);
    if i + 1 < events.len() {
        lemma_drain_run_prefix(DrainPhase::Receiving, events, i + 1);
    }
}

} // verus!
