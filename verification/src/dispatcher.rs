//! The dispatcher: the loop that takes tasks off the ordering queue, waits
//! for a concurrency permit for each, launches it, and hands its join handle
//! to the drainer; the stop marker, or a closed queue, ends it.
use vstd::prelude::*;
use crate::trace::occurrences;

verus! {

/// What the ordering queue carries, with the task itself left out.
#[derive(Debug, Clone, Copy, PartialEq, Eq, Structural)]
pub enum Queued {
    /// A task to run.
    Task,
    /// The stop marker: nothing behind it is taken off the queue.
    Stop,
}

/// What the dispatcher is waiting for.
#[derive(Debug, Clone, Copy, PartialEq, Eq, Structural)]
pub enum DispatchWait {
    /// The next message of the ordering queue.
    NextMessage,
    /// A concurrency permit for the task it holds.
    Permit,
    /// Nothing: the dispatcher has stopped.
    Nothing,
}

/// What happened while the dispatcher waited.
#[derive(Debug, Clone, Copy, PartialEq, Eq, Structural)]
pub enum DispatchEvent {
    /// A message was taken off the ordering queue.
    Received(Queued),
    /// The ordering queue is closed and empty.
    QueueClosed,
    /// A concurrency permit was granted for the held task.
    PermitGranted,
    /// The semaphore is closed: no permit will come for the held task.
    PermitRefused,
}

/// What the dispatcher does in answer to an event.
#[derive(Debug, Clone, Copy, PartialEq, Eq, Structural)]
pub enum DispatchAction {
    /// Start the held task with its permit, and hand its join handle to the
    /// drainer.
    Launch,
    /// Drop the held task: no permit can be had for it.
    Discard,
    /// Hand the stop marker to the drainer; the dispatcher is done.
    ForwardStop,
    /// Nothing to do but wait again.
    Continue,
}

/// Where the dispatcher stands.
#[derive(Debug, Clone, Copy, PartialEq, Eq, Structural)]
pub enum DispatchPhase {
    /// Waiting for the next message of the ordering queue.
    Receiving,
    /// Holding a task and waiting for a permit to run it.
    AwaitingPermit,
    /// Done: the stop marker came, or the queue closed.
    Stopped,
}

/// What the dispatcher waits for in each phase.
pub open spec fn dispatch_wait(phase: DispatchPhase) -> DispatchWait {
    match phase {
        DispatchPhase::Receiving => DispatchWait::NextMessage,
        DispatchPhase::AwaitingPermit => DispatchWait::Permit,
        DispatchPhase::Stopped => DispatchWait::Nothing,
    }
}

/// Whether an event is one of those the wait can end with.
pub open spec fn dispatch_answers(wait: DispatchWait, event: DispatchEvent) -> bool {
    match wait {
        DispatchWait::NextMessage => event is Received || event is QueueClosed,
        DispatchWait::Permit => event is PermitGranted || event is PermitRefused,
        DispatchWait::Nothing => false,
    }
}

/// One step of the dispatcher: the next phase and the action. An event that
/// does not answer the current wait changes nothing.
pub open spec fn dispatch_step(phase: DispatchPhase, event: DispatchEvent) -> (DispatchPhase, DispatchAction) {
    match phase {
        DispatchPhase::Receiving => match event {
            DispatchEvent::Received(Queued::Task) => (DispatchPhase::AwaitingPermit, DispatchAction::Continue),
            DispatchEvent::Received(Queued::Stop) => (DispatchPhase::Stopped, DispatchAction::ForwardStop),
            DispatchEvent::QueueClosed => (DispatchPhase::Stopped, DispatchAction::ForwardStop),
            _ => (phase, DispatchAction::Continue),
        },
        DispatchPhase::AwaitingPermit => match event {
            DispatchEvent::PermitGranted => (DispatchPhase::Receiving, DispatchAction::Launch),
            DispatchEvent::PermitRefused => (DispatchPhase::Receiving, DispatchAction::Discard),
            _ => (phase, DispatchAction::Continue),
        },
        DispatchPhase::Stopped => (phase, DispatchAction::Continue),
    }
}

/// The dispatcher run on a sequence of events: the phase it ends in and the
/// actions it takes, one per event.
pub open spec fn dispatch_run(phase: DispatchPhase, events: Seq<DispatchEvent>) -> (DispatchPhase, Seq<DispatchAction>)
    decreases events.len(),
{
    if events.len() == 0 {
        (phase, Seq::empty())
    } else {
        let (next, action) = dispatch_step(phase, events[0]);
        let (last, rest) = dispatch_run(next, events.drop_first());
        (last, seq![action] + rest)
    }
}

/// Whether every event answers what the dispatcher was waiting for when it
/// came: the events of a loop that only waits for what it is asked to.
pub open spec fn dispatch_protocol(phase: DispatchPhase, events: Seq<DispatchEvent>) -> bool
    decreases events.len(),
{
    events.len() == 0 || {
        &&& dispatch_answers(dispatch_wait(phase), events[0])
        &&& dispatch_protocol(dispatch_step(phase, events[0]).0, events.drop_first())
    }
}

/// 1 where the phase holds a task, else 0.
pub open spec fn held(phase: DispatchPhase) -> nat {
    if phase == DispatchPhase::AwaitingPermit { 1 } else { 0 }
}

/// 1 where the dispatcher has stopped, else 0.
pub open spec fn stopped(phase: DispatchPhase) -> nat {
    if phase == DispatchPhase::Stopped { 1 } else { 0 }
}

/// The dispatcher's state.
pub struct Dispatcher {
    phase: DispatchPhase,
}

impl View for Dispatcher {
    type V = DispatchPhase;

    closed spec fn view(&self) -> DispatchPhase {
        self.phase
    }
}

impl Dispatcher {
    /// A dispatcher waiting for the first message.
    pub fn new() -> (d: Dispatcher)
        ensures
            d@ == DispatchPhase::Receiving,
    {
        Dispatcher { phase: DispatchPhase::Receiving }
    }

    /// What the dispatcher waits for now.
    pub fn waiting_for(&self) -> (wait: DispatchWait)
        ensures
            wait == dispatch_wait(self@),
    {
        match self.phase {
            DispatchPhase::Receiving => DispatchWait::NextMessage,
            DispatchPhase::AwaitingPermit => DispatchWait::Permit,
            DispatchPhase::Stopped => DispatchWait::Nothing,
        }
    }

    /// Takes in an event and says what to do about it.
    pub fn step(&mut self, event: DispatchEvent) -> (action: DispatchAction)
        ensures
            (final(self)@, action) == dispatch_step(old(self)@, event),
    {
        match self.phase {
            DispatchPhase::Receiving => match event {
                DispatchEvent::Received(Queued::Task) => {
                    self.phase = DispatchPhase::AwaitingPermit;
                    DispatchAction::Continue
                },
                DispatchEvent::Received(Queued::Stop) | DispatchEvent::QueueClosed => {
                    self.phase = DispatchPhase::Stopped;
                    DispatchAction::ForwardStop
                },
                _ => DispatchAction::Continue,
            },
            DispatchPhase::AwaitingPermit => match event {
                DispatchEvent::PermitGranted => {
                    self.phase = DispatchPhase::Receiving;
                    DispatchAction::Launch
                },
                DispatchEvent::PermitRefused => {
                    self.phase = DispatchPhase::Receiving;
                    DispatchAction::Discard
                },
                _ => DispatchAction::Continue,
            },
            DispatchPhase::Stopped => DispatchAction::Continue,
        }
    }
}

/// Unfolding a run on its last event: the run on the first `i + 1` events
/// is the run on the first `i` followed by one step; and where the events
/// keep the protocol, the event at `i` answers the wait the dispatcher was in.
pub proof fn lemma_dispatch_run_prefix(phase: DispatchPhase, events: Seq<DispatchEvent>, i: int)
    requires
        0 <= i < events.len(),
    ensures
        dispatch_run(phase, events.take(i + 1)).0
            == dispatch_step(dispatch_run(phase, events.take(i)).0, events[i]).0,
        dispatch_protocol(phase, events) ==> dispatch_answers(
            dispatch_wait(dispatch_run(phase, events.take(i)).0),
            events[i],
        ),
    decreases i,
{
    let next = dispatch_step(phase, events[0]).0;
    if i == 0 {
        assert(events.take(0) =~= Seq::<DispatchEvent>::empty());
        assert(events.take(1).drop_first() =~= Seq::<DispatchEvent>::empty());
        assert(dispatch_run(next, events.take(1).drop_first()).0 == next);
    } else {
        lemma_dispatch_run_prefix(next, events.drop_first(), i - 1);
        assert(events.take(i).drop_first() =~= events.drop_first().take(i - 1));
        assert(events.take(i + 1).drop_first() =~= events.drop_first().take(i));
        assert(events.take(i)[0] == events[0]);
        assert(events.take(i + 1)[0] == events[0]);
        assert(events.drop_first()[i - 1] == events[i]);
    }
}

/// Once stopped, the dispatcher stays stopped and does nothing, whatever
/// events come; and a loop that keeps the protocol hands it none.
pub proof fn lemma_stop_is_final(events: Seq<DispatchEvent>)
    ensures
        dispatch_run(DispatchPhase::Stopped, events).0 == DispatchPhase::Stopped,
        dispatch_run(DispatchPhase::Stopped, events).1.len() == events.len(),
        forall|i: int|
            0 <= i < events.len() ==> #[trigger] dispatch_run(DispatchPhase::Stopped, events).1[i]
                == DispatchAction::Continue,
        dispatch_protocol(DispatchPhase::Stopped, events) ==> events.len() == 0,
    decreases events.len(),
{
    if events.len() > 0 {
        lemma_stop_is_final(events.drop_first());
        let rest = dispatch_run(DispatchPhase::Stopped, events.drop_first()).1;
        let all = dispatch_run(DispatchPhase::Stopped, events).1;
        assert(all == seq![DispatchAction::Continue] + rest);
        assert forall|i: int| 0 <= i < events.len() implies #[trigger] all[i]
            == DispatchAction::Continue by {
            if i > 0 {
                assert(all[i] == rest[i - 1]);
            }
        }
    }
}

/// What every run of the dispatcher accounts for. One action per event;
/// the stop marker is forwarded at most once, exactly when the dispatcher
/// comes to a stop. And where the events keep the protocol: one launch per
/// granted permit, one discard per refused one, and every task taken off
/// the queue is launched, discarded, or still held at the end.
pub proof fn lemma_dispatch_accounting(phase: DispatchPhase, events: Seq<DispatchEvent>)
    ensures
        dispatch_run(phase, events).1.len() == events.len(),
        occurrences(dispatch_run(phase, events).1, DispatchAction::ForwardStop) + stopped(phase)
            == stopped(dispatch_run(phase, events).0),
        dispatch_protocol(phase, events) ==> {
            &&& occurrences(dispatch_run(phase, events).1, DispatchAction::Launch)
                == occurrences(events, DispatchEvent::PermitGranted)
            &&& occurrences(dispatch_run(phase, events).1, DispatchAction::Discard)
                == occurrences(events, DispatchEvent::PermitRefused)
            &&& occurrences(dispatch_run(phase, events).1, DispatchAction::Launch)
                + occurrences(dispatch_run(phase, events).1, DispatchAction::Discard)
                + held(dispatch_run(phase, events).0)
                == occurrences(events, DispatchEvent::Received(Queued::Task)) + held(phase)
        },
    decreases events.len(),
{
    if events.len() > 0 {
        let (next, action) = dispatch_step(phase, events[0]);
        lemma_dispatch_accounting(next, events.drop_first());
        let rest = dispatch_run(next, events.drop_first()).1;
        let all = dispatch_run(phase, events).1;
        assert(all == seq![action] + rest);
        assert(all.drop_first() =~= rest);
    }
}

/// A task taken off the queue is launched or discarded before the next
/// message is taken: the dispatcher holds one task at a time, so tasks are
/// settled in the order they were queued.
pub proof fn lemma_one_task_at_a_time(events: Seq<DispatchEvent>, i: int)
    requires
        dispatch_protocol(DispatchPhase::Receiving, events),
        0 <= i,
        i + 1 < events.len(),
        events[i] == DispatchEvent::Received(Queued::Task),
    ensures
        events[i + 1] == DispatchEvent::PermitGranted || events[i + 1] == DispatchEvent::PermitRefused,
{
    lemma_dispatch_run_prefix(DispatchPhase::Receiving, events, i);
    lemma_dispatch_run_prefix(DispatchPhase::Receiving, events, i + 1);
}

/// The stop marker, or the closing of the queue, is the last thing the
/// dispatcher takes in: nothing queued behind the marker is consumed.
pub proof fn lemma_nothing_after_stop(events: Seq<DispatchEvent>, i: int)
    requires
        dispatch_protocol(DispatchPhase::Receiving, events),
        0 <= i < events.len(),
        events[i] == DispatchEvent::Received(Queued::Stop) || events[i] == DispatchEvent::QueueClosed,
    ensures
        i == events.len() - 1,
{
    lemma_dispatch_run_prefix(DispatchPhase::Receiving, events, i);
    if i + 1 < events.len() {
        lemma_dispatch_run_prefix(DispatchPhase::Receiving, events, i + 1);
    }
}

} // verus!
