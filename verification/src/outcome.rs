//! How the result of placing a message in the pool's queue is reported.
use vstd::prelude::*;
use crate::errors::TaskPoolError;

verus! {

/// What became of one attempt to place a message in the pool's queue.
#[derive(Debug, Clone, Copy, PartialEq, Eq, Structural)]
pub enum SendOutcome {
    /// The message is in the queue.
    Delivered,
    /// The queue stayed full for the whole delay allowed.
    TimedOut,
    /// The queue is closed: nothing takes messages off it any more.
    Closed,
}

/// The answer to a submission that waits as long as it takes for room.
pub open spec fn spawn_answer(outcome: SendOutcome) -> Result<(), TaskPoolError> {
    match outcome {
        SendOutcome::Delivered => Ok(()),
        _ => Err(TaskPoolError::FailedToSend),
    }
}

/// The answer to a submission that waits for room a limited time.
pub open spec fn spawn_with_timeout_answer(outcome: SendOutcome) -> Result<(), TaskPoolError> {
    match outcome {
        SendOutcome::Delivered => Ok(()),
        SendOutcome::TimedOut => Err(TaskPoolError::SendTimeout),
        SendOutcome::Closed => Err(TaskPoolError::ChannelClosed),
    }
}

/// The answer to a request to place the stop marker.
pub open spec fn trigger_stop_answer(outcome: SendOutcome) -> Result<(), TaskPoolError> {
    match outcome {
        SendOutcome::Delivered => Ok(()),
        _ => Err(TaskPoolError::ChannelClosed),
    }
}

/// Reports a submission that waited as long as it took: any failure to
/// send is `FailedToSend`.
pub fn spawn_result(outcome: SendOutcome) -> (r: Result<(), TaskPoolError>)
    ensures
        r == spawn_answer(outcome),
{
    match outcome {
        SendOutcome::Delivered => Ok(()),
        _ => Err(TaskPoolError::FailedToSend),
    }
}

/// Reports a submission that waited a limited time for room: a full queue
/// is `SendTimeout`, a closed one `ChannelClosed`.
pub fn spawn_with_timeout_result(outcome: SendOutcome) -> (r: Result<(), TaskPoolError>)
    ensures
        r == spawn_with_timeout_answer(outcome),
{
    match outcome {
        SendOutcome::Delivered => Ok(()),
        SendOutcome::TimedOut => Err(TaskPoolError::SendTimeout),
        SendOutcome::Closed => Err(TaskPoolError::ChannelClosed),
    }
}

/// Reports a request to place the stop marker: the only way it fails is a
/// closed queue.
pub fn trigger_stop_result(outcome: SendOutcome) -> (r: Result<(), TaskPoolError>)
    ensures
        r == trigger_stop_answer(outcome),
{
    match outcome {
        SendOutcome::Delivered => Ok(()),
        _ => Err(TaskPoolError::ChannelClosed),
    }
}

/// A submission succeeds, whichever way it waits, exactly when its message
/// reached the queue; and a time limit on the wait only ever adds the
/// `SendTimeout` answer, for a queue that stayed full.
pub proof fn lemma_submission_answers_agree(outcome: SendOutcome)
    ensures
        spawn_answer(outcome) is Ok <==> outcome == SendOutcome::Delivered,
        spawn_with_timeout_answer(outcome) is Ok <==> outcome == SendOutcome::Delivered,
        trigger_stop_answer(outcome) is Ok <==> outcome == SendOutcome::Delivered,
        spawn_with_timeout_answer(outcome) == Err::<(), TaskPoolError>(TaskPoolError::SendTimeout)
            <==> outcome == SendOutcome::TimedOut,
{
}

} // verus!
