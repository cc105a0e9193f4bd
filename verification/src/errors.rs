//! Errors for the task pool.
use vstd::prelude::*;

verus! {

/// Why a task, or the stop marker, could not be placed in the pool's queue.
#[derive(Debug, Clone, Copy, PartialEq, Eq, Structural)]
pub enum TaskPoolError {
    /// Insertion in the queue timed out: the queue stayed full for the
    /// whole delay.
    SendTimeout,
    /// The queue has been closed.
    ChannelClosed,
    /// The task could not be sent.
    FailedToSend,
}

/// The text that describes each error.
pub open spec fn error_text(e: TaskPoolError) -> Seq<char> {
    match e {
        TaskPoolError::SendTimeout => "failed to schedule task in pool: send timeout"@,
        TaskPoolError::ChannelClosed => "failed to schedule task in pool: channel closed"@,
        TaskPoolError::FailedToSend => "failed to schedule task in pool: can't send"@,
    }
}

impl TaskPoolError {
    /// The human-readable description of the error.
    pub fn message(&self) -> (text: &'static str)
        ensures
            text@ == error_text(*self),
    {
        match self {
            TaskPoolError::SendTimeout => "failed to schedule task in pool: send timeout",
            TaskPoolError::ChannelClosed => "failed to schedule task in pool: channel closed",
            TaskPoolError::FailedToSend => "failed to schedule task in pool: can't send",
        }
    }
}

} // verus!
