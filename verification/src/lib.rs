//! Bounded task pool: a queue of tasks in front of a fixed number of workers.
//!
//! The library holds what the pool decides: the error that a refused
//! submission is answered with, the limits a pool is built with, and the two
//! loops that run behind it, written as state machines. The dispatcher takes
//! tasks off the ordering queue one at a time, waits for a concurrency permit
//! for each, and forwards the stop marker; the drainer joins the launched
//! jobs in order and signals when the pool is drained.
use vstd::prelude::*;

pub mod config;
pub mod dispatcher;
pub mod drainer;
pub mod errors;
pub mod outcome;
pub mod pipeline;
pub mod trace;

pub use config::PoolConfig;
pub use dispatcher::{DispatchAction, DispatchEvent, DispatchWait, Dispatcher, Queued};
pub use drainer::{DrainAction, DrainEvent, DrainWait, Drainer, Forwarded};
pub use errors::TaskPoolError;
pub use outcome::{SendOutcome, spawn_result, spawn_with_timeout_result, trigger_stop_result};

verus! {

} // verus!
