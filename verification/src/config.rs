//! The limits a task pool is built with.
use vstd::prelude::*;

verus! {

/// The largest number of permits that a tokio semaphore takes, and so the
/// largest concurrency and queue size a pool can be built with: both
/// `tokio::sync::Semaphore::new` and `tokio::sync::mpsc::channel` panic above it.
pub open spec fn permit_ceiling() -> int {
    (usize::MAX / 8) as int
}

/// Whether a pool can be built with these limits: both at least one, and
/// neither above what a tokio semaphore holds.
pub open spec fn limits_accepted(concurrency: int, queue_size: int) -> bool {
    &&& 0 < concurrency <= permit_ceiling()
    &&& 0 < queue_size <= permit_ceiling()
}

/// Reads `tokio::sync::Semaphore::MAX_PERMITS`, which tokio defines as
/// `usize::MAX >> 3`; the contract states that value as `usize::MAX / 8`.
#[verifier::external_body]
fn semaphore_max_permits() -> (limit: usize)
    ensures
        limit == usize::MAX / 8,
{
    tokio::sync::Semaphore::MAX_PERMITS
}

/// A pool can be built from any two limits that are each at least one and
/// at most `usize::MAX / 8`, whatever their order: neither bounds the other.
pub proof fn lemma_limits_accepted_exactly(concurrency: int, queue_size: int)
    ensures
        limits_accepted(concurrency, queue_size) <==> (0 < concurrency <= usize::MAX / 8 && 0
            < queue_size <= usize::MAX / 8),
        limits_accepted(concurrency, queue_size) <==> limits_accepted(queue_size, concurrency),
        limits_accepted(1, 1),
        limits_accepted(concurrency, queue_size) ==> limits_accepted(concurrency, 1)
            && limits_accepted(1, queue_size),
{
}

/// The number of tasks allowed to run at once, and the number of tasks the
/// queue in front of them buffers.
pub struct PoolConfig {
    concurrency: usize,
    queue_size: usize,
}

impl PoolConfig {
    #[verifier::type_invariant]
    spec fn accepted(self) -> bool {
        limits_accepted(self.concurrency as int, self.queue_size as int)
    }

    /// The concurrency limit, as a number.
    pub closed spec fn concurrency_limit(&self) -> nat {
        self.concurrency as nat
    }

    /// The queue size, as a number.
    pub closed spec fn queue_limit(&self) -> nat {
        self.queue_size as nat
    }

    /// Builds the limits of a pool; `None` where a limit is zero or above
    /// what a tokio semaphore holds.
    pub fn new(concurrency: usize, queue_size: usize) -> (config: Option<PoolConfig>)
        ensures
            config is Some <==> (0 < concurrency <= usize::MAX / 8 && 0 < queue_size <= usize::MAX
                / 8),
            config matches Some(c) ==> c.concurrency_limit() == concurrency
                && c.queue_limit() == queue_size,
    {
        let ceiling = semaphore_max_permits();
        if 0 < concurrency && concurrency <= ceiling && 0 < queue_size && queue_size <= ceiling {
            Some(PoolConfig { concurrency, queue_size })
        } else {
            None
        }
    }

    /// The number of tasks allowed to run at once.
    pub fn concurrency(&self) -> (n: usize)
        ensures
            n == self.concurrency_limit(),
            0 < n <= usize::MAX / 8,
    {
        proof {
            use_type_invariant(self);
        }
        self.concurrency
    }

    /// The number of tasks the queue buffers before a submission has to wait.
    pub fn queue_size(&self) -> (n: usize)
        ensures
            n == self.queue_limit(),
            0 < n <= usize::MAX / 8,
    {
        proof {
            use_type_invariant(self);
        }
        self.queue_size
    }
}

} // verus!
