# taskpool

Bounded tokio task pool with backpressure and ordered scheduling, with its
decisions verified by Verus.

- `src/` is the verified library: the pool's error (`errors`), the limits a
  pool is built with (`config`), how a submission's fate in the queue is
  reported (`outcome`), and the two background loops written as state
  machines, the dispatcher (`dispatcher`) and the drainer (`drainer`), with
  the laws they keep alone and together (`pipeline`).
- `app/` is the tokio side: the channels, the semaphore, the spawned loops
  that wait for what the state machines ask for, and the async `TaskPool`
  methods.
- `tests/` exercises the library on concrete traces.
