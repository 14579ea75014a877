//! The task-scheduler seam.
//!
//! Everything above this module is written against these traits only: a
//! runtime can spawn a long-running background unit of work and hand back a
//! handle that can cancel it.  A host implements them for its own executor
//! and task type; nothing here performs any work itself.

use vstd::prelude::*;

verus! {

/// A handle to a spawned background task.
pub trait JoinHandle {
    /// Request cancellation of the task.  Best-effort and idempotent:
    /// aborting an already-finished or already-aborted task is a no-op.
    fn abort(&mut self);
}

/// A runtime abstraction allowing any task scheduler to drive the network:
/// it schedules units of work for independent, concurrent execution.  No
/// ordering is guaranteed between tasks spawned on the same runtime.
pub trait Runtime {
    /// The unit of work the runtime schedules.
    type Task;

    /// The handle a spawn returns.
    type JoinHandle: JoinHandle;

    /// Schedule a long-running background task and return its handle.
    fn spawn(&self, task: Self::Task) -> Self::JoinHandle;

    /// Schedule a task that must stay on the current thread — for executors
    /// whose tasks cannot move between threads — and return its handle.
    fn spawn_local(&self, task: Self::Task) -> Self::JoinHandle;
}

/// A wrapper that hands a runtime to the systems that need to spawn work.
pub struct EventworkRuntime<RT: Runtime>(pub RT);

/// Schedule `future` on `runtime` and return the handle.
pub fn run_async<RT: Runtime>(future: RT::Task, runtime: &RT) -> RT::JoinHandle {
    runtime.spawn(future)
}

} // verus!
