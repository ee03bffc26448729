use crate::task::Task;
use vstd::prelude::*;

verus! {

/// Shortest simulated workload, in milliseconds.
pub const WORK_MIN_MILLIS: u64 = 50;

/// Longest simulated workload, in milliseconds.
pub const WORK_MAX_MILLIS: u64 = 200;

/// What one worker unit produces for its task: the task's identifier, the
/// worker's own identity, and the processed payload.
pub struct TaskResult {
    pub task_id: u32,
    pub worker_id: u32,
    pub payload: String,
}

impl Clone for TaskResult {
    fn clone(&self) -> (r: Self)
        ensures
            r == *self,
    {
        TaskResult { task_id: self.task_id, worker_id: self.worker_id, payload: self.payload.clone() }
    }
}

/// Relies on rand::Rng::gen_range on the inclusive range `lo..=hi`: it returns
/// a value within the bounds, and the range is non-empty when `lo <= hi`.
#[verifier::external_body]
fn sample_uniform_millis(lo: u64, hi: u64) -> (d: u64)
    requires
        lo <= hi,
    ensures
        lo <= d <= hi,
{
    rand::Rng::gen_range(&mut rand::thread_rng(), lo..=hi)
}

/// One worker unit's identity; it holds no other state.
pub struct Worker {
    pub id: u32,
}

impl Worker {
    /// Builds the worker assigned to one task.
    pub fn create_worker(id: u32) -> (w: Worker)
        ensures
            w.id == id,
    {
        Worker { id }
    }

    /// Draws how long this worker's simulated workload takes.
    pub fn draw_workload_millis(&self) -> (d: u64)
        ensures
            WORK_MIN_MILLIS <= d <= WORK_MAX_MILLIS,
    {
        sample_uniform_millis(WORK_MIN_MILLIS, WORK_MAX_MILLIS)
    }

    /// Evaluates the task to its result once the workload is done: the result
    /// carries the task's identifier, this worker's identity, and the task's
    /// payload, and the task itself is left unchanged.
    pub fn process_task(&self, task: &Task) -> (r: TaskResult)
        ensures
            r.task_id == task.id,
            r.worker_id == self.id,
            r.payload@ == task.payload@,
    {
        TaskResult { task_id: task.id, worker_id: self.id, payload: task.payload.clone() }
    }
}

} // verus!
