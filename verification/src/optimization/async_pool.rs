//! Settings and errors of the asynchronous task pool that runs executor and
//! verifier work concurrently.

use vstd::prelude::*;
use crate::machine::available_cpus;

verus! {

/// Workers, queue capacity and task timeout (milliseconds) of the pool.
pub struct AsyncPoolConfig {
    pub worker_count: usize,
    pub queue_capacity: usize,
    pub task_timeout_ms: u64,
}

impl Default for AsyncPoolConfig {
    /// Two workers per logical CPU (as many as fit), a queue of 1000 tasks
    /// and a 500 ms timeout.
    fn default() -> (c: Self)
        ensures
            c.worker_count >= 2,
            exists|cpus: usize| cpus >= 1 && c.worker_count == #[trigger] crate::machine::two_per_cpu(cpus),
            c.queue_capacity == 1000,
            c.task_timeout_ms == 500,
    {
        let cpus = available_cpus();
        let workers = if cpus <= usize::MAX / 2 { 2 * cpus } else { usize::MAX };
        assert(workers == crate::machine::two_per_cpu(cpus));
        AsyncPoolConfig { worker_count: workers, queue_capacity: 1000, task_timeout_ms: 500 }
    }
}

/// Why a pooled task gave no result.
#[derive(Debug)]
pub enum AsyncTaskError {
    Timeout,
    ExecutionFailed(String),
    ChannelClosed,
}

impl AsyncTaskError {
    /// The error's message.
    pub fn message(&self) -> (s: String)
        ensures
            s@ == match *self {
                AsyncTaskError::Timeout => "任务超时"@,
                AsyncTaskError::ExecutionFailed(m) => "任务执行失败："@ + m@,
                AsyncTaskError::ChannelClosed => "通道关闭"@,
            },
    {
        match self {
            AsyncTaskError::Timeout => crate::text::owned("任务超时"),
            AsyncTaskError::ExecutionFailed(m) => crate::text::cat("任务执行失败：", m.as_str()),
            AsyncTaskError::ChannelClosed => crate::text::owned("通道关闭"),
        }
    }
}

} // verus!
