//! Counters and configuration of the work-stealing executor.

use vstd::prelude::*;
use crate::machine::available_cpus;

verus! {

/// A unit of work that the executor runs once.
pub trait Task: Send + Sized {
    /// Runs the task.
    fn execute(self);

    /// The task's priority, from 0 (lowest) to 10 (highest); 5 unless the
    /// task says otherwise.
    fn priority(&self) -> u8 {
        5
    }

    /// The expected running time in milliseconds; 10 unless the task says otherwise.
    fn estimated_duration_ms(&self) -> u64 {
        10
    }
}

/// What one worker has done: tasks run, tasks taken from other workers,
/// tasks taken from it, and milliseconds spent idle.
#[derive(Debug, Clone, Copy, PartialEq, Eq, Structural)]
pub struct WorkerStats {
    pub tasks_executed: u64,
    pub tasks_stolen: u64,
    pub tasks_donated: u64,
    pub idle_time_ms: u64,
}

/// A counter after adding `d`, wrapping like the atomic counter it models.
pub open spec fn wrapping_plus(x: u64, d: u64) -> u64 {
    if x + d > u64::MAX { (x + d - u64::MAX - 1) as u64 } else { (x + d) as u64 }
}

pub(crate) fn wrap_add(x: u64, d: u64) -> (r: u64)
    ensures
        r == wrapping_plus(x, d),
{
    if x > u64::MAX - d { d - (u64::MAX - x) - 1 } else { x + d }
}

impl WorkerStats {
    /// All counters at zero.
    pub fn new() -> (s: Self)
        ensures
            s == (WorkerStats { tasks_executed: 0, tasks_stolen: 0, tasks_donated: 0, idle_time_ms: 0 }),
    {
        WorkerStats { tasks_executed: 0, tasks_stolen: 0, tasks_donated: 0, idle_time_ms: 0 }
    }

    pub fn executed(&self) -> (n: u64)
        ensures
            n == self.tasks_executed,
    {
        self.tasks_executed
    }

    pub fn stolen(&self) -> (n: u64)
        ensures
            n == self.tasks_stolen,
    {
        self.tasks_stolen
    }

    pub fn donated(&self) -> (n: u64)
        ensures
            n == self.tasks_donated,
    {
        self.tasks_donated
    }

    pub fn idle_ms(&self) -> (n: u64)
        ensures
            n == self.idle_time_ms,
    {
        self.idle_time_ms
    }

    /// Counts one task run by this worker.
    pub fn record_executed(&mut self)
        ensures
            *final(self) == (WorkerStats { tasks_executed: wrapping_plus(old(self).tasks_executed, 1), ..*old(self) }),
    {
        self.tasks_executed = wrap_add(self.tasks_executed, 1);
    }

    /// Counts one task taken from another worker.
    pub fn record_stolen(&mut self)
        ensures
            *final(self) == (WorkerStats { tasks_stolen: wrapping_plus(old(self).tasks_stolen, 1), ..*old(self) }),
    {
        self.tasks_stolen = wrap_add(self.tasks_stolen, 1);
    }

    /// Adds idle time.
    pub fn record_idle(&mut self, idle_ms: u64)
        ensures
            *final(self) == (WorkerStats { idle_time_ms: wrapping_plus(old(self).idle_time_ms, idle_ms), ..*old(self) }),
    {
        self.idle_time_ms = wrap_add(self.idle_time_ms, idle_ms);
    }
}

/// Settings of one worker.
#[derive(Debug, Clone, Copy, PartialEq, Eq, Structural)]
pub struct WorkerConfig {
    pub id: usize,
    pub local_queue_capacity: usize,
    pub enable_stealing: bool,
    pub steal_attempts_limit: usize,
    pub idle_wait_us: u64,
}

impl Default for WorkerConfig {
    /// Worker 0 with a 1024-task queue, stealing on with up to 3 attempts,
    /// idling 100 µs between polls.
    fn default() -> (c: Self)
        ensures
            c == (WorkerConfig { id: 0, local_queue_capacity: 1024, enable_stealing: true, steal_attempts_limit: 3, idle_wait_us: 100 }),
    {
        WorkerConfig { id: 0, local_queue_capacity: 1024, enable_stealing: true, steal_attempts_limit: 3, idle_wait_us: 100 }
    }
}

/// Settings of the executor.
#[derive(Debug, Clone, Copy, PartialEq, Eq, Structural)]
pub struct WorkStealingExecutorConfig {
    pub num_workers: usize,
    pub local_queue_capacity: usize,
    pub global_queue_capacity: usize,
    pub enable_stealing: bool,
}

impl Default for WorkStealingExecutorConfig {
    /// One worker per available CPU, 1024-task local queues, a 4096-task
    /// global queue, stealing on.
    fn default() -> (c: Self)
        ensures
            c.num_workers >= 1,
            c.local_queue_capacity == 1024,
            c.global_queue_capacity == 4096,
            c.enable_stealing,
    {
        WorkStealingExecutorConfig {
            num_workers: available_cpus(),
            local_queue_capacity: 1024,
            global_queue_capacity: 4096,
            enable_stealing: true,
        }
    }
}

/// What the executor as a whole has seen.
#[derive(Debug, Clone, Copy, PartialEq, Eq, Structural)]
pub struct ExecutorStats {
    pub tasks_submitted: u64,
    pub tasks_executed: u64,
    pub tasks_stolen: u64,
    pub queue_depth: usize,
}

/// The sums of the workers' counters.
#[derive(Debug, Clone, Copy, PartialEq, Eq, Structural)]
pub struct AggregatedStats {
    pub total_executed: u64,
    pub total_stolen: u64,
    pub total_donated: u64,
    pub total_idle_ms: u64,
}

/// One of the counters a worker keeps.
pub enum WorkerCounter {
    Executed,
    Stolen,
    Donated,
    Idle,
}

/// The value of one counter of a worker.
pub open spec fn counter_of(w: WorkerStats, c: WorkerCounter) -> u64 {
    match c {
        WorkerCounter::Executed => w.tasks_executed,
        WorkerCounter::Stolen => w.tasks_stolen,
        WorkerCounter::Donated => w.tasks_donated,
        WorkerCounter::Idle => w.idle_time_ms,
    }
}

/// The sum of one counter over the first `n` workers.
pub open spec fn sum_of(ws: Seq<WorkerStats>, n: int, c: WorkerCounter) -> int
    decreases n,
{
    if n <= 0 { 0 } else { sum_of(ws, n - 1, c) + counter_of(ws[n - 1], c) }
}

proof fn lemma_sum_monotone(ws: Seq<WorkerStats>, i: int, j: int, c: WorkerCounter)
    requires
        0 <= i <= j,
    ensures
        sum_of(ws, i, c) <= sum_of(ws, j, c),
    decreases j - i,
{
    if i < j {
        lemma_sum_monotone(ws, i, j - 1, c);
    }
}

impl ExecutorStats {
    /// All counters at zero.
    pub fn new() -> (s: Self)
        ensures
            s == (ExecutorStats { tasks_submitted: 0, tasks_executed: 0, tasks_stolen: 0, queue_depth: 0 }),
    {
        ExecutorStats { tasks_submitted: 0, tasks_executed: 0, tasks_stolen: 0, queue_depth: 0 }
    }

    /// Sums the workers' counters; each sum must fit in 64 bits.
    pub fn aggregate_worker_stats(&self, worker_stats: &[WorkerStats]) -> (a: AggregatedStats)
        requires
            sum_of(worker_stats@, worker_stats@.len() as int, WorkerCounter::Executed) <= u64::MAX,
            sum_of(worker_stats@, worker_stats@.len() as int, WorkerCounter::Stolen) <= u64::MAX,
            sum_of(worker_stats@, worker_stats@.len() as int, WorkerCounter::Donated) <= u64::MAX,
            sum_of(worker_stats@, worker_stats@.len() as int, WorkerCounter::Idle) <= u64::MAX,
        ensures
            a.total_executed == sum_of(worker_stats@, worker_stats@.len() as int, WorkerCounter::Executed),
            a.total_stolen == sum_of(worker_stats@, worker_stats@.len() as int, WorkerCounter::Stolen),
            a.total_donated == sum_of(worker_stats@, worker_stats@.len() as int, WorkerCounter::Donated),
            a.total_idle_ms == sum_of(worker_stats@, worker_stats@.len() as int, WorkerCounter::Idle),
    {
        let ghost ws = worker_stats@;
        let ghost n = ws.len() as int;
        let mut total_executed: u64 = 0;
        let mut total_stolen: u64 = 0;
        let mut total_donated: u64 = 0;
        let mut total_idle_ms: u64 = 0;
        let mut i: usize = 0;
        while i < worker_stats.len()
            invariant
                ws == worker_stats@,
                n == ws.len(),
                i <= n,
                sum_of(ws, n, WorkerCounter::Executed) <= u64::MAX,
                sum_of(ws, n, WorkerCounter::Stolen) <= u64::MAX,
                sum_of(ws, n, WorkerCounter::Donated) <= u64::MAX,
                sum_of(ws, n, WorkerCounter::Idle) <= u64::MAX,
                total_executed == sum_of(ws, i as int, WorkerCounter::Executed),
                total_stolen == sum_of(ws, i as int, WorkerCounter::Stolen),
                total_donated == sum_of(ws, i as int, WorkerCounter::Donated),
                total_idle_ms == sum_of(ws, i as int, WorkerCounter::Idle),
            decreases n - i,
        {
            proof {
                lemma_sum_monotone(ws, i as int + 1, n, WorkerCounter::Executed);
                lemma_sum_monotone(ws, i as int + 1, n, WorkerCounter::Stolen);
                lemma_sum_monotone(ws, i as int + 1, n, WorkerCounter::Donated);
                lemma_sum_monotone(ws, i as int + 1, n, WorkerCounter::Idle);
            }
            let w = worker_stats[i];
            total_executed = total_executed + w.executed();
            total_stolen = total_stolen + w.stolen();
            total_donated = total_donated + w.donated();
            total_idle_ms = total_idle_ms + w.idle_ms();
            i = i + 1;
        }
        AggregatedStats { total_executed, total_stolen, total_donated, total_idle_ms }
    }
}

} // verus!
