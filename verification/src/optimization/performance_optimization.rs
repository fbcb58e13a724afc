//! Settings of the performance optimizer and the reusable execution buffer.

use vstd::prelude::*;
use crate::machine::available_cpus;

verus! {

/// Pool, cache and batching settings of the performance optimizer.
pub struct PerformanceOptimizerConfig {
    pub pool_size: usize,
    pub object_pool_capacity: usize,
    pub cache_size: usize,
    pub cache_ttl_secs: u64,
    pub batch_size: usize,
    pub enable_prefetch: bool,
    pub enable_compression: bool,
}

impl Default for PerformanceOptimizerConfig {
    /// Two workers per logical CPU (as many as fit), 1000 pooled objects, a
    /// cache of 10 000 entries kept 5 minutes, batches of 100, prefetch on,
    /// compression off.
    fn default() -> (c: Self)
        ensures
            c.pool_size >= 2,
            exists|cpus: usize| cpus >= 1 && c.pool_size == #[trigger] crate::machine::two_per_cpu(cpus),
            c.object_pool_capacity == 1000,
            c.cache_size == 10000,
            c.cache_ttl_secs == 300,
            c.batch_size == 100,
            c.enable_prefetch,
            !c.enable_compression,
    {
        let cpus = available_cpus();
        let workers = if cpus <= usize::MAX / 2 { 2 * cpus } else { usize::MAX };
        assert(workers == crate::machine::two_per_cpu(cpus));
        PerformanceOptimizerConfig {
            pool_size: workers,
            object_pool_capacity: 1000,
            cache_size: 10000,
            cache_ttl_secs: 300,
            batch_size: 100,
            enable_prefetch: true,
            enable_compression: false,
        }
    }
}

/// A buffer reused across executions, with how often it has been used.
pub struct ExecutionBuffer {
    pub data: Vec<u8>,
    pub use_count: u32,
}

impl ExecutionBuffer {
    /// `size` zero bytes, never used.
    pub fn new(size: usize) -> (b: Self)
        ensures
            b.data@ == Seq::new(size as nat, |i: int| 0u8),
            b.use_count == 0,
    {
        let mut data: Vec<u8> = Vec::new();
        let mut i: usize = 0;
        while i < size
            invariant
                i <= size,
                data@ == Seq::new(i as nat, |j: int| 0u8),
            decreases size - i,
        {
            data.push(0u8);
            assert(data@ =~= Seq::new((i + 1) as nat, |j: int| 0u8));
            i = i + 1;
        }
        ExecutionBuffer { data, use_count: 0 }
    }

    /// Empties the buffer and forgets its uses, before it goes back to a pool.
    pub fn reset(&mut self)
        ensures
            final(self).data@.len() == 0,
            final(self).use_count == 0,
    {
        self.data.clear();
        self.use_count = 0;
    }

    /// A buffer used more than 100 times is retired.
    pub fn is_expired(&self) -> (b: bool)
        ensures
            b == (self.use_count > 100),
    {
        self.use_count > 100
    }
}

} // verus!

verus! {

/// Tasks running and waiting in the asynchronous pool.
pub struct PoolStats {
    pub active_tasks: usize,
    pub queued_tasks: usize,
}

/// Objects handed out and still idle in the object pool.
pub struct ObjectPoolUsage {
    pub used: usize,
    pub available: usize,
}

/// Size and lookups of the optimizer's cache.
pub struct CacheStats {
    pub size: usize,
    pub hits: u64,
    pub misses: u64,
}

/// What the performance optimizer reports: its pool, object pool and cache
/// counters, and its settings.
pub struct OptimizerStats {
    pub pool_stats: PoolStats,
    pub object_pool_stats: ObjectPoolUsage,
    pub cache_stats: CacheStats,
    pub config: PerformanceOptimizerConfig,
}

impl OptimizerStats {
    /// The cache's hits per ten thousand lookups, rounded down; zero before
    /// any lookup.
    pub fn cache_hit_rate_basis_points(&self) -> (r: u128)
        ensures
            r == (if self.cache_stats.hits + self.cache_stats.misses == 0 {
                0
            } else {
                (self.cache_stats.hits * 10000) / (self.cache_stats.hits + self.cache_stats.misses)
            }),
    {
        let total = (self.cache_stats.hits as u128) + (self.cache_stats.misses as u128);
        if total == 0 {
            0
        } else {
            (self.cache_stats.hits as u128) * 10000 / total
        }
    }
}

} // verus!
