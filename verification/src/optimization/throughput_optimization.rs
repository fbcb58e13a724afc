//! Throughput building blocks: connection health, batch and optimizer
//! configuration, statistics, and a zero-copy byte buffer.

use vstd::prelude::*;
use crate::clock::unix_now_millis;

verus! {

/// Sizes and time limits of a connection pool.
#[derive(Debug, Clone, Copy, PartialEq, Eq, Structural)]
pub struct ConnectionPoolConfig {
    pub min_connections: usize,
    pub max_connections: usize,
    pub acquire_timeout_ms: u64,
    pub idle_timeout_secs: u64,
    pub max_lifetime_secs: u64,
    pub enable_warmup: bool,
    pub health_check_interval_secs: u64,
    pub enable_monitoring: bool,
}

impl Default for ConnectionPoolConfig {
    /// 10 to 100 connections, 5 s to acquire, 5 min idle, 1 h lifetime,
    /// warm-up on, a health check every 30 s, monitoring on.
    fn default() -> (c: Self)
        ensures
            c == (ConnectionPoolConfig {
                min_connections: 10,
                max_connections: 100,
                acquire_timeout_ms: 5000,
                idle_timeout_secs: 300,
                max_lifetime_secs: 3600,
                enable_warmup: true,
                health_check_interval_secs: 30,
                enable_monitoring: true,
            }),
    {
        ConnectionPoolConfig {
            min_connections: 10,
            max_connections: 100,
            acquire_timeout_ms: 5000,
            idle_timeout_secs: 300,
            max_lifetime_secs: 3600,
            enable_warmup: true,
            health_check_interval_secs: 30,
            enable_monitoring: true,
        }
    }
}

/// Where a pooled connection stands.
#[derive(Debug, Clone, Copy, PartialEq, Eq, Structural)]
pub enum ConnectionState {
    Idle,
    InUse,
    HealthChecking,
    Closed,
}

/// A pooled connection; times are milliseconds since the Unix epoch.
#[derive(Debug)]
pub struct Connection {
    pub id: usize,
    pub created_at_ms: u64,
    pub last_used_at_ms: u64,
    pub use_count: u64,
    pub state: ConnectionState,
    pub data: Option<Vec<u8>>,
}

/// Whole seconds from `from_ms` to `to_ms`; a clock that went back counts as none.
pub open spec fn whole_secs_between(from_ms: u64, to_ms: u64) -> int {
    if to_ms <= from_ms { 0 } else { (to_ms - from_ms) / 1000 }
}

fn secs_between(from_ms: u64, to_ms: u64) -> (s: u64)
    ensures
        s == whole_secs_between(from_ms, to_ms),
{
    if to_ms <= from_ms { 0 } else { (to_ms - from_ms) / 1000 }
}

/// A connection is healthy when it is open, no older than the lifetime limit
/// and not idle for longer than the idle limit, both in whole seconds.
pub open spec fn healthy(c: Connection, config: ConnectionPoolConfig, now_ms: u64) -> bool {
    &&& c.state != ConnectionState::Closed
    &&& whole_secs_between(c.created_at_ms, now_ms) <= config.max_lifetime_secs
    &&& whole_secs_between(c.last_used_at_ms, now_ms) <= config.idle_timeout_secs
}

impl Connection {
    /// A fresh idle connection created and last used at `now_ms`.
    pub fn new_at(id: usize, now_ms: u64) -> (c: Self)
        ensures
            c.id == id,
            c.created_at_ms == now_ms,
            c.last_used_at_ms == now_ms,
            c.use_count == 0,
            c.state == ConnectionState::Idle,
            c.data is None,
    {
        Connection { id, created_at_ms: now_ms, last_used_at_ms: now_ms, use_count: 0, state: ConnectionState::Idle, data: None }
    }

    /// A fresh idle connection created now.
    pub fn new(id: usize) -> (c: Self)
        ensures
            c.id == id,
            c.created_at_ms == c.last_used_at_ms,
            c.use_count == 0,
            c.state == ConnectionState::Idle,
            c.data is None,
    {
        Connection::new_at(id, unix_now_millis())
    }

    /// Whether the connection is healthy at `now_ms`.
    pub fn is_healthy_at(&self, config: &ConnectionPoolConfig, now_ms: u64) -> (b: bool)
        ensures
            b == healthy(*self, *config, now_ms),
    {
        if self.state == ConnectionState::Closed {
            return false;
        }
        let age = secs_between(self.created_at_ms, now_ms);
        if age > config.max_lifetime_secs {
            return false;
        }
        let idle_time = secs_between(self.last_used_at_ms, now_ms);
        if idle_time > config.idle_timeout_secs {
            return false;
        }
        true
    }

    /// Whether the connection is healthy now; a closed connection never is.
    pub fn is_healthy(&self, config: &ConnectionPoolConfig) -> (b: bool)
        ensures
            self.state == ConnectionState::Closed ==> !b,
            exists|now_ms: u64| b == #[trigger] healthy(*self, *config, now_ms),
    {
        self.is_healthy_at(config, unix_now_millis())
    }
}

/// The pool's counters: acquisitions that succeeded and failed,
/// connections created and destroyed, and the time successful
/// acquisitions took (microseconds).
#[derive(Debug, Clone, Copy, PartialEq, Eq, Structural)]
pub struct ConnectionPoolStatsAtomic {
    pub acquire_success: u64,
    pub acquire_failures: u64,
    pub connections_created: u64,
    pub connections_destroyed: u64,
    pub total_acquire_time_us: u64,
    pub acquire_count: u64,
}

/// `x + d`, wrapping at 64 bits as the counters do.
pub open spec fn wrapping_sum(x: u64, d: u64) -> u64 {
    if x + d > u64::MAX {
        (x + d - u64::MAX - 1) as u64
    } else {
        (x + d) as u64
    }
}

fn wrapping_add(x: u64, d: u64) -> (r: u64)
    ensures
        r == wrapping_sum(x, d),
{
    if x > u64::MAX - d {
        d - (u64::MAX - x) - 1
    } else {
        x + d
    }
}

impl ConnectionPoolStatsAtomic {
    pub fn new() -> (s: Self)
        ensures
            s == (ConnectionPoolStatsAtomic {
                acquire_success: 0,
                acquire_failures: 0,
                connections_created: 0,
                connections_destroyed: 0,
                total_acquire_time_us: 0,
                acquire_count: 0,
            }),
    {
        ConnectionPoolStatsAtomic {
            acquire_success: 0,
            acquire_failures: 0,
            connections_created: 0,
            connections_destroyed: 0,
            total_acquire_time_us: 0,
            acquire_count: 0,
        }
    }

    /// Counts an acquisition: a success with the time it took, or a failure.
    pub fn record_acquire(&mut self, success: bool, duration_us: u64)
        ensures
            success ==> *final(self) == (ConnectionPoolStatsAtomic {
                acquire_success: wrapping_sum(old(self).acquire_success, 1),
                total_acquire_time_us: wrapping_sum(old(self).total_acquire_time_us, duration_us),
                acquire_count: wrapping_sum(old(self).acquire_count, 1),
                ..*old(self)
            }),
            !success ==> *final(self) == (ConnectionPoolStatsAtomic {
                acquire_failures: wrapping_sum(old(self).acquire_failures, 1),
                ..*old(self)
            }),
    {
        if success {
            self.acquire_success = wrapping_add(self.acquire_success, 1);
            self.total_acquire_time_us = wrapping_add(self.total_acquire_time_us, duration_us);
            self.acquire_count = wrapping_add(self.acquire_count, 1);
        } else {
            self.acquire_failures = wrapping_add(self.acquire_failures, 1);
        }
    }
}

/// What the pool reports: connection counts and the counters.
#[derive(Debug, Clone, Copy, PartialEq, Eq, Structural)]
pub struct ConnectionPoolStats {
    pub total_connections: usize,
    pub idle_connections: usize,
    pub in_use_connections: usize,
    pub acquire_success: u64,
    pub acquire_failures: u64,
    pub connections_created: u64,
    pub connections_destroyed: u64,
    pub total_acquire_time_us: u64,
    pub acquire_count: u64,
}

/// A pool of connections. `permits` is what is left of the semaphore that
/// bounds it: an acquisition that creates a connection keeps its permit.
pub struct OptimizedConnectionPool {
    pub config: ConnectionPoolConfig,
    pub connections: Vec<Connection>,
    pub permits: usize,
    pub stats: ConnectionPoolStatsAtomic,
    pub next_id: usize,
    pub shutdown: u64,
}

/// The first idle connection that is healthy at `now_ms`.
pub open spec fn first_reusable(cs: Seq<Connection>, config: ConnectionPoolConfig, now_ms: u64, i: int) -> Option<int>
    decreases cs.len() - i,
{
    if i < 0 || i >= cs.len() {
        None
    } else if cs[i].state == ConnectionState::Idle && healthy(cs[i], config, now_ms) {
        Some(i)
    } else {
        first_reusable(cs, config, now_ms, i + 1)
    }
}

/// The connections that are healthy at `now_ms`, in order.
pub open spec fn healthy_ones(cs: Seq<Connection>, config: ConnectionPoolConfig, now_ms: u64) -> Seq<Connection>
    decreases cs.len(),
{
    if cs.len() == 0 {
        seq![]
    } else {
        healthy_ones(cs.drop_last(), config, now_ms) + if healthy(cs.last(), config, now_ms) {
            seq![cs.last()]
        } else {
            seq![]
        }
    }
}

/// The first connection with id `id`.
pub open spec fn connection_index(cs: Seq<Connection>, id: usize, i: int) -> Option<int>
    decreases cs.len() - i,
{
    if i < 0 || i >= cs.len() {
        None
    } else if cs[i].id == id {
        Some(i)
    } else {
        connection_index(cs, id, i + 1)
    }
}

/// How many of `cs` are idle.
pub open spec fn idle_count(cs: Seq<Connection>) -> nat
    decreases cs.len(),
{
    if cs.len() == 0 {
        0
    } else {
        idle_count(cs.drop_last()) + if cs.last().state == ConnectionState::Idle { 1nat } else { 0nat }
    }
}

proof fn lemma_idle_count_le(cs: Seq<Connection>)
    ensures
        idle_count(cs) <= cs.len(),
    decreases cs.len(),
{
    if cs.len() > 0 {
        lemma_idle_count_le(cs.drop_last());
    }
}

impl OptimizedConnectionPool {
    /// An empty pool with every permit free.
    pub fn new(config: ConnectionPoolConfig) -> (p: Self)
        ensures
            p.config == config,
            p.connections@.len() == 0,
            p.permits == config.max_connections,
            p.stats == (ConnectionPoolStatsAtomic {
                acquire_success: 0,
                acquire_failures: 0,
                connections_created: 0,
                connections_destroyed: 0,
                total_acquire_time_us: 0,
                acquire_count: 0,
            }),
            p.next_id == 0,
            p.shutdown == 0,
    {
        OptimizedConnectionPool {
            config,
            connections: Vec::new(),
            permits: config.max_connections,
            stats: ConnectionPoolStatsAtomic::new(),
            next_id: 0,
            shutdown: 0,
        }
    }

    /// A new idle connection at `now_ms`, with the next id and a 1 KiB
    /// buffer; counts as created.
    fn create_connection(&mut self, now_ms: u64) -> (c: Connection)
        requires
            old(self).next_id < usize::MAX,
        ensures
            c.id == old(self).next_id,
            c.created_at_ms == now_ms && c.last_used_at_ms == now_ms,
            c.state == ConnectionState::Idle,
            (c.data matches Some(d) && d@.len() == 1024),
            final(self).next_id == old(self).next_id + 1,
            final(self).stats == (ConnectionPoolStatsAtomic {
                connections_created: wrapping_sum(old(self).stats.connections_created, 1),
                ..old(self).stats
            }),
            final(self).connections == old(self).connections,
            final(self).config == old(self).config,
            final(self).permits == old(self).permits,
            final(self).shutdown == old(self).shutdown,
    {
        let id = self.next_id;
        self.next_id = self.next_id + 1;
        let mut conn = Connection::new_at(id, now_ms);
        let mut buf: Vec<u8> = Vec::new();
        let mut k: usize = 0;
        while k < 1024
            invariant
                k <= 1024,
                buf@.len() == k,
            decreases 1024 - k,
        {
            buf.push(0);
            k = k + 1;
        }
        conn.data = Some(buf);
        self.stats.connections_created = wrapping_add(self.stats.connections_created, 1);
        conn
    }

    /// Warms the pool up at `now_ms` with the minimum number of connections,
    /// when warm-up is on.
    pub fn initialize_at(&mut self, now_ms: u64) -> (r: Result<(), String>)
        requires
            old(self).next_id + old(self).config.min_connections <= usize::MAX,
        ensures
            r is Ok,
            old(self).config.enable_warmup ==> final(self).connections@.len() == old(self).connections@.len()
                + old(self).config.min_connections && final(self).next_id == old(self).next_id
                + old(self).config.min_connections,
            !old(self).config.enable_warmup ==> final(self).connections == old(self).connections,
            final(self).config == old(self).config,
            final(self).permits == old(self).permits,
    {
        if !self.config.enable_warmup {
            return Ok(());
        }
        let n = self.config.min_connections;
        let mut i: usize = 0;
        while i < n
            invariant
                n == self.config.min_connections,
                i <= n,
                self.next_id == old(self).next_id + i,
                old(self).next_id + n <= usize::MAX,
                self.connections@.len() == old(self).connections@.len() + i,
                self.config == old(self).config,
                self.permits == old(self).permits,
            decreases n - i,
        {
            let c = self.create_connection(now_ms);
            self.connections.push(c);
            i = i + 1;
        }
        Ok(())
    }

    /// Hands out a connection at `now_ms`, counting an acquisition that took
    /// `elapsed_us`: the first idle healthy connection; else a new one while
    /// the pool is below its maximum; else the pool is exhausted. Without a
    /// free permit the acquisition times out.
    pub fn acquire_at(&mut self, now_ms: u64, elapsed_us: u64) -> (r: Result<usize, String>)
        requires
            old(self).next_id < usize::MAX,
        ensures
            final(self).config == old(self).config,
            old(self).permits == 0 ==> (r matches Err(m) && m@ == "Connection acquire timeout"@
                && *final(self) == *old(self)),
            old(self).permits > 0 ==> match first_reusable(old(self).connections@, old(self).config, now_ms, 0) {
                Some(i) => r == Ok::<usize, String>(old(self).connections@[i].id) && final(self).connections
                    == old(self).connections && final(self).permits == old(self).permits,
                None => if old(self).connections@.len() < old(self).config.max_connections {
                    r == Ok::<usize, String>(old(self).next_id) && final(self).connections@.len()
                        == old(self).connections@.len() + 1 && final(self).connections@.last().id == old(self).next_id
                        && final(self).permits == old(self).permits - 1
                } else {
                    (r matches Err(m) && m@ == "Connection pool exhausted"@ && final(self).connections
                        == old(self).connections && final(self).permits == old(self).permits)
                },
            },
            r is Ok ==> final(self).stats.acquire_success == wrapping_sum(old(self).stats.acquire_success, 1),
            (r is Err && old(self).permits > 0) ==> final(self).stats.acquire_failures == wrapping_sum(
                old(self).stats.acquire_failures,
                1,
            ),
    {
        if self.permits == 0 {
            return Err("Connection acquire timeout".to_string());
        }
        let mut i: usize = 0;
        while i < self.connections.len()
            invariant
                self.connections == old(self).connections,
                self.config == old(self).config,
                self.permits == old(self).permits,
                self.stats == old(self).stats,
                self.next_id == old(self).next_id,
                self.shutdown == old(self).shutdown,
                self.permits > 0,
                i <= self.connections@.len(),
                first_reusable(self.connections@, self.config, now_ms, 0) == first_reusable(
                    self.connections@,
                    self.config,
                    now_ms,
                    i as int,
                ),
            decreases self.connections@.len() - i,
        {
            if self.connections[i].state == ConnectionState::Idle && self.connections[i].is_healthy_at(
                &self.config,
                now_ms,
            ) {
                let id = self.connections[i].id;
                self.stats.record_acquire(true, elapsed_us);
                return Ok(id);
            }
            i = i + 1;
        }
        if self.connections.len() < self.config.max_connections {
            let c = self.create_connection(now_ms);
            let id = c.id;
            self.connections.push(c);
            self.stats.connections_created = wrapping_add(self.stats.connections_created, 1);
            self.stats.record_acquire(true, elapsed_us);
            self.permits = self.permits - 1;
            return Ok(id);
        }
        self.stats.record_acquire(false, elapsed_us);
        Err("Connection pool exhausted".to_string())
    }

    /// Gives connection `id` back at `now_ms`: an unhealthy connection is
    /// removed from the pool and counted as destroyed.
    pub fn release_at(&mut self, id: usize, now_ms: u64)
        ensures
            final(self).config == old(self).config,
            final(self).permits == old(self).permits,
            match connection_index(old(self).connections@, id, 0) {
                Some(i) => if healthy(old(self).connections@[i], old(self).config, now_ms) {
                    final(self).connections == old(self).connections && final(self).stats == old(self).stats
                } else {
                    final(self).connections@ == old(self).connections@.remove(i) && final(self).stats == (
                    ConnectionPoolStatsAtomic {
                        connections_destroyed: wrapping_sum(old(self).stats.connections_destroyed, 1),
                        ..old(self).stats
                    })
                },
                None => final(self).connections == old(self).connections && final(self).stats == old(self).stats,
            },
    {
        let mut i: usize = 0;
        while i < self.connections.len()
            invariant
                self.connections == old(self).connections,
                self.stats == old(self).stats,
                self.config == old(self).config,
                self.permits == old(self).permits,
                i <= self.connections@.len(),
                connection_index(self.connections@, id, 0) == connection_index(self.connections@, id, i as int),
            decreases self.connections@.len() - i,
        {
            if self.connections[i].id == id {
                if !self.connections[i].is_healthy_at(&self.config, now_ms) {
                    self.connections.remove(i);
                    self.stats.connections_destroyed = wrapping_add(self.stats.connections_destroyed, 1);
                }
                return;
            }
            i = i + 1;
        }
    }

    /// Drops the connections that are unhealthy at `now_ms`; returns how many.
    pub fn health_check_at(&mut self, now_ms: u64) -> (n: usize)
        ensures
            final(self).connections@ == healthy_ones(old(self).connections@, old(self).config, now_ms),
            n + final(self).connections@.len() == old(self).connections@.len(),
            final(self).config == old(self).config,
            final(self).stats == old(self).stats,
            final(self).permits == old(self).permits,
    {
        let mut rest: Vec<Connection> = Vec::new();
        std::mem::swap(&mut rest, &mut self.connections);
        let ghost cs = rest@;
        assert(cs.len() == rest.len());
        let mut kept: Vec<Connection> = Vec::new();
        let mut removed: usize = 0;
        let mut i: usize = 0;
        while rest.len() > 0
            invariant
                i + rest@.len() == cs.len(),
                cs.len() <= usize::MAX,
                rest@ == cs.subrange(i as int, cs.len() as int),
                kept@ == healthy_ones(cs.subrange(0, i as int), self.config, now_ms),
                removed + kept@.len() == i,
                self.config == old(self).config,
                self.stats == old(self).stats,
                self.permits == old(self).permits,
                cs == old(self).connections@,
            decreases rest@.len(),
        {
            let c = rest.remove(0);
            proof {
                assert(c == cs[i as int]);
                assert(cs.subrange(0, i + 1).drop_last() =~= cs.subrange(0, i as int));
                assert(cs.subrange(0, i + 1).last() == c);
            }
            if c.is_healthy_at(&self.config, now_ms) {
                kept.push(c);
            } else {
                removed = removed + 1;
            }
            i = i + 1;
            assert(rest@ =~= cs.subrange(i as int, cs.len() as int));
        }
        assert(cs.subrange(0, cs.len() as int) =~= cs);
        self.connections = kept;
        removed
    }

    /// The connection counts and the counters.
    pub fn get_stats(&self) -> (s: ConnectionPoolStats)
        ensures
            s.total_connections == self.connections@.len(),
            s.idle_connections == idle_count(self.connections@),
            s.in_use_connections == self.connections@.len() - idle_count(self.connections@),
            s.acquire_success == self.stats.acquire_success,
            s.acquire_failures == self.stats.acquire_failures,
            s.connections_created == self.stats.connections_created,
            s.connections_destroyed == self.stats.connections_destroyed,
            s.total_acquire_time_us == self.stats.total_acquire_time_us,
            s.acquire_count == self.stats.acquire_count,
    {
        let mut idle: usize = 0;
        let mut i: usize = 0;
        while i < self.connections.len()
            invariant
                i <= self.connections@.len(),
                idle == idle_count(self.connections@.subrange(0, i as int)),
                idle <= i,
            decreases self.connections@.len() - i,
        {
            proof {
                let t = self.connections@.subrange(0, i + 1);
                assert(t.drop_last() =~= self.connections@.subrange(0, i as int));
            }
            if self.connections[i].state == ConnectionState::Idle {
                idle = idle + 1;
            }
            i = i + 1;
        }
        assert(self.connections@.subrange(0, self.connections@.len() as int) =~= self.connections@);
        ConnectionPoolStats {
            total_connections: self.connections.len(),
            idle_connections: idle,
            in_use_connections: self.connections.len() - idle,
            acquire_success: self.stats.acquire_success,
            acquire_failures: self.stats.acquire_failures,
            connections_created: self.stats.connections_created,
            connections_destroyed: self.stats.connections_destroyed,
            total_acquire_time_us: self.stats.total_acquire_time_us,
            acquire_count: self.stats.acquire_count,
        }
    }

    /// Marks the pool shut down and drops every connection.
    pub fn shutdown(&mut self)
        ensures
            final(self).shutdown == 1,
            final(self).connections@.len() == 0,
            final(self).config == old(self).config,
            final(self).stats == old(self).stats,
            final(self).permits == old(self).permits,
    {
        self.shutdown = 1;
        self.connections.clear();
    }
}

/// Batch sizes and timing of an adaptive batch processor.
#[derive(Debug, Clone, Copy, PartialEq, Eq, Structural)]
pub struct BatchProcessingConfig {
    pub min_batch_size: usize,
    pub max_batch_size: usize,
    pub initial_batch_size: usize,
    pub batch_timeout_ms: u64,
    pub enable_adaptive_batching: bool,
    pub adaptive_interval: usize,
    pub target_latency_ms: u64,
}

impl Default for BatchProcessingConfig {
    /// Batches of 10 to 500 items starting at 50, a 100 ms timeout, adaptive
    /// sizing every 100 batches towards a 50 ms latency.
    fn default() -> (c: Self)
        ensures
            c == (BatchProcessingConfig {
                min_batch_size: 10,
                max_batch_size: 500,
                initial_batch_size: 50,
                batch_timeout_ms: 100,
                enable_adaptive_batching: true,
                adaptive_interval: 100,
                target_latency_ms: 50,
            }),
    {
        BatchProcessingConfig {
            min_batch_size: 10,
            max_batch_size: 500,
            initial_batch_size: 50,
            batch_timeout_ms: 100,
            enable_adaptive_batching: true,
            adaptive_interval: 100,
            target_latency_ms: 50,
        }
    }
}

/// Counters of a batch processor.
#[derive(Debug, Clone, Copy, PartialEq, Eq, Structural)]
pub struct BatchProcessorStats {
    pub total_batches: u64,
    pub total_items: u64,
    pub avg_batch_size: u64,
    pub current_batch_size: usize,
    pub size_adjustments: u64,
}

impl BatchProcessorStats {
    /// Statistics from running totals; the average batch size is the whole
    /// number of items per batch, 0 before the first batch.
    pub fn from_totals(total_batches: u64, total_items: u64, current_batch_size: usize, size_adjustments: u64) -> (s: Self)
        ensures
            s.total_batches == total_batches,
            s.total_items == total_items,
            s.avg_batch_size == (if total_batches > 0 { total_items / total_batches } else { 0 }),
            s.current_batch_size == current_batch_size,
            s.size_adjustments == size_adjustments,
    {
        BatchProcessorStats {
            total_batches,
            total_items,
            avg_batch_size: if total_batches > 0 { total_items / total_batches } else { 0 },
            current_batch_size,
            size_adjustments,
        }
    }
}

/// The batch size after a batch took `latency_ms`: four fifths of it
/// (rounded down, at least the minimum) when the latency is over twice the
/// target, six fifths of it (rounded down, at most the maximum) when it is
/// under half the target, unchanged otherwise.
pub open spec fn adjusted_batch_size(current: usize, latency_ms: u64, c: BatchProcessingConfig) -> int {
    if latency_ms > c.target_latency_ms * 2 {
        let shrunk = current * 4 / 5;
        if shrunk > c.min_batch_size { shrunk } else { c.min_batch_size as int }
    } else if latency_ms < c.target_latency_ms / 2 {
        let grown = current * 6 / 5;
        if grown < c.max_batch_size { grown } else { c.max_batch_size as int }
    } else {
        current as int
    }
}

/// Collects items and processes them in batches whose size adapts to how
/// long a batch takes.
pub struct AdaptiveBatchProcessor<T> {
    pub config: BatchProcessingConfig,
    pub current_batch: Vec<T>,
    pub batch_size: usize,
    pub total_batches_processed: u64,
    pub total_items_processed: u64,
    pub total_processing_time_us: u64,
    pub size_adjustments: u64,
    pub processed_batches: u64,
}

impl<T> AdaptiveBatchProcessor<T> {
    pub fn new(config: BatchProcessingConfig) -> (p: Self)
        ensures
            p.config == config,
            p.current_batch@.len() == 0,
            p.batch_size == config.initial_batch_size,
            p.total_batches_processed == 0,
            p.total_items_processed == 0,
            p.total_processing_time_us == 0,
            p.size_adjustments == 0,
            p.processed_batches == 0,
    {
        AdaptiveBatchProcessor {
            config,
            current_batch: Vec::new(),
            batch_size: config.initial_batch_size,
            total_batches_processed: 0,
            total_items_processed: 0,
            total_processing_time_us: 0,
            size_adjustments: 0,
            processed_batches: 0,
        }
    }

    /// Adjusts the batch size to a batch that took `actual_latency_ms`.
    pub fn adaptive_batch_size_adjustment(&mut self, actual_latency_ms: u64)
        ensures
            final(self).batch_size == adjusted_batch_size(old(self).batch_size, actual_latency_ms, old(self).config),
            final(self).size_adjustments == (if final(self).batch_size != old(self).batch_size {
                wrapping_sum(old(self).size_adjustments, 1)
            } else {
                old(self).size_adjustments
            }),
            final(self).config == old(self).config,
            final(self).current_batch == old(self).current_batch,
            final(self).total_batches_processed == old(self).total_batches_processed,
            final(self).total_items_processed == old(self).total_items_processed,
            final(self).total_processing_time_us == old(self).total_processing_time_us,
            final(self).processed_batches == old(self).processed_batches,
    {
        let current = self.batch_size;
        let target = self.config.target_latency_ms as u128;
        let latency = actual_latency_ms as u128;
        let new_size: usize = if latency > target * 2 {
            let shrunk = ((current as u128) * 4 / 5) as usize;
            if shrunk > self.config.min_batch_size { shrunk } else { self.config.min_batch_size }
        } else if latency < target / 2 {
            let grown = (current as u128) * 6 / 5;
            if grown < self.config.max_batch_size as u128 { grown as usize } else { self.config.max_batch_size }
        } else {
            current
        };
        if new_size != current {
            self.batch_size = new_size;
            self.size_adjustments = wrapping_add(self.size_adjustments, 1);
        }
    }

    /// Counts a batch of `batch_len` items that took `processing_time_us`,
    /// then adapts the batch size when adaptive batching is on.
    pub fn process_batch(&mut self, batch_len: usize, processing_time_us: u64) -> (r: Result<(), String>)
        ensures
            r is Ok,
            final(self).total_batches_processed == wrapping_sum(old(self).total_batches_processed, 1),
            final(self).total_items_processed == wrapping_sum(old(self).total_items_processed, batch_len as u64),
            final(self).total_processing_time_us == wrapping_sum(old(self).total_processing_time_us, processing_time_us),
            final(self).processed_batches == wrapping_sum(old(self).processed_batches, 1),
            old(self).config.enable_adaptive_batching ==> final(self).batch_size == adjusted_batch_size(
                old(self).batch_size,
                processing_time_us / 1000,
                old(self).config,
            ),
            !old(self).config.enable_adaptive_batching ==> final(self).batch_size == old(self).batch_size,
            final(self).config == old(self).config,
            final(self).current_batch == old(self).current_batch,
    {
        self.total_batches_processed = wrapping_add(self.total_batches_processed, 1);
        self.total_items_processed = wrapping_add(self.total_items_processed, batch_len as u64);
        self.total_processing_time_us = wrapping_add(self.total_processing_time_us, processing_time_us);
        self.processed_batches = wrapping_add(self.processed_batches, 1);
        if self.config.enable_adaptive_batching {
            self.adaptive_batch_size_adjustment(processing_time_us / 1000);
        }
        Ok(())
    }

    /// Adds an item; when the collected items reach the batch size they are
    /// handed back as a batch, counted as processed in `processing_time_us`.
    pub fn add(&mut self, item: T, processing_time_us: u64) -> (r: Result<Option<Vec<T>>, String>)
        ensures
            ({
                let items = old(self).current_batch@.push(item);
                &&& items.len() >= old(self).batch_size ==> (r matches Ok(Some(b)) && b@ == items
                    && final(self).current_batch@.len() == 0 && final(self).total_batches_processed == wrapping_sum(
                    old(self).total_batches_processed,
                    1,
                ) && final(self).total_items_processed == wrapping_sum(
                    old(self).total_items_processed,
                    items.len() as u64,
                ))
                &&& items.len() < old(self).batch_size ==> (r matches Ok(None) && final(self).current_batch@ == items
                    && final(self).batch_size == old(self).batch_size
                    && final(self).total_batches_processed == old(self).total_batches_processed)
            }),
            final(self).config == old(self).config,
    {
        self.current_batch.push(item);
        if self.current_batch.len() >= self.batch_size {
            let mut items: Vec<T> = Vec::new();
            std::mem::swap(&mut items, &mut self.current_batch);
            let n = items.len();
            let _ = self.process_batch(n, processing_time_us);
            return Ok(Some(items));
        }
        Ok(None)
    }

    /// The current batch size.
    pub fn current_batch_size(&self) -> (n: usize)
        ensures
            n == self.batch_size,
    {
        self.batch_size
    }

    pub fn get_stats(&self) -> (s: BatchProcessorStats)
        ensures
            s.total_batches == self.total_batches_processed,
            s.total_items == self.total_items_processed,
            s.avg_batch_size == (if self.total_batches_processed > 0 {
                self.total_items_processed / self.total_batches_processed
            } else {
                0
            }),
            s.current_batch_size == self.batch_size,
            s.size_adjustments == self.size_adjustments,
    {
        BatchProcessorStats::from_totals(
            self.total_batches_processed,
            self.total_items_processed,
            self.batch_size,
            self.size_adjustments,
        )
    }
}

/// A fixed-capacity byte buffer that is written at one end and read at the
/// other; space that was read is not reused until the buffer is cleared.
pub struct ZeroCopyBuffer {
    data: Vec<u8>,
    capacity: usize,
    read_pos: usize,
    write_pos: usize,
}

impl ZeroCopyBuffer {
    /// The positions are within the storage, reads never pass writes.
    pub closed spec fn wf(&self) -> bool {
        &&& self.data@.len() == self.capacity
        &&& self.read_pos <= self.write_pos <= self.capacity
    }

    /// The bytes written and not yet read, oldest first.
    pub closed spec fn pending(&self) -> Seq<u8> {
        self.data@.subrange(self.read_pos as int, self.write_pos as int)
    }

    /// How many more bytes can be written.
    pub closed spec fn space(&self) -> nat {
        (self.capacity - self.write_pos) as nat
    }

    /// The capacity the buffer was made with.
    pub closed spec fn cap(&self) -> nat {
        self.capacity as nat
    }

    /// An empty buffer of `capacity` bytes.
    pub fn new(capacity: usize) -> (b: Self)
        ensures
            b.wf(),
            b.pending() == Seq::<u8>::empty(),
            b.space() == capacity,
            b.cap() == capacity,
    {
        let mut data: Vec<u8> = Vec::new();
        let mut i: usize = 0;
        while i < capacity
            invariant
                i <= capacity,
                data@.len() == i,
            decreases capacity - i,
        {
            data.push(0);
            i = i + 1;
        }
        let b = ZeroCopyBuffer { data, capacity, read_pos: 0, write_pos: 0 };
        assert(b.pending() =~= Seq::<u8>::empty());
        b
    }

    /// Appends as much of `src` as fits and returns how many bytes that was.
    pub fn write(&mut self, src: &[u8]) -> (n: usize)
        requires
            old(self).wf(),
        ensures
            written(*old(self), src@, n, *final(self)),
    {
        let available = self.capacity - self.write_pos;
        let to_write = if src.len() < available { src.len() } else { available };
        let start = self.write_pos;
        let ghost before = self.data@;
        let mut i: usize = 0;
        while i < to_write
            invariant
                i <= to_write,
                start == self.write_pos,
                self.read_pos <= start,
                self.read_pos == old(self).read_pos,
                self.capacity == old(self).capacity,
                self.capacity - start == old(self).space(),
                to_write <= src@.len(),
                to_write == (if src@.len() < old(self).space() { src@.len() } else { old(self).space() }),
                before == old(self).data@,
                start + to_write <= self.capacity,
                self.data@.len() == before.len(),
                self.data@.len() == self.capacity,
                forall|j: int| 0 <= j < start ==> self.data@[j] == before[j],
                forall|j: int| 0 <= j < i ==> self.data@[start + j] == src@[j],
                forall|j: int| start + to_write <= j < self.data@.len() ==> self.data@[j] == before[j],
            decreases to_write - i,
        {
            self.data.set(start + i, src[i]);
            i = i + 1;
        }
        self.write_pos = start + to_write;
        assert(self.data@.subrange(self.read_pos as int, self.write_pos as int) =~= before.subrange(
            self.read_pos as int,
            start as int,
        ) + src@.subrange(0, to_write as int));
        to_write
    }

    /// Moves as many pending bytes as `dest` holds into its front and returns
    /// how many that was; the rest of `dest` is left as it was.
    pub fn read(&mut self, dest: &mut [u8]) -> (n: usize)
        requires
            old(self).wf(),
        ensures
            read_out(*old(self), old(dest)@, n, final(dest)@, *final(self)),
    {
        let available = self.write_pos - self.read_pos;
        let to_read = if dest.len() < available { dest.len() } else { available };
        let start = self.read_pos;
        let ghost before = dest@;
        let mut i: usize = 0;
        while i < to_read
            invariant
                i <= to_read,
                self.wf(),
                start == self.read_pos,
                start + to_read <= self.write_pos,
                to_read <= before.len(),
                dest@.len() == before.len(),
                forall|j: int| 0 <= j < i ==> dest@[j] == self.data@[start + j],
                forall|j: int| i <= j < dest@.len() ==> dest@[j] == before[j],
            decreases to_read - i,
        {
            dest[i] = self.data[start + i];
            i = i + 1;
        }
        self.read_pos = start + to_read;
        proof {
            let p = old(self).pending();
            assert(dest@.subrange(0, to_read as int) =~= p.subrange(0, to_read as int));
            assert(dest@.subrange(to_read as int, dest@.len() as int) =~= before.subrange(
                to_read as int,
                before.len() as int,
            ));
            assert(self.pending() =~= p.subrange(to_read as int, p.len() as int));
        }
        to_read
    }

    /// Empties the buffer and makes its whole capacity writable again.
    pub fn clear(&mut self)
        requires
            old(self).wf(),
        ensures
            final(self).wf(),
            final(self).pending() == Seq::<u8>::empty(),
            final(self).space() == old(self).cap(),
            final(self).cap() == old(self).cap(),
    {
        self.read_pos = 0;
        self.write_pos = 0;
        assert(self.pending() =~= Seq::<u8>::empty());
    }

    /// How many more bytes can be written.
    pub fn available_space(&self) -> (n: usize)
        requires
            self.wf(),
        ensures
            n == self.space(),
    {
        self.capacity - self.write_pos
    }

    /// How many bytes are written and not yet read.
    pub fn used_space(&self) -> (n: usize)
        requires
            self.wf(),
        ensures
            n == self.pending().len(),
    {
        self.write_pos - self.read_pos
    }
}

/// `b1` is `b0` after a write of `src` that took `n` bytes: as many as fit,
/// appended to the pending bytes.
pub open spec fn written(b0: ZeroCopyBuffer, src: Seq<u8>, n: usize, b1: ZeroCopyBuffer) -> bool {
    &&& b1.wf()
    &&& n == (if src.len() < b0.space() { src.len() } else { b0.space() })
    &&& b1.pending() == b0.pending() + src.subrange(0, n as int)
    &&& b1.space() == b0.space() - n
    &&& b1.cap() == b0.cap()
}

/// `b1` is `b0` after a read into `dest0` that moved `n` bytes: as many as
/// `dest0` holds, taken from the front of the pending bytes.
pub open spec fn read_out(b0: ZeroCopyBuffer, dest0: Seq<u8>, n: usize, dest1: Seq<u8>, b1: ZeroCopyBuffer) -> bool {
    &&& b1.wf()
    &&& n == (if dest0.len() < b0.pending().len() { dest0.len() } else { b0.pending().len() })
    &&& dest1.len() == dest0.len()
    &&& dest1.subrange(0, n as int) == b0.pending().subrange(0, n as int)
    &&& dest1.subrange(n as int, dest1.len() as int) == dest0.subrange(n as int, dest0.len() as int)
    &&& b1.pending() == b0.pending().subrange(n as int, b0.pending().len() as int)
    &&& b1.space() == b0.space()
    &&& b1.cap() == b0.cap()
}

/// Bytes come out of an empty buffer in the order they went in: a read that
/// follows a write returns the first bytes that the write took.
pub proof fn law_read_returns_written(
    b0: ZeroCopyBuffer,
    src: Seq<u8>,
    n: usize,
    b1: ZeroCopyBuffer,
    dest0: Seq<u8>,
    m: usize,
    dest1: Seq<u8>,
    b2: ZeroCopyBuffer,
)
    requires
        b0.pending().len() == 0,
        written(b0, src, n, b1),
        read_out(b1, dest0, m, dest1, b2),
    ensures
        m <= n,
        dest1.subrange(0, m as int) == src.subrange(0, m as int),
{
    assert(b1.pending() =~= src.subrange(0, n as int));
    assert(dest1.subrange(0, m as int) =~= src.subrange(0, m as int));
}

/// Switches and sizes of the throughput optimizer.
#[derive(Debug, Clone, Copy, PartialEq, Eq, Structural)]
pub struct ThroughputOptimizerConfig {
    pub connection_pool_config: ConnectionPoolConfig,
    pub batch_processor_config: BatchProcessingConfig,
    pub enable_zero_copy: bool,
    pub buffer_size: usize,
}

impl Default for ThroughputOptimizerConfig {
    /// The default pool and batch settings, zero-copy on, 64 KiB buffers.
    fn default() -> (c: Self)
        ensures
            c.connection_pool_config.max_connections == 100,
            c.connection_pool_config.min_connections == 10,
            c.batch_processor_config.initial_batch_size == 50,
            c.enable_zero_copy,
            c.buffer_size == 65536,
    {
        ThroughputOptimizerConfig {
            connection_pool_config: ConnectionPoolConfig::default(),
            batch_processor_config: BatchProcessingConfig::default(),
            enable_zero_copy: true,
            buffer_size: 65536,
        }
    }
}

/// Counters of the throughput optimizer.
#[derive(Debug, Clone, Copy, PartialEq, Eq, Structural)]
pub struct ThroughputStats {
    pub requests_processed: u64,
    pub bytes_processed: u64,
    pub avg_latency_us: u64,
    pub throughput_rps: u64,
}

impl ThroughputStats {
    /// Statistics from running totals; the average latency is the whole number
    /// of microseconds per request, 0 before the first request.
    pub fn from_totals(requests_processed: u64, bytes_processed: u64, total_latency_us: u64, throughput_rps: u64) -> (s: Self)
        ensures
            s.requests_processed == requests_processed,
            s.bytes_processed == bytes_processed,
            s.avg_latency_us == (if requests_processed > 0 { total_latency_us / requests_processed } else { 0 }),
            s.throughput_rps == throughput_rps,
    {
        ThroughputStats {
            requests_processed,
            bytes_processed,
            avg_latency_us: if requests_processed > 0 { total_latency_us / requests_processed } else { 0 },
            throughput_rps,
        }
    }
}


/// A connection pool and a batch processor in front of request handling,
/// with request counters.
pub struct ThroughputOptimizer {
    pub connection_pool: OptimizedConnectionPool,
    pub batch_processor: AdaptiveBatchProcessor<Vec<u8>>,
    pub config: ThroughputOptimizerConfig,
    pub requests_processed: u64,
    pub bytes_processed: u64,
    pub throughput_rps: u64,
    pub total_latency_us: u64,
}

impl ThroughputOptimizer {
    pub fn new(config: ThroughputOptimizerConfig) -> (t: Self)
        ensures
            t.config == config,
            t.connection_pool.config == config.connection_pool_config,
            t.connection_pool.connections@.len() == 0,
            t.connection_pool.permits == config.connection_pool_config.max_connections,
            t.connection_pool.next_id == 0,
            t.batch_processor.config == config.batch_processor_config,
            t.batch_processor.current_batch@.len() == 0,
            t.requests_processed == 0,
            t.bytes_processed == 0,
            t.total_latency_us == 0,
    {
        ThroughputOptimizer {
            connection_pool: OptimizedConnectionPool::new(config.connection_pool_config),
            batch_processor: AdaptiveBatchProcessor::new(config.batch_processor_config),
            config,
            requests_processed: 0,
            bytes_processed: 0,
            throughput_rps: 0,
            total_latency_us: 0,
        }
    }

    /// Warms the pool up at `now_ms`.
    pub fn initialize_at(&mut self, now_ms: u64) -> (r: Result<(), String>)
        requires
            old(self).connection_pool.next_id + old(self).connection_pool.config.min_connections <= usize::MAX,
        ensures
            r is Ok,
    {
        self.connection_pool.initialize_at(now_ms)
    }

    /// Handles a request at `now_ms` that took `elapsed_us`: takes a
    /// connection (failing as the pool fails), adds the data to the current
    /// batch, counts the request and its bytes, and answers with the data.
    pub fn process_request_at(&mut self, data: Vec<u8>, now_ms: u64, elapsed_us: u64) -> (r: Result<Vec<u8>, String>)
        requires
            old(self).connection_pool.next_id < usize::MAX,
        ensures
            r matches Ok(out) ==> out@ == data@ && final(self).requests_processed == wrapping_sum(
                old(self).requests_processed,
                1,
            ) && final(self).bytes_processed == wrapping_sum(old(self).bytes_processed, data@.len() as u64)
                && final(self).total_latency_us == wrapping_sum(old(self).total_latency_us, elapsed_us),
            r is Err ==> final(self).requests_processed == old(self).requests_processed,
            old(self).connection_pool.permits == 0 ==> r is Err,
            old(self).connection_pool.permits > 0 && (first_reusable(
                old(self).connection_pool.connections@,
                old(self).connection_pool.config,
                now_ms,
                0,
            ) is Some || old(self).connection_pool.connections@.len() < old(self).connection_pool.config.max_connections)
                ==> r is Ok,
    {
        match self.connection_pool.acquire_at(now_ms, elapsed_us) {
            Err(e) => {
                return Err(e);
            },
            Ok(_) => {},
        }
        let copy = copy_bytes(&data);
        let _ = self.batch_processor.add(copy, elapsed_us);
        self.requests_processed = wrapping_add(self.requests_processed, 1);
        self.bytes_processed = wrapping_add(self.bytes_processed, data.len() as u64);
        self.total_latency_us = wrapping_add(self.total_latency_us, elapsed_us);
        Ok(data)
    }

    pub fn get_stats(&self) -> (s: ThroughputStats)
        ensures
            s.requests_processed == self.requests_processed,
            s.bytes_processed == self.bytes_processed,
            s.avg_latency_us == (if self.requests_processed > 0 {
                self.total_latency_us / self.requests_processed
            } else {
                0
            }),
            s.throughput_rps == self.throughput_rps,
    {
        ThroughputStats::from_totals(self.requests_processed, self.bytes_processed, self.total_latency_us, self.throughput_rps)
    }
}

fn copy_bytes(b: &Vec<u8>) -> (r: Vec<u8>)
    ensures
        r@ == b@,
{
    let mut r: Vec<u8> = Vec::new();
    let mut i: usize = 0;
    while i < b.len()
        invariant
            i <= b@.len(),
            r@ == b@.subrange(0, i as int),
        decreases b@.len() - i,
    {
        r.push(b[i]);
        i = i + 1;
    }
    r
}

} // verus!
