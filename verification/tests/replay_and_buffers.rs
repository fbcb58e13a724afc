use rust_workflow_engine::optimization::lockfree_cache::CacheEntry;
use rust_workflow_engine::optimization::performance_optimization::{CacheStats, ObjectPoolUsage, OptimizerStats, PoolStats};
use rust_workflow_engine::optimization::async_pool::{AsyncPoolConfig, AsyncTaskError};
use rust_workflow_engine::optimization::incremental_replay::{IncrementalReplayer, StateCacheEntry};
use rust_workflow_engine::optimization::performance_optimization::{ExecutionBuffer, PerformanceOptimizerConfig};
use rust_workflow_engine::scanner::ScannerCacheConfig;

#[test]
fn test_incremental_replayer_creation() {
    let replayer = IncrementalReplayer::new();
    assert_eq!(replayer.cache_hits, 0);
    assert_eq!(replayer.cache_misses, 0);
    assert_eq!(replayer.get_cache_hit_rate_percent(), 0);
}

#[test]
fn test_cache_hit_rate() {
    let mut replayer = IncrementalReplayer::new();
    replayer.cache_hits = 80;
    replayer.cache_misses = 20;
    assert_eq!(replayer.get_cache_hit_rate_percent(), 80);
}

fn entry(hash: &str, at: u64) -> StateCacheEntry {
    StateCacheEntry { state_hash: hash.to_string(), state_data: vec![1, 2], last_accessed_ms: at }
}

#[test]
fn cleanup_drops_only_stale_entries() {
    let mut r = IncrementalReplayer::new();
    r.state_cache.push(("a".to_string(), entry("ha", 0)));
    r.state_cache.push(("b".to_string(), entry("hb", 50_000)));
    r.state_cache.push(("c".to_string(), entry("hc", 61_000)));
    let n = r.cleanup_expired_cache_at(60, 61_001);
    assert_eq!(n, 1);
    let keys: Vec<&str> = r.state_cache.iter().map(|(k, _)| k.as_str()).collect();
    assert_eq!(keys, vec!["b", "c"]);
}

#[test]
fn test_execution_buffer_poolable() {
    let mut buffer = ExecutionBuffer::new(1024);
    assert_eq!(buffer.data.len(), 1024);
    buffer.data.extend_from_slice(&[1, 2, 3]);
    buffer.use_count = 5;
    buffer.reset();
    assert!(buffer.data.is_empty());
    assert_eq!(buffer.use_count, 0);
    buffer.use_count = 101;
    assert!(buffer.is_expired());
}

#[test]
fn default_settings() {
    let c = PerformanceOptimizerConfig::default();
    assert!(c.pool_size >= 2 && c.pool_size % 2 == 0);
    assert_eq!(c.cache_size, 10000);
    let p = AsyncPoolConfig::default();
    assert_eq!(p.queue_capacity, 1000);
    assert_eq!(p.task_timeout_ms, 500);
    let s = ScannerCacheConfig::default();
    assert_eq!(s.path_cache_ttl_secs, 3600);
    assert_eq!(s.max_entries, 100_000);
    assert_eq!(AsyncTaskError::ExecutionFailed("x".to_string()).message(), "任务执行失败：x");
}

#[test]
fn optimizer_stats_hit_rate() {
    let s = OptimizerStats {
        pool_stats: PoolStats { active_tasks: 1, queued_tasks: 2 },
        object_pool_stats: ObjectPoolUsage { used: 3, available: 4 },
        cache_stats: CacheStats { size: 5, hits: 2, misses: 1 },
        config: PerformanceOptimizerConfig::default(),
    };
    assert_eq!(s.cache_hit_rate_basis_points(), 6666);
}

#[test]
fn expired_entries_stay_expired() {
    let e = CacheEntry::new_at(1u8, Some(2), 1_000);
    assert!(!e.is_expired_at(2_999));
    assert!(e.is_expired_at(3_000));
    assert!(e.is_expired_at(9_000));
    let z = CacheEntry::new_at(1u8, Some(0), 1_000);
    assert!(z.is_expired_at(1_000));
}
