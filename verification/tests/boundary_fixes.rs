use rust_workflow_engine::optimization::boundary_fixes_batch2::{DiskIOLimiter, MemoryPoolThrottling};

#[test]
fn test_memory_pool_throttling() {
    let mut pool = MemoryPoolThrottling::new(1000, 800);

    assert!(pool.try_allocate(500).is_ok());

    assert!(pool.try_allocate(400).is_ok());

    assert!(pool.try_allocate(200).is_err());

    let stats = pool.get_stats();
    let usage_ratio = stats.allocated as f64 / stats.max_allocation as f64;
    assert!(usage_ratio > 0.8);
}

#[test]
fn test_disk_io_limiter() {
    let mut limiter = DiskIOLimiter::new(100, 10);

    assert!(limiter.try_acquire(50).is_ok());

    assert!(limiter.try_acquire(60).is_err());

    let stats = limiter.get_stats();
    assert_eq!(stats.available_tokens, 50);
    assert_eq!(stats.throttled_count, 1);
}

use rust_workflow_engine::optimization::boundary_fixes_batch2::{
    ConcurrentStateFix, ConnectionLeakDetection, FastFailCircuitBreaker,
};

#[test]
fn breaker_opens_on_failures_now_and_refuses() {
    let mut b = FastFailCircuitBreaker::new(2, 3600);
    assert!(b.allow_request());
    b.record_failure();
    assert_eq!(b.get_state(), "CLOSED");
    b.record_failure();
    assert_eq!(b.get_state(), "OPEN");
    assert_eq!(b.failure_count, 2);
    assert!(!b.allow_request());
    assert_eq!(b.get_state(), "OPEN");
}

#[test]
fn disk_limiter_counts_io_and_throttling_now() {
    let mut l = DiskIOLimiter::new(3, 0);
    assert!(l.try_acquire(2).is_ok());
    assert_eq!(l.io_count, 1);
    let e = l.try_acquire(5).unwrap_err();
    assert_eq!(e, "IO rate limited: available=1, requested=5");
    assert_eq!(l.throttled_count, 1);
    assert_eq!(l.io_count, 1);
}

#[test]
fn fresh_connections_do_not_leak_now() {
    let mut d = ConnectionLeakDetection::new(60);
    d.create_connection(7);
    assert_eq!(d.active_connections[0].id, 7);
    assert!(d.detect_leaks().is_empty());
    assert_eq!(d.leak_count, 0);
    d.create_connection_at(8, 0);
    assert_eq!(d.detect_leaks(), vec![8]);
    assert_eq!(d.leak_count, 1);
}

#[test]
fn updates_count_versions() {
    let mut s = ConcurrentStateFix::new();
    for x in [5u64, 9, 3] {
        assert_eq!(s.atomic_update(x), Ok(x));
    }
    assert_eq!(s.get_state_with_version(), (3, 3));
}
