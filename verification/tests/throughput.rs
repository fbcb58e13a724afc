use rust_workflow_engine::optimization::throughput_optimization::{
    AdaptiveBatchProcessor, BatchProcessingConfig, ConnectionPoolConfig, OptimizedConnectionPool, ThroughputOptimizer,
    ThroughputOptimizerConfig,
};

#[test]
fn connection_pool_basic() {
    let config = ConnectionPoolConfig::default();
    let mut pool = OptimizedConnectionPool::new(config);

    pool.initialize_at(1_000).unwrap();
    assert_eq!(pool.get_stats().total_connections, 10);

    let id = pool.acquire_at(1_000, 5).unwrap();
    assert_eq!(id, 0);
    assert_eq!(pool.connections[0].use_count, 0);

    pool.release_at(id, 1_000);

    let stats = pool.get_stats();
    assert!(stats.total_connections >= 1);
    assert_eq!(stats.acquire_success, 1);
    assert_eq!(stats.total_acquire_time_us, 5);
}

#[test]
fn connection_pool_grows_then_exhausts() {
    let config = ConnectionPoolConfig { max_connections: 1, enable_warmup: false, ..ConnectionPoolConfig::default() };
    let mut pool = OptimizedConnectionPool::new(config);
    assert_eq!(pool.acquire_at(0, 1).unwrap(), 0);
    assert_eq!(pool.permits, 0);
    assert_eq!(pool.acquire_at(0, 1).unwrap_err(), "Connection acquire timeout");

    let config2 = ConnectionPoolConfig { max_connections: 2, idle_timeout_secs: 1, enable_warmup: false, ..ConnectionPoolConfig::default() };
    let mut p2 = OptimizedConnectionPool::new(config2);
    assert_eq!(p2.acquire_at(0, 1).unwrap(), 0);
    // the first connection went idle too long: a second one is created
    assert_eq!(p2.acquire_at(5_000, 1).unwrap(), 1);
    assert_eq!(p2.acquire_at(10_000, 1).unwrap_err(), "Connection acquire timeout");
    assert_eq!(p2.health_check_at(10_000), 2);
    assert_eq!(p2.get_stats().total_connections, 0);
}

#[test]
fn connection_pool_release_drops_unhealthy() {
    let config = ConnectionPoolConfig { max_connections: 3, idle_timeout_secs: 1, enable_warmup: false, ..ConnectionPoolConfig::default() };
    let mut pool = OptimizedConnectionPool::new(config);
    let id = pool.acquire_at(0, 0).unwrap();
    pool.release_at(id, 500);
    assert_eq!(pool.get_stats().total_connections, 1);
    pool.release_at(id, 3_000);
    let s = pool.get_stats();
    assert_eq!(s.total_connections, 0);
    assert_eq!(s.connections_destroyed, 1);
    pool.shutdown();
    assert_eq!(pool.shutdown, 1);
}

#[test]
fn batch_processor_adaptive() {
    let config = BatchProcessingConfig { enable_adaptive_batching: true, ..BatchProcessingConfig::default() };

    let mut processor = AdaptiveBatchProcessor::<Vec<u8>>::new(config);

    for i in 0..100 {
        processor.add(vec![i as u8], 0).unwrap();
    }

    let stats = processor.get_stats();
    assert!(stats.total_batches > 0);
    assert!(stats.total_items > 0);
    // fast batches grow the batch size by a fifth
    assert_eq!(processor.current_batch_size(), 60);
}

#[test]
fn batch_size_adjustment_bounds() {
    let config = BatchProcessingConfig::default();
    let mut p = AdaptiveBatchProcessor::<u8>::new(config);
    p.adaptive_batch_size_adjustment(101);
    assert_eq!(p.current_batch_size(), 40);
    assert_eq!(p.size_adjustments, 1);
    p.adaptive_batch_size_adjustment(50);
    assert_eq!(p.current_batch_size(), 40);
    assert_eq!(p.size_adjustments, 1);
    for _ in 0..20 {
        p.adaptive_batch_size_adjustment(1000);
    }
    assert_eq!(p.current_batch_size(), 10);
}

#[test]
fn throughput_optimizer_processes_requests() {
    let mut t = ThroughputOptimizer::new(ThroughputOptimizerConfig::default());
    t.initialize_at(0).unwrap();
    let out = t.process_request_at(vec![1, 2, 3], 0, 40).unwrap();
    assert_eq!(out, vec![1, 2, 3]);
    t.process_request_at(vec![4], 0, 20).unwrap();
    let s = t.get_stats();
    assert_eq!(s.requests_processed, 2);
    assert_eq!(s.bytes_processed, 4);
    assert_eq!(s.avg_latency_us, 30);
}
