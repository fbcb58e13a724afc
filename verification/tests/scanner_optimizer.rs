use rust_workflow_engine::scanner_optimizer::{
    resource_type_of, ExecutionPath, LockGranularity, LockInfo, LockType, Operation, OperationType, PathType,
    ScannerOptimizer, ScannerOptimizerConfig,
};

fn op(id: &str, kind: OperationType, resource: &str, timestamp: u64, is_shared: bool, lock: Option<&str>) -> Operation {
    Operation {
        id: id.to_string(),
        operation_type: kind,
        resource: resource.to_string(),
        timestamp,
        is_shared,
        lock_id: lock.map(|l| l.to_string()),
    }
}

fn path(id: &str, operations: Vec<Operation>, lock_info: Option<LockInfo>) -> ExecutionPath {
    ExecutionPath { id: id.to_string(), operations, lock_info }
}

#[test]
fn test_scanner_optimizer_creation() {
    let optimizer = ScannerOptimizer::new(ScannerOptimizerConfig::default());
    assert_eq!(optimizer.false_positives, 0);
    assert_eq!(optimizer.true_positives, 0);
    assert_eq!(optimizer.total_detections, 0);
}

#[test]
fn test_deterministic_path_detection() {
    let mut optimizer = ScannerOptimizer::new(ScannerOptimizerConfig::default());
    let p = path("path_1", vec![op("op_1", OperationType::Read, "resource:1", 0, false, None)], None);
    let result = optimizer.scan_path(&p);
    assert!(result.is_deterministic);
    assert_eq!(result.path_type, PathType::Deterministic);
    assert!(result.confidence_per_mille > 900);
}

#[test]
fn test_timing_dependency_detection() {
    let config = ScannerOptimizerConfig { time_window_ms: 50, ..Default::default() };
    let mut optimizer = ScannerOptimizer::new(config);
    let p = path(
        "path_1",
        vec![
            op("op_1", OperationType::Read, "resource:1", 0, true, None),
            op("op_2", OperationType::Write, "resource:1", 10, true, None),
        ],
        None,
    );
    let result = optimizer.scan_path(&p);
    assert!(!result.is_deterministic);
    assert_eq!(result.path_type, PathType::NonDeterministicTiming);
    assert_eq!(result.confidence_per_mille, 900);
    assert_eq!(result.false_positive_risk_per_mille, 250);
    assert_eq!(result.optimization_suggestions[0], "Increase time window from 50ms to 100ms");
    assert_eq!(optimizer.false_positives, 1);
}

#[test]
fn test_false_positive_rate() {
    let mut optimizer = ScannerOptimizer::new(ScannerOptimizerConfig::default());
    for i in 0..100 {
        let p = path(&format!("path_{}", i), vec![], None);
        optimizer.scan_path(&p);
    }
    let stats = optimizer.get_stats();
    assert_eq!(stats.total_detections, 100);
    assert_eq!(stats.false_positive_rate_per_mille, 0);
    assert_eq!(stats.cache_size, 100);
}

#[test]
fn test_adaptive_optimization() {
    let config = ScannerOptimizerConfig { false_positive_target_per_mille: 20, adaptive_optimization: true, ..Default::default() };
    let mut optimizer = ScannerOptimizer::new(config);
    optimizer.false_positives = 50;
    optimizer.true_positives = 50;
    optimizer.total_detections = 100;
    let initial_time_window = optimizer.config.time_window_ms;
    optimizer.adaptive_optimize();
    assert!(optimizer.config.time_window_ms > initial_time_window);
    assert_eq!(optimizer.config.time_window_ms, 60);
    assert_eq!(optimizer.config.lock_detection_sensitivity_per_mille, 630);
}

#[test]
fn classification_order_and_cache() {
    let mut s = ScannerOptimizer::new(ScannerOptimizerConfig::default());
    let race = path("r", vec![op("a", OperationType::Write, "db:x", 0, true, None)], None);
    assert_eq!(s.scan_path(&race).path_type, PathType::NonDeterministicConcurrency);
    let ext = path("e", vec![op("a", OperationType::ExternalCall, "http:y", 0, false, None)], None);
    assert_eq!(s.scan_path(&ext).path_type, PathType::NonDeterministicExternal);
    let contention = path(
        "c",
        vec![op("a", OperationType::Read, "db:x", 0, false, None), op("b", OperationType::Read, "db:x", 500, false, None)],
        None,
    );
    let r = s.scan_path(&contention);
    assert_eq!(r.path_type, PathType::NonDeterministicResource);
    assert_eq!(r.confidence_per_mille, 800);
    // a span beyond the window makes a timed path deterministic
    let spread = path(
        "t",
        vec![
            op("a", OperationType::Read, "a:1", 0, false, None),
            op("b", OperationType::Read, "b:1", 10, false, None),
            op("c", OperationType::Read, "c:1", 100, false, None),
        ],
        None,
    );
    assert_eq!(s.scan_path(&spread).path_type, PathType::Deterministic);
    // a medium lock over the same resource type protects the race
    let lock = LockInfo {
        lock_id: "l".to_string(),
        lock_type: LockType::Mutex,
        granularity: LockGranularity::Medium,
        protected_resources: vec!["db:other".to_string()],
    };
    let locked = path("m", vec![op("a", OperationType::Write, "db:x", 0, true, None)], Some(lock));
    assert_eq!(s.scan_path(&locked).path_type, PathType::Deterministic);
    // the same id is answered from the cache
    let again = s.scan_path(&path("r", vec![], None));
    assert_eq!(again.path_type, PathType::NonDeterministicConcurrency);
    assert_eq!(again.confidence_per_mille, 950);
    let stats = s.get_stats();
    assert_eq!(stats.total_detections, 6);
    assert_eq!(stats.false_positives, 4);
    assert_eq!(stats.false_positive_rate_per_mille, 1000);
    s.clear_cache();
    assert_eq!(s.get_stats().cache_size, 0);
    assert_eq!(resource_type_of("db:x:y"), "db");
    assert_eq!(resource_type_of("plain"), "plain");
}
