use rust_workflow_engine::scanner::{LockGranularity, LockMetadata, LockType, SmartLockDetector};

fn lock(granularity: LockGranularity, object: Option<&str>, resources: &[&str]) -> LockMetadata {
    LockMetadata {
        lock_type: LockType::Mutex,
        granularity,
        object_id: object.map(|o| o.to_string()),
        resource_ids: resources.iter().map(|r| r.to_string()).collect(),
        acquired_at_ms: 1_000,
        holder_thread_id: Some(7),
    }
}

#[test]
fn lock_type_follows_the_resource_name() {
    let d = SmartLockDetector::new();
    assert_eq!(d.identify_lock_type("table_read_path"), Some(LockType::RwLockRead));
    assert_eq!(d.identify_lock_type("write_buffer"), Some(LockType::RwLockWrite));
    assert_eq!(d.identify_lock_type("spinner"), Some(LockType::SpinLock));
    assert_eq!(d.identify_lock_type("account"), Some(LockType::Mutex));
}

#[test]
fn coverage_by_granularity() {
    let mut d = SmartLockDetector::new();
    d.register_lock("obj".to_string(), lock(LockGranularity::ObjectLevel, Some("row-1"), &[]));
    d.register_lock("res".to_string(), lock(LockGranularity::ResourceLevel, None, &["a", "b"]));
    d.register_lock("sys".to_string(), lock(LockGranularity::SystemLevel, None, &[]));
    assert!(d.verify_lock_coverage("obj", "row-1"));
    assert!(!d.verify_lock_coverage("obj", "row-2"));
    assert!(d.verify_lock_coverage("res", "b"));
    assert!(!d.verify_lock_coverage("res", "c"));
    assert!(d.verify_lock_coverage("sys", "anything"));
    assert!(!d.verify_lock_coverage("missing", "a"));
}

#[test]
fn conflicts_and_false_positive_rate() {
    let mut d = SmartLockDetector::new();
    d.register_lock("res".to_string(), lock(LockGranularity::ResourceLevel, None, &["a"]));
    assert!(d.detect_conflict("res", "a"));
    assert!(!d.detect_conflict("res", "z"));
    assert!(d.detect_conflict("res", "a"));
    d.record_false_positive("res");
    let stats = d.conflict_stats.iter().find(|(id, _)| id == "res").unwrap().1;
    assert_eq!(stats.total_checks, 3);
    assert_eq!(stats.conflicts_detected, 2);
    assert_eq!(stats.false_positives, 1);
    assert_eq!(d.get_false_positive_rate_per_mille("res"), 333);
    assert_eq!(d.get_false_positive_rate_per_mille("never"), 0);
}

#[test]
fn re_registering_replaces_the_lock() {
    let mut d = SmartLockDetector::new();
    d.register_lock("l".to_string(), lock(LockGranularity::ObjectLevel, Some("x"), &[]));
    d.register_lock("l".to_string(), lock(LockGranularity::ObjectLevel, Some("y"), &[]));
    assert_eq!(d.locks.len(), 1);
    assert!(d.verify_lock_coverage("l", "y"));
    assert!(!d.verify_lock_coverage("l", "x"));
}

#[test]
fn test_lock_detector() {
    let mut detector = SmartLockDetector::new();
    let metadata = LockMetadata {
        lock_type: LockType::Mutex,
        granularity: LockGranularity::ResourceLevel,
        object_id: None,
        resource_ids: vec!["resource_1".to_string(), "resource_2".to_string()],
        acquired_at_ms: 0,
        holder_thread_id: Some(1),
    };
    detector.register_lock("lock_1".to_string(), metadata);
    assert!(detector.verify_lock_coverage("lock_1", "resource_1"));
    assert!(!detector.verify_lock_coverage("lock_1", "resource_3"));
}
