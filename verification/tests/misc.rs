use rust_workflow_engine::deliverables::safe_join;
use rust_workflow_engine::gate_report::{GateMetrics, GateReportGenerator};
use rust_workflow_engine::optimization::boundary_fixes_batch2::{ConnectionLeakDetection, FastFailCircuitBreaker};
use rust_workflow_engine::scanner::{CacheEntry, LockGranularity, LockMetadata, LockType, OperationHistory};

#[test]
fn safe_join_keeps_inside_root() {
    assert_eq!(safe_join("out", "/a/b.md"), Some("out/a/b.md".to_string()));
    assert_eq!(safe_join("out/", "a.md"), Some("out/a.md".to_string()));
    assert_eq!(safe_join("", "a.md"), Some("a.md".to_string()));
    assert_eq!(safe_join("out", "a/../../x"), None);
    assert_eq!(safe_join("out", "a/..b/c"), Some("out/a/..b/c".to_string()));
}

#[test]
fn fast_fail_error_text() {
    let b = FastFailCircuitBreaker::new(3, 10);
    assert_eq!(b.create_fast_fail_error(), "Circuit breaker is open, fast fail");
}

#[test]
fn connection_leaks_detected_and_reclaimed() {
    let mut d = ConnectionLeakDetection::new(5);
    d.create_connection_at(1, 0);
    d.create_connection_at(2, 4_000);
    d.create_connection_at(3, 0);
    assert_eq!(d.detect_leaks_at(5_999), Vec::<usize>::new());
    assert_eq!(d.detect_leaks_at(6_000), vec![1, 3]);
    assert_eq!(d.get_stats().leak_count, 2);
    assert_eq!(d.reclaim_leaks_at(6_000), 2);
    let s = d.get_stats();
    assert_eq!(s.active_count, 1);
    assert_eq!(s.total_created, 3);
    assert_eq!(s.total_released, 2);
    d.release_connection(9);
    assert_eq!(d.get_stats().total_released, 2);
}

#[test]
fn scanner_locks_and_entries() {
    let m = LockMetadata {
        lock_type: LockType::RwLockRead,
        granularity: LockGranularity::ObjectLevel,
        object_id: None,
        resource_ids: vec!["r1".to_string()],
        acquired_at_ms: 0,
        holder_thread_id: None,
    };
    assert!(m.is_read_lock());
    assert!(!m.is_write_lock());
    assert!(!m.is_spin_lock());
    let mut e = CacheEntry::new_at(7u32, 100, 1_000);
    assert!(!e.is_expired_at(1_100));
    assert!(e.is_expired_at(1_101));
    e.hit();
    assert_eq!(e.access_count, 1);
}

#[test]
fn operation_history_averages() {
    let mut h = OperationHistory::new();
    assert_eq!(h.get_historical_average("op"), None);
    h.record_operation("op", 100, false);
    h.record_operation("op", 301, true);
    h.record_operation("other", 5, false);
    assert_eq!(h.get_historical_average("op"), Some(200));
    assert_eq!(h.stats[0].1.false_positive_count, 1);
    assert_eq!(h.stats.len(), 2);
}

#[test]
fn markdown_summary_of_a_report() {
    let mut metrics = GateMetrics::default();
    metrics.unverified_submissions = 3;
    let report = GateReportGenerator::generate_at(metrics, "rel-9", 0);
    let md = GateReportGenerator::generate_markdown_summary(&report);
    assert!(md.starts_with("# 门禁报告摘要\n\n- **发布 ID**: rel-9\n- **生成时间**: 1970-01-01 00:00:00 UTC\n- **统计窗口**: 14 天\n- **整体状态**: Fail\n\n"));
    assert!(md.contains("| 门禁 ID | 名称 | 状态 | 详情 |\n|--------|------|------|------|\n| gate_trust_unverified_zero |"));
    assert!(md.contains("\n## 失败处置\n\n### gate_trust_unverified_zero\n- **动作**: "));
    assert!(md.contains("- **责任人**: Core\n- **SLA**: 24 小时\n\n"));
    let later = GateReportGenerator::generate_at(GateMetrics::default(), "r", 86_400 + 3_661);
    let md2 = GateReportGenerator::generate_markdown_summary(&later);
    assert!(md2.contains("- **生成时间**: 1970-01-02 01:01:01 UTC\n"));
}

#[test]
fn rates_above_one_hundred_percent_are_reported_as_is() {
    let mut m = GateMetrics::default();
    m.high_risk_requests = 2;
    m.high_risk_false_allows = 3;
    let g = GateReportGenerator::check_false_allow_rate(&m);
    assert_eq!(g.evidence[3].1, 15000);
    m.policy_change_total = 2;
    m.policy_change_closed_loop = 3;
    let g = GateReportGenerator::check_governance_closed_loop(&m);
    assert_eq!(g.evidence[2].1, 150);
}
