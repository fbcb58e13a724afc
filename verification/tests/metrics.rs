use rust_workflow_engine::metrics::metrics_20_batch4_impl::{
    export_metrics_snapshot, inc_anomaly_detection_alert, inc_batch_partial_failure, inc_execution_panic,
    inc_execution_timeout, inc_gray_release_rollback, inc_instruction_retry, inc_opa_policy_evaluation,
    inc_transaction_abort, inc_verification_mismatch, register_all_metrics,
};
use rust_workflow_engine::metrics::register_all_phase3_metrics;

#[test]
fn test_error_metrics() {
    let mut m = register_all_metrics().unwrap();

    inc_execution_panic(&mut m, "test_location");
    assert_eq!(export_metrics_snapshot(&m).execution_panic_count, 1);

    inc_execution_timeout(&mut m, "test_instruction");
    assert_eq!(export_metrics_snapshot(&m).execution_timeout_count, 1);

    inc_verification_mismatch(&mut m, "test_mismatch");
    assert_eq!(export_metrics_snapshot(&m).verification_mismatch_count, 1);

    inc_batch_partial_failure(&mut m, "batch_1", "test_reason");
    assert_eq!(export_metrics_snapshot(&m).batch_partial_failure_count, 1);

    inc_transaction_abort(&mut m, "txn_1", "test_reason");
    assert_eq!(export_metrics_snapshot(&m).transaction_abort_count, 1);
}

#[test]
fn test_register_metrics() {
    let result = register_all_phase3_metrics();
    assert!(result.is_ok());
}

#[test]
fn registered_counters_start_at_zero() {
    let m = register_all_phase3_metrics().unwrap();
    let s = rust_workflow_engine::metrics::export_metrics_snapshot(&m);
    assert_eq!(s.execution_panic_count, 0);
    assert_eq!(s.instruction_retry_count, 0);
    assert_eq!(s.anomaly_detection_alert_count, 0);
}

#[test]
fn business_and_threat_counters_count_separately() {
    let mut m = register_all_metrics().unwrap();
    inc_instruction_retry(&mut m, "instr_1", "test_reason");
    inc_instruction_retry(&mut m, "instr_1", "test_reason");
    inc_gray_release_rollback(&mut m, "release_1", "test_reason");
    inc_opa_policy_evaluation(&mut m, "test_policy", "allow");
    inc_anomaly_detection_alert(&mut m, "test_anomaly", "high");
    let s = export_metrics_snapshot(&m);
    assert_eq!(s.instruction_retry_count, 2);
    assert_eq!(s.gray_release_rollback_count, 1);
    assert_eq!(s.opa_policy_evaluation_count, 1);
    assert_eq!(s.anomaly_detection_alert_count, 1);
    assert_eq!(s.execution_panic_count, 0);
}

#[test]
fn test_metrics_snapshot() {
    let m = register_all_metrics().unwrap();
    let s = export_metrics_snapshot(&m);
    assert_eq!(s.execution_panic_count, 0);
    assert_eq!(s.execution_timeout_count, 0);
    assert_eq!(s.verification_mismatch_count, 0);
    assert_eq!(s.batch_partial_failure_count, 0);
    assert_eq!(s.transaction_abort_count, 0);
}

#[test]
fn test_export_snapshot() {
    let mut m = register_all_phase3_metrics().unwrap();
    inc_opa_policy_evaluation(&mut m, "p", "deny");
    let s = rust_workflow_engine::metrics::export_metrics_snapshot(&m);
    assert_eq!(s.opa_policy_evaluation_count, 1);
    assert_eq!(s.gray_release_rollback_count, 0);
}
