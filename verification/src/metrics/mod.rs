//! Metrics collection.

pub mod metrics_20_batch4_impl;

use vstd::prelude::*;
use crate::metrics::metrics_20_batch4_impl::{Batch4Metrics, MetricsSnapshot, all_zero};

verus! {

/// Registers every metric of the current phase: the fourth batch's counters,
/// each starting at zero.
pub fn register_all_phase3_metrics() -> (r: Result<Batch4Metrics, String>)
    ensures
        r matches Ok(m) && all_zero(m@),
{
    metrics_20_batch4_impl::register_all_metrics()
}

/// A snapshot of the registered counters.
pub fn export_metrics_snapshot(m: &Batch4Metrics) -> (s: MetricsSnapshot)
    ensures
        s.execution_panic_count == m@.execution_panic,
        s.execution_timeout_count == m@.execution_timeout,
        s.verification_mismatch_count == m@.verification_mismatch,
        s.batch_partial_failure_count == m@.batch_partial_failure,
        s.transaction_abort_count == m@.transaction_abort,
        s.instruction_retry_count == m@.instruction_retry,
        s.gray_release_rollback_count == m@.gray_release_rollback,
        s.opa_policy_evaluation_count == m@.opa_policy_evaluation,
        s.anomaly_detection_alert_count == m@.anomaly_detection_alert,
{
    metrics_20_batch4_impl::export_metrics_snapshot(m)
}

} // verus!
