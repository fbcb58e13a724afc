//! The integer counters of the fourth metrics batch, kept in Prometheus
//! counters: executor panics and timeouts, verification mismatches, partial
//! batch failures, aborted transactions, instruction retries, gray-release
//! rollbacks, OPA policy evaluations and anomaly alerts.
//!
//! The registry is an explicit value that the caller owns; gauges and
//! histograms, which hold floating-point values, stay with the caller.

use vstd::prelude::*;
use crate::text::owned;

verus! {

#[verifier::external_type_specification]
#[verifier::external_body]
pub struct ExPromError(prometheus::Error);

/// A Prometheus integer counter, held privately so that only the wrappers
/// below touch it.
#[verifier::external_body]
pub struct IntCounterCell {
    counter: prometheus::IntCounter,
}

/// The value that an integer counter holds.
pub uninterp spec fn int_counter_value(c: IntCounterCell) -> u64;

/// A counter after one increment: the atomic addition wraps at `u64::MAX`.
pub open spec fn bumped(v: u64) -> u64 {
    if v == u64::MAX { 0 } else { (v + 1) as u64 }
}

/// A character that may open a metric name: an ASCII letter, '_' or ':'.
pub open spec fn name_start(c: char) -> bool {
    ('a' <= c && c <= 'z') || ('A' <= c && c <= 'Z') || c == '_' || c == ':'
}

/// A character that may stand in a metric name: one that may open it, or an ASCII digit.
pub open spec fn name_char(c: char) -> bool {
    name_start(c) || ('0' <= c && c <= '9')
}

/// A valid metric name: `[a-zA-Z_:][a-zA-Z0-9_:]*`.
pub open spec fn valid_metric_name(s: Seq<char>) -> bool {
    s.len() > 0 && name_start(s[0]) && forall|i: int| 0 <= i < s.len() ==> name_char(#[trigger] s[i])
}

/// The full name of a metric: namespace, subsystem and name joined by '_',
/// leaving out the empty parts; empty when the name is.
pub open spec fn fq_name(namespace: Seq<char>, subsystem: Seq<char>, name: Seq<char>) -> Seq<char> {
    if name.len() == 0 {
        Seq::empty()
    } else if namespace.len() > 0 && subsystem.len() > 0 {
        namespace + "_"@ + subsystem + "_"@ + name
    } else if namespace.len() > 0 {
        namespace + "_"@ + name
    } else if subsystem.len() > 0 {
        subsystem + "_"@ + name
    } else {
        name
    }
}

/// The options the metrics crate accepts for a counter without labels: a
/// non-empty help text and a valid full name.
pub open spec fn counter_accepted(name: Seq<char>, help: Seq<char>, namespace: Seq<char>, subsystem: Seq<char>) -> bool {
    help.len() > 0 && valid_metric_name(fq_name(namespace, subsystem, name))
}

/// `prometheus::IntCounter::with_opts`, with the options built from the name,
/// help text, namespace and subsystem. Without labels the crate refuses the
/// options exactly when the help text is empty or the full name is not a
/// valid metric name; a counter it makes starts at zero.
#[verifier::external_body]
fn new_int_counter(name: &str, help: &str, namespace: &str, subsystem: &str) -> (r: Result<
    IntCounterCell,
    prometheus::Error,
>)
    ensures
        r is Ok <==> counter_accepted(name@, help@, namespace@, subsystem@),
        r matches Ok(c) ==> int_counter_value(c) == 0,
{
    let opts = prometheus::Opts::new(name, help).namespace(namespace).subsystem(subsystem);
    prometheus::IntCounter::with_opts(opts).map(|counter| IntCounterCell { counter })
}

/// `prometheus::IntCounter::inc`: adds one to the counter with a wrapping
/// atomic addition. The counter is taken by `&mut` so that its value is tracked.
#[verifier::external_body]
fn counter_inc(c: &mut IntCounterCell)
    ensures
        int_counter_value(*final(c)) == bumped(int_counter_value(*old(c))),
{
    c.counter.inc()
}

/// `prometheus::IntCounter::get`: the counter's current value.
#[verifier::external_body]
fn counter_get(c: &IntCounterCell) -> (v: u64)
    ensures
        v == int_counter_value(*c),
{
    c.counter.get()
}

/// The counters of the fourth metrics batch.
pub struct Batch4Metrics {
    execution_panic: IntCounterCell,
    execution_timeout: IntCounterCell,
    verification_mismatch: IntCounterCell,
    batch_partial_failure: IntCounterCell,
    transaction_abort: IntCounterCell,
    instruction_retry: IntCounterCell,
    gray_release_rollback: IntCounterCell,
    opa_policy_evaluation: IntCounterCell,
    anomaly_detection_alert: IntCounterCell,
}

/// The values of the counters, in declaration order.
pub struct CounterValues {
    pub execution_panic: u64,
    pub execution_timeout: u64,
    pub verification_mismatch: u64,
    pub batch_partial_failure: u64,
    pub transaction_abort: u64,
    pub instruction_retry: u64,
    pub gray_release_rollback: u64,
    pub opa_policy_evaluation: u64,
    pub anomaly_detection_alert: u64,
}

impl View for Batch4Metrics {
    type V = CounterValues;

    closed spec fn view(&self) -> CounterValues {
        CounterValues {
            execution_panic: int_counter_value(self.execution_panic),
            execution_timeout: int_counter_value(self.execution_timeout),
            verification_mismatch: int_counter_value(self.verification_mismatch),
            batch_partial_failure: int_counter_value(self.batch_partial_failure),
            transaction_abort: int_counter_value(self.transaction_abort),
            instruction_retry: int_counter_value(self.instruction_retry),
            gray_release_rollback: int_counter_value(self.gray_release_rollback),
            opa_policy_evaluation: int_counter_value(self.opa_policy_evaluation),
            anomaly_detection_alert: int_counter_value(self.anomaly_detection_alert),
        }
    }
}

/// Every counter at zero.
pub open spec fn all_zero(v: CounterValues) -> bool {
    &&& v.execution_panic == 0
    &&& v.execution_timeout == 0
    &&& v.verification_mismatch == 0
    &&& v.batch_partial_failure == 0
    &&& v.transaction_abort == 0
    &&& v.instruction_retry == 0
    &&& v.gray_release_rollback == 0
    &&& v.opa_policy_evaluation == 0
    &&& v.anomaly_detection_alert == 0
}

/// A snapshot of the integer counters.
#[derive(Debug, Clone, Copy, PartialEq, Eq, Structural)]
pub struct MetricsSnapshot {
    pub execution_panic_count: u64,
    pub execution_timeout_count: u64,
    pub verification_mismatch_count: u64,
    pub batch_partial_failure_count: u64,
    pub transaction_abort_count: u64,
    pub instruction_retry_count: u64,
    pub gray_release_rollback_count: u64,
    pub opa_policy_evaluation_count: u64,
    pub anomaly_detection_alert_count: u64,
}

/// The number of counters in this batch that hold integers.
pub const INTEGER_COUNTER_COUNT: usize = 9;

fn counter(name: &str, help: &str, subsystem: &str) -> (r: Result<IntCounterCell, String>)
    ensures
        r is Ok <==> counter_accepted(name@, help@, "cgas"@, subsystem@),
        r matches Ok(c) ==> int_counter_value(c) == 0,
        r matches Err(m) ==> m@ == "metric registration failed"@,
{
    match new_int_counter(name, help, "cgas", subsystem) {
        Ok(c) => Ok(c),
        Err(_) => Err(owned("metric registration failed")),
    }
}

/// The characters from `i` on may stand in a metric name.
pub open spec fn name_chars_from(s: Seq<char>, i: int) -> bool
    decreases s.len() - i,
{
    if i < 0 || i >= s.len() {
        true
    } else {
        name_char(s[i]) && name_chars_from(s, i + 1)
    }
}

proof fn lemma_name_chars_from(s: Seq<char>, i: int)
    requires
        0 <= i,
        name_chars_from(s, i),
    ensures
        forall|j: int| i <= j < s.len() ==> name_char(#[trigger] s[j]),
    decreases s.len() - i,
{
    if i < s.len() {
        lemma_name_chars_from(s, i + 1);
    }
}

proof fn lemma_accepted(subsystem: Seq<char>, name: Seq<char>, help: Seq<char>)
    requires
        help.len() > 0,
        name.len() > 0,
        subsystem.len() > 0,
        name_chars_from(subsystem, 0),
        name_chars_from(name, 0),
    ensures
        counter_accepted(name, help, "cgas"@, subsystem),
{
    reveal_strlit("cgas");
    reveal_strlit("_");
    lemma_name_chars_from(subsystem, 0);
    lemma_name_chars_from(name, 0);
    let f = "cgas"@ + "_"@ + subsystem + "_"@ + name;
    assert(f[0] == 'c');
    assert forall|i: int| 0 <= i < f.len() implies name_char(#[trigger] f[i]) by {
        if i < 4 {
            assert(f[i] == "cgas"@[i]);
        } else if i == 4 {
        } else if i < 5 + subsystem.len() {
            assert(f[i] == subsystem[i - 5]);
        } else if i == 5 + subsystem.len() {
        } else {
            assert(f[i] == name[i - 6 - subsystem.len()]);
        }
    }
}

proof fn lemma_batch_names_accepted()
    ensures
        counter_accepted("execution_panic_count"@, "Count of execution panics"@, "cgas"@, "executor"@),
        counter_accepted("execution_timeout_count"@, "Count of execution timeouts"@, "cgas"@, "executor"@),
        counter_accepted("verification_mismatch_count"@, "Count of verification mismatches"@, "cgas"@, "verifier"@),
        counter_accepted("batch_partial_failure_count"@, "Count of batch partial failures"@, "cgas"@, "batch"@),
        counter_accepted("transaction_abort_count"@, "Count of transaction aborts"@, "cgas"@, "transaction"@),
        counter_accepted("instruction_retry_count"@, "Count of instruction retries"@, "cgas"@, "executor"@),
        counter_accepted("gray_release_rollback_count"@, "Count of gray release rollbacks"@, "cgas"@, "gray_release"@),
        counter_accepted("opa_policy_evaluation_count"@, "Count of OPA policy evaluations"@, "cgas"@, "security"@),
        counter_accepted("anomaly_detection_alert_count"@, "Count of anomaly detection alerts"@, "cgas"@, "security"@),
{
    reveal_with_fuel(name_chars_from, 40);
    reveal_strlit("executor");
    reveal_strlit("verifier");
    reveal_strlit("batch");
    reveal_strlit("transaction");
    reveal_strlit("gray_release");
    reveal_strlit("security");
    reveal_strlit("execution_panic_count");
    reveal_strlit("execution_timeout_count");
    reveal_strlit("verification_mismatch_count");
    reveal_strlit("batch_partial_failure_count");
    reveal_strlit("transaction_abort_count");
    reveal_strlit("instruction_retry_count");
    reveal_strlit("gray_release_rollback_count");
    reveal_strlit("opa_policy_evaluation_count");
    reveal_strlit("anomaly_detection_alert_count");
    reveal_strlit("Count of execution panics");
    reveal_strlit("Count of execution timeouts");
    reveal_strlit("Count of verification mismatches");
    reveal_strlit("Count of batch partial failures");
    reveal_strlit("Count of transaction aborts");
    reveal_strlit("Count of instruction retries");
    reveal_strlit("Count of gray release rollbacks");
    reveal_strlit("Count of OPA policy evaluations");
    reveal_strlit("Count of anomaly detection alerts");
    lemma_accepted("executor"@, "execution_panic_count"@, "Count of execution panics"@);
    lemma_accepted("executor"@, "execution_timeout_count"@, "Count of execution timeouts"@);
    lemma_accepted("verifier"@, "verification_mismatch_count"@, "Count of verification mismatches"@);
    lemma_accepted("batch"@, "batch_partial_failure_count"@, "Count of batch partial failures"@);
    lemma_accepted("transaction"@, "transaction_abort_count"@, "Count of transaction aborts"@);
    lemma_accepted("executor"@, "instruction_retry_count"@, "Count of instruction retries"@);
    lemma_accepted("gray_release"@, "gray_release_rollback_count"@, "Count of gray release rollbacks"@);
    lemma_accepted("security"@, "opa_policy_evaluation_count"@, "Count of OPA policy evaluations"@);
    lemma_accepted("security"@, "anomaly_detection_alert_count"@, "Count of anomaly detection alerts"@);
}

/// Creates every counter of the batch, each at zero. All the names and help
/// texts are ones the metrics crate accepts, so this always succeeds.
pub fn register_all_metrics() -> (r: Result<Batch4Metrics, String>)
    ensures
        r matches Ok(m) && all_zero(m@),
{
    proof {
        lemma_batch_names_accepted();
    }
    let execution_panic = counter("execution_panic_count", "Count of execution panics", "executor")?;
    let execution_timeout = counter("execution_timeout_count", "Count of execution timeouts", "executor")?;
    let verification_mismatch = counter(
        "verification_mismatch_count",
        "Count of verification mismatches",
        "verifier",
    )?;
    let batch_partial_failure = counter("batch_partial_failure_count", "Count of batch partial failures", "batch")?;
    let transaction_abort = counter("transaction_abort_count", "Count of transaction aborts", "transaction")?;
    let instruction_retry = counter("instruction_retry_count", "Count of instruction retries", "executor")?;
    let gray_release_rollback = counter(
        "gray_release_rollback_count",
        "Count of gray release rollbacks",
        "gray_release",
    )?;
    let opa_policy_evaluation = counter(
        "opa_policy_evaluation_count",
        "Count of OPA policy evaluations",
        "security",
    )?;
    let anomaly_detection_alert = counter(
        "anomaly_detection_alert_count",
        "Count of anomaly detection alerts",
        "security",
    )?;
    Ok(
        Batch4Metrics {
            execution_panic,
            execution_timeout,
            verification_mismatch,
            batch_partial_failure,
            transaction_abort,
            instruction_retry,
            gray_release_rollback,
            opa_policy_evaluation,
            anomaly_detection_alert,
        },
    )
}

/// Records an executor panic at `location`.
pub fn inc_execution_panic(m: &mut Batch4Metrics, location: &str)
    ensures
        final(m)@ == (CounterValues { execution_panic: bumped(old(m)@.execution_panic), ..old(m)@ }),
{
    counter_inc(&mut m.execution_panic);
}

/// Records an execution timeout for an instruction type.
pub fn inc_execution_timeout(m: &mut Batch4Metrics, instruction_type: &str)
    ensures
        final(m)@ == (CounterValues { execution_timeout: bumped(old(m)@.execution_timeout), ..old(m)@ }),
{
    counter_inc(&mut m.execution_timeout);
}

/// Records a verification mismatch.
pub fn inc_verification_mismatch(m: &mut Batch4Metrics, mismatch_type: &str)
    ensures
        final(m)@ == (CounterValues { verification_mismatch: bumped(old(m)@.verification_mismatch), ..old(m)@ }),
{
    counter_inc(&mut m.verification_mismatch);
}

/// Records a partial failure of a batch.
pub fn inc_batch_partial_failure(m: &mut Batch4Metrics, batch_id: &str, failure_reason: &str)
    ensures
        final(m)@ == (CounterValues { batch_partial_failure: bumped(old(m)@.batch_partial_failure), ..old(m)@ }),
{
    counter_inc(&mut m.batch_partial_failure);
}

/// Records an aborted transaction.
pub fn inc_transaction_abort(m: &mut Batch4Metrics, transaction_id: &str, abort_reason: &str)
    ensures
        final(m)@ == (CounterValues { transaction_abort: bumped(old(m)@.transaction_abort), ..old(m)@ }),
{
    counter_inc(&mut m.transaction_abort);
}

/// Records a retried instruction.
pub fn inc_instruction_retry(m: &mut Batch4Metrics, instruction_id: &str, retry_reason: &str)
    ensures
        final(m)@ == (CounterValues { instruction_retry: bumped(old(m)@.instruction_retry), ..old(m)@ }),
{
    counter_inc(&mut m.instruction_retry);
}

/// Records a gray-release rollback.
pub fn inc_gray_release_rollback(m: &mut Batch4Metrics, release_id: &str, rollback_reason: &str)
    ensures
        final(m)@ == (CounterValues { gray_release_rollback: bumped(old(m)@.gray_release_rollback), ..old(m)@ }),
{
    counter_inc(&mut m.gray_release_rollback);
}

/// Records an OPA policy evaluation.
pub fn inc_opa_policy_evaluation(m: &mut Batch4Metrics, policy_name: &str, decision: &str)
    ensures
        final(m)@ == (CounterValues { opa_policy_evaluation: bumped(old(m)@.opa_policy_evaluation), ..old(m)@ }),
{
    counter_inc(&mut m.opa_policy_evaluation);
}

/// Records an anomaly-detection alert.
pub fn inc_anomaly_detection_alert(m: &mut Batch4Metrics, anomaly_type: &str, severity: &str)
    ensures
        final(m)@ == (CounterValues { anomaly_detection_alert: bumped(old(m)@.anomaly_detection_alert), ..old(m)@ }),
{
    counter_inc(&mut m.anomaly_detection_alert);
}

/// The current value of every counter.
pub fn export_metrics_snapshot(m: &Batch4Metrics) -> (s: MetricsSnapshot)
    ensures
        s.execution_panic_count == m@.execution_panic,
        s.execution_timeout_count == m@.execution_timeout,
        s.verification_mismatch_count == m@.verification_mismatch,
        s.batch_partial_failure_count == m@.batch_partial_failure,
        s.transaction_abort_count == m@.transaction_abort,
        s.instruction_retry_count == m@.instruction_retry,
        s.gray_release_rollback_count == m@.gray_release_rollback,
        s.opa_policy_evaluation_count == m@.opa_policy_evaluation,
        s.anomaly_detection_alert_count == m@.anomaly_detection_alert,
{
    MetricsSnapshot {
        execution_panic_count: counter_get(&m.execution_panic),
        execution_timeout_count: counter_get(&m.execution_timeout),
        verification_mismatch_count: counter_get(&m.verification_mismatch),
        batch_partial_failure_count: counter_get(&m.batch_partial_failure),
        transaction_abort_count: counter_get(&m.transaction_abort),
        instruction_retry_count: counter_get(&m.instruction_retry),
        gray_release_rollback_count: counter_get(&m.gray_release_rollback),
        opa_policy_evaluation_count: counter_get(&m.opa_policy_evaluation),
        anomaly_detection_alert_count: counter_get(&m.anomaly_detection_alert),
    }
}

} // verus!
