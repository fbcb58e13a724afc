//! Machine-readable gate reports that decide whether a release may ship.

use vstd::prelude::*;
use crate::clock::unix_now_secs;
use crate::text::{cat, owned, decimal, decimal_string};

verus! {

/// The verdict over all gates.
#[derive(Debug, Clone, Copy, PartialEq, Eq, Structural)]
pub enum GateStatus {
    Pass,
    ConditionalPass,
    Fail,
}

/// The verdict of one gate.
#[derive(Debug, Clone, Copy, PartialEq, Eq, Structural)]
pub enum CheckStatus {
    Pass,
    Fail,
    Undetermined,
}

/// The measurements a report is computed from.
#[derive(Debug, Clone, Copy, PartialEq, Eq, Structural)]
pub struct GateMetrics {
    pub window_days: u32,
    pub total_submissions: u64,
    pub unverified_submissions: u64,
    pub high_risk_requests: u64,
    pub high_risk_false_allows: u64,
    pub verify_requests: u64,
    pub verify_consistent: u64,
    pub verify_p95_ms: Option<u64>,
    pub high_risk_block_p95_ms: Option<u64>,
    pub rollback_total: u64,
    pub rollback_success: u64,
    pub policy_change_total: u64,
    pub policy_change_closed_loop: u64,
    pub undeclared_cap_calls: u64,
    pub undeclared_cap_blocked: u64,
    pub core_replay_samples: u64,
    pub high_risk_samples: u64,
    pub checkpoint_passes: u32,
}

impl Default for GateMetrics {
    /// A 14-day window with no measurements.
    fn default() -> (m: Self)
        ensures
            m == (GateMetrics {
                window_days: 14,
                total_submissions: 0,
                unverified_submissions: 0,
                high_risk_requests: 0,
                high_risk_false_allows: 0,
                verify_requests: 0,
                verify_consistent: 0,
                verify_p95_ms: None,
                high_risk_block_p95_ms: None,
                rollback_total: 0,
                rollback_success: 0,
                policy_change_total: 0,
                policy_change_closed_loop: 0,
                undeclared_cap_calls: 0,
                undeclared_cap_blocked: 0,
                core_replay_samples: 0,
                high_risk_samples: 0,
                checkpoint_passes: 0,
            }),
    {
        GateMetrics {
            window_days: 14,
            total_submissions: 0,
            unverified_submissions: 0,
            high_risk_requests: 0,
            high_risk_false_allows: 0,
            verify_requests: 0,
            verify_consistent: 0,
            verify_p95_ms: None,
            high_risk_block_p95_ms: None,
            rollback_total: 0,
            rollback_success: 0,
            policy_change_total: 0,
            policy_change_closed_loop: 0,
            undeclared_cap_calls: 0,
            undeclared_cap_blocked: 0,
            core_replay_samples: 0,
            high_risk_samples: 0,
            checkpoint_passes: 0,
        }
    }
}

/// The result of one gate: its verdict, why it failed, and the measurements it used.
pub struct GateCheckResult {
    pub gate_id: String,
    pub gate_name: String,
    pub status: CheckStatus,
    pub reason_code: Option<String>,
    pub reason_detail: Option<String>,
    pub evidence: Vec<(String, u64)>,
    pub confidence_percent: Option<u32>,
}

/// What to do when a gate fails.
pub struct FailureAction {
    pub gate_id: String,
    pub action: String,
    pub recovery_condition: String,
    pub owner: Option<String>,
    pub sla_hours: Option<u32>,
}

/// A full report.
pub struct GateReport {
    pub report_version: String,
    pub release_id: String,
    pub window_days: u32,
    pub generated_at: u64,
    pub overall_status: GateStatus,
    pub gates: Vec<GateCheckResult>,
    pub metrics: GateMetrics,
    pub failure_actions: Vec<FailureAction>,
}

/// No unverified submission over a full window and two checkpoints in a row.
pub open spec fn unverified_status(m: GateMetrics) -> CheckStatus {
    if m.unverified_submissions == 0 && m.window_days >= 14 && m.checkpoint_passes >= 2 {
        CheckStatus::Pass
    } else {
        CheckStatus::Fail
    }
}

/// At most one false allow per thousand high-risk requests, over at least 1000
/// samples; undetermined when nothing was high-risk and samples are short.
pub open spec fn false_allow_status(m: GateMetrics) -> CheckStatus {
    let rate_ok = m.high_risk_requests == 0 || m.high_risk_false_allows * 1000 <= m.high_risk_requests;
    if m.high_risk_samples >= 1000 && rate_ok {
        CheckStatus::Pass
    } else if m.high_risk_requests == 0 {
        CheckStatus::Undetermined
    } else {
        CheckStatus::Fail
    }
}

/// Every policy change went through the full loop (or there were none).
pub open spec fn governance_status(m: GateMetrics) -> CheckStatus {
    if m.policy_change_total == 0 || m.policy_change_closed_loop == m.policy_change_total {
        CheckStatus::Pass
    } else {
        CheckStatus::Fail
    }
}

/// At least 200 core replay samples, and either no or at least 1000 high-risk samples.
pub open spec fn sample_status(m: GateMetrics) -> CheckStatus {
    if m.core_replay_samples >= 200 && (m.high_risk_samples == 0 || m.high_risk_samples >= 1000) {
        CheckStatus::Pass
    } else {
        CheckStatus::Fail
    }
}

/// Fail if any gate failed, conditional pass if any was undetermined, pass otherwise.
pub open spec fn overall(statuses: Seq<CheckStatus>) -> GateStatus {
    if exists|i: int| 0 <= i < statuses.len() && statuses[i] == CheckStatus::Fail {
        GateStatus::Fail
    } else if exists|i: int| 0 <= i < statuses.len() && statuses[i] == CheckStatus::Undetermined {
        GateStatus::ConditionalPass
    } else {
        GateStatus::Pass
    }
}

/// The statuses of a list of gate results.
pub open spec fn statuses(gates: Seq<GateCheckResult>) -> Seq<CheckStatus> {
    gates.map_values(|g: GateCheckResult| g.status)
}

/// A rate as the report records it: the value, held to the largest `i64`.
pub open spec fn capped(x: int) -> int {
    if x > 0x7FFF_FFFF_FFFF_FFFF { 0x7FFF_FFFF_FFFF_FFFF } else { x }
}

/// `num / den` rounded half up to an integer, for `den > 0`.
pub open spec fn round_div(num: int, den: int) -> int {
    (2 * num + den) / (2 * den)
}

fn entry(name: &str, v: u64) -> (e: (String, u64))
    ensures
        e.0@ == name@,
        e.1 == v,
{
    (owned(name), v)
}

/// `num / den * scale` rounded half up, saturating at `u64::MAX`; 0 when `den == 0`.
pub fn scaled_ratio(num: u64, den: u64, scale: u64) -> (r: u64)
    requires
        scale <= 1000000,
    ensures
        den == 0 ==> r == 0,
        den > 0 && round_div(num * scale, den as int) <= u64::MAX ==> r == round_div(num * scale, den as int),
        den > 0 && round_div(num * scale, den as int) > u64::MAX ==> r == u64::MAX,
{
    if den == 0 {
        return 0;
    }
    assert((num as int) * (scale as int) <= 0xFFFF_FFFF_FFFF_FFFFint * 1000000int) by (nonlinear_arith)
        requires
            0 <= num <= 0xFFFF_FFFF_FFFF_FFFFint,
            0 <= scale <= 1000000,
    ;
    let n: u128 = (num as u128) * (scale as u128);
    let q: u128 = (2 * n + (den as u128)) / (2 * (den as u128));
    if q > u64::MAX as u128 {
        u64::MAX
    } else {
        q as u64
    }
}

/// `10^digits` for `1 <= digits <= 4`.
pub open spec fn unit_of(digits: u32) -> nat {
    if digits == 1 {
        10
    } else if digits == 2 {
        100
    } else if digits == 3 {
        1000
    } else {
        10000
    }
}

/// `n` zero digits.
pub open spec fn zeros(n: int) -> Seq<char> {
    Seq::new(if n < 0 { 0 } else { n as nat }, |i: int| '0')
}

/// `s` with zeros in front up to `width` characters.
pub open spec fn zero_padded(s: Seq<char>, width: int) -> Seq<char> {
    zeros(width - s.len()) + s
}

/// The text of `v / 10^digits` with `digits` decimals: the whole part, a
/// point, and the remainder padded with leading zeros.
pub open spec fn fixed_text(v: u64, digits: u32) -> Seq<char> {
    decimal(((v as nat) / unit_of(digits)) as nat) + "."@ + zero_padded(decimal(((v as nat) % unit_of(digits)) as nat), digits as int)
}

/// `v / 10^digits` printed with `digits` decimals.
pub fn fixed_point(v: u64, digits: u32) -> (s: String)
    requires
        1 <= digits <= 4,
    ensures
        s@ == fixed_text(v, digits),
{
    let unit: u64 = if digits == 1 {
        10
    } else if digits == 2 {
        100
    } else if digits == 3 {
        1000
    } else {
        10000
    };
    let whole = v / unit;
    let frac = v % unit;
    let mut out = cat(decimal_string(whole).as_str(), ".");
    let frac_text = decimal_string(frac);
    let mut pad = vstd::string::StrSliceExecFns::unicode_len(frac_text.as_str());
    let ghost len0 = pad as int;
    let ghost head = out@;
    assert(zeros(0) =~= Seq::<char>::empty());
    assert(head + zeros(0) =~= head);
    while pad < digits as usize
        invariant
            len0 == frac_text@.len(),
            len0 <= pad,
            pad <= digits || pad == len0,
            out@ == head + zeros(pad - len0),
        decreases digits as usize - pad,
    {
        crate::text::push_char(&mut out, '0');
        assert(zeros(pad + 1 - len0) =~= zeros(pad - len0).push('0'));
        pad = pad + 1;
    }
    out.append(frac_text.as_str());
    proof {
        assert(unit as nat == unit_of(digits));
        assert(zeros(pad - len0) =~= zeros(digits - len0));
        assert(out@ =~= fixed_text(v, digits));
    }
    out
}

pub struct GateReportGenerator;

impl GateReportGenerator {
    pub fn check_unverified_zero(metrics: &GateMetrics) -> (g: GateCheckResult)
        ensures
            g.gate_id@ == "gate_trust_unverified_zero"@,
            g.status == unverified_status(*metrics),
            (g.status == CheckStatus::Fail) == (g.reason_code matches Some(c) && c@ == "unverified_nonzero"@),
            g.status == CheckStatus::Fail <==> g.reason_detail is Some,
            g.status == CheckStatus::Fail ==> g.reason_detail->0@ == "unverified_submissions="@ + decimal(
                metrics.unverified_submissions as nat,
            ) + " (要求=0), window_days="@ + decimal(metrics.window_days as nat) + ", checkpoint_passes="@
                + decimal(metrics.checkpoint_passes as nat),
            g.evidence@.len() == 3,
            g.evidence@[0].0@ == "unverified_submissions"@ && g.evidence@[0].1 == metrics.unverified_submissions,
            g.evidence@[1].0@ == "window_days"@ && g.evidence@[1].1 == metrics.window_days,
            g.evidence@[2].0@ == "checkpoint_passes"@ && g.evidence@[2].1 == metrics.checkpoint_passes,
            g.confidence_percent is None,
    {
        let status = if metrics.unverified_submissions == 0 && metrics.window_days >= 14 && metrics.checkpoint_passes >= 2 {
            CheckStatus::Pass
        } else {
            CheckStatus::Fail
        };
        let mut evidence: Vec<(String, u64)> = Vec::new();
        evidence.push(entry("unverified_submissions", metrics.unverified_submissions));
        evidence.push(entry("window_days", metrics.window_days as u64));
        evidence.push(entry("checkpoint_passes", metrics.checkpoint_passes as u64));
        let (code, detail) = if status == CheckStatus::Fail {
            let a = cat("unverified_submissions=", decimal_string(metrics.unverified_submissions).as_str());
            let b = cat(a.as_str(), " (要求=0), window_days=");
            let c = cat(b.as_str(), decimal_string(metrics.window_days as u64).as_str());
            let d = cat(c.as_str(), ", checkpoint_passes=");
            let e = cat(d.as_str(), decimal_string(metrics.checkpoint_passes as u64).as_str());
            (Some(owned("unverified_nonzero")), Some(e))
        } else {
            (None, None)
        };
        GateCheckResult {
            gate_id: owned("gate_trust_unverified_zero"),
            gate_name: owned("未验证提交率红线"),
            status,
            reason_code: code,
            reason_detail: detail,
            evidence,
            confidence_percent: None,
        }
    }

    pub fn check_false_allow_rate(metrics: &GateMetrics) -> (g: GateCheckResult)
        ensures
            g.gate_id@ == "gate_security_false_allow"@,
            g.status == false_allow_status(*metrics),
            (g.status == CheckStatus::Fail) == (g.reason_code matches Some(c) && c@ == "false_allow_exceeded"@),
            g.status == CheckStatus::Fail <==> g.reason_detail is Some,
            g.evidence@.len() == 4,
            g.evidence@[0].0@ == "high_risk_samples"@ && g.evidence@[0].1 == metrics.high_risk_samples,
            g.evidence@[1].0@ == "high_risk_false_allows"@ && g.evidence@[1].1 == metrics.high_risk_false_allows,
            g.evidence@[2].0@ == "high_risk_requests"@ && g.evidence@[2].1 == metrics.high_risk_requests,
            g.evidence@[3].0@ == "false_allow_rate"@,
            metrics.high_risk_requests > 0 ==> g.evidence@[3].1 == capped(
                round_div(metrics.high_risk_false_allows * 10000, metrics.high_risk_requests as int),
            ),
            metrics.high_risk_requests == 0 ==> g.evidence@[3].1 == 0,
            g.confidence_percent == Some(95u32),
    {
        let req = metrics.high_risk_requests;
        let fa = metrics.high_risk_false_allows;
        let rate_ok = req == 0 || (fa as u128) * 1000 <= req as u128;
        let status = if metrics.high_risk_samples >= 1000 && rate_ok {
            CheckStatus::Pass
        } else if req == 0 {
            CheckStatus::Undetermined
        } else {
            CheckStatus::Fail
        };
        let rate_bp: u64 = if req == 0 {
            0
        } else {
            let r = scaled_ratio(fa, req, 10000);
            if r > 0x7FFF_FFFF_FFFF_FFFF {
                0x7FFF_FFFF_FFFF_FFFF
            } else {
                r
            }
        };
        let mut evidence: Vec<(String, u64)> = Vec::new();
        evidence.push(entry("high_risk_samples", metrics.high_risk_samples));
        evidence.push(entry("high_risk_false_allows", fa));
        evidence.push(entry("high_risk_requests", req));
        evidence.push(entry("false_allow_rate", rate_bp));
        let (code, detail) = if status == CheckStatus::Fail {
            let a = cat("false_allow_rate=", fixed_point(scaled_ratio(fa, req, 1000000), 4).as_str());
            let b = cat(a.as_str(), "% (要求<=0.1%), high_risk_samples=");
            let c = cat(b.as_str(), decimal_string(metrics.high_risk_samples).as_str());
            let d = cat(c.as_str(), " (要求>=1000)");
            (Some(owned("false_allow_exceeded")), Some(d))
        } else {
            (None, None)
        };
        GateCheckResult {
            gate_id: owned("gate_security_false_allow"),
            gate_name: owned("高危误放行率红线"),
            status,
            reason_code: code,
            reason_detail: detail,
            evidence,
            confidence_percent: Some(95),
        }
    }

    pub fn check_governance_closed_loop(metrics: &GateMetrics) -> (g: GateCheckResult)
        ensures
            g.gate_id@ == "gate_governance_closed_loop"@,
            g.status == governance_status(*metrics),
            (g.status == CheckStatus::Fail) == (g.reason_code matches Some(c) && c@ == "governance_incomplete"@),
            g.status == CheckStatus::Fail <==> g.reason_detail is Some,
            g.evidence@.len() == 3,
            g.evidence@[0].0@ == "policy_change_total"@ && g.evidence@[0].1 == metrics.policy_change_total,
            g.evidence@[1].0@ == "policy_change_closed_loop"@ && g.evidence@[1].1 == metrics.policy_change_closed_loop,
            g.evidence@[2].0@ == "closed_loop_rate"@,
            metrics.policy_change_total == 0 ==> g.evidence@[2].1 == 100,
            metrics.policy_change_total > 0 ==> g.evidence@[2].1 == capped(
                (metrics.policy_change_closed_loop * 100) / (metrics.policy_change_total as int),
            ),
            g.confidence_percent is None,
    {
        let total = metrics.policy_change_total;
        let closed = metrics.policy_change_closed_loop;
        let status = if total == 0 || closed == total {
            CheckStatus::Pass
        } else {
            CheckStatus::Fail
        };
        let pct: u64 = if total == 0 {
            100
        } else {
            let q = ((closed as u128) * 100) / (total as u128);
            if q > 0x7FFF_FFFF_FFFF_FFFF {
                0x7FFF_FFFF_FFFF_FFFF
            } else {
                q as u64
            }
        };
        let mut evidence: Vec<(String, u64)> = Vec::new();
        evidence.push(entry("policy_change_total", total));
        evidence.push(entry("policy_change_closed_loop", closed));
        evidence.push(entry("closed_loop_rate", pct));
        let (code, detail) = if status == CheckStatus::Fail {
            let a = cat("closed_loop_rate=", fixed_point(scaled_ratio(closed, total, 1000), 1).as_str());
            let b = cat(a.as_str(), "% (要求=100%)");
            (Some(owned("governance_incomplete")), Some(b))
        } else {
            (None, None)
        };
        GateCheckResult {
            gate_id: owned("gate_governance_closed_loop"),
            gate_name: owned("治理闭环红线"),
            status,
            reason_code: code,
            reason_detail: detail,
            evidence,
            confidence_percent: None,
        }
    }

    pub fn check_sample_minimum(metrics: &GateMetrics) -> (g: GateCheckResult)
        ensures
            g.gate_id@ == "gate_sample_minimum"@,
            g.status == sample_status(*metrics),
            (g.status == CheckStatus::Fail) == (g.reason_code matches Some(c) && c@ == "insufficient_samples"@),
            g.status == CheckStatus::Fail <==> g.reason_detail is Some,
            g.status == CheckStatus::Fail ==> g.reason_detail->0@ == "core_replay_samples="@ + decimal(
                metrics.core_replay_samples as nat,
            ) + " (要求>=200), high_risk_samples="@ + decimal(metrics.high_risk_samples as nat)
                + " (要求>=1000 或=0)"@,
            g.evidence@.len() == 2,
            g.evidence@[0].0@ == "core_replay_samples"@ && g.evidence@[0].1 == metrics.core_replay_samples,
            g.evidence@[1].0@ == "high_risk_samples"@ && g.evidence@[1].1 == metrics.high_risk_samples,
            g.confidence_percent is None,
    {
        let core_ok = metrics.core_replay_samples >= 200;
        let high_risk_ok = metrics.high_risk_samples == 0 || metrics.high_risk_samples >= 1000;
        let status = if core_ok && high_risk_ok {
            CheckStatus::Pass
        } else {
            CheckStatus::Fail
        };
        let mut evidence: Vec<(String, u64)> = Vec::new();
        evidence.push(entry("core_replay_samples", metrics.core_replay_samples));
        evidence.push(entry("high_risk_samples", metrics.high_risk_samples));
        let (code, detail) = if status == CheckStatus::Fail {
            let a = cat("core_replay_samples=", decimal_string(metrics.core_replay_samples).as_str());
            let b = cat(a.as_str(), " (要求>=200), high_risk_samples=");
            let c = cat(b.as_str(), decimal_string(metrics.high_risk_samples).as_str());
            let d = cat(c.as_str(), " (要求>=1000 或=0)");
            (Some(owned("insufficient_samples")), Some(d))
        } else {
            (None, None)
        };
        GateCheckResult {
            gate_id: owned("gate_sample_minimum"),
            gate_name: owned("样本量红线"),
            status,
            reason_code: code,
            reason_detail: detail,
            evidence,
            confidence_percent: None,
        }
    }

    pub fn compute_overall_status(gates: &Vec<GateCheckResult>) -> (s: GateStatus)
        ensures
            s == overall(statuses(gates@)),
    {
        let ghost st = statuses(gates@);
        let mut has_fail = false;
        let mut has_undetermined = false;
        let mut i: usize = 0;
        while i < gates.len()
            invariant
                st == statuses(gates@),
                i <= gates@.len(),
                has_fail == exists|j: int| 0 <= j < i && st[j] == CheckStatus::Fail,
                has_undetermined == exists|j: int| 0 <= j < i && st[j] == CheckStatus::Undetermined,
            decreases gates@.len() - i,
        {
            if gates[i].status == CheckStatus::Fail {
                has_fail = true;
            }
            if gates[i].status == CheckStatus::Undetermined {
                has_undetermined = true;
            }
            assert(st[i as int] == gates@[i as int].status);
            i = i + 1;
        }
        if has_fail {
            GateStatus::Fail
        } else if has_undetermined {
            GateStatus::ConditionalPass
        } else {
            GateStatus::Pass
        }
    }

    /// Seconds since the Unix epoch.
    pub fn current_timestamp() -> u64 {
        unix_now_secs()
    }

    /// Runs the four gates in order, collects a failure action for each
    /// failed gate, and derives the overall verdict.
    pub fn generate_at(metrics: GateMetrics, release_id: &str, generated_at: u64) -> (r: GateReport)
        ensures
            r.report_version@ == "v1.0"@,
            r.release_id@ == release_id@,
            r.window_days == metrics.window_days,
            r.generated_at == generated_at,
            r.metrics == metrics,
            statuses(r.gates@) == seq![
                unverified_status(metrics),
                false_allow_status(metrics),
                governance_status(metrics),
                sample_status(metrics),
            ],
            r.overall_status == overall(statuses(r.gates@)),
            r.failure_actions@.map_values(|a: FailureAction| a.gate_id@) == failed_gate_ids(metrics),
    {
        let mut gates: Vec<GateCheckResult> = Vec::new();
        let mut failure_actions: Vec<FailureAction> = Vec::new();
        let g1 = Self::check_unverified_zero(&metrics);
        if g1.status == CheckStatus::Fail {
            failure_actions.push(FailureAction {
                gate_id: owned("gate_trust_unverified_zero"),
                action: owned("冻结功能发布，仅允许修复分支"),
                recovery_condition: owned("14 天窗口恢复达标 + 连续 2 个双周关卡通过"),
                owner: Some(owned("Core")),
                sla_hours: Some(24),
            });
        }
        gates.push(g1);
        let g2 = Self::check_false_allow_rate(&metrics);
        if g2.status == CheckStatus::Fail {
            failure_actions.push(FailureAction {
                gate_id: owned("gate_security_false_allow"),
                action: owned("阻断发布，触发安全事件单（P0/P1）"),
                recovery_condition: owned("误放行率与 u95 均达标"),
                owner: Some(owned("Security")),
                sla_hours: Some(4),
            });
        }
        gates.push(g2);
        let g3 = Self::check_governance_closed_loop(&metrics);
        if g3.status == CheckStatus::Fail {
            failure_actions.push(FailureAction {
                gate_id: owned("gate_governance_closed_loop"),
                action: owned("阻断策略上线"),
                recovery_condition: owned("补齐提案 - 测试 - 灰度 - 回滚证据链"),
                owner: Some(owned("PM")),
                sla_hours: Some(48),
            });
        }
        gates.push(g3);
        let g4 = Self::check_sample_minimum(&metrics);
        if g4.status == CheckStatus::Fail {
            failure_actions.push(FailureAction {
                gate_id: owned("gate_sample_minimum"),
                action: owned("阻断通过判定，只允许补样/修复"),
                recovery_condition: owned("样本量达标"),
                owner: Some(owned("QA")),
                sla_hours: Some(72),
            });
        }
        gates.push(g4);
        assert(statuses(gates@) =~= seq![
            unverified_status(metrics),
            false_allow_status(metrics),
            governance_status(metrics),
            sample_status(metrics),
        ]);
        assert(failure_actions@.map_values(|a: FailureAction| a.gate_id@) =~= failed_gate_ids(metrics));
        let overall_status = Self::compute_overall_status(&gates);
        GateReport {
            report_version: owned("v1.0"),
            release_id: owned(release_id),
            window_days: metrics.window_days,
            generated_at,
            overall_status,
            gates,
            metrics,
            failure_actions,
        }
    }

    /// A report generated now.
    pub fn generate(metrics: GateMetrics, release_id: &str) -> (r: GateReport)
        ensures
            r.release_id@ == release_id@,
            r.metrics == metrics,
            r.overall_status == overall(statuses(r.gates@)),
    {
        Self::generate_at(metrics, release_id, Self::current_timestamp())
    }
}

/// The ids of the failed gates, in gate order.
pub open spec fn failed_gate_ids(m: GateMetrics) -> Seq<Seq<char>> {
    (if unverified_status(m) == CheckStatus::Fail { seq!["gate_trust_unverified_zero"@] } else { Seq::empty() })
    + (if false_allow_status(m) == CheckStatus::Fail { seq!["gate_security_false_allow"@] } else { Seq::empty() })
    + (if governance_status(m) == CheckStatus::Fail { seq!["gate_governance_closed_loop"@] } else { Seq::empty() })
    + (if sample_status(m) == CheckStatus::Fail { seq!["gate_sample_minimum"@] } else { Seq::empty() })
}

/// A report passes only when every gate passes; one failed gate fails it.
pub proof fn law_report_verdict(m: GateMetrics)
    ensures
        overall(seq![unverified_status(m), false_allow_status(m), governance_status(m), sample_status(m)]) == GateStatus::Pass
            <==> (unverified_status(m) == CheckStatus::Pass && false_allow_status(m) == CheckStatus::Pass
            && governance_status(m) == CheckStatus::Pass && sample_status(m) == CheckStatus::Pass),
        unverified_status(m) == CheckStatus::Fail ==> overall(seq![unverified_status(m), false_allow_status(m), governance_status(m), sample_status(m)]) == GateStatus::Fail,
{
    let s = seq![unverified_status(m), false_allow_status(m), governance_status(m), sample_status(m)];
    assert(s[0] == unverified_status(m) && s[1] == false_allow_status(m) && s[2] == governance_status(m) && s[3] == sample_status(m));
}


/// The time `secs` seconds after the Unix epoch, as chrono writes it with
/// `%Y-%m-%d %H:%M:%S UTC`.
pub uninterp spec fn utc_text(secs: u64) -> Seq<char>;

/// The latest second chrono can represent: the end of its last year.
pub const LATEST_UTC_SECS: u64 = 8210266876799;

/// Formats a time given in seconds since the epoch through chrono's
/// `DateTime::from_timestamp` and `DateTime<Utc>::format`; the text is
/// `utc_text` of the seconds. Up to `LATEST_UTC_SECS` chrono represents every
/// second, so the formatted text is always produced.
#[verifier::external_body]
fn format_timestamp(secs: u64) -> (s: String)
    requires
        secs <= LATEST_UTC_SECS,
    ensures
        s@ == utc_text(secs),
{
    let secs = i64::try_from(secs).unwrap_or(i64::MAX);
    chrono::DateTime::from_timestamp(secs, 0).map(|dt| dt.format("%Y-%m-%d %H:%M:%S UTC").to_string()).unwrap_or_default()
}

/// The name of an overall verdict as `Debug` writes it.
pub open spec fn status_name(s: GateStatus) -> Seq<char> {
    match s {
        GateStatus::Pass => "Pass"@,
        GateStatus::ConditionalPass => "ConditionalPass"@,
        GateStatus::Fail => "Fail"@,
    }
}

/// The mark shown beside a gate's verdict.
pub open spec fn status_icon(s: CheckStatus) -> Seq<char> {
    match s {
        CheckStatus::Pass => "✅"@,
        CheckStatus::Fail => "❌"@,
        CheckStatus::Undetermined => "⚠️"@,
    }
}

/// `o`'s text, or `absent` when there is none.
pub open spec fn text_or(o: Option<String>, absent: Seq<char>) -> Seq<char> {
    match o {
        Some(t) => t@,
        None => absent,
    }
}

/// The table row of one gate.
pub open spec fn gate_row(g: GateCheckResult) -> Seq<char> {
    "| "@ + g.gate_id@ + " | "@ + g.gate_name@ + " | "@ + status_icon(g.status) + " "@ + text_or(g.reason_detail, "-"@)
        + " |\n"@
}

/// The table rows of the gates, in order.
pub open spec fn gate_rows(gs: Seq<GateCheckResult>) -> Seq<char>
    decreases gs.len(),
{
    if gs.len() == 0 {
        seq![]
    } else {
        gate_rows(gs.drop_last()) + gate_row(gs.last())
    }
}

/// The SLA of a failure action as written in the summary.
pub open spec fn sla_text(h: Option<u32>) -> Seq<char> {
    match h {
        Some(n) => decimal(n as nat),
        None => "N/A"@,
    }
}

/// The section of one failure action.
pub open spec fn action_block(a: FailureAction) -> Seq<char> {
    "### "@ + a.gate_id@ + "\n- **动作**: "@ + a.action@ + "\n- **恢复条件**: "@ + a.recovery_condition@
        + "\n- **责任人**: "@ + text_or(a.owner, "未指定"@) + "\n- **SLA**: "@ + sla_text(a.sla_hours) + " 小时\n\n"@
}

/// The sections of the failure actions, in order.
pub open spec fn action_blocks(acts: Seq<FailureAction>) -> Seq<char>
    decreases acts.len(),
{
    if acts.len() == 0 {
        seq![]
    } else {
        action_blocks(acts.drop_last()) + action_block(acts.last())
    }
}

/// The markdown summary of a report: its header lines, the table of gates,
/// and a section per failure action when there are any.
pub open spec fn markdown_summary(r: GateReport) -> Seq<char> {
    "# 门禁报告摘要\n\n"@ + "- **发布 ID**: "@ + r.release_id@ + "\n"@ + "- **生成时间**: "@ + utc_text(r.generated_at)
        + "\n"@ + "- **统计窗口**: "@ + decimal(r.window_days as nat) + " 天\n"@ + "- **整体状态**: "@ + status_name(
        r.overall_status,
    ) + "\n\n"@ + "## 门禁检查结果\n\n"@ + "| 门禁 ID | 名称 | 状态 | 详情 |\n"@ + "|--------|------|------|------|\n"@
        + gate_rows(r.gates@) + if r.failure_actions@.len() == 0 {
        seq![]
    } else {
        "\n## 失败处置\n\n"@ + action_blocks(r.failure_actions@)
    }
}

fn status_name_text(s: GateStatus) -> (t: &'static str)
    ensures
        t@ == status_name(s),
{
    match s {
        GateStatus::Pass => "Pass",
        GateStatus::ConditionalPass => "ConditionalPass",
        GateStatus::Fail => "Fail",
    }
}

fn status_icon_text(s: CheckStatus) -> (t: &'static str)
    ensures
        t@ == status_icon(s),
{
    match s {
        CheckStatus::Pass => "✅",
        CheckStatus::Fail => "❌",
        CheckStatus::Undetermined => "⚠️",
    }
}

fn append_or(md: &mut String, o: &Option<String>, absent: &str)
    ensures
        final(md)@ == old(md)@ + text_or(*o, absent@),
{
    match o {
        Some(t) => md.append(t.as_str()),
        None => md.append(absent),
    }
}

fn append_action_block(md: &mut String, a: &FailureAction)
    ensures
        final(md)@ == old(md)@ + action_block(*a),
{
    md.append("### ");
    md.append(a.gate_id.as_str());
    md.append("\n- **动作**: ");
    md.append(a.action.as_str());
    md.append("\n- **恢复条件**: ");
    md.append(a.recovery_condition.as_str());
    md.append("\n- **责任人**: ");
    append_or(md, &a.owner, "未指定");
    md.append("\n- **SLA**: ");
    match a.sla_hours {
        Some(h) => {
            let t = decimal_string(h as u64);
            md.append(t.as_str());
        },
        None => md.append("N/A"),
    }
    md.append(" 小时\n\n");
}

impl GateReportGenerator {
    /// The markdown summary of a report.
    pub fn generate_markdown_summary(report: &GateReport) -> (md: String)
        requires
            report.generated_at <= LATEST_UTC_SECS,
        ensures
            md@ == markdown_summary(*report),
    {
        let mut md = String::from_str("# 门禁报告摘要\n\n");
        md.append("- **发布 ID**: ");
        md.append(report.release_id.as_str());
        md.append("\n");
        md.append("- **生成时间**: ");
        let ts = format_timestamp(report.generated_at);
        md.append(ts.as_str());
        md.append("\n");
        md.append("- **统计窗口**: ");
        let w = decimal_string(report.window_days as u64);
        md.append(w.as_str());
        md.append(" 天\n");
        md.append("- **整体状态**: ");
        md.append(status_name_text(report.overall_status));
        md.append("\n\n");
        md.append("## 门禁检查结果\n\n");
        md.append("| 门禁 ID | 名称 | 状态 | 详情 |\n");
        md.append("|--------|------|------|------|\n");
        let ghost head = md@;
        let mut i: usize = 0;
        while i < report.gates.len()
            invariant
                i <= report.gates@.len(),
                md@ == head + gate_rows(report.gates@.subrange(0, i as int)),
            decreases report.gates@.len() - i,
        {
            let g = &report.gates[i];
            md.append("| ");
            md.append(g.gate_id.as_str());
            md.append(" | ");
            md.append(g.gate_name.as_str());
            md.append(" | ");
            md.append(status_icon_text(g.status));
            md.append(" ");
            append_or(&mut md, &g.reason_detail, "-");
            md.append(" |\n");
            proof {
                let gs = report.gates@.subrange(0, i + 1);
                assert(gs.drop_last() =~= report.gates@.subrange(0, i as int));
                assert(gs.last() == report.gates@[i as int]);
            }
            i = i + 1;
        }
        assert(report.gates@.subrange(0, report.gates@.len() as int) =~= report.gates@);
        if report.failure_actions.len() > 0 {
            md.append("\n## 失败处置\n\n");
            let ghost head2 = md@;
            let mut k: usize = 0;
            while k < report.failure_actions.len()
                invariant
                    k <= report.failure_actions@.len(),
                    md@ == head2 + action_blocks(report.failure_actions@.subrange(0, k as int)),
                decreases report.failure_actions@.len() - k,
            {
                append_action_block(&mut md, &report.failure_actions[k]);
                proof {
                    let xs = report.failure_actions@.subrange(0, k + 1);
                    assert(xs.drop_last() =~= report.failure_actions@.subrange(0, k as int));
                    assert(xs.last() == report.failure_actions@[k as int]);
                }
                k = k + 1;
            }
            assert(report.failure_actions@.subrange(0, report.failure_actions@.len() as int) =~= report.failure_actions@);
        }
        md
    }
}

} // verus!
