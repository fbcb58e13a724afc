//! Threat detection: a table of detection rules (thresholds on event
//! metrics, patterns on event fields, anomaly models and composites of
//! signals), an anomaly check on the event's score, and the alerts raised.

use vstd::prelude::*;
use crate::batch::now_rfc3339;
use crate::clock::unix_now_micros;
use crate::text::{cat, decimal, decimal_string, occurs_at, owned, str_eq, substring};
use crate::optimization::work_stealing_executor::{wrap_add, wrapping_plus};

verus! {

/// The first position at or after `from` where `p` holds ".*", or -1.
pub open spec fn first_star(p: Seq<char>, from: int) -> int
    decreases p.len() - from,
{
    if from < 0 || from + 1 >= p.len() {
        -1
    } else if p[from] == '.' && p[from + 1] == '*' {
        from
    } else {
        first_star(p, from + 1)
    }
}

/// Where the next wildcard stands, if any.
pub proof fn lemma_first_star(p: Seq<char>, from: int)
    requires
        0 <= from,
    ensures
        first_star(p, from) == -1 || (from <= first_star(p, from) && first_star(p, from) + 1 < p.len()
            && p[first_star(p, from)] == '.' && p[first_star(p, from) + 1] == '*'),
    decreases p.len() - from,
{
    if from + 1 < p.len() && !(p[from] == '.' && p[from + 1] == '*') {
        lemma_first_star(p, from + 1);
    }
}

/// The pieces of `p` from `from` on between the wildcards ".*", left to right.
pub open spec fn pieces_from(p: Seq<char>, from: int) -> Seq<Seq<char>>
    decreases p.len() - from,
    when 0 <= from <= p.len()
{
    let k = first_star(p, from);
    if k < 0 {
        seq![p.subrange(from, p.len() as int)]
    } else {
        proof {
            lemma_first_star(p, from);
        }
        seq![p.subrange(from, k)] + pieces_from(p, k + 2)
    }
}

/// The pieces occur in `t` one after another, without overlap, the first
/// at or after `from`.
pub open spec fn in_order(t: Seq<char>, ps: Seq<Seq<char>>, from: int) -> bool
    decreases ps.len(),
{
    if ps.len() == 0 {
        true
    } else {
        exists|q: int| from <= q && #[trigger] occurs_at(t, ps[0], q) && in_order(t, ps.drop_first(), q + ps[0].len())
    }
}

/// `t` matches the pattern `p` read as a regular expression whose only
/// operator is ".*" (any run of characters), searched anywhere in `t`.
pub open spec fn wildcard_match(t: Seq<char>, p: Seq<char>) -> bool {
    in_order(t, pieces_from(p, 0), 0)
}

proof fn lemma_in_order_earlier(t: Seq<char>, ps: Seq<Seq<char>>, a: int, b: int)
    requires
        in_order(t, ps, a),
        b <= a,
    ensures
        in_order(t, ps, b),
    decreases ps.len(),
{
    if ps.len() > 0 {
        let q = choose|q: int| a <= q && #[trigger] occurs_at(t, ps[0], q) && in_order(t, ps.drop_first(), q + ps[0].len());
        assert(b <= q && occurs_at(t, ps[0], q));
    }
}

fn find_star(p: &str, from: usize, n: usize) -> (k: Option<usize>)
    requires
        n == p@.len(),
        from <= n,
    ensures
        match k {
            Some(j) => first_star(p@, from as int) == j as int,
            None => first_star(p@, from as int) == -1,
        },
{
    let mut i = from;
    while n - i > 1
        invariant
            n == p@.len(),
            from <= i <= n,
            first_star(p@, from as int) == first_star(p@, i as int),
        decreases n - i,
    {
        if p.get_char(i) == '.' && p.get_char(i + 1) == '*' {
            return Some(i);
        }
        i = i + 1;
    }
    None
}

fn find_at_or_after(hay: &str, needle: &str, from: usize) -> (r: Option<usize>)
    requires
        from <= hay@.len(),
    ensures
        match r {
            Some(q) => from <= q && occurs_at(hay@, needle@, q as int) && forall|j: int|
                from <= j < q ==> !occurs_at(hay@, needle@, j),
            None => forall|j: int| from <= j ==> !occurs_at(hay@, needle@, j),
        },
{
    let hn = hay.unicode_len();
    let nn = needle.unicode_len();
    if nn > hn - from {
        return None;
    }
    if nn == 0 {
        assert(hay@.subrange(from as int, from as int) =~= needle@);
        return Some(from);
    }
    let mut i = from;
    while i <= hn - nn
        invariant
            hn == hay@.len(),
            nn == needle@.len(),
            from <= i <= hn - nn + 1,
            1 <= nn <= hn - from,
            forall|j: int| from <= j < i ==> !occurs_at(hay@, needle@, j),
        decreases hn - nn + 1 - i,
    {
        let mut k: usize = 0;
        let mut same = true;
        while k < nn
            invariant
                hn == hay@.len(),
                nn == needle@.len(),
                i + nn <= hn,
                k <= nn,
                same ==> forall|j: int| 0 <= j < k ==> hay@[i + j] == needle@[j],
                !same ==> !occurs_at(hay@, needle@, i as int),
            decreases nn - k,
        {
            if same && hay.get_char(i + k) != needle.get_char(k) {
                assert(hay@.subrange(i as int, i + nn)[k as int] != needle@[k as int]);
                same = false;
            }
            k = k + 1;
        }
        if same {
            assert(hay@.subrange(i as int, i + nn) =~= needle@);
            return Some(i);
        }
        i = i + 1;
    }
    None
}

/// Whether `text` matches `pattern`, where ".*" in the pattern stands for any
/// run of characters and everything else for itself; the match may start
/// and end anywhere in `text`.
pub fn matches_pattern(text: &str, pattern: &str) -> (r: bool)
    ensures
        r == wildcard_match(text@, pattern@),
{
    let tn = text.unicode_len();
    let pn = pattern.unicode_len();
    let mut pp: usize = 0;
    let mut tp: usize = 0;
    loop
        invariant
            tn == text@.len(),
            pn == pattern@.len(),
            pp <= pn,
            tp <= tn,
            wildcard_match(text@, pattern@) == in_order(text@, pieces_from(pattern@, pp as int), tp as int),
        decreases pn - pp,
    {
        let star = find_star(pattern, pp, pn);
        proof {
            lemma_first_star(pattern@, pp as int);
        }
        let end = match star {
            Some(k) => k,
            None => pn,
        };
        let piece = substring(pattern, pp, end);
        let ghost ps = pieces_from(pattern@, pp as int);
        assert(ps[0] == piece@);
        assert(ps.drop_first() == (match star {
            Some(k) => pieces_from(pattern@, k + 2),
            None => Seq::<Seq<char>>::empty(),
        })) by {
            match star {
                Some(k) => {
                    assert(ps.drop_first() =~= pieces_from(pattern@, k + 2));
                },
                None => {
                    assert(ps.drop_first() =~= Seq::<Seq<char>>::empty());
                },
            }
        }
        match find_at_or_after(text, piece.as_str(), tp) {
            None => {
                assert(!in_order(text@, ps, tp as int)) by {
                    if in_order(text@, ps, tp as int) {
                        let q = choose|q: int|
                            tp <= q && #[trigger] occurs_at(text@, ps[0], q) && in_order(text@, ps.drop_first(), q + ps[0].len());
                        assert(!occurs_at(text@, piece@, q));
                    }
                }
                return false;
            },
            Some(q) => {
                let next_tp = q + piece.unicode_len();
                assert(in_order(text@, ps, tp as int) == in_order(text@, ps.drop_first(), next_tp as int)) by {
                    if in_order(text@, ps, tp as int) {
                        let w = choose|w: int|
                            tp <= w && #[trigger] occurs_at(text@, ps[0], w) && in_order(text@, ps.drop_first(), w + ps[0].len());
                        assert(q <= w);
                        lemma_in_order_earlier(text@, ps.drop_first(), w + ps[0].len(), next_tp as int);
                    }
                    if in_order(text@, ps.drop_first(), next_tp as int) {
                        assert(occurs_at(text@, ps[0], q as int));
                    }
                }
                match star {
                    None => {
                        return true;
                    },
                    Some(k) => {
                        tp = next_tp;
                        pp = k + 2;
                    },
                }
            },
        }
    }
}

} // verus!

verus! {

/// The kind of threat a rule looks for.
#[derive(Debug, Clone, Copy, PartialEq, Eq, Hash, Structural)]
pub enum ThreatCategory {
    AbnormalAccess,
    PrivilegeAbuse,
    DataLeak,
    ServiceAnomaly,
    ConfigTampering,
}

/// How serious an alert is, in rising order.
#[derive(Debug, Clone, Copy, PartialEq, Eq, PartialOrd, Structural)]
pub enum Severity {
    Low,
    Medium,
    High,
    Critical,
}

/// A comparison of an event metric with a rule's value.
#[derive(Debug, Clone, Copy, PartialEq, Eq, Structural)]
pub enum CompareOp {
    GreaterThan,
    LessThan,
    Equal,
    GreaterThanOrEqual,
    LessThanOrEqual,
}

/// How the signals of a composite rule combine.
#[derive(Debug, Clone, Copy, PartialEq, Eq, Structural)]
pub enum LogicOp {
    And,
    Or,
}

/// What to do when a rule fires.
pub enum AlertAction {
    Notify { channel: String },
    RateLimit { duration_secs: u64, limit: u32 },
    Block { duration_secs: u64 },
    Quarantine { resource: String },
    Escalate { to: String },
}

/// An alert action as plain values.
pub enum AlertActionView {
    Notify { channel: Seq<char> },
    RateLimit { duration_secs: u64, limit: u32 },
    Block { duration_secs: u64 },
    Quarantine { resource: Seq<char> },
    Escalate { to: Seq<char> },
}

impl View for AlertAction {
    type V = AlertActionView;

    open spec fn view(&self) -> AlertActionView {
        match self {
            AlertAction::Notify { channel } => AlertActionView::Notify { channel: channel@ },
            AlertAction::RateLimit { duration_secs, limit } => AlertActionView::RateLimit {
                duration_secs: *duration_secs,
                limit: *limit,
            },
            AlertAction::Block { duration_secs } => AlertActionView::Block { duration_secs: *duration_secs },
            AlertAction::Quarantine { resource } => AlertActionView::Quarantine { resource: resource@ },
            AlertAction::Escalate { to } => AlertActionView::Escalate { to: to@ },
        }
    }
}

impl AlertAction {
    /// A copy of the action.
    pub fn duplicate(&self) -> (r: AlertAction)
        ensures
            r@ == self@,
    {
        match self {
            AlertAction::Notify { channel } => AlertAction::Notify { channel: channel.clone() },
            AlertAction::RateLimit { duration_secs, limit } => AlertAction::RateLimit {
                duration_secs: *duration_secs,
                limit: *limit,
            },
            AlertAction::Block { duration_secs } => AlertAction::Block { duration_secs: *duration_secs },
            AlertAction::Quarantine { resource } => AlertAction::Quarantine { resource: resource.clone() },
            AlertAction::Escalate { to } => AlertAction::Escalate { to: to.clone() },
        }
    }
}

pub open spec fn action_views(v: Seq<AlertAction>) -> Seq<AlertActionView> {
    v.map_values(|a: AlertAction| a@)
}

pub open spec fn text_views(v: Seq<String>) -> Seq<Seq<char>> {
    v.map_values(|t: String| t@)
}

pub open spec fn pair_views(v: Seq<(String, String)>) -> Seq<(Seq<char>, Seq<char>)> {
    v.map_values(|p: (String, String)| (p.0@, p.1@))
}

pub open spec fn metric_views(v: Seq<(String, u64)>) -> Seq<(Seq<char>, u64)> {
    v.map_values(|p: (String, u64)| (p.0@, p.1))
}

fn copy_actions(v: &Vec<AlertAction>) -> (r: Vec<AlertAction>)
    ensures
        action_views(r@) == action_views(v@),
{
    let mut r: Vec<AlertAction> = Vec::new();
    let mut i: usize = 0;
    while i < v.len()
        invariant
            i <= v@.len(),
            action_views(r@) == action_views(v@.take(i as int)),
        decreases v@.len() - i,
    {
        let ghost before = r@;
        r.push(v[i].duplicate());
        proof {
            assert(action_views(r@) =~= action_views(before).push(v@[i as int]@));
            assert(action_views(v@.take(i + 1)) =~= action_views(v@.take(i as int)).push(v@[i as int]@));
        }
        i = i + 1;
    }
    assert(v@.take(v@.len() as int) =~= v@);
    r
}

pub(crate) fn copy_pairs(v: &Vec<(String, String)>) -> (r: Vec<(String, String)>)
    ensures
        pair_views(r@) == pair_views(v@),
{
    let mut r: Vec<(String, String)> = Vec::new();
    let mut i: usize = 0;
    while i < v.len()
        invariant
            i <= v@.len(),
            pair_views(r@) == pair_views(v@.take(i as int)),
        decreases v@.len() - i,
    {
        let ghost before = r@;
        let p = (v[i].0.clone(), v[i].1.clone());
        r.push(p);
        proof {
            assert(pair_views(r@) =~= pair_views(before).push((v@[i as int].0@, v@[i as int].1@)));
            assert(pair_views(v@.take(i + 1)) =~= pair_views(v@.take(i as int)).push(
                (v@[i as int].0@, v@[i as int].1@),
            ));
        }
        i = i + 1;
    }
    assert(v@.take(v@.len() as int) =~= v@);
    r
}

/// When a rule fires.
pub enum RuleCondition {
    /// An event metric compared with a value.
    Threshold { metric: String, op: CompareOp, value: u64 },
    /// An event field matching a pattern (".*" stands for any run of characters).
    Pattern { pattern: String, field: String },
    /// An anomaly model; its score threshold is in thousandths.
    Anomaly { model: String, score_threshold_per_mille: u64 },
    /// Named signals (event fields or metrics) combined by `logic`.
    Composite { rules: Vec<String>, logic: LogicOp },
}

/// A rule condition as plain values.
pub enum ConditionView {
    Threshold { metric: Seq<char>, op: CompareOp, value: u64 },
    Pattern { pattern: Seq<char>, field: Seq<char> },
    Anomaly { model: Seq<char>, score_threshold_per_mille: u64 },
    Composite { rules: Seq<Seq<char>>, logic: LogicOp },
}

impl View for RuleCondition {
    type V = ConditionView;

    open spec fn view(&self) -> ConditionView {
        match self {
            RuleCondition::Threshold { metric, op, value } => ConditionView::Threshold {
                metric: metric@,
                op: *op,
                value: *value,
            },
            RuleCondition::Pattern { pattern, field } => ConditionView::Pattern { pattern: pattern@, field: field@ },
            RuleCondition::Anomaly { model, score_threshold_per_mille } => ConditionView::Anomaly {
                model: model@,
                score_threshold_per_mille: *score_threshold_per_mille,
            },
            RuleCondition::Composite { rules, logic } => ConditionView::Composite {
                rules: text_views(rules@),
                logic: *logic,
            },
        }
    }
}

/// A detection rule.
pub struct DetectionRule {
    pub id: String,
    pub name: String,
    pub category: ThreatCategory,
    pub severity: Severity,
    pub condition: RuleCondition,
    pub window_secs: u64,
    pub threshold: u32,
    pub actions: Vec<AlertAction>,
}

/// A detection rule as plain values.
pub struct RuleView {
    pub id: Seq<char>,
    pub name: Seq<char>,
    pub category: ThreatCategory,
    pub severity: Severity,
    pub condition: ConditionView,
    pub window_secs: u64,
    pub threshold: u32,
    pub actions: Seq<AlertActionView>,
}

impl View for DetectionRule {
    type V = RuleView;

    open spec fn view(&self) -> RuleView {
        RuleView {
            id: self.id@,
            name: self.name@,
            category: self.category,
            severity: self.severity,
            condition: self.condition@,
            window_secs: self.window_secs,
            threshold: self.threshold,
            actions: action_views(self.actions@),
        }
    }
}

pub open spec fn rule_views(v: Seq<DetectionRule>) -> Seq<RuleView> {
    v.map_values(|r: DetectionRule| r@)
}

/// An alert raised for an event.
pub struct Alert {
    pub rule_id: String,
    pub severity: Severity,
    pub title: String,
    pub details: String,
    pub context: Vec<(String, String)>,
    pub actions: Vec<AlertAction>,
    pub timestamp: String,
}

/// An alert as plain values.
pub struct AlertView {
    pub rule_id: Seq<char>,
    pub severity: Severity,
    pub title: Seq<char>,
    pub details: Seq<char>,
    pub context: Seq<(Seq<char>, Seq<char>)>,
    pub actions: Seq<AlertActionView>,
    pub timestamp: Seq<char>,
}

impl View for Alert {
    type V = AlertView;

    open spec fn view(&self) -> AlertView {
        AlertView {
            rule_id: self.rule_id@,
            severity: self.severity,
            title: self.title@,
            details: self.details@,
            context: pair_views(self.context@),
            actions: action_views(self.actions@),
            timestamp: self.timestamp@,
        }
    }
}

pub open spec fn alert_views(v: Seq<Alert>) -> Seq<AlertView> {
    v.map_values(|a: Alert| a@)
}

impl Alert {
    /// A copy of the alert.
    pub fn duplicate(&self) -> (r: Alert)
        ensures
            r@ == self@,
    {
        Alert {
            rule_id: self.rule_id.clone(),
            severity: self.severity,
            title: self.title.clone(),
            details: self.details.clone(),
            context: copy_pairs(&self.context),
            actions: copy_actions(&self.actions),
            timestamp: self.timestamp.clone(),
        }
    }
}

fn copy_alerts(v: &Vec<Alert>) -> (r: Vec<Alert>)
    ensures
        alert_views(r@) == alert_views(v@),
{
    let mut r: Vec<Alert> = Vec::new();
    let mut i: usize = 0;
    while i < v.len()
        invariant
            i <= v@.len(),
            alert_views(r@) == alert_views(v@.take(i as int)),
        decreases v@.len() - i,
    {
        let ghost before = r@;
        r.push(v[i].duplicate());
        proof {
            assert(alert_views(r@) =~= alert_views(before).push(v@[i as int]@));
            assert(alert_views(v@.take(i + 1)) =~= alert_views(v@.take(i as int)).push(v@[i as int]@));
        }
        i = i + 1;
    }
    assert(v@.take(v@.len() as int) =~= v@);
    r
}

/// Counters of the detection engine.
#[derive(Debug, Clone, Copy, PartialEq, Eq, Structural)]
pub struct DetectionStats {
    pub total_events: u64,
    pub alerts_generated: u64,
    pub false_positives: u64,
    pub true_positives: u64,
    pub detection_latency_us: u64,
}

impl Default for DetectionStats {
    /// All counters at zero.
    fn default() -> (s: Self)
        ensures
            s == (DetectionStats {
                total_events: 0,
                alerts_generated: 0,
                false_positives: 0,
                true_positives: 0,
                detection_latency_us: 0,
            }),
    {
        DetectionStats { total_events: 0, alerts_generated: 0, false_positives: 0, true_positives: 0, detection_latency_us: 0 }
    }
}

impl DetectionStats {
    /// The share of confirmed alerts that were true positives, in
    /// hundredths of a percent, rounded down; 0 before any confirmation.
    pub fn accuracy_hundredths_percent(&self) -> (r: u128)
        ensures
            r == (if self.true_positives + self.false_positives == 0 {
                0
            } else {
                (self.true_positives * 10000) / (self.true_positives + self.false_positives)
            }),
    {
        let total: u128 = self.true_positives as u128 + self.false_positives as u128;
        if total == 0 {
            0
        } else {
            self.true_positives as u128 * 10000 / total
        }
    }
}

/// An observed event: its metrics and fields by name, and an anomaly score
/// in thousandths when a model scored it.
pub struct ThreatEvent {
    pub event_id: String,
    pub event_type: String,
    pub user_id: Option<String>,
    pub source_ip: Option<String>,
    pub resource: Option<String>,
    pub action: Option<String>,
    pub metrics: Vec<(String, u64)>,
    pub fields: Vec<(String, String)>,
    pub anomaly_score_per_mille: Option<u64>,
    pub timestamp_ms: u64,
}

/// What went wrong in detection.
pub enum ThreatDetectionError {
    RuleMatchFailed(String),
    AlertSendFailed(String),
    ModelLoadFailed(String),
    ParseError(String),
}

impl ThreatDetectionError {
    /// The error's message.
    pub fn message(&self) -> (m: String)
        ensures
            m@ == (match self {
                ThreatDetectionError::RuleMatchFailed(s) => "规则匹配失败："@ + s@,
                ThreatDetectionError::AlertSendFailed(s) => "告警发送失败："@ + s@,
                ThreatDetectionError::ModelLoadFailed(s) => "模型加载失败："@ + s@,
                ThreatDetectionError::ParseError(s) => "数据解析失败："@ + s@,
            }),
    {
        match self {
            ThreatDetectionError::RuleMatchFailed(s) => cat("规则匹配失败：", s.as_str()),
            ThreatDetectionError::AlertSendFailed(s) => cat("告警发送失败：", s.as_str()),
            ThreatDetectionError::ModelLoadFailed(s) => cat("模型加载失败：", s.as_str()),
            ThreatDetectionError::ParseError(s) => cat("数据解析失败：", s.as_str()),
        }
    }
}

/// The value stored under the first entry named `k`.
pub open spec fn lookup<V>(m: Seq<(Seq<char>, V)>, k: Seq<char>) -> Option<V>
    decreases m.len(),
{
    if m.len() == 0 {
        None
    } else if m[0].0 == k {
        Some(m[0].1)
    } else {
        lookup(m.drop_first(), k)
    }
}

/// `a op b`.
pub open spec fn compare(op: CompareOp, a: u64, b: u64) -> bool {
    match op {
        CompareOp::GreaterThan => a > b,
        CompareOp::LessThan => a < b,
        CompareOp::Equal => a == b,
        CompareOp::GreaterThanOrEqual => a >= b,
        CompareOp::LessThanOrEqual => a <= b,
    }
}

/// The event carries a field or a metric named `k`.
pub open spec fn has_signal(metrics: Seq<(Seq<char>, u64)>, fields: Seq<(Seq<char>, Seq<char>)>, k: Seq<char>) -> bool {
    lookup(fields, k) is Some || lookup(metrics, k) is Some
}

/// Whether a condition holds for an event with these metrics and fields.
/// An anomaly condition always holds; the score check is separate.
pub open spec fn condition_holds(
    c: ConditionView,
    metrics: Seq<(Seq<char>, u64)>,
    fields: Seq<(Seq<char>, Seq<char>)>,
) -> bool {
    match c {
        ConditionView::Threshold { metric, op, value } => match lookup(metrics, metric) {
            Some(v) => compare(op, v, value),
            None => false,
        },
        ConditionView::Pattern { pattern, field } => match lookup(fields, field) {
            Some(t) => wildcard_match(t, pattern),
            None => false,
        },
        ConditionView::Anomaly { .. } => true,
        ConditionView::Composite { rules, logic } => match logic {
            LogicOp::And => forall|i: int| 0 <= i < rules.len() ==> has_signal(metrics, fields, #[trigger] rules[i]),
            LogicOp::Or => exists|i: int| 0 <= i < rules.len() && has_signal(metrics, fields, #[trigger] rules[i]),
        },
    }
}

proof fn lemma_composite(
    names: Seq<Seq<char>>,
    mv: Seq<(Seq<char>, u64)>,
    fv: Seq<(Seq<char>, Seq<char>)>,
    all: bool,
    any: bool,
)
    requires
        all == forall|j: int| 0 <= j < names.len() ==> has_signal(mv, fv, #[trigger] names[j]),
        any == exists|j: int| 0 <= j < names.len() && has_signal(mv, fv, #[trigger] names[j]),
    ensures
        condition_holds(ConditionView::Composite { rules: names, logic: LogicOp::And }, mv, fv) == all,
        condition_holds(ConditionView::Composite { rules: names, logic: LogicOp::Or }, mv, fv) == any,
{
    let c = ConditionView::Composite { rules: names, logic: LogicOp::And };
    assert(c matches ConditionView::Composite { rules, logic } && rules == names && logic == LogicOp::And);
    assert(condition_holds(c, mv, fv) == (forall|i: int| 0 <= i < names.len() ==> has_signal(mv, fv, #[trigger] names[i])));
    let d = ConditionView::Composite { rules: names, logic: LogicOp::Or };
    assert(d matches ConditionView::Composite { rules, logic } && rules == names && logic == LogicOp::Or);
    assert(condition_holds(d, mv, fv) == (exists|i: int| 0 <= i < names.len() && has_signal(mv, fv, #[trigger] names[i])));
}

/// The rules that fire for an event, in order.
pub open spec fn fired(rules: Seq<RuleView>, metrics: Seq<(Seq<char>, u64)>, fields: Seq<(Seq<char>, Seq<char>)>) -> Seq<
    RuleView,
>
    decreases rules.len(),
{
    if rules.len() == 0 {
        Seq::empty()
    } else {
        let prev = fired(rules.drop_last(), metrics, fields);
        if condition_holds(rules.last().condition, metrics, fields) {
            prev.push(rules.last())
        } else {
            prev
        }
    }
}

/// The alert a fired rule raises: the rule's id, severity, name and actions,
/// and the event's fields as context.
pub open spec fn rule_alert(a: AlertView, r: RuleView, fields: Seq<(Seq<char>, Seq<char>)>) -> bool {
    &&& a.rule_id == r.id
    &&& a.severity == r.severity
    &&& a.title == r.name
    &&& a.details == "Detected by rule: "@ + r.name
    &&& a.context == fields
    &&& a.actions == r.actions
}

/// A score in thousandths written as a decimal number, as `f64` prints
/// it: no trailing zeros, and no point for a whole number.
pub open spec fn per_mille_text(p: nat) -> Seq<char> {
    let whole = decimal(p / 1000);
    let f = p % 1000;
    if f == 0 {
        whole
    } else if f % 100 == 0 {
        whole + "."@ + seq![crate::text::digit_char(f / 100)]
    } else if f % 10 == 0 {
        whole + "."@ + seq![crate::text::digit_char(f / 100), crate::text::digit_char((f / 10) % 10)]
    } else {
        whole + "."@ + seq![
            crate::text::digit_char(f / 100),
            crate::text::digit_char((f / 10) % 10),
            crate::text::digit_char(f % 10),
        ]
    }
}

/// The anomaly check fires on a score above 0.8.
pub open spec fn anomaly_fires(score: Option<u64>) -> bool {
    score matches Some(s) && s > 800
}

/// The alert the anomaly check raises.
pub open spec fn anomaly_alert(a: AlertView, score: u64, fields: Seq<(Seq<char>, Seq<char>)>) -> bool {
    &&& a.rule_id == "ANOMALY-001"@
    &&& a.severity == Severity::High
    &&& a.title == "Anomaly Detected"@
    &&& a.details == "Anomaly score: "@ + per_mille_text(score as nat)
    &&& a.context == fields
    &&& a.actions.len() == 0
}

} // verus!

verus! {

proof fn lemma_lookup_skip<V>(m: Seq<(Seq<char>, V)>, k: Seq<char>, i: int)
    requires
        0 <= i < m.len(),
        m[i].0 != k,
    ensures
        lookup(m.subrange(i, m.len() as int), k) == lookup(m.subrange(i + 1, m.len() as int), k),
{
    assert(m.subrange(i, m.len() as int).drop_first() =~= m.subrange(i + 1, m.len() as int));
}

fn metric_value(m: &Vec<(String, u64)>, k: &str) -> (r: Option<u64>)
    ensures
        r == lookup(metric_views(m@), k@),
{
    let ghost mv = metric_views(m@);
    assert(mv.subrange(0, mv.len() as int) =~= mv);
    let mut i: usize = 0;
    while i < m.len()
        invariant
            i <= m@.len(),
            mv == metric_views(m@),
            lookup(mv, k@) == lookup(mv.subrange(i as int, mv.len() as int), k@),
        decreases m@.len() - i,
    {
        if str_eq(m[i].0.as_str(), k) {
            assert(mv.subrange(i as int, mv.len() as int)[0] == mv[i as int]);
            return Some(m[i].1);
        }
        proof {
            lemma_lookup_skip(mv, k@, i as int);
        }
        i = i + 1;
    }
    assert(mv.subrange(i as int, mv.len() as int).len() == 0);
    None
}

fn field_position(m: &Vec<(String, String)>, k: &str) -> (r: Option<usize>)
    ensures
        match r {
            Some(i) => i < m@.len() && lookup(pair_views(m@), k@) == Some(m@[i as int].1@),
            None => lookup(pair_views(m@), k@) is None,
        },
{
    let ghost fv = pair_views(m@);
    assert(fv.subrange(0, fv.len() as int) =~= fv);
    let mut i: usize = 0;
    while i < m.len()
        invariant
            i <= m@.len(),
            fv == pair_views(m@),
            lookup(fv, k@) == lookup(fv.subrange(i as int, fv.len() as int), k@),
        decreases m@.len() - i,
    {
        if str_eq(m[i].0.as_str(), k) {
            assert(fv.subrange(i as int, fv.len() as int)[0] == fv[i as int]);
            return Some(i);
        }
        proof {
            lemma_lookup_skip(fv, k@, i as int);
        }
        i = i + 1;
    }
    assert(fv.subrange(i as int, fv.len() as int).len() == 0);
    None
}

fn has_signal_exec(e: &ThreatEvent, k: &str) -> (r: bool)
    ensures
        r == has_signal(metric_views(e.metrics@), pair_views(e.fields@), k@),
{
    field_position(&e.fields, k).is_some() || metric_value(&e.metrics, k).is_some()
}

fn compare_exec(op: CompareOp, a: u64, b: u64) -> (r: bool)
    ensures
        r == compare(op, a, b),
{
    match op {
        CompareOp::GreaterThan => a > b,
        CompareOp::LessThan => a < b,
        CompareOp::Equal => a == b,
        CompareOp::GreaterThanOrEqual => a >= b,
        CompareOp::LessThanOrEqual => a <= b,
    }
}

fn digit(d: u64) -> (c: char)
    requires
        d < 10,
    ensures
        c == crate::text::digit_char(d as nat),
{
    let b = d as u8;
    (48 + b) as char
}

/// A score in thousandths written as `f64` prints the score.
pub fn per_mille_string(p: u64) -> (r: String)
    ensures
        r@ == per_mille_text(p as nat),
{
    let whole = decimal_string(p / 1000);
    let f = p % 1000;
    if f == 0 {
        return whole;
    }
    let mut r = cat(whole.as_str(), ".");
    crate::text::push_char(&mut r, digit(f / 100));
    if f % 100 != 0 {
        crate::text::push_char(&mut r, digit((f / 10) % 10));
        if f % 10 != 0 {
            crate::text::push_char(&mut r, digit(f % 10));
        }
    }
    r
}

/// The rules, checked in the order they were added.
pub struct RuleEngine {
    pub rules: Vec<DetectionRule>,
}

impl RuleEngine {
    /// An engine without rules.
    pub fn new() -> (e: Self)
        ensures
            e.rules@.len() == 0,
    {
        RuleEngine { rules: Vec::new() }
    }

    /// Appends a rule.
    pub fn add_rule(&mut self, rule: DetectionRule)
        ensures
            rule_views(final(self).rules@) == rule_views(old(self).rules@).push(rule@),
    {
        let ghost before = self.rules@;
        let ghost rv = rule@;
        self.rules.push(rule);
        assert(rule_views(self.rules@) =~= rule_views(before).push(rv));
    }

    /// Whether a rule's condition holds for the event.
    pub fn match_rule(&self, rule: &DetectionRule, event: &ThreatEvent) -> (r: bool)
        ensures
            r == condition_holds(rule.condition@, metric_views(event.metrics@), pair_views(event.fields@)),
    {
        match &rule.condition {
            RuleCondition::Threshold { metric, op, value } => {
                let r = match metric_value(&event.metrics, metric.as_str()) {
                    Some(v) => compare_exec(*op, v, *value),
                    None => false,
                };
                assert(r == condition_holds(rule.condition@, metric_views(event.metrics@), pair_views(event.fields@)));
                r
            },
            RuleCondition::Pattern { pattern, field } => match field_position(&event.fields, field.as_str()) {
                Some(i) => {
                    let r = matches_pattern(event.fields[i].1.as_str(), pattern.as_str());
                    assert(r == condition_holds(rule.condition@, metric_views(event.metrics@), pair_views(event.fields@)));
                    r
                },
                None => false,
            },
            RuleCondition::Anomaly { .. } => true,
            RuleCondition::Composite { rules, logic } => {
                let ghost names = text_views(rules@);
                let ghost mv = metric_views(event.metrics@);
                let ghost fv = pair_views(event.fields@);
                let mut all = true;
                let mut any = false;
                let mut i: usize = 0;
                while i < rules.len()
                    invariant
                        i <= rules@.len(),
                        names == text_views(rules@),
                        mv == metric_views(event.metrics@),
                        fv == pair_views(event.fields@),
                        all == forall|j: int| 0 <= j < i ==> has_signal(mv, fv, #[trigger] names[j]),
                        any == exists|j: int| 0 <= j < i && has_signal(mv, fv, #[trigger] names[j]),
                    decreases rules@.len() - i,
                {
                    let h = has_signal_exec(event, rules[i].as_str());
                    assert(names[i as int] == rules@[i as int]@);
                    all = all && h;
                    any = any || h;
                    i = i + 1;
                }
                assert(names.len() == rules@.len());
                let r = match logic {
                    LogicOp::And => all,
                    LogicOp::Or => any,
                };
                assert(rule.condition@ == (ConditionView::Composite { rules: names, logic: *logic }));
                assert(i as int == names.len());
                assert(all == forall|j: int| 0 <= j < names.len() ==> has_signal(mv, fv, #[trigger] names[j]));
                assert(any == exists|j: int| 0 <= j < names.len() && has_signal(mv, fv, #[trigger] names[j]));
                proof {
                    lemma_composite(names, mv, fv, all, any);
                }
                r
            },
        }
    }

    fn create_alert(&self, rule: &DetectionRule, event: &ThreatEvent) -> (a: Alert)
        ensures
            rule_alert(a@, rule@, pair_views(event.fields@)),
    {
        Alert {
            rule_id: rule.id.clone(),
            severity: rule.severity,
            title: rule.name.clone(),
            details: cat("Detected by rule: ", rule.name.as_str()),
            context: copy_pairs(&event.fields),
            actions: copy_actions(&rule.actions),
            timestamp: now_rfc3339(),
        }
    }

    /// One alert for each rule that fires, in rule order.
    pub fn evaluate(&self, event: &ThreatEvent) -> (r: Result<Vec<Alert>, ThreatDetectionError>)
        ensures
            r matches Ok(alerts) && ({
                let f = fired(rule_views(self.rules@), metric_views(event.metrics@), pair_views(event.fields@));
                &&& alerts@.len() == f.len()
                &&& forall|i: int| 0 <= i < f.len() ==> rule_alert(#[trigger] alerts@[i]@, f[i], pair_views(event.fields@))
            }),
    {
        let ghost rv = rule_views(self.rules@);
        let ghost mv = metric_views(event.metrics@);
        let ghost fv = pair_views(event.fields@);
        let mut alerts: Vec<Alert> = Vec::new();
        let mut i: usize = 0;
        while i < self.rules.len()
            invariant
                i <= self.rules@.len(),
                rv == rule_views(self.rules@),
                mv == metric_views(event.metrics@),
                fv == pair_views(event.fields@),
                alerts@.len() == fired(rv.take(i as int), mv, fv).len(),
                forall|j: int|
                    0 <= j < alerts@.len() ==> rule_alert(#[trigger] alerts@[j]@, fired(rv.take(i as int), mv, fv)[j], fv),
            decreases self.rules@.len() - i,
        {
            let rule = &self.rules[i];
            proof {
                assert(rv.take(i + 1).drop_last() =~= rv.take(i as int));
                assert(rv.take(i + 1).last() == rule@);
            }
            if self.match_rule(rule, event) {
                let a = self.create_alert(rule, event);
                alerts.push(a);
            }
            i = i + 1;
        }
        assert(rv.take(self.rules@.len() as int) =~= rv);
        Ok(alerts)
    }
}

/// The anomaly check on an event's score.
pub struct AnomalyDetector {}

impl AnomalyDetector {
    pub fn new() -> (d: Self) {
        AnomalyDetector {}
    }

    /// An alert when the event's anomaly score exceeds 0.8, else none.
    pub fn detect(&self, event: &ThreatEvent) -> (r: Result<Vec<Alert>, ThreatDetectionError>)
        ensures
            r matches Ok(alerts) && (if anomaly_fires(event.anomaly_score_per_mille) {
                alerts@.len() == 1 && anomaly_alert(
                    alerts@[0]@,
                    event.anomaly_score_per_mille->0,
                    pair_views(event.fields@),
                )
            } else {
                alerts@.len() == 0
            }),
    {
        let mut alerts: Vec<Alert> = Vec::new();
        match event.anomaly_score_per_mille {
            Some(score) => {
                if score > 800 {
                    let text = per_mille_string(score);
                    alerts.push(
                        Alert {
                            rule_id: owned("ANOMALY-001"),
                            severity: Severity::High,
                            title: owned("Anomaly Detected"),
                            details: cat("Anomaly score: ", text.as_str()),
                            context: copy_pairs(&event.fields),
                            actions: Vec::new(),
                            timestamp: now_rfc3339(),
                        },
                    );
                }
            },
            None => {},
        }
        Ok(alerts)
    }
}

/// Keeps every alert sent.
pub struct AlertManager {
    pub alerts: Vec<Alert>,
    pub aggregation_enabled: bool,
}

impl AlertManager {
    /// A manager with no alerts, aggregation on.
    pub fn new() -> (m: Self)
        ensures
            m.alerts@.len() == 0,
            m.aggregation_enabled,
    {
        AlertManager { alerts: Vec::new(), aggregation_enabled: true }
    }

    /// Records an alert.
    pub fn send(&mut self, alert: &Alert) -> (r: Result<(), ThreatDetectionError>)
        ensures
            r is Ok,
            alert_views(final(self).alerts@) == alert_views(old(self).alerts@).push(alert@),
            final(self).aggregation_enabled == old(self).aggregation_enabled,
    {
        let ghost before = self.alerts@;
        self.alerts.push(alert.duplicate());
        assert(alert_views(self.alerts@) =~= alert_views(before).push(alert@));
        Ok(())
    }

    /// Copies of the alerts sent so far.
    pub fn get_alerts(&self) -> (r: Vec<Alert>)
        ensures
            alert_views(r@) == alert_views(self.alerts@),
    {
        copy_alerts(&self.alerts)
    }
}

} // verus!

verus! {

/// The standard rule set: abnormal access, privilege abuse, data leak,
/// service anomaly and configuration tampering, three rules each.
pub open spec fn standard_rules() -> Seq<RuleView> {
    seq![
        RuleView {
            id: "THREAT-ACCESS-001"@,
            name: "Single IP High Frequency Access"@,
            category: ThreatCategory::AbnormalAccess,
            severity: Severity::High,
            condition: ConditionView::Threshold { metric: "requests_per_ip"@, op: CompareOp::GreaterThan, value: 1000 },
            window_secs: 60,
            threshold: 1000,
            actions: seq![AlertActionView::Notify { channel: "slack-security"@ }, AlertActionView::RateLimit { duration_secs: 300, limit: 100 }],
        },
        RuleView {
            id: "THREAT-ACCESS-002"@,
            name: "Off-Hours Access"@,
            category: ThreatCategory::AbnormalAccess,
            severity: Severity::Medium,
            condition: ConditionView::Composite { rules: seq!["is_off_hours"@, "is_sensitive_operation"@], logic: LogicOp::And },
            window_secs: 300,
            threshold: 1,
            actions: seq![AlertActionView::Notify { channel: "slack-security"@ }],
        },
        RuleView {
            id: "THREAT-ACCESS-003"@,
            name: "Geographic Anomaly"@,
            category: ThreatCategory::AbnormalAccess,
            severity: Severity::High,
            condition: ConditionView::Anomaly { model: "geo_anomaly_v1"@, score_threshold_per_mille: 850 },
            window_secs: 60,
            threshold: 1,
            actions: seq![AlertActionView::Notify { channel: "slack-security"@ }, AlertActionView::Block { duration_secs: 900 }],
        },
        RuleView {
            id: "THREAT-PRIV-001"@,
            name: "Privilege Escalation Attempt"@,
            category: ThreatCategory::PrivilegeAbuse,
            severity: Severity::Critical,
            condition: ConditionView::Pattern { pattern: "authorization_denied.*role.*admin"@, field: "opa_decision.reason"@ },
            window_secs: 300,
            threshold: 3,
            actions: seq![AlertActionView::Notify { channel: "slack-security"@ }, AlertActionView::Block { duration_secs: 1800 }],
        },
        RuleView {
            id: "THREAT-PRIV-002"@,
            name: "Unauthorized Access"@,
            category: ThreatCategory::PrivilegeAbuse,
            severity: Severity::High,
            condition: ConditionView::Composite { rules: seq!["row_level_check_failed"@, "resource_owner_mismatch"@], logic: LogicOp::Or },
            window_secs: 60,
            threshold: 1,
            actions: seq![AlertActionView::Notify { channel: "slack-security"@ }, AlertActionView::Block { duration_secs: 900 }],
        },
        RuleView {
            id: "THREAT-PRIV-003"@,
            name: "Privilege Accumulation"@,
            category: ThreatCategory::PrivilegeAbuse,
            severity: Severity::Medium,
            condition: ConditionView::Threshold { metric: "role_changes"@, op: CompareOp::GreaterThan, value: 3 },
            window_secs: 3600,
            threshold: 3,
            actions: seq![AlertActionView::Notify { channel: "slack-security"@ }, AlertActionView::Escalate { to: "security-oncall"@ }],
        },
        RuleView {
            id: "THREAT-LEAK-001"@,
            name: "Bulk Data Export"@,
            category: ThreatCategory::DataLeak,
            severity: Severity::Critical,
            condition: ConditionView::Threshold { metric: "data_export_volume"@, op: CompareOp::GreaterThan, value: 104857600 },
            window_secs: 600,
            threshold: 1,
            actions: seq![AlertActionView::Notify { channel: "slack-security"@ }, AlertActionView::Block { duration_secs: 3600 }],
        },
        RuleView {
            id: "THREAT-LEAK-002"@,
            name: "Sensitive Data Access"@,
            category: ThreatCategory::DataLeak,
            severity: Severity::High,
            condition: ConditionView::Composite { rules: seq!["data_sensitivity:confidential"@, "user_clearance:insufficient"@], logic: LogicOp::And },
            window_secs: 60,
            threshold: 1,
            actions: seq![AlertActionView::Notify { channel: "slack-security"@ }, AlertActionView::Block { duration_secs: 1800 }],
        },
        RuleView {
            id: "THREAT-LEAK-003"@,
            name: "Abnormal Download Pattern"@,
            category: ThreatCategory::DataLeak,
            severity: Severity::High,
            condition: ConditionView::Anomaly { model: "download_pattern_v1"@, score_threshold_per_mille: 800 },
            window_secs: 300,
            threshold: 1,
            actions: seq![AlertActionView::Notify { channel: "slack-security"@ }, AlertActionView::RateLimit { duration_secs: 3600, limit: 10 }],
        },
        RuleView {
            id: "THREAT-SVC-001"@,
            name: "Abnormal Service Call"@,
            category: ThreatCategory::ServiceAnomaly,
            severity: Severity::High,
            condition: ConditionView::Pattern { pattern: "service_call_not_in_allowlist"@, field: "service_mesh.telemetry"@ },
            window_secs: 60,
            threshold: 1,
            actions: seq![AlertActionView::Notify { channel: "slack-sre"@ }, AlertActionView::Block { duration_secs: 300 }],
        },
        RuleView {
            id: "THREAT-SVC-002"@,
            name: "API Abuse"@,
            category: ThreatCategory::ServiceAnomaly,
            severity: Severity::Medium,
            condition: ConditionView::Composite { rules: seq!["expensive_operation_frequency>100/min"@, "parameter_enumeration_detected"@], logic: LogicOp::Or },
            window_secs: 60,
            threshold: 1,
            actions: seq![AlertActionView::Notify { channel: "slack-security"@ }, AlertActionView::RateLimit { duration_secs: 600, limit: 10 }],
        },
        RuleView {
            id: "THREAT-SVC-003"@,
            name: "Resource Exhaustion Attack"@,
            category: ThreatCategory::ServiceAnomaly,
            severity: Severity::Critical,
            condition: ConditionView::Threshold { metric: "resource_utilization"@, op: CompareOp::GreaterThan, value: 90 },
            window_secs: 300,
            threshold: 1,
            actions: seq![AlertActionView::Notify { channel: "slack-sre"@ }, AlertActionView::Escalate { to: "sre-oncall"@ }, AlertActionView::Quarantine { resource: "affected_service"@ }],
        },
        RuleView {
            id: "THREAT-CONFIG-001"@,
            name: "Critical Configuration Change"@,
            category: ThreatCategory::ConfigTampering,
            severity: Severity::High,
            condition: ConditionView::Pattern { pattern: "config_change"@, field: "audit_log.event_type"@ },
            window_secs: 60,
            threshold: 1,
            actions: seq![AlertActionView::Notify { channel: "slack-security"@ }, AlertActionView::Escalate { to: "security-oncall"@ }],
        },
        RuleView {
            id: "THREAT-CONFIG-002"@,
            name: "Policy Bypass Attempt"@,
            category: ThreatCategory::ConfigTampering,
            severity: Severity::Critical,
            condition: ConditionView::Composite { rules: seq!["security_gate_disabled"@, "opa_policy_modified_without_approval"@, "audit_log_tampered"@], logic: LogicOp::Or },
            window_secs: 60,
            threshold: 1,
            actions: seq![AlertActionView::Notify { channel: "slack-security"@ }, AlertActionView::Block { duration_secs: u64::MAX }, AlertActionView::Escalate { to: "security-oncall"@ }],
        },
        RuleView {
            id: "THREAT-CONFIG-003"@,
            name: "Audit Log Tampering"@,
            category: ThreatCategory::ConfigTampering,
            severity: Severity::Critical,
            condition: ConditionView::Anomaly { model: "audit_integrity_v1"@, score_threshold_per_mille: 900 },
            window_secs: 60,
            threshold: 1,
            actions: seq![AlertActionView::Notify { channel: "slack-security"@ }, AlertActionView::Escalate { to: "security-oncall"@ }],
        },
    ]
}

fn notify(channel: &str) -> (a: AlertAction)
    ensures
        a@ == (AlertActionView::Notify { channel: channel@ }),
{
    AlertAction::Notify { channel: owned(channel) }
}

fn actions1(a: AlertAction) -> (v: Vec<AlertAction>)
    ensures
        action_views(v@) == seq![a@],
{
    let ghost x = a@;
    let v = vec![a];
    assert(action_views(v@) =~= seq![x]);
    v
}

fn actions2(a: AlertAction, b: AlertAction) -> (v: Vec<AlertAction>)
    ensures
        action_views(v@) == seq![a@, b@],
{
    let ghost x = a@;
    let ghost y = b@;
    let v = vec![a, b];
    assert(action_views(v@) =~= seq![x, y]);
    v
}

fn actions3(a: AlertAction, b: AlertAction, c: AlertAction) -> (v: Vec<AlertAction>)
    ensures
        action_views(v@) == seq![a@, b@, c@],
{
    let ghost x = a@;
    let ghost y = b@;
    let ghost z = c@;
    let v = vec![a, b, c];
    assert(action_views(v@) =~= seq![x, y, z]);
    v
}

fn threshold_condition(metric: &str, op: CompareOp, value: u64) -> (c: RuleCondition)
    ensures
        c@ == (ConditionView::Threshold { metric: metric@, op, value }),
{
    RuleCondition::Threshold { metric: owned(metric), op, value }
}

fn pattern_condition(pat: &str, field: &str) -> (c: RuleCondition)
    ensures
        c@ == (ConditionView::Pattern { pattern: pat@, field: field@ }),
{
    RuleCondition::Pattern { pattern: owned(pat), field: owned(field) }
}

fn anomaly_condition(model: &str, score_threshold_per_mille: u64) -> (c: RuleCondition)
    ensures
        c@ == (ConditionView::Anomaly { model: model@, score_threshold_per_mille }),
{
    RuleCondition::Anomaly { model: owned(model), score_threshold_per_mille }
}

fn composite2(a: &str, b: &str, logic: LogicOp) -> (c: RuleCondition)
    ensures
        c@ == (ConditionView::Composite { rules: seq![a@, b@], logic }),
{
    let v = vec![owned(a), owned(b)];
    assert(text_views(v@) =~= seq![a@, b@]);
    RuleCondition::Composite { rules: v, logic }
}

fn composite3(a: &str, b: &str, c: &str, logic: LogicOp) -> (r: RuleCondition)
    ensures
        r@ == (ConditionView::Composite { rules: seq![a@, b@, c@], logic }),
{
    let v = vec![owned(a), owned(b), owned(c)];
    assert(text_views(v@) =~= seq![a@, b@, c@]);
    RuleCondition::Composite { rules: v, logic }
}

fn rule(
    id: &str,
    name: &str,
    category: ThreatCategory,
    severity: Severity,
    condition: RuleCondition,
    window_secs: u64,
    threshold: u32,
    actions: Vec<AlertAction>,
) -> (r: DetectionRule)
    ensures
        r@ == (RuleView {
            id: id@,
            name: name@,
            category,
            severity,
            condition: condition@,
            window_secs,
            threshold,
            actions: action_views(actions@),
        }),
{
    DetectionRule { id: owned(id), name: owned(name), category, severity, condition, window_secs, threshold, actions }
}

fn push_rule(v: &mut Vec<DetectionRule>, r: DetectionRule, Ghost(table): Ghost<Seq<RuleView>>)
    requires
        old(v)@.len() < table.len(),
        rule_views(old(v)@) == table.take(old(v)@.len() as int),
        r@ == table[old(v)@.len() as int],
    ensures
        rule_views(final(v)@) == table.take(final(v)@.len() as int),
        final(v)@.len() == old(v)@.len() + 1,
{
    let ghost before = v@;
    let ghost rv = r@;
    v.push(r);
    assert(rule_views(v@) =~= rule_views(before).push(rv));
    assert(table.take(v@.len() as int) =~= table.take(before.len() as int).push(rv));
}

/// The standard rule set.
pub fn standard_rule_set() -> (v: Vec<DetectionRule>)
    ensures
        rule_views(v@) == standard_rules(),
{
    let ghost table = standard_rules();
    let mut v: Vec<DetectionRule> = Vec::new();
    assert(rule_views(v@) =~= table.take(0));
    push_rule(
        &mut v,
        rule("THREAT-ACCESS-001", "Single IP High Frequency Access", ThreatCategory::AbnormalAccess, Severity::High, threshold_condition("requests_per_ip", CompareOp::GreaterThan, 1000), 60, 1000, actions2(notify("slack-security"), AlertAction::RateLimit { duration_secs: 300, limit: 100 })),
        Ghost(table),
    );
    push_rule(
        &mut v,
        rule("THREAT-ACCESS-002", "Off-Hours Access", ThreatCategory::AbnormalAccess, Severity::Medium, composite2("is_off_hours", "is_sensitive_operation", LogicOp::And), 300, 1, actions1(notify("slack-security"))),
        Ghost(table),
    );
    push_rule(
        &mut v,
        rule("THREAT-ACCESS-003", "Geographic Anomaly", ThreatCategory::AbnormalAccess, Severity::High, anomaly_condition("geo_anomaly_v1", 850), 60, 1, actions2(notify("slack-security"), AlertAction::Block { duration_secs: 900 })),
        Ghost(table),
    );
    push_rule(
        &mut v,
        rule("THREAT-PRIV-001", "Privilege Escalation Attempt", ThreatCategory::PrivilegeAbuse, Severity::Critical, pattern_condition("authorization_denied.*role.*admin", "opa_decision.reason"), 300, 3, actions2(notify("slack-security"), AlertAction::Block { duration_secs: 1800 })),
        Ghost(table),
    );
    push_rule(
        &mut v,
        rule("THREAT-PRIV-002", "Unauthorized Access", ThreatCategory::PrivilegeAbuse, Severity::High, composite2("row_level_check_failed", "resource_owner_mismatch", LogicOp::Or), 60, 1, actions2(notify("slack-security"), AlertAction::Block { duration_secs: 900 })),
        Ghost(table),
    );
    push_rule(
        &mut v,
        rule("THREAT-PRIV-003", "Privilege Accumulation", ThreatCategory::PrivilegeAbuse, Severity::Medium, threshold_condition("role_changes", CompareOp::GreaterThan, 3), 3600, 3, actions2(notify("slack-security"), AlertAction::Escalate { to: owned("security-oncall") })),
        Ghost(table),
    );
    push_rule(
        &mut v,
        rule("THREAT-LEAK-001", "Bulk Data Export", ThreatCategory::DataLeak, Severity::Critical, threshold_condition("data_export_volume", CompareOp::GreaterThan, 104857600), 600, 1, actions2(notify("slack-security"), AlertAction::Block { duration_secs: 3600 })),
        Ghost(table),
    );
    push_rule(
        &mut v,
        rule("THREAT-LEAK-002", "Sensitive Data Access", ThreatCategory::DataLeak, Severity::High, composite2("data_sensitivity:confidential", "user_clearance:insufficient", LogicOp::And), 60, 1, actions2(notify("slack-security"), AlertAction::Block { duration_secs: 1800 })),
        Ghost(table),
    );
    push_rule(
        &mut v,
        rule("THREAT-LEAK-003", "Abnormal Download Pattern", ThreatCategory::DataLeak, Severity::High, anomaly_condition("download_pattern_v1", 800), 300, 1, actions2(notify("slack-security"), AlertAction::RateLimit { duration_secs: 3600, limit: 10 })),
        Ghost(table),
    );
    push_rule(
        &mut v,
        rule("THREAT-SVC-001", "Abnormal Service Call", ThreatCategory::ServiceAnomaly, Severity::High, pattern_condition("service_call_not_in_allowlist", "service_mesh.telemetry"), 60, 1, actions2(notify("slack-sre"), AlertAction::Block { duration_secs: 300 })),
        Ghost(table),
    );
    push_rule(
        &mut v,
        rule("THREAT-SVC-002", "API Abuse", ThreatCategory::ServiceAnomaly, Severity::Medium, composite2("expensive_operation_frequency>100/min", "parameter_enumeration_detected", LogicOp::Or), 60, 1, actions2(notify("slack-security"), AlertAction::RateLimit { duration_secs: 600, limit: 10 })),
        Ghost(table),
    );
    push_rule(
        &mut v,
        rule("THREAT-SVC-003", "Resource Exhaustion Attack", ThreatCategory::ServiceAnomaly, Severity::Critical, threshold_condition("resource_utilization", CompareOp::GreaterThan, 90), 300, 1, actions3(notify("slack-sre"), AlertAction::Escalate { to: owned("sre-oncall") }, AlertAction::Quarantine { resource: owned("affected_service") })),
        Ghost(table),
    );
    push_rule(
        &mut v,
        rule("THREAT-CONFIG-001", "Critical Configuration Change", ThreatCategory::ConfigTampering, Severity::High, pattern_condition("config_change", "audit_log.event_type"), 60, 1, actions2(notify("slack-security"), AlertAction::Escalate { to: owned("security-oncall") })),
        Ghost(table),
    );
    push_rule(
        &mut v,
        rule("THREAT-CONFIG-002", "Policy Bypass Attempt", ThreatCategory::ConfigTampering, Severity::Critical, composite3("security_gate_disabled", "opa_policy_modified_without_approval", "audit_log_tampered", LogicOp::Or), 60, 1, actions3(notify("slack-security"), AlertAction::Block { duration_secs: u64::MAX }, AlertAction::Escalate { to: owned("security-oncall") })),
        Ghost(table),
    );
    push_rule(
        &mut v,
        rule("THREAT-CONFIG-003", "Audit Log Tampering", ThreatCategory::ConfigTampering, Severity::Critical, anomaly_condition("audit_integrity_v1", 900), 60, 1, actions2(notify("slack-security"), AlertAction::Escalate { to: owned("security-oncall") })),
        Ghost(table),
    );
    assert(table.take(15) =~= table);
    v
}

} // verus!

verus! {

proof fn lemma_fired_len(rules: Seq<RuleView>, mv: Seq<(Seq<char>, u64)>, fv: Seq<(Seq<char>, Seq<char>)>)
    ensures
        fired(rules, mv, fv).len() <= rules.len(),
    decreases rules.len(),
{
    if rules.len() > 0 {
        lemma_fired_len(rules.drop_last(), mv, fv);
    }
}

/// Rules, the anomaly check and the alerts they raised, with counters.
pub struct ThreatDetectionEngine {
    pub rule_engine: RuleEngine,
    pub anomaly_detector: AnomalyDetector,
    pub alert_manager: AlertManager,
    pub stats: DetectionStats,
}

impl ThreatDetectionEngine {
    /// An engine without rules, alerts or counts, with alert aggregation on.
    pub fn new() -> (e: Self)
        ensures
            e.rule_engine.rules@.len() == 0,
            e.alert_manager.alerts@.len() == 0,
            e.alert_manager.aggregation_enabled,
            e.stats == (DetectionStats {
                total_events: 0,
                alerts_generated: 0,
                false_positives: 0,
                true_positives: 0,
                detection_latency_us: 0,
            }),
    {
        ThreatDetectionEngine {
            rule_engine: RuleEngine::new(),
            anomaly_detector: AnomalyDetector::new(),
            alert_manager: AlertManager::new(),
            stats: DetectionStats::default(),
        }
    }

    /// Loads the standard rule set after the rules already present.
    pub fn initialize(&mut self) -> (r: Result<(), ThreatDetectionError>)
        ensures
            r is Ok,
            rule_views(final(self).rule_engine.rules@) == rule_views(old(self).rule_engine.rules@) + standard_rules(),
            final(self).stats == old(self).stats,
            alert_views(final(self).alert_manager.alerts@) == alert_views(old(self).alert_manager.alerts@),
    {
        let mut set = standard_rule_set();
        let ghost before = self.rule_engine.rules@;
        let ghost all = set@;
        assert(all.subrange(0, all.len() as int) =~= all);
        assert(rule_views(all.take(0)) =~= Seq::<RuleView>::empty());
        assert(rule_views(before) + Seq::<RuleView>::empty() =~= rule_views(before));
        while set.len() > 0
            invariant
                set@.len() <= all.len(),
                set@ == all.subrange(all.len() - set@.len(), all.len() as int),
                rule_views(self.rule_engine.rules@) == rule_views(before) + rule_views(all.take(all.len() - set@.len())),
                self.stats == old(self).stats,
                alert_views(self.alert_manager.alerts@) == alert_views(old(self).alert_manager.alerts@),
            decreases set@.len(),
        {
            let ghost k = all.len() - set@.len();
            let r = set.remove(0);
            assert(r == all[k]);
            assert(set@ =~= all.subrange(all.len() - set@.len(), all.len() as int));
            self.rule_engine.add_rule(r);
            assert(all.take(k + 1) =~= all.take(k).push(all[k]));
            assert(rule_views(all.take(k + 1)) =~= rule_views(all.take(k)).push(all[k]@));
        }
        assert(all.take(all.len() as int) =~= all);
        Ok(())
    }

    /// Checks an event against every rule and the anomaly check, counts it,
    /// and records the alerts raised: first one per fired rule, in rule
    /// order, then the anomaly alert if the score is above 0.8.
    pub fn detect(&mut self, event: &ThreatEvent) -> (r: Result<Vec<Alert>, ThreatDetectionError>)
        requires
            old(self).stats.total_events < u64::MAX,
            old(self).stats.alerts_generated + old(self).rule_engine.rules@.len() + 1 <= u64::MAX,
        ensures
            rule_views(final(self).rule_engine.rules@) == rule_views(old(self).rule_engine.rules@),
            r matches Ok(alerts) && ({
                let fv = pair_views(event.fields@);
                let f = fired(rule_views(old(self).rule_engine.rules@), metric_views(event.metrics@), fv);
                let extra: int = if anomaly_fires(event.anomaly_score_per_mille) { 1 } else { 0 };
                &&& alerts@.len() == f.len() + extra
                &&& forall|i: int| 0 <= i < f.len() ==> rule_alert(#[trigger] alerts@[i]@, f[i], fv)
                &&& anomaly_fires(event.anomaly_score_per_mille) ==> anomaly_alert(
                    alerts@[f.len() as int]@,
                    event.anomaly_score_per_mille->0,
                    fv,
                )
                &&& final(self).stats.total_events == old(self).stats.total_events + 1
                &&& final(self).stats.alerts_generated == old(self).stats.alerts_generated + alerts@.len()
                &&& final(self).stats.false_positives == old(self).stats.false_positives
                &&& final(self).stats.true_positives == old(self).stats.true_positives
                &&& alert_views(final(self).alert_manager.alerts@) == alert_views(old(self).alert_manager.alerts@)
                    + alert_views(alerts@)
            }),
    {
        let start = unix_now_micros();
        self.stats.total_events = self.stats.total_events + 1;
        let ghost fv = pair_views(event.fields@);
        let ghost f = fired(rule_views(self.rule_engine.rules@), metric_views(event.metrics@), fv);
        proof {
            lemma_fired_len(rule_views(self.rule_engine.rules@), metric_views(event.metrics@), fv);
        }
        let mut alerts = match self.rule_engine.evaluate(event) {
            Ok(a) => a,
            Err(e) => {
                return Err(e);
            },
        };
        let anomaly = match self.anomaly_detector.detect(event) {
            Ok(a) => a,
            Err(e) => {
                return Err(e);
            },
        };
        let ghost k = alerts@.len();
        let ghost before = alerts@;
        let mut anomaly = anomaly;
        if anomaly.len() > 0 {
            let a = anomaly.remove(0);
            alerts.push(a);
        }
        assert(forall|i: int| 0 <= i < k ==> alerts@[i] == before[i]);
        self.stats.alerts_generated = self.stats.alerts_generated + alerts.len() as u64;
        let end = unix_now_micros();
        self.stats.detection_latency_us = end.saturating_sub(start);
        let mut i: usize = 0;
        let ghost sent0 = alert_views(self.alert_manager.alerts@);
        let ghost st1 = self.stats;
        while i < alerts.len()
            invariant
                i <= alerts@.len(),
                self.stats == st1,
                self.rule_engine.rules@ == old(self).rule_engine.rules@,
                alert_views(self.alert_manager.alerts@) == sent0 + alert_views(alerts@.take(i as int)),
            decreases alerts@.len() - i,
        {
            let _ = self.alert_manager.send(&alerts[i]);
            assert(alert_views(alerts@.take(i + 1)) =~= alert_views(alerts@.take(i as int)).push(alerts@[i as int]@));
            i = i + 1;
        }
        assert(alerts@.take(alerts@.len() as int) =~= alerts@);
        Ok(alerts)
    }

    /// The counters.
    pub fn get_stats(&self) -> (s: DetectionStats)
        ensures
            s == self.stats,
    {
        self.stats
    }

    /// The rules, in the order they are checked.
    pub fn get_rules(&self) -> (r: &[DetectionRule])
        ensures
            r@ == self.rule_engine.rules@,
    {
        self.rule_engine.rules.as_slice()
    }
}

} // verus!
