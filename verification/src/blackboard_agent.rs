//! The blackboard agent: normalizes the artifacts that roles publish, records
//! them on the shared blackboard with an audit trail, and records the
//! engine's dispatch decisions.

use vstd::prelude::*;
use crate::json::{Json, JsonNumber, JsonView, NumberView, json_view, jget, jset, jstr, settable, law_get_after_set, lemma_set_set};
use crate::model::{
    Role, RoleState, role_key, role_state_key, role_from_key, str_member_of, BlackboardState, BlackboardEvent,
    EventView, opt_json,
};
use crate::engine::{role_index, role_slot, ROLE_COUNT};
use crate::text::{
    all_whitespace, char_is_whitespace, cat, contains, decimal, decimal_string, eq_ignore_ascii_case, eq_ignore_case, is_blank, lower,
    owned, parse_u64, parse_u64_spec, seq_contains, to_ascii_lowercase, trim, trim_spec,
};

verus! {

/// The role a lowercased, trimmed role description names, by the words it
/// contains, tried in this order: product, development, QA, security, operations.
pub open spec fn role_by_words(n: Seq<char>) -> Option<Role> {
    if seq_contains(n, "pm"@) || seq_contains(n, "product"@) {
        Some(Role::PM)
    } else if seq_contains(n, "dev"@) || seq_contains(n, "architect"@) || seq_contains(n, "engineer"@) {
        Some(Role::Dev)
    } else if seq_contains(n, "qa"@) || seq_contains(n, "test"@) {
        Some(Role::QA)
    } else if seq_contains(n, "security"@) || seq_contains(n, "sec"@) {
        Some(Role::Security)
    } else if seq_contains(n, "sre"@) || seq_contains(n, "ops"@) || seq_contains(n, "devops"@) {
        Some(Role::SRE)
    } else {
        None
    }
}

/// The role a free-form `next_role` value names: an exact key first, then by
/// the words of its trimmed, lowercased text.
pub open spec fn parse_next_role(raw: Seq<char>) -> Option<Role> {
    match role_from_key(raw) {
        Some(r) => Some(r),
        None => role_by_words(lower(trim_spec(raw))),
    }
}

/// Reads a role from a free-form `next_role` value.
pub fn parse_next_role_flexible(raw: &str) -> (r: Option<Role>)
    ensures
        r == parse_next_role(raw@),
{
    if let Some(role) = Role::from_key(raw) {
        return Some(role);
    }
    let trimmed = trim(raw);
    let normalized = to_ascii_lowercase(trimmed.as_str());
    let n = normalized.as_str();
    if contains(n, "pm") || contains(n, "product") {
        return Some(Role::PM);
    }
    if contains(n, "dev") || contains(n, "architect") || contains(n, "engineer") {
        return Some(Role::Dev);
    }
    if contains(n, "qa") || contains(n, "test") {
        return Some(Role::QA);
    }
    if contains(n, "security") || contains(n, "sec") {
        return Some(Role::Security);
    }
    if contains(n, "sre") || contains(n, "ops") || contains(n, "devops") {
        return Some(Role::SRE);
    }
    None
}

} // verus!

verus! {

/// A member that is a string with something besides whitespace.
pub open spec fn nonblank_str(v: Option<JsonView>) -> bool {
    jstr(v) matches Some(s) && !all_whitespace(s)
}

/// A member that is a non-empty array of strings, none of them blank.
pub open spec fn nonblank_list(v: Option<JsonView>) -> bool {
    match v {
        Some(JsonView::Array(a)) => a.len() > 0 && forall|i: int|
            0 <= i < a.len() ==> (#[trigger] a[i] matches JsonView::Str(s) && !all_whitespace(s)),
        _ => false,
    }
}

/// A non-negative integer value.
pub open spec fn num(n: u64) -> JsonView {
    JsonView::Number(NumberView::PosInt(n))
}

/// The decision an artifact carries once normalized: `approved` when it says
/// so in any ASCII case, `rejected` otherwise.
pub open spec fn normalized_decision(d: Option<Seq<char>>) -> Seq<char> {
    match d {
        Some(s) => if eq_ignore_case(s, "approved"@) { "approved"@ } else { "rejected"@ },
        None => "rejected"@,
    }
}

/// The `next_role` an artifact carries once normalized: the key of the role
/// its text names, or null.
pub open spec fn next_role_value(v: Option<Seq<char>>) -> JsonView {
    match v {
        Some(t) => match parse_next_role(t) {
            Some(r) => JsonView::Str(role_key(r)),
            None => JsonView::Null,
        },
        None => JsonView::Null,
    }
}

/// The evidence given to an artifact that has none.
pub open spec fn default_evidence() -> JsonView {
    JsonView::Object(
        seq![
            ("metric_value"@, num(0)),
            ("window"@, JsonView::Str("unknown"@)),
            ("sample_size"@, num(0)),
            ("source"@, JsonView::Str("normalizer-default"@)),
        ],
    )
}

/// The sample size an evidence value states: a non-negative integer, or a
/// string holding one (surrounding whitespace allowed); 0 otherwise.
pub open spec fn sample_number(v: Option<JsonView>) -> u64 {
    match v {
        Some(JsonView::Number(NumberView::PosInt(n))) => n,
        Some(JsonView::Str(s)) => match parse_u64_spec(trim_spec(s)) {
            Some(n) => n,
            None => 0,
        },
        _ => 0,
    }
}

/// An evidence object with a non-blank window and source (`unknown` in place
/// of a missing or blank one), an integer sample size, and a metric value.
pub open spec fn fixed_evidence(e: JsonView) -> JsonView {
    let e1 = if nonblank_str(jget(e, "window"@)) { e } else { jset(e, "window"@, JsonView::Str("unknown"@)) };
    let e2 = if nonblank_str(jget(e1, "source"@)) { e1 } else { jset(e1, "source"@, JsonView::Str("unknown"@)) };
    let e3 = jset(e2, "sample_size"@, num(sample_number(jget(e2, "sample_size"@))));
    if jget(e3, "metric_value"@) is None { jset(e3, "metric_value"@, num(0)) } else { e3 }
}

/// `v` with its evidence normalized: an evidence object is fixed up, anything
/// else is replaced by the default evidence.
pub open spec fn with_evidence(v: JsonView) -> JsonView {
    match jget(v, "evidence"@) {
        Some(e) => if e is Object {
            jset(v, "evidence"@, fixed_evidence(e))
        } else {
            jset(v, "evidence"@, default_evidence())
        },
        None => jset(v, "evidence"@, default_evidence()),
    }
}

/// The evidence references given to an artifact that has none.
pub open spec fn default_refs() -> JsonView {
    JsonView::Object(
        seq![
            ("skill_evidence"@, JsonView::Str("normalizer-default:skill-evidence"@)),
            ("risk_evidence"@, JsonView::Str("normalizer-default:risk-evidence"@)),
            ("artifact_version"@, JsonView::Str("normalized-v1"@)),
        ],
    )
}

/// Evidence references with non-blank skill and risk evidence.
pub open spec fn fixed_refs(r: JsonView) -> JsonView {
    let r1 = if nonblank_str(jget(r, "skill_evidence"@)) {
        r
    } else {
        jset(r, "skill_evidence"@, JsonView::Str("normalizer-default:skill-evidence"@))
    };
    if nonblank_str(jget(r1, "risk_evidence"@)) {
        r1
    } else {
        jset(r1, "risk_evidence"@, JsonView::Str("normalizer-default:risk-evidence"@))
    }
}

/// `v` with non-empty skill and risk-control lists (a role baseline in place
/// of an invalid one) and complete evidence references.
pub open spec fn with_skill_fields(v: JsonView, role: Role) -> JsonView {
    let key = lower(role_key(role));
    let v1 = if nonblank_list(jget(v, "skills_applied"@)) {
        v
    } else {
        jset(v, "skills_applied"@, JsonView::Array(seq![JsonView::Str(key + "_baseline_skill"@)]))
    };
    let v2 = if nonblank_list(jget(v1, "risk_controls"@)) {
        v1
    } else {
        jset(v1, "risk_controls"@, JsonView::Array(seq![JsonView::Str(key + "_risk_control_baseline"@)]))
    };
    match jget(v2, "evidence_refs"@) {
        Some(r) => if r is Object {
            jset(v2, "evidence_refs"@, fixed_refs(r))
        } else {
            jset(v2, "evidence_refs"@, default_refs())
        },
        None => jset(v2, "evidence_refs"@, default_refs()),
    }
}

/// An artifact as a role publishes it once normalized: it names the role and
/// the release, its decision is `approved` or `rejected`, it has a summary, its
/// `next_role` is a role key or null, and its evidence, skills, risk controls
/// and evidence references are complete.
pub open spec fn normalized_artifact(v: JsonView, release_id: Seq<char>, role: Role) -> JsonView {
    let v1 = jset(v, "role"@, JsonView::Str(role_key(role)));
    let v2 = jset(v1, "release_id"@, JsonView::Str(release_id));
    let v3 = jset(v2, "decision"@, JsonView::Str(normalized_decision(jstr(jget(v2, "decision"@)))));
    let v4 = if jstr(jget(v3, "summary"@)) is Some {
        v3
    } else {
        jset(v3, "summary"@, JsonView::Str("no summary provided"@))
    };
    let v5 = jset(v4, "next_role"@, next_role_value(jstr(jget(v4, "next_role"@))));
    with_skill_fields(with_evidence(v5), role)
}

fn text(s: &str) -> (j: Json)
    ensures
        json_view(j) == JsonView::Str(s@),
{
    Json::Str(s.to_string())
}

fn string_value(s: String) -> (j: Json)
    ensures
        json_view(j) == JsonView::Str(s@),
{
    Json::Str(s)
}

fn number(n: u64) -> (j: Json)
    ensures
        json_view(j) == num(n),
{
    Json::Number(JsonNumber::PosInt(n))
}

fn member_is_nonblank_str(j: &Json, k: &str) -> (b: bool)
    ensures
        b == nonblank_str(jget(json_view(*j), k@)),
{
    match j.get(k) {
        Some(x) => match x.as_str() {
            Some(s) => !is_blank(s),
            None => false,
        },
        None => false,
    }
}

fn member_is_nonblank_list(j: &Json, k: &str) -> (b: bool)
    ensures
        b == nonblank_list(jget(json_view(*j), k@)),
{
    match j.get(k) {
        Some(x) => match x {
            Json::Array(items) => {
                let ghost a = json_view(*x)->Array_0;
                assert(a.len() == items@.len());
                if items.len() == 0 {
                    return false;
                }
                let mut i: usize = 0;
                while i < items.len()
                    invariant
                        a == json_view(*x)->Array_0,
                        json_view(*x) == JsonView::Array(a),
                        *x == Json::Array(*items),
                        jget(json_view(*j), k@) == Some(json_view(*x)),
                        a.len() == items@.len(),
                        i <= items@.len(),
                        forall|l: int| 0 <= l < i ==> (#[trigger] a[l] matches JsonView::Str(s) && !all_whitespace(s)),
                    decreases items@.len() - i,
                {
                    assert(a[i as int] == json_view(items@[i as int]));
                    let ok = match items[i].as_str() {
                        Some(s) => !is_blank(s),
                        None => false,
                    };
                    if !ok {
                        assert(!(a[i as int] matches JsonView::Str(s) && !all_whitespace(s)));
                        return false;
                    }
                    i = i + 1;
                }
                true
            },
            _ => false,
        },
        None => false,
    }
}

fn default_evidence_value() -> (j: Json)
    ensures
        json_view(j) == default_evidence(),
{
    let mut m: Vec<(String, Json)> = Vec::new();
    m.push(("metric_value".to_string(), number(0)));
    m.push(("window".to_string(), text("unknown")));
    m.push(("sample_size".to_string(), number(0)));
    m.push(("source".to_string(), text("normalizer-default")));
    let j = Json::Object(m);
    assert(json_view(j)->Object_0 =~= default_evidence()->Object_0);
    j
}

fn default_refs_value() -> (j: Json)
    ensures
        json_view(j) == default_refs(),
{
    let mut m: Vec<(String, Json)> = Vec::new();
    m.push(("skill_evidence".to_string(), text("normalizer-default:skill-evidence")));
    m.push(("risk_evidence".to_string(), text("normalizer-default:risk-evidence")));
    m.push(("artifact_version".to_string(), text("normalized-v1")));
    let j = Json::Object(m);
    assert(json_view(j)->Object_0 =~= default_refs()->Object_0);
    j
}

fn sample_size_of(e: &Json) -> (n: u64)
    ensures
        n == sample_number(jget(json_view(*e), "sample_size"@)),
{
    match e.get("sample_size") {
        Some(x) => match x {
            Json::Number(JsonNumber::PosInt(n)) => *n,
            Json::Str(s) => {
                let t = trim(s.as_str());
                match parse_u64(t.as_str()) {
                    Some(n) => n,
                    None => 0,
                }
            },
            _ => 0,
        },
        None => 0,
    }
}

fn fix_evidence(e: Json) -> (r: Json)
    requires
        json_view(e) is Object,
    ensures
        json_view(r) == fixed_evidence(json_view(e)),
{
    let e = if member_is_nonblank_str(&e, "window") { e } else { e.with_member("window", text("unknown")) };
    let e = if member_is_nonblank_str(&e, "source") { e } else { e.with_member("source", text("unknown")) };
    let n = sample_size_of(&e);
    let e = e.with_member("sample_size", number(n));
    if e.get("metric_value").is_none() {
        e.with_member("metric_value", number(0))
    } else {
        e
    }
}

fn normalize_evidence(artifact: Json) -> (r: Json)
    requires
        settable(json_view(artifact)),
    ensures
        json_view(r) == with_evidence(json_view(artifact)),
        json_view(r) is Object,
{
    let ghost v = json_view(artifact);
    let (a, ev) = artifact.take_member("evidence");
    proof {
        if jget(v, "evidence"@) is Some {
            lemma_set_set(v, "evidence"@, JsonView::Null, fixed_evidence(jget(v, "evidence"@)->0));
            lemma_set_set(v, "evidence"@, JsonView::Null, default_evidence());
        }
    }
    match ev {
        Some(e) => {
            let is_object = match &e {
                Json::Object(_) => true,
                _ => false,
            };
            if is_object {
                a.with_member("evidence", fix_evidence(e))
            } else {
                a.with_member("evidence", default_evidence_value())
            }
        },
        None => a.with_member("evidence", default_evidence_value()),
    }
}

fn fix_refs(r: Json) -> (out: Json)
    requires
        json_view(r) is Object,
    ensures
        json_view(out) == fixed_refs(json_view(r)),
{
    let r = if member_is_nonblank_str(&r, "skill_evidence") {
        r
    } else {
        r.with_member("skill_evidence", text("normalizer-default:skill-evidence"))
    };
    if member_is_nonblank_str(&r, "risk_evidence") {
        r
    } else {
        r.with_member("risk_evidence", text("normalizer-default:risk-evidence"))
    }
}

fn normalize_skill_execution_fields(artifact: Json, source_role: &Role) -> (r: Json)
    requires
        settable(json_view(artifact)),
    ensures
        json_view(r) == with_skill_fields(json_view(artifact), *source_role),
{
    let key = to_ascii_lowercase(source_role.as_key());
    assert(key@ =~= lower(role_key(*source_role)));
    let default_skill = cat(key.as_str(), "_baseline_skill");
    let default_risk = cat(key.as_str(), "_risk_control_baseline");
    let a = if member_is_nonblank_list(&artifact, "skills_applied") {
        artifact
    } else {
        let mut items: Vec<Json> = Vec::new();
        items.push(Json::Str(default_skill));
        assert(json_view(items@[0]) == JsonView::Str(lower(role_key(*source_role)) + "_baseline_skill"@));
        let list = Json::Array(items);
        assert(json_view(list)->Array_0 =~= seq![JsonView::Str(lower(role_key(*source_role)) + "_baseline_skill"@)]);
        artifact.with_member("skills_applied", list)
    };
    let a = if member_is_nonblank_list(&a, "risk_controls") {
        a
    } else {
        let mut items: Vec<Json> = Vec::new();
        items.push(Json::Str(default_risk));
        assert(json_view(items@[0]) == JsonView::Str(lower(role_key(*source_role)) + "_risk_control_baseline"@));
        let list = Json::Array(items);
        assert(json_view(list)->Array_0 =~= seq![
            JsonView::Str(lower(role_key(*source_role)) + "_risk_control_baseline"@),
        ]);
        a.with_member("risk_controls", list)
    };
    let ghost v2 = json_view(a);
    let (a, refs) = a.take_member("evidence_refs");
    proof {
        if jget(v2, "evidence_refs"@) is Some {
            lemma_set_set(v2, "evidence_refs"@, JsonView::Null, fixed_refs(jget(v2, "evidence_refs"@)->0));
            lemma_set_set(v2, "evidence_refs"@, JsonView::Null, default_refs());
        }
    }
    match refs {
        Some(r) => {
            let is_object = match &r {
                Json::Object(_) => true,
                _ => false,
            };
            if is_object {
                a.with_member("evidence_refs", fix_refs(r))
            } else {
                a.with_member("evidence_refs", default_refs_value())
            }
        },
        None => a.with_member("evidence_refs", default_refs_value()),
    }
}

/// Normalizes an artifact published by `source_role` for `release_id`; see
/// `normalized_artifact`. The artifact must be an object, or null, which
/// becomes one.
pub fn normalize_artifact(artifact: Json, release_id: &str, source_role: &Role) -> (r: Json)
    requires
        settable(json_view(artifact)),
    ensures
        json_view(r) == normalized_artifact(json_view(artifact), release_id@, *source_role),
{
    let a = artifact.with_member("role", text(source_role.as_key()));
    let a = a.with_member("release_id", text(release_id));
    let decision = str_member_of(&a, "decision");
    let approved = match &decision {
        Some(d) => eq_ignore_ascii_case(d.as_str(), "approved"),
        None => false,
    };
    let a = a.with_member("decision", text(if approved { "approved" } else { "rejected" }));
    let a = if str_member_of(&a, "summary").is_none() {
        a.with_member("summary", text("no summary provided"))
    } else {
        a
    };
    let next = match str_member_of(&a, "next_role") {
        Some(t) => match parse_next_role_flexible(t.as_str()) {
            Some(r) => text(r.as_key()),
            None => Json::Null,
        },
        None => Json::Null,
    };
    let a = a.with_member("next_role", next);
    let a = normalize_evidence(a);
    normalize_skill_execution_fields(a, source_role)
}

} // verus!

verus! {

/// What ingesting an artifact gives back: the normalized artifact, the
/// blackboard's own artifact about it, and the role it asks to go next.
pub struct BlackboardIngestResult {
    pub normalized_artifact: Json,
    pub blackboard_artifact: Json,
    pub next_role: Option<Role>,
}

/// A string, or null for nothing.
pub open spec fn opt_text(o: Option<Seq<char>>) -> JsonView {
    match o {
        Some(s) => JsonView::Str(s),
        None => JsonView::Null,
    }
}

/// The key of a role, or nothing.
pub open spec fn opt_role_key(o: Option<Role>) -> Option<Seq<char>> {
    match o {
        Some(r) => Some(role_key(r)),
        None => None,
    }
}

/// The role a normalized artifact asks to go next.
pub open spec fn routed_role(n: JsonView) -> Option<Role> {
    match jstr(jget(n, "next_role"@)) {
        Some(t) => parse_next_role(t),
        None => None,
    }
}

/// The audit record of an ingested artifact.
pub open spec fn ingest_audit(role: Role, release_id: Seq<char>) -> JsonView {
    JsonView::Object(
        seq![
            ("rule_id"@, JsonView::Str("blackboard.ingest.v1"@)),
            ("trigger"@, JsonView::Str("artifact_published"@)),
            ("source_role"@, JsonView::Str(role_key(role))),
            ("release_id"@, JsonView::Str(release_id)),
            ("normalized_fields"@, JsonView::Array(
                seq![
                    JsonView::Str("role"@),
                    JsonView::Str("release_id"@),
                    JsonView::Str("decision"@),
                    JsonView::Str("summary"@),
                    JsonView::Str("next_role"@),
                ],
            )),
        ],
    )
}

/// The blackboard's own artifact about an ingested one.
pub open spec fn blackboard_artifact_view(
    role: Role,
    release_id: Seq<char>,
    next: Option<Role>,
    version: u64,
    round: usize,
    event_count: nat,
    normalized: JsonView,
) -> JsonView {
    JsonView::Object(
        seq![
            ("role"@, JsonView::Str("Blackboard"@)),
            ("release_id"@, JsonView::Str(release_id)),
            ("decision"@, JsonView::Str("approved"@)),
            ("summary"@, JsonView::Str("blackboard merged artifact from "@ + role_key(role) + " and broadcast feedback"@)),
            ("next_role"@, opt_text(opt_role_key(next))),
            ("source_role"@, JsonView::Str(role_key(role))),
            ("blackboard_version"@, num(version)),
            ("event_type"@, JsonView::Str("artifact_published"@)),
            ("normalized"@, normalized),
            ("evidence"@, JsonView::Object(
                seq![
                    ("metric_value"@, num(version)),
                    ("window"@, JsonView::Str("round-"@ + decimal(round as nat))),
                    ("sample_size"@, num(event_count as u64)),
                    ("source"@, JsonView::Str("blackboard-agent"@)),
                ],
            )),
        ],
    )
}

fn str_array(items: &[&str]) -> (j: Json)
    ensures
        json_view(j) == JsonView::Array(Seq::new(items@.len(), |i: int| JsonView::Str(items@[i]@))),
{
    let mut v: Vec<Json> = Vec::new();
    let mut i: usize = 0;
    while i < items.len()
        invariant
            i <= items@.len(),
            v@.len() == i,
            forall|l: int| 0 <= l < i ==> json_view(#[trigger] v@[l]) == JsonView::Str(items@[l]@),
        decreases items@.len() - i,
    {
        v.push(text(items[i]));
        i = i + 1;
    }
    let j = Json::Array(v);
    assert(json_view(j)->Array_0 =~= Seq::new(items@.len(), |i: int| JsonView::Str(items@[i]@)));
    j
}

fn ingest_audit_value(role: &Role, release_id: &str) -> (j: Json)
    ensures
        json_view(j) == ingest_audit(*role, release_id@),
{
    let fields = str_array(&["role", "release_id", "decision", "summary", "next_role"]);
    assert(json_view(fields)->Array_0 =~= seq![
        JsonView::Str("role"@),
        JsonView::Str("release_id"@),
        JsonView::Str("decision"@),
        JsonView::Str("summary"@),
        JsonView::Str("next_role"@),
    ]);
    let mut m: Vec<(String, Json)> = Vec::new();
    m.push(("rule_id".to_string(), text("blackboard.ingest.v1")));
    m.push(("trigger".to_string(), text("artifact_published")));
    m.push(("source_role".to_string(), text(role.as_key())));
    m.push(("release_id".to_string(), text(release_id)));
    m.push(("normalized_fields".to_string(), fields));
    let j = Json::Object(m);
    assert(json_view(j)->Object_0 =~= ingest_audit(*role, release_id@)->Object_0);
    j
}

fn blackboard_artifact_value(
    role: &Role,
    release_id: &str,
    next: Option<Role>,
    version: u64,
    round: usize,
    event_count: usize,
    normalized: Json,
) -> (j: Json)
    ensures
        json_view(j) == blackboard_artifact_view(*role, release_id@, next, version, round, event_count as nat, json_view(normalized)),
{
    let a = cat("blackboard merged artifact from ", role.as_key());
    let summary = cat(a.as_str(), " and broadcast feedback");
    let round_text = decimal_string(round as u64);
    let window = cat("round-", round_text.as_str());
    assert(window@ == "round-"@ + decimal(round as nat));
    let next_value = match next {
        Some(r) => text(r.as_key()),
        None => Json::Null,
    };
    let mut e: Vec<(String, Json)> = Vec::new();
    e.push(("metric_value".to_string(), number(version)));
    e.push(("window".to_string(), string_value(window)));
    e.push(("sample_size".to_string(), number(event_count as u64)));
    e.push(("source".to_string(), text("blackboard-agent")));
    let evidence = Json::Object(e);
    let ghost evv = json_view(evidence);
    proof {
        assert(evv->Object_0 =~= seq![
            ("metric_value"@, num(version)),
            ("window"@, JsonView::Str("round-"@ + decimal(round as nat))),
            ("sample_size"@, num(event_count as u64)),
            ("source"@, JsonView::Str("blackboard-agent"@)),
        ]);
    }
    let ghost nv = json_view(normalized);
    let mut m: Vec<(String, Json)> = Vec::new();
    m.push(("role".to_string(), text("Blackboard")));
    m.push(("release_id".to_string(), text(release_id)));
    m.push(("decision".to_string(), text("approved")));
    m.push(("summary".to_string(), string_value(summary)));
    m.push(("next_role".to_string(), next_value));
    m.push(("source_role".to_string(), text(role.as_key())));
    m.push(("blackboard_version".to_string(), number(version)));
    m.push(("event_type".to_string(), text("artifact_published")));
    m.push(("normalized".to_string(), normalized));
    m.push(("evidence".to_string(), evidence));
    let j = Json::Object(m);
    proof {
        let target = blackboard_artifact_view(*role, release_id@, next, version, round, event_count as nat, nv);
        assert(json_view(j)->Object_0 =~= target->Object_0);
    }
    j
}

/// The blackboard after ingesting normalized artifact `n` of `role`.
pub open spec fn ingested(
    b0: crate::model::BlackboardView,
    b1: crate::model::BlackboardView,
    role: Role,
    round: usize,
    release_id: Seq<char>,
    n: JsonView,
) -> bool {
    &&& b1.version == b0.version + 1
    &&& b1.slots == b0.slots.update(role_index(role), Some(n))
    &&& b1.events == b0.events.push(
        EventView {
            id: b1.version,
            round,
            from: role_key(role),
            event_type: "artifact_published"@,
            decision: match jstr(jget(n, "decision"@)) {
                Some(d) => d,
                None => "rejected"@,
            },
            summary: match jstr(jget(n, "summary"@)) {
                Some(s) => s,
                None => Seq::empty(),
            },
            next_role: opt_role_key(routed_role(n)),
            audit: ingest_audit(role, release_id),
        },
    )
}

impl BlackboardAgent {
    /// Normalizes an artifact that `source_role` published in `round`, keeps it
    /// as the role's latest, logs an `artifact_published` event with its audit
    /// record, and builds the blackboard's own artifact about it.
    pub fn ingest(
        blackboard: &mut BlackboardState,
        release_id: &str,
        round: usize,
        source_role: &Role,
        raw_artifact: Json,
    ) -> (r: BlackboardIngestResult)
        requires
            settable(json_view(raw_artifact)),
            old(blackboard).version < u64::MAX,
            old(blackboard).slots@.len() == ROLE_COUNT,
            old(blackboard).events@.len() < usize::MAX,
        ensures
            json_view(r.normalized_artifact) == normalized_artifact(json_view(raw_artifact), release_id@, *source_role),
            r.next_role == routed_role(json_view(r.normalized_artifact)),
            ingested(old(blackboard)@, final(blackboard)@, *source_role, round, release_id@, json_view(r.normalized_artifact)),
            final(blackboard).slots@.len() == ROLE_COUNT,
            json_view(r.blackboard_artifact) == blackboard_artifact_view(
                *source_role,
                release_id@,
                r.next_role,
                final(blackboard).version,
                round,
                final(blackboard).events@.len(),
                json_view(r.normalized_artifact),
            ),
    {
        let normalized = normalize_artifact(raw_artifact, release_id, source_role);
        let decision = match str_member_of(&normalized, "decision") {
            Some(d) => d,
            None => owned("rejected"),
        };
        let summary = match str_member_of(&normalized, "summary") {
            Some(s) => s,
            None => String::new(),
        };
        let next_role = match str_member_of(&normalized, "next_role") {
            Some(t) => parse_next_role_flexible(t.as_str()),
            None => None,
        };
        blackboard.version = blackboard.version + 1;
        let ghost slots0 = blackboard.slots@;
        blackboard.slots.set(role_slot(*source_role), Some(normalized.duplicate()));
        proof {
            assert(blackboard@.slots =~= old(blackboard)@.slots.update(
                role_index(*source_role),
                Some(json_view(normalized)),
            ));
        }
        let next_key = match next_role {
            Some(r) => Some(r.as_key().to_string()),
            None => None,
        };
        let event = BlackboardEvent {
            id: blackboard.version,
            round,
            from: source_role.as_key().to_string(),
            event_type: owned("artifact_published"),
            decision,
            summary,
            next_role: next_key,
            audit: ingest_audit_value(source_role, release_id),
        };
        let ghost ev = event@;
        blackboard.events.push(event);
        proof {
            assert(blackboard@.events =~= old(blackboard)@.events.push(ev));
        }
        let count = blackboard.events.len();
        let blackboard_artifact = blackboard_artifact_value(
            source_role,
            release_id,
            next_role,
            blackboard.version,
            round,
            count,
            normalized.duplicate(),
        );
        BlackboardIngestResult { normalized_artifact: normalized, blackboard_artifact, next_role }
    }

    /// Logs the engine's decision to run `target` next, with its audit record.
    pub fn record_dispatch(blackboard: &mut BlackboardState, round: usize, target: &Role, reason: &str, audit: Json)
        requires
            old(blackboard).version < u64::MAX,
        ensures
            final(blackboard).version == old(blackboard).version + 1,
            final(blackboard)@.slots == old(blackboard)@.slots,
            final(blackboard).slots@.len() == old(blackboard).slots@.len(),
            final(blackboard)@.events == old(blackboard)@.events.push(
                EventView {
                    id: final(blackboard).version,
                    round,
                    from: "Engine"@,
                    event_type: "dispatch_decided"@,
                    decision: "scheduled"@,
                    summary: reason@,
                    next_role: Some(role_key(*target)),
                    audit: json_view(audit),
                },
            ),
    {
        blackboard.version = blackboard.version + 1;
        let event = BlackboardEvent {
            id: blackboard.version,
            round,
            from: owned("Engine"),
            event_type: owned("dispatch_decided"),
            decision: owned("scheduled"),
            summary: reason.to_string(),
            next_role: Some(target.as_key().to_string()),
            audit,
        };
        let ghost ev = event@;
        blackboard.events.push(event);
        proof {
            assert(blackboard@.events =~= old(blackboard)@.events.push(ev));
            assert(blackboard@.slots =~= old(blackboard)@.slots);
        }
    }
}

/// The agent that keeps the blackboard.
pub struct BlackboardAgent;


proof fn lemma_keep(v: JsonView, k: Seq<char>, x: JsonView, k2: Seq<char>)
    requires
        settable(v),
        k2 != k,
    ensures
        jget(jset(v, k, x), k2) == jget(v, k2),
        settable(jset(v, k, x)),
{
    law_get_after_set(v, k, x, k2);
}

proof fn lemma_put(v: JsonView, k: Seq<char>, x: JsonView)
    requires
        settable(v),
    ensures
        jget(jset(v, k, x), k) == Some(x),
        settable(jset(v, k, x)),
{
    law_get_after_set(v, k, x, k);
}

proof fn lemma_refs_complete(r: JsonView)
    requires
        r is Object,
    ensures
        nonblank_str(jget(fixed_refs(r), "skill_evidence"@)),
        nonblank_str(jget(fixed_refs(r), "risk_evidence"@)),
{
    reveal_strlit("skill_evidence");
    reveal_strlit("risk_evidence");
    reveal_strlit("normalizer-default:skill-evidence");
    reveal_strlit("normalizer-default:risk-evidence");
    let s1 = JsonView::Str("normalizer-default:skill-evidence"@);
    let s2 = JsonView::Str("normalizer-default:risk-evidence"@);
    assert(!all_whitespace("normalizer-default:skill-evidence"@)) by {
        assert(!char_is_whitespace("normalizer-default:skill-evidence"@[0]));
    }
    assert(!all_whitespace("normalizer-default:risk-evidence"@)) by {
        assert(!char_is_whitespace("normalizer-default:risk-evidence"@[0]));
    }
    let r1 = if nonblank_str(jget(r, "skill_evidence"@)) {
        r
    } else {
        lemma_put(r, "skill_evidence"@, s1);
        jset(r, "skill_evidence"@, s1)
    };
    assert(nonblank_str(jget(r1, "skill_evidence"@)));
    assert(settable(r1));
    if !nonblank_str(jget(r1, "risk_evidence"@)) {
        lemma_put(r1, "risk_evidence"@, s2);
        lemma_keep(r1, "risk_evidence"@, s2, "skill_evidence"@);
    }
}

/// A normalized artifact is complete whatever the agent sent (an object or
/// nothing): it names the publishing role and the release, its decision is
/// `approved` or `rejected`, it has a summary, its skills and risk controls
/// are non-empty lists of non-blank names, its evidence is an object, and its
/// evidence references give non-blank skill and risk evidence.
pub proof fn law_normalized_artifact_complete(v: JsonView, release_id: Seq<char>, role: Role)
    requires
        settable(v),
    ensures
        ({
            let n = normalized_artifact(v, release_id, role);
            &&& jget(n, "role"@) == Some(JsonView::Str(role_key(role)))
            &&& jget(n, "release_id"@) == Some(JsonView::Str(release_id))
            &&& (jstr(jget(n, "decision"@)) == Some("approved"@) || jstr(jget(n, "decision"@)) == Some("rejected"@))
            &&& jstr(jget(n, "summary"@)) is Some
            &&& nonblank_list(jget(n, "skills_applied"@))
            &&& nonblank_list(jget(n, "risk_controls"@))
            &&& (jget(n, "evidence"@) matches Some(e) && e is Object)
            &&& (jget(n, "evidence_refs"@) matches Some(r) && nonblank_str(jget(r, "skill_evidence"@)) && nonblank_str(
                jget(r, "risk_evidence"@),
            ))
        }),
{
    reveal_strlit("role");
    reveal_strlit("release_id");
    reveal_strlit("decision");
    reveal_strlit("summary");
    reveal_strlit("next_role");
    reveal_strlit("evidence");
    reveal_strlit("skills_applied");
    reveal_strlit("risk_controls");
    reveal_strlit("evidence_refs");
    reveal_strlit("approved");
    reveal_strlit("rejected");
    reveal_strlit("_baseline_skill");
    reveal_strlit("_risk_control_baseline");
    let kr = "role"@;
    let kid = "release_id"@;
    let kd = "decision"@;
    let ks = "summary"@;
    let kn = "next_role"@;
    let ke = "evidence"@;
    let kk = "skills_applied"@;
    let kc = "risk_controls"@;
    let kf = "evidence_refs"@;
    assert(kr.len() == 4 && kid.len() == 10 && kd.len() == 8 && ks.len() == 7 && kn.len() == 9 && ke.len() == 8
        && kk.len() == 14 && kc.len() == 13 && kf.len() == 13);
    assert(kd[0] != ke[0]);
    assert(kc[0] != kf[0]);
    assert(kr != kid && kr != kd && kr != ks && kr != kn && kr != ke && kr != kk && kr != kc && kr != kf);
    assert(kid != kd && kid != ks && kid != kn && kid != ke && kid != kk && kid != kc && kid != kf);
    assert(kd != ks && kd != kn && kd != ke && kd != kk && kd != kc && kd != kf);
    assert(ks != kn && ks != ke && ks != kk && ks != kc && ks != kf);
    assert(kn != ke && kn != kk && kn != kc && kn != kf);
    assert(ke != kk && ke != kc && ke != kf);
    assert(kk != kc && kk != kf);
    assert(kc != kf);

    let v1 = jset(v, kr, JsonView::Str(role_key(role)));
    lemma_put(v, kr, JsonView::Str(role_key(role)));
    let v2 = jset(v1, kid, JsonView::Str(release_id));
    lemma_put(v1, kid, JsonView::Str(release_id));
    lemma_keep(v1, kid, JsonView::Str(release_id), kr);
    let dec = normalized_decision(jstr(jget(v2, kd)));
    let v3 = jset(v2, kd, JsonView::Str(dec));
    lemma_put(v2, kd, JsonView::Str(dec));
    lemma_keep(v2, kd, JsonView::Str(dec), kr);
    lemma_keep(v2, kd, JsonView::Str(dec), kid);
    let v4 = if jstr(jget(v3, ks)) is Some {
        v3
    } else {
        lemma_put(v3, ks, JsonView::Str("no summary provided"@));
        lemma_keep(v3, ks, JsonView::Str("no summary provided"@), kr);
        lemma_keep(v3, ks, JsonView::Str("no summary provided"@), kid);
        lemma_keep(v3, ks, JsonView::Str("no summary provided"@), kd);
        jset(v3, ks, JsonView::Str("no summary provided"@))
    };
    assert(jget(v4, kr) == Some(JsonView::Str(role_key(role))));
    assert(jget(v4, kid) == Some(JsonView::Str(release_id)));
    assert(jget(v4, kd) == Some(JsonView::Str(dec)));
    assert(jstr(jget(v4, ks)) is Some);
    assert(settable(v4));
    let nr = next_role_value(jstr(jget(v4, kn)));
    let v5 = jset(v4, kn, nr);
    lemma_keep(v4, kn, nr, kr);
    lemma_keep(v4, kn, nr, kid);
    lemma_keep(v4, kn, nr, kd);
    lemma_keep(v4, kn, nr, ks);
    // evidence
    let ev = match jget(v5, ke) {
        Some(e) => if e is Object {
            fixed_evidence(e)
        } else {
            default_evidence()
        },
        None => default_evidence(),
    };
    let w = with_evidence(v5);
    assert(w == jset(v5, ke, ev));
    lemma_put(v5, ke, ev);
    lemma_keep(v5, ke, ev, kr);
    lemma_keep(v5, ke, ev, kid);
    lemma_keep(v5, ke, ev, kd);
    lemma_keep(v5, ke, ev, ks);
    assert(ev is Object) by {
        match jget(v5, ke) {
            Some(e) => if e is Object {
                lemma_fixed_evidence_object(e);
            },
            None => {},
        }
    }
    // skills, risk controls, refs
    let key = lower(role_key(role));
    let sk = JsonView::Array(seq![JsonView::Str(key + "_baseline_skill"@)]);
    let rc = JsonView::Array(seq![JsonView::Str(key + "_risk_control_baseline"@)]);
    assert(nonblank_list(Some(sk))) by {
        let t = key + "_baseline_skill"@;
        assert(t[t.len() - 1] == 'l');
        assert(!char_is_whitespace(t[t.len() - 1]));
    }
    assert(nonblank_list(Some(rc))) by {
        let t = key + "_risk_control_baseline"@;
        assert(t[t.len() - 1] == 'e');
        assert(!char_is_whitespace(t[t.len() - 1]));
    }
    let x1 = if nonblank_list(jget(w, kk)) {
        w
    } else {
        lemma_put(w, kk, sk);
        lemma_keep(w, kk, sk, kr);
        lemma_keep(w, kk, sk, kid);
        lemma_keep(w, kk, sk, kd);
        lemma_keep(w, kk, sk, ks);
        lemma_keep(w, kk, sk, ke);
        jset(w, kk, sk)
    };
    let x2 = if nonblank_list(jget(x1, kc)) {
        x1
    } else {
        lemma_put(x1, kc, rc);
        lemma_keep(x1, kc, rc, kr);
        lemma_keep(x1, kc, rc, kid);
        lemma_keep(x1, kc, rc, kd);
        lemma_keep(x1, kc, rc, ks);
        lemma_keep(x1, kc, rc, ke);
        lemma_keep(x1, kc, rc, kk);
        jset(x1, kc, rc)
    };
    assert(settable(x2));
    let refs = match jget(x2, kf) {
        Some(r) => if r is Object {
            fixed_refs(r)
        } else {
            default_refs()
        },
        None => default_refs(),
    };
    let n = with_skill_fields(w, role);
    assert(n == jset(x2, kf, refs));
    lemma_put(x2, kf, refs);
    lemma_keep(x2, kf, refs, kr);
    lemma_keep(x2, kf, refs, kid);
    lemma_keep(x2, kf, refs, kd);
    lemma_keep(x2, kf, refs, ks);
    lemma_keep(x2, kf, refs, ke);
    lemma_keep(x2, kf, refs, kk);
    lemma_keep(x2, kf, refs, kc);
    match jget(x2, kf) {
        Some(r) => if r is Object {
            lemma_refs_complete(r);
        } else {
            lemma_refs_complete(default_refs());
            assert(fixed_refs(default_refs()) == default_refs()) by {
                lemma_default_refs_fixed();
            }
        },
        None => {
            lemma_default_refs_fixed();
            lemma_refs_complete(default_refs());
        },
    }
    assert(dec == "approved"@ || dec == "rejected"@);
}

proof fn lemma_default_refs_fixed()
    ensures
        fixed_refs(default_refs()) == default_refs(),
{
    reveal_strlit("skill_evidence");
    reveal_strlit("risk_evidence");
    reveal_strlit("artifact_version");
    reveal_strlit("normalizer-default:skill-evidence");
    reveal_strlit("normalizer-default:risk-evidence");
    let m = default_refs()->Object_0;
    assert(jget(default_refs(), "skill_evidence"@) == Some(JsonView::Str("normalizer-default:skill-evidence"@))) by {
        assert(m[0].0 != m[1].0 || m[0].0 == "skill_evidence"@);
        crate::json::lemma_index_from_is(m, "skill_evidence"@, 0, 0);
    }
    assert(jget(default_refs(), "risk_evidence"@) == Some(JsonView::Str("normalizer-default:risk-evidence"@))) by {
        assert(m[0].0.len() == 14 && "risk_evidence"@.len() == 13);
        assert(m[0].0 != "risk_evidence"@);
        crate::json::lemma_index_from_is(m, "risk_evidence"@, 0, 1);
    }
    assert(!char_is_whitespace("normalizer-default:skill-evidence"@[0]));
    assert(!char_is_whitespace("normalizer-default:risk-evidence"@[0]));
}

proof fn lemma_fixed_evidence_object(e: JsonView)
    requires
        e is Object,
    ensures
        fixed_evidence(e) is Object,
{
    let e1 = if nonblank_str(jget(e, "window"@)) { e } else {
        law_get_after_set(e, "window"@, JsonView::Str("unknown"@), "window"@);
        jset(e, "window"@, JsonView::Str("unknown"@))
    };
    let e2 = if nonblank_str(jget(e1, "source"@)) { e1 } else {
        law_get_after_set(e1, "source"@, JsonView::Str("unknown"@), "source"@);
        jset(e1, "source"@, JsonView::Str("unknown"@))
    };
    let x = num(sample_number(jget(e2, "sample_size"@)));
    law_get_after_set(e2, "sample_size"@, x, "sample_size"@);
    let e3 = jset(e2, "sample_size"@, x);
    if jget(e3, "metric_value"@) is None {
        law_get_after_set(e3, "metric_value"@, num(0), "metric_value"@);
    }
}

} // verus!
