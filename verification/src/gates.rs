//! Release gates over the workflow context.

use vstd::prelude::*;
use crate::engine::{WorkflowContext, ContextView, role_index, ArtifactView};
use crate::error::EngineError;
use crate::model::{Role, RoleState, role_key, EventView, BlackboardEvent, audit_view_of, read_audit};
use crate::text::{cat, owned, str_eq, is_blank, all_whitespace, decimal, decimal_string, contains, seq_contains, to_ascii_lowercase, ascii_lower};

verus! {

/// The state of `r` in a context view; a role without an entry is idle.
pub open spec fn view_state(c: ContextView, r: Role) -> RoleState {
    match c.role_states[role_index(r)] {
        Some(s) => s,
        None => RoleState::Idle,
    }
}

/// The first of PM, Dev and QA that is not approved.
pub open spec fn first_unapproved(c: ContextView) -> Option<Role> {
    if view_state(c, Role::PM) != RoleState::Approved {
        Some(Role::PM)
    } else if view_state(c, Role::Dev) != RoleState::Approved {
        Some(Role::Dev)
    } else if view_state(c, Role::QA) != RoleState::Approved {
        Some(Role::QA)
    } else {
        None
    }
}

/// PM, Dev and QA must all be in the `Approved` state for this gate to pass.
/// When it does not pass, the role it reports is PM, Dev or QA, that role is
/// not in the `Approved` state, and the roles ahead of it in the order PM,
/// Dev, QA are.
pub proof fn law_pm_dev_qa_gate(c: ContextView)
    ensures
        first_unapproved(c) is None <==> (view_state(c, Role::PM) == RoleState::Approved && view_state(c, Role::Dev)
            == RoleState::Approved && view_state(c, Role::QA) == RoleState::Approved),
        first_unapproved(c) matches Some(r) ==> view_state(c, r) != RoleState::Approved && (r == Role::PM || r
            == Role::Dev || r == Role::QA),
        first_unapproved(c) == Some(Role::Dev) ==> view_state(c, Role::PM) == RoleState::Approved,
        first_unapproved(c) == Some(Role::QA) ==> view_state(c, Role::PM) == RoleState::Approved && view_state(c, Role::Dev)
            == RoleState::Approved,
{
}

/// Passes when PM, Dev and QA are all approved.
pub fn gate_pm_dev_qa_approved(ctx: &WorkflowContext) -> (r: Result<(), EngineError>)
    requires
        ctx.wf(),
    ensures
        r is Ok <==> first_unapproved(ctx@) is None,
        r is Ok <==> (view_state(ctx@, Role::PM) == RoleState::Approved && view_state(ctx@, Role::Dev)
            == RoleState::Approved && view_state(ctx@, Role::QA) == RoleState::Approved),
        first_unapproved(ctx@) matches Some(role) ==> (r matches Err(EngineError::GateFailed(m))
            && m@ == role_key(role) + " is not Approved"@),
{
    let roles = [Role::PM, Role::Dev, Role::QA];
    let mut i: usize = 0;
    while i < 3
        invariant
            ctx.wf(),
            i <= 3,
            roles@ == seq![Role::PM, Role::Dev, Role::QA],
            forall|j: int| 0 <= j < i ==> view_state(ctx@, #[trigger] roles@[j]) == RoleState::Approved,
        decreases 3 - i,
    {
        let role = roles[i];
        let state = ctx.role_states.get(role);
        if state != RoleState::Approved {
            assert(roles@[0] == Role::PM && roles@[1] == Role::Dev);
            return Err(EngineError::GateFailed(cat(role.as_key(), " is not Approved")));
        }
        i = i + 1;
    }
    assert(roles@[0] == Role::PM && roles@[1] == Role::Dev && roles@[2] == Role::QA);
    Ok(())
}

/// Some artifact of the list is named `name`.
pub open spec fn has_artifact_named(arts: Seq<ArtifactView>, name: Seq<char>) -> bool {
    exists|i: int| 0 <= i < arts.len() && arts[i].0 == name
}

/// Passes when Security approved or an `exception_approval` artifact was published.
pub fn gate_security_or_exception(ctx: &WorkflowContext) -> (r: Result<(), EngineError>)
    requires
        ctx.wf(),
    ensures
        r is Ok <==> (view_state(ctx@, Role::Security) == RoleState::Approved || has_artifact_named(
            ctx@.artifacts,
            "exception_approval"@,
        )),
        r is Err ==> (r matches Err(EngineError::GateFailed(m)) && m@
            == "Security not approved and exception_approval missing"@),
{
    let security_state = ctx.role_states.get(Role::Security);
    let mut has_exception = false;
    let mut i: usize = 0;
    while i < ctx.artifacts.len()
        invariant
            i <= ctx.artifacts@.len(),
            has_exception == exists|j: int| 0 <= j < i && ctx@.artifacts[j].0 == "exception_approval"@,
        decreases ctx.artifacts@.len() - i,
    {
        if str_eq(ctx.artifacts[i].name.as_str(), "exception_approval") {
            has_exception = true;
        }
        assert(ctx@.artifacts[i as int].0 == ctx.artifacts@[i as int].name@);
        i = i + 1;
    }
    if security_state == RoleState::Approved || has_exception {
        return Ok(());
    }
    Err(EngineError::GateFailed(owned("Security not approved and exception_approval missing")))
}

/// `e` records a dispatch decision.
pub open spec fn is_dispatch(e: EventView) -> bool {
    e.event_type == "dispatch_decided"@
}

/// `prefix` followed by the event id in decimal.
pub open spec fn with_id(prefix: Seq<char>, id: u64) -> Seq<char> {
    prefix + decimal(id as nat)
}

/// The first structural defect of a dispatch event's audit record, as the
/// gate reports it, or `None` when the record is complete.
pub open spec fn audit_problem(e: EventView, release_id: Seq<char>) -> Option<Seq<char>> {
    let a = audit_view_of(e.audit);
    if !a.is_object {
        Some(with_id("dispatch audit invalid: event_id="@, e.id) + " audit is not object"@)
    } else if a.rule_id is None {
        Some(with_id("dispatch audit missing rule_id: event_id="@, e.id))
    } else if all_whitespace(a.rule_id->0) {
        Some(with_id("dispatch audit empty rule_id: event_id="@, e.id))
    } else if a.trigger is None {
        Some(with_id("dispatch audit missing trigger: event_id="@, e.id))
    } else if a.trigger->0 != "dispatch_decided"@ {
        Some(with_id("dispatch audit trigger mismatch: event_id="@, e.id) + " trigger="@ + a.trigger->0)
    } else if a.selected_role is None {
        Some(with_id("dispatch audit missing selected_role: event_id="@, e.id))
    } else if all_whitespace(a.selected_role->0) {
        Some(with_id("dispatch audit empty selected_role: event_id="@, e.id))
    } else if a.route_source is None {
        Some(with_id("dispatch audit missing route_source: event_id="@, e.id))
    } else if all_whitespace(a.route_source->0) {
        Some(with_id("dispatch audit empty route_source: event_id="@, e.id))
    } else if a.candidates is None {
        Some(with_id("dispatch audit missing candidates: event_id="@, e.id))
    } else if !(a.candidates->0.has_artifact_next_role && a.candidates->0.has_fallback_next_role) {
        Some(with_id("dispatch audit candidates incomplete: event_id="@, e.id))
    } else if a.evidence_refs is None {
        Some(with_id("dispatch audit missing evidence_refs: event_id="@, e.id))
    } else if !a.evidence_refs->0.blackboard_event_id_is_number {
        Some(with_id("dispatch audit missing numeric blackboard_event_id: event_id="@, e.id))
    } else if !a.evidence_refs->0.artifact_type_is_string {
        Some(with_id("dispatch audit missing artifact_type: event_id="@, e.id))
    } else if a.release_id matches Some(rid) && rid != release_id {
        Some(with_id("dispatch audit release_id mismatch: event_id="@, e.id) + " expected="@ + release_id
            + " actual="@ + a.release_id->0)
    } else {
        None
    }
}

/// The defect of the first dispatch event at or after `i` whose audit is defective.
pub open spec fn first_audit_problem(evs: Seq<EventView>, release_id: Seq<char>, i: int) -> Option<Seq<char>>
    decreases evs.len() - i,
{
    if i < 0 || i >= evs.len() {
        None
    } else if is_dispatch(evs[i]) && audit_problem(evs[i], release_id) is Some {
        audit_problem(evs[i], release_id)
    } else {
        first_audit_problem(evs, release_id, i + 1)
    }
}

/// Some event of the log records a dispatch decision.
pub open spec fn has_dispatch(evs: Seq<EventView>) -> bool {
    exists|i: int| 0 <= i < evs.len() && is_dispatch(evs[i])
}

/// What the dispatch-audit gate answers for a context.
pub open spec fn dispatch_gate_outcome(c: ContextView) -> Option<Seq<char>> {
    if !has_dispatch(c.blackboard.events) {
        Some("no dispatch_decided event found for audit"@)
    } else {
        first_audit_problem(c.blackboard.events, c.release_id, 0)
    }
}

fn opt_blank(o: &Option<String>) -> (r: bool)
    requires
        o.is_some(),
    ensures
        r == all_whitespace(o->0@),
{
    match o {
        Some(s) => is_blank(s.as_str()),
        None => true,
    }
}

fn check_event(e: &BlackboardEvent, release_id: &String) -> (r: Option<String>)
    ensures
        match r {
            Some(m) => audit_problem(e@, release_id@) == Some(m@),
            None => audit_problem(e@, release_id@) is None,
        },
{
    let a = read_audit(&e.audit);
    let id = decimal_string(e.id);
    if !a.is_object {
        let p = cat("dispatch audit invalid: event_id=", id.as_str());
        return Some(cat(p.as_str(), " audit is not object"));
    }
    match &a.rule_id {
        None => return Some(cat("dispatch audit missing rule_id: event_id=", id.as_str())),
        Some(v) => if is_blank(v.as_str()) {
            return Some(cat("dispatch audit empty rule_id: event_id=", id.as_str()));
        },
    }
    match &a.trigger {
        None => return Some(cat("dispatch audit missing trigger: event_id=", id.as_str())),
        Some(t) => if !str_eq(t.as_str(), "dispatch_decided") {
            let p = cat("dispatch audit trigger mismatch: event_id=", id.as_str());
            let q = cat(p.as_str(), " trigger=");
            let m = cat(q.as_str(), t.as_str());
            assert(m@ == with_id("dispatch audit trigger mismatch: event_id="@, e.id) + " trigger="@ + t@);
            return Some(m);
        },
    }
    match &a.selected_role {
        None => return Some(cat("dispatch audit missing selected_role: event_id=", id.as_str())),
        Some(v) => if is_blank(v.as_str()) {
            return Some(cat("dispatch audit empty selected_role: event_id=", id.as_str()));
        },
    }
    match &a.route_source {
        None => return Some(cat("dispatch audit missing route_source: event_id=", id.as_str())),
        Some(v) => if is_blank(v.as_str()) {
            return Some(cat("dispatch audit empty route_source: event_id=", id.as_str()));
        },
    }
    match a.candidates {
        None => return Some(cat("dispatch audit missing candidates: event_id=", id.as_str())),
        Some(c) => if !(c.has_artifact_next_role && c.has_fallback_next_role) {
            return Some(cat("dispatch audit candidates incomplete: event_id=", id.as_str()));
        },
    }
    match a.evidence_refs {
        None => return Some(cat("dispatch audit missing evidence_refs: event_id=", id.as_str())),
        Some(ev) => {
            if !ev.blackboard_event_id_is_number {
                return Some(cat("dispatch audit missing numeric blackboard_event_id: event_id=", id.as_str()));
            }
            if !ev.artifact_type_is_string {
                return Some(cat("dispatch audit missing artifact_type: event_id=", id.as_str()));
            }
        },
    }
    match &a.release_id {
        Some(rid) => if !str_eq(rid.as_str(), release_id.as_str()) {
            let p = cat("dispatch audit release_id mismatch: event_id=", id.as_str());
            let q = cat(p.as_str(), " expected=");
            let s = cat(q.as_str(), release_id.as_str());
            let t = cat(s.as_str(), " actual=");
            let m = cat(t.as_str(), rid.as_str());
            return Some(m);
        },
        None => {},
    }
    None
}

/// Passes when at least one dispatch decision was recorded and every
/// dispatch decision carries a complete audit record for this release.
pub fn gate_dispatch_audit_structured(ctx: &WorkflowContext) -> (r: Result<(), EngineError>)
    ensures
        r is Ok <==> dispatch_gate_outcome(ctx@) is None,
        dispatch_gate_outcome(ctx@) matches Some(msg) ==> (r matches Err(EngineError::GateFailed(m)) && m@ == msg),
{
    let events = &ctx.blackboard.events;
    let ghost evs = ctx@.blackboard.events;
    let mut found = false;
    let mut i: usize = 0;
    while i < events.len()
        invariant
            evs == ctx@.blackboard.events,
            evs == crate::model::events_view(events@),
            i <= events@.len(),
            found == exists|j: int| 0 <= j < i && is_dispatch(evs[j]),
            forall|j: int| 0 <= j < i ==> !(is_dispatch(evs[j]) && audit_problem(evs[j], ctx.release_id@) is Some),
            first_audit_problem(evs, ctx.release_id@, 0) == first_audit_problem(evs, ctx.release_id@, i as int),
        decreases events@.len() - i,
    {
        let e = &events[i];
        assert(evs[i as int] == e@);
        if str_eq(e.event_type.as_str(), "dispatch_decided") {
            found = true;
            match check_event(e, &ctx.release_id) {
                Some(m) => {
                    assert(has_dispatch(evs));
                    return Err(EngineError::GateFailed(m));
                },
                None => {},
            }
        }
        i = i + 1;
    }
    if !found {
        return Err(EngineError::GateFailed(owned("no dispatch_decided event found for audit")));
    }
    assert(first_audit_problem(evs, ctx.release_id@, i as int) is None);
    Ok(())
}

/// The phrases that count as an explicit gate decision, in lowercase.
pub open spec fn decision_patterns() -> Seq<Seq<char>> {
    seq![
        "decision: go"@,
        "decision: conditional_go"@,
        "decision: no_go"@,
        "decision: conditional go"@,
        "decision: no-go"@,
        "decision: no go"@,
        "phase1 gate 结论"@,
        "最终判定：go"@,
        "最终判定：conditional go"@,
        "最终判定：no-go"@,
        "gate 结论"@,
    ]
}

/// The text, lowercased in ASCII, contains one of the decision phrases.
pub open spec fn has_decision(text: Seq<char>) -> bool {
    let lower = text.map_values(|c: char| ascii_lower(c));
    exists|i: int| 0 <= i < decision_patterns().len() && seq_contains(lower, #[trigger] decision_patterns()[i])
}

/// Whether a review states an explicit Go / Conditional Go / No-Go decision.
pub fn has_explicit_gate_decision(text: &str) -> (r: bool)
    ensures
        r == has_decision(text@),
{
    let lower = to_ascii_lowercase(text);
    let patterns = [
        "decision: go",
        "decision: conditional_go",
        "decision: no_go",
        "decision: conditional go",
        "decision: no-go",
        "decision: no go",
        "phase1 gate 结论",
        "最终判定：go",
        "最终判定：conditional go",
        "最终判定：no-go",
        "gate 结论",
    ];
    let ghost pats = decision_patterns();
    assert(pats.len() == 11);
    let mut i: usize = 0;
    while i < 11
        invariant
            i <= 11,
            pats == decision_patterns(),
            pats.len() == 11,
            lower@ == text@.map_values(|c: char| ascii_lower(c)),
            forall|k: int| 0 <= k < 11 ==> (#[trigger] patterns@[k])@ == pats[k],
            forall|j: int| 0 <= j < i ==> !seq_contains(lower@, #[trigger] pats[j]),
        decreases 11 - i,
    {
        if contains(lower.as_str(), patterns[i]) {
            return true;
        }
        i = i + 1;
    }
    false
}

} // verus!

verus! {

/// The documents the phase-2 readiness gate reads: each required file by its
/// path with its content or the reason it could not be read, then the final
/// gate review read once more for its conclusion.
pub struct ReadinessDocs {
    pub files: Vec<(String, Result<String, String>)>,
    pub gate_final_review: Result<String, String>,
}

/// The files that must be complete before phase 2, in the order they are checked.
pub open spec fn readiness_paths() -> Seq<Seq<char>> {
    seq![
        "../doc/phase01/phase1_week6_gate_final_review.md"@,
        "../doc/phase01/phase1_week6_metrics_evidence_pack.md"@,
        "../doc/phase01/phase1_week6_closeout_report.md"@,
        "../doc/phase01/phase1_week6_gate_material_checklist.md"@,
        "../doc/phase01/phase1_week6_security_final_opinion.md"@,
    ]
}

/// The paths of the files the phase-2 readiness gate reads.
pub fn phase2_readiness_files() -> (v: Vec<&'static str>)
    ensures
        v@.len() == readiness_paths().len(),
        forall|i: int| 0 <= i < v@.len() ==> (#[trigger] v@[i])@ == readiness_paths()[i],
{
    let v = vec![
        "../doc/phase01/phase1_week6_gate_final_review.md",
        "../doc/phase01/phase1_week6_metrics_evidence_pack.md",
        "../doc/phase01/phase1_week6_closeout_report.md",
        "../doc/phase01/phase1_week6_gate_material_checklist.md",
        "../doc/phase01/phase1_week6_security_final_opinion.md",
    ];
    assert(v@.len() == 5);
    v
}

/// The path of the final gate review, read again for its conclusion.
pub fn phase2_gate_final_review() -> (p: &'static str)
    ensures
        p@ == readiness_paths()[0],
{
    "../doc/phase01/phase1_week6_gate_final_review.md"
}

/// A read result as plain text.
pub open spec fn read_view(r: Result<String, String>) -> Result<Seq<char>, Seq<char>> {
    match r {
        Ok(c) => Ok(c@),
        Err(e) => Err(e@),
    }
}

/// Why the phase-2 readiness gate fails, looking at the files from `i` on:
/// an unreadable file, a file with an unfilled `{{` or `}}` placeholder, an
/// unreadable final review, or a final review without an explicit decision.
pub open spec fn readiness_problem(
    files: Seq<(String, Result<String, String>)>,
    i: int,
    gate_final: Result<Seq<char>, Seq<char>>,
) -> Option<Seq<char>>
    decreases files.len() - i,
{
    if i < 0 || i >= files.len() {
        match gate_final {
            Err(e) => Some("phase2 readiness gate final read failed: "@ + e),
            Ok(t) => if has_decision(t) {
                None
            } else {
                Some("phase2 readiness requires explicit Go/Conditional Go/No-Go conclusion"@)
            },
        }
    } else {
        match read_view(files[i].1) {
            Err(e) => Some("phase2 readiness missing "@ + files[i].0@ + ": "@ + e),
            Ok(c) => if seq_contains(c, "{{"@) || seq_contains(c, "}}"@) {
                Some("phase2 readiness placeholder unresolved: "@ + files[i].0@)
            } else {
                readiness_problem(files, i + 1, gate_final)
            },
        }
    }
}

/// Passes when every required document was read, none has an unfilled
/// placeholder, and the final gate review states an explicit decision.
pub fn gate_phase2_readiness(docs: &ReadinessDocs) -> (r: Result<(), EngineError>)
    ensures
        match readiness_problem(docs.files@, 0, read_view(docs.gate_final_review)) {
            None => r is Ok,
            Some(msg) => (r matches Err(EngineError::GateFailed(m)) && m@ == msg),
        },
{
    let files = &docs.files;
    let mut i: usize = 0;
    while i < files.len()
        invariant
            i <= files@.len(),
            *files == docs.files,
            readiness_problem(files@, 0, read_view(docs.gate_final_review)) == readiness_problem(
                files@,
                i as int,
                read_view(docs.gate_final_review),
            ),
        decreases files@.len() - i,
    {
        let (path, content) = &files[i];
        match content {
            Err(e) => {
                let a = cat("phase2 readiness missing ", path.as_str());
                let b = cat(a.as_str(), ": ");
                return Err(EngineError::GateFailed(cat(b.as_str(), e.as_str())));
            },
            Ok(c) => {
                if contains(c.as_str(), "{{") || contains(c.as_str(), "}}") {
                    return Err(EngineError::GateFailed(cat("phase2 readiness placeholder unresolved: ", path.as_str())));
                }
            },
        }
        i = i + 1;
    }
    match &docs.gate_final_review {
        Err(e) => Err(EngineError::GateFailed(cat("phase2 readiness gate final read failed: ", e.as_str()))),
        Ok(t) => {
            if !has_explicit_gate_decision(t.as_str()) {
                return Err(
                    EngineError::GateFailed(owned("phase2 readiness requires explicit Go/Conditional Go/No-Go conclusion")),
                );
            }
            Ok(())
        },
    }
}

} // verus!
