//! Multi-round orchestration of the roles, written as a state machine: the
//! caller asks for the next role to run, runs it, and hands its artifact back.
//! Between those steps the machine decides the role states, the blackboard
//! events, the published artifacts and the order in which roles run.

use vstd::prelude::*;
use crate::json::{Json, JsonNumber, JsonView, NumberView, json_view, jget, jset, jstr, settable};
use crate::model::{Role, RoleState, role_key, role_state_key, str_member_of, BlackboardView};
use crate::engine::{
    role_index, role_slot, ROLE_COUNT, Artifact, ArtifactView, ContextView, WorkflowEngine, with_artifact, history_view,
    transitioned, EngineConfig, transition_listed, first_invalid,
};
use crate::error::EngineError;
use crate::blackboard_agent::{BlackboardAgent, normalized_artifact, ingested, routed_role, blackboard_artifact_view};
use crate::schema::{
    role_artifact_schema, blackboard_artifact_schema, role_artifact_schema_view, blackboard_artifact_schema_view,
};
use crate::text::{cat, decimal, decimal_string, lower, to_ascii_lowercase, eq_ignore_ascii_case, eq_ignore_case};

verus! {

/// The role that runs after `current` when its artifact names none.
pub open spec fn fallback_role(current: Role) -> Option<Role> {
    match current {
        Role::PM => Some(Role::Dev),
        Role::Dev => Some(Role::QA),
        Role::QA => Some(Role::Security),
        Role::Security => Some(Role::SRE),
        Role::SRE => None,
        Role::Blackboard => None,
    }
}

/// The fallback follows the release pipeline PM, Dev, QA, Security, SRE:
/// each stage falls back to the stage right after it, so no stage is skipped
/// and none is revisited; the last stage and the blackboard fall back to no one.
pub proof fn law_fallback_follows_pipeline()
    ensures
        ({
            let pipeline = seq![Role::PM, Role::Dev, Role::QA, Role::Security, Role::SRE];
            forall|k: int| 0 <= k < 4 ==> #[trigger] fallback_role(pipeline[k]) == Some(pipeline[k + 1])
        }),
        fallback_role(Role::SRE) is None,
        fallback_role(Role::Blackboard) is None,
{
    let pipeline = seq![Role::PM, Role::Dev, Role::QA, Role::Security, Role::SRE];
    assert forall|k: int| 0 <= k < 4 implies #[trigger] fallback_role(pipeline[k]) == Some(pipeline[k + 1]) by {
        if k == 0 {
        } else if k == 1 {
        } else if k == 2 {
        } else {
        }
    }
}

/// The role that runs after `current` when its artifact names none: PM, Dev,
/// QA, Security, SRE in turn.
pub fn fallback_next_role(current: &Role) -> (r: Option<Role>)
    ensures
        r == fallback_role(*current),
{
    match current {
        Role::PM => Some(Role::Dev),
        Role::Dev => Some(Role::QA),
        Role::QA => Some(Role::Security),
        Role::Security => Some(Role::SRE),
        Role::SRE => None,
        Role::Blackboard => None,
    }
}

/// A string, or null for nothing.
pub open spec fn text_or_null(o: Option<Seq<char>>) -> JsonView {
    match o {
        Some(s) => JsonView::Str(s),
        None => JsonView::Null,
    }
}

/// The audit record of a dispatch decision: the rule, the trigger, the
/// release, the round, who finished with which decision, where the choice came
/// from and why an artifact's own choice was refused, the role chosen and its
/// state, the candidates considered, and the blackboard event it rests on.
pub open spec fn dispatch_audit(
    release_id: Seq<char>,
    round: usize,
    from_role: Role,
    decision: Seq<char>,
    routed_from_artifact: Option<Seq<char>>,
    route_source: Seq<char>,
    blocked_reason: Option<Seq<char>>,
    selected_role: Role,
    selected_state: RoleState,
    evidence_event_id: u64,
) -> JsonView {
    JsonView::Object(
        seq![
            ("rule_id"@, JsonView::Str("engine.dispatch.route.v1"@)),
            ("trigger"@, JsonView::Str("dispatch_decided"@)),
            ("release_id"@, JsonView::Str(release_id)),
            ("round"@, JsonView::Number(NumberView::PosInt(round as u64))),
            ("from_role"@, JsonView::Str(role_key(from_role))),
            ("artifact_decision"@, JsonView::Str(decision)),
            ("routed_from_artifact"@, text_or_null(routed_from_artifact)),
            ("route_source"@, JsonView::Str(route_source)),
            ("blocked_reason"@, text_or_null(blocked_reason)),
            ("selected_role"@, JsonView::Str(role_key(selected_role))),
            ("selected_state_before_enqueue"@, JsonView::Str(role_state_key(selected_state))),
            ("candidates"@, JsonView::Object(
                seq![
                    ("artifact_next_role"@, text_or_null(routed_from_artifact)),
                    ("fallback_next_role"@, text_or_null(
                        match fallback_role(from_role) {
                            Some(r) => Some(role_key(r)),
                            None => None,
                        },
                    )),
                ],
            )),
            ("evidence_refs"@, JsonView::Object(
                seq![
                    ("blackboard_event_id"@, JsonView::Number(NumberView::PosInt(evidence_event_id))),
                    ("artifact_type"@, JsonView::Str("artifact_published"@)),
                ],
            )),
        ],
    )
}

proof fn lemma_role_key_nonblank(r: Role)
    ensures
        !crate::text::all_whitespace(role_key(r)),
{
    reveal_strlit("PM");
    reveal_strlit("Dev");
    reveal_strlit("QA");
    reveal_strlit("SRE");
    reveal_strlit("Security");
    reveal_strlit("Blackboard");
    let k = role_key(r);
    assert(k.len() > 0);
    assert(!crate::text::char_is_whitespace(k[0]));
}

/// Every dispatch audit the engine records passes the dispatch-audit gate:
/// it is an object with a non-blank rule, the `dispatch_decided` trigger, a
/// non-blank selected role and route source, both route candidates, numeric
/// and textual evidence references, and the release it was recorded for.
pub proof fn law_dispatch_audit_passes_gate(
    e: crate::model::EventView,
    release_id: Seq<char>,
    round: usize,
    from_role: Role,
    decision: Seq<char>,
    routed_from_artifact: Option<Seq<char>>,
    route_source: Seq<char>,
    blocked_reason: Option<Seq<char>>,
    selected_role: Role,
    selected_state: RoleState,
    evidence_event_id: u64,
)
    requires
        e.audit == dispatch_audit(
            release_id,
            round,
            from_role,
            decision,
            routed_from_artifact,
            route_source,
            blocked_reason,
            selected_role,
            selected_state,
            evidence_event_id,
        ),
        !crate::text::all_whitespace(route_source),
    ensures
        crate::gates::audit_problem(e, release_id) is None,
{
    reveal_strlit("rule_id");
    reveal_strlit("trigger");
    reveal_strlit("release_id");
    reveal_strlit("round");
    reveal_strlit("from_role");
    reveal_strlit("artifact_decision");
    reveal_strlit("routed_from_artifact");
    reveal_strlit("route_source");
    reveal_strlit("blocked_reason");
    reveal_strlit("selected_role");
    reveal_strlit("selected_state_before_enqueue");
    reveal_strlit("candidates");
    reveal_strlit("evidence_refs");
    reveal_strlit("artifact_next_role");
    reveal_strlit("fallback_next_role");
    reveal_strlit("blackboard_event_id");
    reveal_strlit("artifact_type");
    reveal_strlit("engine.dispatch.route.v1");
    let m = e.audit->Object_0;
    assert(m.len() == 13);
    assert(m[0].0.len() == 7 && m[1].0.len() == 7 && m[2].0.len() == 10 && m[3].0.len() == 5 && m[4].0.len() == 9);
    assert(m[5].0.len() == 17 && m[6].0.len() == 20 && m[7].0.len() == 12 && m[8].0.len() == 14);
    assert(m[9].0.len() == 13 && m[10].0.len() == 29 && m[11].0.len() == 10 && m[12].0.len() == 13);
    assert(m[0].0[0] != m[1].0[0]);
    assert(m[2].0[0] != m[11].0[0]);
    assert(m[9].0[0] != m[12].0[0]);
    crate::json::lemma_index_from_is(m, "rule_id"@, 0, 0);
    crate::json::lemma_index_from_is(m, "trigger"@, 0, 1);
    crate::json::lemma_index_from_is(m, "release_id"@, 0, 2);
    crate::json::lemma_index_from_is(m, "route_source"@, 0, 7);
    crate::json::lemma_index_from_is(m, "selected_role"@, 0, 9);
    crate::json::lemma_index_from_is(m, "candidates"@, 0, 11);
    crate::json::lemma_index_from_is(m, "evidence_refs"@, 0, 12);
    let c = m[11].1->Object_0;
    assert(c[0].0.len() == 18 && c[1].0.len() == 18 && c[0].0[0] != c[1].0[0]);
    crate::json::lemma_index_from_is(c, "artifact_next_role"@, 0, 0);
    crate::json::lemma_index_from_is(c, "fallback_next_role"@, 0, 1);
    let r = m[12].1->Object_0;
    assert(r[0].0.len() == 19 && r[1].0.len() == 13);
    crate::json::lemma_index_from_is(r, "blackboard_event_id"@, 0, 0);
    crate::json::lemma_index_from_is(r, "artifact_type"@, 0, 1);
    assert(!crate::text::char_is_whitespace("engine.dispatch.route.v1"@[0]));
    lemma_role_key_nonblank(selected_role);
}

fn text(s: &str) -> (j: Json)
    ensures
        json_view(j) == JsonView::Str(s@),
{
    Json::Str(s.to_string())
}

fn string_value(s: String) -> (j: Json)
    ensures
        json_view(j) == JsonView::Str(s@),
{
    Json::Str(s)
}

fn text_or_null_value(o: Option<&str>) -> (j: Json)
    ensures
        json_view(j) == text_or_null(
            match o {
                Some(s) => Some(s@),
                None => None,
            },
        ),
{
    match o {
        Some(s) => text(s),
        None => Json::Null,
    }
}

fn number(n: u64) -> (j: Json)
    ensures
        json_view(j) == JsonView::Number(NumberView::PosInt(n)),
{
    Json::Number(JsonNumber::PosInt(n))
}

/// Builds the audit record of a dispatch decision; see `dispatch_audit`.
pub fn build_dispatch_audit(
    release_id: &str,
    round: usize,
    from_role: &Role,
    decision: &str,
    routed_from_artifact: Option<&str>,
    route_source: &str,
    blocked_reason: Option<&str>,
    selected_role: &Role,
    selected_state_before_enqueue: RoleState,
    evidence_event_id: u64,
) -> (j: Json)
    ensures
        json_view(j) == dispatch_audit(
            release_id@,
            round,
            *from_role,
            decision@,
            match routed_from_artifact {
                Some(s) => Some(s@),
                None => None,
            },
            route_source@,
            match blocked_reason {
                Some(s) => Some(s@),
                None => None,
            },
            *selected_role,
            selected_state_before_enqueue,
            evidence_event_id,
        ),
{
    let ghost routed = match routed_from_artifact {
        Some(s) => Some(s@),
        None => None,
    };
    let ghost blocked = match blocked_reason {
        Some(s) => Some(s@),
        None => None,
    };
    let ghost target = dispatch_audit(
        release_id@,
        round,
        *from_role,
        decision@,
        routed,
        route_source@,
        blocked,
        *selected_role,
        selected_state_before_enqueue,
        evidence_event_id,
    );
    let fallback = match fallback_next_role(from_role) {
        Some(r) => text(r.as_key()),
        None => Json::Null,
    };
    let mut c: Vec<(String, Json)> = Vec::new();
    c.push(("artifact_next_role".to_string(), text_or_null_value(routed_from_artifact)));
    c.push(("fallback_next_role".to_string(), fallback));
    let candidates = Json::Object(c);
    assert(json_view(candidates)->Object_0 =~= target->Object_0[11].1->Object_0);
    let mut e: Vec<(String, Json)> = Vec::new();
    e.push(("blackboard_event_id".to_string(), number(evidence_event_id)));
    e.push(("artifact_type".to_string(), text("artifact_published")));
    let evidence = Json::Object(e);
    assert(json_view(evidence)->Object_0 =~= target->Object_0[12].1->Object_0);
    let mut m: Vec<(String, Json)> = Vec::new();
    m.push(("rule_id".to_string(), text("engine.dispatch.route.v1")));
    m.push(("trigger".to_string(), text("dispatch_decided")));
    m.push(("release_id".to_string(), text(release_id)));
    m.push(("round".to_string(), number(round as u64)));
    m.push(("from_role".to_string(), text(from_role.as_key())));
    m.push(("artifact_decision".to_string(), text(decision)));
    m.push(("routed_from_artifact".to_string(), text_or_null_value(routed_from_artifact)));
    m.push(("route_source".to_string(), text(route_source)));
    m.push(("blocked_reason".to_string(), text_or_null_value(blocked_reason)));
    m.push(("selected_role".to_string(), text(selected_role.as_key())));
    m.push(("selected_state_before_enqueue".to_string(), text(selected_state_before_enqueue.as_key())));
    m.push(("candidates".to_string(), candidates));
    m.push(("evidence_refs".to_string(), evidence));
    let j = Json::Object(m);
    assert(json_view(j)->Object_0 =~= target->Object_0);
    j
}

/// The role kept at position `i` of the per-role tables.
pub open spec fn role_at(i: int) -> Role {
    if i == 0 {
        Role::PM
    } else if i == 1 {
        Role::Dev
    } else if i == 2 {
        Role::QA
    } else if i == 3 {
        Role::SRE
    } else if i == 4 {
        Role::Security
    } else {
        Role::Blackboard
    }
}

pub fn role_of_slot(i: usize) -> (r: Role)
    requires
        i < ROLE_COUNT,
    ensures
        r == role_at(i as int),
        role_index(r) == i,
{
    if i == 0 {
        Role::PM
    } else if i == 1 {
        Role::Dev
    } else if i == 2 {
        Role::QA
    } else if i == 3 {
        Role::SRE
    } else if i == 4 {
        Role::Security
    } else {
        Role::Blackboard
    }
}

/// One line of cross-role feedback: who said what.
pub open spec fn feedback_line(from: Role, artifact: JsonView) -> Seq<char> {
    "- 来自"@ + role_key(from) + ": decision="@ + match jstr(jget(artifact, "decision"@)) {
        Some(d) => d,
        None => "unknown"@,
    } + ", summary="@ + match jstr(jget(artifact, "summary"@)) {
        Some(s) => s,
        None => Seq::empty(),
    } + " "@
}

/// The feedback lines from the latest artifacts of the first `n` roles other than `role`.
pub open spec fn feedback_lines(slots: Seq<Option<JsonView>>, role: Role, n: int) -> Seq<Seq<char>>
    decreases n,
{
    if n <= 0 {
        Seq::empty()
    } else {
        let prev = feedback_lines(slots, role, n - 1);
        if n - 1 != role_index(role) && slots[n - 1] is Some {
            prev.push(feedback_line(role_at(n - 1), slots[n - 1]->0))
        } else {
            prev
        }
    }
}

/// Lines joined with newlines.
pub open spec fn joined(lines: Seq<Seq<char>>) -> Seq<char>
    decreases lines.len(),
{
    if lines.len() == 0 {
        Seq::empty()
    } else if lines.len() == 1 {
        lines[0]
    } else {
        joined(lines.drop_last()) + "\n"@ + lines.last()
    }
}

/// The feedback block: the lines, or a note that there is none yet.
pub open spec fn feedback_block(lines: Seq<Seq<char>>) -> Seq<char> {
    if lines.len() == 0 {
        "- 暂无上轮反馈，你需要先输出可交接结果。"@
    } else {
        joined(lines)
    }
}

/// A role's prompt for a round: its base prompt followed by the collaboration
/// context, with the feedback of every other role's latest artifact.
pub open spec fn collaboration_prompt(base: Seq<char>, round: usize, role: Role, slots: Seq<Option<JsonView>>) -> Seq<char> {
    base + "\n\n[协作上下文]\n当前轮次: "@ + decimal(round as nat) + "\n你必须吸收以下跨角色反馈并在本轮输出里体现闭环：\n"@
        + feedback_block(feedback_lines(slots, role, slots.len() as int))
}

/// Adds the collaboration context to a role's base prompt. The latest
/// artifacts are visited in role-table order.
pub fn augment_prompt_with_collaboration(base_prompt: &str, round: usize, role: &Role, latest_by_role: &Vec<Option<Json>>) -> (p: String)
    requires
        latest_by_role@.len() <= ROLE_COUNT,
    ensures
        p@ == collaboration_prompt(
            base_prompt@,
            round,
            *role,
            latest_by_role@.map_values(|o: Option<Json>| crate::model::opt_json(o)),
        ),
{
    let ghost slots = latest_by_role@.map_values(|o: Option<Json>| crate::model::opt_json(o));
    let mut feedback = String::new();
    let mut count: usize = 0;
    let mut i: usize = 0;
    while i < latest_by_role.len()
        invariant
            latest_by_role@.len() <= ROLE_COUNT,
            slots == latest_by_role@.map_values(|o: Option<Json>| crate::model::opt_json(o)),
            i <= latest_by_role@.len(),
            count == feedback_lines(slots, *role, i as int).len(),
            count <= i,
            feedback@ == joined(feedback_lines(slots, *role, i as int)),
        decreases latest_by_role@.len() - i,
    {
        if i != role_slot(*role) {
            match &latest_by_role[i] {
                Some(artifact) => {
                    let from = role_of_slot(i);
                    let decision = match str_member_of(artifact, "decision") {
                        Some(d) => d,
                        None => "unknown".to_string(),
                    };
                    let summary = match str_member_of(artifact, "summary") {
                        Some(s) => s,
                        None => String::new(),
                    };
                    let a = cat("- 来自", from.as_key());
                    let b = cat(a.as_str(), ": decision=");
                    let c = cat(b.as_str(), decision.as_str());
                    let d = cat(c.as_str(), ", summary=");
                    let e = cat(d.as_str(), summary.as_str());
                    let line = cat(e.as_str(), " ");
                    assert(line@ == feedback_line(role_at(i as int), json_view(*artifact)));
                    let ghost prev = feedback_lines(slots, *role, i as int);
                    assert(feedback_lines(slots, *role, i as int + 1) == prev.push(line@));
                    if count > 0 {
                        feedback = cat(feedback.as_str(), "\n");
                    }
                    feedback = cat(feedback.as_str(), line.as_str());
                    proof {
                        let now = prev.push(line@);
                        assert(now.drop_last() =~= prev);
                    }
                    count = count + 1;
                },
                None => {},
            }
        }
        i = i + 1;
    }
    let block = if count == 0 {
        "- 暂无上轮反馈，你需要先输出可交接结果。".to_string()
    } else {
        feedback
    };
    let a = cat(base_prompt, "\n\n[协作上下文]\n当前轮次: ");
    let b = cat(a.as_str(), decimal_string(round as u64).as_str());
    let c = cat(b.as_str(), "\n你必须吸收以下跨角色反馈并在本轮输出里体现闭环：\n");
    cat(c.as_str(), block.as_str())
}

} // verus!

verus! {

/// The name of a role's artifact for one round, `{role}_r{round}_artifact`.
pub open spec fn round_artifact_name(role: Role, round: usize) -> Seq<char> {
    lower(role_key(role)) + "_r"@ + decimal(round as nat) + "_artifact"@
}

/// The name of a role's latest artifact, `{role}_artifact`.
pub open spec fn latest_artifact_name(role: Role) -> Seq<char> {
    lower(role_key(role)) + "_artifact"@
}

/// The name of the blackboard's artifact about a role's artifact of a round.
pub open spec fn blackboard_artifact_name(role: Role, round: usize) -> Seq<char> {
    "blackboard_r"@ + decimal(round as nat) + "_from_"@ + lower(role_key(role)) + "_artifact"@
}

/// The artifacts after a role's artifact `a` of a round and the blackboard's
/// artifact `b` about it are published.
pub open spec fn published_artifacts(
    arts: Seq<ArtifactView>,
    role: Role,
    round: usize,
    a: JsonView,
    b: JsonView,
) -> Seq<ArtifactView> {
    let a1 = with_artifact(arts, (round_artifact_name(role, round), a, role_artifact_schema_view()));
    let a2 = with_artifact(a1, (latest_artifact_name(role), a, role_artifact_schema_view()));
    with_artifact(a2, (blackboard_artifact_name(role, round), b, blackboard_artifact_schema_view()))
}

/// A role's artifact as it is published: normalized, with the round added.
pub open spec fn round_artifact(raw: JsonView, release_id: Seq<char>, role: Role, round: usize) -> JsonView {
    jset(normalized_artifact(raw, release_id, role), "round"@, JsonView::Number(NumberView::PosInt(round as u64)))
}

/// The blackboard's artifact about `role`'s artifact of `round`, as the
/// blackboard of context `c0` produces it.
pub open spec fn bb_artifact_for(c0: ContextView, role: Role, round: usize, raw: JsonView) -> JsonView {
    let n = normalized_artifact(raw, c0.release_id, role);
    blackboard_artifact_view(
        role,
        c0.release_id,
        routed_role(n),
        (c0.blackboard.version + 1) as u64,
        round,
        c0.blackboard.events.len() + 1,
        n,
    )
}

/// The artifacts of context `c0` once `role`'s artifact of `round` and the
/// blackboard's artifact about it are published.
pub open spec fn staged_artifacts(c0: ContextView, role: Role, round: usize, raw: JsonView) -> Seq<ArtifactView> {
    published_artifacts(
        c0.artifacts,
        role,
        round,
        round_artifact(raw, c0.release_id, role, round),
        bb_artifact_for(c0, role, round, raw),
    )
}

/// What publishing gave: the published artifact and the role it asks for.
pub struct Publication {
    pub artifact: Json,
    pub next_role: Option<Role>,
}

/// `e1` is `e0` after `role` published raw artifact `raw` in `round`: the
/// blackboard ingested it, the three artifacts were published, and the role
/// was moved to `Submitted` with a snapshot of the context taken just before.
pub open spec fn published(
    e0: WorkflowEngine,
    e1: WorkflowEngine,
    role: Role,
    round: usize,
    raw: JsonView,
    b1: BlackboardView,
    bb_artifact: JsonView,
) -> bool {
    let c0 = e0.context@;
    let n = normalized_artifact(raw, c0.release_id, role);
    let arts = published_artifacts(c0.artifacts, role, round, round_artifact(raw, c0.release_id, role, round), bb_artifact);
    let staged = ContextView { artifacts: arts, blackboard: b1, ..c0 };
    &&& ingested(c0.blackboard, b1, role, round, c0.release_id, n)
    &&& bb_artifact == blackboard_artifact_view(role, c0.release_id, routed_role(n), b1.version, round, b1.events.len(), n)
    &&& e1.context@ == ContextView { role_states: c0.role_states.update(role_index(role), Some(RoleState::Submitted)), ..staged }
    &&& history_view(e1.history@) == history_view(e0.history@).push((staged, role_key(role) + " submits artifact"@))
    &&& e1.config == e0.config
    &&& e1.gates == e0.gates
}

fn lower_key(role: &Role) -> (s: String)
    ensures
        s@ == lower(role_key(*role)),
{
    let k = to_ascii_lowercase(role.as_key());
    assert(k@ =~= lower(role_key(*role)));
    k
}

/// Normalizes and records the artifact that `role` produced in `round`,
/// publishes it with the blackboard's artifact about it, checks every
/// artifact against its schema, and moves the role to `Submitted`.
pub fn publish_artifact(engine: &mut WorkflowEngine, round: usize, role: &Role, raw: Json) -> (r: Result<Publication, EngineError>)
    requires
        old(engine).wf(),
        settable(json_view(raw)),
        old(engine).context.blackboard.version < u64::MAX,
        old(engine).context.blackboard.events@.len() < usize::MAX,
    ensures
        final(engine).wf(),
        r is Ok <==> first_invalid(staged_artifacts(old(engine).context@, *role, round, json_view(raw)), 0) is None
            && moves_allowed(
                old(engine).config,
                *role,
                state_in(old(engine).context@, *role),
                seq![(RoleState::Submitted, role_key(*role) + " submits artifact"@)],
            ),
        r is Ok ==> exists|b1: BlackboardView, bb: JsonView| published(*old(engine), *final(engine), *role, round, json_view(raw), b1, bb),
        r matches Ok(p) ==> json_view(p.artifact) == round_artifact(json_view(raw), old(engine).context@.release_id, *role, round)
            && p.next_role == routed_role(normalized_artifact(json_view(raw), old(engine).context@.release_id, *role)),
        final(engine).context@.blackboard.version == old(engine).context@.blackboard.version + 1,
        final(engine).context@.blackboard.events.len() == old(engine).context@.blackboard.events.len() + 1,
        final(engine).config == old(engine).config,
        final(engine).gates == old(engine).gates,
{
    let release_id = engine.context.release_id.clone();
    let ingest = BlackboardAgent::ingest(&mut engine.context.blackboard, release_id.as_str(), round, role, raw);
    let ghost b1 = engine.context.blackboard@;
    let ghost bb = json_view(ingest.blackboard_artifact);
    let ghost c0 = old(engine).context@;
    assert(engine.context@ == ContextView { blackboard: b1, ..c0 });
    let artifact = ingest.normalized_artifact.with_member("round", number(round as u64));
    let key = lower_key(role);
    let r1 = cat(key.as_str(), "_r");
    let r2 = cat(r1.as_str(), decimal_string(round as u64).as_str());
    let round_name = cat(r2.as_str(), "_artifact");
    let latest_name = cat(key.as_str(), "_artifact");
    let b1n = cat("blackboard_r", decimal_string(round as u64).as_str());
    let b2n = cat(b1n.as_str(), "_from_");
    let b3n = cat(b2n.as_str(), key.as_str());
    let bb_name = cat(b3n.as_str(), "_artifact");
    assert(round_name@ == round_artifact_name(*role, round));
    assert(bb_name@ == blackboard_artifact_name(*role, round));
    engine.add_artifact(Artifact::new(round_name, artifact.duplicate(), role_artifact_schema()));
    engine.add_artifact(Artifact::new(latest_name, artifact.duplicate(), role_artifact_schema()));
    engine.add_artifact(Artifact::new(bb_name, ingest.blackboard_artifact, blackboard_artifact_schema()));
    let ghost staged = engine.context@;
    assert(staged == ContextView {
        artifacts: published_artifacts(c0.artifacts, *role, round, json_view(artifact), bb),
        blackboard: b1,
        ..c0
    });
    proof {
        let n = normalized_artifact(json_view(raw), c0.release_id, *role);
        assert(json_view(ingest.normalized_artifact) == n);
        assert(ingest.next_role == routed_role(n));
        assert(b1.version == c0.blackboard.version + 1);
        assert(b1.events.len() == c0.blackboard.events.len() + 1);
        assert(engine.context.blackboard.events@.len() == b1.events.len());
    }
    assert(bb == bb_artifact_for(c0, *role, round, json_view(raw)));
    engine.validate_artifacts()?;
    let reason = cat(role.as_key(), " submits artifact");
    proof {
        let m = (RoleState::Submitted, reason@);
        assert(seq![m].drop_first() =~= Seq::<Move>::empty());
        assert(moves_allowed(engine.config, *role, RoleState::Submitted, Seq::<Move>::empty()));
        assert(state_in(staged, *role) == state_in(c0, *role));
    }
    engine.transition_role(*role, RoleState::Submitted, reason.as_str())?;
    assert(published(*old(engine), *engine, *role, round, json_view(raw), b1, bb));
    Ok(Publication { artifact, next_role: ingest.next_role })
}

} // verus!

verus! {

/// One move of a role: the state it goes to and the reason recorded with the
/// snapshot taken before it.
pub type Move = (RoleState, Seq<char>);

/// The context after `role` makes `moves` from `c`, with the snapshots taken
/// before each move.
pub open spec fn after_moves(c: ContextView, role: Role, moves: Seq<Move>) -> (ContextView, Seq<(ContextView, Seq<char>)>)
    decreases moves.len(),
{
    if moves.len() == 0 {
        (c, Seq::empty())
    } else {
        let (c1, h) = after_moves(c, role, moves.drop_last());
        let c2 = ContextView { role_states: c1.role_states.update(role_index(role), Some(moves.last().0)), ..c1 };
        (c2, h.push((c1, moves.last().1)))
    }
}

/// `e1` is `e0` after `role` made `moves`.
pub open spec fn moved(e0: WorkflowEngine, e1: WorkflowEngine, role: Role, moves: Seq<Move>) -> bool {
    let (c, h) = after_moves(e0.context@, role, moves);
    &&& e1.context@ == c
    &&& history_view(e1.history@) == history_view(e0.history@) + h
    &&& e1.config == e0.config
    &&& e1.gates == e0.gates
}

/// Each of `moves` is allowed for `role` from the state the previous one left
/// it in, starting from `s`.
pub open spec fn moves_allowed(cfg: EngineConfig, role: Role, s: RoleState, moves: Seq<Move>) -> bool
    decreases moves.len(),
{
    if moves.len() == 0 {
        true
    } else {
        &&& cfg.allowed(role) matches Some(a)
        &&& transition_listed(a, s, moves[0].0)
        &&& moves_allowed(cfg, role, moves[0].0, moves.drop_first())
    }
}

proof fn lemma_moved_none(e: WorkflowEngine, role: Role)
    ensures
        moved(e, e, role, Seq::empty()),
{
    assert(history_view(e.history@) + Seq::<(ContextView, Seq<char>)>::empty() =~= history_view(e.history@));
}

proof fn lemma_moved_step(
    e0: WorkflowEngine,
    e1: WorkflowEngine,
    e2: WorkflowEngine,
    role: Role,
    moves: Seq<Move>,
    target: RoleState,
    reason: Seq<char>,
)
    requires
        moved(e0, e1, role, moves),
        transitioned(e1, e2, role, target, reason),
    ensures
        moved(e0, e2, role, moves.push((target, reason))),
{
    let ms = moves.push((target, reason));
    assert(ms.drop_last() =~= moves);
    let (c, h) = after_moves(e0.context@, role, moves);
    assert(history_view(e2.history@) =~= history_view(e0.history@) + h.push((c, reason)));
}

/// The state of `role` in a context; a role without an entry is idle.
pub open spec fn state_in(c: ContextView, role: Role) -> RoleState {
    match c.role_states[role_index(role)] {
        Some(s) => s,
        None => RoleState::Idle,
    }
}

/// The state the last of `moves` leaves a role in, `s` when there are none.
pub open spec fn last_state(s: RoleState, moves: Seq<Move>) -> RoleState {
    if moves.len() == 0 { s } else { moves.last().0 }
}

proof fn lemma_moves_allowed_push(cfg: EngineConfig, role: Role, s: RoleState, moves: Seq<Move>, m: Move)
    requires
        moves_allowed(cfg, role, s, moves),
        cfg.allowed(role) matches Some(a) && transition_listed(a, last_state(s, moves), m.0),
    ensures
        moves_allowed(cfg, role, s, moves.push(m)),
    decreases moves.len(),
{
    if moves.len() > 0 {
        let rest = moves.drop_first();
        assert(moves.push(m).drop_first() =~= rest.push(m));
        assert(last_state(moves[0].0, rest) == last_state(s, moves)) by {
            if rest.len() > 0 {
                assert(rest.last() == moves.last());
            }
        }
        lemma_moves_allowed_push(cfg, role, moves[0].0, rest, m);
        assert(moves.push(m)[0] == moves[0]);
        assert(moves_allowed(cfg, role, moves[0].0, moves.push(m).drop_first()));
    } else {
        assert(moves.push(m).drop_first() =~= Seq::<Move>::empty());
        assert(moves.push(m)[0] == m);
        assert(moves_allowed(cfg, role, m.0, moves.push(m).drop_first()));
    }
}

proof fn lemma_moves_refused(cfg: EngineConfig, role: Role, s: RoleState, moves: Seq<Move>, m: Move, more: Seq<Move>)
    requires
        moves_allowed(cfg, role, s, moves),
        !(cfg.allowed(role) matches Some(a) && transition_listed(a, last_state(s, moves), m.0)),
    ensures
        !moves_allowed(cfg, role, s, moves.push(m) + more),
    decreases moves.len(),
{
    if moves.len() > 0 {
        let rest = moves.drop_first();
        assert((moves.push(m) + more).drop_first() =~= rest.push(m) + more);
        assert(last_state(moves[0].0, rest) == last_state(s, moves)) by {
            if rest.len() > 0 {
                assert(rest.last() == moves.last());
            }
        }
        lemma_moves_refused(cfg, role, moves[0].0, rest, m, more);
    } else {
        assert((moves.push(m) + more)[0] == m);
    }
}

proof fn lemma_after_moves_keeps(c: ContextView, role: Role, moves: Seq<Move>)
    ensures
        after_moves(c, role, moves).0.blackboard == c.blackboard,
        after_moves(c, role, moves).0.artifacts == c.artifacts,
        after_moves(c, role, moves).0.collaboration_log == c.collaboration_log,
        after_moves(c, role, moves).0.release_id == c.release_id,
    decreases moves.len(),
{
    if moves.len() > 0 {
        lemma_after_moves_keeps(c, role, moves.drop_last());
    }
}

proof fn lemma_last_state_after(c: ContextView, role: Role, moves: Seq<Move>)
    requires
        0 <= role_index(role) < c.role_states.len(),
    ensures
        state_in(after_moves(c, role, moves).0, role) == last_state(state_in(c, role), moves),
        after_moves(c, role, moves).0.role_states.len() == c.role_states.len(),
    decreases moves.len(),
{
    if moves.len() > 0 {
        lemma_last_state_after(c, role, moves.drop_last());
    }
}

} // verus!

verus! {

/// What to do when a role rejects: retry it (up to `max_retry` times), or,
/// when retries are used up, approve it conditionally; both only when enabled.
#[derive(Debug, Clone, Copy, PartialEq, Eq, Structural)]
pub struct DevFallbackConfig {
    pub enabled: bool,
    pub max_retry: usize,
    pub allow_conditional_continue: bool,
}

/// The base prompt of each role, by role-table position.
pub struct RolePrompts {
    pub prompts: Vec<Option<String>>,
}

impl RolePrompts {
    pub open spec fn wf(&self) -> bool {
        self.prompts@.len() == ROLE_COUNT
    }

    /// The base prompt of `role`, if there is one.
    pub open spec fn prompt_of(&self, role: Role) -> Option<Seq<char>> {
        match self.prompts@[role_index(role)] {
            Some(p) => Some(p@),
            None => None,
        }
    }
}

/// The roles of every round after the first, in the order they start.
pub open spec fn all_roles() -> Seq<Role> {
    seq![Role::PM, Role::Dev, Role::QA, Role::Security, Role::SRE]
}

/// Which roles of the role table occur in `roles`.
pub open spec fn marks(roles: Seq<Role>) -> Seq<bool> {
    Seq::new(ROLE_COUNT as nat, |i: int| roles.contains(role_at(i)))
}

proof fn lemma_role_at_index(r: Role)
    ensures
        role_at(role_index(r)) == r,
        0 <= role_index(r) < ROLE_COUNT,
{
}

/// The state of an orchestration: the round, the roles waiting to run, which
/// roles are marked as queued, how often each role was retried, and how many
/// roles have been run.
pub struct Orchestration {
    pub collab_rounds: usize,
    pub max_steps: usize,
    pub fallback: DevFallbackConfig,
    pub round: usize,
    pub steps: usize,
    pub queue: Vec<Role>,
    pub queued: Vec<bool>,
    pub retries: Vec<usize>,
}

fn marks_of(roles: &Vec<Role>) -> (m: Vec<bool>)
    ensures
        m@ == marks(roles@),
{
    let mut m: Vec<bool> = Vec::new();
    let mut k: usize = 0;
    while k < ROLE_COUNT
        invariant
            k <= ROLE_COUNT,
            m@.len() == k,
            forall|j: int| 0 <= j < k ==> !(#[trigger] m@[j]),
        decreases ROLE_COUNT - k,
    {
        m.push(false);
        k = k + 1;
    }
    let mut i: usize = 0;
    while i < roles.len()
        invariant
            i <= roles@.len(),
            m@.len() == ROLE_COUNT,
            forall|j: int| 0 <= j < ROLE_COUNT ==> (#[trigger] m@[j]) == roles@.subrange(0, i as int).contains(role_at(j)),
        decreases roles@.len() - i,
    {
        let r = roles[i];
        proof {
            lemma_role_at_index(r);
        }
        m.set(role_slot(r), true);
        proof {
            assert forall|j: int| 0 <= j < ROLE_COUNT implies (#[trigger] m@[j]) == roles@.subrange(
                0,
                i as int + 1,
            ).contains(role_at(j)) by {
                let s0 = roles@.subrange(0, i as int);
                let s1 = roles@.subrange(0, i as int + 1);
                assert(s1 =~= s0.push(r));
                if j == role_index(r) {
                    assert(s1[i as int] == r);
                } else {
                    if s1.contains(role_at(j)) {
                        let w = choose|w: int| 0 <= w < s1.len() && s1[w] == role_at(j);
                        if w == i {
                            assert(role_at(role_index(r)) == r);
                        } else {
                            assert(s0[w] == role_at(j));
                        }
                    }
                }
            }
        }
        i = i + 1;
    }
    assert(roles@.subrange(0, roles@.len() as int) =~= roles@);
    assert(m@ =~= marks(roles@));
    m
}

fn all_roles_vec() -> (v: Vec<Role>)
    ensures
        v@ == all_roles(),
{
    let v = vec![Role::PM, Role::Dev, Role::QA, Role::Security, Role::SRE];
    assert(v@ =~= all_roles());
    v
}

/// What picking the next role does, from the orchestration `o0` and engine
/// `e0` to `o1` and `e1` with result `r`: with nothing left to run, `Ok(None)`
/// and nothing moves; otherwise the front role leaves the queue and is
/// refused when the step budget is spent, when it has no prompt or when it may
/// not start, and otherwise moves to `InProgress` and is handed out with its
/// prompt for the current round.
pub open spec fn action_taken(
    o0: Orchestration,
    o1: Orchestration,
    e0: WorkflowEngine,
    e1: WorkflowEngine,
    prompts: RolePrompts,
    r: Result<Option<(Role, String)>, EngineError>,
) -> bool {
    &&& o1.collab_rounds == o0.collab_rounds
    &&& o1.max_steps == o0.max_steps
    &&& o1.fallback == o0.fallback
    &&& o1.retries == o0.retries
    &&& o1.round == (if o0.refills() { o0.round + 1 } else { o0.round as int })
    &&& o0.next_queue().len() == 0 ==> (r matches Ok(None) && e1 == e0
        && o1.queue@ == o0.queue@)
    &&& o0.next_queue().len() > 0 ==> ({
        let role = o0.next_queue()[0];
        let queued0 = if o0.refills() { marks(all_roles()) } else { o0.queued@ };
        &&& o1.queue@ == o0.next_queue().drop_first()
        &&& o1.queued@ == queued0.update(role_index(role), false)
        &&& (o0.steps >= o0.max_steps ==> (r matches Err(EngineError::GateFailed(m))
            && m@ == "orchestration exceeded max_steps="@ + decimal(o0.max_steps as nat)))
        &&& (o0.steps < o0.max_steps ==> o1.steps == o0.steps + 1)
        &&& (o0.steps < o0.max_steps && prompts.prompt_of(role) is None ==> (r matches Err(
            EngineError::ExecutorInvoke(m),
        ) && m@ == "missing prompt for role="@ + role_key(role)))
        &&& ((o0.steps < o0.max_steps && prompts.prompt_of(role) is Some) ==> {
            let base = prompts.prompt_of(role)->0;
            &&& r is Ok <==> moves_allowed(
                e0.config,
                role,
                state_in(e0.context@, role),
                seq![(RoleState::InProgress, role_key(role) + " starts"@)],
            )
            &&& r matches Ok(Some((role2, p))) ==> role2 == role && p@ == collaboration_prompt(
                base,
                o1.round,
                role,
                e0.context@.blackboard.slots,
            ) && moved(
                e0,
                e1,
                role,
                seq![(RoleState::InProgress, role_key(role) + " starts"@)],
            )
            &&& r is Ok ==> r->Ok_0 is Some
        })
        &&& r is Err ==> e1 == e0
    })
}

impl Orchestration {
    pub open spec fn wf(&self) -> bool {
        &&& self.queued@.len() == ROLE_COUNT
        &&& self.retries@.len() == ROLE_COUNT
        &&& 1 <= self.round <= self.collab_rounds
        &&& self.steps <= self.max_steps
    }

    /// An orchestration that starts round 1 with `initial_roles` queued; it
    /// runs `max(collab_rounds, 1)` rounds and at most `max_steps` roles.
    pub fn start(initial_roles: Vec<Role>, collab_rounds: usize, max_steps: usize, fallback: DevFallbackConfig) -> (o: Self)
        ensures
            o.wf(),
            o.collab_rounds == (if collab_rounds > 0 { collab_rounds } else { 1 }),
            o.max_steps == max_steps,
            o.fallback == fallback,
            o.round == 1,
            o.steps == 0,
            o.queue@ == initial_roles@,
            o.queued@ == marks(initial_roles@),
            forall|i: int| 0 <= i < ROLE_COUNT ==> o.retries@[i] == 0,
    {
        let queued = marks_of(&initial_roles);
        let mut retries: Vec<usize> = Vec::new();
        let mut k: usize = 0;
        while k < ROLE_COUNT
            invariant
                k <= ROLE_COUNT,
                retries@.len() == k,
                forall|j: int| 0 <= j < k ==> #[trigger] retries@[j] == 0,
            decreases ROLE_COUNT - k,
        {
            retries.push(0);
            k = k + 1;
        }
        Orchestration {
            collab_rounds: if collab_rounds > 0 { collab_rounds } else { 1 },
            max_steps,
            fallback,
            round: 1,
            steps: 0,
            queue: initial_roles,
            queued,
            retries,
        }
    }

    /// Whether the current round is over and another one is due.
    pub open spec fn refills(&self) -> bool {
        self.queue@.len() == 0 && self.round < self.collab_rounds
    }

    /// The queue once a finished round gives way to the next.
    pub open spec fn next_queue(&self) -> Seq<Role> {
        if self.refills() { all_roles() } else { self.queue@ }
    }

    /// Picks the next role to run and moves it to `InProgress`: the front of
    /// the queue, after starting the next round with every role when the
    /// current one is over. `None` when the last round is over. Refuses when
    /// the step budget is spent, when the role has no prompt, or when its move
    /// is not allowed.
    pub fn next_action(&mut self, engine: &mut WorkflowEngine, prompts: &RolePrompts) -> (r: Result<Option<(Role, String)>, EngineError>)
        requires
            old(self).wf(),
            old(engine).wf(),
            prompts.wf(),
        ensures
            final(self).wf(),
            final(engine).wf(),
            action_taken(*old(self), *final(self), *old(engine), *final(engine), *prompts, r),
    {
        if self.queue.len() == 0 && self.round < self.collab_rounds {
            self.round = self.round + 1;
            self.queue = all_roles_vec();
            self.queued = marks_of(&self.queue);
        }
        if self.queue.len() == 0 {
            return Ok(None);
        }
        let role = self.queue.remove(0);
        self.queued.set(role_slot(role), false);
        if self.steps >= self.max_steps {
            let m = cat("orchestration exceeded max_steps=", decimal_string(self.max_steps as u64).as_str());
            return Err(EngineError::GateFailed(m));
        }
        self.steps = self.steps + 1;
        let base = match &prompts.prompts[role_slot(role)] {
            Some(p) => p,
            None => {
                return Err(EngineError::ExecutorInvoke(cat("missing prompt for role=", role.as_key())));
            },
        };
        let prompt = augment_prompt_with_collaboration(base.as_str(), self.round, &role, &engine.context.blackboard.slots);
        assert(engine.context@.blackboard.slots =~= engine.context.blackboard.slots@.map_values(
            |o: Option<Json>| crate::model::opt_json(o),
        ));
        let reason = cat(role.as_key(), " starts");
        proof {
            lemma_moved_none(*engine, role);
            let m = (RoleState::InProgress, reason@);
            assert(seq![m] =~= Seq::<Move>::empty().push(m));
            assert(seq![m].drop_first() =~= Seq::<Move>::empty());
        }
        engine.transition_role(role, RoleState::InProgress, reason.as_str())?;
        proof {
            lemma_moved_step(*old(engine), *old(engine), *engine, role, Seq::empty(), RoleState::InProgress, reason@);
            assert(Seq::<Move>::empty().push((RoleState::InProgress, reason@)) =~= seq![(RoleState::InProgress, reason@)]);
            assert(moves_allowed(old(engine).config, role, RoleState::InProgress, Seq::<Move>::empty()));
            assert(moves_allowed(
                old(engine).config,
                role,
                state_in(old(engine).context@, role),
                seq![(RoleState::InProgress, reason@)],
            ));
        }
        Ok(Some((role, prompt)))
    }
}

} // verus!

verus! {

/// The decision an artifact carries; `rejected` when it has none.
pub open spec fn artifact_decision(a: JsonView) -> Seq<char> {
    match jstr(jget(a, "decision"@)) {
        Some(d) => d,
        None => "rejected"@,
    }
}

/// How a role's decision was settled: it goes on to routing, or it was put
/// back at the front of the queue to run again.
#[derive(Debug, Clone, Copy, PartialEq, Eq, Structural)]
pub enum Settlement {
    Continue,
    Retry,
}

/// The moves that settle a decision: approval; rejection; or rejection
/// followed by a conditional approval.
pub open spec fn settle_moves(role: Role, approved: bool, conditional: bool) -> Seq<Move> {
    if approved {
        seq![(RoleState::Approved, role_key(role) + " approved"@)]
    } else if conditional {
        seq![
            (RoleState::Rejected, role_key(role) + " rejected"@),
            (RoleState::InProgress, role_key(role) + " fallback restart"@),
            (RoleState::Submitted, role_key(role) + " fallback submit"@),
            (RoleState::Approved, role_key(role) + " conditional approved"@),
        ]
    } else {
        seq![(RoleState::Rejected, role_key(role) + " rejected"@)]
    }
}

/// The first `k` moves of a list.
pub open spec fn first_moves(moves: Seq<Move>, k: int) -> Seq<Move> {
    moves.subrange(0, k)
}

/// The artifact approves, in any ASCII case.
pub open spec fn approved_artifact(a: JsonView) -> bool {
    eq_ignore_case(artifact_decision(a), "approved"@)
}

impl Orchestration {
    /// A rejection of `role` is retried: retries are enabled and some are left.
    pub open spec fn retry_for(&self, role: Role, a: JsonView) -> bool {
        !approved_artifact(a) && self.fallback.enabled && self.retries@[role_index(role)] < self.fallback.max_retry
    }

    /// A rejection of `role` is approved conditionally: no retry is left and
    /// conditional continuation is enabled.
    pub open spec fn conditional_for(&self, role: Role, a: JsonView) -> bool {
        !approved_artifact(a) && !self.retry_for(role, a) && self.fallback.enabled
            && self.fallback.allow_conditional_continue
    }

    /// A rejection of `role` ends the orchestration.
    pub open spec fn fatal_for(&self, role: Role, a: JsonView) -> bool {
        !approved_artifact(a) && !self.retry_for(role, a) && !self.conditional_for(role, a)
    }

    /// The moves that settle the decision of artifact `a` of `role`.
    pub open spec fn settle_moves_for(&self, role: Role, a: JsonView) -> Seq<Move> {
        settle_moves(role, approved_artifact(a), self.conditional_for(role, a))
    }
}

impl Orchestration {
    /// Moves `role` to `target`, extending the moves made since `e0`.
    fn apply_move(
        engine: &mut WorkflowEngine,
        role: Role,
        target: RoleState,
        reason: &str,
        Ghost(e0): Ghost<WorkflowEngine>,
        Ghost(done): Ghost<Seq<Move>>,
    ) -> (r: Result<(), EngineError>)
        requires
            old(engine).wf(),
            e0.wf(),
            moved(e0, *old(engine), role, done),
            moves_allowed(e0.config, role, state_in(e0.context@, role), done),
        ensures
            final(engine).wf(),
            r is Ok <==> (e0.config.allowed(role) matches Some(a) && transition_listed(
                a,
                last_state(state_in(e0.context@, role), done),
                target,
            )),
            r is Ok ==> moved(e0, *final(engine), role, done.push((target, reason@))) && moves_allowed(
                e0.config,
                role,
                state_in(e0.context@, role),
                done.push((target, reason@)),
            ),
            r is Err ==> *final(engine) == *old(engine),
    {
        proof {
            lemma_last_state_after(e0.context@, role, done);
        }
        let r = engine.transition_role(role, target, reason);
        proof {
            if r is Ok {
                lemma_moved_step(e0, *old(engine), *engine, role, done, target, reason@);
                lemma_moves_allowed_push(e0.config, role, state_in(e0.context@, role), done, (target, reason@));
            }
        }
        r
    }

    /// Settles the decision of the artifact `role` just submitted: approval
    /// approves the role; a rejection rejects it, then retries it when retries
    /// are enabled and left, or approves it conditionally when that is
    /// enabled, and otherwise fails. Returns the settlement and the notices to
    /// show.
    pub fn settle_decision(&mut self, engine: &mut WorkflowEngine, role: Role, artifact: &Json) -> (r: Result<
        (Settlement, Vec<String>),
        EngineError,
    >)
        requires
            old(self).wf(),
            old(engine).wf(),
        ensures
            final(self).wf(),
            final(engine).wf(),
            r is Ok <==> moves_allowed(
                old(engine).config,
                role,
                state_in(old(engine).context@, role),
                old(self).settle_moves_for(role, json_view(*artifact)),
            ) && !old(self).fatal_for(role, json_view(*artifact)),
            r is Ok ==> moved(*old(engine), *final(engine), role, old(self).settle_moves_for(role, json_view(*artifact))),
            r is Err ==> exists|k: int|
                0 <= k <= old(self).settle_moves_for(role, json_view(*artifact)).len() && moved(
                    *old(engine),
                    *final(engine),
                    role,
                    first_moves(old(self).settle_moves_for(role, json_view(*artifact)), k),
                ),
            (old(self).fatal_for(role, json_view(*artifact)) && moves_allowed(
                old(engine).config,
                role,
                state_in(old(engine).context@, role),
                old(self).settle_moves_for(role, json_view(*artifact)),
            )) ==> (r matches Err(EngineError::GateFailed(m)) && m@ == "role="@ + role_key(role)
                + " rejected by artifact decision"@),
            r matches Ok((st, _)) ==> (st == Settlement::Retry) == old(self).retry_for(role, json_view(*artifact)),
            r is Ok && old(self).retry_for(role, json_view(*artifact)) ==> ({
                let n = old(self).retries@[role_index(role)];
                &&& final(self).queue@ == seq![role] + old(self).queue@
                &&& final(self).queued@ == old(self).queued@.update(role_index(role), true)
                &&& final(self).retries@ == old(self).retries@.update(role_index(role), (n + 1) as usize)
                &&& r->Ok_0.1@.len() == 1
                &&& r->Ok_0.1@[0]@ == "dev-fallback retry role="@ + role_key(role) + " attempt="@ + decimal((n + 1) as nat)
                    + "/"@ + decimal(old(self).fallback.max_retry as nat)
            }),
            !old(self).retry_for(role, json_view(*artifact)) ==> final(self).queue@ == old(self).queue@
                && final(self).queued@ == old(self).queued@ && final(self).retries@ == old(self).retries@,
            r is Ok && old(self).conditional_for(role, json_view(*artifact)) ==> r->Ok_0.1@.len() == 1
                && r->Ok_0.1@[0]@ == "dev-fallback conditional continue role="@ + role_key(role) + " (decision="@
                + artifact_decision(json_view(*artifact)) + ")"@,
            r is Ok && approved_artifact(json_view(*artifact)) ==> r->Ok_0.1@.len() == 0,
            final(self).round == old(self).round,
            final(self).steps == old(self).steps,
            final(self).collab_rounds == old(self).collab_rounds,
            final(self).max_steps == old(self).max_steps,
            final(self).fallback == old(self).fallback,
    {
        let ghost e0 = *engine;
        let ghost a = json_view(*artifact);
        let ghost s0 = state_in(e0.context@, role);
        let ghost ms = self.settle_moves_for(role, a);
        proof {
            lemma_moved_none(e0, role);
        }
        let decision = match str_member_of(artifact, "decision") {
            Some(d) => d,
            None => "rejected".to_string(),
        };
        let approved = eq_ignore_ascii_case(decision.as_str(), "approved");
        let mut notices: Vec<String> = Vec::new();
        if approved {
            let reason = cat(role.as_key(), " approved");
            let r = Self::apply_move(engine, role, RoleState::Approved, reason.as_str(), Ghost(e0), Ghost(Seq::empty()));
            proof {
                let ms = settle_moves(role, true, false);
                assert(Seq::<Move>::empty().push((RoleState::Approved, reason@)) =~= ms);
                if r is Err {
                    assert(first_moves(ms, 0) =~= Seq::<Move>::empty());
                    assert(moved(e0, *engine, role, first_moves(ms, 0)));
                    assert(ms.drop_first() =~= Seq::<Move>::empty());
                    assert(!moves_allowed(e0.config, role, s0, ms));
                }
            }
            match r {
                Err(e) => {
                    proof {
                        assert(eq_ignore_case(artifact_decision(a), "approved"@));
                        let ms = settle_moves(role, true, false);
                        assert(!moves_allowed(e0.config, role, s0, ms));
                        assert(moved(e0, *engine, role, first_moves(ms, 0)));
                        assert(moved(*old(engine), *engine, role, first_moves(self.settle_moves_for(role, a), 0)));
                    }
                    return Err(e);
                },
                Ok(()) => {},
            }
            return Ok((Settlement::Continue, notices));
        }
        let key = role.as_key();
        let reason = cat(key, " rejected");
        let r = Self::apply_move(engine, role, RoleState::Rejected, reason.as_str(), Ghost(e0), Ghost(Seq::empty()));
        let ghost m1 = (RoleState::Rejected, reason@);
        let ghost done1 = Seq::<Move>::empty().push(m1);
        proof {
            assert(first_moves(settle_moves(role, false, false), 0) =~= Seq::<Move>::empty());
            assert(first_moves(settle_moves(role, false, true), 0) =~= Seq::<Move>::empty());
            assert(done1 =~= seq![m1]);
            assert(done1 =~= first_moves(settle_moves(role, false, true), 1));
            if r is Err {
                assert(moved(e0, *engine, role, first_moves(ms, 0)));
                assert(moved(e0, *engine, role, first_moves(settle_moves(role, false, false), 0)));
                assert(moved(e0, *engine, role, first_moves(settle_moves(role, false, true), 0)));
                lemma_moves_refused(e0.config, role, s0, Seq::empty(), m1, Seq::empty());
                lemma_moves_refused(e0.config, role, s0, Seq::empty(), m1, settle_moves(role, false, true).subrange(1, 4));
                assert(Seq::<Move>::empty().push(m1) + Seq::<Move>::empty() =~= settle_moves(role, false, false));
                assert(Seq::<Move>::empty().push(m1) + settle_moves(role, false, true).subrange(1, 4) =~= settle_moves(
                    role,
                    false,
                    true,
                ));
            }
        }
        match r {
            Err(e) => {
                return Err(e);
            },
            Ok(()) => {},
        }
        let slot = role_slot(role);
        let n = self.retries[slot];
        if self.fallback.enabled && n < self.fallback.max_retry {
            self.retries.set(slot, n + 1);
            let a1 = cat("dev-fallback retry role=", key);
            let a2 = cat(a1.as_str(), " attempt=");
            let a3 = cat(a2.as_str(), decimal_string((n + 1) as u64).as_str());
            let a4 = cat(a3.as_str(), "/");
            let a5 = cat(a4.as_str(), decimal_string(self.fallback.max_retry as u64).as_str());
            notices.push(a5);
            self.queue.insert(0, role);
            self.queued.set(slot, true);
            proof {
                assert(self.queue@ =~= seq![role] + old(self).queue@);
                assert(done1 =~= settle_moves(role, false, false));
            }
            return Ok((Settlement::Retry, notices));
        }
        if self.fallback.enabled && self.fallback.allow_conditional_continue {
            let c1 = cat("dev-fallback conditional continue role=", key);
            let c2 = cat(c1.as_str(), " (decision=");
            let c3 = cat(c2.as_str(), decision.as_str());
            let c4 = cat(c3.as_str(), ")");
            notices.push(c4);
            let ghost all = settle_moves(role, false, true);
            let reason2 = cat(key, " fallback restart");
            let r2 = Self::apply_move(engine, role, RoleState::InProgress, reason2.as_str(), Ghost(e0), Ghost(done1));
            let ghost m2 = (RoleState::InProgress, reason2@);
            let ghost done2 = done1.push(m2);
            proof {
                assert(done2 =~= first_moves(all, 2));
                if r2 is Err {
                    assert(last_state(s0, done1) == RoleState::Rejected);
                    lemma_moves_refused(e0.config, role, s0, done1, m2, all.subrange(2, 4));
                    assert(done1.push(m2) + all.subrange(2, 4) =~= all);
                }
            }
            r2?;
            let reason3 = cat(key, " fallback submit");
            let r3 = Self::apply_move(engine, role, RoleState::Submitted, reason3.as_str(), Ghost(e0), Ghost(done2));
            let ghost m3 = (RoleState::Submitted, reason3@);
            let ghost done3 = done2.push(m3);
            proof {
                assert(done3 =~= first_moves(all, 3));
                if r3 is Err {
                    assert(last_state(s0, done2) == RoleState::InProgress);
                    lemma_moves_refused(e0.config, role, s0, done2, m3, all.subrange(3, 4));
                    assert(done2.push(m3) + all.subrange(3, 4) =~= all);
                }
            }
            r3?;
            let reason4 = cat(key, " conditional approved");
            let r4 = Self::apply_move(engine, role, RoleState::Approved, reason4.as_str(), Ghost(e0), Ghost(done3));
            let ghost m4 = (RoleState::Approved, reason4@);
            proof {
                assert(done3.push(m4) =~= all);
                if r4 is Err {
                    assert(last_state(s0, done3) == RoleState::Submitted);
                    lemma_moves_refused(e0.config, role, s0, done3, m4, Seq::empty());
                    assert(done3.push(m4) + Seq::<Move>::empty() =~= all);
                }
            }
            r4?;
            return Ok((Settlement::Continue, notices));
        }
        proof {
            assert(done1 =~= settle_moves(role, false, false));
            assert(first_moves(done1, 1) =~= done1);
            assert(moved(e0, *engine, role, first_moves(settle_moves(role, false, false), 1)));
            assert(moved(e0, *engine, role, first_moves(ms, 1)));
        }
        Err(EngineError::GateFailed(cat(cat("role=", key).as_str(), " rejected by artifact decision")))
    }
}

} // verus!

verus! {

/// Where routing takes the orchestration after `role`: the role to run next,
/// where that choice came from, and why the artifact's own choice was refused.
/// The artifact's choice counts when it names another role that is idle or
/// rejected; otherwise the fixed order decides.
pub open spec fn route_choice(role: Role, routed: Option<Role>, c: ContextView) -> (Option<Role>, Seq<char>, Option<Seq<char>>) {
    let source0 = if routed is Some { "artifact_next_role"@ } else { "none"@ };
    let candidate = match routed {
        Some(n) => if n != role { Some(n) } else { None },
        None => None,
    };
    let (next1, blocked) = match candidate {
        Some(n) => {
            let s = state_in(c, n);
            if s == RoleState::Idle || s == RoleState::Rejected {
                (Some(n), None)
            } else {
                (None, Some("candidate state is "@ + role_state_key(s) + " (must be Idle/Rejected)"@))
            }
        },
        None => (None, None),
    };
    let next = match next1 {
        Some(n) => Some(n),
        None => fallback_role(role),
    };
    let source = if next1 is None && next is Some { "fallback_next_role"@ } else { source0 };
    (next, source, blocked)
}

/// The entry the collaboration log gets for a dispatch.
pub open spec fn collaboration_entry(round: usize, from: Role, to: Role, decision: Seq<char>, summary: JsonView) -> JsonView {
    JsonView::Object(
        seq![
            ("round"@, JsonView::Number(NumberView::PosInt(round as u64))),
            ("from"@, JsonView::Str(role_key(from))),
            ("to"@, JsonView::Str(role_key(to))),
            ("decision"@, JsonView::Str(decision)),
            ("summary"@, summary),
        ],
    )
}

/// The summary an artifact carries, an empty string when it has none.
pub open spec fn artifact_summary(a: JsonView) -> JsonView {
    match jget(a, "summary"@) {
        Some(v) => v,
        None => JsonView::Str(Seq::empty()),
    }
}

/// A role that may be queued again: idle or rejected.
pub open spec fn requeueable(s: RoleState) -> bool {
    s == RoleState::Idle || s == RoleState::Rejected
}

/// `o1` and `c1` are `o0` and `c0` after routing from `role`, whose artifact
/// is `a` and asked for `routed`; see `Orchestration::route`.
pub open spec fn route_done(
    o0: Orchestration,
    o1: Orchestration,
    c0: ContextView,
    c1: ContextView,
    role: Role,
    a: JsonView,
    routed: Option<Role>,
) -> bool {
    let (next, source, blocked) = route_choice(role, routed, c0);
    let decision = artifact_decision(a);
    match next {
        None => {
            &&& c1 == c0
            &&& o1.queue@ == o0.queue@
            &&& o1.queued@ == o0.queued@
        },
        Some(n) => {
            let s = state_in(c0, n);
            let enqueue = requeueable(s) && !o0.queued@[role_index(n)];
            let audit = dispatch_audit(
                c0.release_id,
                o0.round,
                role,
                decision,
                match routed {
                    Some(x) => Some(role_key(x)),
                    None => None,
                },
                source,
                blocked,
                n,
                s,
                c0.blackboard.version,
            );
            &&& o1.queue@ == (if enqueue { o0.queue@.push(n) } else { o0.queue@ })
            &&& o1.queued@ == (if enqueue {
                o0.queued@.update(role_index(n), true)
            } else {
                o0.queued@
            })
            &&& c1 == ContextView {
                blackboard: crate::model::BlackboardView {
                    version: (c0.blackboard.version + 1) as u64,
                    events: c0.blackboard.events.push(
                        crate::model::EventView {
                            id: (c0.blackboard.version + 1) as u64,
                            round: o0.round,
                            from: "Engine"@,
                            event_type: "dispatch_decided"@,
                            decision: "scheduled"@,
                            summary: "Engine scheduled next role "@ + role_key(n),
                            next_role: Some(role_key(n)),
                            audit,
                        },
                    ),
                    ..c0.blackboard
                },
                collaboration_log: c0.collaboration_log.push(
                    collaboration_entry(o0.round, role, n, decision, artifact_summary(a)),
                ),
                ..c0
            }
        },
    }
}

impl Orchestration {
    /// Chooses the role to run after `role` and records the decision: the
    /// chosen role is queued at the back when it may run again and is not
    /// queued yet; the decision is logged on the blackboard with its audit
    /// record and in the collaboration log.
    pub fn route(&mut self, engine: &mut WorkflowEngine, role: Role, artifact: &Json, routed: Option<Role>)
        requires
            old(self).wf(),
            old(engine).wf(),
            old(engine).context.blackboard.version < u64::MAX,
        ensures
            final(self).wf(),
            final(engine).wf(),
            final(engine).config == old(engine).config,
            final(engine).gates == old(engine).gates,
            final(engine).history == old(engine).history,
            final(self).round == old(self).round,
            final(self).steps == old(self).steps,
            final(self).retries == old(self).retries,
            final(self).collab_rounds == old(self).collab_rounds,
            final(self).max_steps == old(self).max_steps,
            final(self).fallback == old(self).fallback,
            route_done(*old(self), *final(self), old(engine).context@, final(engine).context@, role, json_view(*artifact), routed),
    {
        let ghost c0 = engine.context@;
        let routed_key: Option<&str> = match routed {
            Some(r) => Some(r.as_key()),
            None => None,
        };
        let candidate = match routed {
            Some(n) => if n != role { Some(n) } else { None },
            None => None,
        };
        let mut route_source: &str = if routed_key.is_some() { "artifact_next_role" } else { "none" };
        let mut blocked_reason: Option<String> = None;
        let mut next_role = candidate;
        match candidate {
            Some(n) => {
                let state = engine.context.role_states.get(n);
                if !(state == RoleState::Idle || state == RoleState::Rejected) {
                    next_role = None;
                    let b1 = cat("candidate state is ", state.as_key());
                    blocked_reason = Some(cat(b1.as_str(), " (must be Idle/Rejected)"));
                }
            },
            None => {},
        }
        let used_fallback = next_role.is_none();
        let next_role = match next_role {
            Some(n) => Some(n),
            None => fallback_next_role(&role),
        };
        if used_fallback && next_role.is_some() {
            route_source = "fallback_next_role";
        }
        let ghost choice = route_choice(role, routed, c0);
        assert(next_role == choice.0);
        assert(route_source@ == choice.1);
        assert(match blocked_reason {
            Some(b) => choice.2 == Some(b@),
            None => choice.2 is None,
        });
        match next_role {
            None => {},
            Some(next) => {
                let state = engine.context.role_states.get(next);
                let slot = role_slot(next);
                if (state == RoleState::Idle || state == RoleState::Rejected) && !self.queued[slot] {
                    self.queue.push(next);
                    self.queued.set(slot, true);
                }
                let evidence_event_id = engine.context.blackboard.version;
                let decision = match str_member_of(artifact, "decision") {
                    Some(d) => d,
                    None => "rejected".to_string(),
                };
                let release_id = engine.context.release_id.clone();
                let blocked: Option<&str> = match &blocked_reason {
                    Some(b) => Some(b.as_str()),
                    None => None,
                };
                let audit = build_dispatch_audit(
                    release_id.as_str(),
                    self.round,
                    &role,
                    decision.as_str(),
                    routed_key,
                    route_source,
                    blocked,
                    &next,
                    state,
                    evidence_event_id,
                );
                let reason = cat("Engine scheduled next role ", next.as_key());
                BlackboardAgent::record_dispatch(&mut engine.context.blackboard, self.round, &next, reason.as_str(), audit);
                let summary = match artifact.get("summary") {
                    Some(v) => v.duplicate(),
                    None => string_value(String::new()),
                };
                let mut entry: Vec<(String, Json)> = Vec::new();
                entry.push(("round".to_string(), number(self.round as u64)));
                entry.push(("from".to_string(), text(role.as_key())));
                entry.push(("to".to_string(), text(next.as_key())));
                entry.push(("decision".to_string(), string_value(decision)));
                entry.push(("summary".to_string(), summary));
                let entry = Json::Object(entry);
                assert(json_view(entry)->Object_0 =~= collaboration_entry(
                    self.round,
                    role,
                    next,
                    artifact_decision(json_view(*artifact)),
                    artifact_summary(json_view(*artifact)),
                )->Object_0);
                let ghost log0 = engine.context.collaboration_log@;
                engine.context.collaboration_log.push(entry);
                proof {
                    assert(crate::engine::jsons_view(engine.context.collaboration_log@) =~= crate::engine::jsons_view(log0).push(
                        json_view(entry),
                    ));
                    assert(engine.context@.blackboard.slots == c0.blackboard.slots);
                }
            },
        }
    }
}

} // verus!

verus! {

/// What taking `role`'s artifact `raw_v` in the current round does, from the
/// orchestration `s0` and engine `e0` to `s1` and `e_end` with result `r`: it
/// succeeds exactly when the staged artifacts are valid, the role may submit,
/// and its decision may be settled without a fatal refusal; then the artifact
/// is published, the decision settled, and the role either retried (put back
/// at the front of the queue) or routed onwards.
pub open spec fn artifact_taken(
    s0: Orchestration,
    s1: Orchestration,
    e0: WorkflowEngine,
    e_end: WorkflowEngine,
    role: Role,
    raw_v: JsonView,
    r: Result<Vec<String>, EngineError>,
) -> bool {
    let c0 = e0.context@;
    let round = s0.round;
    let a = round_artifact(raw_v, c0.release_id, role, round);
    let publish_ok = first_invalid(staged_artifacts(c0, role, round, raw_v), 0) is None && moves_allowed(
        e0.config,
        role,
        state_in(c0, role),
        seq![(RoleState::Submitted, role_key(role) + " submits artifact"@)],
    );
    let settle_ok = moves_allowed(e0.config, role, RoleState::Submitted, s0.settle_moves_for(role, a))
        && !s0.fatal_for(role, a);
    let routed = routed_role(normalized_artifact(raw_v, c0.release_id, role));
    &&& r is Ok <==> publish_ok && settle_ok
    &&& r is Ok ==> exists|e1: WorkflowEngine, e2: WorkflowEngine, b1: BlackboardView, bb: JsonView|
        {
            &&& published(e0, e1, role, round, raw_v, b1, bb)
            &&& moved(e1, e2, role, s0.settle_moves_for(role, a))
            &&& s0.retry_for(role, a) ==> e_end == e2 && s1.queue@ == seq![role] + s0.queue@
                && s1.queued@ == s0.queued@.update(role_index(role), true)
            &&& !s0.retry_for(role, a) ==> route_done(s0, s1, e2.context@, e_end.context@, role, a, routed)
        }
}

impl Orchestration {
    /// Takes the raw artifact that `role` produced in the current round:
    /// publishes it, settles its decision, and, unless the role is retried,
    /// routes to the next role. Returns the notices to show.
    pub fn on_artifact(&mut self, engine: &mut WorkflowEngine, role: Role, raw: Json) -> (r: Result<Vec<String>, EngineError>)
        requires
            old(self).wf(),
            old(engine).wf(),
            settable(json_view(raw)),
            old(engine).context.blackboard.version < u64::MAX - 1,
            old(engine).context.blackboard.events@.len() < usize::MAX,
        ensures
            final(self).wf(),
            final(engine).wf(),
            final(engine).config == old(engine).config,
            final(engine).gates == old(engine).gates,
            final(self).round == old(self).round,
            final(self).steps == old(self).steps,
            final(self).max_steps == old(self).max_steps,
            final(self).collab_rounds == old(self).collab_rounds,
            artifact_taken(*old(self), *final(self), *old(engine), *final(engine), role, json_view(raw), r),
    {
        let ghost e0 = *engine;
        let ghost o0 = *self;
        let round = self.round;
        let p = publish_artifact(engine, round, &role, raw);
        let publication = match p {
            Err(e) => {
                return Err(e);
            },
            Ok(x) => x,
        };
        let ghost e1 = *engine;
        let ghost a = json_view(publication.artifact);
        proof {
            lemma_last_state_after(
                e1.context@,
                role,
                Seq::<Move>::empty(),
            );
        }
        let settled = self.settle_decision(engine, role, &publication.artifact);
        let (settlement, notices) = match settled {
            Err(e) => {
                return Err(e);
            },
            Ok(x) => x,
        };
        let ghost e2 = *engine;
        proof {
            lemma_after_moves_keeps(e1.context@, role, o0.settle_moves_for(role, a));
        }
        match settlement {
            Settlement::Retry => {
                return Ok(notices);
            },
            Settlement::Continue => {},
        }
        self.route(engine, role, &publication.artifact, publication.next_role);
        Ok(notices)
    }
}

} // verus!
