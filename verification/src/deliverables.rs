//! Where each role's deliverable of a week goes, and which files a finished
//! orchestration writes.

use vstd::prelude::*;
use crate::model::{Role, role_key, str_member_of};
use crate::text::{cat, substring};
use crate::json::{Json, JsonView, json_view, jget, jstr};
use crate::engine::{ContextView, WorkflowEngine, artifact_index};
use crate::orchestration::latest_artifact_name;

verus! {

/// The deliverable of a working role in a week of phase 1; weeks other than
/// 1 to 6 use week 1's.
pub open spec fn week_path(week: usize, role: Role) -> Seq<char> {
    if week == 2 {
        match role {
            Role::PM => "phase1_week2_execution_board.md"@,
            Role::Dev => "phase1_week2_dev_delivery.md"@,
            Role::QA => "phase1_week2_qa_plan.md"@,
            Role::Security => "phase1_week2_observability_plan.md"@,
            _ => "phase1_week2_sre_plan.md"@,
        }
    } else if week == 3 {
        match role {
            Role::PM => "phase1_week3_execution_board.md"@,
            Role::Dev => "phase1_week3_dev_replay_plan.md"@,
            Role::QA => "phase1_week3_qa_consistency_plan.md"@,
            Role::Security => "phase1_week3_security_review.md"@,
            _ => "phase1_week3_observability_plan.md"@,
        }
    } else if week == 4 {
        match role {
            Role::PM => "phase1_week4_execution_board.md"@,
            Role::Dev => "phase1_week4_commit_blocking_plan.md"@,
            Role::QA => "phase1_week4_qa_adversarial_plan.md"@,
            Role::Security => "phase1_week4_nondeterminism_scanner_plan.md"@,
            _ => "phase1_week4_sre_readiness.md"@,
        }
    } else if week == 5 {
        match role {
            Role::PM => "phase1_week5_execution_board.md"@,
            Role::Dev => "phase1_week5_dev_stabilization.md"@,
            Role::QA => "phase1_week5_qa_e2e_plan.md"@,
            Role::Security => "phase1_week5_pmo_gate_pack.md"@,
            _ => "phase1_week5_sre_gray_readiness.md"@,
        }
    } else if week == 6 {
        match role {
            Role::PM => "phase1_week6_closeout_report.md"@,
            Role::Dev => "phase1_week6_gate_final_review.md"@,
            Role::QA => "phase1_week6_metrics_evidence_pack.md"@,
            Role::Security => "phase1_week6_security_final_opinion.md"@,
            _ => "phase1_week6_gate_material_checklist.md"@,
        }
    } else {
        match role {
            Role::PM => "phase1_week1_prd_v1.md"@,
            Role::Dev => "phase1_week1_adr_v1.md"@,
            Role::QA => "phase1_week1_test_matrix_v1.md"@,
            Role::Security => "phase1_week3_security_review.md"@,
            _ => "phase1_week1_risk_register_v1.md"@,
        }
    }
}

/// The deliverable of a working role (not the blackboard) in a week.
fn phase1_path(week: usize, role: &Role) -> (p: &'static str)
    requires
        *role != Role::Blackboard,
    ensures
        p@ == week_path(week, *role),
{
    if week == 2 {
        match role {
            Role::PM => "phase1_week2_execution_board.md",
            Role::Dev => "phase1_week2_dev_delivery.md",
            Role::QA => "phase1_week2_qa_plan.md",
            Role::Security => "phase1_week2_observability_plan.md",
            _ => "phase1_week2_sre_plan.md",
        }
    } else if week == 3 {
        match role {
            Role::PM => "phase1_week3_execution_board.md",
            Role::Dev => "phase1_week3_dev_replay_plan.md",
            Role::QA => "phase1_week3_qa_consistency_plan.md",
            Role::Security => "phase1_week3_security_review.md",
            _ => "phase1_week3_observability_plan.md",
        }
    } else if week == 4 {
        match role {
            Role::PM => "phase1_week4_execution_board.md",
            Role::Dev => "phase1_week4_commit_blocking_plan.md",
            Role::QA => "phase1_week4_qa_adversarial_plan.md",
            Role::Security => "phase1_week4_nondeterminism_scanner_plan.md",
            _ => "phase1_week4_sre_readiness.md",
        }
    } else if week == 5 {
        match role {
            Role::PM => "phase1_week5_execution_board.md",
            Role::Dev => "phase1_week5_dev_stabilization.md",
            Role::QA => "phase1_week5_qa_e2e_plan.md",
            Role::Security => "phase1_week5_pmo_gate_pack.md",
            _ => "phase1_week5_sre_gray_readiness.md",
        }
    } else if week == 6 {
        match role {
            Role::PM => "phase1_week6_closeout_report.md",
            Role::Dev => "phase1_week6_gate_final_review.md",
            Role::QA => "phase1_week6_metrics_evidence_pack.md",
            Role::Security => "phase1_week6_security_final_opinion.md",
            _ => "phase1_week6_gate_material_checklist.md",
        }
    } else {
        match role {
            Role::PM => "phase1_week1_prd_v1.md",
            Role::Dev => "phase1_week1_adr_v1.md",
            Role::QA => "phase1_week1_test_matrix_v1.md",
            Role::Security => "phase1_week3_security_review.md",
            _ => "phase1_week1_risk_register_v1.md",
        }
    }
}

/// A role's deliverable in a week when its artifact provides none; the
/// blackboard's is a fallback note.
pub open spec fn fallback_deliverable(role: Role, week: usize) -> Seq<char> {
    if role == Role::Blackboard {
        "runtime_artifacts/blackboard_fallback.md"@
    } else {
        week_path(week, role)
    }
}

/// A role's deliverable in a week when its artifact provides none.
pub fn role_default_deliverable_path(role: &Role, week: usize) -> (p: &'static str)
    ensures
        p@ == fallback_deliverable(*role, week),
{
    match role {
        Role::Blackboard => "runtime_artifacts/blackboard_fallback.md",
        _ => phase1_path(week, role),
    }
}

/// A role's target deliverable in a week, as prompts and the mock executor
/// name it; the blackboard's is its notes.
pub open spec fn target_deliverable(week: usize, role: Role) -> Seq<char> {
    if role == Role::Blackboard {
        "runtime_artifacts/blackboard.md"@
    } else {
        week_path(week, role)
    }
}

/// A role's target deliverable in a week.
pub fn default_deliverable_path(week: usize, role: &Role) -> (p: &'static str)
    ensures
        p@ == target_deliverable(week, *role),
{
    match role {
        Role::Blackboard => "runtime_artifacts/blackboard.md",
        _ => phase1_path(week, role),
    }
}

/// A role's target deliverable in a week, for a stage that names none.
pub fn week_role_deliverable_path(week: usize, role: &Role) -> (p: &'static str)
    ensures
        p@ == target_deliverable(week, *role),
{
    default_deliverable_path(week, role)
}

} // verus!

verus! {

/// The path with its leading slashes removed.
pub open spec fn strip_leading_slashes(s: Seq<char>) -> Seq<char>
    decreases s.len(),
{
    if s.len() > 0 && s[0] == '/' {
        strip_leading_slashes(s.drop_first())
    } else {
        s
    }
}

/// The `/`-separated segment of `s` that starts at `i` is `..`.
pub open spec fn parent_segment_at(s: Seq<char>, i: int) -> bool {
    0 <= i && i + 2 <= s.len() && s[i] == '.' && s[i + 1] == '.' && (i == 0 || s[i - 1] == '/') && (i + 2 == s.len()
        || s[i + 2] == '/')
}

/// Some `/`-separated segment of `s` is `..`.
pub open spec fn has_parent_segment(s: Seq<char>) -> bool {
    exists|i: int| parent_segment_at(s, i)
}

/// A deliverable path made relative to the deliverables root, unless it
/// climbs out of it through a `..` segment.
pub open spec fn safe_relative_spec(rel: Seq<char>) -> Option<Seq<char>> {
    let n = strip_leading_slashes(rel);
    if has_parent_segment(n) { None } else { Some(n) }
}

/// Makes a deliverable path relative to the deliverables root; `None` when it
/// would climb out of the root.
pub fn safe_relative(rel: &str) -> (r: Option<String>)
    ensures
        match r {
            Some(p) => safe_relative_spec(rel@) == Some(p@),
            None => safe_relative_spec(rel@) is None,
        },
{
    let n = rel.unicode_len();
    let mut start: usize = 0;
    assert(rel@.subrange(0, n as int) =~= rel@);
    while start < n && rel.get_char(start) == '/'
        invariant
            n == rel@.len(),
            start <= n,
            strip_leading_slashes(rel@) == strip_leading_slashes(rel@.subrange(start as int, n as int)),
        decreases n - start,
    {
        proof {
            let t = rel@.subrange(start as int, n as int);
            assert(t.drop_first() =~= rel@.subrange(start as int + 1, n as int));
        }
        start = start + 1;
    }
    let ghost t = rel@.subrange(start as int, n as int);
    assert(strip_leading_slashes(t) == t);
    assert(strip_leading_slashes(rel@) == t);
    let mut i: usize = start;
    while i < n && n - i > 1
        invariant
            n == rel@.len(),
            start <= n,
            i <= n,
            strip_leading_slashes(rel@) == t,
            t == rel@.subrange(start as int, n as int),
            start <= i,
            forall|j: int| 0 <= j < i - start ==> !parent_segment_at(t, j),
        decreases n - i,
    {
        let c0 = rel.get_char(i);
        let c1 = rel.get_char(i + 1);
        if c0 == '.' && c1 == '.' && (i == start || rel.get_char(i - 1) == '/') && (i + 2 == n || rel.get_char(i + 2)
            == '/') {
            proof {
                let j = i - start;
                assert(t[j] == '.' && t[j + 1] == '.');
                assert(j == 0 || t[j - 1] == '/');
                assert(j + 2 == t.len() || t[j + 2] == '/');
                assert(parent_segment_at(t, j));
            }
            return None;
        }
        i = i + 1;
    }
    assert forall|j: int| !parent_segment_at(t, j) by {
        if 0 <= j && j < i - start {
        }
    }
    let out = substring(rel, start, n);
    assert(out@ =~= t);
    Some(out)
}

/// `base` joined with a relative path as `Path::join` joins them: a `/`
/// between the two unless `base` is empty or already ends with one.
pub open spec fn joined_path(base: Seq<char>, rel: Seq<char>) -> Seq<char> {
    if base.len() == 0 || base.last() == '/' {
        base + rel
    } else {
        base + seq!['/'] + rel
    }
}

/// The file that a deliverable path names under the deliverables root
/// `base`; `None` when the path would climb out of the root.
pub fn safe_join(base: &str, rel: &str) -> (r: Option<String>)
    ensures
        match safe_relative_spec(rel@) {
            Some(n) => r matches Some(p) && p@ == joined_path(base@, n),
            None => r is None,
        },
{
    match safe_relative(rel) {
        None => None,
        Some(n) => {
            let mut p = String::from_str(base);
            let len = base.unicode_len();
            if len > 0 && base.get_char(len - 1) != '/' {
                crate::text::push_char(&mut p, '/');
            }
            p.append(n.as_str());
            Some(p)
        },
    }
}

} // verus!

verus! {

/// The file a deliverable item asks for: its path made relative, and its
/// content; nothing when either is missing or not a string, or the path is unsafe.
pub open spec fn item_write(item: JsonView) -> Option<(Seq<char>, Seq<char>)> {
    match (jstr(jget(item, "path"@)), jstr(jget(item, "content"@))) {
        (Some(p), Some(c)) => match safe_relative_spec(p) {
            Some(r) => Some((r, c)),
            None => None,
        },
        _ => None,
    }
}

/// The files the first `n` items ask for, in order.
pub open spec fn item_writes(items: Seq<JsonView>, n: int) -> Seq<(Seq<char>, Seq<char>)>
    decreases n,
{
    if n <= 0 {
        Seq::empty()
    } else {
        match item_write(items[n - 1]) {
            Some(w) => item_writes(items, n - 1).push(w),
            None => item_writes(items, n - 1),
        }
    }
}

/// The files an artifact's `deliverables` list asks for.
pub open spec fn listed_writes(payload: JsonView) -> Seq<(Seq<char>, Seq<char>)> {
    match jget(payload, "deliverables"@) {
        Some(JsonView::Array(items)) => item_writes(items, items.len() as int),
        _ => Seq::empty(),
    }
}

/// The note written for a role whose artifact lists no usable deliverable.
pub open spec fn fallback_content(role: Role, release_id: Seq<char>, payload: JsonView) -> Seq<char> {
    "# "@ + role_key(role) + " auto-generated deliverable\n\n- release_id: "@ + release_id + "\n- role: "@ + role_key(role)
        + "\n- source: workflow artifact fallback\n\n## summary\n"@ + match jstr(jget(payload, "summary"@)) {
        Some(s) => s,
        None => "no summary provided"@,
    } + "\n"@
}

/// The files written for one role: those its latest artifact lists, or a
/// fallback note at its default path when it lists none; nothing when the
/// role published no artifact.
pub open spec fn role_writes(c: ContextView, role: Role, week: usize) -> Seq<(Seq<char>, Seq<char>)> {
    match artifact_index(c.artifacts, latest_artifact_name(role), 0) {
        None => Seq::empty(),
        Some(i) => {
            let w = listed_writes(c.artifacts[i].1);
            if w.len() > 0 {
                w
            } else {
                match safe_relative_spec(fallback_deliverable(role, week)) {
                    Some(p) => seq![(p, fallback_content(role, c.release_id, c.artifacts[i].1))],
                    None => Seq::empty(),
                }
            }
        },
    }
}

/// The working roles in the order their deliverables are written.
pub open spec fn deliverable_roles() -> Seq<Role> {
    seq![Role::PM, Role::Dev, Role::QA, Role::Security, Role::SRE]
}

/// The files written for the first `n` working roles.
pub open spec fn plan_for(c: ContextView, week: usize, n: int) -> Seq<(Seq<char>, Seq<char>)>
    decreases n,
{
    if n <= 0 {
        Seq::empty()
    } else {
        plan_for(c, week, n - 1) + role_writes(c, deliverable_roles()[n - 1], week)
    }
}

/// The files, as (path relative to the deliverables root, content) pairs.
pub open spec fn writes_view(v: Seq<(String, String)>) -> Seq<(Seq<char>, Seq<char>)> {
    v.map_values(|w: (String, String)| (w.0@, w.1@))
}

fn item_file(item: &Json) -> (r: Option<(String, String)>)
    ensures
        match r {
            Some(w) => item_write(json_view(*item)) == Some((w.0@, w.1@)),
            None => item_write(json_view(*item)) is None,
        },
{
    let path = str_member_of(item, "path");
    let content = str_member_of(item, "content");
    match (path, content) {
        (Some(p), Some(c)) => match safe_relative(p.as_str()) {
            Some(r) => Some((r, c)),
            None => None,
        },
        _ => None,
    }
}

fn listed_files(payload: &Json) -> (r: Vec<(String, String)>)
    ensures
        writes_view(r@) == listed_writes(json_view(*payload)),
{
    let mut out: Vec<(String, String)> = Vec::new();
    match payload.get("deliverables") {
        Some(x) => match x {
            Json::Array(items) => {
                let ghost iv = json_view(*x)->Array_0;
                let mut i: usize = 0;
                while i < items.len()
                    invariant
                        *x == Json::Array(*items),
                        iv == json_view(*x)->Array_0,
                        iv.len() == items@.len(),
                        i <= items@.len(),
                        writes_view(out@) == item_writes(iv, i as int),
                    decreases items@.len() - i,
                {
                    assert(iv[i as int] == json_view(items@[i as int]));
                    let ghost before = out@;
                    match item_file(&items[i]) {
                        Some(w) => {
                            out.push(w);
                            assert(writes_view(out@) =~= writes_view(before).push((w.0@, w.1@)));
                        },
                        None => {},
                    }
                    i = i + 1;
                }
            },
            _ => {},
        },
        None => {},
    }
    assert(writes_view(out@) =~= listed_writes(json_view(*payload))) by {
        if writes_view(out@).len() == 0 {
        }
    }
    out
}

} // verus!

verus! {

fn find_named(arts: &Vec<crate::engine::Artifact>, name: &str) -> (r: Option<usize>)
    ensures
        r matches Some(i) ==> i < arts@.len() && artifact_index(crate::engine::artifacts_view(arts@), name@, 0) == Some(
            i as int,
        ),
        r is None ==> artifact_index(crate::engine::artifacts_view(arts@), name@, 0) is None,
{
    let ghost av = crate::engine::artifacts_view(arts@);
    let mut i: usize = 0;
    while i < arts.len()
        invariant
            av == crate::engine::artifacts_view(arts@),
            i <= arts@.len(),
            artifact_index(av, name@, 0) == artifact_index(av, name@, i as int),
        decreases arts@.len() - i,
    {
        assert(av[i as int].0 == arts@[i as int].name@);
        if crate::text::str_eq(arts[i].name.as_str(), name) {
            return Some(i);
        }
        i = i + 1;
    }
    None
}

impl WorkflowEngine {
    /// The files that materializing the deliverables of `week` writes, in
    /// order, as paths relative to the deliverables root with their content:
    /// for PM, Dev, QA, Security and SRE in turn, the deliverables their
    /// latest artifact lists, or a fallback note when it lists none.
    pub fn deliverable_writes(&self, week: usize) -> (r: Vec<(String, String)>)
        ensures
            writes_view(r@) == plan_for(self.context@, week, 5),
    {
        let roles = [Role::PM, Role::Dev, Role::QA, Role::Security, Role::SRE];
        let mut out: Vec<(String, String)> = Vec::new();
        let mut k: usize = 0;
        while k < 5
            invariant
                k <= 5,
                roles@ == deliverable_roles(),
                writes_view(out@) == plan_for(self.context@, week, k as int),
            decreases 5 - k,
        {
            let role = roles[k];
            let key = crate::text::to_ascii_lowercase(role.as_key());
            assert(key@ =~= crate::text::lower(role_key(role)));
            let name = cat(key.as_str(), "_artifact");
            let ghost before = out@;
            match find_named(&self.context.artifacts, name.as_str()) {
                None => {
                    assert(writes_view(before) + Seq::empty() =~= writes_view(before));
                },
                Some(i) => {
                    let artifact = &self.context.artifacts[i];
                    assert(self.context@.artifacts[i as int] == artifact@);
                    let listed = listed_files(&artifact.payload);
                    if listed.len() > 0 {
                        let mut j: usize = 0;
                        while j < listed.len()
                            invariant
                                j <= listed@.len(),
                                writes_view(out@) == writes_view(before) + writes_view(listed@.subrange(0, j as int)),
                            decreases listed@.len() - j,
                        {
                            let w = (listed[j].0.clone(), listed[j].1.clone());
                            let ghost o = out@;
                            let ghost wv = (w.0@, w.1@);
                            out.push(w);
                            assert(writes_view(out@) =~= writes_view(o).push(wv));
                            assert(wv == (listed@[j as int].0@, listed@[j as int].1@));
                            assert(writes_view(listed@.subrange(0, j + 1)) =~= writes_view(listed@.subrange(0, j as int)).push(
                                wv,
                            ));
                            assert(writes_view(out@) =~= writes_view(before) + writes_view(listed@.subrange(0, j + 1)));
                            j = j + 1;
                        }
                        assert(listed@.subrange(0, listed@.len() as int) =~= listed@);
                    } else {
                        let default_rel = role_default_deliverable_path(&role, week);
                        match safe_relative(default_rel) {
                            Some(p) => {
                                let summary = match str_member_of(&artifact.payload, "summary") {
                                    Some(s) => s,
                                    None => "no summary provided".to_string(),
                                };
                                let c1 = cat("# ", role.as_key());
                                let c2 = cat(c1.as_str(), " auto-generated deliverable\n\n- release_id: ");
                                let c3 = cat(c2.as_str(), self.context.release_id.as_str());
                                let c4 = cat(c3.as_str(), "\n- role: ");
                                let c5 = cat(c4.as_str(), role.as_key());
                                let c6 = cat(c5.as_str(), "\n- source: workflow artifact fallback\n\n## summary\n");
                                let c7 = cat(c6.as_str(), summary.as_str());
                                let content = cat(c7.as_str(), "\n");
                                let ghost pv = p@;
                                let ghost cv = content@;
                                out.push((p, content));
                                assert(writes_view(out@) =~= writes_view(before) + seq![(pv, cv)]);
                            },
                            None => {
                                assert(writes_view(before) + Seq::empty() =~= writes_view(before));
                            },
                        }
                    }
                },
            }
            k = k + 1;
        }
        out
    }
}

} // verus!
