//! The decisions of a workflow plan's stage: which roles start, which gates
//! hold, where each role delivers, what each role is asked, and how the
//! run's settings read.
use vstd::prelude::*;
use crate::text::{
    str_eq, trim, trim_spec, to_ascii_lowercase, to_ascii_uppercase, lower, eq_ignore_case, eq_ignore_ascii_case,
    ascii_upper, parse_u64, parse_u64_spec, cat, owned, trim_start_spec, all_whitespace, seq_contains, substring,
    is_whitespace, char_is_whitespace, lemma_trim_start_skip, push_char, contains, is_blank,
};
use crate::model::{Role, role_key, role_from_key};
use crate::engine::{GateKind, WorkflowEngine};
use crate::deliverables::{target_deliverable, week_role_deliverable_path, writes_view};
use crate::orchestration::{DevFallbackConfig, RolePrompts, role_at, role_of_slot};
use crate::engine::{role_index, ROLE_COUNT};

verus! {

// ---------------------------------------------------------------------------
// Settings read from the environment

/// A setting read as a switch: on for `1`, `true`, `yes` or `on`, in any
/// ASCII case and with surrounding whitespace; off otherwise or when unset.
pub open spec fn flag_on(v: Option<Seq<char>>) -> bool {
    match v {
        Some(s) => {
            let t = lower(trim_spec(s));
            t == "1"@ || t == "true"@ || t == "yes"@ || t == "on"@
        },
        None => false,
    }
}

/// `usize::from_str` on the trimmed setting.
pub open spec fn parse_usize_spec(s: Seq<char>) -> Option<usize> {
    match parse_u64_spec(s) {
        Some(v) => if v <= usize::MAX {
            Some(v as usize)
        } else {
            None
        },
        None => None,
    }
}

/// A setting read as a count, with `default` when unset or unreadable.
pub open spec fn count_setting(v: Option<Seq<char>>, default: usize) -> usize {
    match v {
        Some(s) => match parse_usize_spec(trim_spec(s)) {
            Some(n) => n,
            None => default,
        },
        None => default,
    }
}

/// Reads a switch setting (an environment variable's value, if set).
pub fn flag_setting(v: Option<&str>) -> (b: bool)
    ensures
        b == flag_on(match v {
            Some(s) => Some(s@),
            None => None,
        }),
{
    match v {
        Some(s) => {
            let t = trim(s);
            let l = to_ascii_lowercase(t.as_str());
            proof {
                assert(l@ =~= lower(trim_spec(s@)));
            }
            str_eq(l.as_str(), "1") || str_eq(l.as_str(), "true") || str_eq(l.as_str(), "yes") || str_eq(
                l.as_str(),
                "on",
            )
        },
        None => false,
    }
}

/// Reads a count setting, falling back to `default`.
pub fn usize_setting(v: Option<&str>, default: usize) -> (n: usize)
    ensures
        n == count_setting(
            match v {
                Some(s) => Some(s@),
                None => None,
            },
            default,
        ),
{
    match v {
        Some(s) => {
            let t = trim(s);
            match parse_u64(t.as_str()) {
                Some(x) => {
                    if x <= usize::MAX as u64 {
                        x as usize
                    } else {
                        default
                    }
                },
                None => default,
            }
        },
        None => default,
    }
}

impl DevFallbackConfig {
    /// The fallback settings, from the values of the switches for enabling
    /// it and for continuing on a conditional decision, and of the retry
    /// count (zero when unset).
    pub fn from_settings(enabled: Option<&str>, max_retry: Option<&str>, allow_conditional_continue: Option<&str>) -> (c:
        Self)
        ensures
            c.enabled == flag_on(
                match enabled {
                    Some(s) => Some(s@),
                    None => None,
                },
            ),
            c.max_retry == count_setting(
                match max_retry {
                    Some(s) => Some(s@),
                    None => None,
                },
                0,
            ),
            c.allow_conditional_continue == flag_on(
                match allow_conditional_continue {
                    Some(s) => Some(s@),
                    None => None,
                },
            ),
    {
        DevFallbackConfig {
            enabled: flag_setting(enabled),
            max_retry: usize_setting(max_retry, 0),
            allow_conditional_continue: flag_setting(allow_conditional_continue),
        }
    }
}

// ---------------------------------------------------------------------------
// Deliverable paths of a stage

/// The path that the stage's own table lists for `role`: the first entry
/// whose key is the role's key in any ASCII case.
pub open spec fn listed_path(paths: Seq<(Seq<char>, Seq<char>)>, role: Role, i: int) -> Option<Seq<char>>
    decreases paths.len() - i,
{
    if i < 0 || i >= paths.len() {
        None
    } else if eq_ignore_case(paths[i].0, role_key(role)) {
        Some(paths[i].1)
    } else {
        listed_path(paths, role, i + 1)
    }
}

/// Where `role` delivers in a stage: the stage's own path, else the week's default.
pub open spec fn stage_path(paths: Seq<(Seq<char>, Seq<char>)>, week: usize, role: Role) -> Seq<char> {
    match listed_path(paths, role, 0) {
        Some(p) => p,
        None => target_deliverable(week, role),
    }
}

/// Where `role` delivers in a stage whose own table is `deliverable_paths`.
pub fn stage_role_deliverable_path(deliverable_paths: &Vec<(String, String)>, week_hint: usize, role: &Role) -> (p:
    String)
    ensures
        p@ == stage_path(writes_view(deliverable_paths@), week_hint, *role),
{
    let ghost pv = writes_view(deliverable_paths@);
    let key = role.as_key();
    let mut i: usize = 0;
    while i < deliverable_paths.len()
        invariant
            pv == writes_view(deliverable_paths@),
            key@ == role_key(*role),
            i <= deliverable_paths@.len(),
            listed_path(pv, *role, 0) == listed_path(pv, *role, i as int),
        decreases deliverable_paths@.len() - i,
    {
        assert(pv[i as int] == (deliverable_paths@[i as int].0@, deliverable_paths@[i as int].1@));
        if eq_ignore_ascii_case(deliverable_paths[i].0.as_str(), key) {
            return deliverable_paths[i].1.clone();
        }
        i = i + 1;
    }
    owned(week_role_deliverable_path(week_hint, role))
}

/// The roles that deliver in a stage, in the order their settings are made.
pub open spec fn delivering_roles() -> Seq<Role> {
    seq![Role::PM, Role::Dev, Role::QA, Role::Security, Role::SRE]
}

/// The name of the setting that tells `role`'s agent its default deliverable.
pub open spec fn deliverable_setting_name(role: Role) -> Seq<char> {
    "OPENCLAW_DEFAULT_DELIVERABLE_"@ + role_key(role).map_values(|c: char| ascii_upper(c))
}

/// The (name, value) settings that tell each delivering role where it delivers.
pub fn stage_deliverable_settings(deliverable_paths: &Vec<(String, String)>, week_hint: usize) -> (r: Vec<
    (String, String),
>)
    ensures
        r@.len() == 5,
        forall|i: int|
            0 <= i < 5 ==> (#[trigger] r@[i]).0@ == deliverable_setting_name(delivering_roles()[i]) && r@[i].1@
                == stage_path(writes_view(deliverable_paths@), week_hint, delivering_roles()[i]),
{
    let roles = vec![Role::PM, Role::Dev, Role::QA, Role::Security, Role::SRE];
    let mut r: Vec<(String, String)> = Vec::new();
    let mut i: usize = 0;
    while i < roles.len()
        invariant
            roles@ == delivering_roles(),
            i <= 5,
            r@.len() == i,
            forall|j: int|
                0 <= j < i ==> (#[trigger] r@[j]).0@ == deliverable_setting_name(delivering_roles()[j]) && r@[j].1@
                    == stage_path(writes_view(deliverable_paths@), week_hint, delivering_roles()[j]),
        decreases 5 - i,
    {
        let role = roles[i];
        let upper = to_ascii_uppercase(role.as_key());
        let name = cat("OPENCLAW_DEFAULT_DELIVERABLE_", upper.as_str());
        let value = stage_role_deliverable_path(deliverable_paths, week_hint, &role);
        r.push((name, value));
        i = i + 1;
    }
    r
}

// ---------------------------------------------------------------------------
// Initial roles and gates of a stage

/// The first raw role name that is no role's key.
pub open spec fn first_unknown_role(raw: Seq<Seq<char>>, i: int) -> Option<int>
    decreases raw.len() - i,
{
    if i < 0 || i >= raw.len() {
        None
    } else if role_from_key(raw[i]) is None {
        Some(i)
    } else {
        first_unknown_role(raw, i + 1)
    }
}

/// The message for an initial role that is no role's key.
pub open spec fn unknown_role_message(raw: Seq<char>) -> Seq<char> {
    "unknown role '"@ + raw + "' in workflow stage initial_roles; expected PM/Dev/QA/Security/SRE"@
}

/// The initial roles of a stage: each raw name read as a role key, and PM
/// alone when the stage names none; an error at the first unknown name.
pub fn resolve_roles(raw_roles: &Vec<String>) -> (r: Result<Vec<Role>, String>)
    ensures
        ({
            let raw = raw_roles@.map_values(|s: String| s@);
            match first_unknown_role(raw, 0) {
                Some(k) => r matches Err(m) && m@ == unknown_role_message(raw[k]),
                None => r matches Ok(roles) && (if raw.len() == 0 {
                    roles@ == seq![Role::PM]
                } else {
                    roles@ == raw.map_values(|s: Seq<char>| role_from_key(s).unwrap())
                }),
            }
        }),
{
    let ghost raw = raw_roles@.map_values(|s: String| s@);
    let mut roles: Vec<Role> = Vec::new();
    let mut i: usize = 0;
    while i < raw_roles.len()
        invariant
            raw == raw_roles@.map_values(|s: String| s@),
            i <= raw_roles@.len(),
            roles@.len() == i,
            first_unknown_role(raw, 0) == first_unknown_role(raw, i as int),
            forall|j: int| 0 <= j < i ==> roles@[j] == role_from_key(#[trigger] raw[j]).unwrap(),
        decreases raw_roles@.len() - i,
    {
        assert(raw[i as int] == raw_roles@[i as int]@);
        match Role::from_key(raw_roles[i].as_str()) {
            Some(role) => roles.push(role),
            None => {
                let m1 = cat("unknown role '", raw_roles[i].as_str());
                let m = cat(m1.as_str(), "' in workflow stage initial_roles; expected PM/Dev/QA/Security/SRE");
                return Err(m);
            },
        }
        i = i + 1;
    }
    if roles.len() == 0 {
        roles.push(Role::PM);
        assert(roles@ =~= seq![Role::PM]);
    } else {
        assert(roles@ =~= raw.map_values(|s: Seq<char>| role_from_key(s).unwrap()));
    }
    Ok(roles)
}

/// The check that a plan's name stands for, when the name is known.
pub open spec fn gate_named(name: Seq<char>) -> Option<GateKind> {
    if name == "pm_dev_qa_approved"@ {
        Some(GateKind::PmDevQaApproved)
    } else if name == "security_or_exception"@ {
        Some(GateKind::SecurityOrException)
    } else if name == "dispatch_audit_structured"@ {
        Some(GateKind::DispatchAuditStructured)
    } else if name == "phase2_readiness"@ {
        Some(GateKind::Phase2Readiness)
    } else {
        None
    }
}

/// The first gate name that names no known gate.
pub open spec fn first_unknown_gate(names: Seq<Seq<char>>, i: int) -> Option<int>
    decreases names.len() - i,
{
    if i < 0 || i >= names.len() {
        None
    } else if gate_named(names[i]) is None {
        Some(i)
    } else {
        first_unknown_gate(names, i + 1)
    }
}

/// The gates named by the first `n` names.
pub open spec fn gates_named(names: Seq<Seq<char>>, n: int) -> Seq<GateKind> {
    Seq::new(n as nat, |i: int| gate_named(names[i]).unwrap())
}

fn gate_from_name(name: &str) -> (g: Option<GateKind>)
    ensures
        g == gate_named(name@),
{
    if str_eq(name, "pm_dev_qa_approved") {
        Some(GateKind::PmDevQaApproved)
    } else if str_eq(name, "security_or_exception") {
        Some(GateKind::SecurityOrException)
    } else if str_eq(name, "dispatch_audit_structured") {
        Some(GateKind::DispatchAuditStructured)
    } else if str_eq(name, "phase2_readiness") {
        Some(GateKind::Phase2Readiness)
    } else {
        None
    }
}

/// Registers the stage's gates in order; at the first unknown name it stops
/// with an error, the gates before it registered.
pub fn register_stage_gates(engine: &mut WorkflowEngine, gate_names: &Vec<String>) -> (r: Result<(), String>)
    ensures
        final(engine).context == old(engine).context,
        final(engine).config == old(engine).config,
        final(engine).history == old(engine).history,
        ({
            let names = gate_names@.map_values(|s: String| s@);
            match first_unknown_gate(names, 0) {
                Some(k) => r matches Err(m) && m@ == "unknown gate in workflow plan: "@ + names[k]
                    && final(engine).gates@ == old(engine).gates@ + gates_named(names, k),
                None => r is Ok && final(engine).gates@ == old(engine).gates@ + gates_named(names, names.len() as int),
            }
        }),
{
    let ghost names = gate_names@.map_values(|s: String| s@);
    let ghost g0 = engine.gates@;
    let mut i: usize = 0;
    while i < gate_names.len()
        invariant
            names == gate_names@.map_values(|s: String| s@),
            i <= gate_names@.len(),
            first_unknown_gate(names, 0) == first_unknown_gate(names, i as int),
            engine.gates@ == g0 + gates_named(names, i as int),
            engine.context == old(engine).context,
            engine.config == old(engine).config,
            engine.history == old(engine).history,
            g0 == old(engine).gates@,
        decreases gate_names@.len() - i,
    {
        assert(names[i as int] == gate_names@[i as int]@);
        match gate_from_name(gate_names[i].as_str()) {
            Some(g) => {
                engine.register_gate(g);
                assert(gates_named(names, i + 1) =~= gates_named(names, i as int).push(g));
            },
            None => {
                return Err(cat("unknown gate in workflow plan: ", gate_names[i].as_str()));
            },
        }
        i = i + 1;
    }
    Ok(())
}

// ---------------------------------------------------------------------------
// Agents whose histories are cleared

/// The agent ids named by the settings, in order, trimmed, blanks and
/// repeats dropped.
pub open spec fn named_ids(values: Seq<Option<Seq<char>>>) -> Seq<Seq<char>>
    decreases values.len(),
{
    if values.len() == 0 {
        seq![]
    } else {
        let ids = named_ids(values.drop_last());
        match values.last() {
            Some(v) => {
                let t = trim_spec(v);
                if t.len() > 0 && !ids.contains(t) {
                    ids.push(t)
                } else {
                    ids
                }
            },
            None => ids,
        }
    }
}

/// `ids` with each of `more` appended that it does not hold yet.
pub open spec fn with_missing(ids: Seq<Seq<char>>, more: Seq<Seq<char>>) -> Seq<Seq<char>>
    decreases more.len(),
{
    if more.len() == 0 {
        ids
    } else {
        let prior = with_missing(ids, more.drop_last());
        if prior.contains(more.last()) {
            prior
        } else {
            prior.push(more.last())
        }
    }
}

/// The agents that every run has, one per delivering role.
pub open spec fn default_agent_ids() -> Seq<Seq<char>> {
    seq!["pm"@, "dev"@, "qa"@, "security"@, "sre"@]
}

/// The agents whose histories are cleared: those the settings name, then
/// the default ones not yet named, and `main` if there are none at all.
pub open spec fn agent_ids_spec(values: Seq<Option<Seq<char>>>) -> Seq<Seq<char>> {
    let ids = with_missing(named_ids(values), default_agent_ids());
    if ids.len() == 0 {
        seq!["main"@]
    } else {
        ids
    }
}

fn holds_id(ids: &Vec<String>, v: &str) -> (b: bool)
    ensures
        b == ids@.map_values(|s: String| s@).contains(v@),
{
    let ghost iv = ids@.map_values(|s: String| s@);
    let mut i: usize = 0;
    while i < ids.len()
        invariant
            iv == ids@.map_values(|s: String| s@),
            i <= ids@.len(),
            forall|j: int| 0 <= j < i ==> iv[j] != v@,
        decreases ids@.len() - i,
    {
        if str_eq(ids[i].as_str(), v) {
            assert(iv[i as int] == v@);
            return true;
        }
        i = i + 1;
    }
    false
}

fn add_missing(ids: &mut Vec<String>, v: &str)
    ensures
        final(ids)@.map_values(|s: String| s@) == (if old(ids)@.map_values(|s: String| s@).contains(v@) {
            old(ids)@.map_values(|s: String| s@)
        } else {
            old(ids)@.map_values(|s: String| s@).push(v@)
        }),
{
    if !holds_id(ids, v) {
        ids.push(owned(v));
        assert(ids@.map_values(|s: String| s@) =~= old(ids)@.map_values(|s: String| s@).push(v@));
    }
}

/// The agents whose histories are cleared, from the values of the settings
/// that name the role agents and the shared agent (each `None` when unset).
pub fn resolve_openclaw_agent_ids(values: &Vec<Option<String>>) -> (ids: Vec<String>)
    ensures
        ids@.map_values(|s: String| s@) == agent_ids_spec(
            values@.map_values(
                |o: Option<String>|
                    match o {
                        Some(s) => Some(s@),
                        None => None,
                    },
            ),
        ),
{
    let ghost vv = values@.map_values(
        |o: Option<String>|
            match o {
                Some(s) => Some(s@),
                None => None,
            },
    );
    let mut ids: Vec<String> = Vec::new();
    let mut i: usize = 0;
    while i < values.len()
        invariant
            vv == values@.map_values(
                |o: Option<String>|
                    match o {
                        Some(s) => Some(s@),
                        None => None,
                    },
            ),
            i <= values@.len(),
            ids@.map_values(|s: String| s@) == named_ids(vv.subrange(0, i as int)),
        decreases values@.len() - i,
    {
        assert(vv.subrange(0, i + 1).drop_last() =~= vv.subrange(0, i as int));
        match &values[i] {
            Some(v) => {
                let t = trim(v.as_str());
                if t.unicode_len() > 0 {
                    add_missing(&mut ids, t.as_str());
                }
            },
            None => {},
        }
        i = i + 1;
    }
    assert(vv.subrange(0, values@.len() as int) =~= vv);
    let ghost named = ids@.map_values(|s: String| s@);
    let defaults = vec!["pm", "dev", "qa", "security", "sre"];
    let mut k: usize = 0;
    while k < defaults.len()
        invariant
            defaults@.len() == 5,
            forall|j: int| 0 <= j < 5 ==> (#[trigger] defaults@[j])@ == default_agent_ids()[j],
            k <= 5,
            ids@.map_values(|s: String| s@) == with_missing(named, default_agent_ids().subrange(0, k as int)),
        decreases 5 - k,
    {
        assert(default_agent_ids().subrange(0, k + 1).drop_last() =~= default_agent_ids().subrange(0, k as int));
        add_missing(&mut ids, defaults[k]);
        k = k + 1;
    }
    proof {
        reveal_strlit("pm");
        reveal_strlit("dev");
        reveal_strlit("qa");
        reveal_strlit("security");
        reveal_strlit("sre");
        assert(default_agent_ids().subrange(0, 5) =~= default_agent_ids());
    }
    if ids.len() == 0 {
        ids.push(owned("main"));
        assert(ids@.map_values(|s: String| s@) =~= seq!["main"@]);
    }
    ids
}

/// A file of an agent's session directory that clearing its history removes.
pub open spec fn session_file_cleared(name: Seq<char>) -> bool {
    name == "sessions.json"@ || (name.len() >= 6 && name.subrange(name.len() - 6, name.len() as int) == ".jsonl"@)
        || crate::text::seq_contains(name, ".jsonl.reset"@)
}

/// Whether clearing an agent's history removes the session file `name`.
pub fn is_cleared_session_file(name: &str) -> (b: bool)
    ensures
        b == session_file_cleared(name@),
{
    proof {
        reveal_strlit(".jsonl");
    }
    let n = name.unicode_len();
    let ends = if n >= 6 {
        let tail = crate::text::substring(name, n - 6, n);
        str_eq(tail.as_str(), ".jsonl")
    } else {
        false
    };
    str_eq(name, "sessions.json") || ends || crate::text::contains(name, ".jsonl.reset")
}


// ---------------------------------------------------------------------------
// Excerpts of markdown documents

/// Where the line that starts at `i` ends: the next newline, or the end.
pub open spec fn line_end(doc: Seq<char>, i: int) -> int
    decreases doc.len() - i,
{
    if i >= doc.len() {
        doc.len() as int
    } else if i >= 0 && doc[i] == '\n' {
        i
    } else {
        line_end(doc, i + 1)
    }
}

proof fn lemma_line_end(doc: Seq<char>, i: int, e: int)
    requires
        0 <= i <= e <= doc.len(),
        forall|j: int| i <= j < e ==> doc[j] != '\n',
        e == doc.len() || doc[e] == '\n',
    ensures
        line_end(doc, i) == e,
    decreases e - i,
{
    if i < e {
        lemma_line_end(doc, i + 1, e);
    }
}

pub proof fn lemma_line_end_bounds(doc: Seq<char>, i: int)
    requires
        0 <= i <= doc.len(),
    ensures
        i <= line_end(doc, i) <= doc.len(),
    decreases doc.len() - i,
{
    if i < doc.len() && doc[i] != '\n' {
        lemma_line_end_bounds(doc, i + 1);
    }
}

/// The text of the line `s..e`: a carriage return before its newline is dropped.
pub open spec fn line_text(doc: Seq<char>, s: int, e: int) -> Seq<char> {
    if e < doc.len() && e > s && doc[e - 1] == '\r' {
        doc.subrange(s, e - 1)
    } else {
        doc.subrange(s, e)
    }
}

/// The lines of `doc` from position `s` on, as `str::lines` gives them.
pub open spec fn lines_from(doc: Seq<char>, s: int) -> Seq<Seq<char>>
    decreases doc.len() - s,
{
    if s < 0 || s >= doc.len() {
        seq![]
    } else {
        let e = line_end(doc, s);
        proof {
            lemma_line_end_bounds(doc, s);
        }
        if e >= doc.len() {
            seq![line_text(doc, s, e)]
        } else {
            seq![line_text(doc, s, e)] + lines_from(doc, e + 1)
        }
    }
}

/// A markdown heading line: its first non-whitespace character is `#`.
pub open spec fn is_heading_line(l: Seq<char>) -> bool {
    trim_start_spec(l).len() > 0 && trim_start_spec(l)[0] == '#'
}

/// The sections closed so far, the open heading (empty before the first)
/// and the body gathered under it.
pub type SectionScan = (Seq<(Seq<char>, Seq<char>)>, Seq<char>, Seq<char>);

/// One line read into the scan.
pub open spec fn scan_step(st: SectionScan, l: Seq<char>) -> SectionScan {
    if is_heading_line(l) {
        (if st.1.len() > 0 {
            st.0.push((st.1, st.2))
        } else {
            st.0
        }, trim_spec(l), seq![])
    } else {
        (st.0, st.1, st.2 + l + seq!['\n'])
    }
}

/// The scan after reading `ls`.
pub open spec fn scan_lines(ls: Seq<Seq<char>>) -> SectionScan
    decreases ls.len(),
{
    if ls.len() == 0 {
        (seq![], seq![], seq![])
    } else {
        scan_step(scan_lines(ls.drop_last()), ls.last())
    }
}

/// The (heading, body) sections of a markdown document; text before the
/// first heading belongs to none.
pub open spec fn sections_of(doc: Seq<char>) -> Seq<(Seq<char>, Seq<char>)> {
    let st = scan_lines(lines_from(doc, 0));
    if st.1.len() > 0 {
        st.0.push((st.1, st.2))
    } else {
        st.0
    }
}

/// The first section from `i` on whose heading contains `t`.
pub open spec fn find_section(secs: Seq<(Seq<char>, Seq<char>)>, t: Seq<char>, i: int) -> Option<int>
    decreases secs.len() - i,
{
    if i < 0 || i >= secs.len() {
        None
    } else if seq_contains(secs[i].0, t) {
        Some(i)
    } else {
        find_section(secs, t, i + 1)
    }
}

/// For each target in order, the first section whose heading contains it,
/// heading and body each followed by a newline.
pub open spec fn merged_sections(secs: Seq<(Seq<char>, Seq<char>)>, targets: Seq<Seq<char>>) -> Seq<char>
    decreases targets.len(),
{
    if targets.len() == 0 {
        seq![]
    } else {
        merged_sections(secs, targets.drop_last()) + match find_section(secs, targets.last(), 0) {
            Some(j) => secs[j].0 + seq!['\n'] + secs[j].1 + seq!['\n'],
            None => seq![],
        }
    }
}

/// The first `n` characters of `s`.
pub open spec fn take_chars(s: Seq<char>, n: int) -> Seq<char> {
    if n < s.len() {
        s.subrange(0, n)
    } else {
        s
    }
}

/// The excerpt of `doc` under the target headings, cut to `max` characters;
/// the start of the document itself when no target section holds more than
/// whitespace.
pub open spec fn excerpt(doc: Seq<char>, targets: Seq<Seq<char>>, max: int) -> Seq<char> {
    let m = merged_sections(sections_of(doc), targets);
    if all_whitespace(m) {
        take_chars(doc, max)
    } else {
        take_chars(m, max)
    }
}

fn take_prefix(s: &str, n: usize) -> (r: String)
    ensures
        r@ == take_chars(s@, n as int),
{
    let len = s.unicode_len();
    if n < len {
        substring(s, 0, n)
    } else {
        assert(s@.subrange(0, len as int) =~= s@);
        substring(s, 0, len)
    }
}

fn heading_line(line: &str) -> (b: bool)
    ensures
        b == is_heading_line(line@),
{
    let n = line.unicode_len();
    let mut k: usize = 0;
    while k < n && is_whitespace(line.get_char(k))
        invariant
            n == line@.len(),
            k <= n,
            forall|j: int| 0 <= j < k ==> char_is_whitespace(#[trigger] line@[j]),
        decreases n - k,
    {
        k = k + 1;
    }
    proof {
        lemma_trim_start_skip(line@, k as int);
        let rest = line@.subrange(k as int, n as int);
        if k < n {
            assert(rest[0] == line@[k as int]);
            assert(trim_start_spec(rest) == rest);
        } else {
            assert(rest.len() == 0);
        }
    }
    k < n && line.get_char(k) == '#'
}

fn scan_line(sections: &mut Vec<(String, String)>, head: String, body: String, line: &str) -> (r: (String, String))
    ensures
        (writes_view(final(sections)@), r.0@, r.1@) == scan_step((writes_view(old(sections)@), head@, body@), line@),
{
    if heading_line(line) {
        if head.unicode_len() > 0 {
            sections.push((head, body));
            assert(writes_view(sections@) =~= writes_view(old(sections)@).push((head@, body@)));
        }
        (trim(line), String::new())
    } else {
        let mut b = body;
        b.append(line);
        push_char(&mut b, '\n');
        (head, b)
    }
}

fn section_text(secs: &Vec<(String, String)>, target: &str) -> (r: String)
    ensures
        r@ == match find_section(writes_view(secs@), target@, 0) {
            Some(j) => writes_view(secs@)[j].0 + seq!['\n'] + writes_view(secs@)[j].1 + seq!['\n'],
            None => seq![],
        },
{
    let ghost sv = writes_view(secs@);
    let mut i: usize = 0;
    while i < secs.len()
        invariant
            sv == writes_view(secs@),
            i <= secs@.len(),
            find_section(sv, target@, 0) == find_section(sv, target@, i as int),
        decreases secs@.len() - i,
    {
        assert(sv[i as int] == (secs@[i as int].0@, secs@[i as int].1@));
        if contains(secs[i].0.as_str(), target) {
            let mut r = String::new();
            r.append(secs[i].0.as_str());
            push_char(&mut r, '\n');
            r.append(secs[i].1.as_str());
            push_char(&mut r, '\n');
            return r;
        }
        i = i + 1;
    }
    String::new()
}

/// The sections of a markdown document under the given headings, at most
/// `max_chars` characters; the start of the document when none of them
/// holds more than whitespace.
pub fn extract_markdown_sections(doc: &str, headings: &Vec<String>, max_chars: usize) -> (r: String)
    ensures
        r@ == excerpt(doc@, headings@.map_values(|h: String| h@), max_chars as int),
{
    let n = doc.unicode_len();
    let mut sections: Vec<(String, String)> = Vec::new();
    let mut head = String::new();
    let mut body = String::new();
    let mut start: usize = 0;
    let ghost mut done: Seq<Seq<char>> = seq![];
    while start < n
        invariant
            n == doc@.len(),
            start <= n,
            lines_from(doc@, 0) == done + lines_from(doc@, start as int),
            (writes_view(sections@), head@, body@) == scan_lines(done),
        decreases n - start,
    {
        let mut e: usize = start;
        while e < n && doc.get_char(e) != '\n'
            invariant
                n == doc@.len(),
                start <= e <= n,
                forall|j: int| start <= j < e ==> doc@[j] != '\n',
            decreases n - e,
        {
            e = e + 1;
        }
        proof {
            lemma_line_end(doc@, start as int, e as int);
        }
        let le = if e < n && e > start && doc.get_char(e - 1) == '\r' {
            e - 1
        } else {
            e
        };
        let line = substring(doc, start, le);
        assert(line@ == line_text(doc@, start as int, e as int));
        let (h, b) = scan_line(&mut sections, head, body, line.as_str());
        head = h;
        body = b;
        proof {
            let d2 = done.push(line@);
            assert(d2.drop_last() =~= done);
            let nxt = if e < n { e + 1 } else { n as int };
            assert(lines_from(doc@, start as int) =~= seq![line@] + lines_from(doc@, nxt));
            assert(done + (seq![line@] + lines_from(doc@, nxt)) =~= d2 + lines_from(doc@, nxt));
            done = d2;
        }
        if e < n {
            start = e + 1;
        } else {
            start = n;
        }
    }
    assert(done + lines_from(doc@, start as int) =~= done);
    if head.unicode_len() > 0 {
        sections.push((head, body));
    }
    assert(writes_view(sections@) =~= sections_of(doc@));
    let ghost secs = writes_view(sections@);
    let ghost targets = headings@.map_values(|h: String| h@);
    let mut merged = String::new();
    let mut k: usize = 0;
    while k < headings.len()
        invariant
            secs == writes_view(sections@),
            targets == headings@.map_values(|h: String| h@),
            k <= headings@.len(),
            merged@ == merged_sections(secs, targets.subrange(0, k as int)),
        decreases headings@.len() - k,
    {
        let part = section_text(&sections, headings[k].as_str());
        merged.append(part.as_str());
        proof {
            let t2 = targets.subrange(0, k + 1);
            assert(t2.drop_last() =~= targets.subrange(0, k as int));
            assert(t2.last() == headings@[k as int]@);
        }
        k = k + 1;
    }
    assert(targets.subrange(0, headings@.len() as int) =~= targets);
    if is_blank(merged.as_str()) {
        take_prefix(doc, max_chars)
    } else {
        take_prefix(merged.as_str(), max_chars)
    }
}


// ---------------------------------------------------------------------------
// Prompts of a stage

/// What every role of a stage is told first, with the stage's label.
pub open spec fn fixed_context(label: Seq<char>) -> Seq<char> {
    "上下文说明：\n- 当前阶段："@ + label
        + "。\n- 你不需要自行在文件系统查找文档。\n- 以下已提供本地文档摘录，直接基于摘录执行。\n- role 字段必须使用 PM/Dev/QA/Security/SRE 之一。\n- 你必须输出 deliverables: [{path, content}]，path 必须使用给定目标路径。\n"@
}

/// The task a delivering role is given.
pub open spec fn role_task(role: Role) -> Seq<char> {
    match role {
        Role::PM => "任务：以 PM 身份输出本周执行结论、风险与下周准入条件。"@,
        Role::Dev => "任务：以架构/开发身份输出本周技术方案、接口契约、失败与回滚路径。"@,
        Role::QA => "任务：以 QA 身份输出本周测试策略、样本门禁和证据四元组。"@,
        Role::Security => "任务：以 Security 身份输出本周安全审查结论、红线风险与阻断覆盖。"@,
        Role::SRE => "任务：以 SRE/执行负责人身份输出本周执行看板、风险台账、阻塞项与下一周开工条件。"@,
        Role::Blackboard => seq![],
    }
}

/// The heading of a role's excerpt: submission rules for Security, execution board otherwise.
pub open spec fn excerpt_tag(role: Role) -> Seq<char> {
    if role == Role::Security {
        "[phase1_submission_gate_rules 摘录]"@
    } else {
        "[execution_board 摘录]"@
    }
}

/// The prompt of a delivering role.
pub open spec fn role_prompt(label: Seq<char>, role: Role, path: Seq<char>, text: Seq<char>) -> Seq<char> {
    fixed_context(label) + "\n"@ + role_task(role) + "\n目标交付路径："@ + path + "\n\n"@ + excerpt_tag(role) + "\n"@
        + text
}

/// The prompt of each role in a stage: each delivering role gets its task,
/// its target path and its excerpt (submission rules for Security,
/// execution board otherwise); the blackboard gets none.
pub open spec fn stage_prompt(
    label: Seq<char>,
    paths: Seq<(Seq<char>, Seq<char>)>,
    week: usize,
    board_excerpt: Seq<char>,
    gate_excerpt: Seq<char>,
    role: Role,
) -> Option<Seq<char>> {
    if role == Role::Blackboard {
        None
    } else {
        Some(
            role_prompt(
                label,
                role,
                stage_path(paths, week, role),
                if role == Role::Security {
                    gate_excerpt
                } else {
                    board_excerpt
                },
            ),
        )
    }
}

fn role_task_text(role: &Role) -> (t: &'static str)
    ensures
        t@ == role_task(*role),
{
    match role {
        Role::PM => "任务：以 PM 身份输出本周执行结论、风险与下周准入条件。",
        Role::Dev => "任务：以架构/开发身份输出本周技术方案、接口契约、失败与回滚路径。",
        Role::QA => "任务：以 QA 身份输出本周测试策略、样本门禁和证据四元组。",
        Role::Security => "任务：以 Security 身份输出本周安全审查结论、红线风险与阻断覆盖。",
        Role::SRE => "任务：以 SRE/执行负责人身份输出本周执行看板、风险台账、阻塞项与下一周开工条件。",
        Role::Blackboard => {
            proof {
                reveal_strlit("");
            }
            ""
        },
    }
}

fn build_role_prompt(context: &str, role: &Role, path: &str, text: &str) -> (p: String)
    ensures
        p@ == context@ + "\n"@ + role_task(*role) + "\n目标交付路径："@ + path@ + "\n\n"@ + excerpt_tag(*role) + "\n"@
            + text@,
{
    let mut p = String::from_str(context);
    p.append("\n");
    p.append(role_task_text(role));
    p.append("\n目标交付路径：");
    p.append(path);
    p.append("\n\n");
    if *role == Role::Security {
        p.append("[phase1_submission_gate_rules 摘录]");
    } else {
        p.append("[execution_board 摘录]");
    }
    p.append("\n");
    p.append(text);
    p
}

/// The prompts of a stage, from its label, its own deliverable table, its
/// week, the texts of its execution board and gate rules, and the headings
/// of each to excerpt (at most 5000 and 2600 characters).
pub fn build_stage_prompts(
    label: &str,
    deliverable_paths: &Vec<(String, String)>,
    week_hint: usize,
    board: &str,
    gate_rules: &str,
    board_headings: &Vec<String>,
    gate_headings: &Vec<String>,
) -> (r: RolePrompts)
    ensures
        r.wf(),
        forall|role: Role|
            #[trigger] r.prompt_of(role) == stage_prompt(
                label@,
                writes_view(deliverable_paths@),
                week_hint,
                excerpt(board@, board_headings@.map_values(|h: String| h@), 5000),
                excerpt(gate_rules@, gate_headings@.map_values(|h: String| h@), 2600),
                role,
            ),
{
    let board_excerpt = extract_markdown_sections(board, board_headings, 5000);
    let gate_excerpt = extract_markdown_sections(gate_rules, gate_headings, 2600);
    let mut context = String::from_str("上下文说明：\n- 当前阶段：");
    context.append(label);
    context.append(
        "。\n- 你不需要自行在文件系统查找文档。\n- 以下已提供本地文档摘录，直接基于摘录执行。\n- role 字段必须使用 PM/Dev/QA/Security/SRE 之一。\n- 你必须输出 deliverables: [{path, content}]，path 必须使用给定目标路径。\n",
    );
    assert(context@ == fixed_context(label@));
    let mut prompts: Vec<Option<String>> = Vec::new();
    let mut i: usize = 0;
    while i < ROLE_COUNT
        invariant
            i <= ROLE_COUNT,
            prompts@.len() == i,
            context@ == fixed_context(label@),
            board_excerpt@ == excerpt(board@, board_headings@.map_values(|h: String| h@), 5000),
            gate_excerpt@ == excerpt(gate_rules@, gate_headings@.map_values(|h: String| h@), 2600),
            forall|j: int|
                0 <= j < i ==> match #[trigger] prompts@[j] {
                    Some(p) => Some(p@),
                    None => None,
                } == stage_prompt(
                    label@,
                    writes_view(deliverable_paths@),
                    week_hint,
                    board_excerpt@,
                    gate_excerpt@,
                    role_at(j),
                ),
        decreases ROLE_COUNT - i,
    {
        let role = role_of_slot(i);
        if role == Role::Blackboard {
            prompts.push(None);
        } else {
            let path = stage_role_deliverable_path(deliverable_paths, week_hint, &role);
            let text = if role == Role::Security {
                gate_excerpt.as_str()
            } else {
                board_excerpt.as_str()
            };
            let p = build_role_prompt(context.as_str(), &role, path.as_str(), text);
            prompts.push(Some(p));
        }
        i = i + 1;
    }
    let r = RolePrompts { prompts };
    assert forall|role: Role|
        #[trigger] r.prompt_of(role) == stage_prompt(
            label@,
            writes_view(deliverable_paths@),
            week_hint,
            board_excerpt@,
            gate_excerpt@,
            role,
        ) by {
        lemma_role_slot_roundtrip(role);
    }
    r
}

proof fn lemma_role_slot_roundtrip(role: Role)
    ensures
        0 <= role_index(role) < ROLE_COUNT,
        role_at(role_index(role)) == role,
{
}

} // verus!
