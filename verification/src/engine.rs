//! The workflow engine: per-role state machines, snapshots and rollback.

use vstd::prelude::*;
use crate::error::EngineError;
use crate::model::{Role, RoleState, role_key, role_state_key, BlackboardState, BlackboardView};
use crate::text::owned;
use crate::json::{Json, JsonView, json_view};
use crate::gates::{
    ReadinessDocs, readiness_problem, read_view, first_unapproved, view_state, has_artifact_named,
    dispatch_gate_outcome, gate_pm_dev_qa_approved, gate_security_or_exception, gate_dispatch_audit_structured,
    gate_phase2_readiness,
};
use crate::schema::{compile_schema, schema_is_valid, schema_compiles, schema_accepts};
use crate::text::{cat, str_eq};

verus! {

/// Position of a role in the per-role tables.
pub open spec fn role_index(r: Role) -> int {
    match r {
        Role::PM => 0,
        Role::Dev => 1,
        Role::QA => 2,
        Role::SRE => 3,
        Role::Security => 4,
        Role::Blackboard => 5,
    }
}

/// Number of roles; the length of every per-role table.
pub const ROLE_COUNT: usize = 6;

pub fn role_slot(r: Role) -> (i: usize)
    ensures
        i == role_index(r),
        i < ROLE_COUNT,
{
    match r {
        Role::PM => 0,
        Role::Dev => 1,
        Role::QA => 2,
        Role::SRE => 3,
        Role::Security => 4,
        Role::Blackboard => 5,
    }
}

/// A transition `(from, to)` that a role may take.
pub type Transition = (RoleState, RoleState);

/// Which transitions each role may take; a role without an entry is unknown to the engine.
pub struct EngineConfig {
    pub transitions: Vec<Option<Vec<Transition>>>,
}

impl EngineConfig {
    pub open spec fn wf(&self) -> bool {
        self.transitions@.len() == ROLE_COUNT
    }

    /// The transitions allowed for `r`, or `None` when the role has no entry.
    pub open spec fn allowed(&self, r: Role) -> Option<Seq<Transition>> {
        match self.transitions@[role_index(r)] {
            Some(v) => Some(v@),
            None => None,
        }
    }
}

/// The transitions of the default configuration for the working roles.
pub open spec fn mvp_transitions() -> Seq<Transition> {
    seq![
        (RoleState::Idle, RoleState::InProgress),
        (RoleState::InProgress, RoleState::Submitted),
        (RoleState::Submitted, RoleState::Approved),
        (RoleState::Submitted, RoleState::Rejected),
        (RoleState::Rejected, RoleState::InProgress),
        (RoleState::Approved, RoleState::InProgress),
    ]
}

fn mvp_allowed() -> (v: Vec<Transition>)
    ensures
        v@ == mvp_transitions(),
{
    let mut v: Vec<Transition> = Vec::new();
    v.push((RoleState::Idle, RoleState::InProgress));
    v.push((RoleState::InProgress, RoleState::Submitted));
    v.push((RoleState::Submitted, RoleState::Approved));
    v.push((RoleState::Submitted, RoleState::Rejected));
    v.push((RoleState::Rejected, RoleState::InProgress));
    v.push((RoleState::Approved, RoleState::InProgress));
    assert(v@ =~= mvp_transitions());
    v
}

impl EngineConfig {
    /// The default configuration: every working role follows the same
    /// cycle, and the blackboard may take no transition at all.
    pub fn mvp_default() -> (c: Self)
        ensures
            c.wf(),
            forall|r: Role| r != Role::Blackboard ==> c.allowed(r) == Some(mvp_transitions()),
            c.allowed(Role::Blackboard) == Some(Seq::<Transition>::empty()),
    {
        let mut t: Vec<Option<Vec<Transition>>> = Vec::new();
        t.push(Some(mvp_allowed()));
        t.push(Some(mvp_allowed()));
        t.push(Some(mvp_allowed()));
        t.push(Some(mvp_allowed()));
        t.push(Some(mvp_allowed()));
        t.push(Some(Vec::new()));
        let c = EngineConfig { transitions: t };
        assert forall|r: Role| r != Role::Blackboard implies c.allowed(r) == Some(mvp_transitions()) by {
            assert(0 <= role_index(r) < 5);
        }
        c
    }
}

/// `(from, to)` is one of `allowed`.
pub open spec fn transition_listed(allowed: Seq<Transition>, from: RoleState, to: RoleState) -> bool {
    exists|i: int| 0 <= i < allowed.len() && allowed[i] == (from, to)
}

fn listed(allowed: &Vec<Transition>, from: RoleState, to: RoleState) -> (b: bool)
    ensures
        b == transition_listed(allowed@, from, to),
{
    let mut i: usize = 0;
    while i < allowed.len()
        invariant
            i <= allowed@.len(),
            forall|j: int| 0 <= j < i ==> allowed@[j] != (from, to),
        decreases allowed@.len() - i,
    {
        let (f, t) = allowed[i];
        if f == from && t == to {
            return true;
        }
        i = i + 1;
    }
    false
}

/// A named artifact: its JSON payload and the JSON schema it must satisfy.
pub struct Artifact {
    pub name: String,
    pub payload: Json,
    pub schema: Json,
}

/// An artifact as plain values: name, payload and schema.
pub type ArtifactView = (Seq<char>, JsonView, JsonView);

impl View for Artifact {
    type V = ArtifactView;

    open spec fn view(&self) -> ArtifactView {
        (self.name@, json_view(self.payload), json_view(self.schema))
    }
}

impl Artifact {
    pub fn new(name: String, payload: Json, schema: Json) -> (a: Self)
        ensures
            a.name == name,
            a.payload == payload,
            a.schema == schema,
    {
        Artifact { name, payload, schema }
    }

    pub fn duplicate(&self) -> (a: Self)
        ensures
            a@ == self@,
    {
        Artifact { name: self.name.clone(), payload: self.payload.duplicate(), schema: self.schema.duplicate() }
    }
}

/// The current state of each role; a role without an entry counts as idle.
pub struct RoleStates {
    pub slots: Vec<Option<RoleState>>,
}

impl View for RoleStates {
    type V = Seq<Option<RoleState>>;

    open spec fn view(&self) -> Seq<Option<RoleState>> {
        self.slots@
    }
}

impl RoleStates {
    pub open spec fn wf(&self) -> bool {
        self.slots@.len() == ROLE_COUNT
    }

    pub open spec fn state_of(&self, r: Role) -> RoleState {
        match self.slots@[role_index(r)] {
            Some(s) => s,
            None => RoleState::Idle,
        }
    }

    pub fn empty() -> (s: Self)
        ensures
            s.wf(),
            forall|i: int| 0 <= i < ROLE_COUNT ==> s.slots@[i] is None,
    {
        let mut v: Vec<Option<RoleState>> = Vec::new();
        let mut i: usize = 0;
        while i < ROLE_COUNT
            invariant
                i <= ROLE_COUNT,
                v@.len() == i,
                forall|j: int| 0 <= j < i ==> v@[j] is None,
            decreases ROLE_COUNT - i,
        {
            v.push(None);
            i = i + 1;
        }
        RoleStates { slots: v }
    }

    pub fn get(&self, r: Role) -> (s: RoleState)
        requires
            self.wf(),
        ensures
            s == self.state_of(r),
    {
        match self.slots[role_slot(r)] {
            Some(s) => s,
            None => RoleState::Idle,
        }
    }

    pub fn insert(&mut self, r: Role, s: RoleState)
        requires
            old(self).wf(),
        ensures
            final(self).slots@ == old(self).slots@.update(role_index(r), Some(s)),
    {
        let i = role_slot(r);
        self.slots.set(i, Some(s));
    }

    pub fn duplicate(&self) -> (c: Self)
        ensures
            c@ == self@,
    {
        let mut v: Vec<Option<RoleState>> = Vec::new();
        let mut i: usize = 0;
        while i < self.slots.len()
            invariant
                i <= self.slots@.len(),
                v@ == self.slots@.subrange(0, i as int),
            decreases self.slots@.len() - i,
        {
            v.push(self.slots[i]);
            assert(self.slots@.subrange(0, i + 1) =~= self.slots@.subrange(0, i as int).push(
                self.slots@[i as int],
            ));
            i = i + 1;
        }
        assert(self.slots@.subrange(0, self.slots@.len() as int) =~= self.slots@);
        RoleStates { slots: v }
    }
}

/// The values of a list as plain values.
pub open spec fn jsons_view(v: Seq<Json>) -> Seq<JsonView> {
    v.map_values(|j: Json| json_view(j))
}

fn duplicate_jsons(v: &Vec<Json>) -> (r: Vec<Json>)
    ensures
        jsons_view(r@) == jsons_view(v@),
{
    let mut out: Vec<Json> = Vec::new();
    let mut i: usize = 0;
    while i < v.len()
        invariant
            i <= v@.len(),
            out@.len() == i,
            forall|j: int| 0 <= j < i ==> json_view(#[trigger] out@[j]) == json_view(v@[j]),
        decreases v@.len() - i,
    {
        out.push(v[i].duplicate());
        i = i + 1;
    }
    assert(jsons_view(out@) =~= jsons_view(v@));
    out
}

/// The artifacts of a list as plain values.
pub open spec fn artifacts_view(v: Seq<Artifact>) -> Seq<ArtifactView> {
    v.map_values(|a: Artifact| a@)
}

fn duplicate_artifacts(v: &Vec<Artifact>) -> (r: Vec<Artifact>)
    ensures
        artifacts_view(r@) == artifacts_view(v@),
{
    let mut out: Vec<Artifact> = Vec::new();
    let mut i: usize = 0;
    while i < v.len()
        invariant
            i <= v@.len(),
            out@.len() == i,
            forall|j: int| 0 <= j < i ==> (#[trigger] out@[j])@ == v@[j]@,
        decreases v@.len() - i,
    {
        out.push(v[i].duplicate());
        i = i + 1;
    }
    assert(artifacts_view(out@) =~= artifacts_view(v@));
    out
}

/// A context as plain values.
pub struct ContextView {
    pub release_id: Seq<char>,
    pub role_states: Seq<Option<RoleState>>,
    pub artifacts: Seq<ArtifactView>,
    pub collaboration_log: Seq<JsonView>,
    pub blackboard: BlackboardView,
}

/// What the engine knows of one release: role states and published artifacts.
pub struct WorkflowContext {
    pub release_id: String,
    pub role_states: RoleStates,
    pub artifacts: Vec<Artifact>,
    pub collaboration_log: Vec<Json>,
    pub blackboard: BlackboardState,
}

impl View for WorkflowContext {
    type V = ContextView;

    open spec fn view(&self) -> ContextView {
        ContextView {
            release_id: self.release_id@,
            role_states: self.role_states@,
            artifacts: artifacts_view(self.artifacts@),
            collaboration_log: jsons_view(self.collaboration_log@),
            blackboard: self.blackboard@,
        }
    }
}

impl WorkflowContext {
    pub open spec fn wf(&self) -> bool {
        &&& self.role_states.wf()
        &&& self.blackboard.slots@.len() == ROLE_COUNT
    }

    pub fn new(release_id: String) -> (c: Self)
        ensures
            c.wf(),
            c.release_id == release_id,
            forall|r: Role| c.role_states.state_of(r) == RoleState::Idle,
            forall|i: int| 0 <= i < ROLE_COUNT ==> c.role_states.slots@[i] is None,
            c.artifacts@.len() == 0,
            c.collaboration_log@.len() == 0,
            c.blackboard.version == 0,
            c.blackboard.events@.len() == 0,
            forall|i: int| 0 <= i < ROLE_COUNT ==> c.blackboard.slots@[i] is None,
    {
        let mut slots: Vec<Option<Json>> = Vec::new();
        let mut i: usize = 0;
        while i < ROLE_COUNT
            invariant
                i <= ROLE_COUNT,
                slots@.len() == i,
                forall|j: int| 0 <= j < i ==> slots@[j] is None,
            decreases ROLE_COUNT - i,
        {
            slots.push(None);
            i = i + 1;
        }
        let c = WorkflowContext {
            release_id,
            role_states: RoleStates::empty(),
            artifacts: Vec::new(),
            collaboration_log: Vec::new(),
            blackboard: BlackboardState { version: 0, slots, events: Vec::new() },
        };
        assert forall|r: Role| c.role_states.state_of(r) == RoleState::Idle by {
            assert(0 <= role_index(r) < ROLE_COUNT);
        }
        c
    }

    pub fn duplicate(&self) -> (c: Self)
        ensures
            c@ == self@,
            c.wf() == self.wf(),
    {
        let c = WorkflowContext {
            release_id: self.release_id.clone(),
            role_states: self.role_states.duplicate(),
            artifacts: duplicate_artifacts(&self.artifacts),
            collaboration_log: duplicate_jsons(&self.collaboration_log),
            blackboard: self.blackboard.duplicate(),
        };
        assert(c.blackboard.slots@.len() == c.blackboard@.slots.len());
        assert(self.blackboard.slots@.len() == self.blackboard@.slots.len());
        c
    }
}

/// A saved context and why it was saved.
pub struct WorkflowSnapshot {
    pub context: WorkflowContext,
    pub reason: String,
}

impl View for WorkflowSnapshot {
    type V = (ContextView, Seq<char>);

    open spec fn view(&self) -> (ContextView, Seq<char>) {
        (self.context@, self.reason@)
    }
}

/// The snapshots of a history as plain values.
pub open spec fn history_view(h: Seq<WorkflowSnapshot>) -> Seq<(ContextView, Seq<char>)> {
    h.map_values(|s: WorkflowSnapshot| s@)
}

impl WorkflowSnapshot {
    pub fn new(context: WorkflowContext, reason: String) -> (s: Self)
        ensures
            s.context == context,
            s.reason == reason,
    {
        WorkflowSnapshot { context, reason }
    }
}

/// The gates a release may be held to.
#[derive(Debug, Clone, Copy, PartialEq, Eq, Structural)]
pub enum GateKind {
    PmDevQaApproved,
    SecurityOrException,
    DispatchAuditStructured,
    Phase2Readiness,
}

/// Why gate `g` fails on context `c`, if it does.
pub open spec fn gate_problem(g: GateKind, c: ContextView, docs: ReadinessDocs) -> Option<Seq<char>> {
    match g {
        GateKind::PmDevQaApproved => match first_unapproved(c) {
            Some(role) => Some(role_key(role) + " is not Approved"@),
            None => None,
        },
        GateKind::SecurityOrException => if view_state(c, Role::Security) == RoleState::Approved || has_artifact_named(
            c.artifacts,
            "exception_approval"@,
        ) {
            None
        } else {
            Some("Security not approved and exception_approval missing"@)
        },
        GateKind::DispatchAuditStructured => dispatch_gate_outcome(c),
        GateKind::Phase2Readiness => readiness_problem(docs.files@, 0, read_view(docs.gate_final_review)),
    }
}

/// The failure of the first gate from `i` on that fails.
pub open spec fn first_gate_problem(gates: Seq<GateKind>, i: int, c: ContextView, docs: ReadinessDocs) -> Option<Seq<char>>
    decreases gates.len() - i,
{
    if i < 0 || i >= gates.len() {
        None
    } else if gate_problem(gates[i], c, docs) is Some {
        gate_problem(gates[i], c, docs)
    } else {
        first_gate_problem(gates, i + 1, c, docs)
    }
}

/// The position of the first artifact named `name`.
pub open spec fn artifact_index(arts: Seq<ArtifactView>, name: Seq<char>, i: int) -> Option<int>
    decreases arts.len() - i,
{
    if i < 0 || i >= arts.len() {
        None
    } else if arts[i].0 == name {
        Some(i)
    } else {
        artifact_index(arts, name, i + 1)
    }
}

/// The artifacts after publishing `a`: it replaces the artifact of the same
/// name, or is added after the others.
pub open spec fn with_artifact(arts: Seq<ArtifactView>, a: ArtifactView) -> Seq<ArtifactView> {
    match artifact_index(arts, a.0, 0) {
        Some(i) => arts.update(i, a),
        None => arts.push(a),
    }
}

/// An artifact whose schema does not compile or whose payload it rejects.
pub open spec fn artifact_invalid(a: ArtifactView) -> bool {
    !schema_compiles(a.2) || !schema_accepts(a.2, a.1)
}

/// The position of the first invalid artifact from `i` on.
pub open spec fn first_invalid(arts: Seq<ArtifactView>, i: int) -> Option<int>
    decreases arts.len() - i,
{
    if i < 0 || i >= arts.len() {
        None
    } else if artifact_invalid(arts[i]) {
        Some(i)
    } else {
        first_invalid(arts, i + 1)
    }
}

/// Drives the role state machines of one release and keeps a history of snapshots.
pub struct WorkflowEngine {
    pub context: WorkflowContext,
    pub config: EngineConfig,
    pub gates: Vec<GateKind>,
    pub history: Vec<WorkflowSnapshot>,
}

/// `c2` is `c1` with the state of `r` set to `s`.
pub open spec fn context_with_state(c1: ContextView, c2: ContextView, r: Role, s: RoleState) -> bool {
    c2 == ContextView { role_states: c1.role_states.update(role_index(r), Some(s)), ..c1 }
}

/// `e2` is `e1` after a successful transition of `r` to `target` for `reason`.
pub open spec fn transitioned(e1: WorkflowEngine, e2: WorkflowEngine, r: Role, target: RoleState, reason: Seq<char>) -> bool {
    &&& context_with_state(e1.context@, e2.context@, r, target)
    &&& history_view(e2.history@) == history_view(e1.history@).push((e1.context@, reason))
    &&& e2.config == e1.config
    &&& e2.gates == e1.gates
}

/// `e2` is `e1` after its last snapshot was restored.
pub open spec fn rolled_back(e1: WorkflowEngine, e2: WorkflowEngine) -> bool {
    &&& e1.history@.len() > 0
    &&& e2.context@ == e1.history@.last().context@
    &&& history_view(e2.history@) == history_view(e1.history@).drop_last()
    &&& e2.config == e1.config
    &&& e2.gates == e1.gates
}

/// Where the first artifact named `name` is.
fn find_artifact(arts: &Vec<Artifact>, name: &str) -> (r: Option<usize>)
    ensures
        r matches Some(i) ==> i < arts@.len() && artifact_index(artifacts_view(arts@), name@, 0) == Some(i as int),
        r is None ==> artifact_index(artifacts_view(arts@), name@, 0) is None,
{
    let ghost av = artifacts_view(arts@);
    let mut i: usize = 0;
    while i < arts.len()
        invariant
            av == artifacts_view(arts@),
            i <= arts@.len(),
            artifact_index(av, name@, 0) == artifact_index(av, name@, i as int),
        decreases arts@.len() - i,
    {
        assert(av[i as int].0 == arts@[i as int].name@);
        if str_eq(arts[i].name.as_str(), name) {
            return Some(i);
        }
        i = i + 1;
    }
    None
}

impl WorkflowEngine {
    pub open spec fn wf(&self) -> bool {
        &&& self.context.wf()
        &&& self.config.wf()
        &&& forall|i: int| 0 <= i < self.history@.len() ==> (#[trigger] self.history@[i]).context.wf()
    }

    pub fn new(context: WorkflowContext, config: EngineConfig) -> (e: Self)
        ensures
            e.context == context,
            e.config == config,
            e.gates@.len() == 0,
            e.history@.len() == 0,
    {
        WorkflowEngine { context, config, gates: Vec::new(), history: Vec::new() }
    }

    pub fn register_gate(&mut self, gate: GateKind)
        ensures
            final(self).gates@ == old(self).gates@.push(gate),
            final(self).context == old(self).context,
            final(self).config == old(self).config,
            final(self).history == old(self).history,
    {
        self.gates.push(gate);
    }

    fn snapshot(&mut self, reason: &str)
        requires
            old(self).wf(),
        ensures
            final(self).wf(),
            history_view(final(self).history@) == history_view(old(self).history@).push(
                (old(self).context@, reason@),
            ),
            final(self).context == old(self).context,
            final(self).config == old(self).config,
            final(self).gates == old(self).gates,
    {
        let c = self.context.duplicate();
        self.history.push(WorkflowSnapshot::new(c, owned(reason)));
        assert(history_view(self.history@) =~= history_view(old(self).history@).push(
            (old(self).context@, reason@),
        ));
        assert forall|i: int| 0 <= i < self.history@.len() implies (
        #[trigger] self.history@[i]).context.wf() by {
            if i < self.history@.len() - 1 {
                assert(self.history@[i] == old(self).history@[i]);
            }
        }
    }

    /// Saves the current context under `reason`.
    pub fn checkpoint(&mut self, reason: &str)
        requires
            old(self).wf(),
        ensures
            final(self).wf(),
            history_view(final(self).history@) == history_view(old(self).history@).push(
                (old(self).context@, reason@),
            ),
            final(self).context == old(self).context,
            final(self).config == old(self).config,
            final(self).gates == old(self).gates,
    {
        self.snapshot(reason);
    }

    /// Moves `role` to `target` when the configuration allows the move from its
    /// current state, saving the context first.
    pub fn transition_role(&mut self, role: Role, target: RoleState, reason: &str) -> (r: Result<(), EngineError>)
        requires
            old(self).wf(),
        ensures
            final(self).wf(),
            r is Ok <==> (old(self).config.allowed(role) matches Some(a) && transition_listed(
                a,
                old(self).context.role_states.state_of(role),
                target,
            )),
            r is Ok ==> transitioned(*old(self), *final(self), role, target, reason@),
            r is Err ==> *final(self) == *old(self),
            (old(self).config.allowed(role) is None) ==> (r matches Err(EngineError::UnknownRole(k)) && k@ == role_key(role)),
            (old(self).config.allowed(role) matches Some(a) && !transition_listed(
                a,
                old(self).context.role_states.state_of(role),
                target,
            )) ==> (r matches Err(EngineError::InvalidTransition { role: k, from: f, to: t }) && k@ == role_key(role)
                && f@ == role_state_key(old(self).context.role_states.state_of(role)) && t@ == role_state_key(target)),
    {
        let current = self.context.role_states.get(role);
        let slot = role_slot(role);
        let allowed = &self.config.transitions[slot];
        match allowed {
            None => {
                return Err(EngineError::UnknownRole(owned(role.as_key())));
            },
            Some(a) => {
                if !listed(a, current, target) {
                    return Err(
                        EngineError::InvalidTransition {
                            role: owned(role.as_key()),
                            from: owned(current.as_key()),
                            to: owned(target.as_key()),
                        },
                    );
                }
            },
        }
        self.snapshot(reason);
        self.context.role_states.insert(role, target);
        assert(self.context@ =~= ContextView {
            role_states: old(self).context@.role_states.update(role_index(role), Some(target)),
            ..old(self).context@
        });
        Ok(())
    }

    /// Publishes an artifact under its name, replacing one of the same name.
    pub fn add_artifact(&mut self, artifact: Artifact)
        requires
            old(self).wf(),
        ensures
            final(self).wf(),
            final(self).context@ == (ContextView {
                artifacts: with_artifact(old(self).context@.artifacts, artifact@),
                ..old(self).context@
            }),
            final(self).config == old(self).config,
            final(self).gates == old(self).gates,
            final(self).history == old(self).history,
    {
        let ghost arts = self.context@.artifacts;
        let ghost a = artifact@;
        match find_artifact(&self.context.artifacts, artifact.name.as_str()) {
            Some(i) => {
                self.context.artifacts.set(i, artifact);
                proof {
                    assert(artifacts_view(self.context.artifacts@) =~= arts.update(i as int, a));
                    assert(self.context@ =~= (ContextView { artifacts: arts.update(i as int, a), ..old(self).context@ }));
                }
            },
            None => {
                self.context.artifacts.push(artifact);
                proof {
                    assert(artifacts_view(self.context.artifacts@) =~= arts.push(a));
                    assert(self.context@ =~= (ContextView { artifacts: arts.push(a), ..old(self).context@ }));
                }
            },
        }
    }

    /// Checks every artifact against its schema, in order; the first whose
    /// schema does not compile or whose payload does not satisfy it is reported.
    pub fn validate_artifacts(&self) -> (r: Result<(), EngineError>)
        ensures
            match first_invalid(self.context@.artifacts, 0) {
                None => r is Ok,
                Some(i) => (r matches Err(EngineError::SchemaValidationFailed { artifact_name, reason })
                    && artifact_name@ == self.context@.artifacts[i].0 && (schema_compiles(self.context@.artifacts[i].2)
                    ==> reason@ == "payload does not satisfy schema"@) && (!schema_compiles(
                    self.context@.artifacts[i].2,
                ) ==> reason@.subrange(0, 23) == "schema compile failed: "@)),
            },
    {
        let arts = &self.context.artifacts;
        let ghost av = self.context@.artifacts;
        let mut i: usize = 0;
        while i < arts.len()
            invariant
                av == artifacts_view(arts@),
                av == self.context@.artifacts,
                i <= arts@.len(),
                first_invalid(av, 0) == first_invalid(av, i as int),
            decreases arts@.len() - i,
        {
            let a = &arts[i];
            assert(av[i as int] == a@);
            match compile_schema(&a.schema) {
                Err(e) => {
                    proof { reveal_strlit("schema compile failed: "); }
                    let reason = cat("schema compile failed: ", e.as_str());
                    assert(reason@.subrange(0, 23) =~= "schema compile failed: "@);
                    return Err(EngineError::SchemaValidationFailed { artifact_name: a.name.clone(), reason });
                },
                Ok(compiled) => {
                    if !schema_is_valid(&compiled, &a.payload) {
                        return Err(
                            EngineError::SchemaValidationFailed {
                                artifact_name: a.name.clone(),
                                reason: "payload does not satisfy schema".to_string(),
                            },
                        );
                    }
                },
            }
            i = i + 1;
        }
        Ok(())
    }

    /// Runs the registered gates in order and reports the first that fails.
    pub fn execute_gates(&self, docs: &ReadinessDocs) -> (r: Result<(), EngineError>)
        requires
            self.wf(),
        ensures
            match first_gate_problem(self.gates@, 0, self.context@, *docs) {
                None => r is Ok,
                Some(msg) => (r matches Err(EngineError::GateFailed(m)) && m@ == msg),
            },
    {
        let mut i: usize = 0;
        while i < self.gates.len()
            invariant
                self.wf(),
                i <= self.gates@.len(),
                first_gate_problem(self.gates@, 0, self.context@, *docs) == first_gate_problem(
                    self.gates@,
                    i as int,
                    self.context@,
                    *docs,
                ),
            decreases self.gates@.len() - i,
        {
            let outcome = match self.gates[i] {
                GateKind::PmDevQaApproved => gate_pm_dev_qa_approved(&self.context),
                GateKind::SecurityOrException => gate_security_or_exception(&self.context),
                GateKind::DispatchAuditStructured => gate_dispatch_audit_structured(&self.context),
                GateKind::Phase2Readiness => gate_phase2_readiness(docs),
            };
            match outcome {
                Err(e) => {
                    return Err(e);
                },
                Ok(()) => {},
            }
            i = i + 1;
        }
        Ok(())
    }

    /// Restores the context saved by the last snapshot and drops that snapshot.
    pub fn rollback_last(&mut self) -> (r: Result<(), EngineError>)
        requires
            old(self).wf(),
        ensures
            final(self).wf(),
            r is Ok <==> old(self).history@.len() > 0,
            r is Ok ==> rolled_back(*old(self), *final(self)),
            r is Err ==> *final(self) == *old(self) && (r matches Err(EngineError::RollbackUnavailable(m)) && m@ == seq!['n', 'o', ' ', 's', 'n', 'a', 'p', 's', 'h', 'o', 't', ' ', 'f', 'o', 'u', 'n', 'd']),
    {
        if self.history.len() == 0 {
            proof { reveal_strlit("no snapshot found"); }
            let m = owned("no snapshot found");
            assert(m@ =~= seq!['n', 'o', ' ', 's', 'n', 'a', 'p', 's', 'h', 'o', 't', ' ', 'f', 'o', 'u', 'n', 'd']);
            return Err(EngineError::RollbackUnavailable(m));
        }
        match self.history.pop() {
            None => {
                Err(EngineError::RollbackUnavailable(String::new()))
            },
            Some(snapshot) => {
                proof {
                    assert(old(self).history@[old(self).history@.len() - 1].context.wf());
                }
                self.context = snapshot.context;
                assert(history_view(self.history@) =~= history_view(old(self).history@).drop_last());
                assert forall|i: int| 0 <= i < self.history@.len() implies (
                #[trigger] self.history@[i]).context.wf() by {
                    assert(self.history@[i] == old(self).history@[i]);
                }
                Ok(())
            },
        }
    }
}

/// A transition followed by a rollback gives back the context and the
/// history that the engine had before the transition.
pub proof fn law_rollback_undoes_transition(
    e1: WorkflowEngine,
    e2: WorkflowEngine,
    e3: WorkflowEngine,
    r: Role,
    target: RoleState,
    reason: Seq<char>,
)
    requires
        transitioned(e1, e2, r, target, reason),
        rolled_back(e2, e3),
    ensures
        e3.context@ == e1.context@,
        history_view(e3.history@) == history_view(e1.history@),
        e3.config == e1.config,
{
    let h1 = history_view(e1.history@);
    let h2 = history_view(e2.history@);
    assert(h2.len() == h1.len() + 1);
    assert(e2.history@.last()@ == h2.last());
    assert(h1.push((e1.context@, reason)).drop_last() =~= h1);
}

} // verus!
