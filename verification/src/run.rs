//! Running a stage: the orchestration's steps driven to the end, each role
//! run by an agent.

use vstd::prelude::*;
use crate::json::{Json, json_view, settable};
use crate::model::{Role, RoleState, role_key, role_state_key};
use crate::orchestration::{role_at, role_of_slot, marks};
use crate::engine::ROLE_COUNT;
use crate::text::{cat, decimal, decimal_string};
use crate::engine::WorkflowEngine;
use crate::error::EngineError;
use crate::executor::OpenClawExecutor;
use crate::orchestration::{Orchestration, RolePrompts, DevFallbackConfig, artifact_taken, moves_allowed, state_in, action_taken};

verus! {

fn is_settable(j: &Json) -> (b: bool)
    ensures
        b == settable(json_view(*j)),
{
    match j {
        Json::Object(_) => true,
        Json::Null => true,
        _ => false,
    }
}

/// What taking the agent's `answer` for `role` does, from `o0` and `e0` to
/// `o1` and `e1` with result `r`: the agent's refusal is passed on; an answer
/// that is not a JSON object is refused, and so is any answer once the
/// blackboard can take no more events, nothing changing in either case;
/// otherwise the artifact is taken as `artifact_taken` says.
pub open spec fn answer_taken(
    o0: Orchestration,
    o1: Orchestration,
    e0: WorkflowEngine,
    e1: WorkflowEngine,
    role: Role,
    answer: Result<Json, EngineError>,
    r: Result<Vec<String>, EngineError>,
) -> bool {
    &&& e1.config == e0.config
    &&& e1.gates == e0.gates
    &&& o1.steps == o0.steps
    &&& o1.max_steps == o0.max_steps
    &&& o1.round == o0.round
    &&& o1.collab_rounds == o0.collab_rounds
    &&& match answer {
        Err(e) => r == Err::<Vec<String>, EngineError>(e) && o1 == o0 && e1 == e0,
        Ok(j) => if !settable(json_view(j)) {
            &&& r matches Err(EngineError::ArtifactParse(m)) && m@ == "artifact is not a JSON object"@
            &&& o1 == o0 && e1 == e0
        } else if e0.context.blackboard.version >= u64::MAX - 1 || e0.context.blackboard.events@.len() == usize::MAX {
            &&& r matches Err(EngineError::GateFailed(m)) && m@ == "blackboard is full"@
            &&& o1 == o0 && e1 == e0
        } else {
            artifact_taken(o0, o1, e0, e1, role, json_view(j), r)
        },
    }
}

/// One step of a run as it happened: the orchestration and engine before it,
/// the two after picking a role, what picking gave, the agent's answer and
/// what taking the answer gave.
pub type RunStep = (
    Orchestration,
    WorkflowEngine,
    Orchestration,
    WorkflowEngine,
    Result<Option<(Role, String)>, EngineError>,
    Result<Json, EngineError>,
    Result<Vec<String>, EngineError>,
);

/// A step that went through and leaves `o1` and `e1`: a role was picked and
/// handed out with its prompt, the agent was asked to run exactly that role on
/// that prompt for the engine's release and gave `s.5`, and taking that answer
/// succeeded.
pub open spec fn step_ok<E: OpenClawExecutor>(ex: E, prompts: RolePrompts, s: RunStep, o1: Orchestration, e1: WorkflowEngine) -> bool {
    &&& action_taken(s.0, s.2, s.1, s.3, prompts, s.4)
    &&& s.4 matches Ok(Some((role, prompt)))
    &&& ex.answers(s.4->Ok_0->Some_0.0, s.4->Ok_0->Some_0.1@, s.3.context.release_id@, s.5)
    &&& s.6 is Ok
    &&& answer_taken(s.2, o1, s.3, e1, s.4->Ok_0->Some_0.0, s.5, s.6)
}

/// The state a step of `t` leads to: the next step's start, or `(o1, e1)`
/// after the last.
pub open spec fn after_step(t: Seq<RunStep>, i: int, o1: Orchestration, e1: WorkflowEngine) -> (Orchestration, WorkflowEngine) {
    if i + 1 < t.len() { (t[i + 1].0, t[i + 1].1) } else { (o1, e1) }
}

/// `t` is a run of steps that went through, from `(o0, e0)` to `(o1, e1)`.
pub open spec fn steps_from<E: OpenClawExecutor>(
    ex: E,
    prompts: RolePrompts,
    t: Seq<RunStep>,
    o0: Orchestration,
    e0: WorkflowEngine,
    o1: Orchestration,
    e1: WorkflowEngine,
) -> bool {
    &&& t.len() == 0 ==> o1 == o0 && e1 == e0
    &&& t.len() > 0 ==> t[0].0 == o0 && t[0].1 == e0
    &&& forall|i: int| 0 <= i < t.len() ==> #[trigger] step_ok(ex, prompts, t[i], after_step(t, i, o1, e1).0, after_step(t, i, o1, e1).1)
}

/// The step that ends a run, leaving `o1` and `e1` with result `r`: nothing
/// left to pick gives `Ok`; a refused pick gives its error; otherwise the
/// agent was asked to run the picked role on its prompt for the engine's
/// release, and taking its answer failed with `r`.
pub open spec fn last_step<E: OpenClawExecutor>(
    ex: E,
    prompts: RolePrompts,
    s: RunStep,
    o1: Orchestration,
    e1: WorkflowEngine,
    r: Result<Vec<String>, EngineError>,
) -> bool {
    &&& action_taken(s.0, s.2, s.1, s.3, prompts, s.4)
    &&& match s.4 {
        Ok(None) => r is Ok && o1 == s.2 && e1 == s.3,
        Err(e) => r == Err::<Vec<String>, EngineError>(e) && o1 == s.2 && e1 == s.3,
        Ok(Some((role, prompt))) => ex.answers(role, prompt@, s.3.context.release_id@, s.5) && r is Err && s.6 == r
            && answer_taken(s.2, o1, s.3, e1, role, s.5, r),
    }
}

/// How many times the agent was asked in a run of steps `t` ended by `last`.
pub open spec fn agent_calls(t: Seq<RunStep>, last: RunStep) -> int {
    t.len() + if last.4 matches Ok(Some(_)) { 1int } else { 0int }
}

impl Orchestration {
    /// Takes the agent's answer for `role`: the agent's own refusal is passed
    /// on, an answer that is not a JSON object is refused, and so is any
    /// answer once the blackboard can take no more events; otherwise the
    /// artifact is taken as `on_artifact` takes it.
    pub fn take_answer(&mut self, engine: &mut WorkflowEngine, role: Role, answer: Result<Json, EngineError>) -> (r:
        Result<Vec<String>, EngineError>)
        requires
            old(self).wf(),
            old(engine).wf(),
        ensures
            final(self).wf(),
            final(engine).wf(),
            answer_taken(*old(self), *final(self), *old(engine), *final(engine), role, answer, r),
    {
        let raw = match answer {
            Err(e) => {
                return Err(e);
            },
            Ok(j) => j,
        };
        if !is_settable(&raw) {
            return Err(EngineError::ArtifactParse("artifact is not a JSON object".to_string()));
        }
        if engine.context.blackboard.version >= u64::MAX - 1 || engine.context.blackboard.events.len() == usize::MAX {
            return Err(EngineError::GateFailed("blackboard is full".to_string()));
        }
        self.on_artifact(engine, role, raw)
    }

    /// Runs roles until the last round is over: each step picks a role,
    /// asks `executor` for its artifact and hands the answer to
    /// `take_answer`. Stops at the first refusal of a step or of the agent.
    /// Returns the notices of every step. With nothing left to run it
    /// succeeds at once, with no notice and the engine as it was; a first step
    /// that cannot start (the step budget spent, the role without a prompt,
    /// or its move not allowed) is refused before the agent is asked.
    pub fn run<E: OpenClawExecutor>(&mut self, engine: &mut WorkflowEngine, executor: &E, prompts: &RolePrompts) -> (r:
        Result<Vec<String>, EngineError>)
        requires
            old(self).wf(),
            old(engine).wf(),
            prompts.wf(),
        ensures
            final(self).wf(),
            final(engine).wf(),
            final(engine).config == old(engine).config,
            final(engine).gates == old(engine).gates,
            final(self).steps <= old(self).steps + old(self).max_steps,
            r is Ok ==> final(self).next_queue().len() == 0,
            old(self).next_queue().len() == 0 ==> (r matches Ok(ns) && ns@.len() == 0 && *final(engine)
                == *old(engine)),
            old(self).next_queue().len() > 0 ==> ({
                let role = old(self).next_queue()[0];
                &&& old(self).steps >= old(self).max_steps ==> (r matches Err(EngineError::GateFailed(m))
                    && m@ == "orchestration exceeded max_steps="@ + decimal(old(self).max_steps as nat))
                &&& (old(self).steps < old(self).max_steps && prompts.prompt_of(role) is None) ==> (r matches Err(
                    EngineError::ExecutorInvoke(m),
                ) && m@ == "missing prompt for role="@ + role_key(role))
                &&& (old(self).steps < old(self).max_steps && prompts.prompt_of(role) is Some && !moves_allowed(
                    old(engine).config,
                    role,
                    state_in(old(engine).context@, role),
                    seq![(RoleState::InProgress, role_key(role) + " starts"@)],
                )) ==> r is Err
                &&& !first_step_starts(*old(self), *old(engine), *prompts) ==> *final(engine) == *old(engine)
            }),
            exists|t: Seq<RunStep>, last: RunStep|
                #![trigger steps_from(*executor, *prompts, t, *old(self), *old(engine), last.0, last.1), last_step(*executor, *prompts, last, *final(self), *final(engine), r)]
                steps_from(*executor, *prompts, t, *old(self), *old(engine), last.0, last.1) && last_step(
                    *executor,
                    *prompts,
                    last,
                    *final(self),
                    *final(engine),
                    r,
                ) && agent_calls(t, last) <= old(self).max_steps,
    {
        let mut notices: Vec<String> = Vec::new();
        let ghost mut first: bool = true;
        let ghost mut t: Seq<RunStep> = Seq::empty();
        loop
            invariant
                self.wf(),
                engine.wf(),
                prompts.wf(),
                engine.config == old(engine).config,
                engine.gates == old(engine).gates,
                self.max_steps == old(self).max_steps,
                old(self).steps <= self.steps <= old(self).steps + old(self).max_steps,
                self.steps <= self.max_steps || self.steps == old(self).steps,
                first ==> *self == *old(self) && *engine == *old(engine) && notices@.len() == 0,
                !first ==> first_step_starts(*old(self), *old(engine), *prompts),
                first <==> t.len() == 0,
                steps_from(*executor, *prompts, t, *old(self), *old(engine), *self, *engine),
                self.steps == old(self).steps + t.len(),
                t.len() > 0 ==> self.steps <= old(self).max_steps,
            decreases self.max_steps + old(self).max_steps + old(self).steps - self.steps,
        {
            let ghost o_b = *self;
            let ghost e_b = *engine;
            let step = self.next_action(engine, prompts);
            let ghost act = step;
            let ghost o_m = *self;
            let ghost e_m = *engine;
            let (role, prompt) = match step {
                Err(e) => {
                    let ghost last: RunStep = (o_b, e_b, o_m, e_m, act, Ok(Json::Null), Err(e));
                    assert(steps_from(*executor, *prompts, t, *old(self), *old(engine), last.0, last.1));
                    assert(last_step(*executor, *prompts, last, *self, *engine, Err::<Vec<String>, EngineError>(e)));
                    return Err(e);
                },
                Ok(None) => {
                    let ghost last: RunStep = (o_b, e_b, o_m, e_m, act, Ok(Json::Null), Ok(notices));
                    assert(steps_from(*executor, *prompts, t, *old(self), *old(engine), last.0, last.1));
                    assert(last_step(*executor, *prompts, last, *self, *engine, Ok::<Vec<String>, EngineError>(notices)));
                    return Ok(notices);
                },
                Ok(Some(x)) => x,
            };
            proof {
                first = false;
            }
            let answer = executor.execute(&role, prompt.as_str(), engine.context.release_id.as_str());
            let ghost ans = answer;
            let taken = self.take_answer(engine, role, answer);
            let ghost tr = taken;
            match taken {
                Err(e) => {
                    let ghost last: RunStep = (o_b, e_b, o_m, e_m, act, ans, tr);
                    assert(steps_from(*executor, *prompts, t, *old(self), *old(engine), last.0, last.1));
                    assert(last_step(*executor, *prompts, last, *self, *engine, Err::<Vec<String>, EngineError>(e)));
                    return Err(e);
                },
                Ok(ns) => {
                    let ghost rec: RunStep = (o_b, e_b, o_m, e_m, act, ans, tr);
                    proof {
                        assert(step_ok(*executor, *prompts, rec, *self, *engine));
                        let t2 = t.push(rec);
                        assert forall|i: int| 0 <= i < t2.len() implies #[trigger] step_ok(
                            *executor,
                            *prompts,
                            t2[i],
                            after_step(t2, i, *self, *engine).0,
                            after_step(t2, i, *self, *engine).1,
                        ) by {
                            if i < t.len() {
                                assert(t2[i] == t[i]);
                                assert(step_ok(*executor, *prompts, t[i], after_step(t, i, o_b, e_b).0, after_step(t, i, o_b, e_b).1));
                                if i + 1 < t.len() {
                                    assert(t2[i + 1] == t[i + 1]);
                                }
                            }
                        }
                        t = t2;
                    }
                    let mut k: usize = 0;
                    while k < ns.len()
                        invariant
                            k <= ns@.len(),
                        decreases ns@.len() - k,
                    {
                        notices.push(ns[k].clone());
                        k = k + 1;
                    }
                },
            }
        }
    }
}

/// Whether the first step of `o` starts: a role is left to run, the step
/// budget is not spent, the role has a prompt and may move to `InProgress`.
pub open spec fn first_step_starts(o: Orchestration, e: WorkflowEngine, prompts: RolePrompts) -> bool {
    let role = o.next_queue()[0];
    &&& o.next_queue().len() > 0
    &&& o.steps < o.max_steps
    &&& prompts.prompt_of(role) is Some
    &&& moves_allowed(
        e.config,
        role,
        state_in(e.context@, role),
        seq![(RoleState::InProgress, role_key(role) + " starts"@)],
    )
}

impl WorkflowEngine {
    /// Runs a stage's roles, starting with `initial_roles`, for at least one
    /// and at most `collab_rounds` rounds (every role in the rounds after the
    /// first) and at most `max_steps` steps, with `executor` as the agent of
    /// every role. Returns the notices of every step.
    pub fn run_orchestration<E: OpenClawExecutor>(
        &mut self,
        executor: &E,
        prompts: &RolePrompts,
        initial_roles: Vec<Role>,
        max_steps: usize,
        fallback: DevFallbackConfig,
        collab_rounds: usize,
    ) -> (r: Result<Vec<String>, EngineError>)
        requires
            old(self).wf(),
            prompts.wf(),
        ensures
            final(self).wf(),
            final(self).config == old(self).config,
            final(self).gates == old(self).gates,
            initial_roles@.len() == 0 && collab_rounds <= 1 ==> (r matches Ok(ns) && ns@.len() == 0 && *final(self)
                == *old(self)),
            initial_roles@.len() > 0 && max_steps == 0 ==> (r matches Err(EngineError::GateFailed(m)) && m@
                == "orchestration exceeded max_steps=0"@ && *final(self) == *old(self)),
            initial_roles@.len() > 0 && max_steps > 0 && prompts.prompt_of(initial_roles@[0]) is None ==> (r matches Err(
                EngineError::ExecutorInvoke(m),
            ) && m@ == "missing prompt for role="@ + role_key(initial_roles@[0]) && *final(self) == *old(self)),
            initial_roles@.len() > 0 && max_steps > 0 && prompts.prompt_of(initial_roles@[0]) is Some && !moves_allowed(
                old(self).config,
                initial_roles@[0],
                state_in(old(self).context@, initial_roles@[0]),
                seq![(RoleState::InProgress, role_key(initial_roles@[0]) + " starts"@)],
            ) ==> (r is Err && *final(self) == *old(self)),
            exists|o0: Orchestration, t: Seq<RunStep>, last: RunStep, o1: Orchestration|
                #![trigger steps_from(*executor, *prompts, t, o0, *old(self), last.0, last.1), last_step(*executor, *prompts, last, o1, *final(self), r)]
                started_with(o0, initial_roles@, collab_rounds, max_steps, fallback) && steps_from(
                    *executor,
                    *prompts,
                    t,
                    o0,
                    *old(self),
                    last.0,
                    last.1,
                ) && last_step(*executor, *prompts, last, o1, *final(self), r) && agent_calls(t, last) <= max_steps,
    {
        let ghost roles = initial_roles@;
        let mut o = Orchestration::start(initial_roles, collab_rounds, max_steps, fallback);
        proof {
            reveal_strlit("orchestration exceeded max_steps=0");
            reveal_strlit("orchestration exceeded max_steps=");
            assert(decimal(0) =~= seq!['0']);
            if roles.len() > 0 {
                assert(o.next_queue() == roles);
            }
        }
        let ghost o0 = o;
        let r = o.run(self, executor, prompts);
        proof {
            let (t, last) = choose|t: Seq<RunStep>, last: RunStep|
                #![trigger steps_from(*executor, *prompts, t, o0, *old(self), last.0, last.1), last_step(*executor, *prompts, last, o, *self, r)]
                steps_from(*executor, *prompts, t, o0, *old(self), last.0, last.1) && last_step(*executor, *prompts, last, o, *self, r)
                    && agent_calls(t, last) <= o0.max_steps;
            assert(started_with(o0, roles, collab_rounds, max_steps, fallback));
            assert(steps_from(*executor, *prompts, t, o0, *old(self), last.0, last.1) && last_step(*executor, *prompts, last, o, *self, r));
        }
        r
    }
}

/// `o` is the orchestration that `Orchestration::start` makes from the initial
/// roles, the number of rounds (at least one), the step budget and the
/// fallback settings: first round, no step taken, the initial roles queued.
pub open spec fn started_with(o: Orchestration, roles: Seq<Role>, collab_rounds: usize, max_steps: usize, fallback: DevFallbackConfig) -> bool {
    &&& o.wf()
    &&& o.collab_rounds == (if collab_rounds > 0 { collab_rounds } else { 1 })
    &&& o.max_steps == max_steps
    &&& o.fallback == fallback
    &&& o.round == 1
    &&& o.steps == 0
    &&& o.queue@ == roles
    &&& o.queued@ == marks(roles)
    &&& forall|i: int| 0 <= i < ROLE_COUNT ==> o.retries@[i] == 0
}


/// The lines of each role's state, in role-table order, for roles that have one.
pub open spec fn role_state_lines(slots: Seq<Option<RoleState>>, n: int) -> Seq<Seq<char>>
    decreases n,
{
    if n <= 0 {
        seq![]
    } else {
        role_state_lines(slots, n - 1) + match slots[n - 1] {
            Some(st) => seq!["  role="@ + role_key(role_at(n - 1)) + " state="@ + role_state_key(st)],
            None => seq![],
        }
    }
}

/// The summary of an engine's state: the release, each role's state, the
/// snapshots when there are any (with the reason of the last), and the
/// blackboard's version and event count.
pub open spec fn state_summary(e: WorkflowEngine) -> Seq<Seq<char>> {
    seq!["release_id="@ + e.context.release_id@] + role_state_lines(e.context.role_states.slots@, ROLE_COUNT as int)
        + (if e.history@.len() > 0 {
        seq![
            "  snapshots="@ + decimal(e.history@.len()),
            "  last_snapshot_reason="@ + e.history@.last().reason@,
        ]
    } else {
        seq![]
    }) + seq![
        "  blackboard_version="@ + decimal(e.context.blackboard.version as nat),
        "  blackboard_events="@ + decimal(e.context.blackboard.events@.len()),
    ]
}

impl WorkflowEngine {
    /// The lines that describe the engine's state.
    pub fn state_lines(&self) -> (lines: Vec<String>)
        requires
            self.wf(),
        ensures
            lines@.map_values(|l: String| l@) == state_summary(*self),
    {
        let mut lines: Vec<String> = Vec::new();
        lines.push(cat("release_id=", self.context.release_id.as_str()));
        let mut i: usize = 0;
        while i < ROLE_COUNT
            invariant
                self.wf(),
                i <= ROLE_COUNT,
                lines@.map_values(|l: String| l@) == seq!["release_id="@ + self.context.release_id@]
                    + role_state_lines(self.context.role_states.slots@, i as int),
            decreases ROLE_COUNT - i,
        {
            let ghost before = lines@.map_values(|l: String| l@);
            match self.context.role_states.slots[i] {
                Some(st) => {
                    let role = role_of_slot(i);
                    let a = cat("  role=", role.as_key());
                    let b = cat(a.as_str(), " state=");
                    lines.push(cat(b.as_str(), st.as_key()));
                    assert(lines@.map_values(|l: String| l@) =~= before.push(
                        "  role="@ + role_key(role_at(i as int)) + " state="@ + role_state_key(st),
                    ));
                },
                None => {},
            }
            i = i + 1;
        }
        let ghost mid = lines@.map_values(|l: String| l@);
        if self.history.len() > 0 {
            lines.push(cat("  snapshots=", decimal_string(self.history.len() as u64).as_str()));
            let last = self.history.len() - 1;
            lines.push(cat("  last_snapshot_reason=", self.history[last].reason.as_str()));
        }
        lines.push(cat("  blackboard_version=", decimal_string(self.context.blackboard.version).as_str()));
        lines.push(cat("  blackboard_events=", decimal_string(self.context.blackboard.events.len() as u64).as_str()));
        assert(lines@.map_values(|l: String| l@) =~= state_summary(*self));
        lines
    }
}

} // verus!
