use rust_workflow_engine::engine::{EngineConfig, WorkflowContext, WorkflowEngine};
use rust_workflow_engine::executor::{
    artifact_from_stdout, extract_first_json_object, mock_artifact, MockOpenClawExecutor, OpenClawExecutor,
};
use rust_workflow_engine::json::{Json, JsonNumber};
use rust_workflow_engine::model::{Role, RoleState};
use rust_workflow_engine::error::EngineError;
use rust_workflow_engine::orchestration::{DevFallbackConfig, Orchestration, RolePrompts};
use rust_workflow_engine::workflow_plan::build_stage_prompts;

fn text_of<'a>(j: &'a Json, key: &str) -> &'a str {
    j.get(key).and_then(|v| v.as_str()).unwrap()
}

#[test]
fn first_json_object_skips_braces_in_strings() {
    let raw = "noise {\"a\": \"}\", \"b\": {\"c\": 1}} tail {\"d\": 2}";
    assert_eq!(extract_first_json_object(raw).unwrap(), "{\"a\": \"}\", \"b\": {\"c\": 1}}");
    let esc = "x {\"q\": \"say \\\"}\\\" now\"} y";
    assert_eq!(extract_first_json_object(esc).unwrap(), "{\"q\": \"say \\\"}\\\" now\"}");
    assert_eq!(extract_first_json_object("no object here"), None);
    assert_eq!(extract_first_json_object("{ unbalanced"), None);
    assert_eq!(extract_first_json_object("} {}"), Some("{}".to_string()));
    assert_eq!(extract_first_json_object("前言 {\"k\":\"值\"} 后"), Some("{\"k\":\"值\"}".to_string()));
}

#[test]
fn mock_artifact_fields() {
    let a = mock_artifact(&Role::QA, "héllo", "rel-1", 3);
    assert_eq!(text_of(&a, "role"), "QA");
    assert_eq!(text_of(&a, "release_id"), "rel-1");
    assert_eq!(text_of(&a, "decision"), "approved");
    assert_eq!(text_of(&a, "summary"), "QA executed prompt");
    assert_eq!(text_of(&a, "prompt_hash"), "len:6");
    assert_eq!(text_of(&a, "next_role"), "Security");
    match a.get("skills_applied").unwrap() {
        Json::Array(items) => {
            assert_eq!(items[0].as_str(), Some("pmp_baseline"));
            assert_eq!(items[1].as_str(), Some("qa_role_skill"));
        },
        other => panic!("skills_applied is {:?}", other),
    }
    let ev = a.get("evidence").unwrap();
    match ev.get("metric_value").unwrap() {
        Json::Number(JsonNumber::Float(t)) => assert_eq!(t, "0.98"),
        other => panic!("metric_value is {:?}", other),
    }
    match ev.get("sample_size").unwrap() {
        Json::Number(JsonNumber::PosInt(n)) => assert_eq!(*n, 120),
        other => panic!("sample_size is {:?}", other),
    }
    match a.get("deliverables").unwrap() {
        Json::Array(items) => {
            assert_eq!(text_of(&items[0], "path"), "phase1_week3_qa_consistency_plan.md");
            assert_eq!(
                text_of(&items[0], "content"),
                "# QA deliverable\n\n- release_id: rel-1\n- generated_by: mock-openclaw\n\nhéllo"
            );
        },
        other => panic!("deliverables is {:?}", other),
    }
    let sre = mock_artifact(&Role::SRE, "", "r", 1);
    assert!(matches!(sre.get("next_role"), Some(Json::Null)));
}

#[test]
fn mock_executor_answers_through_the_trait() {
    let m = MockOpenClawExecutor { week: 2 };
    let a = m.execute(&Role::PM, "p", "rel").unwrap();
    assert_eq!(text_of(&a, "next_role"), "Dev");
}

#[test]
fn mock_run_approves_every_role() {
    let mut ctx = WorkflowContext::new("rel-w1".to_string());
    for r in [Role::PM, Role::Dev, Role::QA, Role::SRE, Role::Security, Role::Blackboard] {
        ctx.role_states.insert(r, RoleState::Idle);
    }
    let mut engine = WorkflowEngine::new(ctx, EngineConfig::mvp_default());
    let prompts = build_stage_prompts("W1", &Vec::new(), 1, "# Plan\nx\n", "# Rules\ny\n", &Vec::new(), &Vec::new());
    let fallback = DevFallbackConfig { enabled: false, max_retry: 0, allow_conditional_continue: false };
    let r = engine.run_orchestration(&MockOpenClawExecutor { week: 1 }, &prompts, vec![Role::PM], 30, fallback, 1);
    assert!(r.is_ok(), "{:?}", r.err());
    for role in [Role::PM, Role::Dev, Role::QA, Role::Security, Role::SRE] {
        assert_eq!(engine.context.role_states.get(role), RoleState::Approved);
    }
    assert_eq!(engine.context.collaboration_log.len(), 4);
}

#[test]
fn mock_run_stops_at_step_budget() {
    let mut engine = WorkflowEngine::new(WorkflowContext::new("rel".to_string()), EngineConfig::mvp_default());
    let prompts = build_stage_prompts("W1", &Vec::new(), 1, "", "", &Vec::new(), &Vec::new());
    let fallback = DevFallbackConfig { enabled: false, max_retry: 0, allow_conditional_continue: false };
    let r = engine.run_orchestration(&MockOpenClawExecutor { week: 1 }, &prompts, vec![Role::PM], 2, fallback, 1);
    match r {
        Err(e) => assert_eq!(format!("{:?}", e), "GateFailed(\"orchestration exceeded max_steps=2\")"),
        Ok(_) => panic!("expected the step budget to run out"),
    }
}

fn idle_engine(release: &str) -> WorkflowEngine {
    let mut ctx = WorkflowContext::new(release.to_string());
    for r in [Role::PM, Role::Dev, Role::QA, Role::SRE, Role::Security, Role::Blackboard] {
        ctx.role_states.insert(r, RoleState::Idle);
    }
    WorkflowEngine::new(ctx, EngineConfig::mvp_default())
}

fn no_fallback() -> DevFallbackConfig {
    DevFallbackConfig { enabled: false, max_retry: 0, allow_conditional_continue: false }
}

#[test]
fn take_answer_passes_on_the_agents_refusal() {
    let mut engine = idle_engine("rel-t1");
    let mut o = Orchestration::start(vec![Role::PM], 1, 5, no_fallback());
    let r = o.take_answer(&mut engine, Role::PM, Err(EngineError::ExecutorInvoke("agent down".to_string())));
    match r {
        Err(EngineError::ExecutorInvoke(m)) => assert_eq!(m, "agent down"),
        other => panic!("unexpected {:?}", other),
    }
    assert_eq!(engine.context.blackboard.version, 0);
    assert_eq!(engine.context.blackboard.events.len(), 0);
}

#[test]
fn take_answer_refuses_an_answer_that_is_not_an_object() {
    let mut engine = idle_engine("rel-t2");
    let mut o = Orchestration::start(vec![Role::PM], 1, 5, no_fallback());
    let r = o.take_answer(&mut engine, Role::PM, Ok(Json::Str("plain text".to_string())));
    match r {
        Err(EngineError::ArtifactParse(m)) => assert_eq!(m, "artifact is not a JSON object"),
        other => panic!("unexpected {:?}", other),
    }
    assert_eq!(engine.context.blackboard.events.len(), 0);
}

#[test]
fn run_with_nothing_to_run_succeeds_without_notices() {
    let mut engine = idle_engine("rel-t3");
    let prompts = RolePrompts { prompts: vec![None, None, None, None, None, None] };
    let mut o = Orchestration::start(Vec::new(), 1, 5, no_fallback());
    let r = o.run(&mut engine, &MockOpenClawExecutor { week: 1 }, &prompts);
    assert_eq!(r.unwrap().len(), 0);
    assert_eq!(engine.context.blackboard.version, 0);
}

#[test]
fn run_refuses_a_first_step_beyond_the_budget() {
    let mut engine = idle_engine("rel-t4");
    let prompts = RolePrompts { prompts: vec![None, None, None, None, None, None] };
    let mut o = Orchestration::start(vec![Role::PM], 1, 0, no_fallback());
    match o.run(&mut engine, &MockOpenClawExecutor { week: 1 }, &prompts) {
        Err(EngineError::GateFailed(m)) => assert_eq!(m, "orchestration exceeded max_steps=0"),
        other => panic!("unexpected {:?}", other),
    }
}

#[test]
fn run_refuses_a_first_role_without_prompt() {
    let mut engine = idle_engine("rel-t5");
    let prompts = RolePrompts { prompts: vec![None, None, None, None, None, None] };
    let mut o = Orchestration::start(vec![Role::PM], 1, 5, no_fallback());
    match o.run(&mut engine, &MockOpenClawExecutor { week: 1 }, &prompts) {
        Err(EngineError::ExecutorInvoke(m)) => assert_eq!(m, "missing prompt for role=PM"),
        other => panic!("unexpected {:?}", other),
    }
    assert_eq!(engine.context.blackboard.events.len(), 0);
}

#[test]
fn stdout_that_is_the_artifact() {
    let a = artifact_from_stdout("{\"role\":\"PM\",\"decision\":\"approved\"}").unwrap();
    assert_eq!(a.get("role").and_then(|v| v.as_str()), Some("PM"));
}

#[test]
fn artifact_in_response_content_after_noise() {
    let out = "log line {\"response\":{\"content\":\"{\\\"role\\\":\\\"QA\\\",\\\"decision\\\":\\\"rejected\\\"}\"}} tail";
    let a = artifact_from_stdout(out).unwrap();
    assert_eq!(a.get("decision").and_then(|v| v.as_str()), Some("rejected"));
}

#[test]
fn artifact_in_payload_text() {
    let out = "{\"payloads\":[{\"text\":\"here: {\\\"role\\\":\\\"Dev\\\",\\\"decision\\\":\\\"approved\\\"} done\"}]}";
    let a = artifact_from_stdout(out).unwrap();
    assert_eq!(a.get("role").and_then(|v| v.as_str()), Some("Dev"));
}

#[test]
fn stdout_without_artifact_or_json() {
    match artifact_from_stdout("{\"other\":1}") {
        Err(EngineError::ArtifactParse(m)) => assert_eq!(m, "cannot find artifact json in openclaw output"),
        other => panic!("unexpected {:?}", other),
    }
    match artifact_from_stdout("no json at all") {
        Err(EngineError::ArtifactParse(m)) => assert!(m.starts_with("stdout is not valid json: ")),
        other => panic!("unexpected {:?}", other),
    }
    match artifact_from_stdout("{\"output\":\"not json\"}") {
        Err(EngineError::ArtifactParse(m)) => assert!(m.starts_with("output is not artifact json: ")),
        other => panic!("unexpected {:?}", other),
    }
}
