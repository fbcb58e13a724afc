use rust_workflow_engine::blackboard_agent::normalize_artifact;
use rust_workflow_engine::engine::{EngineConfig, WorkflowContext, WorkflowEngine};
use rust_workflow_engine::executor::MockOpenClawExecutor;
use rust_workflow_engine::gates::gate_dispatch_audit_structured;
use rust_workflow_engine::json::Json;
use rust_workflow_engine::model::{Role, RoleState};
use rust_workflow_engine::orchestration::DevFallbackConfig;
use rust_workflow_engine::workflow_plan::build_stage_prompts;

fn nonblank_list(j: Option<&Json>) -> bool {
    match j {
        Some(Json::Array(items)) => {
            !items.is_empty() && items.iter().all(|x| x.as_str().map(|s| !s.trim().is_empty()).unwrap_or(false))
        },
        _ => false,
    }
}

fn nonblank(j: Option<&Json>) -> bool {
    j.and_then(|v| v.as_str()).map(|s| !s.trim().is_empty()).unwrap_or(false)
}

fn assert_complete(n: &Json, role: &str, release: &str) {
    assert_eq!(n.get("role").and_then(|v| v.as_str()), Some(role));
    assert_eq!(n.get("release_id").and_then(|v| v.as_str()), Some(release));
    let d = n.get("decision").and_then(|v| v.as_str()).unwrap();
    assert!(d == "approved" || d == "rejected");
    assert!(n.get("summary").and_then(|v| v.as_str()).is_some());
    assert!(nonblank_list(n.get("skills_applied")));
    assert!(nonblank_list(n.get("risk_controls")));
    assert!(matches!(n.get("evidence"), Some(Json::Object(_))));
    let refs = n.get("evidence_refs").unwrap();
    assert!(nonblank(refs.get("skill_evidence")));
    assert!(nonblank(refs.get("risk_evidence")));
}

#[test]
fn normalized_artifact_from_nothing_is_complete() {
    let n = normalize_artifact(Json::Null, "rel-9", &Role::Dev);
    assert_complete(&n, "Dev", "rel-9");
    assert_eq!(n.get("decision").and_then(|v| v.as_str()), Some("rejected"));
    assert_eq!(n.get("summary").and_then(|v| v.as_str()), Some("no summary provided"));
}

#[test]
fn normalized_artifact_keeps_an_approval_in_any_case() {
    let a = Json::Object(vec![
        ("decision".to_string(), Json::Str("APPROVED".to_string())),
        ("summary".to_string(), Json::Str("done".to_string())),
        ("role".to_string(), Json::Str("QA".to_string())),
        ("skills_applied".to_string(), Json::Array(vec![Json::Str("  ".to_string())])),
    ]);
    let n = normalize_artifact(a, "rel-2", &Role::Security);
    assert_complete(&n, "Security", "rel-2");
    assert_eq!(n.get("decision").and_then(|v| v.as_str()), Some("approved"));
    assert_eq!(n.get("summary").and_then(|v| v.as_str()), Some("done"));
}

#[test]
fn every_recorded_dispatch_passes_the_audit_gate() {
    let mut ctx = WorkflowContext::new("rel-audit".to_string());
    for r in [Role::PM, Role::Dev, Role::QA, Role::SRE, Role::Security, Role::Blackboard] {
        ctx.role_states.insert(r, RoleState::Idle);
    }
    let mut engine = WorkflowEngine::new(ctx, EngineConfig::mvp_default());
    let prompts = build_stage_prompts("W2", &Vec::new(), 2, "# Plan\n", "# Rules\n", &Vec::new(), &Vec::new());
    let fallback = DevFallbackConfig { enabled: false, max_retry: 0, allow_conditional_continue: false };
    let r = engine.run_orchestration(&MockOpenClawExecutor { week: 2 }, &prompts, vec![Role::PM], 30, fallback, 1);
    assert!(r.is_ok(), "{:?}", r.err());
    assert!(gate_dispatch_audit_structured(&engine.context).is_ok());
}

#[test]
fn audit_gate_refuses_a_context_without_dispatches() {
    let ctx = WorkflowContext::new("rel-empty".to_string());
    match gate_dispatch_audit_structured(&ctx) {
        Err(e) => assert_eq!(format!("{:?}", e), "GateFailed(\"no dispatch_decided event found for audit\")"),
        Ok(_) => panic!("an empty blackboard has no dispatch to audit"),
    }
}
