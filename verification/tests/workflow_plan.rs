use rust_workflow_engine::engine::{EngineConfig, WorkflowContext, WorkflowEngine, GateKind};
use rust_workflow_engine::model::{Role, RoleState};
use rust_workflow_engine::orchestration::DevFallbackConfig;
use rust_workflow_engine::workflow_plan::{
    build_stage_prompts, extract_markdown_sections, flag_setting, is_cleared_session_file, register_stage_gates,
    resolve_openclaw_agent_ids, resolve_roles, stage_deliverable_settings, stage_role_deliverable_path, usize_setting,
};

fn strings(v: &[&str]) -> Vec<String> {
    v.iter().map(|s| s.to_string()).collect()
}

#[test]
fn flag_setting_reads_switches() {
    assert!(flag_setting(Some(" TRUE ")));
    assert!(flag_setting(Some("1")));
    assert!(flag_setting(Some("Yes")));
    assert!(flag_setting(Some("on")));
    assert!(!flag_setting(Some("no")));
    assert!(!flag_setting(Some("")));
    assert!(!flag_setting(None));
}

#[test]
fn usize_setting_reads_counts() {
    assert_eq!(usize_setting(Some(" 7 "), 2), 7);
    assert_eq!(usize_setting(Some("+3"), 2), 3);
    assert_eq!(usize_setting(Some("x"), 2), 2);
    assert_eq!(usize_setting(Some("-1"), 2), 2);
    assert_eq!(usize_setting(None, 2), 2);
}

#[test]
fn dev_fallback_from_settings() {
    let c = DevFallbackConfig::from_settings(Some("true"), Some("3"), None);
    assert!(c.enabled);
    assert_eq!(c.max_retry, 3);
    assert!(!c.allow_conditional_continue);
    let d = DevFallbackConfig::from_settings(None, None, Some("on"));
    assert!(!d.enabled);
    assert_eq!(d.max_retry, 0);
    assert!(d.allow_conditional_continue);
}

#[test]
fn stage_paths_prefer_the_stage_table() {
    let paths = vec![("pm".to_string(), "custom/pm.md".to_string())];
    assert_eq!(stage_role_deliverable_path(&paths, 2, &Role::PM), "custom/pm.md");
    assert_eq!(stage_role_deliverable_path(&paths, 2, &Role::Dev), "phase1_week2_dev_delivery.md");
    assert_eq!(stage_role_deliverable_path(&Vec::new(), 9, &Role::QA), "phase1_week1_test_matrix_v1.md");
}

#[test]
fn stage_settings_name_every_delivering_role() {
    let paths = vec![("SRE".to_string(), "ops.md".to_string())];
    let s = stage_deliverable_settings(&paths, 1);
    assert_eq!(s.len(), 5);
    assert_eq!(s[0], ("OPENCLAW_DEFAULT_DELIVERABLE_PM".to_string(), "phase1_week1_prd_v1.md".to_string()));
    assert_eq!(s[3].0, "OPENCLAW_DEFAULT_DELIVERABLE_SECURITY");
    assert_eq!(s[4], ("OPENCLAW_DEFAULT_DELIVERABLE_SRE".to_string(), "ops.md".to_string()));
}

#[test]
fn resolve_roles_reads_keys() {
    let r = resolve_roles(&strings(&["PM", "QA"])).unwrap();
    assert_eq!(r, vec![Role::PM, Role::QA]);
    assert_eq!(resolve_roles(&Vec::new()).unwrap(), vec![Role::PM]);
    assert_eq!(
        resolve_roles(&strings(&["Dev", "pm"])).unwrap_err(),
        "unknown role 'pm' in workflow stage initial_roles; expected PM/Dev/QA/Security/SRE"
    );
}

#[test]
fn register_stage_gates_stops_at_unknown_name() {
    let mut engine = WorkflowEngine::new(WorkflowContext::new("r1".to_string()), EngineConfig::mvp_default());
    let r = register_stage_gates(&mut engine, &strings(&["pm_dev_qa_approved", "bogus", "phase2_readiness"]));
    assert_eq!(r.unwrap_err(), "unknown gate in workflow plan: bogus");
    assert_eq!(engine.gates, vec![GateKind::PmDevQaApproved]);

    let mut e2 = WorkflowEngine::new(WorkflowContext::new("r1".to_string()), EngineConfig::mvp_default());
    assert!(register_stage_gates(&mut e2, &strings(&["security_or_exception", "dispatch_audit_structured"])).is_ok());
    assert_eq!(e2.gates, vec![GateKind::SecurityOrException, GateKind::DispatchAuditStructured]);
}

#[test]
fn agent_ids_dedup_and_add_defaults() {
    let values = vec![
        Some(" a ".to_string()),
        Some("pm".to_string()),
        None,
        Some("a".to_string()),
        Some("  ".to_string()),
        Some("x".to_string()),
    ];
    assert_eq!(
        resolve_openclaw_agent_ids(&values),
        strings(&["a", "pm", "x", "dev", "qa", "security", "sre"])
    );
    assert_eq!(resolve_openclaw_agent_ids(&Vec::new()), strings(&["pm", "dev", "qa", "security", "sre"]));
}

#[test]
fn session_files_cleared() {
    assert!(is_cleared_session_file("sessions.json"));
    assert!(is_cleared_session_file("abc.jsonl"));
    assert!(is_cleared_session_file("abc.jsonl.reset.1"));
    assert!(!is_cleared_session_file("notes.txt"));
    assert!(!is_cleared_session_file("jsonl"));
}

#[test]
fn markdown_sections_in_target_order() {
    let doc = "intro\n# A\nbody a\n## B title\nbody b\r\n";
    let out = extract_markdown_sections(doc, &strings(&["B", "A", "Z"]), 5000);
    assert_eq!(out, "## B title\nbody b\n\n# A\nbody a\n\n");
    let cut = extract_markdown_sections(doc, &strings(&["B"]), 5);
    assert_eq!(cut, "## B ");
}

#[test]
fn markdown_sections_fall_back_to_document_start() {
    let doc = "intro text\n# A\n";
    assert_eq!(extract_markdown_sections(doc, &strings(&["Z"]), 5), "intro");
    assert_eq!(extract_markdown_sections(doc, &strings(&["A"]), 100), "# A\n\n");
    assert_eq!(extract_markdown_sections("  \n", &strings(&["A"]), 100), "  \n");
}

#[test]
fn stage_prompts_for_each_role() {
    let board = "# Plan\nship it\n";
    let rules = "# Rules\nno secrets\n";
    let p = build_stage_prompts("W1", &Vec::new(), 1, board, rules, &strings(&["Plan"]), &strings(&["Rules"]));
    assert_eq!(p.prompts.len(), 6);
    let pm = p.prompts[0].as_ref().unwrap();
    assert!(pm.starts_with("上下文说明：\n- 当前阶段：W1。"));
    assert!(pm.ends_with("\n目标交付路径：phase1_week1_prd_v1.md\n\n[execution_board 摘录]\n# Plan\nship it\n\n"));
    let sec = p.prompts[4].as_ref().unwrap();
    assert!(sec.ends_with("[phase1_submission_gate_rules 摘录]\n# Rules\nno secrets\n\n"));
    assert!(p.prompts[5].is_none());
}

#[test]
fn fresh_context_roles_are_idle() {
    let c = WorkflowContext::new("r".to_string());
    assert_eq!(c.role_states.get(Role::PM), RoleState::Idle);
}
