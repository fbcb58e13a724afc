use rust_workflow_engine::security::threat_detection_impl::{
    matches_pattern, per_mille_string, AlertAction, CompareOp, DetectionRule, DetectionStats, LogicOp, RuleCondition,
    RuleEngine, Severity, ThreatCategory, ThreatDetectionEngine, ThreatDetectionError, ThreatEvent,
};
use std::time::Instant;

fn event(id: &str, kind: &str, metrics: Vec<(&str, u64)>, fields: Vec<(&str, &str)>, score: Option<u64>) -> ThreatEvent {
    ThreatEvent {
        event_id: id.to_string(),
        event_type: kind.to_string(),
        user_id: Some("user_123".to_string()),
        source_ip: None,
        resource: None,
        action: None,
        metrics: metrics.into_iter().map(|(k, v)| (k.to_string(), v)).collect(),
        fields: fields.into_iter().map(|(k, v)| (k.to_string(), v.to_string())).collect(),
        anomaly_score_per_mille: score,
        timestamp_ms: 0,
    }
}

fn ready_engine() -> ThreatDetectionEngine {
    let mut engine = ThreatDetectionEngine::new();
    assert!(engine.initialize().is_ok());
    engine
}

#[test]
fn test_threat_detection_engine_creation() {
    let engine = ThreatDetectionEngine::new();
    let stats = engine.get_stats();
    assert_eq!(stats.total_events, 0);
    assert_eq!(stats.alerts_generated, 0);
}

#[test]
fn test_threat_detection_initialization() {
    let engine = ready_engine();
    let rules = engine.get_rules();
    assert!(rules.len() >= 12);
    assert_eq!(rules.len(), 15);
    assert_eq!(rules[0].id, "THREAT-ACCESS-001");
    assert_eq!(rules[14].id, "THREAT-CONFIG-003");
}

#[test]
fn test_high_frequency_access_detection() {
    let mut engine = ready_engine();
    let e = event("event_1", "access", vec![("requests_per_ip", 1200)], vec![], None);
    let alerts = engine.detect(&e).unwrap_or_else(|_| panic!("detection failed"));
    assert!(alerts.iter().any(|a| a.rule_id == "THREAT-ACCESS-001"));
}

#[test]
fn test_privilege_escalation_detection() {
    let mut engine = ready_engine();
    let e = event("event_1", "authorization", vec![], vec![("opa_decision.reason", "authorization_denied_role_admin")], None);
    let alerts = engine.detect(&e).unwrap_or_else(|_| panic!("detection failed"));
    assert!(alerts.iter().any(|a| a.rule_id == "THREAT-PRIV-001"));
}

#[test]
fn test_data_leak_detection() {
    let mut engine = ready_engine();
    let e = event("event_1", "data_export", vec![("data_export_volume", 150 * 1024 * 1024)], vec![], None);
    let alerts = engine.detect(&e).unwrap_or_else(|_| panic!("detection failed"));
    assert!(alerts.iter().any(|a| a.rule_id == "THREAT-LEAK-001"));
}

#[test]
fn test_service_anomaly_detection() {
    let mut engine = ready_engine();
    let e = event("event_1", "resource", vec![("resource_utilization", 95)], vec![], None);
    let alerts = engine.detect(&e).unwrap_or_else(|_| panic!("detection failed"));
    assert!(alerts.iter().any(|a| a.rule_id == "THREAT-SVC-003"));
}

#[test]
fn test_detection_stats() {
    let mut engine = ready_engine();
    for i in 0..5 {
        let e = event(&format!("event_{}", i), "test", vec![], vec![], None);
        let _ = engine.detect(&e);
    }
    let stats = engine.get_stats();
    assert!(stats.total_events >= 5);
}

#[test]
fn test_detection_latency() {
    let mut engine = ready_engine();
    let e = event("event_1", "test", vec![], vec![], None);
    let start = Instant::now();
    let _ = engine.detect(&e);
    let latency = start.elapsed().as_micros() as u64;
    assert!(latency < 5000000);
}

#[test]
fn quiet_event_raises_only_the_anomaly_model_rules() {
    let mut engine = ready_engine();
    let e = event("e", "test", vec![("requests_per_ip", 10)], vec![], None);
    let alerts = engine.detect(&e).unwrap_or_else(|_| panic!("detection failed"));
    let ids: Vec<&str> = alerts.iter().map(|a| a.rule_id.as_str()).collect();
    assert_eq!(ids, vec!["THREAT-ACCESS-003", "THREAT-LEAK-003", "THREAT-CONFIG-003"]);
    let a = &alerts[0];
    assert_eq!(a.title, "Geographic Anomaly");
    assert_eq!(a.details, "Detected by rule: Geographic Anomaly");
    assert_eq!(a.severity, Severity::High);
    assert!(matches!(a.actions[1], AlertAction::Block { duration_secs: 900 }));
    let stats = engine.get_stats();
    assert_eq!(stats.total_events, 1);
    assert_eq!(stats.alerts_generated, 3);
    assert_eq!(engine.alert_manager.get_alerts().len(), 3);
}

#[test]
fn composite_rules_need_their_signals() {
    let mut engine = ready_engine();
    let both = event("e", "t", vec![], vec![("is_off_hours", "1"), ("is_sensitive_operation", "1")], None);
    let alerts = engine.detect(&both).unwrap_or_else(|_| panic!("detection failed"));
    assert!(alerts.iter().any(|a| a.rule_id == "THREAT-ACCESS-002"));
    let one = event("e", "t", vec![], vec![("is_off_hours", "1")], None);
    let alerts = engine.detect(&one).unwrap_or_else(|_| panic!("detection failed"));
    assert!(!alerts.iter().any(|a| a.rule_id == "THREAT-ACCESS-002"));
    let either = event("e", "t", vec![("resource_owner_mismatch", 1)], vec![], None);
    let alerts = engine.detect(&either).unwrap_or_else(|_| panic!("detection failed"));
    assert!(alerts.iter().any(|a| a.rule_id == "THREAT-PRIV-002"));
    let ctx = &alerts[0].context;
    assert!(ctx.is_empty());
}

#[test]
fn anomaly_score_above_threshold_alerts_last() {
    let mut engine = ready_engine();
    let e = event("e", "t", vec![], vec![("k", "v")], Some(850));
    let alerts = engine.detect(&e).unwrap_or_else(|_| panic!("detection failed"));
    let last = alerts.last().unwrap();
    assert_eq!(last.rule_id, "ANOMALY-001");
    assert_eq!(last.title, "Anomaly Detected");
    assert_eq!(last.details, "Anomaly score: 0.85");
    assert_eq!(last.context, vec![("k".to_string(), "v".to_string())]);
    let at = event("e", "t", vec![], vec![], Some(800));
    let alerts = engine.detect(&at).unwrap_or_else(|_| panic!("detection failed"));
    assert!(!alerts.iter().any(|a| a.rule_id == "ANOMALY-001"));
}

#[test]
fn scores_print_like_floats() {
    assert_eq!(per_mille_string(850), "0.85");
    assert_eq!(per_mille_string(900), "0.9");
    assert_eq!(per_mille_string(1000), "1");
    assert_eq!(per_mille_string(1234), "1.234");
    assert_eq!(per_mille_string(2050), "2.05");
    assert_eq!(per_mille_string(7), "0.007");
}

#[test]
fn wildcard_patterns() {
    assert!(matches_pattern("authorization_denied_role_admin", "authorization_denied.*role.*admin"));
    assert!(matches_pattern("xx config_change yy", "config_change"));
    assert!(!matches_pattern("admin role authorization_denied", "authorization_denied.*role.*admin"));
    assert!(matches_pattern("anything", ""));
    assert!(matches_pattern("ab", "a.*b"));
    assert!(!matches_pattern("a", "a.*a"));
}

#[test]
fn custom_rule_engine_threshold_ops() {
    let mut eng = RuleEngine::new();
    eng.add_rule(DetectionRule {
        id: "R1".to_string(),
        name: "low".to_string(),
        category: ThreatCategory::ServiceAnomaly,
        severity: Severity::Low,
        condition: RuleCondition::Threshold { metric: "m".to_string(), op: CompareOp::LessThanOrEqual, value: 5 },
        window_secs: 1,
        threshold: 1,
        actions: vec![],
    });
    eng.add_rule(DetectionRule {
        id: "R2".to_string(),
        name: "none".to_string(),
        category: ThreatCategory::DataLeak,
        severity: Severity::Medium,
        condition: RuleCondition::Composite { rules: vec![], logic: LogicOp::Or },
        window_secs: 1,
        threshold: 1,
        actions: vec![],
    });
    let hit = eng.evaluate(&event("e", "t", vec![("m", 5)], vec![], None)).unwrap_or_else(|_| panic!("evaluation failed"));
    assert_eq!(hit.len(), 1);
    assert_eq!(hit[0].rule_id, "R1");
    let miss = eng.evaluate(&event("e", "t", vec![("m", 6)], vec![], None)).unwrap_or_else(|_| panic!("evaluation failed"));
    assert!(miss.is_empty());
}

#[test]
fn accuracy_and_error_messages() {
    let mut s = DetectionStats::default();
    assert_eq!(s.accuracy_hundredths_percent(), 0);
    s.true_positives = 2;
    s.false_positives = 1;
    assert_eq!(s.accuracy_hundredths_percent(), 6666);
    assert_eq!(ThreatDetectionError::ParseError("x".to_string()).message(), "数据解析失败：x");
    assert_eq!(ThreatDetectionError::RuleMatchFailed("r".to_string()).message(), "规则匹配失败：r");
}
