use rust_workflow_engine::json::Json;
use rust_workflow_engine::security::audit_log::{
    ActionType, AuditLogConfig, AuditLogError, AuditLogQuery, AuditLogger, EventType, ResourceType, SecuritySeverity,
    SubjectType,
};

fn id_number(event_id: &str) -> u64 {
    assert!(event_id.starts_with("audit_"));
    event_id.rsplit('_').next().unwrap().parse().unwrap()
}

#[test]
fn test_audit_logger_creation() {
    let logger = AuditLogger::new(AuditLogConfig::default());
    assert_eq!(logger.entry_count, 0);
    let stats = logger.get_stats();
    assert_eq!(stats.total_entries, 0);
    assert_eq!(stats.log_path, "/var/log/cgas/audit");
    assert_eq!(stats.retention_days, 90);
}

#[test]
fn test_log_authentication() {
    let mut logger = AuditLogger::new(AuditLogConfig::default());
    let ok = logger.log_authentication("user_1", true, "password", None);
    let bad = logger.log_authentication("user_2", false, "password", Some("Invalid password".to_string()));
    let stats = logger.get_stats();
    assert!(stats.total_entries >= 2);
    assert_eq!(stats.total_entries, 4);
    assert_eq!(ok.event_type, EventType::Authentication);
    assert_eq!(ok.result.status_code, 200);
    assert_eq!(bad.result.status_code, 401);
    assert_eq!(bad.result.error_message.as_deref(), Some("Invalid password"));
    assert_eq!(ok.action.description, "User authentication using password");
    assert_eq!(id_number(&ok.event_id), 1);
    assert_eq!(id_number(&bad.event_id), 3);
    assert!(matches!(&ok.metadata[0].1, Json::Str(m) if m == "password"));
}

#[test]
fn test_log_authorization() {
    let mut logger = AuditLogger::new(AuditLogConfig::default());
    let allowed = logger.log_authorization("user_1", &vec!["admin".to_string()], "batch", "execute", true, None);
    let denied = logger.log_authorization(
        "user_2",
        &vec!["user".to_string()],
        "admin",
        "manage",
        false,
        Some("Insufficient permissions".to_string()),
    );
    let stats = logger.get_stats();
    assert!(stats.total_entries >= 2);
    assert_eq!(allowed.action.id, "authz:execute");
    assert_eq!(allowed.action.description, "Authorization check for execute on batch");
    assert_eq!(allowed.subject.roles, vec!["admin".to_string()]);
    assert_eq!(denied.result.status_code, 403);
    assert_eq!(denied.resource.resource_type, ResourceType::Other);
}

#[test]
fn test_log_security_event() {
    let mut logger = AuditLogger::new(AuditLogConfig::default());
    let metadata = vec![("source".to_string(), Json::Str("firewall".to_string()))];
    let e = logger.log_security_event(
        "intrusion_detected",
        SecuritySeverity::High,
        "Potential intrusion detected from IP 192.168.1.100",
        Some("unknown"),
        metadata,
    );
    let stats = logger.get_stats();
    assert!(stats.total_entries >= 1);
    assert_eq!(e.subject.id, "unknown");
    assert_eq!(e.subject.subject_type, SubjectType::User);
    assert_eq!(e.action.id, "security:intrusion_detected");
    assert!(matches!(&e.metadata[0].1, Json::Str(m) if m == "High"));
    let sys = logger.log_security_event("scan", SecuritySeverity::Low, "d", None, vec![]);
    assert_eq!(sys.subject.id, "system");
    assert_eq!(sys.subject.subject_type, SubjectType::System);
}

#[test]
fn data_access_names_kinds() {
    let mut logger = AuditLogger::new(AuditLogConfig::default());
    let e = logger.log_data_access("u", ResourceType::Batch, "b1", ActionType::Read, false);
    assert_eq!(e.action.id, "data:Read");
    assert_eq!(e.action.description, "Data Read on Batch");
    assert_eq!(e.result.status_code, 500);
    assert!(logger.query_logs(&AuditLogQuery {
        start_time: None,
        end_time: None,
        event_type: Some(EventType::DataAccess),
        subject_id: None,
        resource_id: None,
        action_type: None,
        success: None,
        page_size: None,
        page_number: None,
    })
    .map(|v| v.is_empty())
    .unwrap_or(false));
    assert_eq!(AuditLogError::QueryError("q".to_string()).message(), "查询错误：q");
}
