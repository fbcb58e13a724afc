use rust_workflow_engine::security::opa_policy_engine::{
    check_abac, check_rbac, create_cache_key, Action, CacheConfig, CacheEntry, Context, DeviceTrust, OpaError, OpaInput,
    OpaPolicyEngine, PolicyCache, Resource, UserAttributes, UserContext,
};
use std::collections::hash_map::DefaultHasher;
use std::hash::{Hash, Hasher};

fn create_test_input() -> OpaInput {
    OpaInput {
        user: UserContext {
            id: "user_123".to_string(),
            email: "user@example.com".to_string(),
            name: "Test User".to_string(),
            roles: vec!["developer".to_string()],
            permissions: vec!["batch:execute".to_string()],
            attributes: UserAttributes {
                department: Some("Engineering".to_string()),
                clearance: Some("internal".to_string()),
                manager: None,
                location: None,
                employee_type: None,
            },
        },
        action: Action {
            method: "POST".to_string(),
            path: "/api/v1/batch/execute".to_string(),
            operation: "batch:execute".to_string(),
        },
        resource: Resource {
            resource_type: "batch".to_string(),
            id: Some("batch_456".to_string()),
            owner: Some("user_123".to_string()),
            sensitivity: "internal".to_string(),
            environment: "prod".to_string(),
            labels: vec![("department".to_string(), "Engineering".to_string())],
        },
        context: Context {
            time: 1700000000,
            day_of_week: 2,
            is_business_hours: true,
            ip: "192.168.1.100".to_string(),
            location: None,
            device_trust: DeviceTrust { score: 85, device_id: Some("device_123".to_string()), verified: true },
            risk_score: 15,
        },
        requested_fields: None,
        row_filter_required: None,
    }
}

fn engine() -> OpaPolicyEngine {
    let mut e = OpaPolicyEngine::new("http://localhost:8181");
    assert!(e.initialize().is_ok());
    e
}

#[test]
fn test_opa_engine_creation() {
    let engine = OpaPolicyEngine::new("http://localhost:8181");
    assert_eq!(engine.bundle_service_url, "http://localhost:8181");
}

#[test]
fn test_opa_initialization() {
    let engine = engine();
    let version = engine.get_current_version();
    assert!(!version.is_empty());
    assert_eq!(version, "v1.0.0");
}

#[test]
fn test_opa_evaluation_allow() {
    let mut engine = engine();
    let decision = engine.evaluate(create_test_input()).unwrap_or_else(|_| panic!("evaluation failed"));
    assert!(decision.allow);
    assert!(decision.latency_us < 15000);
    assert_eq!(decision.reason, "rbac_allow");
}

#[test]
fn test_opa_admin_override() {
    let mut engine = engine();
    let mut input = create_test_input();
    input.user.roles = vec!["admin".to_string()];
    input.action.operation = "admin:delete".to_string();
    let decision = engine.evaluate(input).unwrap_or_else(|_| panic!("evaluation failed"));
    assert!(decision.allow);
    assert_eq!(decision.reason, "admin_override");
}

#[test]
fn test_opa_field_level_permission() {
    let mut engine = engine();
    let mut input = create_test_input();
    input.requested_fields = Some(vec!["id".to_string(), "status".to_string(), "security_context".to_string()]);
    let decision = engine.evaluate(input).unwrap_or_else(|_| panic!("evaluation failed"));
    assert!(!decision.fields.contains(&"security_context".to_string()));
    assert!(decision.fields.contains(&"id".to_string()));
    assert_eq!(decision.fields, vec!["id".to_string(), "status".to_string()]);
}

#[test]
fn test_opa_row_level_permission() {
    let mut engine = engine();
    let mut input = create_test_input();
    input.row_filter_required = Some(true);
    input.user.roles = vec!["developer".to_string()];
    let decision = engine.evaluate(input).unwrap_or_else(|_| panic!("evaluation failed"));
    assert_eq!(decision.filter, vec![("owner".to_string(), "user_123".to_string())]);
}

#[test]
fn test_opa_cache() {
    let mut engine = engine();
    let first = engine.evaluate(create_test_input()).unwrap_or_else(|_| panic!("evaluation failed"));
    assert_eq!(first.reason, "rbac_allow");
    let second = engine.evaluate(create_test_input()).unwrap_or_else(|_| panic!("evaluation failed"));
    assert_eq!(second.reason, "cache_hit");
    assert!(second.allow);
    let stats = engine.get_stats();
    assert_eq!(stats.hits, 1);
    assert_eq!(stats.misses, 1);
    assert_eq!(stats.total_requests, 2);
    assert_eq!(stats.hit_rate_hundredths_percent(), 5000);
}

#[test]
fn distinct_users_miss_the_cache() {
    let mut engine = engine();
    for i in 0..5 {
        let mut input = create_test_input();
        input.user.id = format!("user_{}", i);
        let _ = engine.evaluate(input);
    }
    let stats = engine.get_stats();
    assert_eq!(stats.total_requests, 5);
    assert_eq!(stats.misses, 5);
    assert_eq!(stats.hit_rate_hundredths_percent(), 0);
}

#[test]
fn attributes_and_roles_decide() {
    let mut engine = engine();
    // a viewer may not execute, but owns the resource: attributes allow it
    let mut input = create_test_input();
    input.user.roles = vec!["viewer".to_string()];
    assert!(!check_rbac(&input));
    assert!(check_abac(&input));
    let d = engine.evaluate(input).unwrap_or_else(|_| panic!("evaluation failed"));
    assert!(d.allow);
    assert_eq!(d.reason, "abac_allow");
    // a stranger with no clearance or department is denied
    let mut input = create_test_input();
    input.user.roles = vec!["viewer".to_string()];
    input.user.id = "other".to_string();
    input.user.attributes = UserAttributes::default();
    let d = engine.evaluate(input).unwrap_or_else(|_| panic!("evaluation failed"));
    assert!(!d.allow);
    assert_eq!(d.reason, "denied");
    // the wildcard "verification:*" grants any verification operation
    let mut input = create_test_input();
    input.user.id = "dev_2".to_string();
    input.user.attributes = UserAttributes::default();
    input.resource.owner = None;
    input.action.operation = "verification:replay".to_string();
    assert!(check_rbac(&input));
    input.action.operation = "transaction:write".to_string();
    assert!(!check_rbac(&input));
}

#[test]
fn missing_fields_are_refused() {
    let mut engine = engine();
    let mut input = create_test_input();
    input.action.operation = String::new();
    match engine.evaluate(input) {
        Err(e) => {
            assert!(matches!(e, OpaError::InputValidationFailed(_)));
            assert_eq!(e.message(), "输入验证失败：Missing action.operation");
        },
        Ok(_) => panic!("an empty operation must be refused"),
    }
}

#[test]
fn cache_key_hashes_context_like_std() {
    let input = create_test_input();
    let key = create_cache_key(&input);
    let mut h = DefaultHasher::new();
    input.context.time.hash(&mut h);
    input.context.is_business_hours.hash(&mut h);
    input.context.risk_score.hash(&mut h);
    assert_eq!(key.context_hash, h.finish());
    assert_eq!(key.user_id, "user_123");
    assert_eq!(key.resource_id.as_deref(), Some("batch_456"));
}

#[test]
fn full_cache_drops_its_oldest_entry() {
    let mut cache = PolicyCache::new(CacheConfig { max_size: 2, ttl_secs: 300 });
    let entry = |d: bool| CacheEntry { decision: d, fields: vec![], filter: vec![], expires_at: 10, created_at_ms: 0 };
    let mut a = create_test_input();
    a.user.id = "a".to_string();
    let mut b = create_test_input();
    b.user.id = "b".to_string();
    let mut c = create_test_input();
    c.user.id = "c".to_string();
    cache.set(&a, entry(true));
    cache.set(&b, entry(false));
    cache.set(&c, entry(true));
    assert_eq!(cache.entries.len(), 2);
    assert_eq!(cache.entries[0].0.user_id, "b");
    assert_eq!(cache.stats.evictions, 1);
    assert!(cache.get_at(&a, 5).is_none());
    assert_eq!(cache.get_at(&b, 10).map(|e| e.decision), Some(false));
    // past its expiry the entry is dropped
    assert!(cache.get_at(&b, 11).is_none());
    assert_eq!(cache.entries.len(), 1);
    assert_eq!(cache.stats.evictions, 2);
    assert_eq!(cache.stats.total_requests, 1 + 1 + 1 + 2);
}
