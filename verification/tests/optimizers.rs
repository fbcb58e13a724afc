use rust_workflow_engine::optimization::p99_consolidation_optimization::{
    BranchPredictionOptimizer, HotspotAnalyzer, LockContentionOptimizer, MemoryAccessOptimizer,
    P99ConsolidationConfig, P99ConsolidationOptimizer,
};
use rust_workflow_engine::optimization::throughput_optimization::ZeroCopyBuffer;
use rust_workflow_engine::optimization::validation_cache::{ValidationCache, ValidationCacheConfig, ValidationCacheKey};
use rust_workflow_engine::security::rbac::{
    AbacPolicy, AbacRule, AttrValue, AttributeCondition, AuthorizationRequest, Effect, Operator, PermissionConfig,
    RbacAbacAuthorizer,
};

#[test]
fn test_zero_copy_buffer() {
    let mut buffer = ZeroCopyBuffer::new(1024);

    let data = b"Hello, World!";
    let written = buffer.write(data);
    assert_eq!(written, data.len());

    let mut dest = vec![0u8; data.len()];
    let read = buffer.read(&mut dest);
    assert_eq!(read, data.len());
    assert_eq!(&dest, data);
}

#[test]
fn zero_copy_buffer_keeps_order_across_reads() {
    let mut buffer = ZeroCopyBuffer::new(4);
    assert_eq!(buffer.write(b"abcdef"), 4);
    let mut two = [0u8; 2];
    assert_eq!(buffer.read(&mut two), 2);
    assert_eq!(&two, b"ab");
    assert_eq!(buffer.available_space(), 0);
    let mut rest = [0u8; 5];
    assert_eq!(buffer.read(&mut rest), 2);
    assert_eq!(&rest[..2], b"cd");
}

#[test]
fn test_validation_cache_creation() {
    let cache = ValidationCache::new(ValidationCacheConfig::default());
    assert_eq!(cache.hits, 0);
    assert_eq!(cache.misses, 0);
    assert_eq!(cache.get_hit_rate_percent(), 0);
}

#[test]
fn test_validation_cache_set_get() {
    let mut cache = ValidationCache::new(ValidationCacheConfig { capacity: 100, ttl_secs: 300, cleanup_interval_secs: 60 });

    let key = ValidationCacheKey { request_hash: "hash_1".to_string(), verifier_version: "v1".to_string() };

    assert_eq!(cache.get(&key), None);

    cache.set(&key, true);

    assert_eq!(cache.get(&key), Some(true));
    assert_eq!(cache.get_hit_rate_percent(), 50);
}

#[test]
fn test_memory_optimizer() {
    let mut optimizer = MemoryAccessOptimizer::new(8, 64);

    let data: Vec<u8> = optimizer.aligned_allocate(100);
    assert!(data.len() >= 100);
    assert!(data.len() % 64 == 0);

    optimizer.prefetch(&data, 0);

    optimizer.record_access();
    optimizer.record_access();
    optimizer.record_cache_miss();

    assert_eq!(optimizer.get_cache_miss_rate_per_mille(), 500);
}

#[test]
fn test_lock_optimizer() {
    let mut optimizer = LockContentionOptimizer::new(10);

    let result = optimizer.try_acquire_lock(|| Some(42));

    assert_eq!(result, Some(42));

    let stats = optimizer.get_contention_stats();
    assert_eq!(stats.success_count, 1);
}

#[test]
fn test_branch_optimizer() {
    let mut optimizer = BranchPredictionOptimizer::new(100);

    optimizer.record_branch(true, true);
    optimizer.record_branch(true, false);
    optimizer.record_branch(false, false);

    let stats = optimizer.get_branch_stats();
    assert_eq!(stats.total_branches, 3);
    assert_eq!(stats.mispredict_count, 1);
    assert_eq!(optimizer.get_mispredict_rate_per_mille(), 333);
}

#[test]
fn hotspot_report_ranks_by_total_time() {
    let paths = vec!["path1".to_string(), "path2".to_string(), "path3".to_string()];

    let mut analyzer = HotspotAnalyzer::new(paths, 1);

    analyzer.record_path(0, 1000);
    analyzer.record_path(0, 1200);
    analyzer.record_path(1, 500);
    analyzer.record_path(2, 2000);

    let report = analyzer.get_hotspot_report();
    assert_eq!(report.len(), 3);

    assert_eq!(report[0].name, "path1");
    assert_eq!(report[0].total_duration_us, 2200);
    assert_eq!(report[1].name, "path3");
    assert_eq!(report[2].name, "path2");
}

#[test]
fn hotspot_sampling_and_ties() {
    let mut a = HotspotAnalyzer::new(vec!["a".to_string(), "b".to_string(), "c".to_string()], 2);
    a.record_path(0, 10); // counted (sample 0)
    a.record_path(0, 10); // skipped (sample 1)
    a.record_path(2, 10); // counted (sample 2)
    a.record_path(1, 99); // skipped (sample 3)
    a.record_path(7, 99); // sample 4: no such path
    let r = a.get_hotspot_report();
    assert_eq!(r.len(), 2);
    assert_eq!((r[0].path_id, r[0].call_count), (0, 1));
    assert_eq!((r[1].path_id, r[1].call_count), (2, 1));
    assert_eq!(a.get_top_hotspots(1).len(), 1);
}

#[test]
fn test_p99_consolidation_optimizer() {
    let config = P99ConsolidationConfig::default();
    let mut optimizer = P99ConsolidationOptimizer::new(config);

    optimizer.record_before_p99(165);
    optimizer.record_after_p99(160);

    let effect = optimizer.get_optimization_effect();
    assert_eq!(effect.before_p99_ms, 165);
    assert_eq!(effect.after_p99_ms, 160);
    assert_eq!(effect.improvement_ms, 5);
    assert_eq!(effect.improvement_hundredths_percent, 303);

    assert!(optimizer.get_hotspot_report().unwrap().is_empty());
    assert!(optimizer.get_branch_stats().is_none());
    assert_eq!(optimizer.get_memory_stats().unwrap().alignment, 64);
}

fn request(user: &str, env: Vec<(String, AttrValue)>) -> AuthorizationRequest {
    AuthorizationRequest {
        user_id: user.to_string(),
        user_attributes: Vec::new(),
        resource_id: "batch".to_string(),
        resource_attributes: Vec::new(),
        action: "execute".to_string(),
        environment_attributes: env,
    }
}

#[test]
fn test_rbac_authorization() {
    let config = PermissionConfig::new();
    let mut authorizer = RbacAbacAuthorizer::new(config);

    authorizer.add_user_role("user_1", "admin");

    let response = authorizer.authorize(&request("user_1", Vec::new()));

    assert!(response.permitted);
    assert_eq!(response.effect, Effect::Permit);
}

#[test]
fn test_rbac_deny() {
    let config = PermissionConfig::new();
    let mut authorizer = RbacAbacAuthorizer::new(config);

    authorizer.add_user_role("user_1", "tester");

    let response = authorizer.authorize(&request("user_1", Vec::new()));

    assert!(!response.permitted);
    assert_eq!(response.effect, Effect::Deny);
}

#[test]
fn test_abac_policy() {
    let mut config = PermissionConfig::new();

    let policy = AbacPolicy {
        id: "work_hours_only".to_string(),
        name: "Work Hours Only".to_string(),
        description: "Only allow access during work hours".to_string(),
        rule: AbacRule {
            subject_conditions: vec![],
            resource_conditions: vec![],
            action_conditions: vec![],
            environment_conditions: vec![
                AttributeCondition { attribute: "hour".to_string(), operator: Operator::Ge, value: AttrValue::Int(9) },
                AttributeCondition { attribute: "hour".to_string(), operator: Operator::Le, value: AttrValue::Int(18) },
            ],
            effect: Effect::Permit,
        },
        priority: 1,
        enabled: true,
    };

    config.abac_policies.push(policy);

    let mut authorizer = RbacAbacAuthorizer::new(config);
    authorizer.add_user_role("user_1", "user");

    let response = authorizer.authorize(&request("user_1", vec![("hour".to_string(), AttrValue::Int(10))]));
    assert!(response.permitted);

    let response = authorizer.authorize(&request("user_1", vec![("hour".to_string(), AttrValue::Int(20))]));
    assert!(response.permitted);
}

#[test]
fn validation_cache_stays_within_capacity_and_evicts_least_used() {
    let mut cache = ValidationCache::new(ValidationCacheConfig { capacity: 2, ttl_secs: 300, cleanup_interval_secs: 60 });
    let k = |h: &str| ValidationCacheKey { request_hash: h.to_string(), verifier_version: "v1".to_string() };
    cache.set_at(1_000, &k("a"), true);
    cache.set_at(1_000, &k("b"), false);
    assert_eq!(cache.get_at(1_000, &k("a")), Some(true));
    cache.set_at(1_000, &k("c"), true);
    assert_eq!(cache.cache.len(), 2);
    assert_eq!(cache.get_at(1_000, &k("b")), None);
    assert_eq!(cache.get_at(1_000, &k("a")), Some(true));
    assert_eq!(cache.get_at(1_000, &k("c")), Some(true));
}

#[test]
fn validation_cache_hit_follows_freshness_even_when_cleanup_is_due() {
    let mut cache = ValidationCache::new(ValidationCacheConfig { capacity: 10, ttl_secs: 300, cleanup_interval_secs: 60 });
    let key = ValidationCacheKey { request_hash: "h".to_string(), verifier_version: "v".to_string() };
    cache.last_cleanup_ms = 0;
    cache.set_at(0, &key, false);
    assert_eq!(cache.get_at(100_000, &key), Some(false));
    assert_eq!(cache.get_at(400_000, &key), None);
}

#[test]
fn aligned_allocation_is_default_filled() {
    let optimizer = MemoryAccessOptimizer::new(8, 64);
    let data: Vec<u32> = optimizer.aligned_allocate(100);
    assert_eq!(data.len(), 128);
    assert!(data.iter().all(|x| *x == 0));
}

#[test]
fn removing_a_role_takes_it_away() {
    let mut authorizer = RbacAbacAuthorizer::new(PermissionConfig::new());
    authorizer.add_user_role("user_1", "admin");
    assert!(authorizer.authorize(&request("user_1", Vec::new())).permitted);
    authorizer.remove_user_role("user_1", "admin");
    assert!(!authorizer.authorize(&request("user_1", Vec::new())).permitted);
    authorizer.remove_user_role("nobody", "admin");
    assert_eq!(authorizer.config.user_roles.len(), 1);
}

#[test]
fn lock_attempts_are_counted() {
    let mut optimizer = LockContentionOptimizer::new(10);
    assert_eq!(optimizer.try_acquire_lock(|| Some(42)), Some(42));
    assert_eq!(optimizer.lock_attempt_count, 1);
    assert_eq!(optimizer.try_acquire_lock(|| None::<i32>), None);
    assert_eq!(optimizer.lock_attempt_count, 11);
    assert_eq!(optimizer.lock_wait_count, 1);
}

#[test]
fn full_cache_evicts_only_the_least_used_entry() {
    let mut cache = ValidationCache::new(ValidationCacheConfig { capacity: 3, ttl_secs: 300, cleanup_interval_secs: 60 });
    let k = |h: &str| ValidationCacheKey { request_hash: h.to_string(), verifier_version: "v".to_string() };
    cache.last_cleanup_ms = 1_000;
    cache.set_at(1_000, &k("a"), true);
    cache.set_at(1_000, &k("b"), true);
    cache.set_at(1_000, &k("c"), true);
    assert_eq!(cache.get_at(1_000, &k("a")), Some(true));
    assert_eq!(cache.get_at(1_000, &k("c")), Some(true));
    cache.set_at(1_000, &k("d"), false);
    assert_eq!(cache.cache.len(), 3);
    assert_eq!(cache.get_at(1_000, &k("b")), None);
    assert_eq!(cache.get_at(1_000, &k("a")), Some(true));
    assert_eq!(cache.get_at(1_000, &k("c")), Some(true));
    assert_eq!(cache.get_at(1_000, &k("d")), Some(false));
}
