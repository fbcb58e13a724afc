use rust_workflow_engine::security::oidc_provider_impl::{
    extract_jti, sort_by_priority, HealthCheckConfig, OidcMultiProviderManager, OidcProviderError, ProviderConfig,
    ProviderHealth, ValidationSource,
};

fn provider(id: &str, name: &str, priority: u8, weight: u8) -> ProviderConfig {
    ProviderConfig {
        id: id.to_string(),
        name: name.to_string(),
        issuer: format!("https://{}/", id),
        client_id: "test_client".to_string(),
        client_secret: "test_secret".to_string(),
        jwks_uri: format!("https://{}/.well-known/jwks.json", id),
        priority,
        weight,
        health_check: HealthCheckConfig::default(),
    }
}

fn create_test_providers() -> Vec<ProviderConfig> {
    vec![
        provider("provider_auth0", "Auth0 Primary", 1, 100),
        provider("provider_okta", "Okta Secondary", 2, 50),
        provider("provider_keycloak", "Keycloak Backup", 3, 10),
    ]
}

fn ready() -> OidcMultiProviderManager {
    let mut m = OidcMultiProviderManager::new(create_test_providers());
    assert!(m.initialize().is_ok());
    m
}

#[test]
fn test_multi_provider_creation() {
    let manager = OidcMultiProviderManager::new(create_test_providers());
    assert_eq!(manager.get_providers().len(), 3);
    assert_eq!(manager.get_current_index(), 0);
}

#[test]
fn test_provider_initialization() {
    let manager = ready();
    for p in manager.get_providers() {
        let h = manager.health_status.iter().find(|(id, _)| id == &p.id).map(|(_, h)| matches!(h, ProviderHealth::Healthy));
        assert_eq!(h, Some(true));
    }
    assert_eq!(manager.jwks_cache.len(), 3);
}

#[test]
fn test_token_validation() {
    let mut manager = ready();
    let result = manager.validate_token("test_token").unwrap_or_else(|_| panic!("validation failed"));
    assert!(result.is_valid);
    assert!(result.claims.is_some());
    assert!(result.latency_us < 20000);
    assert_eq!(result.claims.unwrap().sub, "user_123");
}

#[test]
fn test_token_cache_hit() {
    let mut manager = ready();
    let first = manager.validate_token("test_token").unwrap_or_else(|_| panic!("validation failed"));
    assert_eq!(first.source, ValidationSource::Provider);
    let second = manager.validate_token("test_token").unwrap_or_else(|_| panic!("validation failed"));
    assert_eq!(second.source, ValidationSource::L1Cache);
}

#[test]
fn test_failover() {
    let mut manager = ready();
    manager.update_provider_health("provider_auth0", ProviderHealth::Unhealthy { reason: "Test failure".to_string(), since_secs: 0 });
    let result = manager.validate_token("test_token").unwrap_or_else(|_| panic!("validation failed"));
    assert!(result.is_valid);
    assert_eq!(manager.get_current_index(), 1);
    assert_eq!(manager.token_cache[0].provider_id, "provider_okta");
}

#[test]
fn oidc_provider_impl_test_cache_stats() {
    let mut manager = ready();
    for _ in 0..5 {
        let _ = manager.validate_token("test_token");
    }
    let stats = manager.get_stats();
    assert!(stats.total_requests >= 5);
    assert!(stats.hit_rate_hundredths_percent() > 0);
    assert_eq!(stats.l1_hits, 4);
    assert_eq!(stats.misses, 1);
    assert_eq!(stats.hit_rate_hundredths_percent(), 8000);
}

#[test]
fn providers_sort_stably_by_priority() {
    let sorted = sort_by_priority(&vec![
        provider("c", "C", 3, 0),
        provider("a1", "A1", 1, 0),
        provider("b", "B", 2, 0),
        provider("a2", "A2", 1, 0),
    ]);
    let ids: Vec<&str> = sorted.iter().map(|p| p.id.as_str()).collect();
    assert_eq!(ids, vec!["a1", "a2", "b", "c"]);
}

#[test]
fn no_healthy_provider_and_empty_tokens() {
    let mut m = OidcMultiProviderManager::new(create_test_providers());
    match m.validate_token("tok") {
        Err(OidcProviderError::NoHealthyProvider) => {},
        _ => panic!("no provider is marked healthy yet"),
    }
    match m.validate_token("") {
        Err(e) => assert_eq!(e.message(), "Token 无效：Empty token"),
        Ok(_) => panic!("an empty token is invalid"),
    }
    assert_eq!(extract_jti("héllo").unwrap(), "jti_6");
}

#[test]
fn expired_tokens_are_revalidated() {
    let mut m = ready();
    assert!(m.validate_token_at("abc", 1000).is_ok());
    assert_eq!(m.token_cache[0].expires_at, 4600);
    let hit = m.validate_token_at("xyz", 4600).unwrap_or_else(|_| panic!("validation failed"));
    assert_eq!(hit.source, ValidationSource::L1Cache);
    let again = m.validate_token_at("xyz", 4601).unwrap_or_else(|_| panic!("validation failed"));
    assert_eq!(again.source, ValidationSource::Provider);
    let s = m.get_stats();
    assert_eq!(s.l1_hits, 2);
    assert_eq!(s.misses, 2);
    assert_eq!(s.total_requests, 4);
    assert_eq!(m.token_cache.len(), 1);
    assert_eq!(m.token_cache[0].expires_at, 8201);
}

#[test]
fn refresh_issues_and_caches_a_token() {
    let mut m = ready();
    let e = m.refresh_token_at("r", 77).unwrap_or_else(|_| panic!("refresh failed"));
    assert_eq!(e.jti, "jti_provider_auth0_77");
    assert_eq!(e.refresh_token.as_deref(), Some("refresh_77"));
    assert_eq!(e.expires_at, 3677);
    assert_eq!(m.refresh_expiring_at(3618), vec!["jti_provider_auth0_77".to_string()]);
    assert!(m.refresh_expiring_at(3617).is_empty());
    let keys = m.get_jwks("provider_okta", 10).unwrap_or_else(|_| panic!("keys"));
    assert_eq!(keys[0].kid, "key-provider_okta");
    match m.get_jwks("nope", 10) {
        Err(e) => assert_eq!(e.message(), "配置错误：Provider not found: nope"),
        Ok(_) => panic!("unknown provider"),
    }
}
