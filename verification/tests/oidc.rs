use rust_workflow_engine::security::oidc::{OidcAuthRequest, OidcAuthenticator, OidcConfig};

#[test]
fn test_oidc_authenticator_creation() {
    let config = OidcConfig::default();
    let authenticator = OidcAuthenticator::new(config);

    let stats = authenticator.get_stats();
    assert!(!stats.jwks_cached);
    assert_eq!(stats.tokens_cached, 0);
}

#[test]
fn test_oidc_authorization_url() {
    let config = OidcConfig {
        issuer_url: "https://auth.example.com".to_string(),
        auth_endpoint: "https://auth.example.com/oauth2/authorize".to_string(),
        client_id: "test_client".to_string(),
        redirect_uri: "https://app.example.com/callback".to_string(),
        scopes: vec!["openid".to_string(), "profile".to_string()],
        ..Default::default()
    };

    let authenticator = OidcAuthenticator::new(config);
    let url = authenticator.get_authorization_url("test_state");

    assert!(url.contains("response_type=code"));
    assert!(url.contains("client_id=test_client"));
    assert!(url.contains("state=test_state"));
    assert!(url.contains("scope="));
}

#[test]
fn authorization_url_is_percent_encoded() {
    let config = OidcConfig {
        auth_endpoint: "https://a/authorize".to_string(),
        client_id: "c".to_string(),
        redirect_uri: "https://app/cb?x=1".to_string(),
        scopes: vec!["openid".to_string(), "profile".to_string()],
        ..Default::default()
    };
    let a = OidcAuthenticator::new(config);
    assert_eq!(
        a.get_authorization_url("s t~é"),
        "https://a/authorize?response_type=code&client_id=c&redirect_uri=https%3A%2F%2Fapp%2Fcb%3Fx%3D1&state=s%20t~%C3%A9&scope=openid%20profile"
    );
    let none = OidcAuthenticator::new(OidcConfig { scopes: Vec::new(), ..Default::default() });
    assert_eq!(none.get_authorization_url("z"), "?response_type=code&client_id=&redirect_uri=&state=z");
}

#[test]
fn test_oidc_mock_authentication() {
    let config = OidcConfig::default();
    let authenticator = OidcAuthenticator::new(config);

    let request = OidcAuthRequest {
        code: "test_code".to_string(),
        state: "test_state".to_string(),
        redirect_uri: "https://example.com/callback".to_string(),
    };

    let response = authenticator.authenticate(&request).unwrap();

    assert_eq!(response.user_info.sub, "user_123");
    assert_eq!(response.user_info.email, Some("test@example.com".to_string()));
}

#[test]
fn oidc_initialize_and_refresh() {
    let mut a = OidcAuthenticator::new(OidcConfig::default());
    assert!(a.initialize().is_ok());
    assert!(a.get_stats().jwks_cached);
    assert_eq!(a.validate_access_token("anything").unwrap(), true);
    let t = a.refresh_token("r").unwrap();
    assert_eq!(t.access_token, "new_mock_access_token");
    assert_eq!(t.refresh_token, Some("new_mock_refresh_token".to_string()));
}
