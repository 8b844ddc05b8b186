use keycloak_oauth::app_config::AppConfigBuilder;
use keycloak_oauth::app_config2;
use keycloak_oauth::config::{scopes_from_string, ClientConfiguration};
use keycloak_oauth::credentials::{
    DeviceCodeCredential, EnvironmentCredential, ResourceOwnerPasswordCredential,
};
use keycloak_oauth::grant::{password_grant_request, GrantFailure};
use keycloak_oauth::strutil::str_eq;

#[test]
fn scopes_split_on_commas() {
    assert_eq!(scopes_from_string("openid,profile,email"), vec![
        "openid".to_string(),
        "profile".to_string(),
        "email".to_string(),
    ]);
    assert_eq!(scopes_from_string(""), vec!["".to_string()]);
    assert_eq!(scopes_from_string("a,,b"), vec!["a".to_string(), "".to_string(), "b".to_string()]);
    assert_eq!(scopes_from_string("solo"), vec!["solo".to_string()]);
    assert_eq!(scopes_from_string("trail,"), vec!["trail".to_string(), "".to_string()]);
}

#[test]
fn environment_credential_needs_all_three() {
    let c = EnvironmentCredential::resource_owner_password_credential(
        Some("client".to_string()),
        Some("user".to_string()),
        Some("pw".to_string()),
    )
    .expect("all present");
    assert_eq!(c.client_id, "client");
    assert_eq!(c.username, "user");
    assert_eq!(c.password, "pw");
    assert!(EnvironmentCredential::resource_owner_password_credential(
        Some("client".to_string()),
        None,
        Some("pw".to_string()),
    )
    .is_none());
}

#[test]
fn password_grant_checks_credentials_eagerly() {
    let r = password_grant_request(Some("u".to_string()), Some("p".to_string()));
    let (u, p) = r.expect("both present");
    assert_eq!(u, "u");
    assert_eq!(p, "p");
    let r = password_grant_request(None, Some("p".to_string()));
    assert!(matches!(r, Err(GrantFailure::MissingCredentials)));
    let r = password_grant_request(Some("u".to_string()), None);
    assert!(matches!(r, Err(GrantFailure::MissingCredentials)));
}

#[test]
fn owner_builder_collects_everything() {
    let cred = ResourceOwnerPasswordCredential::new(
        "user".to_string(),
        "pw".to_string(),
        "client".to_string(),
    );
    let config = AppConfigBuilder::new("client".to_string())
        .auth_url("https://idp.example/auth".to_string())
        .with_owner_credentials(cred)
        .build()
        .expect("complete");
    assert_eq!(config.client_id, "client");
    assert_eq!(config.auth_url, "https://idp.example/auth");
    assert!(config.token_url.is_none());
    assert_eq!(config.credential.username, "user");
}

#[test]
fn owner_builder_without_auth_url_fails() {
    let cred = ResourceOwnerPasswordCredential::new(
        "user".to_string(),
        "pw".to_string(),
        "client".to_string(),
    );
    let r = AppConfigBuilder::new("client".to_string()).with_owner_credentials(cred).build();
    assert_eq!(r.err(), Some("auth_url is not set"));
}

#[test]
fn device_builder_needs_a_token_url() {
    let cred = DeviceCodeCredential {
        client_id: "client".to_string(),
        device_code: "dev".to_string(),
        token_url: "https://idp.example/token".to_string(),
    };
    let r = AppConfigBuilder::new("client".to_string())
        .auth_url("https://idp.example/auth".to_string())
        .with_device_code_credentials(cred)
        .build();
    assert_eq!(r.err(), Some("token_url is not set"));
    let cred = DeviceCodeCredential {
        client_id: "client".to_string(),
        device_code: "dev".to_string(),
        token_url: "https://idp.example/token".to_string(),
    };
    let config = AppConfigBuilder::new("client".to_string())
        .auth_url("https://idp.example/auth".to_string())
        .with_device_code_credentials(cred)
        .token_url("https://idp.example/token".to_string())
        .build()
        .expect("complete");
    assert_eq!(config.token_url, Some("https://idp.example/token".to_string()));
}

#[test]
fn typed_builder_carries_endpoints_in_its_state() {
    let cred = ResourceOwnerPasswordCredential::new(
        "user".to_string(),
        "pw".to_string(),
        "client".to_string(),
    );
    let config = app_config2::AppConfigBuilder::<
        app_config2::NoAuthUrl,
        app_config2::NoTokenUrl,
        app_config2::Owner,
    >::new("client".to_string())
        .token_url("https://idp.example/token".to_string())
        .auth_url("https://idp.example/auth".to_string())
        .with_owner_credentials(cred)
        .build();
    assert_eq!(config.client_id, "client");
    assert_eq!(config.auth_url.expect("set").0, "https://idp.example/auth");
    assert_eq!(config.token_url.expect("set").0, "https://idp.example/token");
}

#[test]
fn client_configuration_holds_plain_values() {
    let config = ClientConfiguration {
        client_id: Some("client".to_string()),
        client_secret: None,
        auth_url: Some("https://idp.example/auth".to_string()),
        token_url: Some("https://idp.example/token".to_string()),
        device_authorization_url: None,
        token_cache_path: Some("/tmp/tokens.json".to_string()),
        jwks_url: Some("https://idp.example/certs".to_string()),
        realm: Some("https://idp.example/realm".to_string()),
        scopes: scopes_from_string("openid,profile"),
        username: None,
        password: None,
    };
    assert_eq!(config.scopes.len(), 2);
    assert!(config.username.is_none());
}

#[test]
fn string_equality_is_exact() {
    assert!(str_eq("abc", "abc"));
    assert!(!str_eq("abc", "abd"));
    assert!(!str_eq("abc", "ab"));
    assert!(str_eq("", ""));
}
