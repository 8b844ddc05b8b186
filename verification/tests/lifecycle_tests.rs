use keycloak_oauth::lifecycle::{
    ensure_valid_access_token, lifecycle_after_refresh, lifecycle_decide, LifecycleError,
    LifecycleStep, LoadOutcome,
};
use keycloak_oauth::token_cache::{CachedToken, TokenResult};

fn cached(access: &str, expires_at: u64, refresh: Option<&str>) -> CachedToken {
    CachedToken {
        access_token: access.to_string(),
        expires_at,
        refresh_token: refresh.map(|r| r.to_string()),
    }
}

#[test]
fn fresh_cache_needs_no_network() {
    let run = ensure_valid_access_token(
        LoadOutcome::Loaded(cached("cached-token", 2_000, Some("rt"))),
        None,
        1_000,
    );
    assert_eq!(run.result, Ok("cached-token".to_string()));
    assert_eq!(run.refresh_calls, 0);
    assert!(run.saved.is_none());
}

#[test]
fn expired_cache_refreshes_exactly_once() {
    let new_token = TokenResult {
        access_token: "new-token".to_string(),
        refresh_token: Some("new-rt".to_string()),
        expires_in: Some(60),
    };
    let run = ensure_valid_access_token(
        LoadOutcome::Loaded(cached("old-token", 500, Some("rt"))),
        Some(new_token),
        1_000,
    );
    assert_eq!(run.refresh_calls, 1);
    assert_eq!(run.result, Ok("new-token".to_string()));
    let saved = run.saved.expect("the refreshed token is persisted");
    assert_eq!(saved.access_token, "new-token");
    assert_eq!(saved.refresh_token, Some("new-rt".to_string()));
    assert_eq!(saved.expires_at, 1_060);
}

#[test]
fn failed_refresh_requires_authentication() {
    let run = ensure_valid_access_token(
        LoadOutcome::Loaded(cached("old-token", 500, Some("rt"))),
        None,
        1_000,
    );
    assert_eq!(run.refresh_calls, 1);
    assert!(matches!(run.result, Err(LifecycleError::RequiresAuthentication)));
    assert!(run.saved.is_none());
}

#[test]
fn missing_cache_requires_authentication() {
    let run = ensure_valid_access_token(LoadOutcome::NotFound, None, 1_000);
    assert!(matches!(run.result, Err(LifecycleError::RequiresAuthentication)));
    assert_eq!(run.refresh_calls, 0);
}

#[test]
fn corrupt_cache_is_a_fatal_error() {
    let run = ensure_valid_access_token(LoadOutcome::Corrupt, None, 1_000);
    assert!(matches!(run.result, Err(LifecycleError::FatalCacheError)));
    assert_eq!(run.refresh_calls, 0);
}

#[test]
fn expired_without_refresh_token_requires_authentication() {
    let run = ensure_valid_access_token(
        LoadOutcome::Loaded(cached("old-token", 500, None)),
        None,
        1_000,
    );
    assert!(matches!(run.result, Err(LifecycleError::RequiresAuthentication)));
    assert_eq!(run.refresh_calls, 0);
}

#[test]
fn expiry_boundary_counts_as_expired() {
    // expires_at equal to now is not in the future.
    let step = lifecycle_decide(LoadOutcome::Loaded(cached("t", 1_000, None)), 1_000);
    assert!(matches!(step, LifecycleStep::Fail(LifecycleError::RequiresAuthentication)));
    let step = lifecycle_decide(LoadOutcome::Loaded(cached("t", 1_001, None)), 1_000);
    assert!(matches!(step, LifecycleStep::UseCached(a) if a == "t"));
}

#[test]
fn decide_picks_refresh_token() {
    let step = lifecycle_decide(LoadOutcome::Loaded(cached("t", 500, Some("the-rt"))), 1_000);
    assert!(matches!(step, LifecycleStep::AttemptRefresh(rt) if rt == "the-rt"));
}

#[test]
fn after_refresh_stamps_expiry() {
    let t = TokenResult {
        access_token: "a".to_string(),
        refresh_token: None,
        expires_in: None,
    };
    let r = lifecycle_after_refresh(Some(t), 10).expect("success path");
    assert_eq!(r.0, "a");
    // Without a declared lifetime, one hour is assumed.
    assert_eq!(r.1.expires_at, 3_610);
    let r = lifecycle_after_refresh(None, 10);
    assert!(matches!(r, Err(LifecycleError::RequiresAuthentication)));
}
