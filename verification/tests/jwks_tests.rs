use keycloak_oauth::jwks::{
    collect_rsa_keys, fetch_and_cache_jwks, parse_jwks_document, FetchError, JwkEntry, JwkFields,
    KeyCache,
};

fn jwks_body() -> &'static str {
    "{\"keys\":[\
      {\"kid\":\"key-1\",\"kty\":\"RSA\",\"n\":\"mod-1\",\"e\":\"AQAB\"},\
      {\"kid\":\"key-2\",\"n\":\"mod-2\"},\
      {\"kid\":\"key-3\",\"n\":\"mod-3\",\"e\":\"AQAB\"}\
    ]}"
}

#[test]
fn first_read_always_fetches() {
    let mut cache = KeyCache::new();
    assert!(cache.refresh_due(0));
    assert!(cache.refresh_due(u64::MAX));
    let (fetches, result) = fetch_and_cache_jwks(&mut cache, 1_000, Some(jwks_body()));
    assert_eq!(fetches, 1);
    let keys = result.expect("a good body populates the cache");
    assert_eq!(keys.len(), 2);
    assert_eq!(keys[0].kid, "key-1");
    assert_eq!(keys[1].kid, "key-3");
}

#[test]
fn second_read_within_window_fetches_nothing() {
    let mut cache = KeyCache::new();
    let (fetches, _) = fetch_and_cache_jwks(&mut cache, 1_000, Some(jwks_body()));
    assert_eq!(fetches, 1);
    // The same day: the cached keys come back with zero fetches; the body
    // argument is not even consulted.
    let (fetches, result) = fetch_and_cache_jwks(&mut cache, 1_000 + 3_600, None);
    assert_eq!(fetches, 0);
    let keys = result.expect("cached keys");
    assert_eq!(keys.len(), 2);
    // Exactly at the window edge there is still no fetch.
    let (fetches, _) = fetch_and_cache_jwks(&mut cache, 1_000 + 86_400, None);
    assert_eq!(fetches, 0);
}

#[test]
fn read_after_window_fetches_once() {
    let mut cache = KeyCache::new();
    let (_, _) = fetch_and_cache_jwks(&mut cache, 1_000, Some(jwks_body()));
    let (fetches, result) = fetch_and_cache_jwks(&mut cache, 1_000 + 86_401, Some(jwks_body()));
    assert_eq!(fetches, 1);
    assert!(result.is_ok());
}

#[test]
fn failed_fetch_keeps_old_keys_and_reports() {
    let mut cache = KeyCache::new();
    let (_, _) = fetch_and_cache_jwks(&mut cache, 1_000, Some(jwks_body()));
    let later = 1_000 + 90_000;
    let (fetches, result) = fetch_and_cache_jwks(&mut cache, later, None);
    assert_eq!(fetches, 1);
    assert_eq!(result, Err(FetchError::Transport));
    // The stale entries are still there, and still count as stale.
    assert!(cache.lookup("key-1").is_some());
    assert!(cache.refresh_due(later));
    // An unreadable body is reported as a parse failure, keys untouched.
    let (_, result) = fetch_and_cache_jwks(&mut cache, later, Some("not json at all"));
    assert_eq!(result, Err(FetchError::Json));
    assert!(cache.lookup("key-1").is_some());
}

#[test]
fn incomplete_entries_are_skipped_not_fatal() {
    let fields = parse_jwks_document(jwks_body()).expect("well-formed JSON");
    assert_eq!(fields.len(), 3);
    let keys = collect_rsa_keys(fields);
    assert_eq!(keys.len(), 2);
    assert_eq!(keys[0].modulus, "mod-1");
    assert_eq!(keys[0].exponent, "AQAB");
    assert_eq!(keys[1].kid, "key-3");
}

#[test]
fn document_without_keys_array_is_empty() {
    let fields = parse_jwks_document("{\"other\":1}").expect("well-formed JSON");
    assert_eq!(fields.len(), 0);
    let fields = parse_jwks_document("{\"keys\":\"oops\"}").expect("well-formed JSON");
    assert_eq!(fields.len(), 0);
    assert!(parse_jwks_document("][").is_none());
}

#[test]
fn collect_keeps_order_and_completeness() {
    let fields = vec![
        JwkFields { kid: Some("a".to_string()), modulus: None, exponent: Some("e".to_string()) },
        JwkFields {
            kid: Some("b".to_string()),
            modulus: Some("n".to_string()),
            exponent: Some("e".to_string()),
        },
        JwkFields { kid: None, modulus: Some("n".to_string()), exponent: Some("e".to_string()) },
    ];
    let keys = collect_rsa_keys(fields);
    assert_eq!(keys.len(), 1);
    assert_eq!(keys[0].kid, "b");
}

#[test]
fn lookup_takes_the_later_duplicate() {
    let mut cache = KeyCache::new();
    let entries = vec![
        JwkEntry {
            kid: "dup".to_string(),
            modulus: "first".to_string(),
            exponent: "e1".to_string(),
        },
        JwkEntry {
            kid: "other".to_string(),
            modulus: "o".to_string(),
            exponent: "e".to_string(),
        },
        JwkEntry {
            kid: "dup".to_string(),
            modulus: "second".to_string(),
            exponent: "e2".to_string(),
        },
    ];
    cache.apply_refresh(entries, 50);
    let e = cache.lookup("dup").expect("present");
    assert_eq!(e.modulus, "second");
    assert!(cache.lookup("absent").is_none());
}

#[test]
fn default_cache_is_fresh() {
    let cache = KeyCache::default();
    assert!(cache.refresh_due(0));
    assert!(cache.lookup("anything").is_none());
}

#[test]
fn expiry_window_boundaries() {
    let mut cache = KeyCache::new();
    cache.apply_refresh(Vec::new(), 1_000);
    assert!(!cache.is_expired(1_000 + 86_400));
    assert!(cache.is_expired(1_000 + 86_401));
    assert!(!cache.is_expired(500));
    // An empty but populated cache is not due within the window.
    assert!(!cache.refresh_due(1_000));
}
