use keycloak_oauth::token_cache::{parse_cached_token, CacheError, CachedToken, TokenResult};

fn record(access: &str, expires_at: u64, refresh: Option<&str>) -> CachedToken {
    CachedToken {
        access_token: access.to_string(),
        expires_at,
        refresh_token: refresh.map(|r| r.to_string()),
    }
}

#[test]
fn save_then_load_round_trips() {
    let original = record("eyJhbGciOiJSUzI1NiJ9.payload.sig", 1_714_000_000, Some("refresh-1"));
    let doc = original.serialize();
    let back = parse_cached_token(doc.as_str()).expect("a saved record reads back");
    assert_eq!(back.access_token, original.access_token);
    assert_eq!(back.expires_at, original.expires_at);
    assert_eq!(back.refresh_token, original.refresh_token);
}

#[test]
fn round_trip_without_refresh_token() {
    let original = record("token-a", 42, None);
    let doc = original.serialize();
    let back = parse_cached_token(doc.as_str()).expect("parses");
    assert_eq!(back.access_token, "token-a");
    assert_eq!(back.expires_at, 42);
    assert_eq!(back.refresh_token, None);
}

#[test]
fn round_trip_with_escaped_characters() {
    let original = record("a\"b\\c", 7, Some("d\\\"e"));
    let doc = original.serialize();
    let back = parse_cached_token(doc.as_str()).expect("escapes read back");
    assert_eq!(back.access_token, "a\"b\\c");
    assert_eq!(back.refresh_token, Some("d\\\"e".to_string()));
}

#[test]
fn serialized_document_is_exact() {
    let doc = record("abc", 42, None).serialize();
    assert_eq!(doc, "{\"access_token\":\"abc\",\"expires_at\":42,\"refresh_token\":null}");
    let doc = record("a", 0, Some("r")).serialize();
    assert_eq!(doc, "{\"access_token\":\"a\",\"expires_at\":0,\"refresh_token\":\"r\"}");
}

#[test]
fn garbage_is_corrupt() {
    assert_eq!(parse_cached_token("not a document"), Err(CacheError::Corrupt));
    assert_eq!(parse_cached_token(""), Err(CacheError::Corrupt));
    assert_eq!(parse_cached_token("{\"access_token\":\"a\""), Err(CacheError::Corrupt));
}

#[test]
fn trailing_text_is_corrupt() {
    let mut doc = record("a", 1, None).serialize();
    doc.push(' ');
    assert_eq!(parse_cached_token(doc.as_str()), Err(CacheError::Corrupt));
}

#[test]
fn leading_zero_expiry_is_corrupt() {
    let doc = "{\"access_token\":\"a\",\"expires_at\":007,\"refresh_token\":null}";
    assert_eq!(parse_cached_token(doc), Err(CacheError::Corrupt));
}

#[test]
fn unterminated_string_is_corrupt() {
    let doc = "{\"access_token\":\"a\\";
    assert_eq!(parse_cached_token(doc), Err(CacheError::Corrupt));
}

#[test]
fn from_token_result_stamps_issuance_plus_lifetime() {
    let t = TokenResult {
        access_token: "a".to_string(),
        refresh_token: Some("r".to_string()),
        expires_in: Some(120),
    };
    let c = CachedToken::from_token_result(t, 1_000);
    assert_eq!(c.expires_at, 1_120);
    assert_eq!(c.access_token, "a");
    assert_eq!(c.refresh_token, Some("r".to_string()));
}

#[test]
fn missing_lifetime_defaults_to_an_hour() {
    let t = TokenResult {
        access_token: "a".to_string(),
        refresh_token: None,
        expires_in: None,
    };
    let c = CachedToken::from_token_result(t, 1_000);
    assert_eq!(c.expires_at, 4_600);
}

#[test]
fn largest_expiry_round_trips() {
    let original = record("a", u64::MAX, None);
    let doc = original.serialize();
    let back = parse_cached_token(doc.as_str()).expect("parses");
    assert_eq!(back.expires_at, u64::MAX);
}

#[test]
fn expiry_past_u64_is_corrupt() {
    let doc = "{\"access_token\":\"a\",\"expires_at\":18446744073709551616,\"refresh_token\":null}";
    assert_eq!(parse_cached_token(doc), Err(CacheError::Corrupt));
}
