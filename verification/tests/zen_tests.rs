use mini_ai_1c::zen::{
    applicable_configured_headers, cached_zen_session_id, configured_opencode_session_id,
    invalidate_zen_session, is_missing_opencode_session_error, is_opencode_zen_url,
    store_zen_session_id, truncate_error_body, zen_api_root, zen_session_endpoints,
    ZenSessionCache, parse_zen_session_id, zen_session_attempt, zen_session_failure,
    zen_session_request_headers, ZenSessionReply,
};

#[test]
fn detects_opencode_zen_urls() {
    assert!(is_opencode_zen_url("https://opencode.ai/zen/go/v1"));
    assert!(is_opencode_zen_url("HTTPS://OPENCODE.AI/ZEN/GO/"));
    assert!(!is_opencode_zen_url("https://api.openai.com/v1"));
}

#[test]
fn derives_zen_api_root() {
    assert_eq!(zen_api_root("https://opencode.ai/zen/go/v1"), "https://opencode.ai/zen");
    assert_eq!(
        zen_api_root("https://opencode.ai/zen/go/v1/chat/completions"),
        "https://opencode.ai/zen"
    );
    assert_eq!(zen_api_root("https://opencode.ai/zen/"), "https://opencode.ai/zen");
}

#[test]
fn detects_missing_session_errors() {
    assert!(is_missing_opencode_session_error(
        r#"{"type":"MissingSessionID","message":"Request is missing x-opencode-session"}"#
    ));
    assert!(!is_missing_opencode_session_error("rate limited"));
}

#[test]
fn finds_manual_session_without_network() {
    let configured = vec![("X-OpenCode-Session".to_string(), "manual-session".to_string())];
    assert_eq!(
        configured_opencode_session_id(Some(&configured)).as_deref(),
        Some("manual-session")
    );
    assert_eq!(configured_opencode_session_id(None), None);
}

#[test]
fn skips_reserved_and_invalid_configured_headers() {
    let configured = vec![
        ("Authorization".to_string(), "Bearer overridden".to_string()),
        ("X-Custom".to_string(), "custom-value".to_string()),
        ("Not A Header".to_string(), "ignored".to_string()),
    ];
    let headers = applicable_configured_headers(Some(&configured));
    assert!(headers.iter().all(|(name, _)| !name.eq_ignore_ascii_case("authorization")));
    assert!(headers
        .iter()
        .any(|(name, value)| name == "X-Custom" && value == "custom-value"));
    assert!(headers.iter().all(|(name, _)| name != "Not A Header"));
}

#[test]
fn session_cache_returns_until_expiry_and_forgets_on_invalidate() {
    let mut cache = ZenSessionCache::new();
    let base = "https://opencode.ai/zen/go/v1";
    assert_eq!(cached_zen_session_id(&cache, base, "key", 0), None);
    store_zen_session_id(&mut cache, base, "key", "sess-1".to_string(), 1_000);
    assert_eq!(cached_zen_session_id(&cache, base, "key", 2_000).as_deref(), Some("sess-1"));
    assert_eq!(cached_zen_session_id(&cache, base, "other", 2_000), None);
    assert_eq!(cached_zen_session_id(&cache, base, "key", 1_000 + 1_800_000), None);
    invalidate_zen_session(&mut cache, base, "key");
    assert_eq!(cached_zen_session_id(&cache, base, "key", 2_000), None);
}

#[test]
fn session_endpoints_and_error_bodies() {
    let endpoints = zen_session_endpoints("https://opencode.ai/zen");
    assert!(!endpoints.is_empty());
    assert!(endpoints.iter().all(|e| e.starts_with("https://opencode.ai/zen")));
    assert_eq!(truncate_error_body("short"), "short");
}

#[test]
fn session_id_is_taken_from_the_first_place_that_holds_one() {
    assert_eq!(parse_zen_session_id(r#"{"id":"  s1  "}"#), Some("s1".to_string()));
    assert_eq!(parse_zen_session_id(r#"{"id":"  ","sessionId":"s2"}"#), Some("s2".to_string()));
    assert_eq!(parse_zen_session_id(r#"{"session":{"session_id":"s3"}}"#), Some("s3".to_string()));
    assert_eq!(parse_zen_session_id(r#"{"data":{"id":7,"session_id":"s4"}}"#), Some("s4".to_string()));
    assert_eq!(parse_zen_session_id(r#"{"data":{}}"#), None);
    assert_eq!(parse_zen_session_id("not json"), None);
}

#[test]
fn session_attempts_are_noted() {
    let ok = zen_session_attempt(
        "https://opencode.ai/zen/v1/sessions",
        ZenSessionReply::Answer { success: true, status: "200 OK".to_string(), body: r#"{"id":"abc"}"#.to_string() },
    );
    assert_eq!(ok, Ok("abc".to_string()));
    let no_id = zen_session_attempt(
        "e1",
        ZenSessionReply::Answer { success: true, status: "200 OK".to_string(), body: "{}".to_string() },
    );
    assert_eq!(no_id, Err("e1: HTTP 200 OK without a parsable session id".to_string()));
    let refused = zen_session_attempt(
        "e2",
        ZenSessionReply::Answer { success: false, status: "404 Not Found".to_string(), body: "  nope  ".to_string() },
    );
    assert_eq!(refused, Err("e2: HTTP 404 Not Found nope".to_string()));
    let failed = zen_session_attempt("e3", ZenSessionReply::RequestError("timeout".to_string()));
    assert_eq!(failed, Err("e3: request error timeout".to_string()));
    let notes = vec!["a".to_string(), "b".to_string()];
    assert_eq!(
        zen_session_failure(&notes),
        "Не удалось создать OpenCode Zen-сессию (a; b). Укажите действующую сессию вручную в дополнительных заголовках Custom-профиля: x-opencode-session."
    );
}

#[test]
fn session_request_headers_trim_the_key() {
    let h = zen_session_request_headers("  key  ");
    assert_eq!(h[1], ("authorization".to_string(), "Bearer key".to_string()));
    assert_eq!(zen_session_request_headers("   ").len(), 1);
}
