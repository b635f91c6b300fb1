use mini_ai_1c::client::{
    extract_bsl_code, extract_retry_after_secs, parse_qwen_rate_limit_context,
    qwen_has_tool_heavy_context, qwen_max_tokens, qwen_retry_delay, qwen_thinking_budget,
    reduce_qwen_request_pressure, sanitize_messages_for_ollama_cloud, build_qwen_rate_limit_message,
    provider_requires_api_key, resolve_profile_api_key, QwenRateLimitContext, QwenRequestLimits,
    QWEN_MAX_RETRY_DELAY_SECS,
};
use mini_ai_1c::models::{ApiMessage, ToolCall, ToolCallFunction};
use mini_ai_1c::profiles::{LLMProfile, LLMProvider};

fn msg(role: &str, content: Option<&str>) -> ApiMessage {
    ApiMessage {
        role: role.to_string(),
        content: content.map(|c| c.to_string()),
        tool_calls: None,
        tool_call_id: None,
        name: None,
    }
}

#[test]
fn detects_quota_exceeded_from_qwen_body() {
    let ctx = parse_qwen_rate_limit_context(
        None,
        r#"{"error":{"code":"insufficient_quota","message":"You exceeded your current quota."}}"#,
    );

    assert!(ctx.is_quota_exceeded);
    assert!(!ctx.is_hard_quota_exhausted);
    assert!(!ctx.is_burst_limited);
}

#[test]
fn detects_tool_heavy_context_from_recent_tool_messages() {
    let messages = vec![
        msg("user", Some("test")),
        ApiMessage {
            role: "tool".to_string(),
            content: Some("cached".to_string()),
            tool_calls: None,
            tool_call_id: Some("tc_1".to_string()),
            name: Some("get_object_structure".to_string()),
        },
    ];

    assert!(qwen_has_tool_heavy_context(&messages));
}

#[test]
fn clamps_qwen_budget_for_tool_heavy_context() {
    assert_eq!(qwen_max_tokens(65_536, true), 16_384);
    assert_eq!(qwen_thinking_budget(20_000, true), 8_192);
}

#[test]
fn insufficient_quota_uses_short_retry_schedule() {
    let ctx = QwenRateLimitContext {
        retry_after_secs: None,
        message: Some("quota".to_string()),
        is_quota_exceeded: true,
        is_hard_quota_exhausted: false,
        is_burst_limited: false,
    };

    assert_eq!(qwen_retry_delay(1, &ctx), Some(2));
    assert_eq!(qwen_retry_delay(2, &ctx), Some(4));
}

#[test]
fn hard_quota_exhaustion_does_not_schedule_retry() {
    let ctx = QwenRateLimitContext {
        retry_after_secs: None,
        message: Some("free quota".to_string()),
        is_quota_exceeded: true,
        is_hard_quota_exhausted: true,
        is_burst_limited: false,
    };

    assert_eq!(qwen_retry_delay(1, &ctx), None);
}

#[test]
fn ollama_cloud_sanitizer_replaces_missing_content_with_empty_string() {
    let messages = vec![
        ApiMessage {
            role: "assistant".to_string(),
            content: None,
            tool_calls: Some(vec![ToolCall {
                id: "call_1".to_string(),
                kind: "function".to_string(),
                function: ToolCallFunction {
                    name: "search_code".to_string(),
                    arguments: "{}".to_string(),
                },
            }]),
            tool_call_id: None,
            name: None,
        },
        ApiMessage {
            role: "tool".to_string(),
            content: None,
            tool_calls: None,
            tool_call_id: Some("call_1".to_string()),
            name: Some("search_code".to_string()),
        },
    ];

    let sanitized = sanitize_messages_for_ollama_cloud(messages);

    assert_eq!(sanitized[0].content.as_deref(), Some(""));
    assert_eq!(sanitized[1].content.as_deref(), Some(""));
}

#[test]
fn ollama_cloud_sanitizer_keeps_existing_content_unchanged() {
    let messages = vec![msg("assistant", Some("ready"))];

    let sanitized = sanitize_messages_for_ollama_cloud(messages.clone());

    assert_eq!(sanitized[0].content, messages[0].content);
}

#[test]
fn burst_limit_uses_short_retry_schedule() {
    let ctx = QwenRateLimitContext {
        retry_after_secs: None,
        message: Some("burst".to_string()),
        is_quota_exceeded: false,
        is_hard_quota_exhausted: false,
        is_burst_limited: true,
    };

    assert_eq!(qwen_retry_delay(1, &ctx), Some(2));
    assert_eq!(qwen_retry_delay(2, &ctx), Some(4));
}

#[test]
fn retry_after_is_clamped_to_short_wait() {
    let ctx = parse_qwen_rate_limit_context(Some("30"), r#"{"error":{"message":"Too many requests"}}"#);

    assert_eq!(ctx.retry_after_secs, Some(QWEN_MAX_RETRY_DELAY_SECS));
    assert_eq!(qwen_retry_delay(1, &ctx), Some(QWEN_MAX_RETRY_DELAY_SECS));
}

#[test]
fn reduces_request_pressure_for_quota_retries() {
    let mut request = QwenRequestLimits { max_tokens: 65_536, thinking_budget_tokens: Some(24_000) };

    let changed = reduce_qwen_request_pressure(&mut request, true, true);

    assert!(changed);
    assert_eq!(request.max_tokens, 8_192);
    assert_eq!(request.thinking_budget_tokens, Some(4_096));
}

#[test]
fn rate_limit_context_keeps_provider_message_and_burst_flag() {
    let ctx = parse_qwen_rate_limit_context(None, r#"{"error":{"message":"Too Many Requests"}}"#);
    assert_eq!(ctx.message.as_deref(), Some("Too Many Requests"));
    assert!(ctx.is_burst_limited);
    assert!(!ctx.is_quota_exceeded);
    assert_eq!(ctx.retry_after_secs, None);
}

#[test]
fn retry_after_header_is_trimmed_and_raised_to_one_second() {
    assert_eq!(extract_retry_after_secs(Some(" 0 ")), Some(1));
    assert_eq!(extract_retry_after_secs(Some("+7")), Some(7));
    assert_eq!(extract_retry_after_secs(Some("soon")), None);
    assert_eq!(extract_retry_after_secs(None), None);
}

#[test]
fn unknown_429_is_retried_once() {
    let ctx = QwenRateLimitContext {
        retry_after_secs: None,
        message: None,
        is_quota_exceeded: false,
        is_hard_quota_exhausted: false,
        is_burst_limited: false,
    };
    assert_eq!(qwen_retry_delay(1, &ctx), Some(2));
    assert_eq!(qwen_retry_delay(2, &ctx), None);
    assert_eq!(
        build_qwen_rate_limit_message(&ctx),
        "Qwen вернул 429: Qwen временно ограничил запросы."
    );
}

#[test]
fn thinking_budget_is_eighty_percent_within_bounds() {
    assert_eq!(qwen_thinking_budget(20_000, false), 16_000);
    assert_eq!(qwen_thinking_budget(100, false), 8_192);
    assert_eq!(qwen_thinking_budget(u32::MAX, false), 32_768);
    assert_eq!(qwen_max_tokens(1_000, false), 8_192);
    assert_eq!(qwen_max_tokens(100_000, false), 65_536);
}

#[test]
fn blank_key_is_refused_only_for_hosted_providers() {
    let mut profile = LLMProfile::default_profile();
    profile.provider = LLMProvider::OpenAI;
    assert!(provider_requires_api_key(&LLMProvider::OpenAI));
    assert!(!provider_requires_api_key(&LLMProvider::Ollama));
    assert!(resolve_profile_api_key(&profile, Ok("  ".to_string())).is_err());
    assert_eq!(resolve_profile_api_key(&profile, Ok("sk".to_string())), Ok("sk".to_string()));
    profile.provider = LLMProvider::Ollama;
    assert_eq!(resolve_profile_api_key(&profile, Ok(String::new())), Ok(String::new()));
    assert_eq!(
        resolve_profile_api_key(&profile, Err("broken".to_string())),
        Err("broken".to_string())
    );
}

#[test]
fn extracts_bsl_and_1c_blocks_in_order() {
    let text = "a ```bsl\n  Процедура А()\nКонецПроцедуры \n``` b ```1c\nX = 1;\n``` c ```bsl\nY";
    let blocks = extract_bsl_code(text);
    assert_eq!(blocks, vec!["Процедура А()\nКонецПроцедуры".to_string(), "X = 1;".to_string()]);
    assert!(extract_bsl_code("no code").is_empty());
}
