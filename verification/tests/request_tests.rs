use mini_ai_1c::models::{ApiMessage, NonStreamToolCall, NonStreamToolCallFunction, ToolCall, ToolCallFunction};
use mini_ai_1c::profiles::LLMProvider;
use mini_ai_1c::request::{
    assistant_reply, chat_completions_url, chat_request_headers, decide_after_error_response,
    decide_after_transport_error, effective_temperature_milli, enable_thinking_flag,
    estimated_input_tokens, is_local_endpoint, merge_system_into_first_user,
    qwen_chat_completions_url, qwen_thinking_enabled, qwen_token_needs_refresh,
    qwen_usage_from_headers, resolve_api_max_tokens, stream_chunk_timeout_secs,
    parse_non_stream_reply, tool_call_from_response, RetryDecision,
};

fn msg(role: &str, content: &str) -> ApiMessage {
    ApiMessage {
        role: role.to_string(),
        content: Some(content.to_string()),
        tool_calls: None,
        tool_call_id: None,
        name: None,
    }
}

#[test]
fn qwen_token_refreshes_within_a_minute_of_expiry() {
    assert!(qwen_token_needs_refresh(1000, 1059));
    assert!(!qwen_token_needs_refresh(1000, 1060));
    assert!(qwen_token_needs_refresh(2000, 1000));
}

#[test]
fn qwen_endpoint_uses_resource_host_outside_dashscope() {
    assert_eq!(
        qwen_chat_completions_url(Some("chat.qwen.ai")),
        "https://chat.qwen.ai/v1/chat/completions"
    );
    assert_eq!(
        qwen_chat_completions_url(Some("dashscope.aliyuncs.com")),
        "https://portal.qwen.ai/v1/chat/completions"
    );
    assert_eq!(
        qwen_chat_completions_url(None),
        "https://portal.qwen.ai/v1/chat/completions"
    );
    assert_eq!(
        qwen_chat_completions_url(Some("")),
        "https://portal.qwen.ai/v1/chat/completions"
    );
}

#[test]
fn chat_url_adds_v1_for_local_servers() {
    assert_eq!(
        chat_completions_url(LLMProvider::Ollama, "http://localhost:11434/"),
        "http://localhost:11434/v1/chat/completions"
    );
    assert_eq!(
        chat_completions_url(LLMProvider::LMStudio, "http://localhost:1234/v1"),
        "http://localhost:1234/v1/chat/completions"
    );
    assert_eq!(
        chat_completions_url(LLMProvider::OpenAI, "https://api.openai.com/v1//"),
        "https://api.openai.com/v1/chat/completions"
    );
    assert_eq!(
        chat_completions_url(LLMProvider::OpenRouter, "https://openrouter.ai/api"),
        "https://openrouter.ai/api/chat/completions"
    );
}

#[test]
fn output_budget_depends_on_provider() {
    assert_eq!(resolve_api_max_tokens(LLMProvider::QwenCli, 1000, false), 8192);
    assert_eq!(resolve_api_max_tokens(LLMProvider::QwenCli, 100_000, false), 65536);
    assert_eq!(resolve_api_max_tokens(LLMProvider::QwenCli, 30_000, true), 16384);
    assert_eq!(resolve_api_max_tokens(LLMProvider::LMStudio, 100, false), 8192);
    assert_eq!(resolve_api_max_tokens(LLMProvider::MiniMax, 100, false), 4096);
    assert_eq!(resolve_api_max_tokens(LLMProvider::MiniMax, 90_000, false), 64000);
    assert_eq!(resolve_api_max_tokens(LLMProvider::OpenAI, 20_000, false), 4096);
    assert_eq!(resolve_api_max_tokens(LLMProvider::OpenAI, 16384, false), 16384);
}

#[test]
fn thinking_flags_follow_provider() {
    assert!(qwen_thinking_enabled(LLMProvider::QwenCli, Some(true)));
    assert!(!qwen_thinking_enabled(LLMProvider::QwenCli, None));
    assert!(!qwen_thinking_enabled(LLMProvider::OpenAI, Some(true)));
    assert_eq!(effective_temperature_milli(true, 200), 1000);
    assert_eq!(effective_temperature_milli(false, 200), 200);
    assert_eq!(enable_thinking_flag(LLMProvider::QwenCli, true), Some(true));
    assert_eq!(enable_thinking_flag(LLMProvider::LMStudio, false), Some(false));
    assert_eq!(enable_thinking_flag(LLMProvider::OpenAI, false), None);
}

#[test]
fn input_tokens_are_a_quarter_of_content_bytes() {
    let ms = vec![msg("system", "abcd"), msg("user", "привет")];
    assert_eq!(estimated_input_tokens(&ms), (4 + 12) / 4);
    assert_eq!(estimated_input_tokens(&[]), 0);
}

#[test]
fn headers_carry_key_and_provider_extras() {
    let h = chat_request_headers(LLMProvider::OpenRouter, "k");
    let names: Vec<&str> = h.iter().map(|(n, _)| n.as_str()).collect();
    assert_eq!(names, vec!["Content-Type", "Authorization", "HTTP-Referer", "X-Title"]);
    assert_eq!(h[1].1, "Bearer k");
    let plain = chat_request_headers(LLMProvider::Ollama, "");
    assert_eq!(plain.len(), 1);
    let qwen = chat_request_headers(LLMProvider::QwenCli, "t");
    assert_eq!(qwen.len(), 11);
    assert_eq!(qwen[4].0, "X-Dashscope-Authtype");
    assert_eq!(qwen[4].1, "qwen-oauth");
}

#[test]
fn stream_timeouts_default_by_provider() {
    assert!(is_local_endpoint(LLMProvider::Ollama));
    assert!(!is_local_endpoint(LLMProvider::OllamaCloud));
    assert_eq!(stream_chunk_timeout_secs(LLMProvider::Ollama, None), 300);
    assert_eq!(stream_chunk_timeout_secs(LLMProvider::MiniMax, None), 120);
    assert_eq!(stream_chunk_timeout_secs(LLMProvider::OpenAI, None), 30);
    assert_eq!(stream_chunk_timeout_secs(LLMProvider::OpenAI, Some(7)), 7);
}

#[test]
fn server_errors_are_retried_then_reported() {
    let d = decide_after_error_response(LLMProvider::OpenAI, "m", 1, 500, "500 Internal", None, "oops", false, false);
    assert!(matches!(d, RetryDecision::RetryAfter(2)));
    let d = decide_after_error_response(LLMProvider::OpenAI, "m", 3, 500, "500 Internal", None, "oops", false, false);
    match d {
        RetryDecision::Fail(m) => assert_eq!(m, "API error 500 Internal: oops"),
        other => panic!("unexpected {:?}", other),
    }
}

#[test]
fn rate_limits_wait_for_retry_after() {
    let d = decide_after_error_response(LLMProvider::OpenAI, "m", 1, 429, "429", Some("7"), "", false, false);
    assert!(matches!(d, RetryDecision::RetryAfter(7)));
    let d = decide_after_error_response(LLMProvider::OpenAI, "m", 1, 429, "429", None, "", false, false);
    assert!(matches!(d, RetryDecision::RetryAfter(10)));
}

#[test]
fn open_router_errors_get_specific_answers() {
    let d = decide_after_error_response(
        LLMProvider::OpenRouter, "m", 1, 400, "400", None,
        "Developer instruction is not enabled", true, false,
    );
    assert!(matches!(d, RetryDecision::MergeSystemIntoUser));
    let d = decide_after_error_response(
        LLMProvider::OpenRouter, "m", 1, 404, "404", None,
        "No endpoints found that support tool use", false, true,
    );
    assert!(matches!(d, RetryDecision::DropTools));
    let d = decide_after_error_response(
        LLMProvider::OpenRouter, "m:free", 3, 429, "429", None, "{}", false, false,
    );
    match d {
        RetryDecision::Fail(m) => assert!(m.starts_with("Бесплатная модель `m:free`")),
        other => panic!("unexpected {:?}", other),
    }
    let d = decide_after_error_response(
        LLMProvider::OpenRouter, "m", 3, 429, "429", None,
        r#"{"error":{"metadata":{"raw":"upstream busy"}}}"#, false, false,
    );
    match d {
        RetryDecision::Fail(m) => assert_eq!(m, "upstream busy"),
        other => panic!("unexpected {:?}", other),
    }
    let d = decide_after_error_response(
        LLMProvider::OllamaCloud, "big", 1, 403, "403", None, "this model requires a subscription", false, false,
    );
    match d {
        RetryDecision::Fail(m) => assert!(m.starts_with("Модель 'big' требует платной подписки")),
        other => panic!("unexpected {:?}", other),
    }
}

#[test]
fn qwen_rate_limit_cools_down_then_fails() {
    let d = decide_after_error_response(
        LLMProvider::QwenCli, "q", 1, 429, "429", Some("3"), r#"{"error":{"message":"slow down"}}"#, false, false,
    );
    assert!(matches!(d, RetryDecision::QwenCooldown { delay_secs: 3, quota_exceeded: false }));
    let d = decide_after_error_response(
        LLMProvider::QwenCli, "q", 3, 429, "429", Some("3"), r#"{"error":{"message":"slow down"}}"#, false, false,
    );
    assert!(matches!(d, RetryDecision::Fail(_)));
}

#[test]
fn transport_errors_retry_then_fail() {
    assert!(matches!(decide_after_transport_error(1, "x"), RetryDecision::RetryAfter(2)));
    match decide_after_transport_error(3, "timeout") {
        RetryDecision::Fail(m) => assert_eq!(m, "Request failed after 3 attempts: timeout"),
        other => panic!("unexpected {:?}", other),
    }
}

#[test]
fn system_messages_fold_into_first_user_message() {
    let ms = vec![
        msg("system", "A"),
        msg("assistant", "hi"),
        msg("system", "B"),
        msg("user", "question"),
        msg("user", "later"),
    ];
    let r = merge_system_into_first_user(ms);
    assert_eq!(r.len(), 3);
    assert_eq!(r[0].role, "assistant");
    assert_eq!(r[1].content.as_deref(), Some("A\n\nB\n\n---\n\nquestion"));
    assert_eq!(r[2].content.as_deref(), Some("later"));
}

#[test]
fn tool_calls_from_responses_default_to_empty_arguments() {
    let tc = tool_call_from_response(NonStreamToolCall {
        id: "c1".to_string(),
        kind: "function".to_string(),
        function: NonStreamToolCallFunction {
            name: "f".to_string(),
            arguments: None,
        },
    });
    assert_eq!(tc.function.arguments, "{}");
    let reply = assistant_reply(String::new(), vec![tc]);
    assert_eq!(reply.role, "assistant");
    assert!(reply.content.is_none());
    assert_eq!(reply.tool_calls.as_ref().map(|v| v.len()), Some(1));
    let plain = assistant_reply("ok".to_string(), Vec::<ToolCall>::new());
    assert!(plain.tool_calls.is_none());
    let _unused = ToolCallFunction {
        name: String::new(),
        arguments: String::new(),
    };
}

#[test]
fn qwen_usage_is_limit_minus_remaining() {
    assert_eq!(qwen_usage_from_headers(Some("100"), Some("40")), Some((60, 100)));
    assert_eq!(qwen_usage_from_headers(Some("10"), Some("40")), Some((0, 10)));
    assert_eq!(qwen_usage_from_headers(Some("x"), Some("40")), None);
    assert_eq!(qwen_usage_from_headers(None, Some("40")), None);
}

#[test]
fn non_stream_reply_reads_content_and_tool_calls() {
    let body = r#"{"choices":[{"message":{"role":"assistant","content":"Готово","tool_calls":[
        {"id":"call_1","type":"function","function":{"name":"search","arguments":"{\"q\":\"НДС\"}"}},
        {"id":"call_2","type":"function","function":{"name":"list","arguments":{"a":1}}},
        {"id":"call_3","type":"function","function":{"name":"noop","arguments":""}},
        {"id":"call_4","type":"function","function":{"name":"bare"}}]}}]}"#;
    let reply = parse_non_stream_reply(body).unwrap();
    assert_eq!(reply.role, "assistant");
    assert_eq!(reply.content.as_deref(), Some("Готово"));
    let calls = reply.tool_calls.unwrap();
    assert_eq!(calls.len(), 4);
    assert_eq!(calls[0].id, "call_1");
    assert_eq!(calls[0].kind, "function");
    assert_eq!(calls[0].function.name, "search");
    assert_eq!(calls[0].function.arguments, "{\"q\":\"НДС\"}");
    assert_eq!(calls[1].function.arguments, "{\"a\":1}");
    assert_eq!(calls[2].function.arguments, "{}");
    assert_eq!(calls[3].function.arguments, "{}");
    assert!(reply.tool_call_id.is_none());
}

#[test]
fn non_stream_reply_without_content_or_calls_leaves_them_out() {
    let reply = parse_non_stream_reply(r#"{"choices":[{"message":{"content":null}}]}"#).unwrap();
    assert!(reply.content.is_none());
    assert!(reply.tool_calls.is_none());
}

#[test]
fn non_stream_reply_without_choices_is_empty() {
    assert_eq!(parse_non_stream_reply(r#"{"choices":[]}"#).unwrap_err(), "Empty response from API");
}

#[test]
fn non_stream_reply_that_is_not_json_is_refused() {
    assert_eq!(
        parse_non_stream_reply("<html>502</html>").unwrap_err(),
        "Failed to parse non-stream response: the body is not JSON"
    );
}
