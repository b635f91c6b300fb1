use mini_ai_1c::models::ApiMessage;
use mini_ai_1c::profiles::LLMProvider;
use mini_ai_1c::quick::{
    quick_api_error, quick_codex_step, quick_qwen_token_step, quick_reply_text, quick_request,
    quick_route, summary_conversation_text, summary_from_reply, summary_messages,
    summary_request, QuickCodexStep, QuickRoute,
};
use mini_ai_1c::stream::{
    codex_data_skipped, codex_event_fields, codex_fallback_event, codex_stream_error, CodexEvent,
};

fn message(role: &str, content: Option<&str>) -> ApiMessage {
    ApiMessage {
        role: role.to_string(),
        content: content.map(|c| c.to_string()),
        tool_calls: None,
        tool_call_id: None,
        name: None,
    }
}

fn event(kind: &str, delta: Option<&str>) -> CodexEvent {
    CodexEvent { kind: kind.to_string(), delta: delta.map(|d| d.to_string()), item: None, call_id: None }
}

#[test]
fn summary_text_lists_messages_with_text_only() {
    let history = vec![
        message("user", Some("Привет")),
        message("assistant", None),
        message("tool", Some("")),
        message("assistant", Some("Готово")),
    ];
    assert_eq!(summary_conversation_text(&history), "[user]: Привет\n\n[assistant]: Готово\n\n");
}

#[test]
fn summary_messages_wrap_the_dialogue() {
    let history = vec![message("user", Some("вопрос"))];
    let msgs = summary_messages(&history);
    assert_eq!(msgs.len(), 2);
    assert_eq!(msgs[0].role, "system");
    assert!(msgs[0].content.as_deref().unwrap().starts_with("Ты — ассистент для сжатия контекста диалога."));
    assert!(msgs[0].content.as_deref().unwrap().ends_with("«📋 Конспект предыдущего диалога:»"));
    assert_eq!(msgs[1].role, "user");
    assert_eq!(
        msgs[1].content.as_deref().unwrap(),
        "Сожми следующий диалог в краткий конспект:\n\n[user]: вопрос\n\n"
    );
}

#[test]
fn summary_is_refused_for_cli_and_naparnik_providers() {
    for p in [LLMProvider::CodexCli, LLMProvider::QwenCli, LLMProvider::OneCNaparnik] {
        let r = summary_request(p, "http://x", "k");
        assert!(r.is_err());
    }
    let err = summary_request(LLMProvider::QwenCli, "http://x", "k").err().unwrap();
    assert_eq!(
        err,
        "Суммаризация не поддерживается для провайдера QwenCli. Используйте стратегию 'sliding_window'."
    );
}

#[test]
fn summary_for_ollama_uses_native_chat_endpoint() {
    let r = summary_request(LLMProvider::Ollama, "http://localhost:11434/v1/", "  ").ok().unwrap();
    assert!(r.native);
    assert_eq!(r.url, "http://localhost:11434/api/chat");
    assert_eq!(r.headers, vec![("Content-Type".to_string(), "application/json".to_string())]);

    let r = summary_request(LLMProvider::Ollama, "http://localhost:11434", "key").ok().unwrap();
    assert_eq!(r.url, "http://localhost:11434/api/chat");
    assert_eq!(r.headers.len(), 2);
    assert_eq!(r.headers[1], ("Authorization".to_string(), "Bearer key".to_string()));
}

#[test]
fn summary_for_openai_style_endpoints() {
    let r = summary_request(LLMProvider::LMStudio, "http://localhost:1234/", "").ok().unwrap();
    assert!(!r.native);
    assert_eq!(r.url, "http://localhost:1234/v1/chat/completions");
    assert_eq!(r.headers[0], ("Authorization".to_string(), "Bearer ".to_string()));

    let r = summary_request(LLMProvider::OpenAI, "https://api.openai.com/v1", "sk").ok().unwrap();
    assert_eq!(r.url, "https://api.openai.com/v1/chat/completions");
    assert_eq!(
        r.headers,
        vec![
            ("Authorization".to_string(), "Bearer sk".to_string()),
            ("Content-Type".to_string(), "application/json".to_string()),
        ]
    );
}

#[test]
fn summary_reply_is_trimmed_and_must_not_be_empty() {
    let body = r#"{"choices":[{"message":{"content":"  Итог  "}}]}"#;
    assert_eq!(summary_from_reply(false, body), Ok("Итог".to_string()));
    let blank = r#"{"choices":[{"message":{"content":"   "}}]}"#;
    assert_eq!(summary_from_reply(false, blank), Err("Пустой ответ от LLM".to_string()));
    let native = r#"{"message":{"content":"Кратко"}}"#;
    assert_eq!(summary_from_reply(true, native), Ok("Кратко".to_string()));
    assert!(summary_from_reply(true, "{}").is_err());
}

#[test]
fn quick_route_refuses_naparnik_and_hands_codex_over() {
    match quick_route(LLMProvider::OneCNaparnik) {
        QuickRoute::Refused(t) => assert_eq!(t, "1С:Напарник не поддерживается для быстрых действий"),
        other => panic!("unexpected {:?}", other),
    }
    assert!(matches!(quick_route(LLMProvider::CodexCli), QuickRoute::Codex));
    assert!(matches!(quick_route(LLMProvider::OpenAI), QuickRoute::Http));
}

#[test]
fn quick_qwen_token_is_renewed_within_five_minutes_of_expiry() {
    assert_eq!(quick_qwen_token_step(1000, 0, false), Ok(false));
    assert_eq!(quick_qwen_token_step(1000, 2000, false), Ok(false));
    assert_eq!(quick_qwen_token_step(1000, 1300, true), Ok(true));
    assert_eq!(
        quick_qwen_token_step(1000, 1300, false),
        Err("Qwen CLI: Токен истек, требуется повторная авторизация".to_string())
    );
    assert_eq!(quick_qwen_token_step(1000, 1301, false), Ok(false));
}

#[test]
fn quick_request_for_anthropic_uses_messages_api() {
    let r = quick_request(LLMProvider::Anthropic, "https://api.anthropic.com/v1/", "key", 8192);
    assert!(r.anthropic);
    assert_eq!(r.url, "https://api.anthropic.com/v1/messages");
    assert_eq!(r.max_tokens, 4096);
    assert_eq!(r.headers[0], ("x-api-key".to_string(), "key".to_string()));
    assert_eq!(r.headers[1], ("anthropic-version".to_string(), "2023-06-01".to_string()));
}

#[test]
fn quick_request_for_local_and_qwen_providers() {
    let r = quick_request(LLMProvider::Ollama, "http://localhost:11434", "", 1000);
    assert_eq!(r.url, "http://localhost:11434/v1/chat/completions");
    assert_eq!(r.max_tokens, 1000);
    assert_eq!(r.headers, vec![("content-type".to_string(), "application/json".to_string())]);

    let r = quick_request(LLMProvider::QwenCli, "ignored", "tok", 100);
    assert_eq!(r.url, "https://portal.qwen.ai/v1/chat/completions");
    assert_eq!(r.headers.len(), 5);
    assert_eq!(r.headers[1], ("authorization".to_string(), "Bearer tok".to_string()));
    assert_eq!(r.headers[4], ("X-Dashscope-Authtype".to_string(), "qwen-oauth".to_string()));
}

#[test]
fn quick_reply_text_reads_the_answer_or_gives_empty_text() {
    assert_eq!(quick_reply_text(true, r#"{"content":[{"text":"ok"}]}"#), "ok");
    assert_eq!(quick_reply_text(false, r#"{"choices":[{"message":{"content":"hi"}}]}"#), "hi");
    assert_eq!(quick_reply_text(false, r#"{"choices":[]}"#), "");
    assert_eq!(quick_api_error(true, "400 Bad Request", "x"), "Anthropic API error 400 Bad Request: x");
    assert_eq!(quick_api_error(false, "500", "y"), "LLM API error 500: y");
}

#[test]
fn codex_event_fields_read_event_name_and_data() {
    let raw = b"event: response.output_text.delta \ndata: {\"delta\":\"a\"}\r\n\n";
    let (kind, data) = codex_event_fields(raw);
    assert_eq!(kind, "response.output_text.delta");
    assert_eq!(data, "{\"delta\":\"a\"}");
    let (kind, data) = codex_event_fields(b"data:[DONE]\n\n");
    assert_eq!(kind, "");
    assert_eq!(data, "[DONE]");
    assert!(codex_data_skipped(&data));
    assert!(codex_data_skipped(""));
    assert!(!codex_data_skipped("{}"));
}

#[test]
fn codex_fallback_event_keeps_only_the_event_name() {
    assert!(codex_fallback_event(String::new()).is_none());
    let e = codex_fallback_event("response.completed".to_string()).unwrap();
    assert_eq!(e.kind, "response.completed");
    assert!(e.delta.is_none());
}

#[test]
fn codex_stream_error_prefers_message_field() {
    assert_eq!(codex_stream_error(r#"{"message":"boom"}"#), "boom");
    assert_eq!(codex_stream_error("oops"), "Codex stream error: oops");
}

#[test]
fn quick_codex_collects_text_until_completed() {
    let mut full = String::new();
    assert!(matches!(
        quick_codex_step(&mut full, &event("response.output_text.delta", Some("A &amp; ")), "{}"),
        QuickCodexStep::Continue
    ));
    assert!(matches!(
        quick_codex_step(&mut full, &event("response.created", None), "{}"),
        QuickCodexStep::Continue
    ));
    assert!(matches!(
        quick_codex_step(&mut full, &event("response.output_text.delta", Some("B")), "{}"),
        QuickCodexStep::Continue
    ));
    assert!(matches!(
        quick_codex_step(&mut full, &event("response.completed", None), "{}"),
        QuickCodexStep::Done
    ));
    assert_eq!(full, "A &amp; B");
    match quick_codex_step(&mut full, &event("error", None), r#"{"message":"limit"}"#) {
        QuickCodexStep::Failed(m) => assert_eq!(m, "limit"),
        other => panic!("unexpected {:?}", other),
    }
}
