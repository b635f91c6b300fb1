use mini_ai_1c::chat::{
    assistant_message_has_meaningful_payload, bsl_diagnostic_to_ui, build_forced_bsl_syntax_tool_call,
    build_initial_chat_status, build_tool_cache_key, custom_prompt_text_requests_bsl_syntax_check,
    custom_prompts_require_bsl_syntax_check, estimate_tokens, extract_latest_user_bsl_blocks,
    is_tool_result_cacheable, prune_tool_context, resolve_context_usage_window,
};
use mini_ai_1c::models::{ApiMessage, Diagnostic, Position, Range, ToolCall, ToolCallFunction};
use mini_ai_1c::profiles::{CustomPromptsSettings, LLMProfile, LLMProvider, PromptTemplate};

fn message(role: &str, content: Option<&str>) -> ApiMessage {
    ApiMessage {
        role: role.to_string(),
        content: content.map(|c| c.to_string()),
        tool_calls: None,
        tool_call_id: None,
        name: None,
    }
}

fn call(id: &str) -> ToolCall {
    ToolCall {
        id: id.to_string(),
        kind: "function".to_string(),
        function: ToolCallFunction { name: "search_code".to_string(), arguments: "{}".to_string() },
    }
}

fn round(id: &str, result: &str) -> Vec<ApiMessage> {
    vec![
        ApiMessage {
            role: "assistant".to_string(),
            content: None,
            tool_calls: Some(vec![call(id)]),
            tool_call_id: None,
            name: None,
        },
        ApiMessage {
            role: "tool".to_string(),
            content: Some(result.to_string()),
            tool_calls: None,
            tool_call_id: Some(id.to_string()),
            name: Some("search_code".to_string()),
        },
    ]
}

fn bsl_template(enabled: bool) -> CustomPromptsSettings {
    CustomPromptsSettings {
        system_prefix: String::new(),
        on_code_change: String::new(),
        on_code_generate: String::new(),
        templates: vec![PromptTemplate {
            id: "bsl-syntax".to_string(),
            name: "Синтаксис 1С".to_string(),
            description: "Контролировать синтаксис 1С".to_string(),
            content: "Перед ответом проверь BSL через check_bsl_syntax.".to_string(),
            enabled,
        }],
    }
}

#[test]
fn cache_key_is_stable_for_equivalent_json_arguments() {
    let left_key = build_tool_cache_key(
        "builtin-1c-metadata",
        "get_metadata_structure",
        r#"{"object":"Заказ","filters":{"includeTables":true,"lang":"ru"}}"#,
    );
    let right_key = build_tool_cache_key(
        "builtin-1c-metadata",
        "get_metadata_structure",
        r#"{"filters":{"lang":"ru","includeTables":true},"object":"Заказ"}"#,
    );

    assert_eq!(left_key, right_key);
}

#[test]
fn cache_key_falls_back_to_trimmed_raw_arguments_when_json_is_invalid() {
    let cache_key =
        build_tool_cache_key("builtin-1c-metadata", "get_metadata_structure", "  {invalid json}  ");

    assert_eq!(cache_key, "builtin-1c-metadata::get_metadata_structure::{invalid json}");
}

#[test]
fn empty_assistant_message_is_not_meaningful_for_history() {
    let message = message("assistant", None);

    assert!(!assistant_message_has_meaningful_payload(&message));
}

#[test]
fn assistant_tool_call_message_is_meaningful_for_history_even_without_content() {
    let message = ApiMessage {
        role: "assistant".to_string(),
        content: None,
        tool_calls: Some(vec![call("call_1")]),
        tool_call_id: None,
        name: None,
    };

    assert!(assistant_message_has_meaningful_payload(&message));
}

#[test]
fn context_usage_window_prefers_profile_max_tokens() {
    let mut profile = LLMProfile::default_profile();
    profile.id = "profile_1".to_string();
    profile.name = "Local model".to_string();
    profile.provider = LLMProvider::Custom;
    profile.model = "gemma".to_string();
    profile.max_tokens = 8_000;
    profile.context_window_override = Some(128_000);

    assert_eq!(resolve_context_usage_window(Some(&profile)), 8_000);
}

#[test]
fn issue_186_detects_enabled_bsl_syntax_rule() {
    assert!(custom_prompts_require_bsl_syntax_check(&bsl_template(true)));
}

#[test]
fn issue_186_ignores_disabled_bsl_syntax_rule() {
    assert!(!custom_prompts_require_bsl_syntax_check(&bsl_template(false)));
}

#[test]
fn issue_186_extracts_bsl_blocks_from_latest_user_message() {
    let messages = vec![
        message("user", Some("```bsl\nПроцедура СтарыйКод()\nКонецПроцедуры\n```")),
        message("assistant", Some("ответ")),
        message("user", Some("```bsl\nПроцедура НовыйКод()\nКонецПроцедуры\n```")),
    ];

    let blocks = extract_latest_user_bsl_blocks(&messages);

    assert_eq!(blocks.len(), 1);
    assert!(blocks[0].contains("НовыйКод"));
    assert!(!blocks[0].contains("СтарыйКод"));
}

#[test]
fn issue_186_builds_forced_check_bsl_syntax_tool_call() {
    let code = "????????? Hello()\n??????????????";
    let (tool_call_id, arguments, tool_call) = build_forced_bsl_syntax_tool_call(0, code);
    let arguments_value: serde_json::Value = serde_json::from_str(&arguments).unwrap();

    assert_eq!(tool_call_id, "auto_check_bsl_syntax_1");
    assert_eq!(tool_call.function.name, "check_bsl_syntax");
    assert_eq!(tool_call.function.arguments, arguments);
    assert_eq!(arguments_value["code"], code);
    assert!(arguments.contains("????????? Hello"));
}

#[test]
fn initial_status_and_cacheable_servers() {
    assert_eq!(build_initial_chat_status(), "Подготавливаю запрос...");
    assert!(is_tool_result_cacheable("builtin-1c-metadata"));
    assert!(!is_tool_result_cacheable("bsl-ls"));
}

#[test]
fn token_estimate_is_a_quarter_of_each_message_bytes() {
    let messages = vec![message("user", Some("abcdefgh")), message("assistant", Some("abc"))];
    assert_eq!(estimate_tokens(&messages), 2);
    let with_call = vec![ApiMessage {
        role: "assistant".to_string(),
        content: None,
        tool_calls: Some(vec![call("c")]),
        tool_call_id: None,
        name: None,
    }];
    // "{}" (2) + "search_code" (11) + 10 = 23 bytes -> 5 tokens
    assert_eq!(estimate_tokens(&with_call), 5);
}

#[test]
fn pruning_drops_oldest_rounds_and_keeps_the_latest() {
    let big = "x".repeat(400);
    let mut messages = vec![message("system", Some("sys")), message("user", Some("q"))];
    messages.extend(round("a", &big));
    messages.extend(round("b", &big));
    messages.extend(round("c", &big));
    messages.push(message("user", Some("next")));

    let mut under_limit = messages.clone();
    prune_tool_context(&mut under_limit, 1_000_000);
    assert_eq!(under_limit.len(), messages.len());

    let mut pruned = messages.clone();
    prune_tool_context(&mut pruned, 250);
    // the oldest round alone is enough to fit
    assert_eq!(pruned.len(), messages.len() - 2);
    assert_eq!(pruned[2].tool_calls.as_ref().unwrap()[0].id, "b");

    let mut hard = messages.clone();
    prune_tool_context(&mut hard, 10);
    // every round but the last removed
    assert_eq!(hard.len(), messages.len() - 4);
    assert_eq!(hard[2].tool_calls.as_ref().unwrap()[0].id, "c");
    assert_eq!(hard.last().unwrap().content.as_deref(), Some("next"));
    // user and system messages are never removed
    assert_eq!(hard.iter().filter(|m| m.role == "user" || m.role == "system").count(), 3);
    assert_eq!(hard[0].role, "system");
    assert_eq!(hard[1].content.as_deref(), Some("q"));
}

#[test]
fn custom_text_requests_bsl_check_ignoring_case() {
    assert!(custom_prompt_text_requests_bsl_syntax_check("Проверь BSL перед ответом"));
    assert!(custom_prompt_text_requests_bsl_syntax_check("Check the SYNTAX with BSL"));
    assert!(!custom_prompt_text_requests_bsl_syntax_check("Пиши кратко"));
}

#[test]
fn lsp_diagnostic_is_converted_for_the_chat() {
    let d = Diagnostic {
        range: Range {
            start: Position { line: 3, character: 7 },
            end: Position { line: 3, character: 9 },
        },
        severity: Some(2),
        message: "Неиспользуемая переменная".to_string(),
        source: None,
    };
    let ui = bsl_diagnostic_to_ui(&d);
    assert_eq!(ui.line, 3);
    assert_eq!(ui.character, 7);
    assert_eq!(ui.severity, "warning");
    assert_eq!(ui.message, "Неиспользуемая переменная");
    let mut e = d.clone();
    e.severity = Some(4);
    assert_eq!(bsl_diagnostic_to_ui(&e).severity, "info");
}
