use mini_ai_1c::codex::{
    drain_decoded_html_stream, messages_to_codex_payload,
    resolve_codex_model, resolve_codex_stream_timeout_secs, sanitize_codex_tool_name,
    sanitize_tool_name, unescape_html, CodexInputItem, DEFAULT_CODEX_INSTRUCTIONS,
    DEFAULT_CODEX_STREAM_TIMEOUT_SECS, tools_to_codex, normalize_codex_tool_arguments,
};
use mini_ai_1c::models::{ApiMessage, Tool, ToolCall, ToolCallFunction, ToolFunction};
use mini_ai_1c::profiles::{LLMProfile, LLMProvider};

fn message(role: &str, content: Option<&str>) -> ApiMessage {
    ApiMessage {
        role: role.to_string(),
        content: content.map(|c| c.to_string()),
        tool_calls: None,
        tool_call_id: None,
        name: None,
    }
}

#[test]
fn messages_to_codex_payload_promotes_system_messages_to_instructions() {
    let messages = vec![
        message("system", Some("system instructions")),
        message("developer", Some("developer instructions")),
        message("user", Some("user request")),
    ];

    let (instructions, input) = messages_to_codex_payload(&messages);

    assert!(instructions.contains("system instructions"));
    assert!(instructions.contains("developer instructions"));
    assert_eq!(input.len(), 1);
    assert!(matches!(&input[0], CodexInputItem::Message { .. }));

    if let CodexInputItem::Message { role, content } = &input[0] {
        assert_eq!(role, "user");
        assert_eq!(content, "user request");
    }
}

#[test]
fn messages_to_codex_payload_uses_default_instructions_without_system_messages() {
    let messages = vec![message("user", Some("hello"))];

    let (instructions, input) = messages_to_codex_payload(&messages);

    assert_eq!(instructions, DEFAULT_CODEX_INSTRUCTIONS);
    assert_eq!(input.len(), 1);
    assert!(matches!(&input[0], CodexInputItem::Message { .. }));
}

#[test]
fn messages_to_codex_payload_skips_orphan_assistant_tool_calls() {
    let messages = vec![
        message("user", Some("fix it")),
        ApiMessage {
            role: "assistant".to_string(),
            content: None,
            tool_calls: Some(vec![ToolCall {
                id: "call_orphan".to_string(),
                kind: "function".to_string(),
                function: ToolCallFunction {
                    name: "check_bsl_syntax".to_string(),
                    arguments: "{}".to_string(),
                },
            }]),
            tool_call_id: None,
            name: None,
        },
    ];

    let (_, input) = messages_to_codex_payload(&messages);

    assert_eq!(input.len(), 1);
    assert!(matches!(&input[0], CodexInputItem::Message { .. }));
}

#[test]
fn messages_to_codex_payload_keeps_matched_tool_call_pairs() {
    let messages = vec![
        ApiMessage {
            role: "assistant".to_string(),
            content: None,
            tool_calls: Some(vec![ToolCall {
                id: "call_done".to_string(),
                kind: "function".to_string(),
                function: ToolCallFunction {
                    name: "check_bsl_syntax".to_string(),
                    arguments: "{\"code\":\"Сообщить(\\\"ok\\\");\"}".to_string(),
                },
            }]),
            tool_call_id: None,
            name: None,
        },
        ApiMessage {
            role: "tool".to_string(),
            content: Some("{\"ok\":true}".to_string()),
            tool_calls: None,
            tool_call_id: Some("call_done".to_string()),
            name: Some("check_bsl_syntax".to_string()),
        },
    ];

    let (_, input) = messages_to_codex_payload(&messages);

    assert_eq!(input.len(), 2);
    assert!(matches!(&input[0], CodexInputItem::FunctionCall { .. }));
    assert!(matches!(&input[1], CodexInputItem::FunctionCallOutput { .. }));
}

#[test]
fn resolve_codex_stream_timeout_uses_codex_default_when_profile_timeout_missing() {
    assert_eq!(
        resolve_codex_stream_timeout_secs(None),
        DEFAULT_CODEX_STREAM_TIMEOUT_SECS
    );
}

#[test]
fn resolve_codex_stream_timeout_preserves_profile_timeout_when_present() {
    assert_eq!(resolve_codex_stream_timeout_secs(Some(180)), 180);
}

#[test]
fn resolve_codex_model_maps_legacy_aliases_to_default_model() {
    let mut profile = LLMProfile::default_profile();
    profile.provider = LLMProvider::CodexCli;
    profile.model = "codex-mini-latest".to_string();

    assert_eq!(resolve_codex_model(&profile), "gpt-5.5");
}

#[test]
fn drain_decoded_html_stream_decodes_entities_split_across_chunks() {
    let mut buffer = String::new();
    let mut decoded = String::new();

    buffer.push_str("Если A &l");
    decoded.push_str(&drain_decoded_html_stream(&mut buffer, false));
    buffer.push_str("t;= B И C &g");
    decoded.push_str(&drain_decoded_html_stream(&mut buffer, false));
    buffer.push_str("t; D");
    decoded.push_str(&drain_decoded_html_stream(&mut buffer, true));

    assert_eq!(decoded, "Если A <= B И C > D");
    assert!(buffer.is_empty());
}

#[test]
fn unescape_html_decodes_each_known_entity_once() {
    assert_eq!(unescape_html("a &lt; b &amp;&amp; c &gt; d"), "a < b && c > d");
    assert_eq!(unescape_html("&quot;x&quot; &#39;y&#39;"), "\"x\" 'y'");
    assert_eq!(unescape_html("&amp;lt;"), "&lt;");
    assert_eq!(unescape_html("&amp;amp;&lt;"), "&amp;<");
    assert_eq!(unescape_html("a&#x2F;b &#x27;c"), "a/b 'c");
    assert_eq!(unescape_html("no entities"), "no entities");
}

#[test]
fn codex_tool_names_are_sanitized_and_cut_to_sixty_four_chars() {
    assert_eq!(sanitize_tool_name("mcp.search code!"), "mcpsearchcode");
    let long = "a".repeat(70);
    assert_eq!(sanitize_codex_tool_name(&long), "a".repeat(64));
    assert_eq!(sanitize_codex_tool_name("поиск_кода"), "поиск_кода");
    let mixed = format!("a{}", "б".repeat(32));
    assert_eq!(sanitize_codex_tool_name(&mixed), mixed);
    let cyrillic = "б".repeat(70);
    assert_eq!(sanitize_codex_tool_name(&cyrillic).chars().count(), 64);
}

fn tool(name: &str) -> Tool {
    Tool {
        kind: "function".to_string(),
        function: ToolFunction {
            name: name.to_string(),
            description: format!("{} tool", name),
            parameters: "{\"type\":\"object\"}".to_string(),
        },
    }
}

#[test]
fn tools_to_codex_numbers_repeated_names() {
    let long = "x".repeat(70);
    let tools = vec![tool("search code"), tool("search.code"), tool("searchcode"), tool(&long), tool(&long)];
    let out = tools_to_codex(&tools);
    let names: Vec<&str> = out.iter().map(|t| t.name.as_str()).collect();
    assert_eq!(names[0], "searchcode");
    assert_eq!(names[1], "searchcode_1");
    assert_eq!(names[2], "searchcode_2");
    assert_eq!(names[3], "x".repeat(64));
    assert_eq!(names[4], format!("{}_1", "x".repeat(62)));
    assert!(out.iter().all(|t| t.kind == "function"));
    assert_eq!(out[0].description, "search code tool");
    assert_eq!(out[0].parameters, "{\"type\":\"object\"}");
}

#[test]
fn normalize_codex_tool_arguments_decodes_html_entities_inside_json_strings() {
    let raw = r#"{"code":"Пока СтрДлина(Номер) &lt; 9 Цикл","nested":{"text":"A &amp; B"}}"#;

    let normalized = normalize_codex_tool_arguments(raw);
    let parsed: serde_json::Value = serde_json::from_str(&normalized).unwrap();

    assert_eq!(parsed["code"], "Пока СтрДлина(Номер) < 9 Цикл");
    assert_eq!(parsed["nested"]["text"], "A & B");
}

#[test]
fn normalize_codex_tool_arguments_keeps_json_valid_when_decoding_quotes() {
    let raw = r#"{"code":"Сообщить(&quot;ok&quot;);"}"#;

    let normalized = normalize_codex_tool_arguments(raw);
    let parsed: serde_json::Value = serde_json::from_str(&normalized).unwrap();

    assert_eq!(parsed["code"], "Сообщить(\"ok\");");
}

#[test]
fn normalize_codex_tool_arguments_keeps_keys_and_plain_text() {
    assert_eq!(normalize_codex_tool_arguments(r#"{"a&amp;b":"x&amp;lt;y"}"#), r#"{"a&amp;b":"x&lt;y"}"#);
    assert_eq!(normalize_codex_tool_arguments(r#"{"s":"q\"&quot;"}"#), r#"{"s":"q\"\""}"#);
    assert_eq!(normalize_codex_tool_arguments("not json &amp; more"), "not json & more");
    assert_eq!(normalize_codex_tool_arguments(r#"["&gt;",1,{"k":"&#39;"}]"#), r#"[">",1,{"k":"'"}]"#);
}
