use mini_ai_1c::models::{ApiMessage, Tool, ToolFunction, ToolInfo};
use mini_ai_1c::naparnik::{
    bridge_tool_request, check_naparnik_token, conversation_from_reply, conversation_messages_url,
    executed_tool_item, local_tool_route, naparnik_request_headers, naparnik_user_instruction,
    plan_naparnik_tool_call, rejected_tool_item, tool_call_arguments, tool_call_display_name,
    tool_call_id, tool_call_name, build_naparnik_tools,
};
use mini_ai_1c::keyed::KeyedStore;
use mini_ai_1c::naparnik::{
    build_naparnik_diff_instruction, build_naparnik_instruction,
    build_naparnik_tool_result_content, clear_naparnik_session, get_session, save_session,
    truncate_tool_result, update_last_uuid, OneCSession, MAX_NAPARNIK_TOOL_RESULT_CHARS,
};

#[test]
fn naparnik_diff_instruction_uses_text_search_replace_when_code_is_loaded() {
    let instruction =
        build_naparnik_instruction("BASE SYSTEM", "Измени текст сообщения", &[], true);

    assert!(instruction.contains("[NAPARNIK TEXT DIFF MODE]"));
    assert!(instruction.contains("<<<<<<< SEARCH"));
    assert!(instruction.contains(">>>>>>> REPLACE"));
    assert!(instruction.contains("must NOT call `apply_diff`"));
    assert!(instruction.contains("Do not wrap SEARCH/REPLACE blocks in Markdown fences"));
    assert!(instruction.contains("do not also include a full modified ```bsl code block"));
    assert!(instruction.contains("BASE SYSTEM"));
    assert!(instruction.contains("Измени текст сообщения"));
}

#[test]
fn naparnik_diff_instruction_disables_diff_without_code_context() {
    let instruction =
        build_naparnik_instruction("BASE SYSTEM", "Напиши новую функцию", &[], false);

    assert!(instruction.contains("No editable source code is loaded"));
    assert!(instruction.contains("Do NOT use SEARCH/REPLACE diff blocks"));
    assert!(instruction.contains("return the complete code in a ```bsl block"));
    assert!(!instruction.contains("exact original complete lines"));
}

#[test]
fn naparnik_tool_result_reinforces_text_diff_after_mcp_when_code_is_loaded() {
    let content = build_naparnik_tool_result_content(
        "mcp__syntax-checker__validate",
        "[]".to_string(),
        true,
    );

    assert!(content.contains("Mini AI 1C MCP tool `mcp__syntax-checker__validate` result"));
    assert!(content.contains("[NAPARNIK TEXT DIFF REMINDER]"));
    assert!(content.contains("SEARCH/REPLACE"));
    assert!(content.contains("Do not return a full modified ```bsl code block"));
}

#[test]
fn naparnik_tool_result_does_not_reinforce_text_diff_without_code_context() {
    let content = build_naparnik_tool_result_content(
        "mcp__syntax-checker__validate",
        "[]".to_string(),
        false,
    );

    assert!(content.contains("Mini AI 1C MCP tool `mcp__syntax-checker__validate` result"));
    assert!(!content.contains("[NAPARNIK TEXT DIFF REMINDER]"));
}

#[test]
fn saved_session_is_found_updated_and_cleared() {
    let mut sessions = KeyedStore::new();
    assert!(get_session(&sessions, "p1").is_none());
    save_session(
        &mut sessions,
        "p1",
        OneCSession { conversation_id: "conv".to_string(), last_message_uuid: None },
    );
    let found = get_session(&sessions, "p1").unwrap();
    assert_eq!(found.conversation_id, "conv");
    assert_eq!(found.last_message_uuid, None);

    update_last_uuid(&mut sessions, "p1", "uuid-2");
    assert_eq!(get_session(&sessions, "p1").unwrap().last_message_uuid.as_deref(), Some("uuid-2"));
    update_last_uuid(&mut sessions, "missing", "uuid-3");
    assert!(get_session(&sessions, "missing").is_none());

    clear_naparnik_session(&mut sessions, "p1");
    assert!(get_session(&sessions, "p1").is_none());
}

#[test]
fn long_tool_results_are_truncated_with_a_note() {
    let short = "ok".to_string();
    assert_eq!(truncate_tool_result(short.clone()), short);
    let long = "я".repeat(MAX_NAPARNIK_TOOL_RESULT_CHARS);
    let cut = truncate_tool_result(long.clone());
    assert!(cut.len() < long.len());
    assert!(cut.starts_with("яя"));
}

#[test]
fn diff_instruction_depends_on_code_context() {
    assert!(build_naparnik_diff_instruction(true).contains("<<<<<<< SEARCH"));
    assert!(build_naparnik_diff_instruction(false).contains("No editable source code"));
}

fn tool_info(name: &str, server: &str) -> ToolInfo {
    ToolInfo {
        tool: Tool {
            kind: "function".to_string(),
            function: ToolFunction {
                name: name.to_string(),
                description: String::new(),
                parameters: "{}".to_string(),
            },
        },
        server_id: server.to_string(),
    }
}

#[test]
fn tool_call_fields_are_read_from_function_or_top_level() {
    let tc = r#"{"id":"c1","function":{"name":"Read","arguments":"{\"tool_name\":\"search\"}"}}"#;
    assert_eq!(tool_call_name(tc), Some("Read".to_string()));
    assert_eq!(tool_call_id(tc), "c1");
    assert_eq!(tool_call_arguments(tc), r#"{"tool_name":"search"}"#);
    let flat = r#"{"name":"X","arguments":{"a":1}}"#;
    assert_eq!(tool_call_name(flat), Some("X".to_string()));
    assert_eq!(tool_call_id(flat), "");
    assert_eq!(tool_call_arguments(flat), r#"{"a":1}"#);
    assert_eq!(tool_call_arguments(r#"{"arguments":"not json"}"#), "{}");
    assert_eq!(tool_call_arguments(r#"{"arguments":[1]}"#), "{}");
    assert_eq!(tool_call_name(r#"{"id":"x"}"#), None);
}

#[test]
fn bridge_request_reads_local_tool_and_arguments() {
    assert_eq!(
        bridge_tool_request(r#"{"tool_name":"search","arguments":"{\"q\":\"x\"}"}"#),
        Some(("search".to_string(), r#"{"q":"x"}"#.to_string()))
    );
    assert_eq!(
        bridge_tool_request(r#"{"tool":"t","args":{"k":true}}"#),
        Some(("t".to_string(), r#"{"k":true}"#.to_string()))
    );
    assert_eq!(bridge_tool_request(r#"{"name":"n"}"#), Some(("n".to_string(), "{}".to_string())));
    assert_eq!(bridge_tool_request(r#"{"tool_name":5,"name":"n"}"#), None);
    assert_eq!(bridge_tool_request("[]"), None);
}

#[test]
fn display_name_shows_the_bridged_tool() {
    let tc = r#"{"function":{"name":"Read","arguments":{"tool_name":"find_symbol"}}}"#;
    assert_eq!(tool_call_display_name(tc), "find_symbol");
    assert_eq!(tool_call_display_name(r#"{"function":{"name":"Write"}}"#), "Write");
    assert_eq!(tool_call_display_name("{}"), "?");
}

#[test]
fn tool_calls_are_routed_to_the_last_server_offering_the_tool() {
    let tools = vec![tool_info("search", "srv-a"), tool_info("search", "srv-b"), tool_info("other", "srv-c")];
    assert_eq!(local_tool_route(&tools, "search"), Some("srv-b".to_string()));
    assert_eq!(local_tool_route(&tools, "missing"), None);

    let tc = r#"{"id":"c7","function":{"name":"Read","arguments":{"tool_name":"search","arguments":{"q":"x"}}}}"#;
    let plan = plan_naparnik_tool_call(tc, &tools);
    assert_eq!(plan.id, "c7");
    assert_eq!(plan.name, "Read");
    assert_eq!(plan.local_name, "search");
    assert_eq!(plan.local_arguments, r#"{"q":"x"}"#);
    assert_eq!(plan.server_id, Some("srv-b".to_string()));

    let item = executed_tool_item(&plan, Err("down".to_string()), false);
    assert_eq!(item.status, "ok");
    assert_eq!(item.tool_call_id, "c7");
    assert_eq!(item.content, "Mini AI 1C MCP tool `search` result:\nError calling local MCP tool 'search': down");

    let unknown = plan_naparnik_tool_call(r#"{"id":"c8","name":"web_search"}"#, &tools);
    assert!(unknown.server_id.is_none());
    let item = rejected_tool_item(&unknown);
    assert_eq!(item.status, "rejected");
    assert_eq!(item.content, "Tool 'web_search' is not available on the Mini AI 1C client side.");
}

#[test]
fn conversation_reply_and_user_instruction() {
    assert_eq!(
        conversation_from_reply(r#"{"uuid":"u1","root_message_uuid":"r1"}"#),
        Ok(("u1".to_string(), Some("r1".to_string())))
    );
    assert_eq!(conversation_from_reply(r#"{"id":1}"#), Err("Naparnik: no uuid in response".to_string()));
    let msg = |role: &str, c: Option<&str>| ApiMessage {
        role: role.to_string(),
        content: c.map(|s| s.to_string()),
        tool_calls: None,
        tool_call_id: None,
        name: None,
    };
    let ms = vec![msg("user", Some("первый")), msg("assistant", Some("ответ")), msg("user", Some("второй"))];
    assert_eq!(naparnik_user_instruction(&ms), Ok("второй".to_string()));
    let ms = vec![msg("user", Some("первый")), msg("user", None)];
    assert_eq!(naparnik_user_instruction(&ms), Err("Naparnik: empty user message".to_string()));
    assert!(check_naparnik_token("").is_err());
    assert!(check_naparnik_token("t").is_ok());
}

#[test]
fn naparnik_headers_carry_token_and_request_kind() {
    let h = naparnik_request_headers("tok", true);
    assert_eq!(h.len(), 6);
    assert_eq!(h[4], ("authorization".to_string(), "tok".to_string()));
    assert_eq!(h[5], ("Session-Id".to_string(), String::new()));
    let h = naparnik_request_headers("bad\ntoken", false);
    assert_eq!(h.len(), 5);
    assert_eq!(h[4], ("accept".to_string(), "text/event-stream".to_string()));
    assert_eq!(
        conversation_messages_url("abc"),
        "https://code.1c.ai/chat_api/v1/conversations/abc/messages"
    );
}

#[test]
fn bridge_tool_lists_local_tool_names() {
    assert!(build_naparnik_tools(&[]).is_empty());
    let tools = vec![tool_info("search \"q\"", "a"), tool_info("find", "b")];
    let out = build_naparnik_tools(&tools);
    assert_eq!(out.len(), 1);
    let v: serde_json::Value = serde_json::from_str(&out[0]).unwrap();
    assert_eq!(v["name"], "Read");
    assert_eq!(v["parameters"]["required"][0], "tool_name");
    let names = v["parameters"]["properties"]["tool_name"]["enum"].as_array().unwrap();
    assert_eq!(names.len(), 2);
    assert_eq!(names[0], "search \"q\"");
    assert_eq!(names[1], "find");
    assert_eq!(v["parameters"]["properties"]["arguments"]["additionalProperties"], true);
    assert_eq!(v.to_string(), out[0]);
}
