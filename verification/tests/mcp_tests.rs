use mini_ai_1c::mcp::{
    clear_mcp_cache, dedupe_tools, estimate_mcp_tool_tokens, estimate_text_tokens,
    fnv_hash_path, normalized_tool_parameters, register_server_tools, resolve_search_index_dir,
    search_index_db_path, search_index_dir_in, servers_for_chat_tools, servers_for_tool_list,
    tool_info_from, unavailable_tool, ChatToolsCache, McpTool, McpToolInfo, ToolListCache,
    INTERNAL_BSL_SERVER_ID, collect_chat_tools,
};
use mini_ai_1c::models::ToolInfo;
use mini_ai_1c::settings::{McpServerConfig, McpTransport};

fn expected_tokens_of(payload: &str) -> u32 {
    let value: serde_json::Value = serde_json::from_str(payload).unwrap();
    let expected_json = serde_json::to_string(&value).unwrap();
    ((expected_json.chars().count() as u32) + 3) / 4
}

#[test]
fn estimate_mcp_tool_tokens_uses_serialized_chat_tool_payload() {
    let tool = McpTool {
        name: "find_symbol".to_string(),
        description: "Find symbol by name".to_string(),
        input_schema: r#"{"type":"object","properties":{"name":{"type":"string"}}}"#.to_string(),
    };
    let expected_tokens = expected_tokens_of(
        r#"{"type":"function","function":{"name":"find_symbol","description":"Find symbol by name","parameters":{"type":"object","properties":{"name":{"type":"string"}}}}}"#,
    );

    assert_eq!(estimate_mcp_tool_tokens(&tool), expected_tokens);
}

#[test]
fn estimate_mcp_tool_tokens_normalizes_non_object_schema() {
    let tool = McpTool {
        name: "ping".to_string(),
        description: "Ping server".to_string(),
        input_schema: "true".to_string(),
    };
    let expected_tokens = expected_tokens_of(
        r#"{"type":"function","function":{"name":"ping","description":"Ping server","parameters":{"type":"object","properties":{}}}}"#,
    );

    assert_eq!(estimate_mcp_tool_tokens(&tool), expected_tokens);
}

#[test]
fn resolve_search_index_dir_uses_custom_setting() {
    let dir = resolve_search_index_dir(r" D:\cfg\erp\search-index ")
        .expect("custom search-index directory should resolve");

    assert_eq!(dir, r"D:\cfg\erp\search-index");
}

#[test]
fn search_index_dir_falls_back_to_data_dir() {
    assert_eq!(
        search_index_dir_in("  ", Some("/home/u/.local/share".to_string())),
        Some("/home/u/.local/share/com.mini-ai-1c/search-index".to_string())
    );
    assert_eq!(search_index_dir_in("", None), None);
}

#[test]
fn text_tokens_round_up_to_quarters() {
    assert_eq!(estimate_text_tokens(""), 0);
    assert_eq!(estimate_text_tokens("a"), 1);
    assert_eq!(estimate_text_tokens("abcd"), 1);
    assert_eq!(estimate_text_tokens("abcde"), 2);
    assert_eq!(estimate_text_tokens("привет"), 2);
}

#[test]
fn tool_parameters_gain_missing_type_and_properties() {
    let p = normalized_tool_parameters(r#"{"required":[]}"#).unwrap();
    let v: serde_json::Value = serde_json::from_str(&p).unwrap();
    assert_eq!(v["type"], "object");
    assert!(v["properties"].is_object());
    assert_eq!(v["required"], serde_json::Value::Array(vec![]));

    let q = normalized_tool_parameters("[1,2]").unwrap();
    let w: serde_json::Value = serde_json::from_str(&q).unwrap();
    assert_eq!(w["type"], "object");
}

#[test]
fn fnv_hash_matches_reference_values() {
    assert_eq!(fnv_hash_path(""), 14695981039346656037);
    let mut expected: u64 = 14695981039346656037;
    for b in "C:\\base".bytes() {
        expected = expected.wrapping_mul(1099511628211);
        expected ^= b as u64;
    }
    assert_eq!(fnv_hash_path("C:\\base"), expected);
}

#[test]
fn index_db_path_uses_hex_hash_or_local_folder() {
    let h = fnv_hash_path("/cfg");
    assert_eq!(
        search_index_db_path("/cfg", Some("/idx".to_string())),
        format!("/idx/{:016x}.db", h)
    );
    assert_eq!(search_index_db_path("/cfg", None), "/cfg/.mcp-index/symbols.db");
}

fn info(server: &str, tool: &str) -> McpToolInfo {
    McpToolInfo {
        server_name: server.to_string(),
        tool_name: tool.to_string(),
        description: None,
        input_schema: None,
        is_enabled: true,
        estimated_tokens: 1,
    }
}

#[test]
fn dedupe_keeps_first_tool_of_each_identity() {
    let r = dedupe_tools(vec![info("a", "x"), info("b", "x"), info("a", "x"), info("a", "y")]);
    let ids: Vec<String> = r
        .iter()
        .map(|t| format!("{}::{}", t.server_name, t.tool_name))
        .collect();
    assert_eq!(ids, vec!["a::x", "b::x", "a::y"]);
}

#[test]
fn unavailable_server_is_listed_disabled() {
    let r = unavailable_tool("srv".to_string(), "down".to_string());
    assert_eq!(r.len(), 1);
    assert_eq!(r[0].tool_name, "__server_unavailable__");
    assert!(!r[0].is_enabled);
    assert_eq!(r[0].description.as_deref(), Some("down"));
}

#[test]
fn tool_info_carries_estimate() {
    let tool = McpTool {
        name: "ping".to_string(),
        description: "Ping server".to_string(),
        input_schema: "true".to_string(),
    };
    let expected = estimate_mcp_tool_tokens(&tool);
    let i = tool_info_from("srv", tool);
    assert_eq!(i.server_name, "srv");
    assert_eq!(i.estimated_tokens, expected);
    assert!(i.is_enabled);
}

fn server(id: &str, enabled: bool) -> McpServerConfig {
    McpServerConfig {
        id: id.to_string(),
        name: id.to_string(),
        enabled,
        transport: McpTransport::Http,
        url: None,
        login: None,
        password: None,
        headers: None,
        command: None,
        args: None,
        env: None,
    }
}

#[test]
fn tool_list_servers_add_builtin_bsl_server() {
    let r = servers_for_tool_list(vec![server("a", true), server("b", false)], true);
    let ids: Vec<&str> = r.iter().map(|s| s.id.as_str()).collect();
    assert_eq!(ids, vec!["a", INTERNAL_BSL_SERVER_ID]);
    let r2 = servers_for_tool_list(vec![server("a", true)], false);
    assert_eq!(r2.len(), 1);
    let r3 = servers_for_chat_tools(vec![server("a", true)], false);
    assert_eq!(r3.len(), 1);
    let r4 = servers_for_chat_tools(vec![server("a", false)], true);
    assert_eq!(r4.len(), 1);
    assert_eq!(r4[0].id, INTERNAL_BSL_SERVER_ID);
}

#[test]
fn register_skips_duplicate_and_empty_names() {
    let mut registered: Vec<ToolInfo> = Vec::new();
    let mut seen: Vec<String> = Vec::new();
    let tools = vec![
        McpTool {
            name: "find symbol".to_string(),
            description: "d".to_string(),
            input_schema: "{}".to_string(),
        },
        McpTool {
            name: "findsymbol".to_string(),
            description: "again".to_string(),
            input_schema: "{}".to_string(),
        },
        McpTool {
            name: "!!".to_string(),
            description: "empty".to_string(),
            input_schema: "{}".to_string(),
        },
    ];
    register_server_tools(&mut registered, &mut seen, "srv", tools);
    assert_eq!(registered.len(), 1);
    assert_eq!(registered[0].tool.function.name, "findsymbol");
    assert_eq!(registered[0].server_id, "srv");
    assert_eq!(seen, vec!["findsymbol".to_string()]);
}

#[test]
fn caches_expire_and_clear() {
    let mut chat = ChatToolsCache::new();
    assert!(chat.fresh_tools(0).is_none());
    chat.store(1_000, Vec::new());
    assert!(chat.fresh_tools(1_000 + 119_999).is_some());
    assert!(chat.fresh_tools(1_000 + 120_000).is_none());
    clear_mcp_cache(&mut chat);
    assert!(chat.fresh_tools(1_000).is_none());

    let mut list = ToolListCache::new();
    list.store("k".to_string(), vec![info("a", "x")], 0);
    assert!(list.lookup("k", 299_999).is_some());
    assert!(list.lookup("k", 300_000).is_none());
    assert!(list.lookup("other", 1).is_none());
}

fn reported_tool(name: &str, schema: &str) -> McpTool {
    McpTool { name: name.to_string(), description: String::new(), input_schema: schema.to_string() }
}

#[test]
fn collected_chat_tools_have_distinct_non_empty_names() {
    let reports = vec![
        (
            "srv-a".to_string(),
            vec![reported_tool("find symbol", "{}"), reported_tool("!!!", "{}"), reported_tool("list", "[]")],
        ),
        ("srv-b".to_string(), vec![reported_tool("findsymbol", "{}"), reported_tool("grep", "{}")]),
    ];
    let tools = collect_chat_tools(reports);
    let names: Vec<(&str, &str)> =
        tools.iter().map(|t| (t.server_id.as_str(), t.tool.function.name.as_str())).collect();
    assert_eq!(names, vec![("srv-a", "findsymbol"), ("srv-a", "list"), ("srv-b", "grep")]);
    assert!(tools.iter().all(|t| !t.tool.function.name.is_empty() && t.tool.kind == "function"));
}
