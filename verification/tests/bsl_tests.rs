use mini_ai_1c::bsl::{
    diagnostics_for_panel, extract_server_version_line, is_expected_mcp_probe_status,
    java_runtime_report_item, lsp_severity_label, native_server_report_item,
    parse_java_major_version, path_to_file_uri, resolve_bsl_file_path, uri_to_abs_path,
    uri_to_display_path, bsl_tool_call, definition_context, diagnostics_uri_matches,
    server_request_reply, BslToolCall, handshake_item, http_probe_item, jar_missing_item,
    jar_size_item, jar_size_ok, jar_trial_item, java_missing_item, mcp_endpoint_item, native_runtime_item,
    native_socket_item, native_version_failure_item, port_state_item, version_exit_message,
    ProbeOutcome, bsl_mcp_tools, connect_retry, ConnectFailure,
};
use mini_ai_1c::models::{Diagnostic, Position, Range};

#[test]
fn native_version_diagnostics_omit_runtime_warnings() {
    let output = "version: 1.0.5\nWARNING: A terminally deprecated method was called";

    assert_eq!(extract_server_version_line(output), "version: 1.0.5");
}

#[test]
fn mcp_probe_accepts_only_success_or_missing_session_response() {
    assert!(is_expected_mcp_probe_status(200));
    assert!(is_expected_mcp_probe_status(400));
    assert!(!is_expected_mcp_probe_status(404));
    assert!(!is_expected_mcp_probe_status(500));
}

#[test]
fn version_line_is_found_case_insensitively_or_reported_unknown() {
    assert_eq!(extract_server_version_line("WARN x\r\n  Version: 2.1  \r\n"), "Version: 2.1");
    assert_eq!(extract_server_version_line("no version here"), "version unknown");
    assert_eq!(extract_server_version_line(""), "version unknown");
}

#[test]
fn java_major_version_reads_both_schemes() {
    assert_eq!(parse_java_major_version("openjdk version \"17.0.2\" 2022-01-18\n"), Some(17));
    assert_eq!(parse_java_major_version("java version \"1.8.0_392\"\n"), Some(8));
    assert_eq!(parse_java_major_version("Picked up X\nopenjdk version \"21\" 2023\n"), Some(21));
    assert_eq!(parse_java_major_version("no quotes"), None);
    assert_eq!(parse_java_major_version("version \"abc\""), None);
}

#[test]
fn java_report_item_requires_java_17() {
    let old = java_runtime_report_item("java version \"1.8.0_392\"\nJava(TM) SE");
    assert_eq!(old.status, "error");
    assert_eq!(old.message, "Найдена Java 8, но требуется версия 17 или выше.");
    let ok = java_runtime_report_item("openjdk version \"17.0.2\" 2022-01-18\nmore");
    assert_eq!(ok.status, "ok");
    assert_eq!(ok.message, "Найдена совместимая версия: openjdk version \"17.0.2\" 2022-01-18");
    assert!(ok.suggestion.is_none());
    let unknown = java_runtime_report_item("");
    assert_eq!(unknown.status, "warn");
    assert_eq!(unknown.message, "Java найдена (unknown), но не удалось определить мажорную версию.");
    let native = native_server_report_item("version: 1.0.5 WARNING");
    assert_eq!(native.message, "Нативный сервер успешно запущен: version: 1.0.5 WARNING");
}

#[test]
fn severity_labels_for_the_analysis_panel() {
    assert_eq!(lsp_severity_label(Some(1)), "error");
    assert_eq!(lsp_severity_label(Some(2)), "warning");
    assert_eq!(lsp_severity_label(Some(3)), "info");
    assert_eq!(lsp_severity_label(Some(4)), "hint");
    assert_eq!(lsp_severity_label(None), "hint");
    let d = Diagnostic {
        range: Range { start: Position { line: 1, character: 2 }, end: Position { line: 1, character: 5 } },
        severity: Some(1),
        message: "m".to_string(),
        source: None,
    };
    let panel = diagnostics_for_panel(&[d]);
    assert_eq!(panel.len(), 1);
    assert_eq!((panel[0].line, panel[0].character), (1, 2));
    assert_eq!(panel[0].severity, "error");
}

#[test]
fn document_paths_and_uris() {
    assert_eq!(resolve_bsl_file_path("/abs/Module.bsl", Some("/cfg")), "/abs/Module.bsl");
    assert_eq!(resolve_bsl_file_path("CommonModules/A.bsl", Some("/cfg")), "/cfg/CommonModules/A.bsl");
    assert_eq!(resolve_bsl_file_path("CommonModules/A.bsl", Some("/cfg/")), "/cfg/CommonModules/A.bsl");
    assert_eq!(resolve_bsl_file_path("A.bsl", None), "A.bsl");
    assert_eq!(path_to_file_uri("/tmp/a.bsl"), "file:///tmp/a.bsl");
    assert_eq!(path_to_file_uri("C:\\cfg\\a.bsl"), "file:///C:/cfg/a.bsl");
    assert_eq!(uri_to_abs_path("file:///tmp/a.bsl"), "/tmp/a.bsl");
    assert_eq!(uri_to_display_path("file:///cfg/Mod/a.bsl", Some("/cfg")), "Mod/a.bsl");
    assert_eq!(uri_to_display_path("file:///other/a.bsl", Some("/cfg")), "/other/a.bsl");
    assert_eq!(uri_to_display_path("file:///other/a.bsl", None), "/other/a.bsl");
}

#[test]
fn definition_context_marks_the_definition_line() {
    let lines: Vec<String> = (1..=6).map(|i| format!("line{}", i)).collect();
    let ctx = definition_context(&lines, 3, 1, "Модуль.bsl");
    assert_eq!(ctx, "// Модуль.bsl:3\n     2 | line2\n→    3 | line3\n     4 | line4\n");
}

#[test]
fn definition_context_is_clamped_to_the_file() {
    let lines: Vec<String> = vec!["a".to_string(), "b".to_string()];
    let ctx = definition_context(&lines, 10, 30, "f");
    assert_eq!(ctx, "// f:10\n     1 | a\n     2 | b\n");
    let none: Vec<String> = Vec::new();
    assert_eq!(definition_context(&none, 1, 3, "f"), "// f:1\n");
    let many: Vec<String> = (0..12000).map(|_| "x".to_string()).collect();
    let ctx = definition_context(&many, 10000, 0, "f");
    assert_eq!(ctx, "// f:10000\n→ 10000 | x\n");
}

#[test]
fn bsl_tool_call_reads_arguments() {
    match bsl_tool_call("check_bsl_syntax", r#"{"code":"Процедура А()"}"#).unwrap() {
        BslToolCall::CheckSyntax { code } => assert_eq!(code, "Процедура А()"),
        other => panic!("unexpected {:?}", other),
    }
    assert_eq!(
        bsl_tool_call("check_bsl_syntax", "{}").err(),
        Some("Параметр 'code' обязателен для check_bsl_syntax".to_string())
    );
    match bsl_tool_call("goto_definition", r#"{"file":"CommonModules/A.bsl","line":4,"character":2,"config_root":"/cfg"}"#).unwrap() {
        BslToolCall::GotoDefinition { uri, line, character, config_root } => {
            assert_eq!(uri, "file:///cfg/CommonModules/A.bsl");
            assert_eq!((line, character), (4, 2));
            assert_eq!(config_root.as_deref(), Some("/cfg"));
        }
        other => panic!("unexpected {:?}", other),
    }
    match bsl_tool_call("resolve_definition_context", r#"{"file":"/a.bsl","line":1,"character":0}"#).unwrap() {
        BslToolCall::ResolveDefinitionContext { radius, uri, .. } => {
            assert_eq!(radius, 30);
            assert_eq!(uri, "file:///a.bsl");
        }
        other => panic!("unexpected {:?}", other),
    }
    assert_eq!(
        bsl_tool_call("goto_definition", r#"{"file":"a","line":"1","character":0}"#).err(),
        Some("Параметр 'line' обязателен".to_string())
    );
    assert_eq!(
        bsl_tool_call("format", "{}").err(),
        Some("Неизвестный инструмент BSL: format".to_string())
    );
}

#[test]
fn published_diagnostics_match_by_uri_or_file_name() {
    assert!(diagnostics_uri_matches("file:///mcp_check_syntax.bsl", "file:///mcp_check_syntax.bsl"));
    assert!(diagnostics_uri_matches("file:///C:/mcp_check_syntax.bsl", "file:///mcp_check_syntax.bsl"));
    assert!(!diagnostics_uri_matches("file:///other.bsl", "file:///mcp_check_syntax.bsl"));
}

#[test]
fn server_requests_are_answered() {
    assert!(server_request_reply("workspace/configuration", None).unwrap().contains("\"maxCount\":1"));
    assert_eq!(server_request_reply("client/registerCapability", None), Some("{}".to_string()));
    assert_eq!(server_request_reply("window/logMessage", Some("{}")), None);
    assert_eq!(
        server_request_reply("window/showMessageRequest", Some(r#"{"message":"m","actions":[{"title":"Yes"},{"title":"No"}]}"#)),
        Some(r#"{"title":"Yes"}"#.to_string())
    );
    assert_eq!(
        server_request_reply("window/showMessageRequest", Some(r#"{"message":"m"}"#)),
        Some(r#"{"title":"Да"}"#.to_string())
    );
    assert_eq!(server_request_reply("window/showMessageRequest", None), None);
    assert_eq!(server_request_reply("x/unknown", None), Some("null".to_string()));
}

#[test]
fn native_server_report_items() {
    let i = native_version_failure_item(version_exit_message("exit code: 1"));
    assert_eq!(i.status, "error");
    assert_eq!(i.message, "Команда version завершилась со статусом exit code: 1.");
    assert_eq!(i.suggestion.as_deref(), Some("Переустановите официальный Windows-пакет кнопкой Download."));
    assert_eq!(native_runtime_item().title, "Runtime");
    let ok = native_socket_item(4150, ProbeOutcome::Reached);
    assert_eq!(ok.message, "Соединение с ws://127.0.0.1:4150/lsp установлено.");
    let t = native_socket_item(4150, ProbeOutcome::TimedOut);
    assert_eq!((t.status.as_str(), t.title.as_str()), ("error", "Таймаут LSP WebSocket"));
    let f = native_socket_item(4150, ProbeOutcome::Failed("refused".to_string()));
    assert_eq!((f.status.as_str(), f.message.as_str()), ("warn", "refused"));
}

#[test]
fn mcp_endpoint_item_accepts_missing_session_answer() {
    let i = mcp_endpoint_item(4150, Ok((400, "400 Bad Request".to_string())));
    assert_eq!(i.status, "ok");
    assert_eq!(
        i.message,
        "Endpoint http://127.0.0.1:4150/mcp доступен; запрос без MCP-сессии ожидаемо вернул HTTP 400 Bad Request."
    );
    let w = mcp_endpoint_item(4150, Ok((500, "500 Internal Server Error".to_string())));
    assert_eq!(w.status, "warn");
    assert_eq!(w.message, "Endpoint http://127.0.0.1:4150/mcp вернул HTTP 500 Internal Server Error.");
    assert_eq!(mcp_endpoint_item(1, Err("dns".to_string())).title, "Official MCP недоступен");
}

#[test]
fn java_and_jar_report_items() {
    let j = java_missing_item("java", "not found");
    assert_eq!(j.message, "Ошибка при поиске Java по пути 'java': not found");
    assert_eq!(jar_missing_item("/x.jar").message, "По пути '/x.jar' ничего не найдено.");
    assert_eq!(jar_trial_item(true, "", "").status, "ok");
    assert_eq!(
        jar_trial_item(false, "java.lang.UnsupportedClassVersionError: ...", "exit code: 1").message,
        "Несовместимая версия Java при попытке запуска JAR."
    );
    assert_eq!(jar_trial_item(false, "boom", "exit code: 2").message, "Сервер не запустился (код: exit code: 2).");
}

#[test]
fn port_http_and_handshake_items() {
    assert_eq!(port_state_item(8025, true).status, "warn");
    assert_eq!(port_state_item(8025, false).message, "Порт 8025 занят (сервер запущен).");
    assert_eq!(http_probe_item(Ok(404)).status, "ok");
    assert_eq!(http_probe_item(Ok(204)).status, "ok");
    assert_eq!(http_probe_item(Ok(500)).message, "Сервер ответил с неожиданным статусом: 500.");
    assert_eq!(http_probe_item(Err("reset".to_string())).status, "error");
    assert_eq!(handshake_item(ProbeOutcome::Reached).title, "WebSocket соединение");
    assert_eq!(handshake_item(ProbeOutcome::TimedOut).title, "Таймаут WebSocket");
}

#[test]
fn connection_attempts_stop_after_thirty() {
    assert!(connect_retry(1, ConnectFailure::HandshakeTimeout).is_ok());
    assert!(connect_retry(29, ConnectFailure::Refused("refused".to_string())).is_ok());
    assert_eq!(
        connect_retry(30, ConnectFailure::Refused("refused".to_string())),
        Err("Failed to connect to BSL LS after 30 attempts: refused".to_string())
    );
    assert_eq!(
        connect_retry(30, ConnectFailure::HandshakeTimeout),
        Err("Failed to connect to BSL LS (Handshake Timeout) after 30 attempts".to_string())
    );
}

#[test]
fn bsl_mcp_tool_schemas_are_compact_json_objects() {
    let tools = bsl_mcp_tools();
    let names: Vec<&str> = tools.iter().map(|t| t.name.as_str()).collect();
    assert_eq!(names, vec!["check_bsl_syntax", "goto_definition", "resolve_definition_context"]);
    for t in &tools {
        let v: serde_json::Value = serde_json::from_str(&t.input_schema).unwrap();
        assert_eq!(v.to_string(), t.input_schema);
        assert_eq!(v["type"], "object");
    }
    let ctx: serde_json::Value = serde_json::from_str(&tools[2].input_schema).unwrap();
    assert_eq!(ctx["properties"]["radius"]["default"], 30);
    assert_eq!(ctx["required"].as_array().unwrap().len(), 3);
}

#[test]
fn jar_below_one_mebibyte_is_damaged() {
    assert!(!jar_size_ok(1_048_575));
    assert!(jar_size_ok(1_048_576));
    let damaged = jar_size_item(512_000, "0.49");
    assert_eq!(damaged.status, "error");
    assert_eq!(damaged.title, "JAR файл поврежден");
    assert_eq!(damaged.message, "Файл найден, но его размер (0.49 МБ) слишком мал.");
    assert_eq!(
        damaged.suggestion.as_deref(),
        Some("Удалите файл и нажмите 'Download' в настройках BSL Server.")
    );
    let ready = jar_size_item(52_428_800, "50.0");
    assert_eq!(ready.status, "ok");
    assert_eq!(ready.title, "BSL Server JAR");
    assert_eq!(ready.message, "Файл найден и готов к работе (50.0 МБ).");
    assert!(ready.suggestion.is_none());
}
