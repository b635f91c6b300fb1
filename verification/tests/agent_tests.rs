use mini_ai_1c::agent::{
    api_message_from_frontend, ask_for_text_message, cap_tool_result, find_called_tool,
    history_message, interruption_message, is_meaningful_reply, iteration_limit_message,
    next_agent_step, rejected_tool_results, validation_diagnostics, AgentStep,
    MAX_PARALLEL_TOOL_CALLS,
};
use mini_ai_1c::mcp::McpTool;
use mini_ai_1c::models::{
    ApiMessage, ChatMessage, Diagnostic, FrontendToolCall, FrontendToolCallFunction, Position,
    Range, ToolCall, ToolCallFunction,
};

fn call(id: &str, name: &str) -> ToolCall {
    ToolCall {
        id: id.to_string(),
        kind: "function".to_string(),
        function: ToolCallFunction {
            name: name.to_string(),
            arguments: "{}".to_string(),
        },
    }
}

fn reply(content: Option<&str>, calls: Option<Vec<ToolCall>>) -> ApiMessage {
    ApiMessage {
        role: "assistant".to_string(),
        content: content.map(|s| s.to_string()),
        tool_calls: calls,
        tool_call_id: None,
        name: None,
    }
}

#[test]
fn frontend_messages_drop_empty_content_only_with_tool_calls() {
    let with_calls = api_message_from_frontend(ChatMessage {
        role: "assistant".to_string(),
        content: String::new(),
        tool_calls: Some(vec![FrontendToolCall {
            id: "c1".to_string(),
            kind: "function".to_string(),
            function: FrontendToolCallFunction {
                name: "f".to_string(),
                arguments: "{}".to_string(),
            },
        }]),
        tool_call_id: None,
        name: None,
    });
    assert!(with_calls.content.is_none());
    assert_eq!(with_calls.tool_calls.unwrap()[0].id, "c1");

    let plain = api_message_from_frontend(ChatMessage {
        role: "user".to_string(),
        content: String::new(),
        tool_calls: None,
        tool_call_id: None,
        name: None,
    });
    assert_eq!(plain.content.as_deref(), Some(""));
}

#[test]
fn history_keeps_at_most_five_tool_calls() {
    let calls: Vec<ToolCall> = (0..7).map(|i| call(&format!("c{}", i), "f")).collect();
    let kept = history_message(&reply(None, Some(calls)));
    let ids: Vec<String> = kept.tool_calls.unwrap().into_iter().map(|c| c.id).collect();
    assert_eq!(ids.len(), MAX_PARALLEL_TOOL_CALLS);
    assert_eq!(ids[4], "c4");
    assert!(!is_meaningful_reply(&reply(Some(""), Some(Vec::new()))));
    assert!(is_meaningful_reply(&reply(Some("ok"), None)));
}

#[test]
fn next_step_follows_the_reply() {
    let calls: Vec<ToolCall> = (0..7).map(|i| call(&format!("c{}", i), "f")).collect();
    assert!(matches!(next_agent_step(&reply(None, Some(calls)), false), AgentStep::RunTools(5)));
    assert!(matches!(next_agent_step(&reply(None, None), false), AgentStep::AskForText));
    assert!(matches!(next_agent_step(&reply(Some(""), None), true), AgentStep::GiveUp));
    assert!(matches!(next_agent_step(&reply(Some("Готово."), None), false), AgentStep::Finish));
    match next_agent_step(&reply(Some("Код:\n```bsl\nА = 1;\n```"), None), false) {
        AgentStep::ValidateBsl(blocks) => assert_eq!(blocks, vec!["А = 1;".to_string()]),
        other => panic!("unexpected {:?}", other),
    }
}

#[test]
fn feedback_messages_have_fixed_texts() {
    assert_eq!(
        ask_for_text_message().content.as_deref(),
        Some("Напиши свой ответ текстом.")
    );
    let m = interruption_message("Стоп");
    assert_eq!(m.role, "user");
    assert_eq!(
        m.content.as_deref(),
        Some("[СТОП. ПОЛЬЗОВАТЕЛЬ ПРЕРВАЛ ТЕКУЩУЮ ЗАДАЧУ]\n\nСтоп\n\n[Немедленно прекрати текущую задачу. Ответь пользователю на его сообщение выше.]")
    );
    let rejected = rejected_tool_results(&[call("a", "x"), call("b", "y")]);
    assert_eq!(rejected.len(), 2);
    assert_eq!(rejected[1].tool_call_id.as_deref(), Some("b"));
    assert_eq!(rejected[1].name.as_deref(), Some("y"));
    assert_eq!(rejected[0].content.as_deref(), Some("Error: Action rejected by user"));
    assert_eq!(iteration_limit_message(3, 3), None);
    assert_eq!(
        iteration_limit_message(4, 3).as_deref(),
        Some("\n\n**[Система] Достигнут лимит итераций диалога (3).** Пожалуйста, уточните запрос или продолжите в новом сообщении.")
    );
}

#[test]
fn called_tool_is_found_by_sanitized_name() {
    let tools = vec![
        McpTool {
            name: "get module".to_string(),
            description: String::new(),
            input_schema: "{}".to_string(),
        },
        McpTool {
            name: "find_symbol".to_string(),
            description: String::new(),
            input_schema: "{}".to_string(),
        },
    ];
    assert_eq!(find_called_tool(&tools, "getmodule"), Some(0));
    assert_eq!(find_called_tool(&tools, "find_symbol"), Some(1));
    assert_eq!(find_called_tool(&tools, "missing"), None);
}

#[test]
fn long_tool_results_are_capped() {
    assert_eq!(cap_tool_result("short".to_string()), "short");
    let long = "я".repeat(5000);
    let capped = cap_tool_result(long);
    assert!(capped.ends_with("\n... [результат усечён]"));
    let head = capped.trim_end_matches("\n... [результат усечён]");
    assert_eq!(head.len(), 8000);
}

fn diag(severity: Option<i32>, message: &str) -> Diagnostic {
    Diagnostic {
        range: Range {
            start: Position { line: 2, character: 4 },
            end: Position { line: 2, character: 9 },
        },
        severity,
        message: message.to_string(),
        source: None,
    }
}

#[test]
fn validation_skips_style_noise() {
    let (shown, has_errors) = validation_diagnostics(&[
        diag(Some(2), "Нарушено КАНОНИЧЕСКОЕ написание"),
        diag(Some(1), "Ошибка синтаксиса"),
        diag(Some(3), "Лишний пробел"),
        diag(None, "Missing comments"),
        diag(Some(4), "Hint"),
    ]);
    let rows: Vec<(u32, String, String)> = shown
        .iter()
        .map(|d| (d.line, d.message.clone(), d.severity.clone()))
        .collect();
    assert_eq!(
        rows,
        vec![
            (2, "Ошибка синтаксиса".to_string(), "error".to_string()),
            (2, "Hint".to_string(), "info".to_string()),
        ]
    );
    assert!(has_errors);
    assert!(!validation_diagnostics(&[diag(Some(2), "warn")]).1);
}
