use mini_ai_1c::models::{StreamDelta, ToolCallDelta, ToolCallFunctionDelta};
use mini_ai_1c::stream::{
    join_answer_segments, normalize_bsl_fences, CodexDecoder, CodexEvent, CodexItem, sse_data_payloads, take_sse_event,
    ChatStreamDecoder, NaparnikChunk, NaparnikDecoder, NaparnikFlow, StreamEvent,
};

fn content(text: &str) -> StreamDelta {
    StreamDelta {
        content: Some(text.to_string()),
        reasoning_content: None,
        tool_calls: None,
    }
}

fn chunks(events: &[StreamEvent]) -> String {
    events
        .iter()
        .filter_map(|e| match e {
            StreamEvent::Chunk(t) => Some(t.as_str()),
            _ => None,
        })
        .collect()
}

fn thinking(events: &[StreamEvent]) -> String {
    events
        .iter()
        .filter_map(|e| match e {
            StreamEvent::Thinking(t) => Some(t.as_str()),
            _ => None,
        })
        .collect()
}

fn run(parts: &[&str], done: bool) -> (Vec<StreamEvent>, mini_ai_1c::models::ApiMessage) {
    let mut d = ChatStreamDecoder::new();
    let mut all = Vec::new();
    for p in parts {
        all.extend(d.on_delta(&content(p)));
    }
    let (msg, rest) = d.finish(done);
    all.extend(rest);
    (all, msg)
}

#[test]
fn sse_events_are_split_at_blank_lines() {
    let mut buf = b"data: {\"a\":1}\n\ndata: [DONE]\n\npartial".to_vec();
    let first = take_sse_event(&mut buf).unwrap();
    assert_eq!(first, b"data: {\"a\":1}\n\n".to_vec());
    assert_eq!(sse_data_payloads(&first), vec!["{\"a\":1}".to_string()]);
    let second = take_sse_event(&mut buf).unwrap();
    assert_eq!(sse_data_payloads(&second), vec!["[DONE]".to_string()]);
    assert!(take_sse_event(&mut buf).is_none());
    assert_eq!(buf, b"partial".to_vec());
    assert_eq!(
        sse_data_payloads(b"event: x\r\ndata:tight\r\n: comment\n\n"),
        vec!["tight".to_string()]
    );
}

#[test]
fn plain_text_is_shown_and_kept() {
    let (events, msg) = run(&["Привет, ", "мир"], true);
    assert_eq!(chunks(&events), "Привет, мир");
    assert_eq!(msg.content.as_deref(), Some("Привет, мир"));
    assert!(msg.tool_calls.is_none());
    assert!(matches!(&events[0], StreamEvent::Status(s) if s == "Выполнение..."));
}

#[test]
fn thinking_tags_are_split_from_the_answer() {
    let (events, msg) = run(&["Ok <thinking>plan here</thinking> done"], true);
    assert_eq!(thinking(&events), "plan here");
    assert_eq!(msg.content.as_deref(), Some("Ok  done"));
    assert!(events
        .iter()
        .any(|e| matches!(e, StreamEvent::Status(s) if s == "Планирование (EN)...")));
}

#[test]
fn opening_tag_split_across_chunks_is_held_back() {
    let (events, msg) = run(&["Ok <thin", "king>plan"], true);
    assert_eq!(chunks(&events), "Ok ");
    assert_eq!(thinking(&events), "plan");
    assert_eq!(msg.content.as_deref(), Some("Ok "));
}

#[test]
fn inline_tool_call_json_becomes_a_tool_call() {
    let (events, msg) = run(
        &[
            "Ищу. <tool_call>{\"name\": \"find_symbol\", \"arguments\": {\"q\": \"НДС\"}}",
            "</tool_call>",
        ],
        true,
    );
    assert_eq!(msg.content.as_deref(), Some("Ищу. "));
    let calls = msg.tool_calls.unwrap();
    assert_eq!(calls.len(), 1);
    assert_eq!(calls[0].id, "tc_xml_0");
    assert_eq!(calls[0].function.name, "find_symbol");
    let args: serde_json::Value = serde_json::from_str(&calls[0].function.arguments).unwrap();
    assert_eq!(args["q"], "НДС");
    assert!(events.iter().any(|e| matches!(
        e,
        StreamEvent::ToolCallStarted { index: 0, id, name } if id == "tc_xml_0" && name == "find_symbol"
    )));
}

#[test]
fn inline_function_block_collects_parameters() {
    let (_events, msg) = run(
        &["<function=search_code><parameter=query> Справочники </parameter><parameter=limit>5</parameter></function>"],
        true,
    );
    let calls = msg.tool_calls.unwrap();
    assert_eq!(calls[0].id, "qwen_fn_0");
    assert_eq!(calls[0].function.name, "search_code");
    let args: serde_json::Value = serde_json::from_str(&calls[0].function.arguments).unwrap();
    assert_eq!(args["query"], "Справочники");
    assert_eq!(args["limit"], "5");
    assert!(msg.content.is_none());
}

#[test]
fn unfinished_inline_call_is_shown_at_the_end() {
    let (events, msg) = run(&["text <tool_call>{\"name\":"], false);
    assert_eq!(msg.content.as_deref(), Some("text <tool_call>{\"name\":"));
    assert_eq!(chunks(&events), "text <tool_call>{\"name\":");
}

#[test]
fn reasoning_content_goes_to_thinking() {
    let mut d = ChatStreamDecoder::new();
    let e1 = d.on_delta(&StreamDelta {
        content: None,
        reasoning_content: Some("hmm".to_string()),
        tool_calls: None,
    });
    assert!(matches!(&e1[0], StreamEvent::Status(s) if s == "Размышляю..."));
    assert_eq!(thinking(&e1), "hmm");
    let e2 = d.on_delta(&content("answer"));
    assert!(matches!(&e2[0], StreamEvent::Status(s) if s == "Выполнение..."));
    assert_eq!(chunks(&e2), "answer");
    let (msg, _) = d.finish(true);
    assert_eq!(msg.content.as_deref(), Some("answer"));
}

fn delta(index: Option<usize>, id: Option<&str>, name: Option<&str>, args: Option<&str>) -> StreamDelta {
    StreamDelta {
        content: None,
        reasoning_content: None,
        tool_calls: Some(vec![ToolCallDelta {
            index,
            id: id.map(|s| s.to_string()),
            kind: None,
            function: Some(ToolCallFunctionDelta {
                name: name.map(|s| s.to_string()),
                arguments: args.map(|s| s.to_string()),
            }),
        }]),
    }
}

#[test]
fn tool_call_deltas_are_merged_and_announced_once() {
    let mut d = ChatStreamDecoder::new();
    let e1 = d.on_delta(&delta(Some(1), Some("call_1"), Some("find"), Some("{\"q\":")));
    assert!(e1.iter().any(|e| matches!(
        e,
        StreamEvent::ToolCallStarted { index: 1, id, name } if id == "call_1" && name == "find"
    )));
    let e2 = d.on_delta(&delta(Some(1), Some("other"), None, Some("1}")));
    assert!(!e2.iter().any(|e| matches!(e, StreamEvent::ToolCallStarted { .. })));
    assert!(e2.iter().any(|e| matches!(
        e,
        StreamEvent::ToolCallProgress { index: 1, arguments } if arguments == "1}"
    )));
    let (msg, _) = d.finish(true);
    let calls = msg.tool_calls.unwrap();
    assert_eq!(calls.len(), 2);
    assert_eq!(calls[0].function.name, "");
    assert_eq!(calls[0].function.arguments, "{}");
    assert_eq!(calls[1].id, "call_1");
    assert_eq!(calls[1].function.arguments, "{\"q\":1}");
}

#[test]
fn invalid_arguments_are_reset_only_when_stream_is_done() {
    let mut d = ChatStreamDecoder::new();
    d.on_delta(&delta(None, Some("c"), Some("f"), Some("{broken")));
    let (msg, _) = d.finish(false);
    assert_eq!(msg.tool_calls.unwrap()[0].function.arguments, "{broken");

    let mut d = ChatStreamDecoder::new();
    d.on_delta(&delta(None, Some("c"), Some("f"), Some("{broken")));
    let (msg, _) = d.finish(true);
    assert_eq!(msg.tool_calls.unwrap()[0].function.arguments, "{}");
}

#[test]
fn stray_closing_tags_are_removed_from_text() {
    let (_events, msg) = run(&["a</tool_call>b and a long tail without tags"], true);
    assert_eq!(msg.content.as_deref(), Some("ab and a long tail without tags"));
}

fn nchunk(role: &str, finished: bool, text: Option<&str>, cumulative: Option<&str>, tools: usize) -> NaparnikChunk {
    NaparnikChunk {
        role: Some(role.to_string()),
        finished,
        reasoning: None,
        text: text.map(|s| s.to_string()),
        cumulative: cumulative.map(|s| s.to_string()),
        tool_call_count: tools,
    }
}

#[test]
fn naparnik_fences_become_bsl() {
    assert_eq!(normalize_bsl_fences("```1С (BSL)\nА\n```"), "```bsl\nА\n```");
    assert_eq!(normalize_bsl_fences("```1C\nA```1c (BSL)"), "```bsl\nA```bsl");
    assert_eq!(normalize_bsl_fences("no fences"), "no fences");
}

#[test]
fn naparnik_answer_is_decoded_into_segments() {
    let mut d = NaparnikDecoder::new(Vec::new());
    let (e, f) = d.on_chunk(&nchunk("user", true, Some("echo"), None, 0));
    assert!(e.is_empty());
    assert_eq!(f, NaparnikFlow::Continue);
    let (e, _) = d.on_chunk(&nchunk("assistant", false, Some("Код: ```1C\n"), None, 0));
    assert_eq!(chunks(&e), "Код: ```bsl\n");
    let (e, _) = d.on_chunk(&nchunk("assistant", false, None, Some("Код: ```1C\nА = 1;"), 0));
    assert_eq!(chunks(&e), "А = 1;");
    let (_, f) = d.on_chunk(&nchunk("assistant", true, None, None, 2));
    assert_eq!(f, NaparnikFlow::ToolRound);
    let segments = d.finish();
    assert_eq!(segments, vec!["Код: ```1C\nА = 1;".to_string()]);

    let mut d2 = NaparnikDecoder::new(segments);
    d2.on_chunk(&nchunk("assistant", false, Some("Итог"), None, 0));
    let (_, f) = d2.on_chunk(&nchunk("assistant", true, None, None, 0));
    assert_eq!(f, NaparnikFlow::Done);
    let all = d2.finish();
    assert_eq!(join_answer_segments(&all), "Код: ```1C\nА = 1;\n\nИтог");
    assert_eq!(
        join_answer_segments(&vec!["a".to_string(), String::new(), "b".to_string()]),
        "a\n\nb"
    );
}

fn cev(kind: &str, delta: Option<&str>, item: Option<CodexItem>, call_id: Option<&str>) -> CodexEvent {
    CodexEvent {
        kind: kind.to_string(),
        delta: delta.map(|s| s.to_string()),
        item,
        call_id: call_id.map(|s| s.to_string()),
    }
}

fn fn_item(call_id: &str, name: &str, arguments: Option<&str>) -> CodexItem {
    CodexItem {
        item_type: Some("function_call".to_string()),
        call_id: Some(call_id.to_string()),
        name: Some(name.to_string()),
        arguments: arguments.map(|s| s.to_string()),
    }
}

#[test]
fn codex_text_decodes_entities_split_across_deltas() {
    let mut d = CodexDecoder::new();
    let mut shown = String::new();
    for part in ["Если A &l", "t;= B И C &g", "t; D"] {
        let (e, done) = d.on_event(&cev("response.output_text.delta", Some(part), None, None));
        assert!(!done);
        shown.push_str(&chunks(&e));
    }
    let (e, done) = d.on_event(&cev("response.completed", None, None, None));
    assert!(done);
    shown.push_str(&chunks(&e));
    assert_eq!(shown, "Если A <= B И C > D");
    let reply = d.into_reply();
    assert_eq!(reply.content.as_deref(), Some("Если A <= B И C > D"));
}

#[test]
fn codex_function_calls_are_announced_and_collected() {
    let mut d = CodexDecoder::new();
    let (e, _) = d.on_event(&cev("response.output_item.added", None, Some(fn_item("c1", "find", None)), None));
    assert!(e.iter().any(|x| matches!(
        x,
        StreamEvent::ToolCallStarted { index: 0, id, name } if id == "c1" && name == "find"
    )));
    let (e, _) = d.on_event(&cev("response.output_item.added", None, Some(fn_item("c1", "find", None)), None));
    assert!(e.is_empty());
    d.on_event(&cev("response.function_call_arguments.delta", Some("{\"q\":"), None, Some("c1")));
    d.on_event(&cev("response.function_call_arguments.delta", Some("1}"), None, Some("c1")));
    d.on_event(&cev("response.function_call_arguments.done", None, None, Some("c1")));
    d.on_event(&cev("response.output_item.added", None, Some(fn_item("c2", "list", None)), None));
    d.on_event(&cev("response.output_item.done", None, Some(fn_item("c2", "list", Some("{}"))), None));
    d.on_event(&cev("response.output_item.added", None, Some(fn_item("c3", "late", None)), None));
    let (_, done) = d.on_event(&cev("response.completed", None, None, None));
    assert!(done);
    let reply = d.into_reply();
    let calls = reply.tool_calls.unwrap();
    let summary: Vec<(String, String, String)> = calls
        .iter()
        .map(|c| (c.id.clone(), c.function.name.clone(), c.function.arguments.clone()))
        .collect();
    assert_eq!(
        summary,
        vec![
            ("c1".to_string(), "find".to_string(), "{\"q\":1}".to_string()),
            ("c2".to_string(), "list".to_string(), "{}".to_string()),
            ("c3".to_string(), "late".to_string(), "{}".to_string()),
        ]
    );
    assert!(reply.content.is_none());
}

#[test]
fn codex_reasoning_goes_to_thinking() {
    let mut d = CodexDecoder::new();
    let (e, _) = d.on_event(&cev("response.reasoning_summary_text.delta", Some("plan"), None, None));
    assert_eq!(thinking(&e), "plan");
    let (e, done) = d.on_event(&cev("response.created", None, None, None));
    assert!(e.is_empty());
    assert!(!done);
}
