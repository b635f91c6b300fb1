//! Decisions of the chat agent loop: how the frontend's messages enter the conversation,
//! what is kept of a reply, what the loop does next, which MCP tool a call names, and how
//! tool results and interruptions are fed back.
use vstd::prelude::*;

use crate::client::{bsl_code_blocks, extract_bsl_code};
use crate::codex::{codex_tool_name, sanitize_codex_tool_name, tool_name_chars};
use crate::ext::{to_lowercase, unicode_lowercase};
use crate::mcp::McpTool;
use crate::models::{
    ApiMessage, BSLDiagnostic, ChatMessage, Diagnostic, FrontendToolCall, ToolCall,
    ToolCallFunction,
};
use crate::naparnik::{is_longest_cut, lemma_longest_prefix_unique, longest_prefix_within};
use crate::text::{
    chars_of, concat3, push_str, seq_contains, slice_chars, str_contains, str_eq, string_of,
    utf8_len, utf8_prefix,
};

verus! {

/// Tool calls of one reply that are executed (and kept in the history).
pub const MAX_PARALLEL_TOOL_CALLS: usize = 5;

/// Estimated tokens above which old tool rounds are pruned before a request.
pub const CONTEXT_PRUNE_THRESHOLD: usize = 7000;

/// Longest tool result, in bytes, put into the conversation.
pub const MAX_TOOL_RESULT_CHARS: usize = 8000;

// ───────────────────────────── messages from the frontend ─────────────────────────────

/// A tool call of the frontend as a tool call of the conversation.
pub open spec fn from_frontend_call(c: FrontendToolCall, t: ToolCall) -> bool {
    t.id == c.id && t.kind == c.kind && t.function.name == c.function.name
        && t.function.arguments == c.function.arguments
}

/// A frontend message in the conversation: the same role, id and name; the tool calls
/// converted; no content when it is empty and tool calls are present.
pub fn api_message_from_frontend(m: ChatMessage) -> (r: ApiMessage)
    ensures
        r.role == m.role,
        r.tool_call_id == m.tool_call_id,
        r.name == m.name,
        match m.tool_calls {
            Some(cs) => r.tool_calls matches Some(ts) && ts@.len() == cs@.len() && forall|i: int|
                0 <= i < cs@.len() ==> from_frontend_call(cs@[i], #[trigger] ts@[i]),
            None => r.tool_calls is None,
        },
        r.content == (if m.content@.len() == 0 && m.tool_calls is Some {
            None
        } else {
            Some(m.content)
        }),
{
    let has_calls = m.tool_calls.is_some();
    let tool_calls = match m.tool_calls {
        Some(cs) => {
            let ghost orig = cs@;
            let mut source = cs;
            let n = source.len();
            let mut out: Vec<ToolCall> = Vec::new();
            let mut i: usize = 0;
            while i < n
                invariant
                    i <= n,
                    n == orig.len(),
                    source@ == orig.subrange(i as int, n as int),
                    out@.len() == i,
                    forall|j: int| 0 <= j < i ==> from_frontend_call(orig[j], #[trigger] out@[j]),
                decreases n - i,
            {
                let c = source.remove(0);
                assert(c == orig[i as int]);
                out.push(
                    ToolCall {
                        id: c.id,
                        kind: c.kind,
                        function: ToolCallFunction {
                            name: c.function.name,
                            arguments: c.function.arguments,
                        },
                    },
                );
                assert(source@ =~= orig.subrange(i + 1, n as int));
                i = i + 1;
            }
            Some(out)
        },
        None => None,
    };
    let content = if m.content.as_str().is_empty() && has_calls {
        None
    } else {
        Some(m.content)
    };
    ApiMessage { role: m.role, content, tool_calls, tool_call_id: m.tool_call_id, name: m.name }
}

// ───────────────────────────── the reply ─────────────────────────────

/// The reply as kept in the history: at most `MAX_PARALLEL_TOOL_CALLS` tool calls.
pub fn history_message(reply: &ApiMessage) -> (r: ApiMessage)
    ensures
        r.role == reply.role,
        r.content == reply.content,
        r.tool_call_id == reply.tool_call_id,
        r.name == reply.name,
        match reply.tool_calls {
            Some(cs) => r.tool_calls matches Some(ts) && ts@ == (if cs@.len() > MAX_PARALLEL_TOOL_CALLS {
                cs@.subrange(0, MAX_PARALLEL_TOOL_CALLS as int)
            } else {
                cs@
            }),
            None => r.tool_calls is None,
        },
{
    let tool_calls = match &reply.tool_calls {
        Some(cs) => {
            let keep = if cs.len() > MAX_PARALLEL_TOOL_CALLS {
                MAX_PARALLEL_TOOL_CALLS
            } else {
                cs.len()
            };
            let mut out: Vec<ToolCall> = Vec::new();
            let mut i: usize = 0;
            while i < keep
                invariant
                    i <= keep <= cs@.len(),
                    out@ == cs@.subrange(0, i as int),
                decreases keep - i,
            {
                out.push(cs[i].duplicate());
                i = i + 1;
                assert(out@ =~= cs@.subrange(0, i as int));
            }
            assert(keep == cs@.len() ==> cs@.subrange(0, keep as int) =~= cs@);
            Some(out)
        },
        None => None,
    };
    ApiMessage {
        role: reply.role.clone(),
        content: crate::models::duplicate_opt(&reply.content),
        tool_calls,
        tool_call_id: crate::models::duplicate_opt(&reply.tool_call_id),
        name: crate::models::duplicate_opt(&reply.name),
    }
}

/// Whether a reply goes into the history: it has some text or some tool call.
pub fn is_meaningful_reply(reply: &ApiMessage) -> (b: bool)
    ensures
        b == ((reply.content matches Some(c) && c@.len() > 0) || (reply.tool_calls matches Some(
            cs,
        ) && cs@.len() > 0)),
{
    let has_text = match &reply.content {
        Some(c) => !c.as_str().is_empty(),
        None => false,
    };
    let has_calls = match &reply.tool_calls {
        Some(cs) => cs.len() > 0,
        None => false,
    };
    has_text || has_calls
}

/// What the agent loop does after a reply.
#[derive(Debug)]
pub enum AgentStep {
    /// Ask the user to approve this many tool calls, then run them.
    RunTools(usize),
    /// The reply had no text: ask the model once for a text answer.
    AskForText,
    /// The model gave no text twice: show the fallback note and stop.
    GiveUp,
    /// Check these BSL blocks of the reply with the language server.
    ValidateBsl(Vec<String>),
    /// The answer is complete.
    Finish,
}

/// The request for a text answer after a reply without text.
pub open spec fn ask_for_text_prompt() -> Seq<char> {
    "Напиши свой ответ текстом."@
}

/// The next step after a reply: tool calls are run (at most `MAX_PARALLEL_TOOL_CALLS`); a
/// reply without text gets one request for text, then the loop gives up; BSL blocks of the
/// text are validated; otherwise the answer is complete.
pub fn next_agent_step(reply: &ApiMessage, asked_for_text: bool) -> (s: AgentStep)
    ensures
        match reply.tool_calls {
            Some(cs) => s is RunTools && s->RunTools_0 == (if cs@.len() > MAX_PARALLEL_TOOL_CALLS {
                MAX_PARALLEL_TOOL_CALLS
            } else {
                cs@.len() as usize
            }),
            None => {
                let text = match reply.content {
                    Some(c) => c@,
                    None => Seq::<char>::empty(),
                };
                if text.len() == 0 {
                    if asked_for_text {
                        s is GiveUp
                    } else {
                        s is AskForText
                    }
                } else if bsl_code_blocks(text).len() > 0 {
                    s matches AgentStep::ValidateBsl(bs) && crate::text::views(bs@) == bsl_code_blocks(text)
                } else {
                    s is Finish
                }
            },
        },
{
    match &reply.tool_calls {
        Some(cs) => {
            let n = if cs.len() > MAX_PARALLEL_TOOL_CALLS {
                MAX_PARALLEL_TOOL_CALLS
            } else {
                cs.len()
            };
            AgentStep::RunTools(n)
        },
        None => {
            let text: &str = match &reply.content {
                Some(c) => c.as_str(),
                None => "",
            };
            proof {
                reveal_strlit("");
                assert(""@ =~= Seq::<char>::empty());
            }
            if text.is_empty() {
                if asked_for_text {
                    AgentStep::GiveUp
                } else {
                    AgentStep::AskForText
                }
            } else {
                let blocks = extract_bsl_code(text);
                if blocks.len() > 0 {
                    AgentStep::ValidateBsl(blocks)
                } else {
                    AgentStep::Finish
                }
            }
        },
    }
}

/// A user message of the conversation.
pub fn user_message(text: String) -> (m: ApiMessage)
    ensures
        m.role@ == "user"@,
        m.content == Some(text),
        m.tool_calls is None,
        m.tool_call_id is None,
        m.name is None,
{
    ApiMessage { role: "user".to_owned(), content: Some(text), tool_calls: None, tool_call_id: None, name: None }
}

/// The message that asks the model for a text answer.
pub fn ask_for_text_message() -> (m: ApiMessage)
    ensures
        m.role@ == "user"@,
        m.content matches Some(t) && t@ == ask_for_text_prompt(),
        m.tool_calls is None,
        m.tool_call_id is None,
        m.name is None,
{
    user_message("Напиши свой ответ текстом.".to_owned())
}

/// A user message sent while the agent works, wrapped so that the model stops its task and
/// answers it.
pub open spec fn interruption_text(text: Seq<char>) -> Seq<char> {
    "[СТОП. ПОЛЬЗОВАТЕЛЬ ПРЕРВАЛ ТЕКУЩУЮ ЗАДАЧУ]\n\n"@ + text
        + "\n\n[Немедленно прекрати текущую задачу. Ответь пользователю на его сообщение выше.]"@
}

/// The conversation message for a user's interruption.
pub fn interruption_message(text: &str) -> (m: ApiMessage)
    ensures
        m.role@ == "user"@,
        m.content matches Some(t) && t@ == interruption_text(text@),
        m.tool_calls is None,
        m.tool_call_id is None,
        m.name is None,
{
    user_message(
        concat3(
            "[СТОП. ПОЛЬЗОВАТЕЛЬ ПРЕРВАЛ ТЕКУЩУЮ ЗАДАЧУ]\n\n",
            text,
            "\n\n[Немедленно прекрати текущую задачу. Ответь пользователю на его сообщение выше.]",
        ),
    )
}

/// The tool result put into the conversation for a call.
pub fn tool_result_message(call: &ToolCall, result: String) -> (m: ApiMessage)
    ensures
        m.role@ == "tool"@,
        m.content == Some(result),
        m.tool_call_id matches Some(id) && id@ == call.id@,
        m.name matches Some(n) && n@ == call.function.name@,
        m.tool_calls is None,
{
    ApiMessage {
        role: "tool".to_owned(),
        content: Some(result),
        tool_call_id: Some(call.id.clone()),
        tool_calls: None,
        name: Some(call.function.name.clone()),
    }
}

/// The answers to tool calls the user rejected: one error result per call, in order.
pub fn rejected_tool_results(calls: &[ToolCall]) -> (r: Vec<ApiMessage>)
    ensures
        r@.len() == calls@.len(),
        forall|i: int|
            0 <= i < r@.len() ==> {
                &&& (#[trigger] r@[i]).role@ == "tool"@
                &&& r@[i].content matches Some(t) && t@ == "Error: Action rejected by user"@
                &&& r@[i].tool_call_id matches Some(id) && id@ == calls@[i].id@
                &&& r@[i].name matches Some(n) && n@ == calls@[i].function.name@
            },
{
    let mut r: Vec<ApiMessage> = Vec::new();
    let mut i: usize = 0;
    while i < calls.len()
        invariant
            i <= calls@.len(),
            r@.len() == i,
            forall|j: int|
                0 <= j < i ==> {
                    &&& (#[trigger] r@[j]).role@ == "tool"@
                    &&& r@[j].content matches Some(t) && t@ == "Error: Action rejected by user"@
                    &&& r@[j].tool_call_id matches Some(id) && id@ == calls@[j].id@
                    &&& r@[j].name matches Some(n) && n@ == calls@[j].function.name@
                },
        decreases calls.len() - i,
    {
        r.push(tool_result_message(&calls[i], "Error: Action rejected by user".to_owned()));
        i = i + 1;
    }
    r
}

// ───────────────────────────── tools ─────────────────────────────

/// The tool of a server that a call names: its sanitised name or its Codex name is the
/// call's name.
pub open spec fn names_tool(t: McpTool, call_name: Seq<char>) -> bool {
    tool_name_chars(t.name@) == call_name || codex_tool_name(t.name@) == call_name
}

/// Index of the first tool of a server that a call names.
pub fn find_called_tool(tools: &[McpTool], call_name: &str) -> (r: Option<usize>)
    ensures
        match r {
            Some(k) => k < tools@.len() && names_tool(tools@[k as int], call_name@) && forall|j: int|
                0 <= j < k ==> !names_tool(#[trigger] tools@[j], call_name@),
            None => forall|j: int| 0 <= j < tools@.len() ==> !names_tool(#[trigger] tools@[j], call_name@),
        },
{
    let mut i: usize = 0;
    while i < tools.len()
        invariant
            i <= tools@.len(),
            forall|j: int| 0 <= j < i ==> !names_tool(#[trigger] tools@[j], call_name@),
        decreases tools.len() - i,
    {
        let name = tools[i].name.as_str();
        let plain = crate::codex::sanitize_tool_name(name);
        let matched = if str_eq(plain.as_str(), call_name) {
            true
        } else {
            let c = sanitize_codex_tool_name(name);
            str_eq(c.as_str(), call_name)
        };
        if matched {
            return Some(i);
        }
        i = i + 1;
    }
    None
}

/// A tool result cut to at most 8000 bytes at a char boundary, with a note when cut.
pub open spec fn capped_tool_result(result: Seq<char>) -> Seq<char> {
    if utf8_len(result) <= MAX_TOOL_RESULT_CHARS {
        result
    } else {
        longest_prefix_within(result, MAX_TOOL_RESULT_CHARS as nat) + "\n... [результат усечён]"@
    }
}

/// Cuts a large tool result so that it does not flood the conversation.
pub fn cap_tool_result(result: String) -> (r: String)
    ensures
        r@ == capped_tool_result(result@),
{
    let v = chars_of(result.as_str());
    let (k, _bytes) = utf8_prefix(&v, MAX_TOOL_RESULT_CHARS);
    if k == v.len() {
        assert(v@.subrange(0, k as int) =~= v@);
        return result;
    }
    proof {
        lemma_longest_prefix_unique(v@, MAX_TOOL_RESULT_CHARS as nat, k as int);
        assert(v@.subrange(0, v.len() as int) =~= v@);
        if k + 1 < v.len() {
            crate::codex::lemma_utf8_len_strict(v@, k + 1, v.len() as int);
        }
    }
    let mut r = string_of(&slice_chars(&v, 0, k));
    push_str(&mut r, "\n... [результат усечён]");
    r
}

// ───────────────────────────── BSL validation ─────────────────────────────

/// Diagnostics about formatting that the agent ignores: canonical spelling, spaces and
/// comments.
pub open spec fn is_style_noise(lower_message: Seq<char>) -> bool {
    seq_contains(lower_message, "каноническ"@) || seq_contains(lower_message, "пробел"@)
        || seq_contains(lower_message, "canonical"@) || seq_contains(lower_message, "comments"@)
}

/// Severity label in the agent's validation result.
pub open spec fn validation_severity(s: Option<i32>) -> Seq<char> {
    match s {
        Some(1) => "error"@,
        Some(2) => "warning"@,
        _ => "info"@,
    }
}

/// The diagnostics shown after validating the agent's code: formatting noise left out,
/// start position, message and severity label kept, in order.
pub open spec fn shown_diagnostics(ds: Seq<Diagnostic>) -> Seq<(u32, u32, Seq<char>, Seq<char>)>
    decreases ds.len(),
{
    if ds.len() == 0 {
        Seq::empty()
    } else {
        let d = ds.last();
        let r = shown_diagnostics(ds.drop_last());
        if is_style_noise(unicode_lowercase(d.message@)) {
            r
        } else {
            r.push((d.range.start.line, d.range.start.character, d.message@, validation_severity(d.severity)))
        }
    }
}

/// The text form of validation diagnostics.
pub open spec fn diagnostic_rows(ds: Seq<BSLDiagnostic>) -> Seq<(u32, u32, Seq<char>, Seq<char>)> {
    ds.map_values(|d: BSLDiagnostic| (d.line, d.character, d.message@, d.severity@))
}

/// The diagnostics of a validated block as the chat shows them, and whether the block has
/// errors (severity 1).
pub fn validation_diagnostics(diagnostics: &[Diagnostic]) -> (r: (Vec<BSLDiagnostic>, bool))
    ensures
        diagnostic_rows(r.0@) == shown_diagnostics(diagnostics@),
        r.1 == exists|i: int| 0 <= i < diagnostics@.len() && (#[trigger] diagnostics@[i]).severity == Some(1i32),
{
    let mut shown: Vec<BSLDiagnostic> = Vec::new();
    let mut has_errors = false;
    let mut i: usize = 0;
    while i < diagnostics.len()
        invariant
            i <= diagnostics@.len(),
            diagnostic_rows(shown@) == shown_diagnostics(diagnostics@.subrange(0, i as int)),
            has_errors == exists|j: int| 0 <= j < i && (#[trigger] diagnostics@[j]).severity == Some(1i32),
        decreases diagnostics.len() - i,
    {
        let d = &diagnostics[i];
        assert(diagnostics@.subrange(0, i + 1).drop_last() =~= diagnostics@.subrange(0, i as int));
        assert(diagnostics@.subrange(0, i + 1).last() == diagnostics@[i as int]);
        let lower = to_lowercase(d.message.as_str());
        let noise = str_contains(lower.as_str(), "каноническ") || str_contains(lower.as_str(), "пробел")
            || str_contains(lower.as_str(), "canonical") || str_contains(lower.as_str(), "comments");
        if !noise {
            let severity = match d.severity {
                Some(1) => "error".to_owned(),
                Some(2) => "warning".to_owned(),
                _ => "info".to_owned(),
            };
            let ghost before = diagnostic_rows(shown@);
            let row = BSLDiagnostic {
                line: d.range.start.line,
                character: d.range.start.character,
                message: d.message.clone(),
                severity,
            };
            shown.push(row);
            assert(diagnostic_rows(shown@) =~= before.push(
                (row.line, row.character, row.message@, row.severity@),
            ));
        }
        if d.severity == Some(1i32) {
            has_errors = true;
        }
        i = i + 1;
    }
    assert(diagnostics@.subrange(0, diagnostics@.len() as int) =~= diagnostics@);
    (shown, has_errors)
}

/// The note shown when the iteration limit stops the agent.
pub open spec fn iteration_limit_note(max: u32) -> Seq<char> {
    "\n\n**[Система] Достигнут лимит итераций диалога ("@ + crate::text::decimal(max as nat)
        + ").** Пожалуйста, уточните запрос или продолжите в новом сообщении."@
}

/// The iteration limit note, when the iteration `current` exceeds the limit.
pub fn iteration_limit_message(current: u32, max: u32) -> (r: Option<String>)
    ensures
        match r {
            Some(t) => current > max && t@ == iteration_limit_note(max),
            None => current <= max,
        },
{
    if current <= max {
        return None;
    }
    let n = crate::text::u64_to_decimal(max as u64);
    Some(concat3("\n\n**[Система] Достигнут лимит итераций диалога (", n.as_str(), ").** Пожалуйста, уточните запрос или продолжите в новом сообщении."))
}

} // verus!
