//! Chat, tool and language-server data exchanged with providers and the UI.
use vstd::prelude::*;

verus! {

/// One function call requested by the model.
#[derive(Debug, Clone)]
pub struct ToolCallFunction {
    pub name: String,
    pub arguments: String,
}

/// A tool call attached to an assistant message.
#[derive(Debug, Clone)]
pub struct ToolCall {
    pub id: String,
    pub kind: String,
    pub function: ToolCallFunction,
}

/// Chat message for an OpenAI-compatible API.
#[derive(Debug, Clone)]
pub struct ApiMessage {
    pub role: String,
    pub content: Option<String>,
    pub tool_calls: Option<Vec<ToolCall>>,
    pub tool_call_id: Option<String>,
    pub name: Option<String>,
}

impl ToolCall {
    /// A copy of the tool call.
    pub fn duplicate(&self) -> (r: ToolCall)
        ensures
            r == *self,
    {
        ToolCall {
            id: self.id.clone(),
            kind: self.kind.clone(),
            function: ToolCallFunction {
                name: self.function.name.clone(),
                arguments: self.function.arguments.clone(),
            },
        }
    }
}

/// A copy of a list of tool calls.
pub fn duplicate_calls(calls: &Vec<ToolCall>) -> (r: Vec<ToolCall>)
    ensures
        r@ == calls@,
{
    let mut r: Vec<ToolCall> = Vec::new();
    let mut i: usize = 0;
    while i < calls.len()
        invariant
            i <= calls@.len(),
            r@ == calls@.subrange(0, i as int),
        decreases calls.len() - i,
    {
        r.push(calls[i].duplicate());
        i = i + 1;
        assert(r@ =~= calls@.subrange(0, i as int));
    }
    assert(calls@.subrange(0, calls.len() as int) =~= calls@);
    r
}

/// A copy of an optional text.
pub fn duplicate_opt(s: &Option<String>) -> (r: Option<String>)
    ensures
        r == *s,
{
    match s {
        Some(t) => Some(t.clone()),
        None => None,
    }
}

/// View of optional tool calls.
pub open spec fn calls_view(c: Option<Vec<ToolCall>>) -> Option<Seq<ToolCall>> {
    match c {
        Some(v) => Some(v@),
        None => None,
    }
}

/// Two messages agree in every field (tool calls compared by their sequences).
pub open spec fn same_message(a: ApiMessage, b: ApiMessage) -> bool {
    &&& a.role == b.role
    &&& a.content == b.content
    &&& calls_view(a.tool_calls) == calls_view(b.tool_calls)
    &&& a.tool_call_id == b.tool_call_id
    &&& a.name == b.name
}

impl ApiMessage {
    /// A copy of the message.
    pub fn duplicate(&self) -> (r: ApiMessage)
        ensures
            same_message(r, *self),
    {
        ApiMessage {
            role: self.role.clone(),
            content: duplicate_opt(&self.content),
            tool_calls: match &self.tool_calls {
                Some(c) => Some(duplicate_calls(c)),
                None => None,
            },
            tool_call_id: duplicate_opt(&self.tool_call_id),
            name: duplicate_opt(&self.name),
        }
    }

    /// A message with only a role and a text content.
    pub fn text(role: &str, content: &str) -> (m: ApiMessage)
        ensures
            m.role@ == role@,
            m.content matches Some(c) && c@ == content@,
            m.tool_calls is None,
            m.tool_call_id is None,
            m.name is None,
    {
        ApiMessage {
            role: role.to_owned(),
            content: Some(content.to_owned()),
            tool_calls: None,
            tool_call_id: None,
            name: None,
        }
    }
}

/// Function part of a tool definition; `parameters` holds the JSON schema text.
#[derive(Debug, Clone)]
pub struct ToolFunction {
    pub name: String,
    pub description: String,
    pub parameters: String,
}

/// A tool definition offered to the model.
#[derive(Debug, Clone)]
pub struct Tool {
    pub kind: String,
    pub function: ToolFunction,
}

/// A tool together with the MCP server that provides it.
#[derive(Debug, Clone)]
pub struct ToolInfo {
    pub tool: Tool,
    pub server_id: String,
}

impl ToolInfo {
    /// A copy of the tool description.
    pub fn duplicate(&self) -> (r: ToolInfo)
        ensures
            r == *self,
    {
        ToolInfo {
            tool: Tool {
                kind: self.tool.kind.clone(),
                function: ToolFunction {
                    name: self.tool.function.name.clone(),
                    description: self.tool.function.description.clone(),
                    parameters: self.tool.function.parameters.clone(),
                },
            },
            server_id: self.server_id.clone(),
        }
    }
}

/// Streaming chunk of an OpenAI-compatible API.
#[derive(Debug)]
pub struct StreamChunk {
    pub choices: Vec<StreamChoice>,
}

#[derive(Debug)]
pub struct StreamChoice {
    pub delta: StreamDelta,
    pub finish_reason: Option<String>,
}

#[derive(Debug)]
pub struct StreamDelta {
    pub content: Option<String>,
    pub reasoning_content: Option<String>,
    pub tool_calls: Option<Vec<ToolCallDelta>>,
}

#[derive(Debug)]
pub struct ToolCallDelta {
    pub index: Option<usize>,
    pub id: Option<String>,
    pub kind: Option<String>,
    pub function: Option<ToolCallFunctionDelta>,
}

#[derive(Debug)]
pub struct ToolCallFunctionDelta {
    pub name: Option<String>,
    pub arguments: Option<String>,
}

/// Non-streaming response of an OpenAI-compatible API.
#[derive(Debug)]
pub struct NonStreamResponse {
    pub choices: Vec<NonStreamChoice>,
}

#[derive(Debug)]
pub struct NonStreamChoice {
    pub message: NonStreamMessage,
}

#[derive(Debug)]
pub struct NonStreamMessage {
    pub content: Option<String>,
    pub tool_calls: Option<Vec<NonStreamToolCall>>,
}

#[derive(Debug)]
pub struct NonStreamToolCall {
    pub id: String,
    pub kind: String,
    pub function: NonStreamToolCallFunction,
}

#[derive(Debug)]
pub struct NonStreamToolCallFunction {
    pub name: String,
    pub arguments: Option<String>,
}

/// Tool call as sent by the frontend.
#[derive(Debug, Clone)]
pub struct FrontendToolCall {
    pub id: String,
    pub kind: String,
    pub function: FrontendToolCallFunction,
}

#[derive(Debug, Clone)]
pub struct FrontendToolCallFunction {
    pub name: String,
    pub arguments: String,
}

/// Chat message as exchanged with the frontend.
#[derive(Debug, Clone)]
pub struct ChatMessage {
    pub role: String,
    pub content: String,
    pub tool_calls: Option<Vec<FrontendToolCall>>,
    pub tool_call_id: Option<String>,
    pub name: Option<String>,
}

/// LSP position.
#[derive(Debug, Clone, Copy)]
pub struct Position {
    pub line: u32,
    pub character: u32,
}

/// LSP range.
#[derive(Debug, Clone, Copy)]
pub struct Range {
    pub start: Position,
    pub end: Position,
}

/// LSP diagnostic.
#[derive(Debug, Clone)]
pub struct Diagnostic {
    pub range: Range,
    pub severity: Option<i32>,
    pub message: String,
    pub source: Option<String>,
}

/// LSP location.
#[derive(Debug, Clone)]
pub struct Location {
    pub uri: String,
    pub range: Range,
}

/// BSL diagnostic as shown in the UI.
#[derive(Debug, Clone)]
pub struct BSLDiagnostic {
    pub line: u32,
    pub character: u32,
    pub message: String,
    pub severity: String,
}

/// State of the BSL language server as shown in the UI.
#[derive(Debug)]
pub struct BslStatus {
    pub installed: bool,
    pub java_info: String,
    pub connected: bool,
    pub runtime_info: String,
    pub server_version: String,
    pub server_path: String,
    pub workspace_path: String,
    pub active_port: u16,
    pub mcp_available: bool,
}

/// One line of the BSL server diagnosis report.
#[derive(Debug)]
pub struct BslDiagnosticItem {
    pub status: String,
    pub title: String,
    pub message: String,
    pub suggestion: Option<String>,
}

/// A top-level window of the 1C Configurator.
#[derive(Debug, Clone)]
pub struct WindowInfo {
    pub hwnd: isize,
    pub title: String,
    pub process_id: u32,
}

/// Whether generated code can be written straight into the editor, and how.
#[derive(Debug, Clone)]
pub struct EditorApplySupport {
    pub can_apply_directly: bool,
    pub preferred_writer: String,
    pub target_kind: Option<String>,
    pub reason: Option<String>,
}

/// Availability of the editor bridge executable.
#[derive(Debug, Clone, Copy)]
pub struct EditorBridgeStatus {
    pub bridge: bool,
}

/// Enterprise mode state.
#[derive(Debug, Clone)]
pub struct EnterpriseStatus {
    pub enabled: bool,
    pub server_url: String,
}

/// Answer of the enterprise update server.
#[derive(Debug, Clone)]
pub struct UpdateCheckResult {
    pub available: bool,
    pub version: Option<String>,
    pub url: Option<String>,
    pub changelog: Option<String>,
}

/// A skill file found in the skills directory.
#[derive(Debug, Clone)]
pub struct SkillFile {
    pub id: String,
    pub name: String,
    pub description: String,
    pub category: String,
    pub content: String,
}

} // verus!
