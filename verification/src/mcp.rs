//! MCP tool discovery: which servers are asked for tools, how their tools are registered for
//! the chat, the caches of tool lists, token estimates shown in the tool list, and where the
//! configuration search index lives.
use vstd::prelude::*;
use vstd::utf8::encode_utf8;

use crate::bsl::{join_path, join_paths};
use crate::codex::{sanitize_tool_name, tool_name_chars};
use crate::ext::{
    json_inserted, json_object_has_key, json_object_key_present, json_quoted, json_string_literal,
    json_with_field,
};
use crate::installer::{hex_of, lower_hex};
use crate::models::{Tool, ToolFunction, ToolInfo};
use crate::settings::{McpServerConfig, McpTransport};
use crate::text::{chars_of, concat2, str_eq, string_of, trim, trim_str, views};

verus! {

/// Id of the built-in BSL language server in the MCP server list.
pub const INTERNAL_BSL_SERVER_ID: &'static str = "bsl-ls";

/// Seconds a listed set of tools stays valid for the tool list.
pub const MCP_TOOLS_CACHE_TTL_SECS: u64 = 300;

/// Seconds the tools collected for a chat request stay valid.
pub const CHAT_TOOLS_CACHE_TTL_SECS: u64 = 120;

/// A tool as an MCP server describes it; the input schema is JSON text.
#[derive(Debug, Clone)]
pub struct McpTool {
    pub name: String,
    pub description: String,
    pub input_schema: String,
}

/// A tool as the tool list shows it.
#[derive(Debug, Clone)]
pub struct McpToolInfo {
    pub server_name: String,
    pub tool_name: String,
    pub description: Option<String>,
    pub input_schema: Option<String>,
    pub is_enabled: bool,
    pub estimated_tokens: u32,
}

// ───────────────────────────── token estimates ─────────────────────────────

/// Tokens of a text: a quarter of its chars, rounded up (0 for the empty text). The count is
/// taken in 32 bits and the rounding addition wraps there, as `count as u32 + 3` does in a
/// release build; only texts of more than 2^32 - 4 chars are affected.
pub open spec fn text_tokens(text: Seq<char>) -> int {
    if text.len() == 0 {
        0
    } else {
        ((((text.len() % 0x1_0000_0000) + 3) % 0x1_0000_0000) / 4) as int
    }
}

/// Estimated tokens of a text.
pub fn estimate_text_tokens(text: &str) -> (n: u32)
    ensures
        n == text_tokens(text@),
{
    let v = chars_of(text);
    let n: usize = v.len();
    if n == 0 {
        0
    } else {
        let n64: u64 = n as u64;
        let m: u32 = n64 as u32;
        assert((n64 as u32) == n64 % 0x1_0000_0000) by (bit_vector);
        let sum: u64 = (m as u64 + 3) % 0x1_0000_0000;
        (sum / 4) as u32
    }
}

/// The tool parameters a chat request may carry: a JSON object with `type` and
/// `properties` (added when missing, `object` and `{}`); anything that is not an object
/// becomes `{"type":"object","properties":{}}`.
pub open spec fn chat_parameters(schema: Seq<char>) -> Option<Seq<char>> {
    match json_object_has_key(schema, "type"@) {
        None => empty_object_schema(),
        Some(has_type) => {
            let with_type = if has_type {
                Some(schema)
            } else {
                json_inserted(schema, "type"@, json_quoted("object"@))
            };
            match with_type {
                None => None,
                Some(t) => match json_object_has_key(t, "properties"@) {
                    Some(false) => json_inserted(t, "properties"@, "{}"@),
                    _ => Some(t),
                },
            }
        },
    }
}

/// `{"type":"object","properties":{}}`, built field by field.
pub open spec fn empty_object_schema() -> Option<Seq<char>> {
    match json_inserted("{}"@, "type"@, json_quoted("object"@)) {
        Some(t) => json_inserted(t, "properties"@, "{}"@),
        None => None,
    }
}

fn build_empty_object_schema() -> (r: Option<String>)
    ensures
        r matches Some(t) ==> empty_object_schema() == Some(t@),
        r is None ==> empty_object_schema() is None,
{
    let object = json_string_literal("object");
    match json_with_field("{}", "type", object.as_str()) {
        Some(t) => json_with_field(t.as_str(), "properties", "{}"),
        None => None,
    }
}

/// Normalises a tool's input schema into chat tool parameters.
pub fn normalized_tool_parameters(input_schema: &str) -> (r: Option<String>)
    ensures
        r matches Some(t) ==> chat_parameters(input_schema@) == Some(t@),
        r is None ==> chat_parameters(input_schema@) is None,
{
    match json_object_key_present(input_schema, "type") {
        None => build_empty_object_schema(),
        Some(has_type) => {
            let with_type = if has_type {
                Some(input_schema.to_owned())
            } else {
                let object = json_string_literal("object");
                json_with_field(input_schema, "type", object.as_str())
            };
            match with_type {
                None => None,
                Some(t) => match json_object_key_present(t.as_str(), "properties") {
                    Some(false) => json_with_field(t.as_str(), "properties", "{}"),
                    _ => Some(t),
                },
            }
        },
    }
}

/// JSON text of a tool as a chat request lists it:
/// `{"type":"function","function":{"name":…,"description":…,"parameters":…}}`.
pub open spec fn chat_tool_payload(name: Seq<char>, description: Seq<char>, schema: Seq<char>) -> Option<
    Seq<char>,
> {
    match chat_parameters(schema) {
        None => None,
        Some(params) => match json_inserted("{}"@, "name"@, json_quoted(name)) {
            None => None,
            Some(f1) => match json_inserted(f1, "description"@, json_quoted(description)) {
                None => None,
                Some(f2) => match json_inserted(f2, "parameters"@, params) {
                    None => None,
                    Some(f3) => match json_inserted("{}"@, "type"@, json_quoted("function"@)) {
                        None => None,
                        Some(p1) => json_inserted(p1, "function"@, f3),
                    },
                },
            },
        },
    }
}

fn build_chat_tool_payload(name: &str, description: &str, schema: &str) -> (r: Option<String>)
    ensures
        r matches Some(t) ==> chat_tool_payload(name@, description@, schema@) == Some(t@),
        r is None ==> chat_tool_payload(name@, description@, schema@) is None,
{
    let params = match normalized_tool_parameters(schema) {
        Some(p) => p,
        None => return None,
    };
    let qn = json_string_literal(name);
    let f1 = match json_with_field("{}", "name", qn.as_str()) {
        Some(t) => t,
        None => return None,
    };
    let qd = json_string_literal(description);
    let f2 = match json_with_field(f1.as_str(), "description", qd.as_str()) {
        Some(t) => t,
        None => return None,
    };
    let f3 = match json_with_field(f2.as_str(), "parameters", params.as_str()) {
        Some(t) => t,
        None => return None,
    };
    let qf = json_string_literal("function");
    let p1 = match json_with_field("{}", "type", qf.as_str()) {
        Some(t) => t,
        None => return None,
    };
    json_with_field(p1.as_str(), "function", f3.as_str())
}

/// Tokens a tool adds to a chat request: those of its payload, 0 when its sanitised name is
/// empty or the payload cannot be built.
pub open spec fn tool_tokens(tool: McpTool) -> int {
    let name = tool_name_chars(tool.name@);
    if name.len() == 0 {
        0
    } else {
        match chat_tool_payload(name, tool.description@, tool.input_schema@) {
            Some(p) => text_tokens(p),
            None => 0,
        }
    }
}

/// Estimated tokens a tool adds to a chat request.
pub fn estimate_mcp_tool_tokens(tool: &McpTool) -> (n: u32)
    ensures
        n == tool_tokens(*tool),
{
    let name = sanitize_tool_name(tool.name.as_str());
    if name.as_str().is_empty() {
        return 0;
    }
    match build_chat_tool_payload(name.as_str(), tool.description.as_str(), tool.input_schema.as_str()) {
        Some(p) => estimate_text_tokens(p.as_str()),
        None => 0,
    }
}

// ───────────────────────────── tool list ─────────────────────────────

/// The single entry shown for a server whose tools could not be listed.
pub fn unavailable_tool(server_name: String, message: String) -> (r: Vec<McpToolInfo>)
    ensures
        r@.len() == 1,
        r@[0].server_name == server_name,
        r@[0].tool_name@ == "__server_unavailable__"@,
        r@[0].description == Some(message),
        r@[0].input_schema is None,
        !r@[0].is_enabled,
        r@[0].estimated_tokens == 0,
{
    let mut r: Vec<McpToolInfo> = Vec::new();
    r.push(
        McpToolInfo {
            server_name,
            tool_name: "__server_unavailable__".to_owned(),
            description: Some(message),
            input_schema: None,
            is_enabled: false,
            estimated_tokens: 0,
        },
    );
    r
}

/// Identity of a listed tool: `server::tool`.
pub open spec fn tool_identity(t: McpToolInfo) -> Seq<char> {
    t.server_name@ + "::"@ + t.tool_name@
}

/// Keeps the first tool of each identity, in order.
pub open spec fn first_of_each_identity(tools: Seq<McpToolInfo>) -> Seq<McpToolInfo>
    decreases tools.len(),
{
    if tools.len() == 0 {
        Seq::empty()
    } else {
        let r = first_of_each_identity(tools.drop_last());
        if exists|j: int| 0 <= j < tools.len() - 1 && tool_identity(#[trigger] tools[j]) == tool_identity(tools.last()) {
            r
        } else {
            r.push(tools.last())
        }
    }
}

/// Drops tools whose `server::tool` identity was already listed.
pub fn dedupe_tools(tools: Vec<McpToolInfo>) -> (r: Vec<McpToolInfo>)
    ensures
        r@ == first_of_each_identity(tools@),
{
    let ghost orig = tools@;
    let mut source = tools;
    let n = source.len();
    let mut seen: Vec<String> = Vec::new();
    let mut out: Vec<McpToolInfo> = Vec::new();
    let mut i: usize = 0;
    while i < n
        invariant
            i <= n,
            n == orig.len(),
            source@ == orig.subrange(i as int, n as int),
            seen@.len() == i,
            forall|j: int| 0 <= j < i ==> (#[trigger] seen@[j])@ == tool_identity(orig[j]),
            out@ == first_of_each_identity(orig.subrange(0, i as int)),
        decreases n - i,
    {
        let t = source.remove(0);
        let mut id = concat2(t.server_name.as_str(), "::");
        crate::text::push_str(&mut id, t.tool_name.as_str());
        let ghost pre = orig.subrange(0, i + 1);
        assert(pre.drop_last() =~= orig.subrange(0, i as int));
        assert(pre.last() == t);
        let mut k: usize = 0;
        let mut dup = false;
        while k < seen.len()
            invariant
                k <= seen@.len(),
                seen@.len() == i,
                i < n,
                n == orig.len(),
                pre == orig.subrange(0, i + 1),
                forall|j: int| 0 <= j < i ==> (#[trigger] seen@[j])@ == tool_identity(orig[j]),
                dup == exists|j: int| 0 <= j < k && tool_identity(#[trigger] pre[j]) == id@,
            decreases seen.len() - k,
        {
            assert(pre[k as int] == orig[k as int]);
            if str_eq(seen[k].as_str(), id.as_str()) {
                dup = true;
            }
            k = k + 1;
        }
        assert(dup == exists|j: int| 0 <= j < pre.len() - 1 && tool_identity(#[trigger] pre[j]) == tool_identity(pre.last()));
        if !dup {
            out.push(t);
        }
        seen.push(id);
        assert(source@ =~= orig.subrange(i + 1, n as int));
        i = i + 1;
    }
    assert(orig.subrange(0, n as int) =~= orig);
    out
}

/// The entry of the tool list for a tool a server reported.
pub fn tool_info_from(server_name: &str, tool: McpTool) -> (r: McpToolInfo)
    ensures
        r.server_name@ == server_name@,
        r.estimated_tokens == tool_tokens(tool),
        r.tool_name == tool.name,
        r.description == Some(tool.description),
        r.input_schema == Some(tool.input_schema),
        r.is_enabled,
{
    let estimated_tokens = estimate_mcp_tool_tokens(&tool);
    McpToolInfo {
        server_name: server_name.to_owned(),
        estimated_tokens,
        tool_name: tool.name,
        description: Some(tool.description),
        input_schema: Some(tool.input_schema),
        is_enabled: true,
    }
}

/// The entry that stands for the built-in BSL language server.
pub fn internal_bsl_server(enabled: bool) -> (c: McpServerConfig)
    ensures
        c.id@ == INTERNAL_BSL_SERVER_ID@,
        c.name@ == "BSL Language Server"@,
        c.enabled == enabled,
        c.transport == McpTransport::Internal,
        c.url is None && c.login is None && c.password is None && c.headers is None,
        c.command is None && c.args is None && c.env is None,
{
    McpServerConfig {
        id: INTERNAL_BSL_SERVER_ID.to_owned(),
        name: "BSL Language Server".to_owned(),
        enabled,
        transport: McpTransport::Internal,
        url: None,
        login: None,
        password: None,
        headers: None,
        command: None,
        args: None,
        env: None,
    }
}

fn has_server_id(servers: &Vec<McpServerConfig>, id: &str) -> (b: bool)
    ensures
        b == exists|j: int| 0 <= j < servers@.len() && (#[trigger] servers@[j]).id@ == id@,
{
    let mut i: usize = 0;
    while i < servers.len()
        invariant
            i <= servers@.len(),
            forall|j: int| 0 <= j < i ==> (#[trigger] servers@[j]).id@ != id@,
        decreases servers.len() - i,
    {
        if str_eq(servers[i].id.as_str(), id) {
            return true;
        }
        i = i + 1;
    }
    false
}

/// The enabled servers of a list, in order.
pub open spec fn enabled_servers(s: Seq<McpServerConfig>) -> Seq<McpServerConfig>
    decreases s.len(),
{
    if s.len() == 0 {
        Seq::empty()
    } else if s.last().enabled {
        enabled_servers(s.drop_last()).push(s.last())
    } else {
        enabled_servers(s.drop_last())
    }
}

fn keep_enabled(servers: Vec<McpServerConfig>) -> (r: Vec<McpServerConfig>)
    ensures
        r@ == enabled_servers(servers@),
{
    let ghost orig = servers@;
    let mut source = servers;
    let n = source.len();
    let mut out: Vec<McpServerConfig> = Vec::new();
    let mut i: usize = 0;
    while i < n
        invariant
            i <= n,
            n == orig.len(),
            source@ == orig.subrange(i as int, n as int),
            out@ == enabled_servers(orig.subrange(0, i as int)),
        decreases n - i,
    {
        let c = source.remove(0);
        let ghost pre = orig.subrange(0, i + 1);
        assert(pre.drop_last() =~= orig.subrange(0, i as int));
        assert(pre.last() == c);
        if c.enabled {
            out.push(c);
        }
        assert(source@ =~= orig.subrange(i + 1, n as int));
        i = i + 1;
    }
    assert(orig.subrange(0, n as int) =~= orig);
    out
}

/// Servers asked for the tool list: the enabled ones, then the built-in BSL server when it
/// is enabled and not listed among them.
pub fn servers_for_tool_list(servers: Vec<McpServerConfig>, bsl_enabled: bool) -> (r: Vec<
    McpServerConfig,
>)
    ensures
        ({
            let e = enabled_servers(servers@);
            if bsl_enabled && !exists|j: int| 0 <= j < e.len() && (#[trigger] e[j]).id@ == INTERNAL_BSL_SERVER_ID@ {
                r@.len() == e.len() + 1 && r@.subrange(0, e.len() as int) == e && r@[e.len() as int].id@
                    == INTERNAL_BSL_SERVER_ID@ && r@[e.len() as int].enabled
                    && r@[e.len() as int].transport == McpTransport::Internal
            } else {
                r@ == e
            }
        }),
{
    let mut configs = keep_enabled(servers);
    let ghost e = configs@;
    if bsl_enabled && !has_server_id(&configs, INTERNAL_BSL_SERVER_ID) {
        configs.push(internal_bsl_server(true));
        assert(configs@.subrange(0, e.len() as int) =~= e);
    }
    configs
}

/// Servers asked for the tools of a chat request: all configured servers, plus the built-in
/// BSL server (enabled as configured) when not listed, keeping the enabled ones.
pub fn servers_for_chat_tools(servers: Vec<McpServerConfig>, bsl_enabled: bool) -> (r: Vec<
    McpServerConfig,
>)
    ensures
        if exists|j: int| 0 <= j < servers@.len() && (#[trigger] servers@[j]).id@ == INTERNAL_BSL_SERVER_ID@ {
            r@ == enabled_servers(servers@)
        } else if bsl_enabled {
            r@.len() == enabled_servers(servers@).len() + 1 && r@.subrange(
                0,
                enabled_servers(servers@).len() as int,
            ) == enabled_servers(servers@) && r@.last().id@ == INTERNAL_BSL_SERVER_ID@
                && r@.last().transport == McpTransport::Internal
        } else {
            r@ == enabled_servers(servers@)
        },
{
    let ghost orig = servers@;
    let mut all = servers;
    if !has_server_id(&all, INTERNAL_BSL_SERVER_ID) {
        all.push(internal_bsl_server(bsl_enabled));
        assert(orig.push(all@.last()).drop_last() =~= orig);
    }
    keep_enabled(all)
}

// ───────────────────────────── chat tools ─────────────────────────────

/// A chat tool registered from an MCP tool: sanitised name, description, chat parameters.
pub open spec fn registered_tool(server_id: Seq<char>, t: McpTool, info: ToolInfo) -> bool {
    &&& info.server_id@ == server_id
    &&& info.tool.kind@ == "function"@
    &&& info.tool.function.name@ == tool_name_chars(t.name@)
    &&& info.tool.function.description == t.description
    &&& chat_parameters(t.input_schema@) == Some(info.tool.function.parameters@)
}

/// `info` was registered from one of `tools`.
pub open spec fn from_some_tool(server_id: Seq<char>, tools: Seq<McpTool>, info: ToolInfo) -> bool {
    exists|j: int| 0 <= j < tools.len() && registered_tool(server_id, tools[j], info)
}

/// Every chat tool from index `from` on was registered from one of `tools`.
pub open spec fn registered_from(server_id: Seq<char>, tools: Seq<McpTool>, from: int, reg: Seq<ToolInfo>) -> bool {
    forall|k: int| from <= k < reg.len() ==> from_some_tool(server_id, tools, #[trigger] reg[k])
}

/// A chat tool as plain text: server id, kind, name, description and parameters.
pub type ToolInfoView = (Seq<char>, Seq<char>, Seq<char>, Seq<char>, Seq<char>);

/// The text of a chat tool.
pub open spec fn info_view(info: ToolInfo) -> ToolInfoView {
    (
        info.server_id@,
        info.tool.kind@,
        info.tool.function.name@,
        info.tool.function.description@,
        info.tool.function.parameters@,
    )
}

/// The texts of a list of chat tools.
pub open spec fn info_views(infos: Seq<ToolInfo>) -> Seq<ToolInfoView> {
    infos.map_values(|i: ToolInfo| info_view(i))
}

/// A reported tool is registered when its sanitised name is not empty and not taken yet and
/// its parameters normalise.
pub open spec fn accepted_tool(t: McpTool, seen: Seq<Seq<char>>) -> bool {
    &&& tool_name_chars(t.name@).len() > 0
    &&& !seen.contains(tool_name_chars(t.name@))
    &&& chat_parameters(t.input_schema@) is Some
}

/// The chat tool registered for a reported tool.
pub open spec fn registration(server_id: Seq<char>, t: McpTool) -> ToolInfoView {
    (
        server_id,
        "function"@,
        tool_name_chars(t.name@),
        t.description@,
        match chat_parameters(t.input_schema@) {
            Some(p) => p,
            None => Seq::empty(),
        },
    )
}

/// The chat tools registered for the reported tools from index `i` on, in order, with the
/// names in `seen` already taken.
pub open spec fn registrations(server_id: Seq<char>, tools: Seq<McpTool>, i: int, seen: Seq<Seq<char>>) -> Seq<
    ToolInfoView,
>
    decreases tools.len() - i,
{
    if i < 0 || i >= tools.len() {
        Seq::empty()
    } else if accepted_tool(tools[i], seen) {
        seq![registration(server_id, tools[i])] + registrations(
            server_id,
            tools,
            i + 1,
            seen.push(tool_name_chars(tools[i].name@)),
        )
    } else {
        registrations(server_id, tools, i + 1, seen)
    }
}

/// The taken names after registering the reported tools from index `i` on.
pub open spec fn names_after(tools: Seq<McpTool>, i: int, seen: Seq<Seq<char>>) -> Seq<Seq<char>>
    decreases tools.len() - i,
{
    if i < 0 || i >= tools.len() {
        seen
    } else if accepted_tool(tools[i], seen) {
        names_after(tools, i + 1, seen.push(tool_name_chars(tools[i].name@)))
    } else {
        names_after(tools, i + 1, seen)
    }
}

/// Registers the tools a server reported for chat requests, in order: a tool whose name is
/// empty after sanitising, or whose name is already taken, is skipped; so is one whose
/// parameters cannot be normalised.
pub fn register_server_tools(
    registered: &mut Vec<ToolInfo>,
    seen_names: &mut Vec<String>,
    server_id: &str,
    tools: Vec<McpTool>,
)
    ensures
        final(registered)@.len() >= old(registered)@.len(),
        final(registered)@.subrange(0, old(registered)@.len() as int) == old(registered)@,
        final(seen_names)@.subrange(0, old(seen_names)@.len() as int) == old(seen_names)@,
        final(registered)@.len() - old(registered)@.len() == final(seen_names)@.len() - old(
            seen_names,
        )@.len(),
        info_views(final(registered)@) == info_views(old(registered)@) + registrations(
            server_id@,
            tools@,
            0,
            views(old(seen_names)@),
        ),
        views(final(seen_names)@) == names_after(tools@, 0, views(old(seen_names)@)),
        registered_from(server_id@, tools@, old(registered)@.len() as int, final(registered)@),
        forall|k: int|
            old(registered)@.len() <= k < final(registered)@.len() ==> (#[trigger] final(registered)@[k]).tool.function.name@.len()
                > 0,
        forall|k: int|
            old(seen_names)@.len() <= k < final(seen_names)@.len() ==> (#[trigger] final(seen_names)@[k])@
                == final(registered)@[k - old(seen_names)@.len() + old(registered)@.len()].tool.function.name@,
        forall|j: int|
            0 <= j < tools@.len() && tool_name_chars((#[trigger] tools@[j]).name@).len() > 0
                && chat_parameters(tools@[j].input_schema@) is Some ==> exists|k: int|
                0 <= k < final(seen_names)@.len() && final(seen_names)@[k]@ == tool_name_chars(tools@[j].name@),
        forall|a: int, b: int|
            old(seen_names)@.len() <= a < b < final(seen_names)@.len() ==> final(seen_names)@[a]@
                != final(seen_names)@[b]@,
        forall|a: int, b: int|
            0 <= a < old(seen_names)@.len() <= b < final(seen_names)@.len() ==> final(seen_names)@[a]@
                != final(seen_names)@[b]@,
{
    let ghost reg0 = registered@;
    let ghost seen0 = seen_names@;
    let ghost ts = tools@;
    let mut source = tools;
    let n = source.len();
    let mut i: usize = 0;
    while i < n
        invariant
            i <= n,
            n == ts.len(),
            source@ == ts.subrange(i as int, n as int),
            registered@.len() >= reg0.len(),
            registered@.subrange(0, reg0.len() as int) == reg0,
            seen_names@.len() >= seen0.len(),
            seen_names@.subrange(0, seen0.len() as int) == seen0,
            registered@.len() - reg0.len() == seen_names@.len() - seen0.len(),
            info_views(registered@) + registrations(server_id@, ts, i as int, views(seen_names@))
                == info_views(reg0) + registrations(server_id@, ts, 0, views(seen0)),
            names_after(ts, i as int, views(seen_names@)) == names_after(ts, 0, views(seen0)),
            registered_from(server_id@, ts, reg0.len() as int, registered@),
            forall|k: int|
                reg0.len() <= k < registered@.len() ==> (#[trigger] registered@[k]).tool.function.name@.len() > 0,
            forall|k: int|
                seen0.len() <= k < seen_names@.len() ==> (#[trigger] seen_names@[k])@
                    == registered@[k - seen0.len() + reg0.len()].tool.function.name@,
            forall|j: int|
                0 <= j < i && tool_name_chars((#[trigger] ts[j]).name@).len() > 0 && chat_parameters(
                    ts[j].input_schema@,
                ) is Some ==> exists|k: int|
                    0 <= k < seen_names@.len() && seen_names@[k]@ == tool_name_chars(ts[j].name@),
            forall|a: int, b: int|
                seen0.len() <= a < b < seen_names@.len() ==> seen_names@[a]@ != seen_names@[b]@,
            forall|a: int, b: int|
                0 <= a < seen0.len() <= b < seen_names@.len() ==> seen_names@[a]@ != seen_names@[b]@,
        decreases n - i,
    {
        let t = source.remove(0);
        assert(t == ts[i as int]);
        assert(source@ =~= ts.subrange(i + 1, n as int));
        let name = sanitize_tool_name(t.name.as_str());
        let ghost r_start = registered@;
        let ghost s_start = seen_names@;
        if !name.as_str().is_empty() {
            let mut k: usize = 0;
            let mut taken = false;
            while k < seen_names.len()
                invariant
                    k <= seen_names@.len(),
                    taken == exists|q: int| 0 <= q < k && (#[trigger] seen_names@[q])@ == name@,
                decreases seen_names.len() - k,
            {
                if str_eq(seen_names[k].as_str(), name.as_str()) {
                    taken = true;
                }
                k = k + 1;
            }
            if !taken {
                match normalized_tool_parameters(t.input_schema.as_str()) {
                    Some(parameters) => {
                        let ghost r_before = registered@;
                        let ghost s_before = seen_names@;
                        let info = ToolInfo {
                            server_id: server_id.to_owned(),
                            tool: Tool {
                                kind: "function".to_owned(),
                                function: ToolFunction {
                                    name: name.clone(),
                                    description: t.description,
                                    parameters,
                                },
                            },
                        };
                        assert(registered_tool(server_id@, ts[i as int], info));
                        assert(info.tool.function.name@.len() > 0);
                        registered.push(info);
                        seen_names.push(name);
                        assert(registered@.subrange(0, reg0.len() as int) =~= r_before.subrange(0, reg0.len() as int));
                        assert(seen_names@.subrange(0, seen0.len() as int) =~= s_before.subrange(0, seen0.len() as int));
                        assert forall|k: int| reg0.len() <= k < registered@.len() implies (#[trigger] registered@[k]).tool.function.name@.len() > 0 by {
                            if k < registered@.len() - 1 {
                                assert(registered@[k] == r_before[k]);
                            }
                        }
                        assert forall|k: int| reg0.len() <= k < registered@.len() implies from_some_tool(
                            server_id@, ts, #[trigger] registered@[k]) by {
                            if k < registered@.len() - 1 {
                                assert(registered@[k] == r_before[k]);
                            } else {
                                assert(registered_tool(server_id@, ts[i as int], registered@[k]));
                            }
                        }
                        assert forall|k: int| seen0.len() <= k < seen_names@.len() implies (#[trigger] seen_names@[k])@
                            == registered@[k - seen0.len() + reg0.len()].tool.function.name@ by {
                            if k < seen_names@.len() - 1 {
                                assert(seen_names@[k] == s_before[k]);
                                assert(registered@[k - seen0.len() + reg0.len()] == r_before[k - seen0.len() + reg0.len()]);
                            }
                        }
                        assert forall|j: int|
                            0 <= j < i + 1 && tool_name_chars((#[trigger] ts[j]).name@).len() > 0 && chat_parameters(
                                ts[j].input_schema@,
                            ) is Some implies exists|q: int|
                                0 <= q < seen_names@.len() && seen_names@[q]@ == tool_name_chars(ts[j].name@) by {
                            if j < i {
                                let q = choose|q: int| 0 <= q < s_before.len() && s_before[q]@ == tool_name_chars(ts[j].name@);
                                assert(seen_names@[q] == s_before[q]);
                            } else {
                                assert(seen_names@[seen_names@.len() - 1]@ == tool_name_chars(ts[j].name@));
                            }
                        }
                        assert forall|a: int, b: int|
                            0 <= a < b < seen_names@.len() && b == seen_names@.len() - 1 implies seen_names@[a]@ != seen_names@[b]@ by {
                            assert(seen_names@[a] == s_before[a]);
                        }
                        proof {
                            assert(!views(s_before).contains(name@)) by {
                                if views(s_before).contains(name@) {
                                    let q = choose|q: int| 0 <= q < views(s_before).len() && views(s_before)[q] == name@;
                                    assert(s_before[q]@ == name@);
                                }
                            }
                            assert(accepted_tool(ts[i as int], views(s_before)));
                            assert(info_view(info) == registration(server_id@, ts[i as int]));
                            assert(info_views(registered@) =~= info_views(r_before).push(info_view(info)));
                            assert(views(seen_names@) =~= views(s_before).push(name@));
                            let rest = registrations(server_id@, ts, i + 1, views(seen_names@));
                            assert(info_views(r_before) + (seq![registration(server_id@, ts[i as int])] + rest)
                                =~= info_views(registered@) + rest);
                        }
                    },
                    None => {
                        proof {
                            assert(!accepted_tool(ts[i as int], views(seen_names@)));
                        }
                    },
                }
            } else {
                proof {
                    let q = choose|q: int| 0 <= q < seen_names@.len() && (#[trigger] seen_names@[q])@ == name@;
                    assert(views(seen_names@)[q] == name@);
                    assert(!accepted_tool(ts[i as int], views(seen_names@)));
                }
                assert forall|j: int|
                    0 <= j < i + 1 && tool_name_chars((#[trigger] ts[j]).name@).len() > 0 && chat_parameters(
                        ts[j].input_schema@,
                    ) is Some implies exists|q: int|
                        0 <= q < seen_names@.len() && seen_names@[q]@ == tool_name_chars(ts[j].name@) by {
                    if j == i {
                        let q = choose|q: int| 0 <= q < seen_names@.len() && (#[trigger] seen_names@[q])@ == name@;
                    }
                }
            }
        } else {
            proof {
                assert(!accepted_tool(ts[i as int], views(seen_names@)));
            }
        }
        i = i + 1;
    }
}

/// `info` was registered from the tools that one of the servers reported.
pub open spec fn from_reported(reports: Seq<(String, Vec<McpTool>)>, info: ToolInfo) -> bool {
    exists|j: int|
        0 <= j < reports.len() && (#[trigger] reports[j]).0@ == info.server_id@ && from_some_tool(
            reports[j].0@,
            reports[j].1@,
            info,
        )
}

/// The chat tools registered for the reports from index `j` on, in order, with the names in
/// `seen` already taken: each server's tools as `register_server_tools` registers them.
pub open spec fn collected(reports: Seq<(String, Vec<McpTool>)>, j: int, seen: Seq<Seq<char>>) -> Seq<
    ToolInfoView,
>
    decreases reports.len() - j,
{
    if j < 0 || j >= reports.len() {
        Seq::empty()
    } else {
        registrations(reports[j].0@, reports[j].1@, 0, seen) + collected(
            reports,
            j + 1,
            names_after(reports[j].1@, 0, seen),
        )
    }
}

/// The chat tools from what the asked servers reported (server id and tools, in the order
/// the servers were asked): each server's tools registered in turn as `register_server_tools`
/// does, with the names taken by earlier servers, so that every tool has a non-empty sanitised
/// name, no name occurs twice, and every tool comes from its server's report.
pub fn collect_chat_tools(reports: Vec<(String, Vec<McpTool>)>) -> (r: Vec<ToolInfo>)
    ensures
        info_views(r@) == collected(reports@, 0, Seq::empty()),
        forall|k: int| 0 <= k < r@.len() ==> (#[trigger] r@[k]).tool.function.name@.len() > 0,
        forall|a: int, b: int|
            0 <= a < b < r@.len() ==> (#[trigger] r@[a]).tool.function.name@ != (#[trigger] r@[b]).tool.function.name@,
        forall|k: int| 0 <= k < r@.len() ==> from_reported(reports@, #[trigger] r@[k]),
{
    let ghost rs = reports@;
    let mut source = reports;
    let n = source.len();
    let mut registered: Vec<ToolInfo> = Vec::new();
    let mut seen: Vec<String> = Vec::new();
    let mut i: usize = 0;
    proof {
        assert(info_views(registered@) =~= Seq::empty());
        assert(views(seen@) =~= Seq::empty());
        assert(info_views(registered@) + collected(rs, 0, views(seen@)) =~= collected(rs, 0, Seq::empty()));
    }
    while i < n
        invariant
            i <= n,
            n == rs.len(),
            source@ == rs.subrange(i as int, n as int),
            seen@.len() == registered@.len(),
            forall|k: int| 0 <= k < seen@.len() ==> (#[trigger] seen@[k])@ == registered@[k].tool.function.name@,
            forall|a: int, b: int| 0 <= a < b < seen@.len() ==> seen@[a]@ != seen@[b]@,
            forall|k: int| 0 <= k < registered@.len() ==> (#[trigger] registered@[k]).tool.function.name@.len() > 0,
            forall|k: int| 0 <= k < registered@.len() ==> from_reported(rs, #[trigger] registered@[k]),
            info_views(registered@) + collected(rs, i as int, views(seen@)) == collected(rs, 0, Seq::empty()),
        decreases n - i,
    {
        let (server_id, tools) = source.remove(0);
        assert((server_id, tools) == rs[i as int]);
        assert(source@ =~= rs.subrange(i + 1, n as int));
        let ghost r0 = registered@;
        let ghost s0 = seen@;
        register_server_tools(&mut registered, &mut seen, server_id.as_str(), tools);
        proof {
            let later = collected(rs, i + 1, views(seen@));
            assert(info_views(r0) + (registrations(server_id@, rs[i as int].1@, 0, views(s0)) + later)
                =~= info_views(registered@) + later);
        }
        assert forall|k: int| 0 <= k < seen@.len() implies (#[trigger] seen@[k])@ == registered@[k].tool.function.name@ by {
            if k < s0.len() {
                assert(seen@[k] == seen@.subrange(0, s0.len() as int)[k]);
                assert(registered@[k] == registered@.subrange(0, r0.len() as int)[k]);
            }
        }
        assert forall|a: int, b: int| 0 <= a < b < seen@.len() implies seen@[a]@ != seen@[b]@ by {
            if b < s0.len() {
                assert(seen@[a] == seen@.subrange(0, s0.len() as int)[a]);
                assert(seen@[b] == seen@.subrange(0, s0.len() as int)[b]);
            }
        }
        assert forall|k: int| 0 <= k < registered@.len() implies (#[trigger] registered@[k]).tool.function.name@.len() > 0
            && from_reported(rs, registered@[k]) by {
            if k < r0.len() {
                assert(registered@[k] == registered@.subrange(0, r0.len() as int)[k]);
            } else {
                assert(from_some_tool(server_id@, rs[i as int].1@, registered@[k]));
                assert(rs[i as int].0@ == registered@[k].server_id@);
            }
        }
        i = i + 1;
    }
    assert forall|a: int, b: int| 0 <= a < b < registered@.len() implies (#[trigger] registered@[a]).tool.function.name@
        != (#[trigger] registered@[b]).tool.function.name@ by {
        assert(seen@[a]@ == registered@[a].tool.function.name@);
        assert(seen@[b]@ == registered@[b].tool.function.name@);
    }
    proof {
        assert(info_views(registered@) + collected(rs, n as int, views(seen@)) =~= info_views(registered@));
    }
    registered
}

// ───────────────────────────── caches ─────────────────────────────

/// The tools collected for chat requests and when (milliseconds on a monotonic clock).
pub struct ChatToolsCache {
    pub entry: Option<(u64, Vec<ToolInfo>)>,
}

impl ChatToolsCache {
    /// Nothing cached.
    pub fn new() -> (c: Self)
        ensures
            c.entry is None,
    {
        ChatToolsCache { entry: None }
    }

    /// The cached tools when they were collected less than two minutes before `now_ms`.
    pub fn fresh_tools(&self, now_ms: u64) -> (r: Option<&Vec<ToolInfo>>)
        ensures
            match self.entry {
                Some((t, tools)) => if now_ms >= t && (now_ms - t) / 1000 < CHAT_TOOLS_CACHE_TTL_SECS {
                    r == Some(&tools)
                } else {
                    r is None
                },
                None => r is None,
            },
    {
        match &self.entry {
            Some((t, tools)) => {
                if now_ms >= *t && (now_ms - *t) / 1000 < CHAT_TOOLS_CACHE_TTL_SECS {
                    Some(tools)
                } else {
                    None
                }
            },
            None => None,
        }
    }

    /// Remembers the tools collected at `now_ms`.
    pub fn store(&mut self, now_ms: u64, tools: Vec<ToolInfo>)
        ensures
            final(self).entry == Some((now_ms, tools)),
    {
        self.entry = Some((now_ms, tools));
    }
}

/// Forgets the cached chat tools, so that the next chat request asks the servers again.
pub fn clear_mcp_cache(cache: &mut ChatToolsCache)
    ensures
        final(cache).entry is None,
{
    cache.entry = None;
}

/// The tool list last built, the key of the server configuration it was built for, and when
/// (milliseconds on a monotonic clock).
pub struct ToolListCache {
    pub entry: Option<(String, Vec<McpToolInfo>, u64)>,
}

impl ToolListCache {
    /// Nothing cached.
    pub fn new() -> (c: Self)
        ensures
            c.entry is None,
    {
        ToolListCache { entry: None }
    }

    /// The cached list when it was built for the same configuration key less than five
    /// minutes before `now_ms`.
    pub fn lookup(&self, key: &str, now_ms: u64) -> (r: Option<&Vec<McpToolInfo>>)
        ensures
            match self.entry {
                Some((k, tools, t)) => if k@ == key@ && now_ms >= t && (now_ms - t) / 1000
                    < MCP_TOOLS_CACHE_TTL_SECS {
                    r == Some(&tools)
                } else {
                    r is None
                },
                None => r is None,
            },
    {
        match &self.entry {
            Some((k, tools, t)) => {
                if str_eq(k.as_str(), key) && now_ms >= *t && (now_ms - *t) / 1000
                    < MCP_TOOLS_CACHE_TTL_SECS {
                    Some(tools)
                } else {
                    None
                }
            },
            None => None,
        }
    }

    /// Remembers the list built for `key` at `now_ms`.
    pub fn store(&mut self, key: String, tools: Vec<McpToolInfo>, now_ms: u64)
        ensures
            final(self).entry == Some((key, tools, now_ms)),
    {
        self.entry = Some((key, tools, now_ms));
    }
}

// ───────────────────────────── search index ─────────────────────────────

/// FNV-1 over bytes: for each byte, multiply by the FNV prime (wrapping) and xor the byte.
pub open spec fn fnv1(bytes: Seq<u8>) -> u64
    decreases bytes.len(),
{
    if bytes.len() == 0 {
        14695981039346656037u64
    } else {
        (((fnv1(bytes.drop_last()) as int * 1099511628211) % 0x1_0000_0000_0000_0000) as u64)
            ^ (bytes.last() as u64)
    }
}

/// FNV-1 hash of a path's UTF-8 bytes, as the search server names its index files.
pub fn fnv_hash_path(s: &str) -> (h: u64)
    ensures
        h == fnv1(encode_utf8(s@)),
{
    let bytes = s.as_bytes();
    let mut hash: u64 = 14695981039346656037;
    let mut i: usize = 0;
    while i < bytes.len()
        invariant
            i <= bytes@.len(),
            bytes@ == encode_utf8(s@),
            hash == fnv1(bytes@.subrange(0, i as int)),
        decreases bytes.len() - i,
    {
        let ghost pre = bytes@.subrange(0, i + 1);
        assert(pre.drop_last() =~= bytes@.subrange(0, i as int));
        hash = hash.wrapping_mul(1099511628211);
        hash = hash ^ (bytes[i] as u64);
        i = i + 1;
    }
    assert(bytes@.subrange(0, bytes@.len() as int) =~= bytes@);
    hash
}

/// The user's data directory (`dirs::data_dir`). It depends on the platform and the
/// environment, so nothing is promised of it.
#[verifier::external_body]
fn user_data_dir() -> (r: Option<String>) {
    dirs::data_dir().map(|p| p.to_string_lossy().into_owned())
}

/// Index directory: the configured one (trimmed) when set, else `com.mini-ai-1c/search-index`
/// under the user's data directory when there is one.
pub open spec fn index_dir(configured: Seq<char>, data_dir: Option<Seq<char>>) -> Option<Seq<char>> {
    if trim(configured).len() > 0 {
        Some(trim(configured))
    } else {
        match data_dir {
            Some(d) => Some(join_path(join_path(d, "com.mini-ai-1c"@), "search-index"@)),
            None => None,
        }
    }
}

/// The search index directory for a configured setting and a data directory.
pub fn search_index_dir_in(configured_dir: &str, data_dir: Option<String>) -> (r: Option<String>)
    ensures
        match r {
            Some(p) => index_dir(configured_dir@, match data_dir {
                Some(d) => Some(d@),
                None => None,
            }) == Some(p@),
            None => index_dir(configured_dir@, match data_dir {
                Some(d) => Some(d@),
                None => None,
            }) is None,
        },
{
    let t = trim_str(configured_dir);
    if !t.as_str().is_empty() {
        return Some(t);
    }
    match data_dir {
        Some(d) => {
            let a = join_paths(d.as_str(), "com.mini-ai-1c");
            Some(join_paths(a.as_str(), "search-index"))
        },
        None => None,
    }
}

/// The search index directory: the configured one, else under the user's data directory.
pub fn resolve_search_index_dir(configured_dir: &str) -> (r: Option<String>)
    ensures
        trim(configured_dir@).len() > 0 ==> (r matches Some(p) && p@ == trim(configured_dir@)),
        trim(configured_dir@).len() == 0 ==> match r {
            Some(p) => exists|d: Seq<char>|
                p@ == join_path(join_path(d, "com.mini-ai-1c"@), "search-index"@),
            None => true,
        },
{
    let data_dir = user_data_dir();
    search_index_dir_in(configured_dir, data_dir)
}

/// The eight bytes of a 64-bit value, most significant first.
pub open spec fn be_bytes(h: u64) -> Seq<u8> {
    Seq::new(8, |k: int| ((h >> ((56 - 8 * k) as u64)) & 0xff) as u8)
}

fn be_bytes_of(h: u64) -> (r: Vec<u8>)
    ensures
        r@ == be_bytes(h),
{
    let mut out: Vec<u8> = Vec::new();
    let mut k: u64 = 0;
    while k < 8
        invariant
            k <= 8,
            out@.len() == k,
            forall|j: int| 0 <= j < k ==> out@[j] == be_bytes(h)[j],
        decreases 8 - k,
    {
        out.push(((h >> (56 - 8 * k)) & 0xff) as u8);
        k = k + 1;
    }
    assert(out@ =~= be_bytes(h));
    out
}

/// Index file of a configuration: the sixteen hexadecimal digits of the FNV-1 hash of its
/// path and `.db`, in the index directory; `.mcp-index/symbols.db` inside the configuration
/// when there is no index directory.
pub open spec fn index_db_path(config_path: &str, dir: Option<Seq<char>>) -> Seq<char> {
    match dir {
        Some(d) => join_path(d, hex_of(be_bytes(fnv1(encode_utf8(config_path@)))) + ".db"@),
        None => join_path(join_path(config_path@, ".mcp-index"@), "symbols.db"@),
    }
}

/// Path of the index database of a configuration.
pub fn search_index_db_path(config_path: &str, index_dir: Option<String>) -> (r: String)
    ensures
        r@ == index_db_path(config_path, match index_dir {
            Some(d) => Some(d@),
            None => None,
        }),
{
    match index_dir {
        Some(d) => {
            let h = fnv_hash_path(config_path);
            let hex = lower_hex(&be_bytes_of(h));
            let name = concat2(hex.as_str(), ".db");
            join_paths(d.as_str(), name.as_str())
        },
        None => {
            let a = join_paths(config_path, ".mcp-index");
            join_paths(a.as_str(), "symbols.db")
        },
    }
}

} // verus!
