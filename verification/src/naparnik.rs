//! 1C:Naparnik client logic: per-profile conversation sessions, the instruction text sent to
//! code.1c.ai, the MCP bridge tool list and tool-result shaping.
use vstd::prelude::*;

use crate::codex::{tool_name_chars, sanitize_tool_name};
use crate::keyed::KeyedStore;
use crate::models::{ApiMessage, ToolInfo};
use crate::request::{header_views, push_header};
use crate::ext::{http_header_value_valid, parses_as_header_value};
use crate::ext::{
    json_object_has_key, json_object_key_present, json_reserialize, json_reserialized, json_string_at,
    json_string_at_pointer, json_value_at_pointer, json_value_text_at, json_quoted, json_string_literal,
};
use crate::text::{concat3, chars_of, push_chars, push_str, slice_chars, str_eq, string_of, utf8_len, utf8_prefix, decimal, u64_to_decimal};

verus! {

/// MCP server id of the built-in Naparnik server, whose tools are not bridged.
pub const BUILTIN_NAPARNIK_SERVER_ID: &'static str = "builtin-1c-naparnik";

/// Name of the single client-side tool that bridges local MCP tools.
pub const NAPARNIK_MCP_BRIDGE_TOOL: &'static str = "Read";

/// Longest tool result, in bytes, forwarded to Naparnik.
pub const MAX_NAPARNIK_TOOL_RESULT_CHARS: usize = 8000;

/// A Naparnik conversation and the last assistant message in it.
#[derive(Debug, Clone)]
pub struct OneCSession {
    pub conversation_id: String,
    pub last_message_uuid: Option<String>,
}

impl OneCSession {
    /// A copy of the session.
    pub fn duplicate(&self) -> (r: OneCSession)
        ensures
            r == *self,
    {
        OneCSession {
            conversation_id: self.conversation_id.clone(),
            last_message_uuid: match &self.last_message_uuid {
                Some(u) => Some(u.clone()),
                None => None,
            },
        }
    }
}

/// Naparnik sessions by profile id.
pub type NaparnikSessions = KeyedStore<OneCSession>;

/// Forgets the session of a profile.
pub fn clear_naparnik_session(sessions: &mut NaparnikSessions, profile_id: &str)
    requires
        old(sessions).wf(),
    ensures
        final(sessions).wf(),
        final(sessions).view_map() == old(sessions).view_map().remove(profile_id@),
{
    sessions.remove(profile_id);
}

/// The session of a profile.
pub fn get_session(sessions: &NaparnikSessions, profile_id: &str) -> (r: Option<OneCSession>)
    requires
        sessions.wf(),
    ensures
        match r {
            Some(s) => sessions.view_map().contains_key(profile_id@) && sessions.view_map()[profile_id@] == s,
            None => !sessions.view_map().contains_key(profile_id@),
        },
{
    match sessions.get(profile_id) {
        Some(s) => Some(s.duplicate()),
        None => None,
    }
}

/// Stores the session of a profile.
pub fn save_session(sessions: &mut NaparnikSessions, profile_id: &str, session: OneCSession)
    requires
        old(sessions).wf(),
    ensures
        final(sessions).wf(),
        final(sessions).view_map() == old(sessions).view_map().insert(profile_id@, session),
{
    sessions.insert(profile_id.to_owned(), session);
}

/// Records the last assistant message of a profile's session, if it has one.
pub fn update_last_uuid(sessions: &mut NaparnikSessions, profile_id: &str, uuid: &str)
    requires
        old(sessions).wf(),
    ensures
        final(sessions).wf(),
        old(sessions).view_map().contains_key(profile_id@) ==> {
            let s = old(sessions).view_map()[profile_id@];
            &&& final(sessions).view_map().dom() == old(sessions).view_map().dom()
            &&& final(sessions).view_map()[profile_id@].conversation_id == s.conversation_id
            &&& final(sessions).view_map()[profile_id@].last_message_uuid matches Some(u) && u@ == uuid@
            &&& forall|k: Seq<char>| k != profile_id@ && old(sessions).view_map().contains_key(k)
                ==> final(sessions).view_map()[k] == old(sessions).view_map()[k]
        },
        !old(sessions).view_map().contains_key(profile_id@) ==> final(sessions).view_map()
            == old(sessions).view_map(),
{
    let current = match sessions.get(profile_id) {
        None => return,
        Some(s) => s.conversation_id.clone(),
    };
    let ghost before = sessions.view_map();
    sessions.insert(
        profile_id.to_owned(),
        OneCSession { conversation_id: current, last_message_uuid: Some(uuid.to_owned()) },
    );
    assert(sessions.view_map().dom() =~= before.dom());
}

/// A session saved for a profile is found again for that profile.
pub proof fn lemma_saved_session_is_found(
    m: Map<Seq<char>, OneCSession>,
    profile_id: Seq<char>,
    session: OneCSession,
)
    ensures
        m.insert(profile_id, session).contains_key(profile_id),
        m.insert(profile_id, session)[profile_id] == session,
{
}

/// After clearing, no session is found for that profile; other profiles keep theirs.
pub proof fn lemma_cleared_session_is_gone(
    m: Map<Seq<char>, OneCSession>,
    profile_id: Seq<char>,
    other: Seq<char>,
)
    requires
        other != profile_id,
    ensures
        !m.remove(profile_id).contains_key(profile_id),
        m.contains_key(other) ==> m.remove(profile_id).contains_key(other) && m.remove(profile_id)[other] == m[other],
{
}

/// Edit-format instruction when code is loaded: text SEARCH/REPLACE blocks only.
pub const NAPARNIK_DIFF_WITH_CODE: &'static str = "\n\n[NAPARNIK TEXT DIFF MODE]\nMini AI 1C applies code edits locally after the user reviews them. Naparnik must return edit text; it must NOT call `apply_diff`, `replace_in_file`, or any other native apply/edit tool.\nThis section overrides generic XML diff instructions for Naparnik: when editing existing BSL code, use ONLY this SEARCH/REPLACE block format:\n  <<<<<<< SEARCH\nexact original complete lines\n  =======\nreplacement complete lines\n  >>>>>>> REPLACE\nRules:\n- Use SEARCH/REPLACE only when the user asks to change existing code.\n- Do not wrap SEARCH/REPLACE blocks in Markdown fences.\n- The SEARCH part must be an exact copy of complete original lines, including indentation.\n- Include enough original context to make each SEARCH block unique, but keep blocks small.\n- The REPLACE part must contain the full replacement for the SEARCH part.\n- Use tab characters for BSL indentation in replacement code.\n- When returning SEARCH/REPLACE blocks, do not also include a full modified ```bsl code block in the same response.\n- If the user asks a question or explanation only, answer normally and do not return diff blocks.\n- If the original code is empty or you cannot produce an exact SEARCH block, return a full ```bsl code block instead and briefly explain that a text diff was not safe.\n[/NAPARNIK TEXT DIFF MODE]";

/// Edit-format instruction without loaded code: full BSL blocks only.
pub const NAPARNIK_DIFF_NO_CODE: &'static str = "\n\n[NAPARNIK TEXT DIFF MODE]\nNo editable source code is loaded in Mini AI 1C. Do NOT use SEARCH/REPLACE diff blocks and do NOT call `apply_diff`.\nFor new BSL code, return the complete code in a ```bsl block.\n[/NAPARNIK TEXT DIFF MODE]";

/// Start of the MCP bridge instruction, up to the list of tool names.
pub const NAPARNIK_BRIDGE_HEAD: &'static str = "\n\n[NAPARNIK MCP BRIDGE]\nNaparnik exposes local Mini AI 1C MCP tools through a single client-side tool named `Read`.\nDo NOT call MCP tool names directly as native Naparnik tools: direct names like `search_1c_help` will be reported by Naparnik as unknown even when the local MCP server is available.\nTo use any MCP tool, call `Read` with this JSON shape:\n{\"tool_name\":\"exact_mcp_tool_name\",\"arguments\":{...original MCP arguments...}}\nAvailable exact MCP tool names: ";

/// End of the MCP bridge instruction, after the list of tool names.
pub const NAPARNIK_BRIDGE_TAIL: &'static str = "\nIf a `Read` result contains \"Mini AI 1C MCP tool `<name>` result\", treat that MCP tool call as successful. Never conclude that a local MCP server is unavailable only because its exact MCP tool name is not a native Naparnik tool.\n[/NAPARNIK MCP BRIDGE]";

/// Reminder appended to tool results when code is loaded.
pub const NAPARNIK_DIFF_REMINDER: &'static str = "\n\n[NAPARNIK TEXT DIFF REMINDER]\nIf the next answer edits the existing BSL code, return only SEARCH/REPLACE blocks that Mini AI 1C can apply locally.\nDo not return a full modified ```bsl code block when a safe SEARCH/REPLACE block can be produced.\n[/NAPARNIK TEXT DIFF REMINDER]";


/// The edit-format instruction for Naparnik.
pub fn build_naparnik_diff_instruction(has_code_context: bool) -> (r: &'static str)
    ensures
        r@ == if has_code_context {
            NAPARNIK_DIFF_WITH_CODE@
        } else {
            NAPARNIK_DIFF_NO_CODE@
        },
{
    if has_code_context {
        NAPARNIK_DIFF_WITH_CODE
    } else {
        NAPARNIK_DIFF_NO_CODE
    }
}

/// Tools offered through the bridge: all but those of the built-in Naparnik server.
pub open spec fn bridged_tools(tools: Seq<ToolInfo>) -> Seq<ToolInfo>
    decreases tools.len(),
{
    if tools.len() == 0 {
        Seq::empty()
    } else {
        bridged_tools(tools.drop_last()) + if tools.last().server_id@ != BUILTIN_NAPARNIK_SERVER_ID@ {
            seq![tools.last()]
        } else {
            Seq::empty()
        }
    }
}

/// Drops the tools of the built-in Naparnik server.
pub fn filter_naparnik_tools(tools_info: &[ToolInfo]) -> (r: Vec<ToolInfo>)
    ensures
        r@ == bridged_tools(tools_info@),
{
    let mut r: Vec<ToolInfo> = Vec::new();
    let mut i: usize = 0;
    while i < tools_info.len()
        invariant
            i <= tools_info@.len(),
            r@ == bridged_tools(tools_info@.subrange(0, i as int)),
        decreases tools_info.len() - i,
    {
        assert(tools_info@.subrange(0, i + 1).drop_last() =~= tools_info@.subrange(0, i as int));
        let ghost before = r@;
        if !str_eq(tools_info[i].server_id.as_str(), BUILTIN_NAPARNIK_SERVER_ID) {
            r.push(tools_info[i].duplicate());
            assert(r@ =~= before + seq![tools_info@[i as int]]);
        } else {
            assert(r@ =~= before + Seq::<ToolInfo>::empty());
        }
        i = i + 1;
    }
    assert(tools_info@.subrange(0, tools_info.len() as int) =~= tools_info@);
    r
}

/// Back-quoted tool names joined by ", ".
pub open spec fn quoted_tool_names(tools: Seq<ToolInfo>) -> Seq<char>
    decreases tools.len(),
{
    if tools.len() == 0 {
        Seq::empty()
    } else if tools.len() == 1 {
        "`"@ + tools[0].tool.function.name@ + "`"@
    } else {
        quoted_tool_names(tools.drop_last()) + ", "@ + "`"@ + tools.last().tool.function.name@ + "`"@
    }
}

/// The MCP bridge instruction (empty without tools).
pub open spec fn bridge_instruction(tools: Seq<ToolInfo>) -> Seq<char> {
    if tools.len() == 0 {
        Seq::empty()
    } else {
        NAPARNIK_BRIDGE_HEAD@ + quoted_tool_names(tools) + NAPARNIK_BRIDGE_TAIL@
    }
}

/// The instruction sent to Naparnik: system prompt, edit-format and bridge instructions, then
/// the user's request.
pub open spec fn naparnik_instruction_spec(
    system_prompt: Seq<char>,
    user_instruction: Seq<char>,
    tools: Seq<ToolInfo>,
    has_code: bool,
) -> Seq<char> {
    "[SYSTEM INSTRUCTIONS FROM MINI AI 1C]\n"@ + system_prompt + (if has_code {
        NAPARNIK_DIFF_WITH_CODE@
    } else {
        NAPARNIK_DIFF_NO_CODE@
    }) + bridge_instruction(tools) + "\n[/SYSTEM INSTRUCTIONS]\n\n[USER REQUEST]\n"@
        + user_instruction + "\n[/USER REQUEST]"@
}

/// Builds the instruction sent to Naparnik.
pub fn build_naparnik_instruction(
    system_prompt: &str,
    user_instruction: &str,
    tools_info: &[ToolInfo],
    has_code_context: bool,
) -> (r: String)
    ensures
        r@ == naparnik_instruction_spec(system_prompt@, user_instruction@, tools_info@, has_code_context),
{
    let mut r = "[SYSTEM INSTRUCTIONS FROM MINI AI 1C]\n".to_owned();
    push_str(&mut r, system_prompt);
    push_str(&mut r, build_naparnik_diff_instruction(has_code_context));
    let ghost before_bridge = r@;
    if tools_info.len() > 0 {
        push_str(&mut r, NAPARNIK_BRIDGE_HEAD);
        let ghost head = r@;
        let mut i: usize = 0;
        while i < tools_info.len()
            invariant
                i <= tools_info@.len(),
                tools_info@.len() > 0,
                r@ == head + quoted_tool_names(tools_info@.subrange(0, i as int)),
            decreases tools_info.len() - i,
        {
            let ghost prev = r@;
            assert(tools_info@.subrange(0, i + 1).drop_last() =~= tools_info@.subrange(0, i as int));
            if i > 0 {
                push_str(&mut r, ", ");
            }
            push_str(&mut r, "`");
            push_str(&mut r, tools_info[i].tool.function.name.as_str());
            push_str(&mut r, "`");
            proof {
                if i == 0 {
                    assert(r@ =~= head + quoted_tool_names(tools_info@.subrange(0, 1)));
                } else {
                    assert(r@ =~= head + quoted_tool_names(tools_info@.subrange(0, i + 1)));
                }
            }
            i = i + 1;
        }
        assert(tools_info@.subrange(0, tools_info.len() as int) =~= tools_info@);
        push_str(&mut r, NAPARNIK_BRIDGE_TAIL);
    }
    assert(r@ =~= before_bridge + bridge_instruction(tools_info@));
    push_str(&mut r, "\n[/SYSTEM INSTRUCTIONS]\n\n[USER REQUEST]\n");
    push_str(&mut r, user_instruction);
    push_str(&mut r, "\n[/USER REQUEST]");
    assert(r@ =~= naparnik_instruction_spec(system_prompt@, user_instruction@, tools_info@, has_code_context));
    r
}

/// A tool result cut to at most 8000 bytes at a char boundary, with a note when cut.
pub open spec fn truncated_tool_result(result: Seq<char>) -> Seq<char> {
    if utf8_len(result) <= MAX_NAPARNIK_TOOL_RESULT_CHARS {
        result
    } else {
        longest_prefix_within(result, MAX_NAPARNIK_TOOL_RESULT_CHARS as nat)
            + "\n\n[Result truncated to "@ + decimal(MAX_NAPARNIK_TOOL_RESULT_CHARS as nat) + " chars]"@
    }
}

/// `k` chars of `s` fit in `limit` bytes and one more would not.
pub open spec fn is_longest_cut(s: Seq<char>, limit: nat, k: int) -> bool {
    0 <= k <= s.len() && utf8_len(s.subrange(0, k)) <= limit && (k == s.len() || utf8_len(
        s.subrange(0, k + 1),
    ) > limit)
}

/// The longest prefix of `s` whose UTF-8 encoding takes at most `limit` bytes.
pub open spec fn longest_prefix_within(s: Seq<char>, limit: nat) -> Seq<char> {
    s.subrange(0, choose|k: int| is_longest_cut(s, limit, k))
}

/// The prefix bound determines the cut point.
pub proof fn lemma_longest_prefix_unique(s: Seq<char>, limit: nat, k: int)
    requires
        is_longest_cut(s, limit, k),
    ensures
        longest_prefix_within(s, limit) == s.subrange(0, k),
{
    assert(is_longest_cut(s, limit, k));
    let w = choose|w: int| is_longest_cut(s, limit, w);
    if w < k {
        if w + 1 < k {
            crate::codex::lemma_utf8_len_strict(s, w + 1, k);
        }
    } else if w > k {
        if k + 1 < w {
            crate::codex::lemma_utf8_len_strict(s, k + 1, w);
        }
    }
    assert(w == k);
}

/// Cuts a tool result to at most 8000 bytes (at a char boundary) and says so.
pub fn truncate_tool_result(result: String) -> (r: String)
    ensures
        r@ == truncated_tool_result(result@),
{
    let v = chars_of(result.as_str());
    let (k, bytes) = utf8_prefix(&v, MAX_NAPARNIK_TOOL_RESULT_CHARS);
    if k == v.len() {
        assert(v@.subrange(0, k as int) =~= v@);
        return result;
    }
    proof {
        lemma_longest_prefix_unique(v@, MAX_NAPARNIK_TOOL_RESULT_CHARS as nat, k as int);
        assert(v@.subrange(0, v.len() as int) =~= v@);
        if k + 1 < v.len() {
            crate::codex::lemma_utf8_len_strict(v@, k + 1, v.len() as int);
        }
    }
    let head = slice_chars(&v, 0, k);
    let mut r = string_of(&head);
    push_str(&mut r, "\n\n[Result truncated to ");
    let n = u64_to_decimal(MAX_NAPARNIK_TOOL_RESULT_CHARS as u64);
    push_str(&mut r, n.as_str());
    push_str(&mut r, " chars]");
    r
}

/// The tool result forwarded to Naparnik, with a diff reminder when code is loaded.
pub fn build_naparnik_tool_result_content(local_name: &str, result: String, has_code_context: bool) -> (r: String)
    ensures
        r@ == "Mini AI 1C MCP tool `"@ + local_name@ + "` result:\n"@ + result@ + if has_code_context {
            NAPARNIK_DIFF_REMINDER@
        } else {
            Seq::empty()
        },
{
    let mut content = "Mini AI 1C MCP tool `".to_owned();
    push_str(&mut content, local_name);
    push_str(&mut content, "` result:\n");
    push_str(&mut content, result.as_str());
    if has_code_context {
        push_str(&mut content, NAPARNIK_DIFF_REMINDER);
    } else {
        assert(content@ =~= content@ + Seq::<char>::empty());
    }
    content
}


// ───────────────────────────── tool calls of a round ─────────────────────────────

/// The name of a tool call (JSON text): `function.name`, else `name`, where it is a string.
pub open spec fn call_name(tc: Seq<char>) -> Option<Seq<char>> {
    match json_string_at(tc, "/function/name"@) {
        Some(n) => Some(n),
        None => json_string_at(tc, "/name"@),
    }
}

/// The name of a tool call.
pub fn tool_call_name(tool_call: &str) -> (r: Option<String>)
    ensures
        match r {
            Some(n) => call_name(tool_call@) == Some(n@),
            None => call_name(tool_call@) is None,
        },
{
    match json_string_at_pointer(tool_call, "/function/name") {
        Some(n) => Some(n),
        None => json_string_at_pointer(tool_call, "/name"),
    }
}

/// The id of a tool call, empty when it has none.
pub open spec fn call_id(tc: Seq<char>) -> Seq<char> {
    match json_string_at(tc, "/id"@) {
        Some(i) => i,
        None => Seq::empty(),
    }
}

/// The id of a tool call.
pub fn tool_call_id(tool_call: &str) -> (r: String)
    ensures
        r@ == call_id(tool_call@),
{
    match json_string_at_pointer(tool_call, "/id") {
        Some(i) => i,
        None => String::new(),
    }
}

/// The JSON text is an object.
pub open spec fn is_json_object(t: Seq<char>) -> bool {
    json_object_has_key(t, Seq::empty()) is Some
}

/// Tool arguments as an object: a JSON string is parsed (an empty object when it does not
/// parse), an object is kept, anything else becomes an empty object.
pub open spec fn normalized_arguments(v: Seq<char>) -> Seq<char> {
    match json_string_at(v, Seq::empty()) {
        Some(raw) => match json_reserialized(raw) {
            Some(t) => t,
            None => "{}"@,
        },
        None => if is_json_object(v) {
            v
        } else {
            "{}"@
        },
    }
}

/// Normalises tool arguments given as JSON text.
pub fn normalize_tool_arguments_value(arguments: &str) -> (r: String)
    ensures
        r@ == normalized_arguments(arguments@),
{
    proof {
        reveal_strlit("");
        assert(""@ =~= Seq::<char>::empty());
    }
    match json_string_at_pointer(arguments, "") {
        Some(raw) => match json_reserialize(raw.as_str()) {
            Some(t) => t,
            None => "{}".to_owned(),
        },
        None => match json_object_key_present(arguments, "") {
            Some(_) => arguments.to_owned(),
            None => "{}".to_owned(),
        },
    }
}

/// The arguments at `pointer` of a JSON document, normalised; an empty object when there are
/// none.
pub open spec fn arguments_at(doc: Seq<char>, pointer: Seq<char>) -> Option<Seq<char>> {
    match json_value_text_at(doc, pointer) {
        Some(a) => Some(normalized_arguments(a)),
        None => None,
    }
}

/// The arguments of a tool call: `function.arguments`, else `arguments`, normalised; an
/// empty object when it has none.
pub open spec fn call_arguments(tc: Seq<char>) -> Seq<char> {
    match arguments_at(tc, "/function/arguments"@) {
        Some(a) => a,
        None => match arguments_at(tc, "/arguments"@) {
            Some(a) => a,
            None => "{}"@,
        },
    }
}

fn arguments_at_pointer(doc: &str, pointer: &str) -> (r: Option<String>)
    ensures
        match r {
            Some(a) => arguments_at(doc@, pointer@) == Some(a@),
            None => arguments_at(doc@, pointer@) is None,
        },
{
    match json_value_at_pointer(doc, pointer) {
        Some(a) => Some(normalize_tool_arguments_value(a.as_str())),
        None => None,
    }
}

/// The arguments of a tool call.
pub fn tool_call_arguments(tool_call: &str) -> (r: String)
    ensures
        r@ == call_arguments(tool_call@),
{
    match arguments_at_pointer(tool_call, "/function/arguments") {
        Some(a) => a,
        None => match arguments_at_pointer(tool_call, "/arguments") {
            Some(a) => a,
            None => "{}".to_owned(),
        },
    }
}

/// The JSON object has the member `key`.
pub open spec fn has_member(t: Seq<char>, key: Seq<char>) -> bool {
    json_object_has_key(t, key) == Some(true)
}

/// Where the local tool's name stands in the bridge tool's arguments: the first of
/// `tool_name`, `name` and `tool` that is present.
pub open spec fn bridge_name_pointer(args: Seq<char>) -> Option<Seq<char>> {
    if has_member(args, "tool_name"@) {
        Some("/tool_name"@)
    } else if has_member(args, "name"@) {
        Some("/name"@)
    } else if has_member(args, "tool"@) {
        Some("/tool"@)
    } else {
        None
    }
}

/// The local tool's arguments inside the bridge tool's arguments: the first of `arguments`
/// and `args` that is present, normalised; an empty object when neither is.
pub open spec fn bridge_arguments(args: Seq<char>) -> Seq<char> {
    if has_member(args, "arguments"@) {
        match arguments_at(args, "/arguments"@) {
            Some(a) => a,
            None => "{}"@,
        }
    } else if has_member(args, "args"@) {
        match arguments_at(args, "/args"@) {
            Some(a) => a,
            None => "{}"@,
        }
    } else {
        "{}"@
    }
}

/// The local tool a bridge call asks for, with its arguments: none when the arguments are not
/// an object or the name member found first is not a string.
pub open spec fn bridge_request(args: Seq<char>) -> Option<(Seq<char>, Seq<char>)> {
    if !is_json_object(args) {
        None
    } else {
        match bridge_name_pointer(args) {
            None => None,
            Some(p) => match json_string_at(args, p) {
                None => None,
                Some(n) => Some((n, bridge_arguments(args))),
            },
        }
    }
}

fn member_present(doc: &str, key: &str) -> (b: bool)
    ensures
        b == has_member(doc@, key@),
{
    match json_object_key_present(doc, key) {
        Some(true) => true,
        _ => false,
    }
}

/// Reads the local tool request out of the bridge tool's arguments.
pub fn bridge_tool_request(arguments: &str) -> (r: Option<(String, String)>)
    ensures
        match r {
            Some((n, a)) => bridge_request(arguments@) == Some((n@, a@)),
            None => bridge_request(arguments@) is None,
        },
{
    proof {
        reveal_strlit("tool_name");
        reveal_strlit("name");
        reveal_strlit("tool");
        reveal_strlit("/tool_name");
        reveal_strlit("/name");
        reveal_strlit("/tool");
        reveal_strlit("");
        assert(""@ =~= Seq::<char>::empty());
    }
    if json_object_key_present(arguments, "").is_none() {
        return None;
    }
    let pointer = if member_present(arguments, "tool_name") {
        "/tool_name"
    } else if member_present(arguments, "name") {
        "/name"
    } else if member_present(arguments, "tool") {
        "/tool"
    } else {
        return None;
    };
    let name = match json_string_at_pointer(arguments, pointer) {
        Some(n) => n,
        None => return None,
    };
    let args = if member_present(arguments, "arguments") {
        match arguments_at_pointer(arguments, "/arguments") {
            Some(a) => a,
            None => "{}".to_owned(),
        }
    } else if member_present(arguments, "args") {
        match arguments_at_pointer(arguments, "/args") {
            Some(a) => a,
            None => "{}".to_owned(),
        }
    } else {
        "{}".to_owned()
    };
    Some((name, args))
}

/// The name a tool call is shown under: the local tool a bridge call asks for, else the
/// call's own name (`?` when it has none).
pub open spec fn display_name(tc: Seq<char>) -> Seq<char> {
    let name = match call_name(tc) {
        Some(n) => n,
        None => "?"@,
    };
    if name == NAPARNIK_MCP_BRIDGE_TOOL@ {
        match bridge_request(call_arguments(tc)) {
            Some((l, _)) => l,
            None => name,
        }
    } else {
        name
    }
}

/// The name a tool call is shown under.
pub fn tool_call_display_name(tool_call: &str) -> (r: String)
    ensures
        r@ == display_name(tool_call@),
{
    let name = match tool_call_name(tool_call) {
        Some(n) => n,
        None => "?".to_owned(),
    };
    if str_eq(name.as_str(), NAPARNIK_MCP_BRIDGE_TOOL) {
        let args = tool_call_arguments(tool_call);
        match bridge_tool_request(args.as_str()) {
            Some((l, _)) => l,
            None => name,
        }
    } else {
        name
    }
}

/// The MCP server that runs the local tool `name`: the server of the last bridged tool of
/// that name.
pub open spec fn route_server(tools: Seq<ToolInfo>, name: Seq<char>) -> Option<Seq<char>>
    decreases tools.len(),
{
    if tools.len() == 0 {
        None
    } else if tools.last().tool.function.name@ == name {
        Some(tools.last().server_id@)
    } else {
        route_server(tools.drop_last(), name)
    }
}

/// The MCP server that runs a local tool.
pub fn local_tool_route(tools: &[ToolInfo], name: &str) -> (r: Option<String>)
    ensures
        match r {
            Some(s) => route_server(tools@, name@) == Some(s@),
            None => route_server(tools@, name@) is None,
        },
{
    let mut k = tools.len();
    assert(tools@.subrange(0, k as int) =~= tools@);
    while k > 0
        invariant
            k <= tools@.len(),
            route_server(tools@, name@) == route_server(tools@.subrange(0, k as int), name@),
        decreases k,
    {
        let ghost pre = tools@.subrange(0, k as int);
        assert(pre.last() == tools@[k - 1]);
        assert(pre.drop_last() =~= tools@.subrange(0, k - 1));
        if str_eq(tools[k - 1].tool.function.name.as_str(), name) {
            return Some(tools[k - 1].server_id.clone());
        }
        k = k - 1;
    }
    None
}

/// How one tool call of a Naparnik round is answered.
#[derive(Debug)]
pub struct NaparnikCallPlan {
    pub id: String,
    /// The call's own name (empty when it has none).
    pub name: String,
    /// The local tool to run: the one a bridge call asks for, else the call's name.
    pub local_name: String,
    pub local_arguments: String,
    /// The MCP server that runs the local tool; none when the tool is not available here.
    pub server_id: Option<String>,
}

/// The bridge request of a call named `name` with arguments `args`.
pub open spec fn bridged(name: Seq<char>, args: Seq<char>) -> Option<(Seq<char>, Seq<char>)> {
    if name == NAPARNIK_MCP_BRIDGE_TOOL@ {
        bridge_request(args)
    } else {
        None
    }
}

/// Plans the answer to one tool call of a Naparnik round against the bridged tools.
pub fn plan_naparnik_tool_call(tool_call: &str, tools: &[ToolInfo]) -> (p: NaparnikCallPlan)
    ensures
        p.id@ == call_id(tool_call@),
        p.name@ == (match call_name(tool_call@) {
            Some(n) => n,
            None => Seq::empty(),
        }),
        p.local_name@ == (match bridged(p.name@, call_arguments(tool_call@)) {
            Some((l, _)) => l,
            None => p.name@,
        }),
        p.local_arguments@ == (match bridged(p.name@, call_arguments(tool_call@)) {
            Some((_, a)) => a,
            None => call_arguments(tool_call@),
        }),
        match p.server_id {
            Some(s) => route_server(tools@, p.local_name@) == Some(s@),
            None => route_server(tools@, p.local_name@) is None,
        },
{
    let id = tool_call_id(tool_call);
    let name = match tool_call_name(tool_call) {
        Some(n) => n,
        None => String::new(),
    };
    let raw_arguments = tool_call_arguments(tool_call);
    let request = if str_eq(name.as_str(), NAPARNIK_MCP_BRIDGE_TOOL) {
        bridge_tool_request(raw_arguments.as_str())
    } else {
        None
    };
    let (local_name, local_arguments) = match request {
        Some((l, a)) => (l, a),
        None => (name.clone(), raw_arguments),
    };
    let server_id = local_tool_route(tools, local_name.as_str());
    NaparnikCallPlan { id, name, local_name, local_arguments, server_id }
}

/// One entry of the tool results sent back to Naparnik.
#[derive(Debug)]
pub struct NaparnikToolItem {
    /// `ok` or `rejected`.
    pub status: String,
    pub tool_call_id: String,
    pub name: String,
    pub content: String,
}

/// The result of running a local tool as shown and forwarded: its output, or the error.
pub open spec fn local_result_text(local_name: Seq<char>, outcome: Result<String, String>) -> Seq<char> {
    match outcome {
        Ok(r) => r@,
        Err(e) => "Error calling local MCP tool '"@ + local_name + "': "@ + e@,
    }
}

/// The result text of a local tool run.
pub fn local_tool_result_text(local_name: &str, outcome: Result<String, String>) -> (r: String)
    ensures
        r@ == local_result_text(local_name@, outcome),
{
    match outcome {
        Ok(r) => r,
        Err(e) => {
            let mut t = "Error calling local MCP tool '".to_owned();
            push_str(&mut t, local_name);
            push_str(&mut t, "': ");
            push_str(&mut t, e.as_str());
            t
        },
    }
}

/// The answer to a call whose local tool ran: status `ok`, with the result text forwarded.
pub fn executed_tool_item(plan: &NaparnikCallPlan, outcome: Result<String, String>, has_code_context: bool) -> (r:
    NaparnikToolItem)
    ensures
        r.status@ == "ok"@,
        r.tool_call_id@ == plan.id@,
        r.name@ == plan.name@,
        r.content@ == "Mini AI 1C MCP tool `"@ + plan.local_name@ + "` result:\n"@ + local_result_text(
            plan.local_name@,
            outcome,
        ) + if has_code_context {
            NAPARNIK_DIFF_REMINDER@
        } else {
            Seq::empty()
        },
{
    let result = local_tool_result_text(plan.local_name.as_str(), outcome);
    NaparnikToolItem {
        status: "ok".to_owned(),
        tool_call_id: plan.id.clone(),
        name: plan.name.clone(),
        content: build_naparnik_tool_result_content(plan.local_name.as_str(), result, has_code_context),
    }
}

/// The answer to a call whose tool is not available here: status `rejected`.
pub fn rejected_tool_item(plan: &NaparnikCallPlan) -> (r: NaparnikToolItem)
    ensures
        r.status@ == "rejected"@,
        r.tool_call_id@ == plan.id@,
        r.name@ == plan.name@,
        r.content@ == "Tool '"@ + plan.name@ + "' is not available on the Mini AI 1C client side."@,
{
    let mut content = "Tool '".to_owned();
    push_str(&mut content, plan.name.as_str());
    push_str(&mut content, "' is not available on the Mini AI 1C client side.");
    NaparnikToolItem {
        status: "rejected".to_owned(),
        tool_call_id: plan.id.clone(),
        name: plan.name.clone(),
        content,
    }
}


// ───────────────────────────── conversation ─────────────────────────────

/// The conversation a create-conversation reply describes: its `uuid` and, when given, the
/// `root_message_uuid` the first message answers.
pub open spec fn created_conversation(body: Seq<char>) -> Result<(Seq<char>, Option<Seq<char>>), Seq<char>> {
    match json_string_at(body, "/uuid"@) {
        Some(u) => Ok((u, json_string_at(body, "/root_message_uuid"@))),
        None => Err("Naparnik: no uuid in response"@),
    }
}

/// Reads a create-conversation reply.
pub fn conversation_from_reply(body: &str) -> (r: Result<(String, Option<String>), String>)
    ensures
        match (r, created_conversation(body@)) {
            (Ok((u, root)), Ok((su, sroot))) => u@ == su && match root {
                Some(x) => sroot == Some(x@),
                None => sroot is None,
            },
            (Err(e), Err(se)) => e@ == se,
            _ => false,
        },
{
    match json_string_at_pointer(body, "/uuid") {
        Some(u) => Ok((u, json_string_at_pointer(body, "/root_message_uuid"))),
        None => Err("Naparnik: no uuid in response".to_owned()),
    }
}

/// The text of the last user message: empty when there is none or it has no text.
pub open spec fn last_user_text(ms: Seq<ApiMessage>) -> Seq<char>
    decreases ms.len(),
{
    if ms.len() == 0 {
        Seq::empty()
    } else if ms.last().role@ == "user"@ {
        match ms.last().content {
            Some(c) => c@,
            None => Seq::empty(),
        }
    } else {
        last_user_text(ms.drop_last())
    }
}

/// The request sent to Naparnik: the last user message; a conversation without one (or
/// with an empty one) is refused.
pub fn naparnik_user_instruction(messages: &[ApiMessage]) -> (r: Result<String, String>)
    ensures
        last_user_text(messages@).len() > 0 ==> (r matches Ok(t) && t@ == last_user_text(messages@)),
        last_user_text(messages@).len() == 0 ==> (r matches Err(e) && e@ == "Naparnik: empty user message"@),
{
    let mut k = messages.len();
    assert(messages@.subrange(0, k as int) =~= messages@);
    while k > 0
        invariant
            k <= messages@.len(),
            last_user_text(messages@) == last_user_text(messages@.subrange(0, k as int)),
        decreases k,
    {
        let ghost pre = messages@.subrange(0, k as int);
        assert(pre.last() == messages@[k - 1]);
        assert(pre.drop_last() =~= messages@.subrange(0, k - 1));
        if str_eq(messages[k - 1].role.as_str(), "user") {
            match &messages[k - 1].content {
                Some(c) => {
                    if c.as_str().is_empty() {
                        return Err("Naparnik: empty user message".to_owned());
                    }
                    return Ok(c.clone());
                },
                None => return Err("Naparnik: empty user message".to_owned()),
            }
        }
        k = k - 1;
    }
    Err("Naparnik: empty user message".to_owned())
}


// ───────────────────────────── requests ─────────────────────────────

/// The answer when a Naparnik profile has no token.
pub open spec fn missing_token_message() -> Seq<char> {
    "1С:Напарник: токен не задан. Укажите токен code.1c.ai в настройках профиля."@
}

/// A Naparnik request needs the profile's token.
pub fn check_naparnik_token(token: &str) -> (r: Result<(), String>)
    ensures
        token@.len() == 0 <==> r is Err,
        r matches Err(e) ==> e@ == missing_token_message(),
{
    if token.is_empty() {
        Err("1С:Напарник: токен не задан. Укажите токен code.1c.ai в настройках профиля.".to_owned())
    } else {
        Ok(())
    }
}

/// Address of the conversation list of code.1c.ai.
pub open spec fn conversations_url() -> Seq<char> {
    "https://code.1c.ai/chat_api/v1/conversations/"@
}

/// Address of the messages of a conversation.
pub fn conversation_messages_url(conversation_id: &str) -> (r: String)
    ensures
        r@ == "https://code.1c.ai/chat_api/v1/conversations/"@ + conversation_id@ + "/messages"@,
{
    concat3("https://code.1c.ai/chat_api/v1/conversations/", conversation_id, "/messages")
}

/// Headers of a Naparnik request: JSON content type, the site's origin and referer, a
/// browser user agent, the token when it is a valid header value, then `Session-Id: ` (empty)
/// for a new conversation or `Accept: text/event-stream` for a message.
pub open spec fn naparnik_headers(token: Seq<char>, new_conversation: bool) -> Seq<(Seq<char>, Seq<char>)> {
    seq![
        ("content-type"@, "application/json; charset=utf-8"@),
        ("origin"@, "https://code.1c.ai"@),
        ("referer"@, "https://code.1c.ai/chat//"@),
        ("user-agent"@, "Mozilla/5.0 (Windows NT 10.0; Win64; x64) AppleWebKit/537.36"@),
    ] + (if http_header_value_valid(token) {
        seq![("authorization"@, token)]
    } else {
        Seq::empty()
    }) + (if new_conversation {
        seq![("Session-Id"@, Seq::empty())]
    } else {
        seq![("accept"@, "text/event-stream"@)]
    })
}

/// Headers of a Naparnik request.
pub fn naparnik_request_headers(token: &str, new_conversation: bool) -> (r: Vec<(String, String)>)
    ensures
        header_views(r@) == naparnik_headers(token@, new_conversation),
{
    let mut hs: Vec<(String, String)> = Vec::new();
    push_header(&mut hs, "content-type", "application/json; charset=utf-8");
    push_header(&mut hs, "origin", "https://code.1c.ai");
    push_header(&mut hs, "referer", "https://code.1c.ai/chat//");
    push_header(&mut hs, "user-agent", "Mozilla/5.0 (Windows NT 10.0; Win64; x64) AppleWebKit/537.36");
    let ghost h1 = header_views(hs@);
    if parses_as_header_value(token) {
        push_header(&mut hs, "authorization", token);
    }
    let ghost h2 = header_views(hs@);
    assert(h2 =~= h1 + (if http_header_value_valid(token@) {
        seq![("authorization"@, token@)]
    } else {
        Seq::empty()
    }));
    if new_conversation {
        proof {
            reveal_strlit("");
            assert(""@ =~= Seq::<char>::empty());
        }
        push_header(&mut hs, "Session-Id", "");
    } else {
        push_header(&mut hs, "accept", "text/event-stream");
    }
    assert(header_views(hs@) =~= naparnik_headers(token@, new_conversation));
    hs
}


// ───────────────────────────── bridge tool ─────────────────────────────

/// The JSON string literals of the tools' names, separated by commas.
pub open spec fn quoted_name_list(tools: Seq<ToolInfo>) -> Seq<char>
    decreases tools.len(),
{
    if tools.len() == 0 {
        Seq::empty()
    } else if tools.len() == 1 {
        json_quoted(tools[0].tool.function.name@)
    } else {
        quoted_name_list(tools.drop_last()) + ","@ + json_quoted(tools.last().tool.function.name@)
    }
}

/// The part of the bridge tool's definition before the list of tool names.
pub open spec fn bridge_tool_head() -> Seq<char> {
    "{\"description\":\"Mini AI 1C MCP bridge. Execute one of the local MCP tools listed in the system instructions. Pass the exact MCP tool name in `tool_name` and the original tool arguments in `arguments`.\",\"name\":\"Read\",\"parameters\":{\"properties\":{\"arguments\":{\"additionalProperties\":true,\"description\":\"JSON arguments for the selected MCP tool.\",\"type\":\"object\"},\"tool_name\":{\"description\":\"Exact local MCP tool name to execute.\",\"enum\":["@
}

/// The part of the bridge tool's definition after the list of tool names.
pub open spec fn bridge_tool_tail() -> Seq<char> {
    "],\"type\":\"string\"}},\"required\":[\"tool_name\"],\"type\":\"object\"}}"@
}

/// The tools offered to Naparnik: none without local tools, else the single bridge tool
/// (compact JSON) whose `tool_name` must be one of the local tools' names.
pub fn build_naparnik_tools(tools_info: &[ToolInfo]) -> (r: Vec<String>)
    ensures
        tools_info@.len() == 0 ==> r@.len() == 0,
        tools_info@.len() > 0 ==> r@.len() == 1 && r@[0]@ == bridge_tool_head() + quoted_name_list(tools_info@)
            + bridge_tool_tail(),
{
    let mut r: Vec<String> = Vec::new();
    if tools_info.len() == 0 {
        return r;
    }
    let mut list = String::new();
    let mut i: usize = 0;
    assert(tools_info@.subrange(0, 0) =~= Seq::<ToolInfo>::empty());
    while i < tools_info.len()
        invariant
            i <= tools_info@.len(),
            list@ == quoted_name_list(tools_info@.subrange(0, i as int)),
        decreases tools_info.len() - i,
    {
        let ghost pre = tools_info@.subrange(0, i + 1);
        assert(pre.drop_last() =~= tools_info@.subrange(0, i as int));
        assert(pre.last() == tools_info@[i as int]);
        if i > 0 {
            push_str(&mut list, ",");
        } else {
            assert(pre.len() == 1 && pre[0] == tools_info@[0]);
        }
        let q = json_string_literal(tools_info[i].tool.function.name.as_str());
        push_str(&mut list, q.as_str());
        i = i + 1;
    }
    assert(tools_info@.subrange(0, tools_info@.len() as int) =~= tools_info@);
    let mut t = "{\"description\":\"Mini AI 1C MCP bridge. Execute one of the local MCP tools listed in the system instructions. Pass the exact MCP tool name in `tool_name` and the original tool arguments in `arguments`.\",\"name\":\"Read\",\"parameters\":{\"properties\":{\"arguments\":{\"additionalProperties\":true,\"description\":\"JSON arguments for the selected MCP tool.\",\"type\":\"object\"},\"tool_name\":{\"description\":\"Exact local MCP tool name to execute.\",\"enum\":[".to_owned();
    push_str(&mut t, list.as_str());
    push_str(&mut t, "],\"type\":\"string\"}},\"required\":[\"tool_name\"],\"type\":\"object\"}}");
    r.push(t);
    r
}

} // verus!
