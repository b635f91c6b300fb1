//! Codex Responses API: payload translation, tool-name rules and HTML-entity decoding of
//! streamed text.
use vstd::prelude::*;
use vstd::string::StringSliceAdditionalSpecFns;

use crate::ext::{
    is_alphanumeric, json_reserialize, json_reserialized, json_string_at, json_string_at_pointer,
    unicode_alphanumeric,
};
use crate::models::{ApiMessage, Tool, ToolCall};
use crate::profiles::LLMProfile;
use crate::text::{
    chars_of, concat2, concat3, decimal, has_prefix, is_blank, push_chars, push_str,
    rfind_char, seq_contains, slice_chars, str_eq, string_of, trim, u64_to_decimal,
    utf8_len, views,
};

verus! {

/// Stream timeout used when the profile sets none.
pub const DEFAULT_CODEX_STREAM_TIMEOUT_SECS: u32 = 300;

/// Reasoning effort used when the profile sets none.
pub const DEFAULT_CODEX_REASONING_EFFORT: &'static str = "medium";

/// Codex requires tool names of at most this many bytes.
pub const MAX_TOOL_NAME_LEN: usize = 64;

/// Instructions sent when the conversation has no system or developer message.
pub const DEFAULT_CODEX_INSTRUCTIONS: &'static str = "You are Codex, a coding assistant running inside Mini AI 1C.\nIMPORTANT: Always output raw characters — never use HTML entities. Write `<`, `>`, `&`, `\"`, `'` literally. Do NOT write `&lt;`, `&gt;`, `&amp;`, `&quot;`, `&#39;` or any other HTML escape sequences. This applies to all code, diffs, BSL/1C code, and explanations.";

/// Stream timeout of a Codex request.
pub fn resolve_codex_stream_timeout_secs(configured_timeout_secs: Option<u32>) -> (r: u32)
    ensures
        r == match configured_timeout_secs {
            Some(t) => t,
            None => DEFAULT_CODEX_STREAM_TIMEOUT_SECS,
        },
{
    match configured_timeout_secs {
        Some(t) => t,
        None => DEFAULT_CODEX_STREAM_TIMEOUT_SECS,
    }
}

// ───────────────────────────── HTML entities ─────────────────────────────

/// The HTML entity that `s` starts with, as its length and the char it stands for.
pub open spec fn entity_prefix(s: Seq<char>) -> Option<(int, char)> {
    if has_prefix(s, "&amp;"@) {
        Some((5, '&'))
    } else if has_prefix(s, "&lt;"@) {
        Some((4, '<'))
    } else if has_prefix(s, "&gt;"@) {
        Some((4, '>'))
    } else if has_prefix(s, "&quot;"@) {
        Some((6, '"'))
    } else if has_prefix(s, "&#39;"@) {
        Some((5, '\''))
    } else if has_prefix(s, "&#x27;"@) {
        Some((6, '\''))
    } else if has_prefix(s, "&#x2F;"@) {
        Some((6, '/'))
    } else {
        None
    }
}

/// What an entity standing for `c` becomes: `c` itself, or inside a JSON string literal
/// (`json`) a `"` written as `\\"`.
pub open spec fn decoded_entity(c: char, json: bool) -> Seq<char> {
    if json && c == '"' {
        seq!['\\', '"']
    } else {
        seq![c]
    }
}

/// `s` with its HTML entities decoded: read left to right, each entity is replaced once, and
/// what a replacement produces is not read again.
pub open spec fn decode_entities(s: Seq<char>, json: bool) -> Seq<char>
    decreases s.len(),
{
    if s.len() == 0 {
        s
    } else {
        match entity_prefix(s) {
            Some((n, c)) => if 0 < n <= s.len() {
                decoded_entity(c, json) + decode_entities(s.subrange(n, s.len() as int), json)
            } else {
                s
            },
            None => seq![s[0]] + decode_entities(s.drop_first(), json),
        }
    }
}

/// Decoding of the HTML entities Codex sometimes emits: read left to right, each entity
/// becomes its char once, and what a decoding produces is not read again.
pub open spec fn unescape_html_spec(s: Seq<char>) -> Seq<char> {
    decode_entities(s, false)
}

fn lit_at(s: &[char], lit: &str, i: usize) -> (b: bool)
    requires
        i <= s@.len(),
    ensures
        b == has_prefix(s@.subrange(i as int, s@.len() as int), lit@),
{
    let pv = chars_of(lit);
    let b = crate::text::matches_at(s, &pv, i);
    proof {
        let t = s@.subrange(i as int, s@.len() as int);
        if pv@.len() <= t.len() {
            assert(t.subrange(0, pv@.len() as int) =~= s@.subrange(i as int, i + pv@.len()));
        }
    }
    b
}

/// The entity at char index `i` of `s`.
fn entity_at(s: &[char], i: usize) -> (r: Option<(usize, char)>)
    requires
        i <= s@.len(),
    ensures
        match entity_prefix(s@.subrange(i as int, s@.len() as int)) {
            Some((n, c)) => r == Some((n as usize, c)) && 0 < n <= s@.len() - i,
            None => r is None,
        },
{
    proof {
        reveal_strlit("&amp;");
        reveal_strlit("&lt;");
        reveal_strlit("&gt;");
        reveal_strlit("&quot;");
        reveal_strlit("&#39;");
        reveal_strlit("&#x27;");
        reveal_strlit("&#x2F;");
    }
    if lit_at(s, "&amp;", i) {
        Some((5, '&'))
    } else if lit_at(s, "&lt;", i) {
        Some((4, '<'))
    } else if lit_at(s, "&gt;", i) {
        Some((4, '>'))
    } else if lit_at(s, "&quot;", i) {
        Some((6, '"'))
    } else if lit_at(s, "&#39;", i) {
        Some((5, '\''))
    } else if lit_at(s, "&#x27;", i) {
        Some((6, '\''))
    } else if lit_at(s, "&#x2F;", i) {
        Some((6, '/'))
    } else {
        None
    }
}

/// Decodes the HTML entities of a char sequence; with `json`, a decoded `"` is written as
/// `\\"`.
pub fn decode_entities_chars(s: &[char], json: bool) -> (r: Vec<char>)
    ensures
        r@ == decode_entities(s@, json),
{
    let mut out: Vec<char> = Vec::new();
    let mut i: usize = 0;
    assert(s@.subrange(0, s@.len() as int) =~= s@);
    while i < s.len()
        invariant
            i <= s@.len(),
            out@ + decode_entities(s@.subrange(i as int, s@.len() as int), json) == decode_entities(s@, json),
        decreases s.len() - i,
    {
        let ghost t = s@.subrange(i as int, s@.len() as int);
        let ghost before = out@;
        match entity_at(s, i) {
            Some((n, c)) => {
                assert(t.subrange(n as int, t.len() as int) =~= s@.subrange(i + n, s@.len() as int));
                assert(decode_entities(t, json) == decoded_entity(c, json) + decode_entities(
                    t.subrange(n as int, t.len() as int),
                    json,
                ));
                if json && c == '"' {
                    out.push('\\');
                    out.push('"');
                } else {
                    out.push(c);
                }
                assert(out@ =~= before + decoded_entity(c, json));
                assert(out@ + decode_entities(s@.subrange(i + n, s@.len() as int), json) =~= before
                    + decode_entities(t, json));
                i = i + n;
            },
            None => {
                assert(t.drop_first() =~= s@.subrange(i + 1, s@.len() as int));
                assert(t[0] == s@[i as int]);
                out.push(s[i]);
                assert(out@ + decode_entities(s@.subrange(i + 1, s@.len() as int), json) =~= before
                    + decode_entities(t, json));
                i = i + 1;
            },
        }
    }
    assert(s@.subrange(i as int, s@.len() as int) =~= Seq::<char>::empty());
    assert(out@ + Seq::<char>::empty() =~= out@);
    out
}

/// Decodes HTML entities in a char sequence.
pub fn unescape_html_chars(s: &[char]) -> (r: Vec<char>)
    ensures
        r@ == unescape_html_spec(s@),
{
    decode_entities_chars(s, false)
}

/// Decodes the HTML entities Codex sometimes emits (e.g. `&amp;` becomes `&`).
pub fn unescape_html(s: &str) -> (r: String)
    ensures
        r@ == unescape_html_spec(s@),
{
    let v = chars_of(s);
    let u = unescape_html_chars(&v);
    string_of(&u)
}

/// `c` may continue an HTML entity name after the `&`.
pub open spec fn entity_char(c: char) -> bool {
    ('a' <= c && c <= 'z') || ('A' <= c && c <= 'Z') || ('0' <= c && c <= '9') || c == '#'
}

/// Index of the last `&` of `s`, if any.
pub open spec fn last_amp(s: Seq<char>) -> Option<int> {
    if exists|i: int| 0 <= i < s.len() && s[i] == '&' && forall|j: int| i < j < s.len() ==> s[j] != '&' {
        Some(choose|i: int| 0 <= i < s.len() && s[i] == '&' && forall|j: int| i < j < s.len() ==> s[j] != '&')
    } else {
        None
    }
}

/// Where a trailing, possibly incomplete HTML entity starts: the last `&` when what follows
/// it is at most eleven entity-name chars with no `;`; otherwise the length of `s`.
pub open spec fn entity_tail_start(s: Seq<char>) -> int {
    match last_amp(s) {
        None => s.len() as int,
        Some(a) => if s.len() - a <= 12 && forall|j: int| a < j < s.len() ==> entity_char(s[j]) {
            a
        } else {
            s.len() as int
        },
    }
}

/// Char index at which an incomplete trailing HTML entity starts, or the length of `s`.
pub fn split_incomplete_html_entity_tail(s: &[char]) -> (k: usize)
    ensures
        k == entity_tail_start(s@),
{
    match rfind_char(s, '&') {
        None => {
            s.len()
        },
        Some(a) => {
            proof {
                let w = choose|i: int|
                    0 <= i < s@.len() && s@[i] == '&' && forall|j: int|
                        i < j < s@.len() ==> s@[j] != '&';
                if w < a {
                    assert(s@[a as int] != '&');
                } else if w > a {
                    assert(s@[w] != '&');
                }
                assert(last_amp(s@) == Some(a as int));
            }
            if s.len() - a > 12 {
                return s.len();
            }
            let mut j = a + 1;
            while j < s.len()
                invariant
                    a < j <= s.len(),
                    last_amp(s@) == Some(a as int),
                    s.len() - a <= 12,
                    forall|t: int| a < t < j ==> entity_char(s@[t]),
                decreases s.len() - j,
            {
                let c = s[j];
                if !(('a' <= c && c <= 'z') || ('A' <= c && c <= 'Z') || ('0' <= c && c <= '9')
                    || c == '#') {
                    assert(!entity_char(s@[j as int]));
                    return s.len();
                }
                j = j + 1;
            }
            a
        },
    }
}

/// Moves the decodable front of `buffer` out, decoded; an incomplete trailing entity stays
/// in the buffer unless `final_flush` is set.
pub fn drain_decoded_html_stream(buffer: &mut String, final_flush: bool) -> (out: String)
    ensures
        ({
            let b = old(buffer)@;
            let k = if final_flush {
                b.len() as int
            } else {
                entity_tail_start(b)
            };
            &&& out@ == unescape_html_spec(b.subrange(0, k))
            &&& final(buffer)@ == b.subrange(k, b.len() as int)
        }),
{
    let chars = chars_of(buffer.as_str());
    let k = if final_flush {
        chars.len()
    } else {
        split_incomplete_html_entity_tail(&chars)
    };
    let head = slice_chars(&chars, 0, k);
    let tail = slice_chars(&chars, k, chars.len());
    *buffer = string_of(&tail);
    let decoded = unescape_html_chars(&head);
    proof {
        if k == 0 {
            assert(head@ =~= Seq::<char>::empty());
        }
    }
    string_of(&decoded)
}

// ───────────────────────────── tool names ─────────────────────────────

/// `c` may appear in a tool name.
pub open spec fn tool_name_char(c: char) -> bool {
    unicode_alphanumeric(c) || c == '_' || c == '-'
}

/// `s` with every char that may not appear in a tool name removed.
pub open spec fn tool_name_chars(s: Seq<char>) -> Seq<char>
    decreases s.len(),
{
    if s.len() == 0 {
        s
    } else if tool_name_char(s.last()) {
        tool_name_chars(s.drop_last()).push(s.last())
    } else {
        tool_name_chars(s.drop_last())
    }
}

/// Keeps only alphanumeric chars, `_` and `-` of a name.
pub fn filter_tool_name_chars(s: &[char]) -> (r: Vec<char>)
    ensures
        r@ == tool_name_chars(s@),
{
    let mut r: Vec<char> = Vec::new();
    let mut i: usize = 0;
    while i < s.len()
        invariant
            i <= s.len(),
            r@ == tool_name_chars(s@.subrange(0, i as int)),
        decreases s.len() - i,
    {
        let c = s[i];
        assert(s@.subrange(0, i + 1).drop_last() =~= s@.subrange(0, i as int));
        if is_alphanumeric(c) || c == '_' || c == '-' {
            r.push(c);
        }
        i = i + 1;
    }
    assert(s@.subrange(0, s.len() as int) =~= s@);
    r
}

/// Keeps only alphanumeric chars, `_` and `-` of a tool name.
pub fn sanitize_tool_name(name: &str) -> (r: String)
    ensures
        r@ == tool_name_chars(name@),
{
    let v = chars_of(name);
    let f = filter_tool_name_chars(&v);
    string_of(&f)
}

/// UTF-8 length grows strictly with each char.
pub proof fn lemma_utf8_len_strict(s: Seq<char>, i: int, j: int)
    requires
        0 <= i < j <= s.len(),
    ensures
        utf8_len(s.subrange(0, i)) < utf8_len(s.subrange(0, j)),
    decreases j - i,
{
    assert(s.subrange(0, j).drop_last() =~= s.subrange(0, j - 1));
    if i < j - 1 {
        lemma_utf8_len_strict(s, i, j - 1);
    }
}

/// The first `limit` chars of `s` (all of `s` when it is shorter).
pub open spec fn char_truncate(s: Seq<char>, limit: nat) -> Seq<char> {
    if s.len() <= limit {
        s
    } else {
        s.subrange(0, limit as int)
    }
}

/// Cuts `s` to its first `limit` chars.
pub fn truncate_chars(s: &[char], limit: usize) -> (r: Vec<char>)
    ensures
        r@ == char_truncate(s@, limit as nat),
{
    if s.len() <= limit {
        assert(s@.subrange(0, s.len() as int) =~= s@);
        slice_chars(s, 0, s.len())
    } else {
        slice_chars(s, 0, limit)
    }
}

/// The Codex form of a tool name: sanitized, then cut to 64 chars.
pub open spec fn codex_tool_name(name: Seq<char>) -> Seq<char> {
    char_truncate(tool_name_chars(name), MAX_TOOL_NAME_LEN as nat)
}

/// Sanitizes a tool name for Codex: only alphanumeric chars, `_` and `-` are kept, and the
/// result is cut to 64 chars.
pub fn sanitize_codex_tool_name(name: &str) -> (r: String)
    ensures
        r@ == codex_tool_name(name@),
{
    let v = chars_of(name);
    let f = filter_tool_name_chars(&v);
    let t = truncate_chars(&f, MAX_TOOL_NAME_LEN);
    string_of(&t)
}

// ───────────────────────────── payload ─────────────────────────────

/// One item of the Codex `input` array.
#[derive(Debug, Clone)]
pub enum CodexInputItem {
    /// A `user` or `assistant` message.
    Message { role: String, content: String },
    /// A `function_call` made by the assistant.
    FunctionCall { call_id: String, name: String, arguments: String },
    /// A `function_call_output` answering a call.
    FunctionCallOutput { call_id: String, output: String },
}

/// Plain model of an input item.
pub enum InputItemView {
    Message(Seq<char>, Seq<char>),
    FunctionCall(Seq<char>, Seq<char>, Seq<char>),
    FunctionCallOutput(Seq<char>, Seq<char>),
}

/// The plain model of an input item.
pub open spec fn item_view(i: CodexInputItem) -> InputItemView {
    match i {
        CodexInputItem::Message { role, content } => InputItemView::Message(role@, content@),
        CodexInputItem::FunctionCall { call_id, name, arguments } => InputItemView::FunctionCall(
            call_id@,
            name@,
            arguments@,
        ),
        CodexInputItem::FunctionCallOutput { call_id, output } => InputItemView::FunctionCallOutput(
            call_id@,
            output@,
        ),
    }
}

/// Plain models of a sequence of input items.
pub open spec fn items_view(v: Seq<CodexInputItem>) -> Seq<InputItemView> {
    v.map_values(|i: CodexInputItem| item_view(i))
}

/// Text of an optional content, empty when absent.
pub open spec fn content_or_empty(c: Option<String>) -> Seq<char> {
    match c {
        Some(s) => s@,
        None => Seq::empty(),
    }
}

/// `m` is a tool message answering the call `id`.
pub open spec fn answers(m: ApiMessage, id: Seq<char>) -> bool {
    m.role@ == "tool"@ && m.tool_call_id is Some && m.tool_call_id->0@ == id
}

/// `c` is present and not empty.
pub open spec fn nonempty_content(c: Option<String>) -> bool {
    c is Some && c->0@.len() > 0
}

/// Ids of the calls that some `tool` message answers.
pub open spec fn completed_ids(messages: Seq<ApiMessage>) -> Set<Seq<char>> {
    Set::new(|id: Seq<char>| exists|i: int| 0 <= i < messages.len() && answers(messages[i], id))
}

/// Function-call items of one assistant message: its calls whose id is completed.
pub open spec fn call_items(calls: Seq<ToolCall>, done: Set<Seq<char>>) -> Seq<InputItemView>
    decreases calls.len(),
{
    if calls.len() == 0 {
        Seq::empty()
    } else {
        let c = calls.last();
        call_items(calls.drop_last(), done) + if done.contains(c.id@) {
            seq![
                InputItemView::FunctionCall(
                    c.id@,
                    codex_tool_name(c.function.name@),
                    c.function.arguments@,
                ),
            ]
        } else {
            Seq::empty()
        }
    }
}

/// Ids of the calls of one assistant message that are completed.
pub open spec fn emitted_by(m: ApiMessage, done: Set<Seq<char>>) -> Set<Seq<char>> {
    if m.role@ == "assistant"@ {
        match m.tool_calls {
            Some(calls) => Set::new(
                |id: Seq<char>|
                    done.contains(id) && exists|j: int|
                        0 <= j < calls@.len() && calls@[j].id@ == id,
            ),
            None => Set::empty(),
        }
    } else {
        Set::empty()
    }
}

/// Ids of the function calls emitted for the messages before index `n`.
pub open spec fn emitted_before(messages: Seq<ApiMessage>, done: Set<Seq<char>>, n: int) -> Set<
    Seq<char>,
>
    decreases n,
{
    if n <= 0 {
        Set::empty()
    } else {
        emitted_before(messages, done, n - 1).union(emitted_by(messages[n - 1], done))
    }
}

/// Input items produced by one message.
pub open spec fn message_items(m: ApiMessage, done: Set<Seq<char>>, emitted: Set<Seq<char>>) -> Seq<
    InputItemView,
> {
    if m.role@ == "user"@ {
        seq![InputItemView::Message("user"@, content_or_empty(m.content))]
    } else if m.role@ == "assistant"@ {
        (if nonempty_content(m.content) {
            seq![InputItemView::Message("assistant"@, content_or_empty(m.content))]
        } else {
            Seq::empty()
        }) + match m.tool_calls {
            Some(calls) => call_items(calls@, done),
            None => Seq::empty(),
        }
    } else if m.role@ == "tool"@ {
        match m.tool_call_id {
            Some(id) => if emitted.contains(id@) {
                seq![InputItemView::FunctionCallOutput(id@, content_or_empty(m.content))]
            } else {
                Seq::empty()
            },
            None => Seq::empty(),
        }
    } else {
        Seq::empty()
    }
}

/// Input items of the first `n` messages.
pub open spec fn input_items(messages: Seq<ApiMessage>, n: int) -> Seq<InputItemView>
    decreases n,
{
    if n <= 0 {
        Seq::empty()
    } else {
        input_items(messages, n - 1) + message_items(
            messages[n - 1],
            completed_ids(messages),
            emitted_before(messages, completed_ids(messages), n - 1),
        )
    }
}

/// The items of the first `n` messages begin the items of the first `m` messages, `n <= m`.
proof fn lemma_input_items_prefix(messages: Seq<ApiMessage>, n: int, m: int)
    requires
        0 <= n <= m,
    ensures
        input_items(messages, n).len() <= input_items(messages, m).len(),
        input_items(messages, m).subrange(0, input_items(messages, n).len() as int) == input_items(
            messages,
            n,
        ),
    decreases m - n,
{
    if n < m {
        lemma_input_items_prefix(messages, n, m - 1);
        let a = input_items(messages, n);
        let b = input_items(messages, m - 1);
        let c = input_items(messages, m);
        assert(c.subrange(0, a.len() as int) =~= b.subrange(0, a.len() as int));
    } else {
        assert(input_items(messages, m).subrange(0, input_items(messages, m).len() as int) =~= input_items(
            messages,
            m,
        ));
    }
}

/// Every assistant message with non-empty content shows in the Codex input as an assistant
/// message with that content, right after the items of the messages before it, whether or
/// not it also carries tool calls.
pub proof fn assistant_answers_stay_in_input(messages: Seq<ApiMessage>, k: int)
    requires
        0 <= k < messages.len(),
        messages[k].role@ == "assistant"@,
        messages[k].content matches Some(c) && c@.len() > 0,
    ensures
        input_items(messages, k).len() < input_items(messages, messages.len() as int).len(),
        input_items(messages, messages.len() as int)[input_items(messages, k).len() as int]
            == InputItemView::Message("assistant"@, messages[k].content->0@),
{
    reveal_strlit("user");
    reveal_strlit("assistant");
    assert("assistant"@ != "user"@) by {
        assert("assistant"@.len() != "user"@.len());
    }
    let before = input_items(messages, k);
    let after = input_items(messages, k + 1);
    assert(after[before.len() as int] == InputItemView::Message("assistant"@, messages[k].content->0@));
    lemma_input_items_prefix(messages, k + 1, messages.len() as int);
    let all = input_items(messages, messages.len() as int);
    assert(all.subrange(0, after.len() as int)[before.len() as int] == all[before.len() as int]);
}

/// Every user message shows in the Codex input as a user message with its content (empty
/// when it has none), right after the items of the messages before it.
pub proof fn user_messages_stay_in_input(messages: Seq<ApiMessage>, k: int)
    requires
        0 <= k < messages.len(),
        messages[k].role@ == "user"@,
    ensures
        input_items(messages, k).len() < input_items(messages, messages.len() as int).len(),
        input_items(messages, messages.len() as int)[input_items(messages, k).len() as int]
            == InputItemView::Message(
            "user"@,
            match messages[k].content {
                Some(c) => c@,
                None => Seq::empty(),
            },
        ),
{
    let before = input_items(messages, k);
    let after = input_items(messages, k + 1);
    lemma_input_items_prefix(messages, k + 1, messages.len() as int);
    let all = input_items(messages, messages.len() as int);
    assert(all.subrange(0, after.len() as int)[before.len() as int] == all[before.len() as int]);
}

/// A system or developer message with non-empty content.
pub open spec fn is_instruction(m: ApiMessage) -> bool {
    (m.role@ == "system"@ || m.role@ == "developer"@) && nonempty_content(m.content)
}

/// Contents of the instruction messages among the first `n` messages, joined by blank lines.
pub open spec fn instruction_parts(messages: Seq<ApiMessage>, n: int) -> Seq<Seq<char>>
    decreases n,
{
    if n <= 0 {
        Seq::empty()
    } else {
        instruction_parts(messages, n - 1) + if is_instruction(messages[n - 1]) {
            seq![content_or_empty(messages[n - 1].content)]
        } else {
            Seq::empty()
        }
    }
}

/// `parts` joined by `sep`.
pub open spec fn join(parts: Seq<Seq<char>>, sep: Seq<char>) -> Seq<char>
    decreases parts.len(),
{
    if parts.len() == 0 {
        Seq::empty()
    } else if parts.len() == 1 {
        parts[0]
    } else {
        join(parts.drop_last(), sep) + sep + parts.last()
    }
}

/// The `instructions` text of a Codex request.
pub open spec fn codex_instructions(messages: Seq<ApiMessage>) -> Seq<char> {
    let parts = instruction_parts(messages, messages.len() as int);
    if parts.len() == 0 {
        DEFAULT_CODEX_INSTRUCTIONS@
    } else {
        join(parts, "\n\n"@)
    }
}

/// `ids` holds a string whose view is `id`.
pub open spec fn has_id(ids: Seq<String>, id: Seq<char>) -> bool {
    exists|j: int| 0 <= j < ids.len() && ids[j]@ == id
}

/// Some message before index `n` is a tool message answering `id`.
pub open spec fn answered_before(messages: Seq<ApiMessage>, n: int, id: Seq<char>) -> bool {
    exists|k: int| 0 <= k < n && answers(messages[k], id)
}

/// One of the first `k` calls has id `id`.
pub open spec fn call_has_id(calls: Seq<ToolCall>, k: int, id: Seq<char>) -> bool {
    exists|t: int| 0 <= t < k && calls[t].id@ == id
}

/// Whether `id` is in `ids`.
fn id_in(ids: &Vec<String>, id: &str) -> (b: bool)
    ensures
        b == has_id(ids@, id@),
{
    let mut j: usize = 0;
    while j < ids.len()
        invariant
            j <= ids.len(),
            forall|t: int| 0 <= t < j ==> ids@[t]@ != id@,
        decreases ids.len() - j,
    {
        if str_eq(ids[j].as_str(), id) {
            return true;
        }
        j = j + 1;
    }
    false
}

/// Ids answered by the `tool` messages.
fn collect_completed_ids(messages: &[ApiMessage]) -> (ids: Vec<String>)
    ensures
        forall|id: Seq<char>| completed_ids(messages@).contains(id) <==> #[trigger] has_id(ids@, id),
{
    let mut ids: Vec<String> = Vec::new();
    let mut i: usize = 0;
    while i < messages.len()
        invariant
            i <= messages.len(),
            forall|id: Seq<char>| answered_before(messages@, i as int, id) <==> #[trigger] has_id(ids@, id),
        decreases messages.len() - i,
    {
        let m = &messages[i];
        let ghost prev = ids@;
        if str_eq(m.role.as_str(), "tool") {
            if let Some(t) = &m.tool_call_id {
                ids.push(t.clone());
            }
        }
        proof {
            assert forall|id: Seq<char>| answered_before(messages@, i + 1, id) <==> #[trigger] has_id(ids@, id) by {
                if answered_before(messages@, i + 1, id) {
                    let k = choose|k: int| 0 <= k < i + 1 && answers(messages@[k], id);
                    if k == i {
                        assert(ids@[ids@.len() - 1]@ == id);
                    } else {
                        assert(answered_before(messages@, i as int, id));
                        assert(has_id(prev, id));
                        let j = choose|j: int| 0 <= j < prev.len() && prev[j]@ == id;
                        assert(ids@[j] == prev[j]);
                    }
                }
                if has_id(ids@, id) {
                    let j = choose|j: int| 0 <= j < ids@.len() && ids@[j]@ == id;
                    if j < prev.len() {
                        assert(prev[j] == ids@[j]);
                        assert(has_id(prev, id));
                    } else {
                        assert(answers(messages@[i as int], id));
                    }
                }
            }
        }
        i = i + 1;
    }
    ids
}

/// Translates chat messages into Codex `instructions` and `input` items: system and
/// developer messages become instructions; user and assistant messages become messages;
/// assistant tool calls whose id some tool message answers become function calls; tool
/// messages answering an emitted call become function-call outputs.
pub fn messages_to_codex_payload(messages: &[ApiMessage]) -> (r: (String, Vec<CodexInputItem>))
    ensures
        r.0@ == codex_instructions(messages@),
        items_view(r.1@) == input_items(messages@, messages@.len() as int),
{
    let done = collect_completed_ids(messages);
    let mut emitted: Vec<String> = Vec::new();
    let mut parts: Vec<String> = Vec::new();
    let mut input: Vec<CodexInputItem> = Vec::new();
    let mut i: usize = 0;
    while i < messages.len()
        invariant
            i <= messages.len(),
            forall|id: Seq<char>| completed_ids(messages@).contains(id) <==> #[trigger] has_id(done@, id),
            forall|id: Seq<char>|
                emitted_before(messages@, completed_ids(messages@), i as int).contains(id)
                    <==> #[trigger] has_id(emitted@, id),
            views(parts@) == instruction_parts(messages@, i as int),
            items_view(input@) == input_items(messages@, i as int),
        decreases messages.len() - i,
    {
        let m = &messages[i];
        proof {
            reveal_strlit("user");
            reveal_strlit("assistant");
            reveal_strlit("tool");
            reveal_strlit("system");
            reveal_strlit("developer");
            assert("user"@.len() == 4);
            assert("assistant"@.len() == 9);
            assert("tool"@.len() == 4);
            assert("user"@ != "assistant"@);
            assert("tool"@ != "assistant"@);
            assert("user"@[0] != "tool"@[0]);
            assert("user"@ != "tool"@);
        }
        let ghost done_set = completed_ids(messages@);
        let ghost before_items = items_view(input@);
        let ghost before_emitted = emitted_before(messages@, done_set, i as int);
        let role = m.role.as_str();
        let is_instr = (str_eq(role, "system") || str_eq(role, "developer")) && match &m.content {
            Some(c) => !c.as_str().is_empty(),
            None => false,
        };
        let ghost before_parts = views(parts@);
        if is_instr {
            if let Some(c) = &m.content {
                parts.push(c.clone());
            }
        }
        assert(views(parts@) =~= instruction_parts(messages@, i + 1)) by {
            assert(messages@[i as int] == *m);
        }
        if str_eq(role, "user") {
            let content = match &m.content {
                Some(c) => c.clone(),
                None => String::new(),
            };
            input.push(CodexInputItem::Message { role: "user".to_owned(), content });
            assert(messages@[i as int] == *m);
            assert(emitted_by(*m, done_set) =~= Set::<Seq<char>>::empty());
            assert(items_view(input@) =~= input_items(messages@, i + 1));
            assert(emitted_before(messages@, done_set, i + 1) =~= before_emitted);
        } else if str_eq(role, "assistant") {
            if let Some(c) = &m.content {
                if !c.as_str().is_empty() {
                    input.push(
                        CodexInputItem::Message { role: "assistant".to_owned(), content: c.clone() },
                    );
                }
            }
            let ghost after_content = items_view(input@);
            assert(after_content =~= before_items + (if nonempty_content(m.content) {
                seq![InputItemView::Message("assistant"@, content_or_empty(m.content))]
            } else {
                Seq::empty()
            }));
            if let Some(calls) = &m.tool_calls {
                let mut k: usize = 0;
                while k < calls.len()
                    invariant
                        k <= calls.len(),
                        messages@[i as int] == *m,
                        m.tool_calls == Some(*calls),
                        0 <= i < messages@.len(),
                        forall|id: Seq<char>| done_set.contains(id) <==> #[trigger] has_id(done@, id),
                        items_view(input@) == after_content + call_items(
                            calls@.subrange(0, k as int),
                            done_set,
                        ),
                        forall|id: Seq<char>|
                            (before_emitted.contains(id) || (done_set.contains(id)
                                && call_has_id(calls@, k as int, id))) <==> #[trigger] has_id(
                                emitted@,
                                id,
                            ),
                    decreases calls.len() - k,
                {
                    let tc = &calls[k];
                    assert(calls@.subrange(0, k + 1).drop_last() =~= calls@.subrange(0, k as int));
                    let ghost prev_em = emitted@;
                    let ghost prev_input = items_view(input@);
                    if id_in(&done, tc.id.as_str()) {
                        emitted.push(tc.id.clone());
                        assert(messages@[i as int].tool_calls->0@[k as int] == calls@[k as int]);
                        let name = sanitize_codex_tool_name(tc.function.name.as_str());
                        input.push(
                            CodexInputItem::FunctionCall {
                                call_id: tc.id.clone(),
                                name,
                                arguments: tc.function.arguments.clone(),
                            },
                        );
                        assert(items_view(input@) =~= prev_input.push(
                            InputItemView::FunctionCall(
                                calls@[k as int].id@,
                                codex_tool_name(calls@[k as int].function.name@),
                                calls@[k as int].function.arguments@,
                            ),
                        ));
                    }
                    assert(items_view(input@) =~= after_content + call_items(
                        calls@.subrange(0, k + 1),
                        done_set,
                    ));
                    proof {
                        assert forall|id: Seq<char>|
                            (before_emitted.contains(id) || (done_set.contains(id)
                                && call_has_id(calls@, k + 1, id))) <==> #[trigger] has_id(
                                emitted@,
                                id,
                            ) by {
                            if has_id(emitted@, id) {
                                let j = choose|j: int| 0 <= j < emitted@.len() && emitted@[j]@ == id;
                                if j == prev_em.len() {
                                    assert(calls@[k as int].id@ == id);
                                    assert(call_has_id(calls@, k + 1, id));
                                } else {
                                    assert(prev_em[j] == emitted@[j]);
                                    assert(has_id(prev_em, id));
                                    if call_has_id(calls@, k as int, id) {
                                        let t = choose|t: int| 0 <= t < k && calls@[t].id@ == id;
                                        assert(call_has_id(calls@, k + 1, id));
                                    }
                                }
                            }
                            if call_has_id(calls@, k + 1, id) && done_set.contains(id) {
                                let t = choose|t: int| 0 <= t < k + 1 && calls@[t].id@ == id;
                                if t == k {
                                    assert(emitted@[prev_em.len() as int]@ == id);
                                } else {
                                    assert(call_has_id(calls@, k as int, id));
                                    assert(has_id(prev_em, id));
                                    let j = choose|j: int| 0 <= j < prev_em.len() && prev_em[j]@ == id;
                                    assert(emitted@[j] == prev_em[j]);
                                }
                            }
                            if before_emitted.contains(id) {
                                assert(has_id(prev_em, id));
                                let j = choose|j: int| 0 <= j < prev_em.len() && prev_em[j]@ == id;
                                assert(emitted@[j] == prev_em[j]);
                            }
                        }
                    }
                    k = k + 1;
                }
                assert(calls@.subrange(0, calls.len() as int) =~= calls@);
            }
            assert(items_view(input@) =~= input_items(messages@, i + 1));
            assert forall|id: Seq<char>|
                emitted_before(messages@, done_set, i + 1).contains(id) <==> #[trigger] has_id(
                    emitted@,
                    id,
                ) by {
                assert(messages@[i as int] == *m);
                if m.tool_calls is Some {
                    let calls = m.tool_calls->0;
                    if emitted_by(*m, done_set).contains(id) {
                        let j = choose|j: int| 0 <= j < calls@.len() && calls@[j].id@ == id;
                        assert(call_has_id(calls@, calls@.len() as int, id));
                    }
                    if call_has_id(calls@, calls@.len() as int, id) && done_set.contains(id) {
                        let j = choose|j: int| 0 <= j < calls@.len() && calls@[j].id@ == id;
                        assert(emitted_by(*m, done_set).contains(id));
                    }
                }
            }
        } else if str_eq(role, "tool") {
            if let Some(call_id) = &m.tool_call_id {
                if id_in(&emitted, call_id.as_str()) {
                    let output = match &m.content {
                        Some(c) => c.clone(),
                        None => String::new(),
                    };
                    input.push(
                        CodexInputItem::FunctionCallOutput { call_id: call_id.clone(), output },
                    );
                }
            }
            assert(messages@[i as int] == *m);
            assert(emitted_by(*m, done_set) =~= Set::<Seq<char>>::empty());
            assert(items_view(input@) =~= input_items(messages@, i + 1));
            assert(emitted_before(messages@, done_set, i + 1) =~= before_emitted);
        } else {
            assert(messages@[i as int] == *m);
            assert(emitted_by(*m, done_set) =~= Set::<Seq<char>>::empty());
            assert(items_view(input@) =~= input_items(messages@, i + 1));
            assert(emitted_before(messages@, done_set, i + 1) =~= before_emitted);
        }
        i = i + 1;
    }
    let instructions = if parts.len() == 0 {
        DEFAULT_CODEX_INSTRUCTIONS.to_owned()
    } else {
        join_strings(&parts, "\n\n")
    };
    (instructions, input)
}

/// `parts` joined by `sep`.
pub fn join_strings(parts: &Vec<String>, sep: &str) -> (r: String)
    ensures
        r@ == join(views(parts@), sep@),
{
    let mut r = String::new();
    let sepv = chars_of(sep);
    let mut i: usize = 0;
    while i < parts.len()
        invariant
            i <= parts.len(),
            sepv@ == sep@,
            r@ == join(views(parts@).subrange(0, i as int), sep@),
        decreases parts.len() - i,
    {
        let pv = chars_of(parts[i].as_str());
        let ghost prev = views(parts@).subrange(0, i as int);
        if i > 0 {
            push_chars(&mut r, &sepv);
        }
        push_chars(&mut r, &pv);
        assert(views(parts@).subrange(0, i + 1).drop_last() =~= prev);
        proof {
            if i == 0 {
                assert(r@ =~= join(views(parts@).subrange(0, 1), sep@));
            }
        }
        i = i + 1;
    }
    assert(views(parts@).subrange(0, parts.len() as int) =~= views(parts@));
    r
}

/// Model id sent to Codex: legacy aliases and a blank model map to the current default.
pub open spec fn codex_model_spec(model: Seq<char>) -> Seq<char> {
    if trim(model).len() == 0 || model == "codex-cli"@ || model == "codex-mini-latest"@ || model
        == "o4-mini"@ || model == "o3"@ || model == "gpt-5-3"@ || model == "gpt-5-3-instant"@
        || model == "gpt-5.4"@ {
        "gpt-5.5"@
    } else {
        model
    }
}

/// The model of a Codex request.
pub fn resolve_codex_model(profile: &LLMProfile) -> (r: String)
    ensures
        r@ == codex_model_spec(profile.model@),
{
    let m = profile.model.as_str();
    if is_blank(m) || str_eq(m, "codex-cli") || str_eq(m, "codex-mini-latest") || str_eq(
        m,
        "o4-mini",
    ) || str_eq(m, "o3") || str_eq(m, "gpt-5-3") || str_eq(m, "gpt-5-3-instant") || str_eq(
        m,
        "gpt-5.4",
    ) {
        "gpt-5.5".to_owned()
    } else {
        profile.model.clone()
    }
}

/// Error text shown for a failed Codex response with HTTP `status` and `body`.
pub open spec fn codex_error_spec(status: u16, body: Seq<char>) -> Seq<char> {
    if status == 401 {
        "Codex: токен недействителен. Переавторизуйтесь в настройках профиля."@
    } else if status == 429 {
        "Codex: превышен лимит запросов. Попробуйте позже."@
    } else {
        match json_string_at(body, "/error/message"@) {
            Some(m) => m,
            None => "Codex API error "@ + decimal(status as nat) + " (подробности скрыты)"@,
        }
    }
}

/// Error text shown for a failed Codex response.
pub fn codex_api_error_message(status: u16, body: &str) -> (r: String)
    ensures
        r@ == codex_error_spec(status, body@),
{
    if status == 401 {
        "Codex: токен недействителен. Переавторизуйтесь в настройках профиля.".to_owned()
    } else if status == 429 {
        "Codex: превышен лимит запросов. Попробуйте позже.".to_owned()
    } else {
        match json_string_at_pointer(body, "/error/message") {
            Some(m) => m,
            None => {
                let n = u64_to_decimal(status as u64);
                concat3("Codex API error ", n.as_str(), " (подробности скрыты)")
            },
        }
    }
}

/// Log-safe summary of a failed response: status and body length in bytes.
pub fn safe_api_error_summary(status: u16, body: &str) -> (r: String)
    ensures
        r@ == "status="@ + decimal(status as nat) + " body_len="@ + decimal(body.len() as nat),
{
    let s = u64_to_decimal(status as u64);
    let n = u64_to_decimal(body.len() as u64);
    let head = concat3("status=", s.as_str(), " body_len=");
    let r = concat2(head.as_str(), n.as_str());
    assert(r@ =~= "status="@ + decimal(status as nat) + " body_len="@ + decimal(body.len() as nat));
    r
}


// ───────────────────────────── tool list ─────────────────────────────

/// A tool as offered to Codex; `parameters` holds the JSON schema text.
#[derive(Debug, Clone)]
pub struct CodexTool {
    /// Always `function`.
    pub kind: String,
    pub name: String,
    pub description: String,
    pub parameters: String,
}

/// The Codex names of the tools before duplicates are numbered.
pub open spec fn codex_base_names(tools: Seq<Tool>) -> Seq<Seq<char>> {
    tools.map_values(|t: Tool| codex_tool_name(t.function.name@))
}

/// How many of the first `k` names equal `n`.
pub open spec fn count_of(names: Seq<Seq<char>>, k: int, n: Seq<char>) -> nat
    decreases k,
{
    if k <= 0 {
        0
    } else {
        count_of(names, k - 1, n) + (if names[k - 1] == n {
            1nat
        } else {
            0nat
        })
    }
}

/// The suffix of the `count`-th repeat of a name.
pub open spec fn repeat_suffix(count: nat) -> Seq<char> {
    "_"@ + decimal(count)
}

/// Chars of a repeated name kept in front of its suffix, so that the whole stays within 64.
pub open spec fn repeat_cut(count: nat) -> nat {
    if repeat_suffix(count).len() <= MAX_TOOL_NAME_LEN {
        (MAX_TOOL_NAME_LEN - repeat_suffix(count).len()) as nat
    } else {
        0
    }
}

/// The Codex name of a tool whose base name occurred `count` times before: the base name
/// itself the first time, else the base name cut to make room for `_<count>`.
pub open spec fn numbered_codex_name(base: Seq<char>, count: nat) -> Seq<char> {
    if count == 0 {
        base
    } else {
        char_truncate(base, repeat_cut(count)) + repeat_suffix(count)
    }
}

/// Counting over a prefix sees only the prefix.
pub proof fn lemma_count_of_prefix(s: Seq<Seq<char>>, i: int, k: int, n: Seq<char>)
    requires
        0 <= k <= i <= s.len(),
    ensures
        count_of(s.subrange(0, i), k, n) == count_of(s, k, n),
    decreases k,
{
    if k > 0 {
        lemma_count_of_prefix(s, i, k - 1, n);
    }
}

/// The tool list for Codex: names sanitised and cut to 64 chars, and a repeated name
/// numbered (`name_1`, `name_2`, ...) so that Codex can tell the tools apart.
pub fn tools_to_codex(tools: &[Tool]) -> (r: Vec<CodexTool>)
    ensures
        r@.len() == tools@.len(),
        forall|i: int|
            0 <= i < r@.len() ==> {
                &&& (#[trigger] r@[i]).kind@ == "function"@
                &&& r@[i].name@ == numbered_codex_name(
                    codex_base_names(tools@)[i],
                    count_of(codex_base_names(tools@), i, codex_base_names(tools@)[i]),
                )
                &&& r@[i].description == tools@[i].function.description
                &&& r@[i].parameters == tools@[i].function.parameters
            },
{
    let ghost names = codex_base_names(tools@);
    let mut bases: Vec<String> = Vec::new();
    let mut r: Vec<CodexTool> = Vec::new();
    let mut i: usize = 0;
    while i < tools.len()
        invariant
            i <= tools@.len(),
            names == codex_base_names(tools@),
            names.len() == tools@.len(),
            bases@.len() == i,
            views(bases@) == names.subrange(0, i as int),
            r@.len() == i,
            forall|k: int|
                0 <= k < i ==> {
                    &&& (#[trigger] r@[k]).kind@ == "function"@
                    &&& r@[k].name@ == numbered_codex_name(names[k], count_of(names, k, names[k]))
                    &&& r@[k].description == tools@[k].function.description
                    &&& r@[k].parameters == tools@[k].function.parameters
                },
        decreases tools.len() - i,
    {
        let t = &tools[i];
        let base = sanitize_codex_tool_name(t.function.name.as_str());
        assert(base@ == names[i as int]);
        let mut count: usize = 0;
        let mut j: usize = 0;
        while j < bases.len()
            invariant
                j <= bases@.len(),
                bases@.len() == i,
                i < names.len(),
                views(bases@) == names.subrange(0, i as int),
                count <= j,
                count == count_of(names.subrange(0, i as int), j as int, base@),
            decreases bases.len() - j,
        {
            assert(views(bases@)[j as int] == bases@[j as int]@);
            if str_eq(bases[j].as_str(), base.as_str()) {
                count = count + 1;
            }
            j = j + 1;
        }
        proof {
            lemma_count_of_prefix(names, i as int, i as int, base@);
        }
        assert(count == count_of(names, i as int, names[i as int]));
        let name = if count == 0 {
            base.clone()
        } else {
            let mut suffix = "_".to_owned();
            push_str(&mut suffix, u64_to_decimal(count as u64).as_str());
            let sv = chars_of(suffix.as_str());
            let cut = if sv.len() <= MAX_TOOL_NAME_LEN {
                MAX_TOOL_NAME_LEN - sv.len()
            } else {
                0
            };
            assert(cut == repeat_cut(count as nat));
            let bv = chars_of(base.as_str());
            let kept = truncate_chars(&bv, cut);
            let mut n = string_of(&kept);
            push_str(&mut n, suffix.as_str());
            n
        };
        let ghost before = views(bases@);
        bases.push(base);
        assert(views(bases@) =~= before.push(names[i as int]));
        assert(names.subrange(0, i + 1) =~= names.subrange(0, i as int).push(names[i as int]));
        r.push(
            CodexTool {
                kind: "function".to_owned(),
                name,
                description: t.function.description.clone(),
                parameters: t.function.parameters.clone(),
            },
        );
        i = i + 1;
    }
    r
}


// ───────────────────────────── tool-call arguments ─────────────────────────────

/// Index of the `"` that closes a JSON string literal, scanning from `j` (`escaped`: the
/// char before `j` was an escaping backslash).
pub open spec fn closing_quote(s: Seq<char>, j: int, escaped: bool) -> Option<int>
    decreases s.len() - j,
{
    if j < 0 || j >= s.len() {
        None
    } else if escaped {
        closing_quote(s, j + 1, false)
    } else if s[j] == '\\' {
        closing_quote(s, j + 1, true)
    } else if s[j] == '"' {
        Some(j)
    } else {
        closing_quote(s, j + 1, false)
    }
}

/// A closing quote lies at or after the scan's start.
proof fn lemma_closing_quote_bounds(s: Seq<char>, j: int, escaped: bool)
    ensures
        closing_quote(s, j, escaped) matches Some(e) ==> 0 <= j <= e < s.len() && s[e] == '"',
    decreases s.len() - j,
{
    if 0 <= j < s.len() {
        lemma_closing_quote_bounds(s, j + 1, escaped || s[j] == '\\' && !escaped);
        lemma_closing_quote_bounds(s, j + 1, false);
        lemma_closing_quote_bounds(s, j + 1, true);
    }
}

/// The compact JSON text `s` from index `i` on, with the HTML entities of every string value
/// (a string literal not followed by `:`) decoded, a decoded `"` written as `\\"`; keys and
/// everything outside strings stay as they are.
pub open spec fn json_values_unescaped(s: Seq<char>, i: int) -> Seq<char>
    decreases s.len() - i,
{
    if i < 0 || i >= s.len() {
        Seq::empty()
    } else if s[i] == '"' {
        match closing_quote(s, i + 1, false) {
            None => s.subrange(i, s.len() as int),
            Some(e) => if i < e < s.len() {
                seq!['"'] + (if e + 1 < s.len() && s[e + 1] == ':' {
                    s.subrange(i + 1, e)
                } else {
                    decode_entities(s.subrange(i + 1, e), true)
                }) + seq!['"'] + json_values_unescaped(s, e + 1)
            } else {
                s.subrange(i, s.len() as int)
            },
        }
    } else {
        seq![s[i]] + json_values_unescaped(s, i + 1)
    }
}

/// Tool-call arguments as Codex sends them, with the HTML entities it sometimes emits
/// decoded: arguments that parse as JSON are written compactly (keys in order) with the
/// entities of their string values decoded; other arguments are decoded as plain text.
pub open spec fn normalized_codex_arguments(arguments: Seq<char>) -> Seq<char> {
    match json_reserialized(arguments) {
        Some(t) => json_values_unescaped(t, 0),
        None => unescape_html_spec(arguments),
    }
}

fn json_values_unescaped_chars(s: &[char]) -> (r: Vec<char>)
    ensures
        r@ == json_values_unescaped(s@, 0),
{
    let mut out: Vec<char> = Vec::new();
    let mut i: usize = 0;
    while i < s.len()
        invariant
            i <= s@.len(),
            out@ + json_values_unescaped(s@, i as int) == json_values_unescaped(s@, 0),
        decreases s.len() - i,
    {
        let ghost before = out@;
        if s[i] == '"' {
            let mut j = i + 1;
            let mut escaped = false;
            let mut found: Option<usize> = None;
            while j < s.len()
                invariant_except_break
                    found is None,
                invariant
                    i + 1 <= j <= s@.len(),
                    i < s@.len(),
                    found is None ==> closing_quote(s@, i + 1, false) == closing_quote(s@, j as int, escaped),
                ensures
                    found matches Some(e) ==> closing_quote(s@, i + 1, false) == Some(e as int),
                    found is None ==> closing_quote(s@, i + 1, false) is None,
                decreases s.len() - j,
            {
                if escaped {
                    escaped = false;
                } else if s[j] == '\\' {
                    escaped = true;
                } else if s[j] == '"' {
                    found = Some(j);
                    break;
                }
                j = j + 1;
            }
            proof {
                lemma_closing_quote_bounds(s@, i + 1, false);
            }
            match found {
                None => {
                    assert(closing_quote(s@, i + 1, false) is None);
                    let rest = slice_chars(s, i, s.len());
                    let mut k: usize = 0;
                    while k < rest.len()
                        invariant
                            k <= rest@.len(),
                            out@ == before + rest@.subrange(0, k as int),
                        decreases rest.len() - k,
                    {
                        out.push(rest[k]);
                        k = k + 1;
                        assert(out@ =~= before + rest@.subrange(0, k as int));
                    }
                    assert(rest@.subrange(0, rest@.len() as int) =~= rest@);
                    assert(json_values_unescaped(s@, s@.len() as int) =~= Seq::<char>::empty());
                    assert(out@ + json_values_unescaped(s@, s@.len() as int) =~= before + json_values_unescaped(
                        s@,
                        i as int,
                    ));
                    i = s.len();
                },
                Some(e) => {
                    assert(closing_quote(s@, i + 1, false) == Some(e as int));
                    let body = slice_chars(s, i + 1, e);
                    let is_key = e + 1 < s.len() && s[e + 1] == ':';
                    let inner = if is_key {
                        body
                    } else {
                        decode_entities_chars(&body, true)
                    };
                    out.push('"');
                    let mut k: usize = 0;
                    while k < inner.len()
                        invariant
                            k <= inner@.len(),
                            out@ == before + seq!['"'] + inner@.subrange(0, k as int),
                        decreases inner.len() - k,
                    {
                        out.push(inner[k]);
                        k = k + 1;
                        assert(out@ =~= before + seq!['"'] + inner@.subrange(0, k as int));
                    }
                    assert(inner@.subrange(0, inner@.len() as int) =~= inner@);
                    out.push('"');
                    assert(out@ =~= before + (seq!['"'] + inner@ + seq!['"']));
                    assert(out@ + json_values_unescaped(s@, e + 1) =~= before + json_values_unescaped(
                        s@,
                        i as int,
                    ));
                    i = e + 1;
                },
            }
        } else {
            out.push(s[i]);
            assert(out@ + json_values_unescaped(s@, i + 1) =~= before + json_values_unescaped(s@, i as int));
            i = i + 1;
        }
    }
    assert(json_values_unescaped(s@, i as int) =~= Seq::<char>::empty());
    assert(out@ + Seq::<char>::empty() =~= out@);
    out
}

/// Decodes the HTML entities in tool-call arguments from Codex, keeping JSON arguments
/// valid.
pub fn normalize_codex_tool_arguments(arguments: &str) -> (r: String)
    ensures
        r@ == normalized_codex_arguments(arguments@),
{
    match json_reserialize(arguments) {
        Some(t) => {
            let v = chars_of(t.as_str());
            string_of(&json_values_unescaped_chars(&v))
        },
        None => unescape_html(arguments),
    }
}

} // verus!
