//! Decoding of streamed chat responses: server-sent-event framing, the scan of streamed text
//! for thinking sections and inline tool calls, and the merge of tool-call deltas into the
//! assistant's reply.
use vstd::prelude::*;

use crate::ext::{
    is_alphabetic, json_inserted, json_object_has_key, json_object_key_present,
    json_object_member, json_object_member_text, json_quoted, json_reserialize,
    json_reserialized, json_string_at, json_string_at_pointer, json_string_literal,
    json_with_field, unicode_alphabetic, utf8_lossy, utf8_lossy_text,
};
use crate::models::{ApiMessage, StreamDelta, ToolCall, ToolCallDelta, ToolCallFunction};
use crate::text::{
    chars_of, concat2, decimal, find_first, first_from, has_prefix, is_first_occurrence_from,
    lines_of, occurs_at, push_chars, push_str, replace_all, replace_chars, rfind_char,
    slice_bytes, slice_chars, split_lines, starts_with_chars, string_of, trim, trim_chars,
    u64_to_decimal, utf8_len, utf8_prefix, views,
};

verus! {

// ───────────────────────────── server-sent events ─────────────────────────────

/// A blank line (two line feeds) starts at byte `i`.
pub open spec fn blank_line_at(b: Seq<u8>, i: int) -> bool {
    0 <= i && i + 1 < b.len() && b[i] == 10u8 && b[i + 1] == 10u8
}

/// `i` is the first blank line of `b`.
pub open spec fn is_first_blank_line(b: Seq<u8>, i: int) -> bool {
    blank_line_at(b, i) && forall|j: int| 0 <= j < i ==> !blank_line_at(b, j)
}

/// Where the first complete event of a buffer ends: the position of its first blank line.
pub open spec fn first_event_end(b: Seq<u8>) -> Option<int> {
    if exists|i: int| is_first_blank_line(b, i) {
        Some(choose|i: int| is_first_blank_line(b, i))
    } else {
        None
    }
}

proof fn lemma_first_blank_unique(b: Seq<u8>, i: int, k: int)
    requires
        is_first_blank_line(b, i),
        is_first_blank_line(b, k),
    ensures
        i == k,
{
    if i < k {
        assert(!blank_line_at(b, i));
    } else if k < i {
        assert(!blank_line_at(b, k));
    }
}

/// Takes the first complete event (up to and including its blank line) off the front of
/// the buffer; the buffer stays as it is when it holds no complete event.
pub fn take_sse_event(buffer: &mut Vec<u8>) -> (r: Option<Vec<u8>>)
    ensures
        match first_event_end(old(buffer)@) {
            Some(i) => r matches Some(e) && e@ == old(buffer)@.subrange(0, i + 2)
                && final(buffer)@ == old(buffer)@.subrange(i + 2, old(buffer)@.len() as int),
            None => r is None && final(buffer)@ == old(buffer)@,
        },
{
    let mut i: usize = 0;
    while i < buffer.len() && i + 1 < buffer.len()
        invariant
            buffer@ == old(buffer)@,
            forall|j: int| 0 <= j < i ==> !blank_line_at(buffer@, j),
        decreases buffer.len() - i,
    {
        if buffer[i] == 10u8 && buffer[i + 1] == 10u8 {
            proof {
                assert(is_first_blank_line(buffer@, i as int));
                let k = choose|k: int| is_first_blank_line(buffer@, k);
                lemma_first_blank_unique(buffer@, i as int, k);
            }
            let event = slice_bytes(buffer, 0, i + 2);
            let rest = slice_bytes(buffer, i + 2, buffer.len());
            *buffer = rest;
            return Some(event);
        }
        i = i + 1;
    }
    proof {
        assert forall|k: int| !is_first_blank_line(buffer@, k) by {
            if is_first_blank_line(buffer@, k) {
                assert(blank_line_at(buffer@, k));
            }
        }
    }
    None
}

/// The payload of a `data:` line (with or without the space after the colon).
pub open spec fn sse_data(line: Seq<char>) -> Option<Seq<char>> {
    if has_prefix(line, "data: "@) {
        Some(line.subrange(6, line.len() as int))
    } else if has_prefix(line, "data:"@) {
        Some(line.subrange(5, line.len() as int))
    } else {
        None
    }
}

/// The payloads of the `data:` lines, in order.
pub open spec fn data_payloads(lines: Seq<Seq<char>>) -> Seq<Seq<char>>
    decreases lines.len(),
{
    if lines.len() == 0 {
        Seq::empty()
    } else {
        let r = data_payloads(lines.drop_last());
        match sse_data(lines.last()) {
            Some(d) => r.push(d),
            None => r,
        }
    }
}

/// The `data:` payloads of one event, read as (lossy) UTF-8 text.
pub fn sse_data_payloads(event: &[u8]) -> (r: Vec<String>)
    ensures
        views(r@) == data_payloads(split_lines(utf8_lossy_text(event@))),
{
    let text = utf8_lossy(event);
    let v = chars_of(text.as_str());
    let lines = lines_of(&v);
    let ghost ls = lines@.map_values(|l: Vec<char>| l@);
    let with_space = chars_of("data: ");
    let bare = chars_of("data:");
    proof {
        reveal_strlit("data: ");
        reveal_strlit("data:");
        assert("data: "@.len() == 6);
        assert("data:"@.len() == 5);
    }
    let mut r: Vec<String> = Vec::new();
    let mut i: usize = 0;
    while i < lines.len()
        invariant
            i <= lines@.len(),
            ls == lines@.map_values(|l: Vec<char>| l@),
            ls == split_lines(utf8_lossy_text(event@)),
            with_space@ == "data: "@,
            bare@ == "data:"@,
            with_space@.len() == 6,
            bare@.len() == 5,
            views(r@) == data_payloads(ls.subrange(0, i as int)),
        decreases lines.len() - i,
    {
        let line = &lines[i];
        assert(ls[i as int] == line@);
        assert(ls.subrange(0, i + 1).drop_last() =~= ls.subrange(0, i as int));
        let ghost before = views(r@);
        if crate::text::starts_with_chars(line, &with_space) {
            r.push(string_of(&slice_chars(line, 6, line.len())));
            assert(views(r@) =~= before.push(line@.subrange(6, line@.len() as int)));
        } else if crate::text::starts_with_chars(line, &bare) {
            r.push(string_of(&slice_chars(line, 5, line.len())));
            assert(views(r@) =~= before.push(line@.subrange(5, line@.len() as int)));
        }
        i = i + 1;
    }
    assert(ls.subrange(0, lines@.len() as int) =~= ls);
    r
}

// ───────────────────────────── decoded events ─────────────────────────────

/// What decoding a streamed response produces for the chat window.
#[derive(Debug, Clone)]
pub enum StreamEvent {
    /// Visible answer text.
    Chunk(String),
    /// Text of the model's thinking.
    Thinking(String),
    /// A new status line.
    Status(String),
    /// A tool call became known.
    ToolCallStarted { index: usize, id: String, name: String },
    /// More arguments of a tool call arrived.
    ToolCallProgress { index: usize, arguments: String },
}

/// A decoded event as text.
pub enum EventView {
    Chunk(Seq<char>),
    Thinking(Seq<char>),
    Status(Seq<char>),
    Started(int, Seq<char>, Seq<char>),
    Progress(int, Seq<char>),
}

/// The text form of an event.
pub open spec fn event_view(e: StreamEvent) -> EventView {
    match e {
        StreamEvent::Chunk(t) => EventView::Chunk(t@),
        StreamEvent::Thinking(t) => EventView::Thinking(t@),
        StreamEvent::Status(t) => EventView::Status(t@),
        StreamEvent::ToolCallStarted { index, id, name } => EventView::Started(
            index as int,
            id@,
            name@,
        ),
        StreamEvent::ToolCallProgress { index, arguments } => EventView::Progress(
            index as int,
            arguments@,
        ),
    }
}

/// The text form of a list of events.
pub open spec fn events_view(es: Seq<StreamEvent>) -> Seq<EventView> {
    es.map_values(|e: StreamEvent| event_view(e))
}

/// A tool call as text: id, kind, function name and arguments.
pub type CallView = (Seq<char>, Seq<char>, Seq<char>, Seq<char>);

/// The text form of a tool call.
pub open spec fn call_view(tc: ToolCall) -> CallView {
    (tc.id@, tc.kind@, tc.function.name@, tc.function.arguments@)
}

/// The text form of a list of tool calls.
pub open spec fn calls_view(cs: Seq<ToolCall>) -> Seq<CallView> {
    cs.map_values(|tc: ToolCall| call_view(tc))
}

/// State of a streamed response being decoded.
#[verifier::ext_equal]
pub struct DecoderView {
    /// Answer text shown so far.
    pub full: Seq<char>,
    /// Received text not yet classified (it may end in the start of a tag).
    pub pending: Seq<char>,
    /// Inside a thinking section.
    pub thinking: bool,
    /// Inside an inline tool call (`<tool_call>` or `<function=`).
    pub in_call: bool,
    /// The inline tool call received so far.
    pub call_buf: Seq<char>,
    /// The status already switched to execution.
    pub executing: bool,
    /// Tool calls collected so far.
    pub calls: Seq<CallView>,
    /// Indices of the tool calls already announced.
    pub announced: Seq<usize>,
}

/// Status shown while the model thinks.
pub open spec fn thinking_status() -> Seq<char> {
    "Размышляю..."@
}

/// Status shown while the answer is produced.
pub open spec fn executing_status() -> Seq<char> {
    "Выполнение..."@
}

/// Status shown when a `<thinking>` section opens.
pub open spec fn planning_status() -> Seq<char> {
    "Планирование (EN)..."@
}

// ───────────────────────────── the scan of streamed text ─────────────────────────────

/// `i` is the last index of `c` in `s`.
pub open spec fn is_last_index(s: Seq<char>, c: char, i: int) -> bool {
    0 <= i < s.len() && s[i] == c && forall|j: int| i < j < s.len() ==> s[j] != c
}

/// The last index of `c` in `s`, if any.
pub open spec fn last_index_of(s: Seq<char>, c: char) -> Option<int> {
    if exists|i: int| is_last_index(s, c, i) {
        Some(choose|i: int| is_last_index(s, c, i))
    } else {
        None
    }
}

/// `s` without the tags `</tool_call>` and `<tool_call>`.
pub open spec fn strip_call_tags(s: Seq<char>) -> Seq<char> {
    replace_all(replace_all(s, "</tool_call>"@, Seq::empty()), "<tool_call>"@, Seq::empty())
}

/// The `<` at `k` may open a tag: a letter, `/` or `?` follows it.
pub open spec fn may_open_tag(s: Seq<char>, k: int) -> bool {
    k + 1 < s.len() && (unicode_alphabetic(s[k + 1]) || s[k + 1] == '/' || s[k + 1] == '?')
}

/// The tail of `s` from `k` is short enough (under 15 bytes) to be an unfinished tag.
pub open spec fn short_tail(s: Seq<char>, k: int) -> bool {
    utf8_len(s.subrange(k, s.len() as int)) < 15
}

/// Shows `text` as answer text when it is not empty.
pub open spec fn show(v: DecoderView, text: Seq<char>) -> (DecoderView, Seq<EventView>) {
    if text.len() > 0 {
        (DecoderView { full: v.full + text, ..v }, seq![EventView::Chunk(text)])
    } else {
        (v, Seq::empty())
    }
}

/// One step of the scan of the pending text; the flag says whether the scan goes on.
pub open spec fn scan_step(v: DecoderView) -> (DecoderView, Seq<EventView>, bool) {
    let p = v.pending;
    if !v.thinking {
        match first_from(p, "<tool_call>"@, 0) {
            Some(i) => {
                let (v1, e) = show(v, p.subrange(0, i));
                (
                    DecoderView {
                        in_call: true,
                        call_buf: p.subrange(i, p.len() as int),
                        pending: Seq::empty(),
                        ..v1
                    },
                    e,
                    false,
                )
            },
            None => match first_from(p, "<function="@, 0) {
                Some(i) => {
                    let (v1, e) = show(v, p.subrange(0, i));
                    (
                        DecoderView {
                            in_call: true,
                            call_buf: p.subrange(i, p.len() as int),
                            pending: Seq::empty(),
                            ..v1
                        },
                        e,
                        false,
                    )
                },
                None => match first_from(p, "<thinking>"@, 0) {
                    Some(i) => {
                        let (v1, e) = show(v, p.subrange(0, i));
                        (
                            DecoderView {
                                thinking: true,
                                pending: p.subrange(i + 10, p.len() as int),
                                ..v1
                            },
                            e.push(EventView::Status(planning_status())),
                            true,
                        )
                    },
                    None => match last_index_of(p, '<') {
                        Some(k) => if may_open_tag(p, k) && short_tail(p, k) {
                            if k > 0 {
                                let (v1, e) = show(v, strip_call_tags(p.subrange(0, k)));
                                (
                                    DecoderView { pending: p.subrange(k, p.len() as int), ..v1 },
                                    e,
                                    false,
                                )
                            } else {
                                (v, Seq::empty(), false)
                            }
                        } else {
                            let (v1, e) = show(v, strip_call_tags(p));
                            (DecoderView { pending: Seq::empty(), ..v1 }, e, false)
                        },
                        None => {
                            let (v1, e) = show(v, strip_call_tags(p));
                            (DecoderView { pending: Seq::empty(), ..v1 }, e, false)
                        },
                    },
                },
            },
        }
    } else {
        match first_from(p, "</thinking>"@, 0) {
            Some(i) => (
                DecoderView {
                    thinking: false,
                    executing: true,
                    pending: p.subrange(i + 11, p.len() as int),
                    ..v
                },
                (if i > 0 {
                    seq![EventView::Thinking(p.subrange(0, i))]
                } else {
                    Seq::empty()
                }).push(EventView::Status(executing_status())),
                true,
            ),
            None => match last_index_of(p, '<') {
                Some(k) => if short_tail(p, k) {
                    if k > 0 {
                        (
                            DecoderView { pending: p.subrange(k, p.len() as int), ..v },
                            seq![EventView::Thinking(p.subrange(0, k))],
                            false,
                        )
                    } else {
                        (v, Seq::empty(), false)
                    }
                } else {
                    (
                        DecoderView { pending: Seq::empty(), ..v },
                        seq![EventView::Thinking(p)],
                        false,
                    )
                },
                None => (
                    DecoderView { pending: Seq::empty(), ..v },
                    seq![EventView::Thinking(p)],
                    false,
                ),
            },
        }
    }
}

/// The scan of the pending text: steps until one ends the scan; nothing is scanned inside
/// an inline tool call.
pub open spec fn scan_loop(v: DecoderView) -> (DecoderView, Seq<EventView>)
    decreases v.pending.len(),
{
    if v.in_call {
        (v, Seq::empty())
    } else {
        let (v2, e, more) = scan_step(v);
        if more && v2.pending.len() < v.pending.len() {
            let (v3, e3) = scan_loop(v2);
            (v3, e + e3)
        } else {
            (v2, e)
        }
    }
}

// ───────────────────────────── inline tool calls ─────────────────────────────

/// The `<parameter=name>value</parameter>` pairs of a `<function=…>` body from `pos` on,
/// in order, values trimmed; reading stops at the first incomplete parameter.
pub open spec fn parameters(body: Seq<char>, pos: int) -> Seq<(Seq<char>, Seq<char>)>
    decreases body.len() - pos,
{
    match first_from(body, "<parameter="@, pos) {
        None => Seq::empty(),
        Some(start) => match first_from(body, ">"@, start) {
            None => Seq::empty(),
            Some(gt) => match first_from(body, "</parameter>"@, gt + 1) {
                None => Seq::empty(),
                Some(end) => if pos < end + 12 <= body.len() && start + 11 <= gt {
                    seq![(body.subrange(start + 11, gt), trim(body.subrange(gt + 1, end)))]
                        + parameters(body, end + 12)
                } else {
                    Seq::empty()
                },
            },
        },
    }
}

/// The JSON object of string parameters, inserted in order (a later name replaces an
/// earlier one).
pub open spec fn params_object(ps: Seq<(Seq<char>, Seq<char>)>) -> Option<Seq<char>>
    decreases ps.len(),
{
    if ps.len() == 0 {
        Some("{}"@)
    } else {
        match params_object(ps.drop_last()) {
            None => None,
            Some(o) => json_inserted(o, ps.last().0, json_quoted(ps.last().1)),
        }
    }
}

/// Arguments text of a `<function=…>` body.
pub open spec fn function_arguments(body: Seq<char>) -> Seq<char> {
    match params_object(parameters(body, 0)) {
        Some(t) => t,
        None => "{}"@,
    }
}

/// Arguments text of a `<tool_call>` JSON document: the `arguments` object as compact
/// JSON, a string as is, `{}` for another value, empty when there is none.
pub open spec fn xml_call_arguments(json: Seq<char>) -> Seq<char> {
    if json_object_has_key(json, "arguments"@) == Some(true) {
        match json_object_member_text(json, "arguments"@) {
            Some(t) => t,
            None => match json_string_at(json, "/arguments"@) {
                Some(s) => s,
                None => "{}"@,
            },
        }
    } else {
        Seq::empty()
    }
}

/// Name and arguments of a `<tool_call>` JSON document: it must parse and name a function.
pub open spec fn xml_call(json: Seq<char>) -> Option<(Seq<char>, Seq<char>)> {
    if json_reserialized(json) is None {
        None
    } else {
        let name = match json_string_at(json, "/name"@) {
            Some(n) => n,
            None => Seq::empty(),
        };
        if name.len() == 0 {
            None
        } else {
            Some((name, xml_call_arguments(json)))
        }
    }
}

/// Adds a completed inline call with an id made of `prefix` and its index.
pub open spec fn add_inline_call(
    v: DecoderView,
    prefix: Seq<char>,
    name: Seq<char>,
    args: Seq<char>,
) -> (DecoderView, Seq<EventView>) {
    let n = v.calls.len();
    let id = prefix + decimal(n);
    (
        DecoderView { calls: v.calls.push((id, "function"@, name, args)), ..v },
        seq![EventView::Started(n as int, id, name)],
    )
}

/// Inside an inline call, the received text joins the call; once the call's closing tag
/// has arrived the call is read, and the text after the tag becomes pending text.
pub open spec fn close_call(v: DecoderView) -> (DecoderView, Seq<EventView>) {
    if !v.in_call {
        (v, Seq::empty())
    } else {
        let buf = v.call_buf + v.pending;
        if has_prefix(buf, "<tool_call>"@) {
            match first_from(buf, "</tool_call>"@, 0) {
                None => (DecoderView { call_buf: buf, pending: Seq::empty(), ..v }, Seq::empty()),
                Some(e) => {
                    let json = trim(buf.subrange(11, e));
                    let base = DecoderView {
                        in_call: false,
                        call_buf: Seq::empty(),
                        pending: buf.subrange(e + 12, buf.len() as int),
                        ..v
                    };
                    match xml_call(json) {
                        Some((name, args)) => add_inline_call(base, "tc_xml_"@, name, args),
                        None => (base, Seq::empty()),
                    }
                },
            }
        } else {
            match first_from(buf, "</function>"@, 0) {
                None => (DecoderView { call_buf: buf, pending: Seq::empty(), ..v }, Seq::empty()),
                Some(e) => {
                    let block = buf.subrange(0, e + 11);
                    let base = DecoderView {
                        in_call: false,
                        call_buf: Seq::empty(),
                        pending: buf.subrange(e + 11, buf.len() as int),
                        ..v
                    };
                    let tail = block.subrange(10, block.len() as int);
                    match first_from(tail, ">"@, 0) {
                        None => (base, Seq::empty()),
                        Some(ne) => add_inline_call(
                            base,
                            "qwen_fn_"@,
                            tail.subrange(0, ne),
                            function_arguments(tail.subrange(ne + 1, tail.len() as int)),
                        ),
                    }
                },
            }
        }
    }
}

// ───────────────────────────── tool-call deltas ─────────────────────────────

/// An empty function call, the placeholder for a call whose first delta has not come.
pub open spec fn empty_call() -> CallView {
    (Seq::empty(), "function"@, Seq::empty(), Seq::empty())
}

/// The calls extended with empty calls until index `idx` exists.
pub open spec fn padded_calls(calls: Seq<CallView>, idx: int) -> Seq<CallView> {
    if idx < calls.len() {
        calls
    } else {
        calls + Seq::new((idx + 1 - calls.len()) as nat, |k: int| empty_call())
    }
}

/// Index a delta applies to (0 when it names none).
pub open spec fn delta_index(d: ToolCallDelta) -> int {
    match d.index {
        Some(i) => i as int,
        None => 0,
    }
}

/// A call after a delta: the id is set when it is still empty, name and arguments grow.
pub open spec fn merged_call(c: CallView, d: ToolCallDelta) -> CallView {
    let id = match d.id {
        Some(i) => if c.0.len() == 0 {
            i@
        } else {
            c.0
        },
        None => c.0,
    };
    let name = match d.function {
        Some(f) => match f.name {
            Some(n) => c.2 + n@,
            None => c.2,
        },
        None => c.2,
    };
    let args = match d.function {
        Some(f) => match f.arguments {
            Some(a) => c.3 + a@,
            None => c.3,
        },
        None => c.3,
    };
    (id, c.1, name, args)
}

/// Applies one tool-call delta: the call is created when needed and merged; arguments are
/// reported as progress, and a call is announced once it has an id or a name.
pub open spec fn apply_delta(v: DecoderView, d: ToolCallDelta) -> (DecoderView, Seq<EventView>) {
    let idx = delta_index(d);
    let calls = padded_calls(v.calls, idx);
    let c = merged_call(calls[idx], d);
    let progress = match d.function {
        Some(f) => match f.arguments {
            Some(a) => seq![EventView::Progress(idx, a@)],
            None => Seq::empty(),
        },
        None => Seq::empty(),
    };
    let announce = !v.announced.contains(idx as usize) && (c.0.len() > 0 || c.2.len() > 0);
    (
        DecoderView {
            calls: calls.update(idx, c),
            announced: if announce {
                v.announced.push(idx as usize)
            } else {
                v.announced
            },
            ..v
        },
        if announce {
            progress.push(EventView::Started(idx, c.0, c.2))
        } else {
            progress
        },
    )
}

/// Applies the deltas in order.
pub open spec fn apply_deltas(v: DecoderView, ds: Seq<ToolCallDelta>) -> (DecoderView, Seq<EventView>)
    decreases ds.len(),
{
    if ds.len() == 0 {
        (v, Seq::empty())
    } else {
        let (v1, e1) = apply_deltas(v, ds.drop_last());
        let (v2, e2) = apply_delta(v1, ds.last());
        (v2, e1 + e2)
    }
}

// ───────────────────────────── one streamed delta ─────────────────────────────

/// The status changes that reasoning text, or answer text after reasoning, brings.
pub open spec fn reasoning_step(v: DecoderView, d: StreamDelta) -> (DecoderView, Seq<EventView>) {
    match d.reasoning_content {
        Some(r) => if r@.len() > 0 {
            if !v.thinking {
                (
                    DecoderView { thinking: true, ..v },
                    seq![EventView::Status(thinking_status()), EventView::Thinking(r@)],
                )
            } else {
                (v, seq![EventView::Thinking(r@)])
            }
        } else {
            (v, Seq::empty())
        },
        None => if v.thinking && (d.content matches Some(c) && c@.len() > 0) {
            (
                DecoderView { thinking: false, executing: true, ..v },
                seq![EventView::Status(executing_status())],
            )
        } else {
            (v, Seq::empty())
        },
    }
}

/// Answer text of a delta: the first non-blank text outside thinking switches the status,
/// then the text is scanned.
pub open spec fn content_step(v: DecoderView, d: StreamDelta) -> (DecoderView, Seq<EventView>) {
    match d.content {
        Some(c) => {
            let (v1, e1) = if !v.executing && !v.thinking && trim(c@).len() > 0 {
                (DecoderView { executing: true, ..v }, seq![EventView::Status(executing_status())])
            } else {
                (v, Seq::empty())
            };
            let (v2, e2) = scan_loop(DecoderView { pending: v1.pending + c@, ..v1 });
            (v2, e1 + e2)
        },
        None => (v, Seq::empty()),
    }
}

/// The whole effect of one streamed delta.
pub open spec fn delta_step(v: DecoderView, d: StreamDelta) -> (DecoderView, Seq<EventView>) {
    let (v1, e1) = reasoning_step(v, d);
    let (v2, e2) = content_step(v1, d);
    let (v3, e3) = close_call(v2);
    let (v4, e4) = match d.tool_calls {
        Some(ds) => apply_deltas(v3, ds@),
        None => (v3, Seq::empty()),
    };
    (v4, e1 + e2 + e3 + e4)
}

/// What is left when the stream ends: pending text goes out as thinking or answer text (it
/// is dropped inside an inline call), and an unfinished inline call is shown as text.
pub open spec fn flush(v: DecoderView) -> (DecoderView, Seq<EventView>) {
    let (v1, e1) = if v.pending.len() > 0 {
        if v.thinking {
            (DecoderView { pending: Seq::empty(), ..v }, seq![EventView::Thinking(v.pending)])
        } else if !v.in_call {
            (
                DecoderView { full: v.full + v.pending, pending: Seq::empty(), ..v },
                seq![EventView::Chunk(v.pending)],
            )
        } else {
            (DecoderView { pending: Seq::empty(), ..v }, Seq::empty())
        }
    } else {
        (v, Seq::empty())
    };
    if v1.in_call && v1.call_buf.len() > 0 {
        (
            DecoderView { full: v1.full + v1.call_buf, call_buf: Seq::empty(), ..v1 },
            e1.push(EventView::Chunk(v1.call_buf)),
        )
    } else {
        (v1, e1)
    }
}

/// A call whose arguments are not JSON gets `{}` (done when the provider ends the stream).
pub open spec fn with_json_arguments(c: CallView) -> CallView {
    if json_reserialized(c.3) is None {
        (c.0, c.1, c.2, "{}"@)
    } else {
        c
    }
}

/// The assistant's reply of a decoded stream.
pub open spec fn reply_of(full: Seq<char>, calls: Seq<CallView>, m: ApiMessage) -> bool {
    &&& m.role@ == "assistant"@
    &&& (if full.len() == 0 {
        m.content is None
    } else {
        m.content matches Some(t) && t@ == full
    })
    &&& (if calls.len() == 0 {
        m.tool_calls is None
    } else {
        m.tool_calls matches Some(cs) && calls_view(cs@) == calls
    })
    &&& m.tool_call_id is None
    &&& m.name is None
}

// ───────────────────────────── laws of the scan ─────────────────────────────

proof fn lemma_no_lt_no_tag(c: Seq<char>, p: Seq<char>, from: int)
    requires
        p.len() > 0,
        p[0] == '<',
        forall|i: int| 0 <= i < c.len() ==> c[i] != '<',
    ensures
        first_from(c, p, from) is None,
{
    assert forall|i: int| !is_first_occurrence_from(c, p, from, i) by {
        if is_first_occurrence_from(c, p, from, i) {
            assert(c.subrange(i, i + p.len())[0] == c[i]);
        }
    }
}

/// Answer text without `<`, received outside thinking and inline tool calls with nothing
/// held back, is shown exactly as it came and added to the answer (after the status switch
/// to execution that the first non-blank text brings).
pub proof fn lemma_plain_text_is_shown(v: DecoderView, d: StreamDelta, t: String)
    requires
        !v.thinking,
        !v.in_call,
        v.pending.len() == 0,
        d.reasoning_content is None,
        d.tool_calls is None,
        d.content == Some(t),
        forall|i: int| 0 <= i < t@.len() ==> t@[i] != '<',
    ensures
        delta_step(v, d).0 == (DecoderView {
            full: v.full + t@,
            executing: v.executing || trim(t@).len() > 0,
            ..v
        }),
        delta_step(v, d).1 == (if !v.executing && trim(t@).len() > 0 {
            seq![EventView::Status(executing_status())]
        } else {
            Seq::empty()
        }) + (if t@.len() > 0 {
            seq![EventView::Chunk(t@)]
        } else {
            Seq::empty()
        }),
{
    let c = t@;
    reveal_strlit("<tool_call>");
    reveal_strlit("</tool_call>");
    reveal_strlit("<function=");
    reveal_strlit("<thinking>");
    lemma_no_lt_no_tag(c, "<tool_call>"@, 0);
    lemma_no_lt_no_tag(c, "<function="@, 0);
    lemma_no_lt_no_tag(c, "<thinking>"@, 0);
    lemma_no_lt_no_tag(c, "</tool_call>"@, 0);
    assert(replace_all(c, "</tool_call>"@, Seq::empty()) == c);
    lemma_no_lt_no_tag(c, "<tool_call>"@, 0);
    assert(strip_call_tags(c) == c);
    assert forall|i: int| !is_last_index(c, '<', i) by {
        if is_last_index(c, '<', i) {
            assert(c[i] == '<');
        }
    }
    assert(last_index_of(c, '<') is None);
    let (v1, e1) = reasoning_step(v, d);
    assert(v1 == v);
    let w = if !v.executing && !v.thinking && trim(c).len() > 0 {
        DecoderView { executing: true, ..v }
    } else {
        v
    };
    let start = DecoderView { pending: w.pending + c, ..w };
    assert(start.pending =~= c);
    assert(scan_step(start).2 == false);
    let (v3, e3) = scan_loop(start);
    assert(v3 == scan_step(start).0);
    assert(v3 =~= (DecoderView { full: v.full + c, executing: v.executing || trim(c).len() > 0, ..v }));
    assert(delta_step(v, d).1 =~= (if !v.executing && trim(c).len() > 0 {
        seq![EventView::Status(executing_status())]
    } else {
        Seq::empty()
    }) + (if c.len() > 0 {
        seq![EventView::Chunk(c)]
    } else {
        Seq::empty()
    }));
}

// ───────────────────────────── executable decoding ─────────────────────────────

proof fn lemma_last_index_unique(s: Seq<char>, c: char, i: int, k: int)
    requires
        is_last_index(s, c, i),
        is_last_index(s, c, k),
    ensures
        i == k,
{
    if i < k {
        assert(s[k] != c);
    } else if k < i {
        assert(s[i] != c);
    }
}

/// The last `<` of a text (exact `last_index_of`).
fn last_lt(p: &Vec<char>) -> (r: Option<usize>)
    ensures
        match last_index_of(p@, '<') {
            Some(k) => r == Some(k as usize) && k < p@.len(),
            None => r is None,
        },
{
    let r = rfind_char(p.as_slice(), '<');
    proof {
        match r {
            Some(k) => {
                assert(is_last_index(p@, '<', k as int));
                let w = choose|w: int| is_last_index(p@, '<', w);
                lemma_last_index_unique(p@, '<', k as int, w);
            },
            None => {
                assert forall|w: int| !is_last_index(p@, '<', w) by {
                    if is_last_index(p@, '<', w) {
                        assert(p@[w] == '<');
                    }
                }
            },
        }
    }
    r
}

/// Whether the tail of `p` from `k` takes fewer than 15 UTF-8 bytes.
fn tail_is_short(p: &Vec<char>, k: usize) -> (b: bool)
    requires
        k <= p@.len(),
    ensures
        b == short_tail(p@, k as int),
{
    let t = slice_chars(p.as_slice(), k, p.len());
    let (n, _bytes) = utf8_prefix(t.as_slice(), 14);
    proof {
        assert(t@.subrange(0, t@.len() as int) =~= t@);
        if n < t@.len() {
            if n + 1 < t@.len() {
                crate::codex::lemma_utf8_len_strict(t@, n + 1, t@.len() as int);
            }
        }
    }
    n == t.len()
}

/// `strip_call_tags` of a text.
fn strip_tags(s: &Vec<char>) -> (r: Vec<char>)
    ensures
        r@ == strip_call_tags(s@),
{
    let close = chars_of("</tool_call>");
    let open = chars_of("<tool_call>");
    let none: Vec<char> = Vec::new();
    assert(none@ =~= Seq::<char>::empty());
    let a = replace_chars(s.as_slice(), close.as_slice(), none.as_slice());
    replace_chars(a.as_slice(), open.as_slice(), none.as_slice())
}

/// `a` followed by `b`.
fn joined(a: &Vec<char>, b: &Vec<char>) -> (r: Vec<char>)
    ensures
        r@ == a@ + b@,
{
    let mut r = slice_chars(a.as_slice(), 0, a.len());
    let mut i: usize = 0;
    while i < b.len()
        invariant
            i <= b@.len(),
            r@ == a@ + b@.subrange(0, i as int),
        decreases b.len() - i,
    {
        r.push(b[i]);
        i = i + 1;
        assert(r@ =~= a@ + b@.subrange(0, i as int));
    }
    assert(b@.subrange(0, b@.len() as int) =~= b@);
    r
}

/// Appends an event.
fn emit(out: &mut Vec<StreamEvent>, e: StreamEvent)
    ensures
        events_view(final(out)@) == events_view(old(out)@).push(event_view(e)),
{
    let ghost before = events_view(out@);
    out.push(e);
    assert(events_view(out@) =~= before.push(event_view(e)));
}

/// The `<parameter=…>` pairs of a function body.
fn parse_parameters(body: &Vec<char>) -> (r: Vec<(String, String)>)
    ensures
        r@.map_values(|q: (String, String)| (q.0@, q.1@)) == parameters(body@, 0),
{
    let open = chars_of("<parameter=");
    let gt_tag = chars_of(">");
    let close = chars_of("</parameter>");
    let mut r: Vec<(String, String)> = Vec::new();
    let mut pos: usize = 0;
    loop
        invariant
            pos <= body@.len(),
            open@ == "<parameter="@,
            gt_tag@ == ">"@,
            close@ == "</parameter>"@,
            r@.map_values(|q: (String, String)| (q.0@, q.1@)) + parameters(body@, pos as int)
                == parameters(body@, 0),
        decreases body@.len() - pos,
    {
        let ghost before = r@.map_values(|q: (String, String)| (q.0@, q.1@));
        let start = match find_first(body.as_slice(), open.as_slice(), pos) {
            Some(x) => x,
            None => {
                assert(before + parameters(body@, pos as int) =~= before);
                return r;
            },
        };
        let gt = match find_first(body.as_slice(), gt_tag.as_slice(), start) {
            Some(x) => x,
            None => {
                assert(before + parameters(body@, pos as int) =~= before);
                return r;
            },
        };
        if gt >= body.len() {
            assert(!is_first_occurrence_from(body@, ">"@, start as int, gt as int)) by {
                reveal_strlit(">");
            }
            return r;
        }
        let end = match find_first(body.as_slice(), close.as_slice(), gt + 1) {
            Some(x) => x,
            None => {
                assert(before + parameters(body@, pos as int) =~= before);
                return r;
            },
        };
        if !(pos < end && end <= body.len() && body.len() - end >= 12 && start + 11 <= gt) {
            assert(before + parameters(body@, pos as int) =~= before);
            return r;
        }
        let name = string_of(&slice_chars(body.as_slice(), start + 11, gt));
        let value = string_of(&trim_chars(&slice_chars(body.as_slice(), gt + 1, end)));
        r.push((name, value));
        assert(r@.map_values(|q: (String, String)| (q.0@, q.1@)) =~= before.push(
            (body@.subrange(start + 11, gt as int), trim(body@.subrange(gt + 1, end as int))),
        ));
        assert(parameters(body@, pos as int) == seq![
            (body@.subrange(start + 11, gt as int), trim(body@.subrange(gt + 1, end as int)))
        ] + parameters(body@, end + 12));
        assert(before.push(
            (body@.subrange(start + 11, gt as int), trim(body@.subrange(gt + 1, end as int))),
        ) + parameters(body@, end + 12) =~= before + parameters(body@, pos as int));
        pos = end + 12;
    }
}

/// `function_arguments` of a function body.
fn build_function_arguments(body: &Vec<char>) -> (r: String)
    ensures
        r@ == function_arguments(body@),
{
    let ps = parse_parameters(body);
    let ghost pv = ps@.map_values(|q: (String, String)| (q.0@, q.1@));
    let mut obj: Option<String> = Some("{}".to_owned());
    let mut i: usize = 0;
    while i < ps.len()
        invariant
            i <= ps@.len(),
            pv == ps@.map_values(|q: (String, String)| (q.0@, q.1@)),
            match obj {
                Some(o) => params_object(pv.subrange(0, i as int)) == Some(o@),
                None => params_object(pv.subrange(0, i as int)) is None,
            },
        decreases ps.len() - i,
    {
        assert(pv.subrange(0, i + 1).drop_last() =~= pv.subrange(0, i as int));
        assert(pv.subrange(0, i + 1).last() == pv[i as int]);
        obj = match obj {
            Some(o) => {
                let q = json_string_literal(ps[i].1.as_str());
                json_with_field(o.as_str(), ps[i].0.as_str(), q.as_str())
            },
            None => None,
        };
        i = i + 1;
    }
    assert(pv.subrange(0, ps@.len() as int) =~= pv);
    match obj {
        Some(o) => o,
        None => "{}".to_owned(),
    }
}

/// `xml_call` of a `<tool_call>` JSON document.
fn parse_xml_call(json: &str) -> (r: Option<(String, String)>)
    ensures
        match r {
            Some((n, a)) => xml_call(json@) == Some((n@, a@)),
            None => xml_call(json@) is None,
        },
{
    if json_reserialize(json).is_none() {
        return None;
    }
    let name = match json_string_at_pointer(json, "/name") {
        Some(n) => n,
        None => String::new(),
    };
    if name.as_str().is_empty() {
        return None;
    }
    let present = match json_object_key_present(json, "arguments") {
        Some(b) => b,
        None => false,
    };
    let args = if present {
        match json_object_member(json, "arguments") {
            Some(t) => t,
            None => match json_string_at_pointer(json, "/arguments") {
                Some(s) => s,
                None => "{}".to_owned(),
            },
        }
    } else {
        String::new()
    };
    Some((name, args))
}

/// The decoding state of one streamed chat response.
pub struct ChatStreamDecoder {
    full: String,
    pending: Vec<char>,
    thinking: bool,
    in_call: bool,
    call_buf: Vec<char>,
    executing: bool,
    calls: Vec<ToolCall>,
    announced: Vec<usize>,
}

/// The state before anything was received.
pub open spec fn initial_view() -> DecoderView {
    DecoderView {
        full: Seq::empty(),
        pending: Seq::empty(),
        thinking: false,
        in_call: false,
        call_buf: Seq::empty(),
        executing: false,
        calls: Seq::empty(),
        announced: Seq::empty(),
    }
}

impl ChatStreamDecoder {
    /// The decoding state as text.
    pub closed spec fn view(&self) -> DecoderView {
        DecoderView {
            full: self.full@,
            pending: self.pending@,
            thinking: self.thinking,
            in_call: self.in_call,
            call_buf: self.call_buf@,
            executing: self.executing,
            calls: calls_view(self.calls@),
            announced: self.announced@,
        }
    }

    /// A decoder that has received nothing.
    pub fn new() -> (d: Self)
        ensures
            d.view() == initial_view(),
    {
        let d = ChatStreamDecoder {
            full: String::new(),
            pending: Vec::new(),
            thinking: false,
            in_call: false,
            call_buf: Vec::new(),
            executing: false,
            calls: Vec::new(),
            announced: Vec::new(),
        };
        assert(d.view().calls =~= Seq::<CallView>::empty());
        assert(d.view() =~= initial_view());
        d
    }

    fn show_text(&mut self, text: &Vec<char>, out: &mut Vec<StreamEvent>)
        ensures
            final(self).view() == show(old(self).view(), text@).0,
            events_view(final(out)@) == events_view(old(out)@) + show(old(self).view(), text@).1,
    {
        if text.len() > 0 {
            push_chars(&mut self.full, text.as_slice());
            emit(out, StreamEvent::Chunk(string_of(text.as_slice())));
        }
        assert(events_view(out@) =~= events_view(old(out)@) + show(old(self).view(), text@).1);
    }

    fn scan_step_exec(&mut self, out: &mut Vec<StreamEvent>) -> (more: bool)
        ensures
            final(self).view() == scan_step(old(self).view()).0,
            events_view(final(out)@) == events_view(old(out)@) + scan_step(old(self).view()).1,
            more == scan_step(old(self).view()).2,
            more ==> final(self).view().pending.len() < old(self).view().pending.len(),
    {
        let p = slice_chars(self.pending.as_slice(), 0, self.pending.len());
        assert(p@ =~= self.pending@);
        let ghost v = self.view();
        proof {
            reveal_strlit("<thinking>");
            reveal_strlit("</thinking>");
        }
        if !self.thinking {
            let tc = chars_of("<tool_call>");
            if let Some(i) = find_first(p.as_slice(), tc.as_slice(), 0) {
                self.show_text(&slice_chars(p.as_slice(), 0, i), out);
                self.in_call = true;
                self.call_buf = slice_chars(p.as_slice(), i, p.len());
                self.pending = Vec::new();
                assert(self.view() =~= scan_step(v).0);
                return false;
            }
            let fc = chars_of("<function=");
            if let Some(i) = find_first(p.as_slice(), fc.as_slice(), 0) {
                self.show_text(&slice_chars(p.as_slice(), 0, i), out);
                self.in_call = true;
                self.call_buf = slice_chars(p.as_slice(), i, p.len());
                self.pending = Vec::new();
                assert(self.view() =~= scan_step(v).0);
                return false;
            }
            let th = chars_of("<thinking>");
            if let Some(i) = find_first(p.as_slice(), th.as_slice(), 0) {
                assert(occurs_at(p@, "<thinking>"@, i as int));
                self.show_text(&slice_chars(p.as_slice(), 0, i), out);
                self.thinking = true;
                let ghost mid = events_view(out@);
                emit(out, StreamEvent::Status("Планирование (EN)...".to_owned()));
                self.pending = slice_chars(p.as_slice(), i + 10, p.len());
                assert(self.view() =~= scan_step(v).0);
                assert(events_view(out@) =~= events_view(old(out)@) + scan_step(v).1);
                return true;
            }
            match last_lt(&p) {
                Some(k) => {
                    let opens = k + 1 < p.len() && (is_alphabetic(p[k + 1]) || p[k + 1] == '/'
                        || p[k + 1] == '?');
                    if opens && tail_is_short(&p, k) {
                        if k > 0 {
                            let t = strip_tags(&slice_chars(p.as_slice(), 0, k));
                            self.show_text(&t, out);
                            self.pending = slice_chars(p.as_slice(), k, p.len());
                            assert(self.view() =~= scan_step(v).0);
                        }
                        return false;
                    }
                    let t = strip_tags(&p);
                    self.show_text(&t, out);
                    self.pending = Vec::new();
                    assert(self.view() =~= scan_step(v).0);
                    false
                },
                None => {
                    let t = strip_tags(&p);
                    self.show_text(&t, out);
                    self.pending = Vec::new();
                    assert(self.view() =~= scan_step(v).0);
                    false
                },
            }
        } else {
            let te = chars_of("</thinking>");
            if let Some(i) = find_first(p.as_slice(), te.as_slice(), 0) {
                assert(occurs_at(p@, "</thinking>"@, i as int));
                if i > 0 {
                    emit(out, StreamEvent::Thinking(string_of(&slice_chars(p.as_slice(), 0, i))));
                }
                self.thinking = false;
                self.executing = true;
                emit(out, StreamEvent::Status("Выполнение...".to_owned()));
                self.pending = slice_chars(p.as_slice(), i + 11, p.len());
                assert(self.view() =~= scan_step(v).0);
                assert(events_view(out@) =~= events_view(old(out)@) + scan_step(v).1);
                return true;
            }
            match last_lt(&p) {
                Some(k) => {
                    if tail_is_short(&p, k) {
                        if k > 0 {
                            emit(
                                out,
                                StreamEvent::Thinking(string_of(&slice_chars(p.as_slice(), 0, k))),
                            );
                            self.pending = slice_chars(p.as_slice(), k, p.len());
                            assert(self.view() =~= scan_step(v).0);
                        }
                        assert(events_view(out@) =~= events_view(old(out)@) + scan_step(v).1);
                        return false;
                    }
                    emit(out, StreamEvent::Thinking(string_of(p.as_slice())));
                    self.pending = Vec::new();
                    assert(self.view() =~= scan_step(v).0);
                    assert(events_view(out@) =~= events_view(old(out)@) + scan_step(v).1);
                    false
                },
                None => {
                    emit(out, StreamEvent::Thinking(string_of(p.as_slice())));
                    self.pending = Vec::new();
                    assert(self.view() =~= scan_step(v).0);
                    assert(events_view(out@) =~= events_view(old(out)@) + scan_step(v).1);
                    false
                },
            }
        }
    }

    fn scan(&mut self, out: &mut Vec<StreamEvent>)
        ensures
            final(self).view() == scan_loop(old(self).view()).0,
            events_view(final(out)@) == events_view(old(out)@) + scan_loop(old(self).view()).1,
    {
        let ghost target = scan_loop(self.view());
        let ghost e0 = events_view(out@);
        loop
            invariant
                target == scan_loop(old(self).view()),
                e0 == events_view(old(out)@),
                scan_loop(self.view()).0 == target.0,
                events_view(out@) + scan_loop(self.view()).1 == e0 + target.1,
            decreases self.view().pending.len(),
        {
            if self.in_call {
                assert(events_view(out@) + Seq::<EventView>::empty() =~= events_view(out@));
                return;
            }
            let ghost before = self.view();
            let ghost ev_before = events_view(out@);
            let more = self.scan_step_exec(out);
            let ghost step = scan_step(before);
            if !more {
                assert(scan_loop(before) == (step.0, step.1));
                assert(events_view(out@) =~= ev_before + step.1);
                return;
            }
            assert(scan_loop(before) == (scan_loop(step.0).0, step.1 + scan_loop(step.0).1));
            assert(events_view(out@) + scan_loop(self.view()).1 =~= ev_before + (step.1
                + scan_loop(step.0).1));
        }
    }

    fn add_inline_call(
        &mut self,
        prefix: &str,
        name: String,
        args: String,
        out: &mut Vec<StreamEvent>,
    )
        ensures
            final(self).view() == add_inline_call(old(self).view(), prefix@, name@, args@).0,
            events_view(final(out)@) == events_view(old(out)@) + add_inline_call(
                old(self).view(),
                prefix@,
                name@,
                args@,
            ).1,
    {
        let n = self.calls.len();
        let digits = u64_to_decimal(n as u64);
        let id = concat2(prefix, digits.as_str());
        proof {
            reveal_strlit("function");
        }
        let tc = ToolCall {
            id: id.clone(),
            kind: "function".to_owned(),
            function: ToolCallFunction { name: name.clone(), arguments: args },
        };
        let ghost before = calls_view(self.calls@);
        self.calls.push(tc);
        assert(calls_view(self.calls@) =~= before.push(call_view(tc)));
        emit(out, StreamEvent::ToolCallStarted { index: n, id, name });
        assert(events_view(out@) =~= events_view(old(out)@) + add_inline_call(
            old(self).view(),
            prefix@,
            name@,
            args@,
        ).1);
    }

    fn close_call_exec(&mut self, out: &mut Vec<StreamEvent>)
        ensures
            final(self).view() == close_call(old(self).view()).0,
            events_view(final(out)@) == events_view(old(out)@) + close_call(old(self).view()).1,
    {
        let ghost v = self.view();
        if !self.in_call {
            assert(events_view(out@) + Seq::<EventView>::empty() =~= events_view(out@));
            return;
        }
        let buf = joined(&self.call_buf, &self.pending);
        self.pending = Vec::new();
        let open = chars_of("<tool_call>");
        proof {
            reveal_strlit("<tool_call>");
            reveal_strlit("</tool_call>");
            reveal_strlit("</function>");
        }
        if starts_with_chars(buf.as_slice(), open.as_slice()) {
            let close = chars_of("</tool_call>");
            match find_first(buf.as_slice(), close.as_slice(), 0) {
                None => {
                    self.call_buf = buf;
                    assert(self.view() =~= close_call(v).0);
                    assert(events_view(out@) + Seq::<EventView>::empty() =~= events_view(out@));
                },
                Some(e) => {
                    assert(e >= 11) by {
                        if e < 11 {
                            assert(occurs_at(buf@, "</tool_call>"@, e as int));
                            assert(buf@.subrange(0, 11) == "<tool_call>"@);
                            let ghost sub = buf@.subrange(e as int, e + 12);
                            assert(sub == "</tool_call>"@);
                            assert(sub[0] == buf@[e as int]);
                            assert(sub[1] == buf@[e + 1]);
                            assert(buf@[e as int] == '<');
                            assert(buf@[e + 1] == '/');
                            if e == 0 {
                                assert(buf@[1] == "<tool_call>"@[1]);
                            } else {
                                assert(buf@[e as int] == "<tool_call>"@[e as int]);
                            }
                        }
                    }
                    assert(occurs_at(buf@, "</tool_call>"@, e as int));
                    let json = string_of(&trim_chars(&slice_chars(buf.as_slice(), 11, e)));
                    self.in_call = false;
                    self.call_buf = Vec::new();
                    self.pending = slice_chars(buf.as_slice(), e + 12, buf.len());
                    let ghost base = self.view();
                    match parse_xml_call(json.as_str()) {
                        Some((name, args)) => {
                            self.add_inline_call("tc_xml_", name, args, out);
                        },
                        None => {
                            assert(events_view(out@) + Seq::<EventView>::empty() =~= events_view(
                                out@,
                            ));
                        },
                    }
                },
            }
        } else {
            let close = chars_of("</function>");
            match find_first(buf.as_slice(), close.as_slice(), 0) {
                None => {
                    self.call_buf = buf;
                    assert(self.view() =~= close_call(v).0);
                    assert(events_view(out@) + Seq::<EventView>::empty() =~= events_view(out@));
                },
                Some(e) => {
                    assert(occurs_at(buf@, "</function>"@, e as int));
                    let block = slice_chars(buf.as_slice(), 0, e + 11);
                    self.in_call = false;
                    self.call_buf = Vec::new();
                    self.pending = slice_chars(buf.as_slice(), e + 11, buf.len());
                    let tail = slice_chars(block.as_slice(), 10, block.len());
                    let gt = chars_of(">");
                    match find_first(tail.as_slice(), gt.as_slice(), 0) {
                        None => {
                            assert(events_view(out@) + Seq::<EventView>::empty() =~= events_view(
                                out@,
                            ));
                        },
                        Some(ne) => {
                            assert(occurs_at(tail@, ">"@, ne as int)) by {
                                reveal_strlit(">");
                            }
                            assert(ne < tail@.len()) by {
                                reveal_strlit(">");
                            }
                            let name = string_of(&slice_chars(tail.as_slice(), 0, ne));
                            let body = slice_chars(tail.as_slice(), ne + 1, tail.len());
                            let args = build_function_arguments(&body);
                            self.add_inline_call("qwen_fn_", name, args, out);
                        },
                    }
                },
            }
        }
    }

    fn announced_contains(&self, idx: usize) -> (b: bool)
        ensures
            b == self.announced@.contains(idx),
    {
        let mut i: usize = 0;
        while i < self.announced.len()
            invariant
                i <= self.announced@.len(),
                forall|j: int| 0 <= j < i ==> self.announced@[j] != idx,
            decreases self.announced.len() - i,
        {
            if self.announced[i] == idx {
                assert(self.announced@[i as int] == idx);
                return true;
            }
            i = i + 1;
        }
        false
    }

    fn apply_delta_exec(&mut self, d: &ToolCallDelta, out: &mut Vec<StreamEvent>)
        ensures
            final(self).view() == apply_delta(old(self).view(), *d).0,
            events_view(final(out)@) == events_view(old(out)@) + apply_delta(old(self).view(), *d).1,
    {
        let ghost v = self.view();
        let idx: usize = match d.index {
            Some(i) => i,
            None => 0,
        };
        proof {
            reveal_strlit("function");
        }
        let ghost padded = padded_calls(v.calls, idx as int);
        while self.calls.len() <= idx
            invariant
                self.view() == (DecoderView { calls: calls_view(self.calls@), ..v }),
                v.calls.len() <= calls_view(self.calls@).len(),
                calls_view(self.calls@) == if v.calls.len() <= idx {
                    v.calls + Seq::new(
                        (calls_view(self.calls@).len() - v.calls.len()) as nat,
                        |k: int| empty_call(),
                    )
                } else {
                    v.calls
                },
                v.calls.len() <= idx ==> calls_view(self.calls@).len() <= idx + 1,
            decreases idx + 1 - self.calls.len(),
        {
            let ghost before = calls_view(self.calls@);
            let tc = ToolCall {
                id: String::new(),
                kind: "function".to_owned(),
                function: ToolCallFunction { name: String::new(), arguments: String::new() },
            };
            self.calls.push(tc);
            assert(calls_view(self.calls@) =~= before.push(call_view(tc)));
            assert(calls_view(self.calls@) =~= v.calls + Seq::new(
                (calls_view(self.calls@).len() - v.calls.len()) as nat,
                |k: int| empty_call(),
            ));
        }
        assert(calls_view(self.calls@) =~= padded);
        let mut c = self.calls[idx].duplicate();
        assert(call_view(c) == padded[idx as int]);
        match &d.id {
            Some(id) => {
                if c.id.as_str().is_empty() {
                    push_str(&mut c.id, id.as_str());
                }
            },
            None => {},
        }
        let ghost mid = events_view(out@);
        match &d.function {
            Some(f) => {
                match &f.name {
                    Some(n) => push_str(&mut c.function.name, n.as_str()),
                    None => {},
                }
                match &f.arguments {
                    Some(a) => {
                        push_str(&mut c.function.arguments, a.as_str());
                        emit(out, StreamEvent::ToolCallProgress { index: idx, arguments: a.clone() });
                    },
                    None => {},
                }
            },
            None => {},
        }
        assert(call_view(c) =~~= merged_call(padded[idx as int], *d));
        let announce = !self.announced_contains(idx) && (!c.id.as_str().is_empty()
            || !c.function.name.as_str().is_empty());
        assert(delta_index(*d) == idx as int);
        assert(c.id@ == merged_call(padded[idx as int], *d).0);
        assert(c.function.name@ == merged_call(padded[idx as int], *d).2);
        assert(self.announced@ == v.announced);
        assert(announce == (!v.announced.contains(idx) && (merged_call(padded[idx as int], *d).0.len()
            > 0 || merged_call(padded[idx as int], *d).2.len() > 0)));
        let started_id = c.id.clone();
        let started_name = c.function.name.clone();
        let ghost before_set = calls_view(self.calls@);
        self.calls.set(idx, c);
        assert(calls_view(self.calls@) =~= before_set.update(idx as int, call_view(c)));
        if announce {
            self.announced.push(idx);
            emit(out, StreamEvent::ToolCallStarted { index: idx, id: started_id, name: started_name });
        }
        assert(self.view().calls =~= apply_delta(v, *d).0.calls);
        assert(self.view().announced =~= apply_delta(v, *d).0.announced);
        assert(self.view() =~= apply_delta(v, *d).0);
        assert(events_view(out@) =~= events_view(old(out)@) + apply_delta(v, *d).1);
    }

    /// Decodes one streamed delta (of the response's first choice) and returns what the chat
    /// window should show for it.
    pub fn on_delta(&mut self, delta: &StreamDelta) -> (events: Vec<StreamEvent>)
        ensures
            final(self).view() == delta_step(old(self).view(), *delta).0,
            events_view(events@) == delta_step(old(self).view(), *delta).1,
    {
        let ghost v0 = self.view();
        let mut out: Vec<StreamEvent> = Vec::new();
        assert(events_view(out@) =~= Seq::<EventView>::empty());
        match &delta.reasoning_content {
            Some(r) => {
                if !r.as_str().is_empty() {
                    if !self.thinking {
                        self.thinking = true;
                        emit(&mut out, StreamEvent::Status("Размышляю...".to_owned()));
                    }
                    emit(&mut out, StreamEvent::Thinking(r.clone()));
                }
            },
            None => {
                let has_text = match &delta.content {
                    Some(c) => !c.as_str().is_empty(),
                    None => false,
                };
                if self.thinking && has_text {
                    self.thinking = false;
                    self.executing = true;
                    emit(&mut out, StreamEvent::Status("Выполнение...".to_owned()));
                }
            },
        }
        let ghost v1 = self.view();
        let ghost e1 = events_view(out@);
        assert(v1 =~= reasoning_step(v0, *delta).0);
        assert(e1 =~= reasoning_step(v0, *delta).1);
        match &delta.content {
            Some(c) => {
                if !self.executing && !self.thinking && !crate::text::is_blank(c.as_str()) {
                    self.executing = true;
                    emit(&mut out, StreamEvent::Status("Выполнение...".to_owned()));
                }
                let cv = chars_of(c.as_str());
                self.pending = joined(&self.pending, &cv);
                self.scan(&mut out);
            },
            None => {},
        }
        let ghost v2 = self.view();
        assert(v2 =~= content_step(v1, *delta).0);
        assert(events_view(out@) =~= e1 + content_step(v1, *delta).1);
        self.close_call_exec(&mut out);
        let ghost v3 = self.view();
        let ghost e3 = events_view(out@);
        match &delta.tool_calls {
            Some(ds) => {
                let mut i: usize = 0;
                assert(ds@.subrange(0, 0) =~= Seq::<ToolCallDelta>::empty());
                assert(e3 + Seq::<EventView>::empty() =~= e3);
                while i < ds.len()
                    invariant
                        i <= ds@.len(),
                        self.view() == apply_deltas(v3, ds@.subrange(0, i as int)).0,
                        events_view(out@) == e3 + apply_deltas(v3, ds@.subrange(0, i as int)).1,
                    decreases ds.len() - i,
                {
                    let ghost pre = ds@.subrange(0, i + 1);
                    assert(pre.drop_last() =~= ds@.subrange(0, i as int));
                    assert(pre.last() == ds@[i as int]);
                    let ghost ev = events_view(out@);
                    self.apply_delta_exec(&ds[i], &mut out);
                    assert(events_view(out@) =~= e3 + apply_deltas(v3, pre).1);
                    i = i + 1;
                }
                assert(ds@.subrange(0, ds@.len() as int) =~= ds@);
            },
            None => {
                assert(events_view(out@) + Seq::<EventView>::empty() =~= events_view(out@));
            },
        }
        assert(events_view(out@) =~= delta_step(v0, *delta).1);
        out
    }

    /// Ends the decoding: what was held back is shown, and the assistant's reply is built
    /// from the answer text and the tool calls. When the provider marked the end of the
    /// stream (`done`), tool calls whose arguments are not JSON get `{}`.
    pub fn finish(self, done: bool) -> (r: (ApiMessage, Vec<StreamEvent>))
        ensures
            events_view(r.1@) == flush(self.view()).1,
            reply_of(
                flush(self.view()).0.full,
                if done {
                    flush(self.view()).0.calls.map_values(|c: CallView| with_json_arguments(c))
                } else {
                    flush(self.view()).0.calls
                },
                r.0,
            ),
    {
        let ghost v = self.view();
        let mut d = self;
        let mut out: Vec<StreamEvent> = Vec::new();
        assert(events_view(out@) =~= Seq::<EventView>::empty());
        if d.pending.len() > 0 {
            if d.thinking {
                emit(&mut out, StreamEvent::Thinking(string_of(d.pending.as_slice())));
            } else if !d.in_call {
                push_chars(&mut d.full, d.pending.as_slice());
                emit(&mut out, StreamEvent::Chunk(string_of(d.pending.as_slice())));
            }
            d.pending = Vec::new();
        }
        if d.in_call && d.call_buf.len() > 0 {
            push_chars(&mut d.full, d.call_buf.as_slice());
            emit(&mut out, StreamEvent::Chunk(string_of(d.call_buf.as_slice())));
            d.call_buf = Vec::new();
        }
        assert(d.view() =~= flush(v).0);
        assert(events_view(out@) =~= flush(v).1);
        let ghost fv = flush(v).0;
        let mut calls = d.calls;
        if done {
            let mut i: usize = 0;
            while i < calls.len()
                invariant
                    i <= calls@.len(),
                    calls_view(calls@).len() == fv.calls.len(),
                    forall|j: int|
                        0 <= j < i ==> #[trigger] calls_view(calls@)[j] == with_json_arguments(
                            fv.calls[j],
                        ),
                    forall|j: int| i <= j < calls@.len() ==> #[trigger] calls_view(calls@)[j] == fv.calls[j],
                decreases calls.len() - i,
            {
                let ghost before = calls_view(calls@);
                assert(before[i as int] == fv.calls[i as int]);
                if json_reserialize(calls[i].function.arguments.as_str()).is_none() {
                    let mut c = calls[i].duplicate();
                    c.function.arguments = "{}".to_owned();
                    calls.set(i, c);
                    assert(calls_view(calls@) =~= before.update(i as int, call_view(c)));
                    assert(call_view(c) == with_json_arguments(fv.calls[i as int]));
                } else {
                    assert(before[i as int] == with_json_arguments(fv.calls[i as int]));
                }
                i = i + 1;
            }
            assert(calls_view(calls@) =~= fv.calls.map_values(|c: CallView| with_json_arguments(c)));
        }
        let content = if d.full.as_str().is_empty() {
            None
        } else {
            Some(d.full)
        };
        let tool_calls = if calls.len() == 0 {
            None
        } else {
            Some(calls)
        };
        (
            ApiMessage {
                role: "assistant".to_owned(),
                content,
                tool_calls,
                tool_call_id: None,
                name: None,
            },
            out,
        )
    }
}

// ───────────────────────────── 1C:Naparnik stream ─────────────────────────────

/// Code fences in the 1C dialect's names rewritten as `bsl` fences.
pub open spec fn bsl_fences(t: Seq<char>) -> Seq<char> {
    let a = replace_all(t, "```1С (BSL)"@, "```bsl"@);
    let b = replace_all(a, "```1С"@, "```bsl"@);
    let c = replace_all(b, "```1C (BSL)"@, "```bsl"@);
    let d = replace_all(c, "```1C\n"@, "```bsl\n"@);
    let e = replace_all(d, "```1C\r\n"@, "```bsl\r\n"@);
    replace_all(e, "```1c (BSL)"@, "```bsl"@)
}

fn replaced(s: &Vec<char>, p: &str, r: &str) -> (out: Vec<char>)
    ensures
        out@ == replace_all(s@, p@, r@),
{
    let pv = chars_of(p);
    let rv = chars_of(r);
    replace_chars(s.as_slice(), pv.as_slice(), rv.as_slice())
}

/// Rewrites the code fences Naparnik names `1С`/`1C` as `bsl` fences.
pub fn normalize_bsl_fences(text: &str) -> (r: String)
    ensures
        r@ == bsl_fences(text@),
{
    let t = chars_of(text);
    let a = replaced(&t, "```1С (BSL)", "```bsl");
    let b = replaced(&a, "```1С", "```bsl");
    let c = replaced(&b, "```1C (BSL)", "```bsl");
    let d = replaced(&c, "```1C\n", "```bsl\n");
    let e = replaced(&d, "```1C\r\n", "```bsl\r\n");
    string_of(&replaced(&e, "```1c (BSL)", "```bsl"))
}

/// One server-sent chunk of a Naparnik answer, as far as the decoding reads it.
#[derive(Debug, Clone)]
pub struct NaparnikChunk {
    pub role: Option<String>,
    pub finished: bool,
    /// `content_delta.reasoning_content`.
    pub reasoning: Option<String>,
    /// `content_delta.content`.
    pub text: Option<String>,
    /// `content.content`: the whole answer so far, in the non-delta format.
    pub cumulative: Option<String>,
    /// Number of entries of `content.tool_calls`.
    pub tool_call_count: usize,
}

/// How the decoding of a Naparnik answer goes on after a chunk.
#[derive(Debug, Clone, Copy, PartialEq, Eq, Structural)]
pub enum NaparnikFlow {
    /// More chunks are expected.
    Continue,
    /// The answer is complete.
    Done,
    /// The server asks for the results of its tool calls.
    ToolRound,
}

/// State of a Naparnik answer being decoded.
#[verifier::ext_equal]
pub struct NaparnikView {
    pub accumulated: Seq<char>,
    pub thinking: bool,
    pub segments: Seq<Seq<char>>,
}

/// The text of an optional string.
pub open spec fn opt_text(o: Option<String>) -> Option<Seq<char>> {
    match o {
        Some(s) => Some(s@),
        None => None,
    }
}

/// The accumulated text saved as a segment when it is not empty.
pub open spec fn saved_segment(v: NaparnikView) -> NaparnikView {
    if v.accumulated.len() > 0 {
        NaparnikView { segments: v.segments.push(v.accumulated), accumulated: Seq::empty(), ..v }
    } else {
        v
    }
}

/// The effect of one chunk: echoes of user and tool messages are skipped; reasoning goes to
/// thinking; delta text is accumulated and shown with `bsl` fences; cumulative text shows
/// only what it adds; the final assistant chunk saves the segment and ends the answer, or
/// starts a tool round when it carries tool calls.
pub open spec fn naparnik_step(v: NaparnikView, c: NaparnikChunk) -> (NaparnikView, Seq<EventView>, NaparnikFlow) {
    let role = match c.role {
        Some(r) => r@,
        None => Seq::empty(),
    };
    if (role == "user"@ || role == "tool"@) && c.finished {
        (v, Seq::empty(), NaparnikFlow::Continue)
    } else {
        let (v1, e1) = match c.reasoning {
            Some(r) => if r@.len() > 0 {
                if !v.thinking {
                    (
                        NaparnikView { thinking: true, ..v },
                        seq![EventView::Status(thinking_status()), EventView::Thinking(r@)],
                    )
                } else {
                    (v, seq![EventView::Thinking(r@)])
                }
            } else {
                (v, Seq::empty())
            },
            None => (v, Seq::empty()),
        };
        let (v2, e2) = match c.text {
            Some(t) => if t@.len() > 0 {
                let (w, s) = if v1.thinking {
                    (NaparnikView { thinking: false, ..v1 }, seq![EventView::Status(executing_status())])
                } else {
                    (v1, Seq::empty())
                };
                (
                    NaparnikView { accumulated: w.accumulated + t@, ..w },
                    s.push(EventView::Chunk(bsl_fences(t@))),
                )
            } else {
                (v1, Seq::empty())
            },
            None => (v1, Seq::empty()),
        };
        let (v3, e3) = match c.cumulative {
            Some(t) => if t@.len() > 0 && t@ != v2.accumulated {
                (
                    NaparnikView { accumulated: t@, ..v2 },
                    if has_prefix(t@, v2.accumulated) && t@.len() > v2.accumulated.len() {
                        seq![
                            EventView::Chunk(
                                bsl_fences(t@.subrange(v2.accumulated.len() as int, t@.len() as int)),
                            )
                        ]
                    } else {
                        Seq::empty()
                    },
                )
            } else {
                (v2, Seq::empty())
            },
            None => (v2, Seq::empty()),
        };
        if c.finished && role == "assistant"@ {
            (
                saved_segment(v3),
                e1 + e2 + e3,
                if c.tool_call_count > 0 {
                    NaparnikFlow::ToolRound
                } else {
                    NaparnikFlow::Done
                },
            )
        } else {
            (v3, e1 + e2 + e3, NaparnikFlow::Continue)
        }
    }
}

/// The decoding state of one Naparnik answer round.
pub struct NaparnikDecoder {
    accumulated: String,
    thinking: bool,
    segments: Vec<String>,
}

impl NaparnikDecoder {
    /// The decoding state as text.
    pub closed spec fn view(&self) -> NaparnikView {
        NaparnikView {
            accumulated: self.accumulated@,
            thinking: self.thinking,
            segments: views(self.segments@),
        }
    }

    /// A decoder that continues after the answer segments saved so far.
    pub fn new(segments: Vec<String>) -> (d: Self)
        ensures
            d.view() == (NaparnikView { accumulated: Seq::empty(), thinking: false, segments: views(segments@) }),
    {
        NaparnikDecoder { accumulated: String::new(), thinking: false, segments }
    }

    /// Decodes one chunk; returns what to show and how the decoding goes on.
    pub fn on_chunk(&mut self, c: &NaparnikChunk) -> (r: (Vec<StreamEvent>, NaparnikFlow))
        ensures
            final(self).view() == naparnik_step(old(self).view(), *c).0,
            events_view(r.0@) == naparnik_step(old(self).view(), *c).1,
            r.1 == naparnik_step(old(self).view(), *c).2,
    {
        let ghost v0 = self.view();
        let mut out: Vec<StreamEvent> = Vec::new();
        assert(events_view(out@) =~= Seq::<EventView>::empty());
        let role: &str = match &c.role {
            Some(r) => r.as_str(),
            None => "",
        };
        proof {
            reveal_strlit("");
            assert(""@ =~= Seq::<char>::empty());
        }
        assert(role@ == match c.role {
            Some(r) => r@,
            None => Seq::<char>::empty(),
        });
        if (crate::text::str_eq(role, "user") || crate::text::str_eq(role, "tool")) && c.finished {
            return (out, NaparnikFlow::Continue);
        }
        match &c.reasoning {
            Some(r) => {
                if !r.as_str().is_empty() {
                    if !self.thinking {
                        self.thinking = true;
                        emit(&mut out, StreamEvent::Status("Размышляю...".to_owned()));
                    }
                    emit(&mut out, StreamEvent::Thinking(r.clone()));
                }
            },
            None => {},
        }
        match &c.text {
            Some(t) => {
                if !t.as_str().is_empty() {
                    if self.thinking {
                        self.thinking = false;
                        emit(&mut out, StreamEvent::Status("Выполнение...".to_owned()));
                    }
                    push_str(&mut self.accumulated, t.as_str());
                    emit(&mut out, StreamEvent::Chunk(normalize_bsl_fences(t.as_str())));
                }
            },
            None => {},
        }
        match &c.cumulative {
            Some(t) => {
                let tv = chars_of(t.as_str());
                let av = chars_of(self.accumulated.as_str());
                if tv.len() > 0 && !crate::text::chars_eq(tv.as_slice(), av.as_slice()) {
                    if starts_with_chars(tv.as_slice(), av.as_slice()) && tv.len() > av.len() {
                        let added = string_of(&slice_chars(tv.as_slice(), av.len(), tv.len()));
                        emit(&mut out, StreamEvent::Chunk(normalize_bsl_fences(added.as_str())));
                    }
                    self.accumulated = t.clone();
                }
            },
            None => {},
        }
        assert(events_view(out@) =~= naparnik_step(v0, *c).1);
        if c.finished && crate::text::str_eq(role, "assistant") {
            if !self.accumulated.as_str().is_empty() {
                let ghost segs = views(self.segments@);
                self.segments.push(self.accumulated.clone());
                assert(views(self.segments@) =~= segs.push(self.accumulated@));
                self.accumulated = String::new();
            }
            assert(self.view() =~= naparnik_step(v0, *c).0);
            if c.tool_call_count > 0 {
                return (out, NaparnikFlow::ToolRound);
            }
            return (out, NaparnikFlow::Done);
        }
        assert(self.view() =~= naparnik_step(v0, *c).0);
        (out, NaparnikFlow::Continue)
    }

    /// Ends the round: text still accumulated is saved as a segment; returns all segments.
    pub fn finish(self) -> (segments: Vec<String>)
        ensures
            views(segments@) == saved_segment(self.view()).segments,
    {
        let mut d = self;
        if !d.accumulated.as_str().is_empty() {
            let ghost segs = views(d.segments@);
            d.segments.push(d.accumulated.clone());
            assert(views(d.segments@) =~= segs.push(d.accumulated@));
        }
        d.segments
    }
}

/// The non-empty segments of an answer.
pub open spec fn non_empty_segments(s: Seq<Seq<char>>) -> Seq<Seq<char>>
    decreases s.len(),
{
    if s.len() == 0 {
        Seq::empty()
    } else if s.last().len() > 0 {
        non_empty_segments(s.drop_last()).push(s.last())
    } else {
        non_empty_segments(s.drop_last())
    }
}

/// The whole Naparnik answer: its non-empty segments separated by blank lines.
pub fn join_answer_segments(segments: &Vec<String>) -> (r: String)
    ensures
        r@ == crate::codex::join(non_empty_segments(views(segments@)), "\n\n"@),
{
    let ghost sv = views(segments@);
    let mut kept: Vec<String> = Vec::new();
    let mut i: usize = 0;
    while i < segments.len()
        invariant
            i <= segments@.len(),
            sv == views(segments@),
            views(kept@) == non_empty_segments(sv.subrange(0, i as int)),
        decreases segments.len() - i,
    {
        assert(sv.subrange(0, i + 1).drop_last() =~= sv.subrange(0, i as int));
        assert(sv.subrange(0, i + 1).last() == segments@[i as int]@);
        if !segments[i].as_str().is_empty() {
            let ghost before = views(kept@);
            kept.push(segments[i].clone());
            assert(views(kept@) =~= before.push(segments@[i as int]@));
        }
        i = i + 1;
    }
    assert(sv.subrange(0, segments@.len() as int) =~= sv);
    crate::codex::join_strings(&kept, "\n\n")
}

// ───────────────────────────── Codex stream ─────────────────────────────

/// The `item` of a Codex stream event, as far as the decoding reads it.
#[derive(Debug, Clone)]
pub struct CodexItem {
    /// `item.type`.
    pub item_type: Option<String>,
    pub call_id: Option<String>,
    pub name: Option<String>,
    pub arguments: Option<String>,
}

/// One event of a Codex Responses stream.
#[derive(Debug, Clone)]
pub struct CodexEvent {
    /// The event's `type` (or the `event:` header when the data did not parse).
    pub kind: String,
    pub delta: Option<String>,
    pub item: Option<CodexItem>,
    pub call_id: Option<String>,
}

/// A function call being received: call id, name and the arguments so far.
pub type PendingView = (Seq<char>, Seq<char>, Seq<char>);

/// State of a Codex stream being decoded.
#[verifier::ext_equal]
pub struct CodexView {
    /// Answer text shown so far.
    pub full: Seq<char>,
    /// Received answer text whose trailing HTML entity is not complete yet.
    pub text_buf: Seq<char>,
    /// Function calls being received, in the order they were added; ids are distinct.
    pub pending: Seq<PendingView>,
    /// Ids of the announced calls, in announcement order.
    pub announced: Seq<Seq<char>>,
    /// Completed function calls, their arguments decoded.
    pub calls: Seq<CallView>,
}

/// Position of the pending call with id `id`.
pub open spec fn pending_index(p: Seq<PendingView>, id: Seq<char>) -> Option<int> {
    if exists|i: int| 0 <= i < p.len() && p[i].0 == id {
        Some(choose|i: int| 0 <= i < p.len() && p[i].0 == id)
    } else {
        None
    }
}

/// The pending calls without the one with id `id`.
pub open spec fn without_pending(p: Seq<PendingView>, id: Seq<char>) -> Seq<PendingView>
    decreases p.len(),
{
    if p.len() == 0 {
        p
    } else if p.last().0 == id {
        without_pending(p.drop_last(), id)
    } else {
        without_pending(p.drop_last(), id).push(p.last())
    }
}

/// Pending ids are distinct.
pub open spec fn distinct_ids(p: Seq<PendingView>) -> bool {
    forall|i: int, j: int| 0 <= i < j < p.len() ==> p[i].0 != p[j].0
}

/// The text of an optional string, empty when absent.
pub open spec fn text_or_empty(o: Option<String>) -> Seq<char> {
    match o {
        Some(s) => s@,
        None => Seq::empty(),
    }
}

/// Arguments of a call completed from its pending deltas: `{}` when none arrived, else the
/// arguments with their HTML entities decoded.
pub open spec fn pending_arguments(args: Seq<char>) -> Seq<char> {
    if args.len() == 0 {
        "{}"@
    } else {
        crate::codex::normalized_codex_arguments(args)
    }
}

/// The completed calls for the pending ones, in order.
pub open spec fn flushed_calls(p: Seq<PendingView>) -> Seq<CallView> {
    p.map_values(|q: PendingView| (q.0, "function"@, q.1, pending_arguments(q.2)))
}

/// The effect of one Codex stream event; the flag says whether the response is complete.
pub open spec fn codex_step(v: CodexView, e: CodexEvent) -> (CodexView, Seq<EventView>, bool) {
    let kind = e.kind@;
    if kind == "response.output_text.delta"@ {
        match e.delta {
            Some(d) => if d@.len() > 0 {
                let b = v.text_buf + d@;
                let k = crate::codex::entity_tail_start(b);
                let clean = crate::codex::unescape_html_spec(b.subrange(0, k));
                let w = CodexView { text_buf: b.subrange(k, b.len() as int), ..v };
                if clean.len() > 0 {
                    (CodexView { full: w.full + clean, ..w }, seq![EventView::Chunk(clean)], false)
                } else {
                    (w, Seq::empty(), false)
                }
            } else {
                (v, Seq::empty(), false)
            },
            None => (v, Seq::empty(), false),
        }
    } else if kind == "response.reasoning_summary_text.delta"@ {
        match e.delta {
            Some(d) => if d@.len() > 0 {
                (v, seq![EventView::Thinking(d@)], false)
            } else {
                (v, Seq::empty(), false)
            },
            None => (v, Seq::empty(), false),
        }
    } else if kind == "response.output_item.added"@ {
        match e.item {
            Some(item) => if text_or_empty(item.item_type) == "function_call"@ {
                let id = text_or_empty(item.call_id);
                let name = text_or_empty(item.name);
                let p = if pending_index(v.pending, id) is Some {
                    v.pending
                } else {
                    v.pending.push((id, name, Seq::empty()))
                };
                if v.announced.contains(id) {
                    (CodexView { pending: p, ..v }, Seq::empty(), false)
                } else {
                    (
                        CodexView { pending: p, announced: v.announced.push(id), ..v },
                        seq![EventView::Started(v.announced.len() as int, id, name)],
                        false,
                    )
                }
            } else {
                (v, Seq::empty(), false)
            },
            None => (v, Seq::empty(), false),
        }
    } else if kind == "response.function_call_arguments.delta"@ {
        match (e.call_id, e.delta) {
            (Some(id), Some(d)) => match pending_index(v.pending, id@) {
                Some(i) => (
                    CodexView {
                        pending: v.pending.update(i, (v.pending[i].0, v.pending[i].1, v.pending[i].2 + d@)),
                        ..v
                    },
                    Seq::empty(),
                    false,
                ),
                None => (v, Seq::empty(), false),
            },
            _ => (v, Seq::empty(), false),
        }
    } else if kind == "response.function_call_arguments.done"@ || kind == "response.output_item.done"@ {
        match e.item {
            Some(item) => if text_or_empty(item.item_type) == "function_call"@ {
                let id = text_or_empty(item.call_id);
                let name = text_or_empty(item.name);
                let args = crate::codex::normalized_codex_arguments(
                    match item.arguments {
                        Some(a) => a@,
                        None => "{}"@,
                    },
                );
                if id.len() > 0 && name.len() > 0 {
                    (
                        CodexView {
                            calls: v.calls.push((id, "function"@, name, args)),
                            pending: without_pending(v.pending, id),
                            ..v
                        },
                        Seq::empty(),
                        false,
                    )
                } else {
                    (v, Seq::empty(), false)
                }
            } else {
                (v, Seq::empty(), false)
            },
            None => if kind == "response.function_call_arguments.done"@ {
                match e.call_id {
                    Some(id) => match pending_index(v.pending, id@) {
                        Some(i) => (
                            CodexView {
                                calls: v.calls.push(
                                    (id@, "function"@, v.pending[i].1, pending_arguments(v.pending[i].2)),
                                ),
                                pending: without_pending(v.pending, id@),
                                ..v
                            },
                            Seq::empty(),
                            false,
                        ),
                        None => (v, Seq::empty(), false),
                    },
                    None => (v, Seq::empty(), false),
                }
            } else {
                (v, Seq::empty(), false)
            },
        }
    } else if kind == "response.completed"@ {
        let clean = crate::codex::unescape_html_spec(v.text_buf);
        (
            CodexView {
                full: v.full + clean,
                text_buf: Seq::empty(),
                calls: v.calls + flushed_calls(v.pending),
                pending: Seq::empty(),
                ..v
            },
            if clean.len() > 0 {
                seq![EventView::Chunk(clean)]
            } else {
                Seq::empty()
            },
            true,
        )
    } else {
        (v, Seq::empty(), false)
    }
}

/// Removing a call keeps the other pending calls, their order and distinct ids.
pub proof fn lemma_without_pending(p: Seq<PendingView>, id: Seq<char>)
    ensures
        distinct_ids(p) ==> distinct_ids(without_pending(p, id)),
        forall|k: int|
            0 <= k < without_pending(p, id).len() ==> (#[trigger] without_pending(p, id)[k]).0 != id
                && exists|j: int| 0 <= j < p.len() && without_pending(p, id)[k] == p[j],
    decreases p.len(),
{
    if p.len() > 0 {
        let q = p.drop_last();
        lemma_without_pending(q, id);
        let w = without_pending(q, id);
        if p.last().0 != id {
            assert forall|k: int| 0 <= k < w.push(p.last()).len() implies (#[trigger] w.push(
                p.last(),
            )[k]).0 != id && exists|j: int| 0 <= j < p.len() && w.push(p.last())[k] == p[j] by {
                if k < w.len() {
                    let j = choose|j: int| 0 <= j < q.len() && w[k] == q[j];
                    assert(w.push(p.last())[k] == p[j]);
                } else {
                    assert(w.push(p.last())[k] == p[p.len() - 1]);
                }
            }
            if distinct_ids(p) {
                assert forall|a: int, b: int| 0 <= a < b < w.push(p.last()).len() implies w.push(
                    p.last(),
                )[a].0 != w.push(p.last())[b].0 by {
                    if b == w.len() {
                        let j = choose|j: int| 0 <= j < q.len() && w[a] == q[j];
                        assert(p[j] == q[j]);
                    }
                }
            }
        } else {
            assert forall|k: int| 0 <= k < w.len() implies (#[trigger] w[k]).0 != id && exists|j: int|
                0 <= j < p.len() && w[k] == p[j] by {
                let j = choose|j: int| 0 <= j < q.len() && w[k] == q[j];
                assert(p[j] == q[j]);
            }
        }
    }
}

/// The decoding state of one Codex Responses stream.
pub struct CodexDecoder {
    full: String,
    text_buf: String,
    pending: Vec<(String, String, String)>,
    announced: Vec<String>,
    calls: Vec<ToolCall>,
}

/// The text form of pending calls.
pub open spec fn pending_view(p: Seq<(String, String, String)>) -> Seq<PendingView> {
    p.map_values(|q: (String, String, String)| (q.0@, q.1@, q.2@))
}

impl CodexDecoder {
    /// The decoding state as text.
    pub closed spec fn view(&self) -> CodexView {
        CodexView {
            full: self.full@,
            text_buf: self.text_buf@,
            pending: pending_view(self.pending@),
            announced: views(self.announced@),
            calls: calls_view(self.calls@),
        }
    }

    /// Pending call ids are distinct.
    pub closed spec fn wf(&self) -> bool {
        distinct_ids(pending_view(self.pending@))
    }

    /// A decoder that has received nothing.
    pub fn new() -> (d: Self)
        ensures
            d.wf(),
            d.view() == (CodexView {
                full: Seq::empty(),
                text_buf: Seq::empty(),
                pending: Seq::empty(),
                announced: Seq::empty(),
                calls: Seq::empty(),
            }),
    {
        let d = CodexDecoder {
            full: String::new(),
            text_buf: String::new(),
            pending: Vec::new(),
            announced: Vec::new(),
            calls: Vec::new(),
        };
        assert(d.view() =~= (CodexView {
            full: Seq::empty(),
            text_buf: Seq::empty(),
            pending: Seq::empty(),
            announced: Seq::empty(),
            calls: Seq::empty(),
        }));
        d
    }

    fn find_pending(&self, id: &str) -> (r: Option<usize>)
        requires
            self.wf(),
        ensures
            match pending_index(self.view().pending, id@) {
                Some(i) => r matches Some(j) && j as int == i && i < self.pending@.len(),
                None => r is None,
            },
    {
        let ghost pv = pending_view(self.pending@);
        let mut i: usize = 0;
        while i < self.pending.len()
            invariant
                i <= self.pending@.len(),
                pv == pending_view(self.pending@),
                distinct_ids(pv),
                forall|j: int| 0 <= j < i ==> pv[j].0 != id@,
            decreases self.pending.len() - i,
        {
            if crate::text::str_eq(self.pending[i].0.as_str(), id) {
                proof {
                    assert(pv[i as int].0 == id@);
                    let w = choose|w: int| 0 <= w < pv.len() && pv[w].0 == id@;
                    if w != i {
                        if w < i {
                        } else {
                            assert(pv[i as int].0 != pv[w].0);
                        }
                    }
                }
                return Some(i);
            }
            i = i + 1;
        }
        None
    }

    fn remove_pending(&mut self, id: &str)
        requires
            old(self).wf(),
        ensures
            final(self).wf(),
            final(self).view() == (CodexView {
                pending: without_pending(old(self).view().pending, id@),
                ..old(self).view()
            }),
    {
        let ghost v = self.view();
        let ghost pv = pending_view(self.pending@);
        let mut kept: Vec<(String, String, String)> = Vec::new();
        let mut i: usize = 0;
        while i < self.pending.len()
            invariant
                i <= self.pending@.len(),
                pv == pending_view(self.pending@),
                pending_view(kept@) == without_pending(pv.subrange(0, i as int), id@),
            decreases self.pending.len() - i,
        {
            assert(pv.subrange(0, i + 1).drop_last() =~= pv.subrange(0, i as int));
            assert(pv.subrange(0, i + 1).last() == pv[i as int]);
            if !crate::text::str_eq(self.pending[i].0.as_str(), id) {
                let ghost before = pending_view(kept@);
                let q = (
                    self.pending[i].0.clone(),
                    self.pending[i].1.clone(),
                    self.pending[i].2.clone(),
                );
                kept.push(q);
                assert(pending_view(kept@) =~= before.push(pv[i as int]));
            }
            i = i + 1;
        }
        assert(pv.subrange(0, self.pending@.len() as int) =~= pv);
        proof {
            lemma_without_pending(pv, id@);
        }
        self.pending = kept;
        assert(self.view() =~= (CodexView { pending: without_pending(v.pending, id@), ..v }));
    }

    fn push_call(&mut self, id: String, name: String, arguments: String)
        ensures
            final(self).wf() == old(self).wf(),
            final(self).view() == (CodexView {
                calls: old(self).view().calls.push((id@, "function"@, name@, arguments@)),
                ..old(self).view()
            }),
    {
        let ghost before = calls_view(self.calls@);
        let tc = ToolCall {
            id,
            kind: "function".to_owned(),
            function: ToolCallFunction { name, arguments },
        };
        self.calls.push(tc);
        assert(calls_view(self.calls@) =~= before.push(call_view(tc)));
        proof {
            reveal_strlit("function");
        }
    }

    fn announced_contains(&self, id: &str) -> (b: bool)
        ensures
            b == self.view().announced.contains(id@),
    {
        let ghost av = views(self.announced@);
        let mut i: usize = 0;
        while i < self.announced.len()
            invariant
                i <= self.announced@.len(),
                av == views(self.announced@),
                forall|j: int| 0 <= j < i ==> av[j] != id@,
            decreases self.announced.len() - i,
        {
            if crate::text::str_eq(self.announced[i].as_str(), id) {
                assert(av[i as int] == id@);
                return true;
            }
            i = i + 1;
        }
        false
    }

    /// Decodes one stream event; returns what to show and whether the response is complete.
    /// The arguments of completed calls have their HTML entities decoded.
    pub fn on_event(&mut self, e: &CodexEvent) -> (r: (Vec<StreamEvent>, bool))
        requires
            old(self).wf(),
        ensures
            final(self).wf(),
            final(self).view() == codex_step(old(self).view(), *e).0,
            events_view(r.0@) == codex_step(old(self).view(), *e).1,
            r.1 == codex_step(old(self).view(), *e).2,
    {
        let ghost v = self.view();
        let mut out: Vec<StreamEvent> = Vec::new();
        assert(events_view(out@) =~= Seq::<EventView>::empty());
        let kind = e.kind.as_str();
        if crate::text::str_eq(kind, "response.output_text.delta") {
            if let Some(d) = &e.delta {
                if !d.as_str().is_empty() {
                    push_str(&mut self.text_buf, d.as_str());
                    let clean = crate::codex::drain_decoded_html_stream(&mut self.text_buf, false);
                    if !clean.as_str().is_empty() {
                        push_str(&mut self.full, clean.as_str());
                        emit(&mut out, StreamEvent::Chunk(clean));
                    }
                }
            }
            assert(self.view() =~= codex_step(v, *e).0);
            assert(events_view(out@) =~= codex_step(v, *e).1);
            return (out, false);
        }
        if crate::text::str_eq(kind, "response.reasoning_summary_text.delta") {
            if let Some(d) = &e.delta {
                if !d.as_str().is_empty() {
                    emit(&mut out, StreamEvent::Thinking(d.clone()));
                }
            }
            assert(events_view(out@) =~= codex_step(v, *e).1);
            return (out, false);
        }
        if crate::text::str_eq(kind, "response.output_item.added") {
            if let Some(item) = &e.item {
                let item_type: &str = match &item.item_type {
                    Some(t) => t.as_str(),
                    None => "",
                };
                proof {
                    reveal_strlit("");
                    assert(""@ =~= Seq::<char>::empty());
                }
                if crate::text::str_eq(item_type, "function_call") {
                    let id: String = match &item.call_id {
                        Some(c) => c.clone(),
                        None => String::new(),
                    };
                    let name: String = match &item.name {
                        Some(n) => n.clone(),
                        None => String::new(),
                    };
                    if self.find_pending(id.as_str()).is_none() {
                        let ghost before = pending_view(self.pending@);
                        self.pending.push((id.clone(), name.clone(), String::new()));
                        assert(pending_view(self.pending@) =~= before.push((id@, name@, Seq::empty())));
                        assert(distinct_ids(pending_view(self.pending@))) by {
                            assert forall|a: int, b: int|
                                0 <= a < b < pending_view(self.pending@).len() implies pending_view(
                                    self.pending@,
                                )[a].0 != pending_view(self.pending@)[b].0 by {
                                if b == before.len() {
                                    assert(before[a].0 != id@);
                                }
                            }
                        }
                    }
                    if !self.announced_contains(id.as_str()) {
                        let idx = self.announced.len();
                        let ghost av = views(self.announced@);
                        self.announced.push(id.clone());
                        assert(views(self.announced@) =~= av.push(id@));
                        emit(&mut out, StreamEvent::ToolCallStarted { index: idx, id, name });
                    }
                }
            }
            assert(self.view() =~= codex_step(v, *e).0);
            assert(events_view(out@) =~= codex_step(v, *e).1);
            return (out, false);
        }
        if crate::text::str_eq(kind, "response.function_call_arguments.delta") {
            match (&e.call_id, &e.delta) {
                (Some(id), Some(d)) => {
                    if let Some(i) = self.find_pending(id.as_str()) {
                        let ghost before = pending_view(self.pending@);
                        let mut q = (
                            self.pending[i].0.clone(),
                            self.pending[i].1.clone(),
                            self.pending[i].2.clone(),
                        );
                        push_str(&mut q.2, d.as_str());
                        assert(q.0@ == before[i as int].0);
                        assert(q.1@ == before[i as int].1);
                        assert(q.2@ == before[i as int].2 + d@);
                        self.pending.set(i, q);
                        assert(pending_view(self.pending@) =~= before.update(
                            i as int,
                            (before[i as int].0, before[i as int].1, before[i as int].2 + d@),
                        ));
                        assert(distinct_ids(pending_view(self.pending@))) by {
                            assert forall|a: int, b: int|
                                0 <= a < b < pending_view(self.pending@).len() implies pending_view(
                                    self.pending@,
                                )[a].0 != pending_view(self.pending@)[b].0 by {
                                assert(before[a].0 != before[b].0);
                            }
                        }
                        assert(pending_index(v.pending, id@) == Some(i as int));
                        assert(before == v.pending);
                        assert(self.view().pending =~= codex_step(v, *e).0.pending);
                    } else {
                        assert(self.view().pending =~= codex_step(v, *e).0.pending);
                    }
                },
                _ => {},
            }
            assert(self.view().full == codex_step(v, *e).0.full);
            assert(self.view().text_buf == codex_step(v, *e).0.text_buf);
            assert(self.view().announced == codex_step(v, *e).0.announced);
            assert(self.view().calls == codex_step(v, *e).0.calls);
            assert(self.view().pending =~= codex_step(v, *e).0.pending);
            assert(self.view() =~= codex_step(v, *e).0);
            return (out, false);
        }
        let args_done = crate::text::str_eq(kind, "response.function_call_arguments.done");
        if args_done || crate::text::str_eq(kind, "response.output_item.done") {
            match &e.item {
                Some(item) => {
                    let item_type: &str = match &item.item_type {
                        Some(t) => t.as_str(),
                        None => "",
                    };
                    proof {
                        reveal_strlit("");
                        assert(""@ =~= Seq::<char>::empty());
                    }
                    if crate::text::str_eq(item_type, "function_call") {
                        let id: String = match &item.call_id {
                            Some(c) => c.clone(),
                            None => String::new(),
                        };
                        let name: String = match &item.name {
                            Some(n) => n.clone(),
                            None => String::new(),
                        };
                        let args: String = match &item.arguments {
                            Some(a) => crate::codex::normalize_codex_tool_arguments(a.as_str()),
                            None => crate::codex::normalize_codex_tool_arguments("{}"),
                        };
                        if !id.as_str().is_empty() && !name.as_str().is_empty() {
                            self.remove_pending(id.as_str());
                            self.push_call(id, name, args);
                        }
                    }
                },
                None => {
                    if args_done {
                        if let Some(id) = &e.call_id {
                            if let Some(i) = self.find_pending(id.as_str()) {
                                let name = self.pending[i].1.clone();
                                let raw = self.pending[i].2.clone();
                                let args = if raw.as_str().is_empty() {
                                    "{}".to_owned()
                                } else {
                                    crate::codex::normalize_codex_tool_arguments(raw.as_str())
                                };
                                self.remove_pending(id.as_str());
                                self.push_call(id.clone(), name, args);
                            }
                        }
                    }
                },
            }
            assert(self.view() =~= codex_step(v, *e).0);
            return (out, false);
        }
        if crate::text::str_eq(kind, "response.completed") {
            let clean = crate::codex::drain_decoded_html_stream(&mut self.text_buf, true);
            assert(v.text_buf.subrange(0, v.text_buf.len() as int) =~= v.text_buf);
            if !clean.as_str().is_empty() {
                push_str(&mut self.full, clean.as_str());
                emit(&mut out, StreamEvent::Chunk(clean));
            } else {
                assert(v.full + clean@ =~= v.full);
            }
            let ghost before = calls_view(self.calls@);
            let ghost pv = pending_view(self.pending@);
            let ghost mid = self.view();
            let mut i: usize = 0;
            while i < self.pending.len()
                invariant
                    self.view() == (CodexView { calls: calls_view(self.calls@), ..mid }),
                    i <= self.pending@.len(),
                    pv == pending_view(self.pending@),
                    calls_view(self.calls@) == before + flushed_calls(pv.subrange(0, i as int)),
                decreases self.pending.len() - i,
            {
                let name = self.pending[i].1.clone();
                let raw = self.pending[i].2.clone();
                let args = if raw.as_str().is_empty() {
                    "{}".to_owned()
                } else {
                    crate::codex::normalize_codex_tool_arguments(raw.as_str())
                };
                let id = self.pending[i].0.clone();
                let tc = ToolCall {
                    id,
                    kind: "function".to_owned(),
                    function: ToolCallFunction { name, arguments: args },
                };
                let ghost cv = calls_view(self.calls@);
                self.calls.push(tc);
                assert(calls_view(self.calls@) =~= cv.push(call_view(tc)));
                assert(flushed_calls(pv.subrange(0, i + 1)) =~= flushed_calls(pv.subrange(0, i as int)).push(
                    call_view(tc),
                ));
                i = i + 1;
            }
            assert(pv.subrange(0, pv.len() as int) =~= pv);
            self.pending = Vec::new();
            assert(self.view().full == codex_step(v, *e).0.full);
            assert(self.view().text_buf == codex_step(v, *e).0.text_buf);
            assert(self.view().announced == codex_step(v, *e).0.announced);
            assert(self.view().calls == codex_step(v, *e).0.calls);
            assert(self.view().pending =~= codex_step(v, *e).0.pending);
            assert(self.view() =~= codex_step(v, *e).0);
            assert(events_view(out@) =~= codex_step(v, *e).1);
            return (out, true);
        }
        (out, false)
    }

    /// The assistant's reply of a decoded stream: the answer text and the collected calls.
    pub fn into_reply(self) -> (m: ApiMessage)
        ensures
            reply_of(self.view().full, self.view().calls, m),
    {
        let content = if self.full.as_str().is_empty() {
            None
        } else {
            Some(self.full)
        };
        let tool_calls = if self.calls.len() == 0 {
            None
        } else {
            Some(self.calls)
        };
        ApiMessage {
            role: "assistant".to_owned(),
            content,
            tool_calls,
            tool_call_id: None,
            name: None,
        }
    }
}


// ───────────────────────────── Codex event framing ─────────────────────────────

/// The `event:` name and the `data:` payload of an event's lines, each trimmed; a later line
/// of either kind replaces an earlier one.
pub open spec fn codex_fields(lines: Seq<Seq<char>>) -> (Seq<char>, Seq<char>)
    decreases lines.len(),
{
    if lines.len() == 0 {
        (Seq::empty(), Seq::empty())
    } else {
        let (t, d) = codex_fields(lines.drop_last());
        let l = lines.last();
        if has_prefix(l, "event: "@) {
            (trim(l.subrange(7, l.len() as int)), d)
        } else {
            match sse_data(l) {
                Some(x) => (t, trim(x)),
                None => (t, d),
            }
        }
    }
}

/// The event name and data payload of one Codex stream event, read as (lossy) UTF-8 text.
pub fn codex_event_fields(event: &[u8]) -> (r: (String, String))
    ensures
        (r.0@, r.1@) == codex_fields(split_lines(utf8_lossy_text(event@))),
{
    let text = utf8_lossy(event);
    let v = chars_of(text.as_str());
    let lines = lines_of(&v);
    let ghost ls = lines@.map_values(|l: Vec<char>| l@);
    let event_prefix = chars_of("event: ");
    let with_space = chars_of("data: ");
    let bare = chars_of("data:");
    proof {
        reveal_strlit("event: ");
        reveal_strlit("data: ");
        reveal_strlit("data:");
    }
    let mut kind = String::new();
    let mut data = String::new();
    let mut i: usize = 0;
    assert(ls.subrange(0, 0) =~= Seq::<Seq<char>>::empty());
    while i < lines.len()
        invariant
            i <= lines@.len(),
            ls == lines@.map_values(|l: Vec<char>| l@),
            ls == split_lines(utf8_lossy_text(event@)),
            event_prefix@ == "event: "@,
            with_space@ == "data: "@,
            bare@ == "data:"@,
            event_prefix@.len() == 7,
            with_space@.len() == 6,
            bare@.len() == 5,
            (kind@, data@) == codex_fields(ls.subrange(0, i as int)),
        decreases lines.len() - i,
    {
        let line = &lines[i];
        assert(ls[i as int] == line@);
        assert(ls.subrange(0, i + 1).drop_last() =~= ls.subrange(0, i as int));
        assert(ls.subrange(0, i + 1).last() == line@);
        if starts_with_chars(line, &event_prefix) {
            kind = string_of(&trim_chars(&slice_chars(line, 7, line.len())));
        } else if starts_with_chars(line, &with_space) {
            data = string_of(&trim_chars(&slice_chars(line, 6, line.len())));
        } else if starts_with_chars(line, &bare) {
            data = string_of(&trim_chars(&slice_chars(line, 5, line.len())));
        }
        i = i + 1;
    }
    assert(ls.subrange(0, lines@.len() as int) =~= ls);
    (kind, data)
}

/// An event whose data is empty or the `[DONE]` marker carries nothing to decode.
pub fn codex_data_skipped(data: &str) -> (b: bool)
    ensures
        b == (data@.len() == 0 || data@ == "[DONE]"@),
{
    data.is_empty() || crate::text::str_eq(data, "[DONE]")
}

/// The event that stands for data that did not parse: only its `event:` name, and nothing
/// when the event had no name.
pub fn codex_fallback_event(event_name: String) -> (r: Option<CodexEvent>)
    ensures
        event_name@.len() == 0 <==> r is None,
        r matches Some(e) ==> e.kind == event_name && e.delta is None && e.item is None
            && e.call_id is None,
{
    if event_name.as_str().is_empty() {
        None
    } else {
        Some(CodexEvent { kind: event_name, delta: None, item: None, call_id: None })
    }
}

/// The text of a Codex `error` event: the payload's `message` when it is a string, else the
/// payload itself after `Codex stream error: `.
pub fn codex_stream_error(data: &str) -> (r: String)
    ensures
        r@ == (match json_string_at(data@, "/message"@) {
            Some(m) => m,
            None => "Codex stream error: "@ + data@,
        }),
{
    match json_string_at_pointer(data, "/message") {
        Some(m) => m,
        None => concat2("Codex stream error: ", data),
    }
}

} // verus!
