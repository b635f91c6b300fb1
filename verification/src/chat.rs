//! Chat-loop policies: token estimates, pruning of old tool rounds, tool-result caching keys,
//! history filtering, forced BSL syntax checks and diagnostics for the UI.
use vstd::prelude::*;
use vstd::utf8::encode_utf8;

use crate::client::{bsl_code_blocks, extract_bsl_code};
use crate::ext::{
    json_object_string_field, json_object_with_string, json_reserialize, json_reserialized,
    to_lowercase, unicode_lowercase,
};
use crate::models::{ApiMessage, BSLDiagnostic, Diagnostic, ToolCall, ToolCallFunction};
use crate::profiles::{CustomPromptsSettings, LLMProfile, PromptTemplate};
use crate::text::{
    concat2, decimal, push_str, seq_contains, str_contains, str_eq, trim, trim_str,
    u64_to_decimal, views,
};

verus! {

/// Status shown while the first request is prepared.
pub fn build_initial_chat_status() -> (r: String)
    ensures
        r@ == "Подготавливаю запрос..."@,
{
    "Подготавливаю запрос...".to_owned()
}

/// Only metadata-server results are cached.
pub fn is_tool_result_cacheable(server_id: &str) -> (b: bool)
    ensures
        b == (server_id@ == "builtin-1c-metadata"@),
{
    str_eq(server_id, "builtin-1c-metadata")
}

/// Cache key of a tool call: server, tool and the arguments in canonical JSON form (the raw
/// arguments trimmed when they are not JSON).
pub open spec fn tool_cache_key_spec(server_id: Seq<char>, tool_name: Seq<char>, raw: Seq<char>) -> Seq<char> {
    server_id + "::"@ + tool_name + "::"@ + match json_reserialized(raw) {
        Some(c) => c,
        None => trim(raw),
    }
}

/// Cache key of a tool call.
pub fn build_tool_cache_key(server_id: &str, tool_name: &str, raw_arguments: &str) -> (r: String)
    ensures
        r@ == tool_cache_key_spec(server_id@, tool_name@, raw_arguments@),
{
    let normalized = match json_reserialize(raw_arguments) {
        Some(c) => c,
        None => trim_str(raw_arguments),
    };
    let mut r = server_id.to_owned();
    push_str(&mut r, "::");
    push_str(&mut r, tool_name);
    push_str(&mut r, "::");
    push_str(&mut r, normalized.as_str());
    r
}

/// Two argument texts are the same JSON value: both parse, and to values with the same
/// canonical (compact, key-sorted) text, whatever their member order or spacing.
pub open spec fn same_json_value(a: Seq<char>, b: Seq<char>) -> bool {
    json_reserialized(a) is Some && json_reserialized(a) == json_reserialized(b)
}

/// Calls of one tool whose arguments are the same JSON value share a cache key; so do calls
/// whose arguments are not JSON but read the same once trimmed.
pub proof fn tool_cache_key_stable(server_id: Seq<char>, tool_name: Seq<char>, a: Seq<char>, b: Seq<char>)
    requires
        same_json_value(a, b) || (json_reserialized(a) is None && json_reserialized(b) is None && trim(a)
            == trim(b)),
    ensures
        tool_cache_key_spec(server_id, tool_name, a) == tool_cache_key_spec(server_id, tool_name, b),
{
}

// ───────────────────────────── token estimates ─────────────────────────────

/// UTF-8 length of a string.
pub open spec fn str_bytes(s: String) -> nat {
    encode_utf8(s@).len()
}

/// Bytes a tool call adds to the estimate: arguments, name and ten for framing.
pub open spec fn call_bytes(c: ToolCall) -> nat {
    str_bytes(c.function.arguments) + str_bytes(c.function.name) + 10
}

/// Bytes of a list of tool calls.
pub open spec fn calls_bytes(cs: Seq<ToolCall>) -> nat
    decreases cs.len(),
{
    if cs.len() == 0 {
        0
    } else {
        calls_bytes(cs.drop_last()) + call_bytes(cs.last())
    }
}

/// Bytes of a message that count toward the estimate.
pub open spec fn message_bytes(m: ApiMessage) -> nat {
    (match m.content {
        Some(c) => str_bytes(c),
        None => 0,
    }) + match m.tool_calls {
        Some(v) => calls_bytes(v@),
        None => 0,
    }
}

/// Estimated tokens of a message: a quarter of its bytes.
pub open spec fn message_tokens(m: ApiMessage) -> nat {
    message_bytes(m) / 4
}

/// Estimated tokens of a conversation.
pub open spec fn estimate(ms: Seq<ApiMessage>) -> nat
    decreases ms.len(),
{
    if ms.len() == 0 {
        0
    } else {
        estimate(ms.drop_last()) + message_tokens(ms.last())
    }
}

/// Bytes of a conversation.
pub open spec fn total_bytes(ms: Seq<ApiMessage>) -> nat
    decreases ms.len(),
{
    if ms.len() == 0 {
        0
    } else {
        total_bytes(ms.drop_last()) + message_bytes(ms.last())
    }
}

proof fn lemma_calls_prefix(cs: Seq<ToolCall>, k: int)
    requires
        0 <= k <= cs.len(),
    ensures
        calls_bytes(cs.subrange(0, k)) <= calls_bytes(cs),
    decreases cs.len(),
{
    if k == cs.len() {
        assert(cs.subrange(0, k) =~= cs);
    } else {
        lemma_calls_prefix(cs.drop_last(), k);
        assert(cs.drop_last().subrange(0, k) =~= cs.subrange(0, k));
    }
}

proof fn lemma_total_prefix(ms: Seq<ApiMessage>, k: int)
    requires
        0 <= k <= ms.len(),
    ensures
        total_bytes(ms.subrange(0, k)) <= total_bytes(ms),
        estimate(ms.subrange(0, k)) <= estimate(ms),
        estimate(ms) <= total_bytes(ms),
    decreases ms.len(),
{
    if ms.len() == 0 {
        assert(ms.subrange(0, k) =~= ms);
    } else if k == ms.len() {
        assert(ms.subrange(0, k) =~= ms);
        lemma_total_prefix(ms.drop_last(), k - 1);
    } else {
        lemma_total_prefix(ms.drop_last(), k);
        assert(ms.drop_last().subrange(0, k) =~= ms.subrange(0, k));
    }
}

/// Bytes of one message that count toward the estimate.
pub fn count_message_bytes(m: &ApiMessage) -> (n: usize)
    requires
        message_bytes(*m) <= usize::MAX,
    ensures
        n == message_bytes(*m),
{
    let content: usize = match &m.content {
        Some(c) => c.as_str().len(),
        None => 0,
    };
    let mut calls: usize = 0;
    if let Some(v) = &m.tool_calls {
        let mut i: usize = 0;
        while i < v.len()
            invariant
                i <= v@.len(),
                m.tool_calls == Some(*v),
                message_bytes(*m) <= usize::MAX,
                content + calls_bytes(v@) <= usize::MAX,
                calls == calls_bytes(v@.subrange(0, i as int)),
            decreases v.len() - i,
        {
            proof {
                lemma_calls_prefix(v@, i + 1);
                assert(v@.subrange(0, i + 1).drop_last() =~= v@.subrange(0, i as int));
            }
            let a = v[i].function.arguments.as_str().len();
            let b = v[i].function.name.as_str().len();
            calls = calls + a + b + 10;
            i = i + 1;
        }
        assert(v@.subrange(0, v.len() as int) =~= v@);
    }
    content + calls
}

/// Estimated tokens of a conversation (a quarter of each message's bytes, summed).
pub fn estimate_tokens(messages: &[ApiMessage]) -> (n: usize)
    requires
        total_bytes(messages@) <= usize::MAX,
    ensures
        n == estimate(messages@),
{
    let mut sum: usize = 0;
    let mut i: usize = 0;
    while i < messages.len()
        invariant
            i <= messages@.len(),
            total_bytes(messages@) <= usize::MAX,
            sum == estimate(messages@.subrange(0, i as int)),
        decreases messages.len() - i,
    {
        proof {
            lemma_total_prefix(messages@, i + 1);
            lemma_total_prefix(messages@.subrange(0, i + 1), i + 1);
            assert(messages@.subrange(0, i + 1).drop_last() =~= messages@.subrange(0, i as int));
        }
        let b = count_message_bytes(&messages[i]);
        sum = sum + b / 4;
        i = i + 1;
    }
    assert(messages@.subrange(0, messages.len() as int) =~= messages@);
    sum
}

/// Context window used for the usage indicator: the profile's token limit, else its window
/// override, else 128000.
pub fn resolve_context_usage_window(profile: Option<&LLMProfile>) -> (r: usize)
    ensures
        r == match profile {
            Some(p) => if p.max_tokens > 0 {
                p.max_tokens as int
            } else {
                match p.context_window_override {
                    Some(v) => v as int,
                    None => 128_000,
                }
            },
            None => 128_000,
        },
{
    match profile {
        Some(p) => {
            if p.max_tokens > 0 {
                p.max_tokens as usize
            } else {
                match p.context_window_override {
                    Some(v) => v as usize,
                    None => 128_000,
                }
            }
        },
        None => 128_000,
    }
}

// ───────────────────────────── pruning ─────────────────────────────

/// An assistant message carrying tool calls opens a round.
pub open spec fn opens_round(m: ApiMessage) -> bool {
    m.role@ == "assistant"@ && m.tool_calls is Some
}

/// A tool result.
pub open spec fn is_tool_msg(m: ApiMessage) -> bool {
    m.role@ == "tool"@
}

/// First index at or after `j` that is not a tool result.
pub open spec fn tool_run_end(ms: Seq<ApiMessage>, j: int) -> int
    decreases ms.len() - j,
{
    if 0 <= j < ms.len() && is_tool_msg(ms[j]) {
        tool_run_end(ms, j + 1)
    } else {
        j
    }
}

/// `tool_run_end` never moves backwards nor past the end.
pub proof fn lemma_run_end(ms: Seq<ApiMessage>, j: int)
    requires
        0 <= j <= ms.len(),
    ensures
        j <= tool_run_end(ms, j) <= ms.len(),
        forall|k: int| j <= k < tool_run_end(ms, j) ==> is_tool_msg(#[trigger] ms[k]),
        tool_run_end(ms, j) < ms.len() ==> !is_tool_msg(ms[tool_run_end(ms, j)]),
    decreases ms.len() - j,
{
    if j < ms.len() && is_tool_msg(ms[j]) {
        lemma_run_end(ms, j + 1);
    }
}

/// Tool rounds `(start, end)` (inclusive) found scanning from index `i`: an assistant
/// message with tool calls followed by at least one tool result.
pub open spec fn rounds_from(ms: Seq<ApiMessage>, i: int) -> Seq<(int, int)>
    decreases ms.len() - i,
{
    if i < 0 || i >= ms.len() {
        Seq::empty()
    } else if opens_round(ms[i]) {
        let j = tool_run_end(ms, i + 1);
        proof {
            lemma_run_end(ms, i + 1);
        }
        if j > i {
            (if j - 1 > i {
                seq![(i, j - 1)]
            } else {
                Seq::empty()
            }) + rounds_from(ms, j)
        } else {
            Seq::empty()
        }
    } else {
        rounds_from(ms, i + 1)
    }
}

/// Rounds of a conversation.
pub open spec fn tool_rounds(ms: Seq<ApiMessage>) -> Seq<(int, int)> {
    rounds_from(ms, 0)
}

/// Index `idx` lies in one of the first `c` rounds.
pub open spec fn in_first_rounds(rounds: Seq<(int, int)>, c: int, idx: int) -> bool {
    exists|r: int| 0 <= r < c && r < rounds.len() && (#[trigger] rounds[r]).0 <= idx <= rounds[r].1
}

/// The first `n` messages without those in the first `c` rounds.
pub open spec fn kept_prefix(ms: Seq<ApiMessage>, rounds: Seq<(int, int)>, c: int, n: int) -> Seq<
    ApiMessage,
>
    decreases n,
{
    if n <= 0 {
        Seq::empty()
    } else {
        kept_prefix(ms, rounds, c, n - 1) + if in_first_rounds(rounds, c, n - 1) {
            Seq::empty()
        } else {
            seq![ms[n - 1]]
        }
    }
}

/// The conversation without its first `c` rounds.
pub open spec fn without_rounds(ms: Seq<ApiMessage>, c: int) -> Seq<ApiMessage> {
    kept_prefix(ms, tool_rounds(ms), c, ms.len() as int)
}

/// Pruning removes the oldest rounds, one at a time, until the estimate fits `max_tokens`;
/// the most recent round always stays. `c` is the number of rounds removed.
pub open spec fn prune_count_ok(ms: Seq<ApiMessage>, max_tokens: int, c: int) -> bool {
    let r = tool_rounds(ms).len();
    &&& 1 <= c <= r - 1
    &&& (estimate(without_rounds(ms, c)) <= max_tokens || c == r - 1)
    &&& forall|c2: int| 1 <= c2 < c ==> estimate(without_rounds(ms, c2)) > max_tokens
}

proof fn lemma_kept_bounds(ms: Seq<ApiMessage>, rounds: Seq<(int, int)>, c: int, n: int)
    requires
        0 <= n <= ms.len(),
    ensures
        estimate(kept_prefix(ms, rounds, c, n)) <= estimate(ms.subrange(0, n)),
        kept_prefix(ms, rounds, c, n).len() <= n,
    decreases n,
{
    if n > 0 {
        lemma_kept_bounds(ms, rounds, c, n - 1);
        assert(ms.subrange(0, n).drop_last() =~= ms.subrange(0, n - 1));
        let k = kept_prefix(ms, rounds, c, n - 1);
        if !in_first_rounds(rounds, c, n - 1) {
            assert((k + seq![ms[n - 1]]).drop_last() =~= k);
        } else {
            assert(k + Seq::<ApiMessage>::empty() =~= k);
        }
    }
}

/// Finds the tool rounds of a conversation.
fn compute_rounds(ms: &Vec<ApiMessage>) -> (r: Vec<(usize, usize)>)
    ensures
        r@.len() == tool_rounds(ms@).len(),
        forall|k: int|
            0 <= k < r@.len() ==> (#[trigger] r@[k]).0 as int == tool_rounds(ms@)[k].0
                && r@[k].1 as int == tool_rounds(ms@)[k].1,
{
    proof {
        reveal_strlit("assistant");
        reveal_strlit("tool");
    }
    let mut r: Vec<(usize, usize)> = Vec::new();
    let mut i: usize = 0;
    while i < ms.len()
        invariant
            i <= ms@.len(),
            r@.len() + rounds_from(ms@, i as int).len() == tool_rounds(ms@).len(),
            forall|k: int|
                0 <= k < r@.len() ==> (#[trigger] r@[k]).0 as int == tool_rounds(ms@)[k].0
                    && r@[k].1 as int == tool_rounds(ms@)[k].1,
            forall|k: int|
                0 <= k < rounds_from(ms@, i as int).len() ==> #[trigger] rounds_from(
                    ms@,
                    i as int,
                )[k] == tool_rounds(ms@)[r@.len() + k],
        decreases ms.len() - i,
    {
        if str_eq(ms[i].role.as_str(), "assistant") && ms[i].tool_calls.is_some() {
            let start = i;
            let mut end = i;
            let mut j = i + 1;
            while j < ms.len() && str_eq(ms[j].role.as_str(), "tool")
                invariant
                    start < j <= ms@.len(),
                    end == j - 1,
                    tool_run_end(ms@, start + 1) == tool_run_end(ms@, j as int),
                decreases ms.len() - j,
            {
                end = j;
                j = j + 1;
            }
            assert(tool_run_end(ms@, j as int) == j);
            let ghost rest = rounds_from(ms@, j as int);
            let ghost here = rounds_from(ms@, i as int);
            if end > start {
                let ghost n = r@.len();
                r.push((start, end));
                assert(here == seq![(start as int, end as int)] + rest);
                assert(here[0] == (start as int, end as int));
                assert forall|k: int| 0 <= k < rest.len() implies #[trigger] rest[k] == tool_rounds(
                    ms@,
                )[r@.len() + k] by {
                    assert(here[k + 1] == rest[k]);
                }
            } else {
                assert(here =~= rest);
            }
            i = j;
        } else {
            assert(rounds_from(ms@, i as int) == rounds_from(ms@, i + 1));
            i = i + 1;
        }
    }
    r
}

/// Whether index `idx` lies in one of the first `c` rounds.
fn in_removed(rounds: &Vec<(usize, usize)>, c: usize, idx: usize) -> (b: bool)
    requires
        c <= rounds@.len(),
    ensures
        b == exists|r: int| 0 <= r < c && (#[trigger] rounds@[r]).0 <= idx <= rounds@[r].1,
{
    let mut r: usize = 0;
    while r < c
        invariant
            r <= c <= rounds@.len(),
            forall|q: int| 0 <= q < r ==> !((#[trigger] rounds@[q]).0 <= idx <= rounds@[q].1),
        decreases c - r,
    {
        if rounds[r].0 <= idx && idx <= rounds[r].1 {
            return true;
        }
        r = r + 1;
    }
    false
}

/// Estimated tokens of the conversation without its first `c` rounds.
fn estimate_without(ms: &Vec<ApiMessage>, rounds: &Vec<(usize, usize)>, c: usize) -> (n: usize)
    requires
        total_bytes(ms@) <= usize::MAX,
        c <= rounds@.len(),
        rounds@.len() == tool_rounds(ms@).len(),
        forall|k: int|
            0 <= k < rounds@.len() ==> (#[trigger] rounds@[k]).0 as int == tool_rounds(ms@)[k].0
                && rounds@[k].1 as int == tool_rounds(ms@)[k].1,
    ensures
        n == estimate(without_rounds(ms@, c as int)),
{
    let mut sum: usize = 0;
    let mut i: usize = 0;
    while i < ms.len()
        invariant
            i <= ms@.len(),
            total_bytes(ms@) <= usize::MAX,
            c <= rounds@.len(),
            rounds@.len() == tool_rounds(ms@).len(),
            forall|k: int|
                0 <= k < rounds@.len() ==> (#[trigger] rounds@[k]).0 as int == tool_rounds(ms@)[k].0
                    && rounds@[k].1 as int == tool_rounds(ms@)[k].1,
            sum == estimate(kept_prefix(ms@, tool_rounds(ms@), c as int, i as int)),
        decreases ms.len() - i,
    {
        let ghost k = kept_prefix(ms@, tool_rounds(ms@), c as int, i as int);
        proof {
            lemma_kept_bounds(ms@, tool_rounds(ms@), c as int, i + 1);
            lemma_total_prefix(ms@, i + 1);
            lemma_total_prefix(ms@.subrange(0, i + 1), i + 1);
            assert(ms@.subrange(0, i + 1).last() == ms@[i as int]);
            assert(ms@.subrange(0, i + 1).drop_last() =~= ms@.subrange(0, i as int));
        }
        let removed = in_removed(rounds, c, i);
        assert(removed == in_first_rounds(tool_rounds(ms@), c as int, i as int)) by {
            if removed {
                let q = choose|q: int| 0 <= q < c && (#[trigger] rounds@[q]).0 <= i <= rounds@[q].1;
                assert(rounds@[q].0 as int == tool_rounds(ms@)[q].0);
            }
            if in_first_rounds(tool_rounds(ms@), c as int, i as int) {
                let q = choose|q: int|
                    0 <= q < c && q < tool_rounds(ms@).len() && (#[trigger] tool_rounds(ms@)[q]).0 <= i
                        <= tool_rounds(ms@)[q].1;
                assert(rounds@[q].0 as int == tool_rounds(ms@)[q].0);
            }
        }
        if !removed {
            let b = count_message_bytes(&ms[i]);
            assert((k + seq![ms@[i as int]]).drop_last() =~= k);
            sum = sum + b / 4;
        } else {
            assert(k + Seq::<ApiMessage>::empty() =~= k);
        }
        i = i + 1;
    }
    sum
}

/// Drops old tool rounds (oldest first, keeping the most recent one) while the estimated
/// tokens exceed `max_tokens`; user and system messages are never removed.
pub fn prune_tool_context(messages: &mut Vec<ApiMessage>, max_tokens: usize)
    requires
        total_bytes(old(messages)@) <= usize::MAX,
    ensures
        ({
            let orig = old(messages)@;
            if estimate(orig) <= max_tokens || tool_rounds(orig).len() < 2 {
                final(messages)@ == orig
            } else {
                exists|c: int|
                    prune_count_ok(orig, max_tokens as int, c) && final(messages)@ == without_rounds(
                        orig,
                        c,
                    )
            }
        }),
{
    if estimate_tokens(messages) <= max_tokens {
        return;
    }
    let rounds = compute_rounds(messages);
    if rounds.len() < 2 {
        return;
    }
    let last = rounds.len() - 1;
    let mut c: usize = 1;
    loop
        invariant
            1 <= c <= last,
            last == rounds@.len() - 1,
            rounds@.len() >= 2,
            total_bytes(messages@) <= usize::MAX,
            rounds@.len() == tool_rounds(messages@).len(),
            forall|k: int|
                0 <= k < rounds@.len() ==> (#[trigger] rounds@[k]).0 as int == tool_rounds(
                    messages@,
                )[k].0 && rounds@[k].1 as int == tool_rounds(messages@)[k].1,
            forall|c2: int|
                1 <= c2 < c ==> estimate(without_rounds(messages@, c2)) > max_tokens,
        ensures
            1 <= c <= last,
            estimate(without_rounds(messages@, c as int)) <= max_tokens || c == last,
            forall|c2: int|
                1 <= c2 < c ==> estimate(without_rounds(messages@, c2)) > max_tokens,
        decreases last - c,
    {
        let e = estimate_without(messages, &rounds, c);
        if e <= max_tokens || c == last {
            break;
        }
        c = c + 1;
    }
    let ghost orig = messages@;
    let ghost chosen = c as int;
    assert(prune_count_ok(orig, max_tokens as int, chosen));
    let mut source: Vec<ApiMessage> = Vec::new();
    std::mem::swap(&mut source, messages);
    let n = source.len();
    let mut idx: usize = 0;
    while idx < n
        invariant
            idx <= n,
            n == orig.len(),
            source@ == orig.subrange(idx as int, n as int),
            messages@ == kept_prefix(orig, tool_rounds(orig), chosen, idx as int),
            c as int == chosen,
            c <= rounds@.len(),
            rounds@.len() == tool_rounds(orig).len(),
            forall|k: int|
                0 <= k < rounds@.len() ==> (#[trigger] rounds@[k]).0 as int == tool_rounds(
                    orig,
                )[k].0 && rounds@[k].1 as int == tool_rounds(orig)[k].1,
        decreases n - idx,
    {
        let m = source.remove(0);
        let removed = in_removed(&rounds, c, idx);
        assert(removed == in_first_rounds(tool_rounds(orig), chosen, idx as int)) by {
            if removed {
                let q = choose|q: int| 0 <= q < c && (#[trigger] rounds@[q]).0 <= idx <= rounds@[q].1;
                assert(rounds@[q].0 as int == tool_rounds(orig)[q].0);
            }
            if in_first_rounds(tool_rounds(orig), chosen, idx as int) {
                let q = choose|q: int|
                    0 <= q < chosen && q < tool_rounds(orig).len() && (#[trigger] tool_rounds(orig)[q]).0 <= idx
                        <= tool_rounds(orig)[q].1;
                assert(rounds@[q].0 as int == tool_rounds(orig)[q].0);
            }
        }
        let ghost before = messages@;
        assert(m == orig[idx as int]);
        if !removed {
            messages.push(m);
            assert(messages@ =~= before + seq![orig[idx as int]]);
        } else {
            assert(before + Seq::<ApiMessage>::empty() =~= before);
        }
        assert(source@ =~= orig.subrange(idx + 1, n as int));
        idx = idx + 1;
    }
}

/// Every round opens with an assistant message with tool calls and goes on with tool
/// results only; rounds found from `i` lie at or after `i`, in order, without overlap.
proof fn lemma_rounds_shape(ms: Seq<ApiMessage>, i: int)
    requires
        0 <= i,
    ensures
        forall|k: int|
            0 <= k < rounds_from(ms, i).len() ==> {
                &&& i <= (#[trigger] rounds_from(ms, i)[k]).0 < rounds_from(ms, i)[k].1 < ms.len()
                &&& opens_round(ms[rounds_from(ms, i)[k].0])
                &&& forall|t: int|
                    rounds_from(ms, i)[k].0 < t <= rounds_from(ms, i)[k].1 ==> is_tool_msg(#[trigger] ms[t])
            },
        forall|k1: int, k2: int|
            0 <= k1 < k2 < rounds_from(ms, i).len() ==> (#[trigger] rounds_from(ms, i)[k1]).1
                < (#[trigger] rounds_from(ms, i)[k2]).0,
    decreases ms.len() - i,
{
    if i >= ms.len() {
    } else if opens_round(ms[i]) {
        let j = tool_run_end(ms, i + 1);
        lemma_run_end(ms, i + 1);
        if j > i {
            lemma_rounds_shape(ms, j);
            let rest = rounds_from(ms, j);
            let all = rounds_from(ms, i);
            if j - 1 > i {
                assert(all == seq![(i, j - 1)] + rest);
                assert(all[0] == (i, j - 1));
                assert forall|k: int| 1 <= k < all.len() implies #[trigger] all[k] == rest[k - 1] by {}
                assert forall|k: int| 0 <= k < all.len() implies {
                    &&& i <= (#[trigger] all[k]).0 < all[k].1 < ms.len()
                    &&& opens_round(ms[all[k].0])
                    &&& forall|t: int| all[k].0 < t <= all[k].1 ==> is_tool_msg(#[trigger] ms[t])
                } by {
                    if k > 0 {
                        assert(all[k] == rest[k - 1]);
                    }
                }
                assert forall|k1: int, k2: int| 0 <= k1 < k2 < all.len() implies (#[trigger] all[k1]).1
                    < (#[trigger] all[k2]).0 by {
                    assert(all[k2] == rest[k2 - 1]);
                    if k1 > 0 {
                        assert(all[k1] == rest[k1 - 1]);
                    }
                }
            } else {
                assert(all =~= rest);
            }
        }
    } else {
        lemma_rounds_shape(ms, i + 1);
        assert(rounds_from(ms, i) == rounds_from(ms, i + 1));
    }
}

/// A message outside the removed rounds is kept.
proof fn lemma_kept_contains(ms: Seq<ApiMessage>, rounds: Seq<(int, int)>, c: int, n: int, idx: int)
    requires
        0 <= idx < n <= ms.len(),
        !in_first_rounds(rounds, c, idx),
    ensures
        kept_prefix(ms, rounds, c, n).contains(ms[idx]),
    decreases n,
{
    let before = kept_prefix(ms, rounds, c, n - 1);
    if idx == n - 1 {
        assert(kept_prefix(ms, rounds, c, n) == before + seq![ms[idx]]);
        assert(kept_prefix(ms, rounds, c, n)[before.len() as int] == ms[idx]);
    } else {
        lemma_kept_contains(ms, rounds, c, n - 1, idx);
        let j = choose|j: int| 0 <= j < before.len() && before[j] == ms[idx];
        assert(kept_prefix(ms, rounds, c, n)[j] == ms[idx]);
    }
}

/// Pruning never removes a user or system message: each one is still in the conversation
/// however many rounds are removed.
pub proof fn lemma_prune_keeps_user_and_system(ms: Seq<ApiMessage>, c: int, idx: int)
    requires
        0 <= idx < ms.len(),
        ms[idx].role@ == "user"@ || ms[idx].role@ == "system"@,
    ensures
        without_rounds(ms, c).contains(ms[idx]),
{
    reveal_strlit("user");
    reveal_strlit("system");
    reveal_strlit("assistant");
    reveal_strlit("tool");
    assert("user"@[0] != "tool"@[0]);
    assert("system"@.len() != "assistant"@.len());
    assert("user"@.len() != "assistant"@.len());
    assert("system"@.len() != "tool"@.len());
    assert("user"@ != "tool"@);
    assert("user"@ != "assistant"@);
    assert("system"@ != "tool"@);
    assert("system"@ != "assistant"@);
    let rounds = tool_rounds(ms);
    lemma_rounds_shape(ms, 0);
    if in_first_rounds(rounds, c, idx) {
        let r = choose|r: int| 0 <= r < c && r < rounds.len() && (#[trigger] rounds[r]).0 <= idx <= rounds[r].1;
        if idx == rounds[r].0 {
            assert(opens_round(ms[idx]));
        } else {
            assert(is_tool_msg(ms[idx]));
        }
    }
    lemma_kept_contains(ms, rounds, c, ms.len() as int, idx);
}

/// Pruning keeps the most recent round: every message of it is still in the conversation
/// after any pruning that `prune_tool_context` may do.
pub proof fn lemma_prune_keeps_latest_round(ms: Seq<ApiMessage>, max_tokens: int, c: int, idx: int)
    requires
        prune_count_ok(ms, max_tokens, c),
        tool_rounds(ms).last().0 <= idx <= tool_rounds(ms).last().1,
    ensures
        without_rounds(ms, c).contains(ms[idx]),
{
    let rounds = tool_rounds(ms);
    lemma_rounds_shape(ms, 0);
    let last = rounds.len() - 1;
    assert(rounds[last] == rounds.last());
    if in_first_rounds(rounds, c, idx) {
        let r = choose|r: int| 0 <= r < c && r < rounds.len() && (#[trigger] rounds[r]).0 <= idx <= rounds[r].1;
        assert(rounds[r].1 < rounds[last].0);
    }
    lemma_kept_contains(ms, rounds, c, ms.len() as int, idx);
}

// ───────────────────────────── history and forced checks ─────────────────────────────

/// An assistant message worth keeping in history: non-empty content or some tool calls.
pub fn assistant_message_has_meaningful_payload(message: &ApiMessage) -> (b: bool)
    ensures
        b == ((message.content is Some && message.content->0@.len() > 0) || (message.tool_calls is Some
            && message.tool_calls->0@.len() > 0)),
{
    let has_content = match &message.content {
        Some(c) => !c.as_str().is_empty(),
        None => false,
    };
    let has_calls = match &message.tool_calls {
        Some(v) => v.len() > 0,
        None => false,
    };
    has_content || has_calls
}

/// A lower-cased custom prompt asks for BSL syntax checking.
pub open spec fn requests_bsl_check(n: Seq<char>) -> bool {
    ||| seq_contains(n, "check_bsl_syntax"@)
    ||| seq_contains(n, "bsl-syntax"@)
    ||| seq_contains(n, "контролировать синтаксис"@)
    ||| seq_contains(n, "проверь bsl"@)
    ||| seq_contains(n, "проверить bsl"@)
    ||| (seq_contains(n, "синтаксис"@) && (seq_contains(n, "1с"@) || seq_contains(n, "1c"@)
        || seq_contains(n, "bsl"@)))
    ||| (seq_contains(n, "syntax"@) && seq_contains(n, "bsl"@))
}

/// Whether a lower-cased text asks for BSL syntax checking.
pub fn lowered_requests_bsl_check(normalized: &str) -> (b: bool)
    ensures
        b == requests_bsl_check(normalized@),
{
    str_contains(normalized, "check_bsl_syntax") || str_contains(normalized, "bsl-syntax")
        || str_contains(normalized, "контролировать синтаксис") || str_contains(
        normalized,
        "проверь bsl",
    ) || str_contains(normalized, "проверить bsl") || (str_contains(normalized, "синтаксис") && (
    str_contains(normalized, "1с") || str_contains(normalized, "1c") || str_contains(
        normalized,
        "bsl",
    ))) || (str_contains(normalized, "syntax") && str_contains(normalized, "bsl"))
}

/// Whether a custom prompt text asks for BSL syntax checking (case ignored).
pub fn custom_prompt_text_requests_bsl_syntax_check(text: &str) -> (b: bool)
    ensures
        b == requests_bsl_check(unicode_lowercase(text@)),
{
    let normalized = to_lowercase(text);
    lowered_requests_bsl_check(normalized.as_str())
}

/// The text of a template that is searched for a BSL-check request.
pub open spec fn template_text(t: PromptTemplate) -> Seq<char> {
    t.id@ + "\n"@ + t.name@ + "\n"@ + t.description@ + "\n"@ + t.content@
}

/// Some override or enabled template asks for BSL syntax checking.
pub open spec fn custom_requires_check(c: CustomPromptsSettings) -> bool {
    ||| requests_bsl_check(unicode_lowercase(c.system_prefix@))
    ||| requests_bsl_check(unicode_lowercase(c.on_code_change@))
    ||| requests_bsl_check(unicode_lowercase(c.on_code_generate@))
    ||| exists|i: int|
        0 <= i < c.templates@.len() && (#[trigger] c.templates@[i]).enabled && requests_bsl_check(
            unicode_lowercase(template_text(c.templates@[i])),
        )
}

/// Whether the user's prompt customisation asks for a BSL syntax check on every answer.
pub fn custom_prompts_require_bsl_syntax_check(custom: &CustomPromptsSettings) -> (b: bool)
    ensures
        b == custom_requires_check(*custom),
{
    if custom_prompt_text_requests_bsl_syntax_check(custom.system_prefix.as_str())
        || custom_prompt_text_requests_bsl_syntax_check(custom.on_code_change.as_str())
        || custom_prompt_text_requests_bsl_syntax_check(custom.on_code_generate.as_str()) {
        return true;
    }
    let ts = &custom.templates;
    let mut i: usize = 0;
    while i < ts.len()
        invariant
            i <= ts@.len(),
            ts@ == custom.templates@,
            forall|j: int|
                0 <= j < i ==> !(ts@[j].enabled && requests_bsl_check(
                    unicode_lowercase(template_text(ts@[j])),
                )),
        decreases ts.len() - i,
    {
        let t = &ts[i];
        if t.enabled {
            let mut combined = t.id.clone();
            push_str(&mut combined, "\n");
            push_str(&mut combined, t.name.as_str());
            push_str(&mut combined, "\n");
            push_str(&mut combined, t.description.as_str());
            push_str(&mut combined, "\n");
            push_str(&mut combined, t.content.as_str());
            assert(combined@ =~= template_text(ts@[i as int]));
            if custom_prompt_text_requests_bsl_syntax_check(combined.as_str()) {
                assert(custom.templates@[i as int].enabled && requests_bsl_check(
                    unicode_lowercase(template_text(custom.templates@[i as int])),
                ));
                return true;
            }
        }
        i = i + 1;
    }
    false
}

/// Index of the last user message, if any.
pub open spec fn last_user_index(ms: Seq<ApiMessage>) -> Option<int> {
    if exists|i: int| 0 <= i < ms.len() && ms[i].role@ == "user"@ {
        Some(
            choose|i: int|
                0 <= i < ms.len() && ms[i].role@ == "user"@ && forall|j: int|
                    i < j < ms.len() ==> ms[j].role@ != "user"@,
        )
    } else {
        None
    }
}

/// BSL blocks of the latest user message (none when it has no content).
pub open spec fn latest_user_blocks(ms: Seq<ApiMessage>) -> Seq<Seq<char>> {
    match last_user_index(ms) {
        Some(i) => match ms[i].content {
            Some(c) => bsl_code_blocks(c@),
            None => Seq::empty(),
        },
        None => Seq::empty(),
    }
}

/// BSL code blocks of the latest user message.
pub fn extract_latest_user_bsl_blocks(messages: &[ApiMessage]) -> (r: Vec<String>)
    ensures
        views(r@) == latest_user_blocks(messages@),
{
    let mut i = messages.len();
    while i > 0
        invariant
            i <= messages@.len(),
            forall|j: int| i <= j < messages@.len() ==> messages@[j].role@ != "user"@,
        decreases i,
    {
        i = i - 1;
        if str_eq(messages[i].role.as_str(), "user") {
            proof {
                let w = choose|w: int|
                    0 <= w < messages@.len() && messages@[w].role@ == "user"@ && forall|j: int|
                        w < j < messages@.len() ==> messages@[j].role@ != "user"@;
                if w < i {
                    assert(messages@[i as int].role@ == "user"@);
                } else if w > i {
                    assert(messages@[w].role@ == "user"@);
                }
                assert(last_user_index(messages@) == Some(i as int));
            }
            return match &messages[i].content {
                Some(c) => extract_bsl_code(c.as_str()),
                None => {
                    let v: Vec<String> = Vec::new();
                    assert(views(v@) =~= Seq::<Seq<char>>::empty());
                    v
                },
            };
        }
    }
    let v: Vec<String> = Vec::new();
    assert(views(v@) =~= Seq::<Seq<char>>::empty());
    v
}

/// A forced `check_bsl_syntax` call for the `idx`-th extracted block: its id, its JSON
/// arguments text and the tool call itself.
pub fn build_forced_bsl_syntax_tool_call(idx: usize, code: &str) -> (r: (String, String, ToolCall))
    requires
        idx < u64::MAX,
    ensures
        r.0@ == "auto_check_bsl_syntax_"@ + decimal((idx + 1) as nat),
        r.1@ == json_object_with_string("code"@, code@),
        r.2.id@ == r.0@,
        r.2.kind@ == "function"@,
        r.2.function.name@ == "check_bsl_syntax"@,
        r.2.function.arguments@ == r.1@,
{
    let n = u64_to_decimal((idx as u64) + 1);
    let tool_call_id = concat2("auto_check_bsl_syntax_", n.as_str());
    let arguments = json_object_string_field("code", code);
    let tool_call = ToolCall {
        id: tool_call_id.clone(),
        kind: "function".to_owned(),
        function: ToolCallFunction { name: "check_bsl_syntax".to_owned(), arguments: arguments.clone() },
    };
    (tool_call_id, arguments, tool_call)
}

/// Severity label of an LSP diagnostic for the chat UI.
pub open spec fn ui_severity(s: Option<i32>) -> Seq<char> {
    match s {
        Some(1) => "error"@,
        Some(2) => "warning"@,
        _ => "info"@,
    }
}

/// Converts an LSP diagnostic for the chat UI.
pub fn bsl_diagnostic_to_ui(diagnostic: &Diagnostic) -> (r: BSLDiagnostic)
    ensures
        r.line == diagnostic.range.start.line,
        r.character == diagnostic.range.start.character,
        r.message == diagnostic.message,
        r.severity@ == ui_severity(diagnostic.severity),
{
    BSLDiagnostic {
        line: diagnostic.range.start.line,
        character: diagnostic.range.start.character,
        message: diagnostic.message.clone(),
        severity: match diagnostic.severity {
            Some(1) => "error".to_owned(),
            Some(2) => "warning".to_owned(),
            _ => "info".to_owned(),
        },
    }
}

} // verus!
