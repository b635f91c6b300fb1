//! Request policies of the OpenAI-compatible chat client: Qwen rate-limit handling,
//! token budgets, message sanitising, API-key checks and BSL block extraction.
use vstd::prelude::*;

use crate::keyed::KeyedStore;
use crate::ext::{json_string_at, json_string_at_pointer, to_lowercase, unicode_lowercase};
use crate::models::{ApiMessage, ToolCall};
use crate::profiles::{LLMProfile, LLMProvider};
use crate::text::{
    chars_of, concat3, find_first, first_from, is_blank, is_first_occurrence_from,
    lemma_first_from, lemma_first_from_none, lemma_occurs_shift, occurs_at, parse_unsigned,
    parse_unsigned_chars, seq_contains, slice_chars, str_contains, str_eq, string_of, trim,
    trim_chars, views,
};

verus! {

/// Longest wait, in seconds, that a `Retry-After` header may impose.
pub const QWEN_MAX_RETRY_DELAY_SECS: u64 = 10;

/// Number of attempts after which a Qwen 429 is reported to the user.
pub const QWEN_MAX_429_ATTEMPTS: u32 = 3;

/// What a Qwen 429 response says about the limit that was hit.
#[derive(Debug, Clone)]
pub struct QwenRateLimitContext {
    pub retry_after_secs: Option<u64>,
    pub message: Option<String>,
    pub is_quota_exceeded: bool,
    pub is_hard_quota_exhausted: bool,
    pub is_burst_limited: bool,
}

/// Token limits of a chat request that a 429 retry may lower.
#[derive(Debug, Clone, Copy)]
pub struct QwenRequestLimits {
    pub max_tokens: u32,
    pub thinking_budget_tokens: Option<u32>,
}

// ───────────────────────────── Retry-After ─────────────────────────────

/// `Retry-After` seconds: the trimmed header parsed as `u64`, clamped to `[1, 10]`.
pub open spec fn retry_after_spec(value: Option<Seq<char>>) -> Option<u64> {
    match value {
        None => None,
        Some(v) => match parse_unsigned(trim(v), u64::MAX as int) {
            None => None,
            Some(n) => Some(
                if n < 1 {
                    1u64
                } else if n > QWEN_MAX_RETRY_DELAY_SECS {
                    QWEN_MAX_RETRY_DELAY_SECS
                } else {
                    n as u64
                },
            ),
        },
    }
}

/// Views of an optional text.
pub open spec fn opt_view(value: Option<&str>) -> Option<Seq<char>> {
    match value {
        Some(v) => Some(v@),
        None => None,
    }
}

/// Reads the `Retry-After` header value (already taken from the response headers).
pub fn extract_retry_after_secs(value: Option<&str>) -> (r: Option<u64>)
    ensures
        r == retry_after_spec(opt_view(value)),
{
    match value {
        None => {
            None
        },
        Some(v) => {
            let chars = chars_of(v);
            let trimmed = trim_chars(&chars);
            match parse_unsigned_chars(&trimmed, u64::MAX) {
                None => {
                    None
                },
                Some(n) => {
                    let r = if n < 1 {
                        1
                    } else if n > QWEN_MAX_RETRY_DELAY_SECS {
                        QWEN_MAX_RETRY_DELAY_SECS
                    } else {
                        n
                    };
                    Some(r)
                },
            }
        },
    }
}

// ───────────────────────────── 429 classification ─────────────────────────────

/// The error body shows an exhausted quota that waiting a few seconds will not restore.
pub open spec fn hard_quota_phrase(lower: Seq<char>) -> bool {
    ||| seq_contains(lower, "free allocated quota exceeded"@)
    ||| seq_contains(lower, "commodity has not purchased yet"@)
    ||| seq_contains(lower, "prepaid bill is overdue"@)
    ||| seq_contains(lower, "postpaid bill is overdue"@)
}

/// The error body shows a quota or token limit.
pub open spec fn quota_phrase(lower: Seq<char>) -> bool {
    ||| seq_contains(lower, "insufficient_quota"@)
    ||| seq_contains(lower, "allocated quota exceeded"@)
    ||| seq_contains(lower, "current quota"@)
}

/// The error body shows a burst (request-rate) limit.
pub open spec fn burst_phrase(lower: Seq<char>) -> bool {
    ||| seq_contains(lower, "request rate increased too quickly"@)
    ||| seq_contains(lower, "rate limit exceeded"@)
    ||| seq_contains(lower, "too many requests"@)
}

/// Classifies a 429 from its lower-cased body, its `Retry-After` value and the provider's
/// `error.message`.
pub fn rate_limit_context_from_parts(
    retry_after: Option<&str>,
    body_lower: &str,
    message: Option<String>,
) -> (ctx: QwenRateLimitContext)
    ensures
        ctx.retry_after_secs == retry_after_spec(opt_view(retry_after)),
        ctx.message == message,
        ctx.is_quota_exceeded == quota_phrase(body_lower@),
        ctx.is_hard_quota_exhausted == hard_quota_phrase(body_lower@),
        ctx.is_burst_limited == burst_phrase(body_lower@),
{
    let is_hard_quota_exhausted = str_contains(body_lower, "free allocated quota exceeded")
        || str_contains(body_lower, "commodity has not purchased yet") || str_contains(
        body_lower,
        "prepaid bill is overdue",
    ) || str_contains(body_lower, "postpaid bill is overdue");
    let is_quota_exceeded = str_contains(body_lower, "insufficient_quota") || str_contains(
        body_lower,
        "allocated quota exceeded",
    ) || str_contains(body_lower, "current quota");
    let is_burst_limited = str_contains(body_lower, "request rate increased too quickly")
        || str_contains(body_lower, "rate limit exceeded") || str_contains(
        body_lower,
        "too many requests",
    );
    QwenRateLimitContext {
        retry_after_secs: extract_retry_after_secs(retry_after),
        message,
        is_quota_exceeded,
        is_hard_quota_exhausted,
        is_burst_limited,
    }
}

/// Classifies a Qwen 429 from its `Retry-After` header value and its error body.
pub fn parse_qwen_rate_limit_context(retry_after: Option<&str>, error_body: &str) -> (ctx:
    QwenRateLimitContext)
    ensures
        ctx.retry_after_secs == retry_after_spec(opt_view(retry_after)),
        match ctx.message {
            Some(m) => json_string_at(error_body@, "/error/message"@) == Some(m@),
            None => json_string_at(error_body@, "/error/message"@) is None,
        },
        ctx.is_quota_exceeded == quota_phrase(unicode_lowercase(error_body@)),
        ctx.is_hard_quota_exhausted == hard_quota_phrase(unicode_lowercase(error_body@)),
        ctx.is_burst_limited == burst_phrase(unicode_lowercase(error_body@)),
{
    let body_lower = to_lowercase(error_body);
    let message = json_string_at_pointer(error_body, "/error/message");
    rate_limit_context_from_parts(retry_after, body_lower.as_str(), message)
}

/// Seconds to wait before retry number `attempt + 1`, or `None` when no retry is due.
pub open spec fn retry_delay_spec(attempt: u32, ctx: QwenRateLimitContext) -> Option<u64> {
    if ctx.is_hard_quota_exhausted {
        None
    } else if ctx.retry_after_secs is Some {
        ctx.retry_after_secs
    } else if ctx.is_quota_exceeded || ctx.is_burst_limited {
        Some(
            if attempt == 1 {
                2u64
            } else if attempt == 2 {
                4u64
            } else {
                8u64
            },
        )
    } else if attempt == 1 {
        Some(2u64)
    } else {
        None
    }
}

/// A Retry-After value is honoured whenever the quota is not hard-exhausted, whatever the
/// quota and burst flags say.
pub proof fn retry_after_is_honoured(attempt: u32, ctx: QwenRateLimitContext)
    requires
        !ctx.is_hard_quota_exhausted,
        ctx.retry_after_secs is Some,
    ensures
        retry_delay_spec(attempt, ctx) == ctx.retry_after_secs,
{
}

/// A hard-exhausted quota is never retried.
pub proof fn hard_quota_is_not_retried(attempt: u32, ctx: QwenRateLimitContext)
    requires
        ctx.is_hard_quota_exhausted,
    ensures
        retry_delay_spec(attempt, ctx) is None,
{
}

/// Without a Retry-After value, a quota or burst limit is retried after 2, 4 and then 8
/// seconds; any other 429 is retried once, after 2 seconds.
pub proof fn retry_schedule_without_retry_after(attempt: u32, ctx: QwenRateLimitContext)
    requires
        !ctx.is_hard_quota_exhausted,
        ctx.retry_after_secs is None,
        1 <= attempt,
    ensures
        (ctx.is_quota_exceeded || ctx.is_burst_limited) ==> retry_delay_spec(attempt, ctx) == Some(
            if attempt >= 3 {
                8u64
            } else {
                (2 * attempt) as u64
            },
        ),
        !(ctx.is_quota_exceeded || ctx.is_burst_limited) ==> (retry_delay_spec(attempt, ctx) is Some
            <==> attempt == 1),
        retry_delay_spec(attempt, ctx) matches Some(d) ==> d >= 2,
{
}

/// Delay, in seconds, before retrying a Qwen request that got a 429.
pub fn qwen_retry_delay(attempt: u32, ctx: &QwenRateLimitContext) -> (r: Option<u64>)
    ensures
        r == retry_delay_spec(attempt, *ctx),
{
    if ctx.is_hard_quota_exhausted {
        return None;
    }
    if let Some(retry_after) = ctx.retry_after_secs {
        return Some(retry_after);
    }
    if ctx.is_quota_exceeded || ctx.is_burst_limited {
        match attempt {
            1 => Some(2),
            2 => Some(4),
            _ => Some(8),
        }
    } else if attempt == 1 {
        Some(2)
    } else {
        None
    }
}

// ───────────────────────────── budgets ─────────────────────────────

/// A message that carries tool traffic: a tool result or an assistant message with calls.
pub open spec fn is_tool_traffic(m: ApiMessage) -> bool {
    m.role@ == "tool"@ || (m.tool_calls matches Some(calls) && calls@.len() > 0)
}

/// One of the last eight messages carries tool traffic.
pub open spec fn tool_heavy_spec(messages: Seq<ApiMessage>) -> bool {
    exists|i: int| messages.len() - 8 <= i < messages.len() && 0 <= i && is_tool_traffic(
        #[trigger] messages[i],
    )
}

/// Whether one of the last eight messages carries tool traffic.
pub fn qwen_has_tool_heavy_context(messages: &[ApiMessage]) -> (b: bool)
    ensures
        b == tool_heavy_spec(messages@),
{
    let n = messages.len();
    let lo: usize = if n > 8 { n - 8 } else { 0 };
    let mut i = lo;
    while i < n
        invariant
            n == messages.len(),
            lo <= i <= n,
            lo == (if n > 8 { n - 8 } else { 0 }),
            forall|j: int| lo <= j < i ==> !is_tool_traffic(#[trigger] messages@[j]),
        decreases n - i,
    {
        let m = &messages[i];
        let has_calls = match &m.tool_calls {
            Some(calls) => calls.len() > 0,
            None => false,
        };
        if str_eq(m.role.as_str(), "tool") || has_calls {
            assert(is_tool_traffic(messages@[i as int]));
            return true;
        }
        i = i + 1;
    }
    false
}

/// Output-token limit for Qwen: the profile value held in `[8192, 65536]`, and no more than
/// `16384` with a tool-heavy context.
pub fn qwen_max_tokens(profile_max_tokens: u32, tool_heavy: bool) -> (r: u32)
    ensures
        ({
            let base = if profile_max_tokens < 8192 {
                8192
            } else if profile_max_tokens > 65536 {
                65536
            } else {
                profile_max_tokens as int
            };
            r == if tool_heavy && base > 16384 {
                16384
            } else {
                base
            }
        }),
{
    let base = if profile_max_tokens < 8192 {
        8192
    } else if profile_max_tokens > 65536 {
        65536
    } else {
        profile_max_tokens
    };
    if tool_heavy && base > 16384 {
        16384
    } else {
        base
    }
}

/// Thinking budget: 80% of the estimated input (saturating), held in `[4096, 8192]` with a
/// tool-heavy context and in `[8192, 32768]` otherwise.
pub fn qwen_thinking_budget(estimated_tokens: u32, tool_heavy: bool) -> (r: u32)
    ensures
        ({
            let scaled = if estimated_tokens * 80 > u32::MAX {
                u32::MAX as int
            } else {
                estimated_tokens * 80
            };
            let budget = scaled / 100;
            let (lo, hi) = if tool_heavy {
                (4096int, 8192int)
            } else {
                (8192int, 32768int)
            };
            r == if budget < lo {
                lo
            } else if budget > hi {
                hi
            } else {
                budget
            }
        }),
        !tool_heavy ==> 8192 <= r <= 32768,
        tool_heavy ==> 4096 <= r <= 8192,
{
    let wide: u64 = (estimated_tokens as u64) * 80;
    let scaled: u32 = if wide > u32::MAX as u64 {
        u32::MAX
    } else {
        wide as u32
    };
    let budget = scaled / 100;
    let (lo, hi): (u32, u32) = if tool_heavy {
        (4096, 8192)
    } else {
        (8192, 32768)
    };
    if budget < lo {
        lo
    } else if budget > hi {
        hi
    } else {
        budget
    }
}

/// Lowers the request limits before a 429 retry; returns whether anything changed.
pub fn reduce_qwen_request_pressure(
    limits: &mut QwenRequestLimits,
    tool_heavy: bool,
    quota_exceeded: bool,
) -> (changed: bool)
    ensures
        ({
            let cap: u32 = if quota_exceeded {
                8192
            } else if tool_heavy {
                12288
            } else {
                16384
            };
            let bcap: u32 = if quota_exceeded {
                4096
            } else {
                8192
            };
            &&& final(limits).max_tokens == if old(limits).max_tokens > cap {
                cap
            } else {
                old(limits).max_tokens
            }
            &&& final(limits).thinking_budget_tokens == match old(
                limits,
            ).thinking_budget_tokens {
                Some(b) => Some(
                    if b > bcap {
                        bcap
                    } else {
                        b
                    },
                ),
                None => None,
            }
            &&& changed == (old(limits).max_tokens > cap || (old(
                limits,
            ).thinking_budget_tokens matches Some(b) && b > bcap))
        }),
{
    let mut changed = false;
    let cap: u32 = if quota_exceeded {
        8192
    } else if tool_heavy {
        12288
    } else {
        16384
    };
    if limits.max_tokens > cap {
        limits.max_tokens = cap;
        changed = true;
    }
    if let Some(current_budget) = limits.thinking_budget_tokens {
        let budget_cap: u32 = if quota_exceeded {
            4096
        } else {
            8192
        };
        if current_budget > budget_cap {
            limits.thinking_budget_tokens = Some(budget_cap);
            changed = true;
        }
    }
    changed
}

// ───────────────────────────── messages ─────────────────────────────

/// Ollama Cloud rejects messages without `content`: gives every such message an empty one.
pub fn sanitize_messages_for_ollama_cloud(messages: Vec<ApiMessage>) -> (r: Vec<ApiMessage>)
    ensures
        r@.len() == messages@.len(),
        forall|i: int|
            0 <= i < messages@.len() ==> {
                &&& (#[trigger] r@[i]).role == messages@[i].role
                &&& r@[i].tool_calls == messages@[i].tool_calls
                &&& r@[i].tool_call_id == messages@[i].tool_call_id
                &&& r@[i].name == messages@[i].name
                &&& match messages@[i].content {
                    Some(c) => r@[i].content == Some(c),
                    None => r@[i].content matches Some(e) && e@.len() == 0,
                }
            },
{
    let mut v = messages;
    let mut i: usize = 0;
    while i < v.len()
        invariant
            i <= v.len(),
            v@.len() == messages@.len(),
            forall|j: int|
                i <= j < v@.len() ==> #[trigger] v@[j] == messages@[j],
            forall|j: int|
                0 <= j < i ==> {
                    &&& (#[trigger] v@[j]).role == messages@[j].role
                    &&& v@[j].tool_calls == messages@[j].tool_calls
                    &&& v@[j].tool_call_id == messages@[j].tool_call_id
                    &&& v@[j].name == messages@[j].name
                    &&& match messages@[j].content {
                        Some(c) => v@[j].content == Some(c),
                        None => v@[j].content matches Some(e) && e@.len() == 0,
                    }
                },
        decreases v.len() - i,
    {
        if v[i].content.is_none() {
            v[i].content = Some(String::new());
        }
        i = i + 1;
    }
    v
}

// ───────────────────────────── user-facing texts ─────────────────────────────

/// The user-facing explanation of a Qwen 429 that could not be retried away.
pub open spec fn rate_limit_message_spec(ctx: QwenRateLimitContext) -> Seq<char> {
    let m = match ctx.message {
        Some(s) => s@,
        None => "Qwen временно ограничил запросы."@,
    };
    if ctx.is_hard_quota_exhausted {
        "Qwen отклонил запрос из-за исчерпанной или недоступной квоты: "@ + m
            + " Это не похоже на кратковременный всплеск нагрузки, поэтому автоматический повтор не помог бы. Дождитесь сброса бесплатной квоты или подключите подходящий план/подписку, если она требуется для этой модели."@
    } else if ctx.is_quota_exceeded {
        "Qwen отклонил запрос по лимиту квоты или токенов: "@ + m
            + " Я уже сделал короткие автоповторы, но окно лимита ещё не восстановилось. По официальной документации такой код часто означает краткосрочный TPS/TPM/RPM-лимит, поэтому подождите 10-60 секунд, сократите объём запроса или используйте тариф с более высокими лимитами."@
    } else if ctx.is_burst_limited {
        "Qwen временно ограничил частоту запросов: "@ + m
            + " Я уже сделал короткие автоповторы, но окно лимита ещё не освободилось. Попробуйте повторить чуть позже."@
    } else {
        "Qwen вернул 429: "@ + m + ""@
    }
}

/// Builds the user-facing explanation of a Qwen 429.
pub fn build_qwen_rate_limit_message(ctx: &QwenRateLimitContext) -> (r: String)
    ensures
        r@ == rate_limit_message_spec(*ctx),
{
    let provider_message: &str = match &ctx.message {
        Some(m) => m.as_str(),
        None => "Qwen временно ограничил запросы.",
    };
    if ctx.is_hard_quota_exhausted {
        concat3(
            "Qwen отклонил запрос из-за исчерпанной или недоступной квоты: ",
            provider_message,
            " Это не похоже на кратковременный всплеск нагрузки, поэтому автоматический повтор не помог бы. Дождитесь сброса бесплатной квоты или подключите подходящий план/подписку, если она требуется для этой модели.",
        )
    } else if ctx.is_quota_exceeded {
        concat3(
            "Qwen отклонил запрос по лимиту квоты или токенов: ",
            provider_message,
            " Я уже сделал короткие автоповторы, но окно лимита ещё не восстановилось. По официальной документации такой код часто означает краткосрочный TPS/TPM/RPM-лимит, поэтому подождите 10-60 секунд, сократите объём запроса или используйте тариф с более высокими лимитами.",
        )
    } else if ctx.is_burst_limited {
        concat3(
            "Qwen временно ограничил частоту запросов: ",
            provider_message,
            " Я уже сделал короткие автоповторы, но окно лимита ещё не освободилось. Попробуйте повторить чуть позже.",
        )
    } else {
        concat3("Qwen вернул 429: ", provider_message, "")
    }
}

// ───────────────────────────── API keys ─────────────────────────────

/// Hosted providers that cannot be called without an API key.
pub open spec fn requires_api_key_spec(p: LLMProvider) -> bool {
    match p {
        LLMProvider::OpenAI | LLMProvider::Anthropic | LLMProvider::OpenRouter
        | LLMProvider::Google | LLMProvider::DeepSeek | LLMProvider::Groq | LLMProvider::Mistral
        | LLMProvider::XAI | LLMProvider::Perplexity | LLMProvider::ZAI
        | LLMProvider::OneCNaparnik | LLMProvider::OllamaCloud => true,
        _ => false,
    }
}

/// Whether the provider needs an API key.
pub fn provider_requires_api_key(provider: &LLMProvider) -> (b: bool)
    ensures
        b == requires_api_key_spec(*provider),
{
    match provider {
        LLMProvider::OpenAI | LLMProvider::Anthropic | LLMProvider::OpenRouter
        | LLMProvider::Google | LLMProvider::DeepSeek | LLMProvider::Groq | LLMProvider::Mistral
        | LLMProvider::XAI | LLMProvider::Perplexity | LLMProvider::ZAI
        | LLMProvider::OneCNaparnik | LLMProvider::OllamaCloud => true,
        _ => false,
    }
}

/// Name of a provider as shown in messages.
pub open spec fn provider_label(p: LLMProvider) -> Seq<char> {
    match p {
        LLMProvider::OpenAI => "OpenAI"@,
        LLMProvider::Anthropic => "Anthropic"@,
        LLMProvider::OpenRouter => "OpenRouter"@,
        LLMProvider::Google => "Google"@,
        LLMProvider::DeepSeek => "DeepSeek"@,
        LLMProvider::Groq => "Groq"@,
        LLMProvider::Mistral => "Mistral"@,
        LLMProvider::XAI => "XAI"@,
        LLMProvider::Perplexity => "Perplexity"@,
        LLMProvider::ZAI => "ZAI"@,
        LLMProvider::MiniMax => "MiniMax"@,
        LLMProvider::OneCNaparnik => "OneCNaparnik"@,
        LLMProvider::Ollama => "Ollama"@,
        LLMProvider::OllamaCloud => "OllamaCloud"@,
        LLMProvider::LMStudio => "LMStudio"@,
        LLMProvider::QwenCli => "QwenCli"@,
        LLMProvider::CodexCli => "CodexCli"@,
        LLMProvider::Custom => "Custom"@,
    }
}

/// Name of a provider as shown in messages.
pub fn provider_name(provider: &LLMProvider) -> (s: &'static str)
    ensures
        s@ == provider_label(*provider),
{
    match provider {
        LLMProvider::OpenAI => "OpenAI",
        LLMProvider::Anthropic => "Anthropic",
        LLMProvider::OpenRouter => "OpenRouter",
        LLMProvider::Google => "Google",
        LLMProvider::DeepSeek => "DeepSeek",
        LLMProvider::Groq => "Groq",
        LLMProvider::Mistral => "Mistral",
        LLMProvider::XAI => "XAI",
        LLMProvider::Perplexity => "Perplexity",
        LLMProvider::ZAI => "ZAI",
        LLMProvider::MiniMax => "MiniMax",
        LLMProvider::OneCNaparnik => "OneCNaparnik",
        LLMProvider::Ollama => "Ollama",
        LLMProvider::OllamaCloud => "OllamaCloud",
        LLMProvider::LMStudio => "LMStudio",
        LLMProvider::QwenCli => "QwenCli",
        LLMProvider::CodexCli => "CodexCli",
        LLMProvider::Custom => "Custom",
    }
}

/// Checks the decrypted API key of a profile: a blank key is refused for providers that
/// need one; a failure to read the key is passed on.
pub fn resolve_profile_api_key(profile: &LLMProfile, decrypted_key: Result<String, String>) -> (r:
    Result<String, String>)
    ensures
        match decrypted_key {
            Err(e) => r == Err::<String, String>(e),
            Ok(k) => if requires_api_key_spec(profile.provider) && trim(k@).len() == 0 {
                r matches Err(m) && m@ == "Для провайдера "@ + provider_label(profile.provider)
                    + " не найден API key. Откройте профиль и сохраните ключ заново."@
            } else {
                r == Ok::<String, String>(k)
            },
        },
{
    let api_key = match decrypted_key {
        Err(e) => return Err(e),
        Ok(k) => k,
    };
    if provider_requires_api_key(&profile.provider) && is_blank(api_key.as_str()) {
        return Err(
            concat3(
                "Для провайдера ",
                provider_name(&profile.provider),
                " не найден API key. Откройте профиль и сохраните ключ заново.",
            ),
        );
    }
    Ok(api_key)
}

// ───────────────────────────── BSL blocks ─────────────────────────────

/// Trimmed bodies of the blocks that open with `open` and close with the next "```",
/// scanning from char index `from`; scanning stops at the first unclosed block.
pub open spec fn fenced_blocks(s: Seq<char>, open: Seq<char>, from: int) -> Seq<Seq<char>>
    decreases s.len() + 1 - from,
{
    if from < 0 || from > s.len() {
        Seq::empty()
    } else {
        match first_from(s, open, from) {
            None => Seq::empty(),
            Some(i) => {
                let a = i + open.len();
                match first_from(s, "```"@, a) {
                    None => Seq::empty(),
                    Some(e) => if a <= e && e + 3 <= s.len() && from < e + 3 {
                        seq![trim(s.subrange(a, e))] + fenced_blocks(s, open, e + 3)
                    } else {
                        Seq::empty()
                    },
                }
            },
        }
    }
}

/// Searching `s` from `k + from` finds what searching the part of `s` after `k` finds from
/// `from`, shifted by `k`.
proof fn lemma_first_from_shift(s: Seq<char>, q: Seq<char>, k: int, from: int)
    requires
        0 <= k <= s.len(),
        0 <= from,
    ensures
        first_from(s, q, k + from) == match first_from(s.subrange(k, s.len() as int), q, from) {
            Some(i) => Some(i + k),
            None => None,
        },
{
    let t = s.subrange(k, s.len() as int);
    assert forall|j: int| 0 <= j implies occurs_at(t, q, j) == occurs_at(s, q, k + j) by {
        lemma_occurs_shift(s, q, k, j);
    }
    match first_from(t, q, from) {
        Some(i) => {
            assert(is_first_occurrence_from(t, q, from, i));
            assert forall|j: int| k + from <= j < k + i implies !occurs_at(s, q, j) by {
                assert(!occurs_at(t, q, j - k));
            }
            lemma_first_from(s, q, k + from, k + i);
        },
        None => {
            if first_from(s, q, k + from) is Some {
                let i = first_from(s, q, k + from)->0;
                assert(is_first_occurrence_from(s, q, k + from, i));
                assert(occurs_at(t, q, i - k));
                assert forall|j: int| from <= j < i - k implies !occurs_at(t, q, j) by {
                    assert(!occurs_at(s, q, k + j));
                }
                assert(is_first_occurrence_from(t, q, from, i - k));
            }
        },
    }
}

/// Scanning `s` for blocks from `k + from` finds the blocks of the part of `s` after `k`,
/// scanned from `from`.
proof fn lemma_fenced_shift(s: Seq<char>, open: Seq<char>, k: int, from: int)
    requires
        0 <= k <= s.len(),
        0 <= from,
    ensures
        fenced_blocks(s, open, k + from) == fenced_blocks(s.subrange(k, s.len() as int), open, from),
    decreases s.len() + 1 - k - from,
{
    let t = s.subrange(k, s.len() as int);
    if k + from > s.len() {
        return;
    }
    lemma_first_from_shift(s, open, k, from);
    match first_from(t, open, from) {
        None => {},
        Some(i) => {
            let a = i + open.len();
            if a >= 0 {
                lemma_first_from_shift(s, "```"@, k, a);
                match first_from(t, "```"@, a) {
                    None => {},
                    Some(e) => {
                        if a <= e && e + 3 <= t.len() && from < e + 3 {
                            assert(s.subrange(k + a, k + e) =~= t.subrange(a, e));
                            lemma_fenced_shift(s, open, k, e + 3);
                        }
                    },
                }
            }
        },
    }
}

/// No block is found in a text where the opening marker does not occur.
pub proof fn no_opening_no_blocks(text: Seq<char>, open: Seq<char>)
    requires
        !seq_contains(text, open),
    ensures
        fenced_blocks(text, open, 0) == Seq::<Seq<char>>::empty(),
{
    assert forall|j: int| 0 <= j implies !occurs_at(text, open, j) by {
        if occurs_at(text, open, j) {
            assert(seq_contains(text, open));
        }
    }
    lemma_first_from_none(text, open, 0);
}

/// A closed block at the start of a text is found, its body trimmed, and the scan goes on
/// after its closing fence: every closed block counts, in text order.
pub proof fn closed_block_then_rest(open: Seq<char>, body: Seq<char>, rest: Seq<char>)
    requires
        forall|i: int| 0 <= i < body.len() ==> body[i] != '`',
    ensures
        fenced_blocks(open + body + "```"@ + rest, open, 0) == seq![trim(body)] + fenced_blocks(
            rest,
            open,
            0,
        ),
{
    reveal_strlit("```");
    let fence = "```"@;
    let s = open + body + fence + rest;
    let a = open.len() as int;
    let e = a + body.len();
    assert(s.subrange(0, a) =~= open);
    assert(is_first_occurrence_from(s, open, 0, 0));
    lemma_first_from(s, open, 0, 0);
    assert(s.subrange(e, e + 3) =~= fence);
    assert forall|j: int| a <= j < e implies !occurs_at(s, fence, j) by {
        if occurs_at(s, fence, j) {
            assert(s.subrange(j, j + 3)[0] == s[j]);
            assert(s[j] == body[j - a]);
        }
    }
    assert(is_first_occurrence_from(s, fence, a, e));
    lemma_first_from(s, fence, a, e);
    assert(s.subrange(a, e) =~= body);
    lemma_fenced_shift(s, open, e + 3, 0);
    assert(s.subrange(e + 3, s.len() as int) =~= rest);
}

/// Collects the blocks opening with `open` (see `fenced_blocks`).
fn collect_fenced(text: &[char], open: &[char], fence: &[char], blocks: &mut Vec<String>)
    requires
        fence@ == "```"@,
        fence@.len() == 3,
    ensures
        views(final(blocks)@) == views(old(blocks)@) + fenced_blocks(text@, open@, 0),
{
    let ghost start = views(blocks@);
    let mut start_pos: usize = 0;
    loop
        invariant
            fence@ == "```"@,
            fence@.len() == 3,
            start_pos <= text.len(),
            start == views(old(blocks)@),
            views(blocks@) + fenced_blocks(text@, open@, start_pos as int) == start
                + fenced_blocks(text@, open@, 0),
        decreases text.len() - start_pos,
    {
        match find_first(text, open, start_pos) {
            None => {
                assert(fenced_blocks(text@, open@, start_pos as int) == Seq::<Seq<char>>::empty());
                assert(views(blocks@) + Seq::<Seq<char>>::empty() =~= views(blocks@));
                return;
            },
            Some(i) => {
                if open.len() > text.len() - i {
                    // an occurrence always fits in the text
                    return;
                }
                let actual_start = i + open.len();
                match find_first(text, fence, actual_start) {
                    None => {
                        assert(fenced_blocks(text@, open@, start_pos as int) == Seq::<
                            Seq<char>,
                        >::empty());
                        assert(views(blocks@) + Seq::<Seq<char>>::empty() =~= views(blocks@));
                        return;
                    },
                    Some(end) => {
                        let body = slice_chars(text, actual_start, end);
                        let code = trim_chars(&body);
                        let ghost before = views(blocks@);
                        blocks.push(string_of(&code));
                        assert(views(blocks@) =~= before.push(trim(
                            text@.subrange(actual_start as int, end as int),
                        )));
                        let next = end + 3;
                        assert(fenced_blocks(text@, open@, start_pos as int) == seq![
                            trim(text@.subrange(actual_start as int, end as int)),
                        ] + fenced_blocks(text@, open@, next as int));
                        assert(before.push(trim(text@.subrange(actual_start as int, end as int)))
                            + fenced_blocks(text@, open@, next as int) =~= before + (seq![
                            trim(text@.subrange(actual_start as int, end as int)),
                        ] + fenced_blocks(text@, open@, next as int)));
                        start_pos = next;
                    },
                }
            },
        }
    }
}

/// Bodies of the "```bsl" blocks, then of the "```1c" blocks, of `text`, each trimmed.
pub open spec fn bsl_code_blocks(text: Seq<char>) -> Seq<Seq<char>> {
    fenced_blocks(text, "```bsl"@, 0) + fenced_blocks(text, "```1c"@, 0)
}

/// Extracts the BSL code blocks of a message.
pub fn extract_bsl_code(text: &str) -> (blocks: Vec<String>)
    ensures
        views(blocks@) == bsl_code_blocks(text@),
{
    let t = chars_of(text);
    let fence_str = "```";
    proof {
        reveal_strlit("```");
    }
    let fence = chars_of(fence_str);
    let bsl = chars_of("```bsl");
    let one_c = chars_of("```1c");
    let mut blocks: Vec<String> = Vec::new();
    assert(views(blocks@) =~= Seq::<Seq<char>>::empty());
    collect_fenced(&t, &bsl, &fence, &mut blocks);
    collect_fenced(&t, &one_c, &fence, &mut blocks);
    assert(views(blocks@) =~= bsl_code_blocks(text@));
    blocks
}

// ───────────────────────────── Qwen request pacing ─────────────────────────────

/// Minimum gap, in milliseconds, between two requests sent with one Qwen profile.
pub const QWEN_MIN_REQUEST_GAP_MS: u64 = 1_100;

/// Earliest time, in milliseconds on a monotonic clock, at which each Qwen profile may send
/// its next request.
pub struct QwenRequestSlots {
    slots: KeyedStore<u64>,
}

/// When a request reserved at `now` may go out: the profile's reserved time, or `now` when
/// that has passed or none is reserved.
pub open spec fn send_time(slots: Map<Seq<char>, u64>, profile: Seq<char>, now: int) -> int {
    if slots.contains_key(profile) && slots[profile] > now {
        slots[profile] as int
    } else {
        now
    }
}

/// The reserved time after a cooldown that lasts until `until`: a later reservation stays.
pub open spec fn cooled_slot(slots: Map<Seq<char>, u64>, profile: Seq<char>, until: int) -> int {
    if slots.contains_key(profile) && slots[profile] >= until {
        slots[profile] as int
    } else {
        until
    }
}

impl QwenRequestSlots {
    /// Reserved time per profile id.
    pub closed spec fn slot_map(&self) -> Map<Seq<char>, u64> {
        self.slots.view_map()
    }

    /// The store behind the reservations is well formed.
    pub closed spec fn wf(&self) -> bool {
        self.slots.wf()
    }

    /// No reservation yet.
    pub fn new() -> (r: Self)
        ensures
            r.wf(),
            r.slot_map() == Map::<Seq<char>, u64>::empty(),
    {
        QwenRequestSlots { slots: KeyedStore::new() }
    }

    /// When a request of `profile_id` reserved at `now_ms` would go out.
    pub fn next_send_time(&self, profile_id: &str, now_ms: u64) -> (t: u64)
        requires
            self.wf(),
        ensures
            t == send_time(self.slot_map(), profile_id@, now_ms as int),
    {
        match self.slots.get(profile_id) {
            Some(t) => if *t > now_ms {
                *t
            } else {
                now_ms
            },
            None => now_ms,
        }
    }

    /// Reserves the next send slot of `profile_id` at time `now_ms` and returns how long to
    /// wait before sending; the following slot lies one minimum gap later.
    pub fn reserve(&mut self, profile_id: &str, now_ms: u64) -> (wait_ms: u64)
        requires
            old(self).wf(),
            send_time(old(self).slot_map(), profile_id@, now_ms as int) + QWEN_MIN_REQUEST_GAP_MS
                <= u64::MAX,
        ensures
            final(self).wf(),
            wait_ms == send_time(old(self).slot_map(), profile_id@, now_ms as int) - now_ms,
            final(self).slot_map() == old(self).slot_map().insert(
                profile_id@,
                (send_time(old(self).slot_map(), profile_id@, now_ms as int)
                    + QWEN_MIN_REQUEST_GAP_MS) as u64,
            ),
    {
        let send_at: u64 = match self.slots.get(profile_id) {
            Some(t) => if *t > now_ms {
                *t
            } else {
                now_ms
            },
            None => now_ms,
        };
        self.slots.insert(profile_id.to_owned(), send_at + QWEN_MIN_REQUEST_GAP_MS);
        send_at - now_ms
    }

    /// Holds back the profile's next request until `now_ms + cooldown_ms`, unless a later
    /// time is already reserved.
    pub fn extend_cooldown(&mut self, profile_id: &str, now_ms: u64, cooldown_ms: u64)
        requires
            old(self).wf(),
            now_ms + cooldown_ms <= u64::MAX,
        ensures
            final(self).wf(),
            final(self).slot_map() == old(self).slot_map().insert(
                profile_id@,
                cooled_slot(old(self).slot_map(), profile_id@, now_ms + cooldown_ms) as u64,
            ),
    {
        let candidate = now_ms + cooldown_ms;
        let next: u64 = match self.slots.get(profile_id) {
            Some(t) => if *t >= candidate {
                *t
            } else {
                candidate
            },
            None => candidate,
        };
        self.slots.insert(profile_id.to_owned(), next);
    }
}

/// Two reservations made one after the other for the same profile go out at least one
/// minimum gap apart.
pub proof fn lemma_reservations_are_spaced(
    slots: Map<Seq<char>, u64>,
    profile: Seq<char>,
    now1: int,
    now2: int,
)
    requires
        now1 <= now2,
        send_time(slots, profile, now1) + QWEN_MIN_REQUEST_GAP_MS <= u64::MAX,
    ensures
        send_time(
            slots.insert(
                profile,
                (send_time(slots, profile, now1) + QWEN_MIN_REQUEST_GAP_MS) as u64,
            ),
            profile,
            now2,
        ) >= send_time(slots, profile, now1) + QWEN_MIN_REQUEST_GAP_MS,
{
}

/// After a cooldown, the profile's next request goes out no earlier than the cooldown's
/// end.
pub proof fn lemma_cooldown_holds_requests(
    slots: Map<Seq<char>, u64>,
    profile: Seq<char>,
    now: int,
    cooldown: int,
)
    requires
        0 <= now,
        0 <= cooldown,
        now + cooldown <= u64::MAX,
    ensures
        send_time(
            slots.insert(profile, cooled_slot(slots, profile, now + cooldown) as u64),
            profile,
            now,
        ) >= now + cooldown,
{
}

/// One step of a countdown shown while waiting `remaining_ms`: the whole seconds to show
/// (at least one) and how long to sleep before the next step (at most a second).
pub fn countdown_step(remaining_ms: u64) -> (r: (u64, u64))
    requires
        remaining_ms > 0,
    ensures
        r.0 == (if remaining_ms / 1000 >= 1 {
            remaining_ms / 1000
        } else {
            1
        }),
        r.1 == (if remaining_ms < 1000 {
            remaining_ms
        } else {
            1000
        }),
        0 < r.1 <= remaining_ms,
{
    let secs = remaining_ms / 1000;
    let display = if secs >= 1 {
        secs
    } else {
        1
    };
    let tick = if remaining_ms < 1000 {
        remaining_ms
    } else {
        1000
    };
    (display, tick)
}

} // verus!
