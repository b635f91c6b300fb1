//! How a chat request to an OpenAI-compatible provider is prepared and what happens after a
//! failed attempt: endpoint URLs, output and thinking budgets, request headers, stream
//! timeouts, and the decision to retry, to adjust the request or to give up.
use vstd::prelude::*;

use crate::client::{
    build_qwen_rate_limit_message, burst_phrase, extract_retry_after_secs, hard_quota_phrase,
    opt_view, parse_qwen_rate_limit_context, quota_phrase, qwen_max_tokens, qwen_retry_delay,
    rate_limit_message_spec, retry_after_spec, retry_delay_spec, QwenRateLimitContext,
    QWEN_MAX_429_ATTEMPTS,
};
use crate::ext::{
    json_array_item_strings, json_array_items_member, json_string_at, json_string_at_pointer,
    json_value_at_pointer, json_value_text_at, opt_text_views, unicode_lowercase,
};
use crate::models::{ApiMessage, NonStreamToolCall, NonStreamToolCallFunction, ToolCall, ToolCallFunction};
use crate::profiles::LLMProvider;
use crate::text::{
    chars_of, concat2, concat3, decimal, ends_with_chars, has_suffix, join_with, parse_unsigned,
    parse_unsigned_chars, push_str, seq_contains, str_contains, str_eq, string_of, u64_to_decimal,
};
use crate::zen::{strip_trailing_slashes, strip_trailing_slashes_chars};

verus! {

// ───────────────────────────── endpoint ─────────────────────────────

/// A Qwen access token is refreshed when it expires within the next minute.
pub fn qwen_token_needs_refresh(now_secs: u64, expires_at: u64) -> (b: bool)
    ensures
        b == (now_secs + 60 > expires_at),
{
    now_secs > expires_at || expires_at - now_secs < 60
}

/// The chat endpoint of Qwen's portal: the account's resource host when it names one outside
/// DashScope and Aliyun, else the public portal.
pub open spec fn qwen_endpoint(resource_url: Option<Seq<char>>) -> Seq<char> {
    (match resource_url {
        Some(ru) => if ru.len() > 0 && !seq_contains(ru, "dashscope"@) && !seq_contains(
            ru,
            "aliyun"@,
        ) {
            "https://"@ + ru + "/v1"@
        } else {
            "https://portal.qwen.ai/v1"@
        },
        None => "https://portal.qwen.ai/v1"@,
    }) + "/chat/completions"@
}

/// Chat-completions URL for a Qwen CLI profile.
pub fn qwen_chat_completions_url(resource_url: Option<&str>) -> (r: String)
    ensures
        r@ == qwen_endpoint(opt_view(resource_url)),
{
    let base = match resource_url {
        Some(ru) => if !ru.is_empty() && !str_contains(ru, "dashscope") && !str_contains(
            ru,
            "aliyun",
        ) {
            concat3("https://", ru, "/v1")
        } else {
            "https://portal.qwen.ai/v1".to_owned()
        },
        None => "https://portal.qwen.ai/v1".to_owned(),
    };
    concat2(base.as_str(), "/chat/completions")
}

/// Local and Ollama-style servers that expect the `/v1` prefix.
pub open spec fn wants_v1_prefix(p: LLMProvider) -> bool {
    p == LLMProvider::Ollama || p == LLMProvider::OllamaCloud || p == LLMProvider::LMStudio
}

/// Chat-completions URL for a profile's base URL: trailing slashes dropped, `/v1` added
/// for Ollama, Ollama Cloud and LM Studio when missing.
pub open spec fn chat_endpoint(p: LLMProvider, base_url: Seq<char>) -> Seq<char> {
    let trimmed = strip_trailing_slashes(base_url);
    (if wants_v1_prefix(p) && !has_suffix(trimmed, "/v1"@) {
        trimmed + "/v1"@
    } else {
        trimmed
    }) + "/chat/completions"@
}

/// Chat-completions URL of a profile.
pub fn chat_completions_url(provider: LLMProvider, base_url: &str) -> (r: String)
    ensures
        r@ == chat_endpoint(provider, base_url@),
{
    let v = chars_of(base_url);
    let t = strip_trailing_slashes_chars(&v);
    let trimmed = string_of(&t);
    let wants = match provider {
        LLMProvider::Ollama | LLMProvider::OllamaCloud | LLMProvider::LMStudio => true,
        _ => false,
    };
    let suffix = chars_of("/v1");
    let has_v1 = ends_with_chars(&t, &suffix);
    let base = if wants && !has_v1 {
        concat2(trimmed.as_str(), "/v1")
    } else {
        trimmed
    };
    concat2(base.as_str(), "/chat/completions")
}

// ───────────────────────────── budgets ─────────────────────────────

/// Output-token limit sent for a provider: Qwen's own bounds, at least 8192 for LM Studio,
/// 4096..=64000 for MiniMax, and 4096 for anything above 16384 elsewhere.
pub open spec fn api_max_tokens(p: LLMProvider, max_tokens: u32, tool_heavy: bool) -> int {
    if p == LLMProvider::QwenCli {
        let base = if max_tokens < 8192 {
            8192
        } else if max_tokens > 65536 {
            65536
        } else {
            max_tokens as int
        };
        if tool_heavy && base > 16384 {
            16384
        } else {
            base
        }
    } else if p == LLMProvider::LMStudio {
        if max_tokens < 8192 {
            8192
        } else {
            max_tokens as int
        }
    } else if p == LLMProvider::MiniMax {
        let capped = if max_tokens > 64000 {
            64000
        } else {
            max_tokens as int
        };
        if capped < 4096 {
            4096
        } else {
            capped
        }
    } else if max_tokens > 16384 {
        4096
    } else {
        max_tokens as int
    }
}

/// Output-token limit of a request.
pub fn resolve_api_max_tokens(provider: LLMProvider, max_tokens: u32, tool_heavy: bool) -> (r: u32)
    ensures
        r == api_max_tokens(provider, max_tokens, tool_heavy),
{
    match provider {
        LLMProvider::QwenCli => qwen_max_tokens(max_tokens, tool_heavy),
        LLMProvider::LMStudio => if max_tokens < 8192 {
            8192
        } else {
            max_tokens
        },
        LLMProvider::MiniMax => {
            let capped = if max_tokens > 64000 {
                64000
            } else {
                max_tokens
            };
            if capped < 4096 {
                4096
            } else {
                capped
            }
        },
        _ => if max_tokens > 16384 {
            4096
        } else {
            max_tokens
        },
    }
}

/// Thinking is on only for Qwen CLI profiles that enable it.
pub fn qwen_thinking_enabled(provider: LLMProvider, enable_thinking: Option<bool>) -> (b: bool)
    ensures
        b == (provider == LLMProvider::QwenCli && enable_thinking == Some(true)),
{
    match provider {
        LLMProvider::QwenCli => match enable_thinking {
            Some(true) => true,
            _ => false,
        },
        _ => false,
    }
}

/// Sampling temperature (in thousandths) sent with a request: 1.0 while thinking.
pub fn effective_temperature_milli(thinking: bool, temperature_milli: u32) -> (r: u32)
    ensures
        r == (if thinking {
            1000
        } else {
            temperature_milli
        }),
{
    if thinking {
        1000
    } else {
        temperature_milli
    }
}

/// The `enable_thinking` flag of a request: on while thinking, explicitly off for LM Studio,
/// absent otherwise.
pub fn enable_thinking_flag(provider: LLMProvider, thinking: bool) -> (r: Option<bool>)
    ensures
        r == (if thinking {
            Some(true)
        } else if provider == LLMProvider::LMStudio {
            Some(false)
        } else {
            None
        }),
{
    if thinking {
        Some(true)
    } else {
        match provider {
            LLMProvider::LMStudio => Some(false),
            _ => None,
        }
    }
}

/// UTF-8 bytes of the messages' text content.
pub open spec fn content_bytes(ms: Seq<ApiMessage>) -> nat
    decreases ms.len(),
{
    if ms.len() == 0 {
        0
    } else {
        content_bytes(ms.drop_last()) + match ms.last().content {
            Some(c) => crate::chat::str_bytes(c),
            None => 0,
        }
    }
}

/// Estimated input tokens that size a thinking budget: a quarter of the content bytes,
/// truncated to 32 bits.
pub fn estimated_input_tokens(messages: &[ApiMessage]) -> (r: u32)
    requires
        content_bytes(messages@) <= usize::MAX,
    ensures
        r == ((content_bytes(messages@) / 4) as u32),
{
    let mut total: usize = 0;
    let mut i: usize = 0;
    while i < messages.len()
        invariant
            i <= messages@.len(),
            content_bytes(messages@) <= usize::MAX,
            total == content_bytes(messages@.subrange(0, i as int)),
        decreases messages.len() - i,
    {
        proof {
            lemma_content_bytes_prefix(messages@, i + 1);
            assert(messages@.subrange(0, i + 1).drop_last() =~= messages@.subrange(0, i as int));
        }
        let n: usize = match &messages[i].content {
            Some(c) => c.as_str().len(),
            None => 0,
        };
        total = total + n;
        i = i + 1;
    }
    assert(messages@.subrange(0, messages.len() as int) =~= messages@);
    (total / 4) as u32
}

proof fn lemma_content_bytes_prefix(ms: Seq<ApiMessage>, k: int)
    requires
        0 <= k <= ms.len(),
    ensures
        content_bytes(ms.subrange(0, k)) <= content_bytes(ms),
    decreases ms.len(),
{
    if k == ms.len() {
        assert(ms.subrange(0, k) =~= ms);
    } else {
        lemma_content_bytes_prefix(ms.drop_last(), k);
        assert(ms.drop_last().subrange(0, k) =~= ms.subrange(0, k));
    }
}

// ───────────────────────────── headers ─────────────────────────────

/// Header pairs as text.
pub open spec fn header_views(hs: Seq<(String, String)>) -> Seq<(Seq<char>, Seq<char>)> {
    hs.map_values(|h: (String, String)| (h.0@, h.1@))
}

/// Headers that identify the client to Qwen's portal as the Qwen Code CLI.
pub open spec fn qwen_client_headers() -> Seq<(Seq<char>, Seq<char>)> {
    seq![
        ("User-Agent"@, "QwenCode/0.10.3 (darwin; arm64)"@),
        ("X-Dashscope-Useragent"@, "QwenCode/0.10.3 (darwin; arm64)"@),
        ("X-Dashscope-Authtype"@, "qwen-oauth"@),
        ("X-Dashscope-Cachecontrol"@, "enable"@),
        ("X-Stainless-Runtime"@, "node"@),
        ("X-Stainless-Runtime-Version"@, "v22.17.0"@),
        ("X-Stainless-Lang"@, "js"@),
        ("X-Stainless-Package-Version"@, "5.11.0"@),
        ("Sec-Fetch-Mode"@, "cors"@),
    ]
}

/// Headers of a chat request, in the order they are set: the JSON content type, the bearer
/// token when there is a key, OpenRouter's attribution and Qwen's client identity.
pub open spec fn chat_headers(p: LLMProvider, api_key: Seq<char>) -> Seq<(Seq<char>, Seq<char>)> {
    seq![("Content-Type"@, "application/json"@)] + (if api_key.len() > 0 {
        seq![("Authorization"@, "Bearer "@ + api_key)]
    } else {
        Seq::empty()
    }) + (if p == LLMProvider::OpenRouter {
        seq![("HTTP-Referer"@, "https://mini-ai-1c.local"@), ("X-Title"@, "Mini AI 1C Agent"@)]
    } else {
        Seq::empty()
    }) + (if p == LLMProvider::QwenCli {
        qwen_client_headers()
    } else {
        Seq::empty()
    })
}

pub(crate) fn push_header(hs: &mut Vec<(String, String)>, name: &str, value: &str)
    ensures
        header_views(final(hs)@) == header_views(old(hs)@).push((name@, value@)),
{
    let ghost before = header_views(hs@);
    hs.push((name.to_owned(), value.to_owned()));
    assert(header_views(hs@) =~= before.push((name@, value@)));
}

/// Headers of a chat request.
pub fn chat_request_headers(provider: LLMProvider, api_key: &str) -> (r: Vec<(String, String)>)
    ensures
        header_views(r@) == chat_headers(provider, api_key@),
{
    let mut hs: Vec<(String, String)> = Vec::new();
    push_header(&mut hs, "Content-Type", "application/json");
    let ghost h1 = header_views(hs@);
    if !api_key.is_empty() {
        let bearer = concat2("Bearer ", api_key);
        push_header(&mut hs, "Authorization", bearer.as_str());
    }
    let ghost h2 = header_views(hs@);
    assert(h2 =~= h1 + (if api_key@.len() > 0 {
        seq![("Authorization"@, "Bearer "@ + api_key@)]
    } else {
        Seq::empty()
    }));
    match provider {
        LLMProvider::OpenRouter => {
            push_header(&mut hs, "HTTP-Referer", "https://mini-ai-1c.local");
            push_header(&mut hs, "X-Title", "Mini AI 1C Agent");
        },
        _ => {},
    }
    let ghost h3 = header_views(hs@);
    assert(h3 =~= h2 + (if provider == LLMProvider::OpenRouter {
        seq![("HTTP-Referer"@, "https://mini-ai-1c.local"@), ("X-Title"@, "Mini AI 1C Agent"@)]
    } else {
        Seq::empty()
    }));
    match provider {
        LLMProvider::QwenCli => {
            push_header(&mut hs, "User-Agent", "QwenCode/0.10.3 (darwin; arm64)");
            push_header(&mut hs, "X-Dashscope-Useragent", "QwenCode/0.10.3 (darwin; arm64)");
            push_header(&mut hs, "X-Dashscope-Authtype", "qwen-oauth");
            push_header(&mut hs, "X-Dashscope-Cachecontrol", "enable");
            push_header(&mut hs, "X-Stainless-Runtime", "node");
            push_header(&mut hs, "X-Stainless-Runtime-Version", "v22.17.0");
            push_header(&mut hs, "X-Stainless-Lang", "js");
            push_header(&mut hs, "X-Stainless-Package-Version", "5.11.0");
            push_header(&mut hs, "Sec-Fetch-Mode", "cors");
        },
        _ => {},
    }
    assert(header_views(hs@) =~= h3 + (if provider == LLMProvider::QwenCli {
        qwen_client_headers()
    } else {
        Seq::empty()
    }));
    hs
}

// ───────────────────────────── timeouts ─────────────────────────────

/// Providers served from the user's own machine.
pub open spec fn is_local_server(p: LLMProvider) -> bool {
    p == LLMProvider::Ollama || p == LLMProvider::LMStudio
}

/// Whether the provider runs on the user's machine (no connect or read timeouts then).
pub fn is_local_endpoint(provider: LLMProvider) -> (b: bool)
    ensures
        b == is_local_server(provider),
{
    match provider {
        LLMProvider::Ollama | LLMProvider::LMStudio => true,
        _ => false,
    }
}

/// Seconds a stream may stay silent: the profile's setting, else 300 for local servers,
/// 120 for MiniMax and Ollama Cloud and 30 otherwise.
pub fn stream_chunk_timeout_secs(provider: LLMProvider, configured: Option<u32>) -> (r: u32)
    ensures
        r == match configured {
            Some(v) => v,
            None => if is_local_server(provider) {
                300
            } else if provider == LLMProvider::MiniMax || provider == LLMProvider::OllamaCloud {
                120
            } else {
                30
            },
        },
{
    match configured {
        Some(v) => v,
        None => match provider {
            LLMProvider::Ollama | LLMProvider::LMStudio => 300,
            LLMProvider::MiniMax | LLMProvider::OllamaCloud => 120,
            _ => 30,
        },
    }
}

// ───────────────────────────── after a failed attempt ─────────────────────────────

/// Attempts a request gets before a server error or a 429 is reported.
pub const MAX_REQUEST_ATTEMPTS: u32 = 3;

/// What the request loop does after an attempt failed.
#[derive(Debug)]
pub enum RetryDecision {
    /// Wait this many seconds, then send the same request again.
    RetryAfter(u64),
    /// Qwen limited the profile: hold its requests back this many seconds, lower the
    /// request's limits (harder when `quota_exceeded`), wait, and send again.
    QwenCooldown { delay_secs: u64, quota_exceeded: bool },
    /// The model refuses a system message: fold it into the first user message and start
    /// the attempts over.
    MergeSystemIntoUser,
    /// The model refuses tools: send without them and start the attempts over.
    DropTools,
    /// Give up with this message.
    Fail(String),
}

/// Seconds before retrying a non-Qwen 429: the clamped `Retry-After` value, else ten.
pub open spec fn plain_retry_delay(retry_after: Option<Seq<char>>) -> u64 {
    match retry_after_spec(retry_after) {
        Some(s) => s,
        None => 10,
    }
}

/// Message for a free OpenRouter model that is rate limited.
pub open spec fn free_model_hint(model: Seq<char>) -> Seq<char> {
    "Бесплатная модель `"@ + model
        + "` временно перегружена на Google AI Studio (общий пул). Варианты решения:\n• Подождите 1–2 минуты и повторите\n• Добавьте свой Google AI Studio ключ: https://openrouter.ai/settings/integrations\n• Переключитесь на другую модель (например, `google/gemma-3-27b-it` без `:free`)"@
}

/// Message for a model that Ollama Cloud only serves with a subscription.
pub open spec fn subscription_hint(model: Seq<char>) -> Seq<char> {
    "Модель '"@ + model
        + "' требует платной подписки Ollama Cloud. Оформите подписку на https://ollama.com/upgrade или выберите другую модель в профиле. Бесплатно доступны: gpt-oss:20b/120b, qwen3-coder:480b, qwen3-next:80b, kimi-k2-thinking, glm-4.6, minimax-m2 и другие."@
}

/// `ctx` is what a Qwen 429 with this `Retry-After` value and body says about the limit.
pub open spec fn qwen_limit_read(
    ctx: QwenRateLimitContext,
    retry_after: Option<Seq<char>>,
    body: Seq<char>,
) -> bool {
    &&& ctx.retry_after_secs == retry_after_spec(retry_after)
    &&& match ctx.message {
        Some(m) => json_string_at(body, "/error/message"@) == Some(m@),
        None => json_string_at(body, "/error/message"@) is None,
    }
    &&& ctx.is_quota_exceeded == quota_phrase(unicode_lowercase(body))
    &&& ctx.is_hard_quota_exhausted == hard_quota_phrase(unicode_lowercase(body))
    &&& ctx.is_burst_limited == burst_phrase(unicode_lowercase(body))
}

/// The decision after a response with an unsuccessful status. `status_text` is the status as
/// HTTP prints it (`500 Internal Server Error`), `retry_after` the `Retry-After` header;
/// `has_system` and `has_tools` describe the request that was sent.
pub open spec fn error_response_decision(
    provider: LLMProvider,
    model: Seq<char>,
    attempt: u32,
    status: u16,
    status_text: Seq<char>,
    retry_after: Option<Seq<char>>,
    body: Seq<char>,
    has_system: bool,
    has_tools: bool,
    decision: RetryDecision,
) -> bool {
    if status == 500 && attempt < MAX_REQUEST_ATTEMPTS {
        decision == RetryDecision::RetryAfter(2)
    } else if provider == LLMProvider::QwenCli && status == 429 {
        exists|ctx: QwenRateLimitContext|
            #![trigger qwen_limit_read(ctx, retry_after, body)]
            qwen_limit_read(ctx, retry_after, body) && if attempt < QWEN_MAX_429_ATTEMPTS
                && retry_delay_spec(attempt, ctx) is Some {
                decision == RetryDecision::QwenCooldown {
                    delay_secs: retry_delay_spec(attempt, ctx)->0,
                    quota_exceeded: ctx.is_quota_exceeded,
                }
            } else {
                decision matches RetryDecision::Fail(m) && m@ == rate_limit_message_spec(ctx)
            }
    } else if status == 429 && attempt < MAX_REQUEST_ATTEMPTS {
        decision == RetryDecision::RetryAfter(plain_retry_delay(retry_after))
    } else if provider == LLMProvider::OpenRouter && status == 400 && seq_contains(
        body,
        "Developer instruction is not enabled"@,
    ) {
        if has_system {
            decision == RetryDecision::MergeSystemIntoUser
        } else {
            decision matches RetryDecision::Fail(m) && m@
                == "Модель не поддерживает системные инструкции (Developer instruction is not enabled). Попробуйте другую модель."@
        }
    } else if provider == LLMProvider::OpenRouter && status == 429 {
        decision matches RetryDecision::Fail(m) && m@ == if has_suffix(model, ":free"@) {
            free_model_hint(model)
        } else {
            match json_string_at(body, "/error/metadata/raw"@) {
                Some(raw) => raw,
                None => "Превышен лимит запросов. Попробуйте позже."@,
            }
        }
    } else if provider == LLMProvider::OpenRouter && status == 401 && seq_contains(
        body,
        "No cookie auth credentials found"@,
    ) {
        decision matches RetryDecision::Fail(m) && m@
            == "OpenRouter не получил API key. Проверьте поле API Key в профиле и сохраните его заново."@
    } else if provider == LLMProvider::OpenRouter && status == 404 && seq_contains(
        body,
        "No endpoints found that support tool use"@,
    ) {
        if has_tools {
            decision == RetryDecision::DropTools
        } else {
            decision matches RetryDecision::Fail(m) && m@
                == "Модель не поддерживает инструменты (tool use) на OpenRouter. Попробуйте другую модель."@
        }
    } else if provider == LLMProvider::OllamaCloud && status == 403 && seq_contains(
        body,
        "requires a subscription"@,
    ) {
        decision matches RetryDecision::Fail(m) && m@ == subscription_hint(model)
    } else {
        decision matches RetryDecision::Fail(m) && m@ == "API error "@ + status_text + ": "@ + body
    }
}

/// Decides what follows a response with an unsuccessful status.
pub fn decide_after_error_response(
    provider: LLMProvider,
    model: &str,
    attempt: u32,
    status: u16,
    status_text: &str,
    retry_after: Option<&str>,
    body: &str,
    has_system: bool,
    has_tools: bool,
) -> (d: RetryDecision)
    ensures
        error_response_decision(
            provider,
            model@,
            attempt,
            status,
            status_text@,
            opt_view(retry_after),
            body@,
            has_system,
            has_tools,
            d,
        ),
{
    if status == 500 && attempt < MAX_REQUEST_ATTEMPTS {
        return RetryDecision::RetryAfter(2);
    }
    if provider == LLMProvider::QwenCli && status == 429 {
        let ctx = parse_qwen_rate_limit_context(retry_after, body);
        assert(qwen_limit_read(ctx, opt_view(retry_after), body@));
        if attempt < QWEN_MAX_429_ATTEMPTS {
            if let Some(delay) = qwen_retry_delay(attempt, &ctx) {
                return RetryDecision::QwenCooldown {
                    delay_secs: delay,
                    quota_exceeded: ctx.is_quota_exceeded,
                };
            }
        }
        return RetryDecision::Fail(build_qwen_rate_limit_message(&ctx));
    }
    if status == 429 && attempt < MAX_REQUEST_ATTEMPTS {
        let secs = match extract_retry_after_secs(retry_after) {
            Some(s) => s,
            None => 10,
        };
        return RetryDecision::RetryAfter(secs);
    }
    let open_router = provider == LLMProvider::OpenRouter;
    if open_router && status == 400 && str_contains(body, "Developer instruction is not enabled") {
        if has_system {
            return RetryDecision::MergeSystemIntoUser;
        }
        return RetryDecision::Fail(
            "Модель не поддерживает системные инструкции (Developer instruction is not enabled). Попробуйте другую модель.".to_owned(),
        );
    }
    if open_router && status == 429 {
        let mv = chars_of(model);
        let free = chars_of(":free");
        if ends_with_chars(&mv, &free) {
            return RetryDecision::Fail(
                concat3(
                    "Бесплатная модель `",
                    model,
                    "` временно перегружена на Google AI Studio (общий пул). Варианты решения:\n• Подождите 1–2 минуты и повторите\n• Добавьте свой Google AI Studio ключ: https://openrouter.ai/settings/integrations\n• Переключитесь на другую модель (например, `google/gemma-3-27b-it` без `:free`)",
                ),
            );
        }
        return RetryDecision::Fail(
            match json_string_at_pointer(body, "/error/metadata/raw") {
                Some(raw) => raw,
                None => "Превышен лимит запросов. Попробуйте позже.".to_owned(),
            },
        );
    }
    if open_router && status == 401 && str_contains(body, "No cookie auth credentials found") {
        return RetryDecision::Fail(
            "OpenRouter не получил API key. Проверьте поле API Key в профиле и сохраните его заново.".to_owned(),
        );
    }
    if open_router && status == 404 && str_contains(body, "No endpoints found that support tool use") {
        if has_tools {
            return RetryDecision::DropTools;
        }
        return RetryDecision::Fail(
            "Модель не поддерживает инструменты (tool use) на OpenRouter. Попробуйте другую модель.".to_owned(),
        );
    }
    if provider == LLMProvider::OllamaCloud && status == 403 && str_contains(
        body,
        "requires a subscription",
    ) {
        return RetryDecision::Fail(
            concat3(
                "Модель '",
                model,
                "' требует платной подписки Ollama Cloud. Оформите подписку на https://ollama.com/upgrade или выберите другую модель в профиле. Бесплатно доступны: gpt-oss:20b/120b, qwen3-coder:480b, qwen3-next:80b, kimi-k2-thinking, glm-4.6, minimax-m2 и другие.",
            ),
        );
    }
    let mut m = concat3("API error ", status_text, ": ");
    push_str(&mut m, body);
    RetryDecision::Fail(m)
}

/// Decides what follows an attempt that got no response at all: two more tries two seconds
/// apart, then the error is reported.
pub fn decide_after_transport_error(attempt: u32, error_text: &str) -> (d: RetryDecision)
    ensures
        if attempt < MAX_REQUEST_ATTEMPTS {
            d == RetryDecision::RetryAfter(2)
        } else {
            d matches RetryDecision::Fail(m) && m@ == "Request failed after "@ + decimal(
                attempt as nat,
            ) + " attempts: "@ + error_text@
        },
{
    if attempt < MAX_REQUEST_ATTEMPTS {
        return RetryDecision::RetryAfter(2);
    }
    let n = u64_to_decimal(attempt as u64);
    let mut m = concat3("Request failed after ", n.as_str(), " attempts: ");
    push_str(&mut m, error_text);
    RetryDecision::Fail(m)
}

// ───────────────────────────── folding the system role ─────────────────────────────

/// A system message.
pub open spec fn is_system(m: ApiMessage) -> bool {
    m.role@ == "system"@
}

/// The texts of the system messages that have one, in order.
pub open spec fn system_texts(ms: Seq<ApiMessage>) -> Seq<Seq<char>>
    decreases ms.len(),
{
    if ms.len() == 0 {
        Seq::empty()
    } else {
        let r = system_texts(ms.drop_last());
        if is_system(ms.last()) && ms.last().content is Some {
            r.push(ms.last().content->0@)
        } else {
            r
        }
    }
}

/// The messages that are not system messages, in order.
pub open spec fn without_system(ms: Seq<ApiMessage>) -> Seq<ApiMessage>
    decreases ms.len(),
{
    if ms.len() == 0 {
        Seq::empty()
    } else {
        let r = without_system(ms.drop_last());
        if is_system(ms.last()) {
            r
        } else {
            r.push(ms.last())
        }
    }
}

/// `f` is the first user message of `ms`.
pub open spec fn is_first_user(ms: Seq<ApiMessage>, f: int) -> bool {
    &&& 0 <= f < ms.len()
    &&& ms[f].role@ == "user"@
    &&& forall|j: int| 0 <= j < f ==> (#[trigger] ms[j]).role@ != "user"@
}

/// `r` is `ms` without system messages, the first user message's text prefixed with the
/// system texts joined by blank lines and a `---` separator.
pub open spec fn system_folded(ms: Seq<ApiMessage>, r: Seq<ApiMessage>) -> bool {
    let rest = without_system(ms);
    let sys = join_with(system_texts(ms), "\n\n"@);
    &&& r.len() == rest.len()
    &&& forall|i: int|
        0 <= i < r.len() && !is_first_user(rest, i) ==> #[trigger] r[i] == rest[i]
    &&& forall|i: int|
        #![trigger is_first_user(rest, i)]
        is_first_user(rest, i) ==> {
            &&& r[i].role == rest[i].role
            &&& r[i].tool_calls == rest[i].tool_calls
            &&& r[i].tool_call_id == rest[i].tool_call_id
            &&& r[i].name == rest[i].name
            &&& r[i].content matches Some(c) && c@ == sys + "\n\n---\n\n"@ + match rest[i].content {
                Some(o) => o@,
                None => Seq::empty(),
            }
        }
}

proof fn lemma_first_user_unique(ms: Seq<ApiMessage>, a: int, b: int)
    requires
        is_first_user(ms, a),
        is_first_user(ms, b),
    ensures
        a == b,
{
    if a < b {
        assert(ms[a].role@ != "user"@);
    } else if b < a {
        assert(ms[b].role@ != "user"@);
    }
}

/// For a model that refuses the system role: removes the system messages and puts their
/// text in front of the first user message.
pub fn merge_system_into_first_user(messages: Vec<ApiMessage>) -> (r: Vec<ApiMessage>)
    ensures
        system_folded(messages@, r@),
{
    let ghost orig = messages@;
    let mut source = messages;
    let n = source.len();
    let mut texts: Vec<String> = Vec::new();
    let mut rest: Vec<ApiMessage> = Vec::new();
    let mut i: usize = 0;
    while i < n
        invariant
            i <= n,
            n == orig.len(),
            source@ == orig.subrange(i as int, n as int),
            crate::text::views(texts@) == system_texts(orig.subrange(0, i as int)),
            rest@ == without_system(orig.subrange(0, i as int)),
        decreases n - i,
    {
        let m = source.remove(0);
        let ghost pre = orig.subrange(0, i + 1);
        assert(pre.drop_last() =~= orig.subrange(0, i as int));
        assert(pre.last() == m);
        let ghost tv = crate::text::views(texts@);
        if str_eq(m.role.as_str(), "system") {
            match m.content {
                Some(c) => {
                    texts.push(c);
                    assert(crate::text::views(texts@) =~= tv.push(pre.last().content->0@));
                },
                None => {},
            }
        } else {
            rest.push(m);
        }
        assert(source@ =~= orig.subrange(i + 1, n as int));
        i = i + 1;
    }
    assert(orig.subrange(0, n as int) =~= orig);
    let ghost sys_parts = crate::text::views(texts@);
    let mut joined = String::new();
    if texts.len() > 0 {
        joined = texts[0].clone();
        let mut k: usize = 1;
        while k < texts.len()
            invariant
                1 <= k <= texts@.len(),
                sys_parts == crate::text::views(texts@),
                joined@ == join_with(sys_parts.subrange(0, k as int), "\n\n"@),
            decreases texts.len() - k,
        {
            let ghost pre = sys_parts.subrange(0, k + 1);
            assert(pre.drop_last() =~= sys_parts.subrange(0, k as int));
            push_str(&mut joined, "\n\n");
            push_str(&mut joined, texts[k].as_str());
            k = k + 1;
        }
        assert(sys_parts.subrange(0, texts.len() as int) =~= sys_parts);
    }
    assert(joined@ == join_with(sys_parts, "\n\n"@));
    let ghost rest0 = rest@;
    let mut j: usize = 0;
    while j < rest.len()
        invariant
            j <= rest@.len(),
            rest@ == rest0,
            rest0 == without_system(orig),
            orig == messages@,
            joined@ == join_with(system_texts(orig), "\n\n"@),
            forall|q: int| 0 <= q < j ==> (#[trigger] rest0[q]).role@ != "user"@,
        decreases rest.len() - j,
    {
        if str_eq(rest[j].role.as_str(), "user") {
            let original: &str = match &rest[j].content {
                Some(c) => c.as_str(),
                None => "",
            };
            proof {
                reveal_strlit("");
            }
            assert(original@ == match rest0[j as int].content {
                Some(o) => o@,
                None => Seq::<char>::empty(),
            });
            let mut merged = concat2(joined.as_str(), "\n\n---\n\n");
            push_str(&mut merged, original);
            let ghost f = j as int;
            let ghost merged_view = merged@;
            assert(is_first_user(rest0, f));
            rest[j].content = Some(merged);
            assert(rest@[f].content matches Some(c) && c@ == merged_view);
            assert(rest@[f].role == rest0[f].role);
            assert forall|q: int|
                0 <= q < rest@.len() && !is_first_user(rest0, q) implies #[trigger] rest@[q]
                == rest0[q] by {
                if q == f {
                    assert(is_first_user(rest0, f));
                }
            }
            assert forall|q: int| #![trigger is_first_user(rest0, q)] is_first_user(rest0, q) implies q == f by {
                lemma_first_user_unique(rest0, q, f);
            }
            return rest;
        }
        j = j + 1;
    }
    rest
}

// ───────────────────────────── responses ─────────────────────────────

/// A tool call of a complete (non-streamed) response: missing or empty arguments become
/// `{}`.
pub fn tool_call_from_response(tc: NonStreamToolCall) -> (r: ToolCall)
    ensures
        r.id == tc.id,
        r.kind == tc.kind,
        r.function.name == tc.function.name,
        r.function.arguments@ == match tc.function.arguments {
            Some(a) => if a@.len() > 0 {
                a@
            } else {
                "{}"@
            },
            None => "{}"@,
        },
{
    let arguments = match tc.function.arguments {
        Some(a) => if !a.as_str().is_empty() {
            a
        } else {
            "{}".to_owned()
        },
        None => "{}".to_owned(),
    };
    ToolCall { id: tc.id, kind: tc.kind, function: ToolCallFunction { name: tc.function.name, arguments } }
}

/// The assistant message built from a response: empty text and an empty call list are
/// left out.
pub fn assistant_reply(content: String, tool_calls: Vec<ToolCall>) -> (m: ApiMessage)
    ensures
        m.role@ == "assistant"@,
        m.content == (if content@.len() == 0 {
            None
        } else {
            Some(content)
        }),
        m.tool_calls == (if tool_calls@.len() == 0 {
            None
        } else {
            Some(tool_calls)
        }),
        m.tool_call_id is None,
        m.name is None,
{
    let content_opt = if content.as_str().is_empty() {
        None
    } else {
        Some(content)
    };
    let calls_opt = if tool_calls.len() == 0 {
        None
    } else {
        Some(tool_calls)
    };
    ApiMessage {
        role: "assistant".to_owned(),
        content: content_opt,
        tool_calls: calls_opt,
        tool_call_id: None,
        name: None,
    }
}

/// JSON pointer, below a response message, to a part of its `k`-th tool call.
pub open spec fn reply_call_pointer(k: int, rest: Seq<char>) -> Seq<char> {
    "/tool_calls/"@ + decimal(k as nat) + rest
}

/// `o`'s text, or `d` when there is none.
pub open spec fn text_or(o: Option<Seq<char>>, d: Seq<char>) -> Seq<char> {
    match o {
        Some(s) => s,
        None => d,
    }
}

/// The arguments of the `k`-th tool call of the response message `m` as the provider gave
/// them: a string as it is, any other value but `null` as its JSON text; nothing when they
/// are missing or `null`.
pub open spec fn reply_arguments(m: Seq<char>, k: int) -> Option<Seq<char>> {
    let p = reply_call_pointer(k, "/function/arguments"@);
    match json_string_at(m, p) {
        Some(s) => Some(s),
        None => match json_value_text_at(m, p) {
            Some(t) => if t == "null"@ {
                None
            } else {
                Some(t)
            },
            None => None,
        },
    }
}

/// A tool call as plain text: id, kind, name and arguments.
pub type CallView = (Seq<char>, Seq<char>, Seq<char>, Seq<char>);

/// The text of a tool call.
pub open spec fn call_view(c: ToolCall) -> CallView {
    (c.id@, c.kind@, c.function.name@, c.function.arguments@)
}

/// The `k`-th tool call of the response message `m`, given the ids and kinds its tool calls
/// carry as strings: a missing id or name reads as empty, a missing kind as `function`, and
/// missing or empty arguments as `{}`.
pub open spec fn reply_call(
    m: Seq<char>,
    ids: Seq<Option<Seq<char>>>,
    kinds: Option<Seq<Option<Seq<char>>>>,
    k: int,
) -> CallView {
    let arguments = match reply_arguments(m, k) {
        Some(a) => if a.len() > 0 {
            a
        } else {
            "{}"@
        },
        None => "{}"@,
    };
    (
        text_or(ids[k], Seq::empty()),
        match kinds {
            Some(v) => if k < v.len() {
                text_or(v[k], "function"@)
            } else {
                "function"@
            },
            None => "function"@,
        },
        text_or(json_string_at(m, reply_call_pointer(k, "/function/name"@)), Seq::empty()),
        arguments,
    )
}

/// The tool calls of the response message `m`: one for each item of its `tool_calls` array,
/// in order; none when it has no such array.
pub open spec fn reply_calls_match(m: Seq<char>, calls: Seq<ToolCall>) -> bool {
    match json_array_item_strings(m, "tool_calls"@, "id"@) {
        None => calls.len() == 0,
        Some(ids) => {
            &&& calls.len() == ids.len()
            &&& forall|k: int|
                0 <= k < calls.len() ==> call_view(#[trigger] calls[k]) == reply_call(
                    m,
                    ids,
                    json_array_item_strings(m, "tool_calls"@, "type"@),
                    k,
                )
        },
    }
}

/// The assistant message of a complete response whose first choice's message is `m`.
pub open spec fn reply_message_matches(m: Seq<char>, msg: ApiMessage) -> bool {
    let content = text_or(json_string_at(m, "/content"@), Seq::empty());
    &&& msg.role@ == "assistant"@
    &&& msg.tool_call_id is None
    &&& msg.name is None
    &&& match msg.content {
        None => content.len() == 0,
        Some(c) => content.len() > 0 && c@ == content,
    }
    &&& match msg.tool_calls {
        None => reply_calls_match(m, Seq::empty()),
        Some(v) => v@.len() > 0 && reply_calls_match(m, v@),
    }
}

/// The tool calls of the response message `m` (compact JSON text).
fn reply_tool_calls(m: &str) -> (r: Vec<ToolCall>)
    ensures
        reply_calls_match(m@, r@),
{
    let ids = match json_array_items_member(m, "tool_calls", "id") {
        None => return Vec::new(),
        Some(v) => v,
    };
    let kinds = json_array_items_member(m, "tool_calls", "type");
    let ghost id_views = opt_text_views(ids@);
    let ghost kind_views = json_array_item_strings(m@, "tool_calls"@, "type"@);
    let mut calls: Vec<ToolCall> = Vec::new();
    let n = ids.len();
    let mut k: usize = 0;
    while k < n
        invariant
            k <= n,
            n == ids@.len(),
            id_views == opt_text_views(ids@),
            json_array_item_strings(m@, "tool_calls"@, "id"@) == Some(id_views),
            kind_views == json_array_item_strings(m@, "tool_calls"@, "type"@),
            match kinds {
                Some(v) => kind_views == Some(opt_text_views(v@)),
                None => kind_views is None,
            },
            calls@.len() == k,
            forall|q: int| 0 <= q < k ==> call_view(#[trigger] calls@[q]) == reply_call(m@, id_views, kind_views, q),
        decreases n - k,
    {
        let call = reply_tool_call(m, &ids, &kinds, k);
        proof {
            assert(id_views[k as int] == match ids@[k as int] {
                Some(s) => Some(s@),
                None => None,
            });
        }
        calls.push(call);
        k = k + 1;
    }
    calls
}

/// The `k`-th tool call of the response message `m`, given the ids and kinds its tool calls
/// carry.
fn reply_tool_call(m: &str, ids: &Vec<Option<String>>, kinds: &Option<Vec<Option<String>>>, k: usize) -> (r:
    ToolCall)
    requires
        k < ids@.len(),
    ensures
        call_view(r) == reply_call(
            m@,
            opt_text_views(ids@),
            match kinds {
                Some(v) => Some(opt_text_views(v@)),
                None => None,
            },
            k as int,
        ),
{
    let index = u64_to_decimal(k as u64);
    let id = match &ids[k] {
        Some(s) => s.clone(),
        None => String::new(),
    };
    let kind = match kinds {
        Some(v) => if k < v.len() {
            match &v[k] {
                Some(s) => s.clone(),
                None => "function".to_owned(),
            }
        } else {
            "function".to_owned()
        },
        None => "function".to_owned(),
    };
    let name_pointer = concat3("/tool_calls/", index.as_str(), "/function/name");
    let name = match json_string_at_pointer(m, name_pointer.as_str()) {
        Some(s) => s,
        None => String::new(),
    };
    let arguments_pointer = concat3("/tool_calls/", index.as_str(), "/function/arguments");
    let arguments = match json_string_at_pointer(m, arguments_pointer.as_str()) {
        Some(s) => Some(s),
        None => match json_value_at_pointer(m, arguments_pointer.as_str()) {
            Some(t) => if str_eq(t.as_str(), "null") {
                None
            } else {
                Some(t)
            },
            None => None,
        },
    };
    tool_call_from_response(NonStreamToolCall { id, kind, function: NonStreamToolCallFunction { name, arguments } })
}

/// What a complete (non-streamed) response's body says: the text and tool calls of its first
/// choice's message. A body that is not JSON is refused as unparsable, one without a first
/// choice with a message as empty. The content reads as empty where it is missing or not a
/// string.
pub fn parse_non_stream_reply(body: &str) -> (r: Result<ApiMessage, String>)
    ensures
        match json_value_text_at(body@, ""@) {
            None => r matches Err(e) && e@ == "Failed to parse non-stream response: the body is not JSON"@,
            Some(_) => match json_value_text_at(body@, "/choices/0/message"@) {
                None => r matches Err(e) && e@ == "Empty response from API"@,
                Some(m) => r matches Ok(msg) && reply_message_matches(m, msg),
            },
        },
{
    if json_value_at_pointer(body, "").is_none() {
        return Err("Failed to parse non-stream response: the body is not JSON".to_owned());
    }
    let m = match json_value_at_pointer(body, "/choices/0/message") {
        None => return Err("Empty response from API".to_owned()),
        Some(m) => m,
    };
    let content = match json_string_at_pointer(m.as_str(), "/content") {
        Some(c) => c,
        None => String::new(),
    };
    let calls = reply_tool_calls(m.as_str());
    Ok(assistant_reply(content, calls))
}

/// Requests used and the limit, from Qwen's rate-limit headers (each parsed as `u32`):
/// the limit less the remaining requests, never below zero.
pub fn qwen_usage_from_headers(limit: Option<&str>, remaining: Option<&str>) -> (r: Option<(u32, u32)>)
    ensures
        match (opt_view(limit), opt_view(remaining)) {
            (Some(l), Some(rem)) => match (parse_unsigned(l, u32::MAX as int), parse_unsigned(rem, u32::MAX as int)) {
                (Some(lv), Some(rv)) => r == Some(((if lv > rv { lv - rv } else { 0 }) as u32, lv as u32)),
                _ => r is None,
            },
            _ => r is None,
        },
{
    let (l, rem) = match (limit, remaining) {
        (Some(l), Some(rem)) => (l, rem),
        _ => return None,
    };
    let lv = match parse_unsigned_chars(&chars_of(l), 0xffff_ffffu64) {
        Some(v) => v as u32,
        None => return None,
    };
    let rv = match parse_unsigned_chars(&chars_of(rem), 0xffff_ffffu64) {
        Some(v) => v as u32,
        None => return None,
    };
    Some((lv.saturating_sub(rv), lv))
}

} // verus!
