//! One-shot, non-streaming model calls: the summary that compacts a conversation, and the
//! quick actions of the overlay. What is sent where, with which headers, and what is kept of
//! the reply.
use vstd::prelude::*;

use crate::client::provider_label;
use crate::ext::{json_string_at, json_string_at_pointer};
use crate::models::ApiMessage;
use crate::profiles::LLMProvider;
use crate::request::{header_views, push_header};
use crate::stream::{codex_stream_error, text_or_empty, CodexEvent};
use crate::text::{
    chars_of, concat2, concat3, ends_with_chars, has_suffix, is_blank, push_str, slice_chars,
    str_eq, string_of, trim, trim_str,
};
use crate::zen::{strip_trailing_slashes, strip_trailing_slashes_chars};
use crate::client::provider_name;

verus! {

// ───────────────────────────── summary ─────────────────────────────

/// The part of the summarised dialogue that one message contributes: `[role]: content`
/// and a blank line, or nothing for a message without text.
pub open spec fn conversation_entry(m: ApiMessage) -> Seq<char> {
    match m.content {
        Some(c) => if c@.len() == 0 {
            Seq::empty()
        } else {
            "["@ + m.role@ + "]: "@ + c@ + "\n\n"@
        },
        None => Seq::empty(),
    }
}

/// The dialogue as one text, message after message.
pub open spec fn conversation_text(ms: Seq<ApiMessage>) -> Seq<char>
    decreases ms.len(),
{
    if ms.len() == 0 {
        Seq::empty()
    } else {
        conversation_text(ms.drop_last()) + conversation_entry(ms.last())
    }
}

/// Writes the dialogue out as the text the summary is asked for.
pub fn summary_conversation_text(history: &[ApiMessage]) -> (r: String)
    ensures
        r@ == conversation_text(history@),
{
    let mut out = String::new();
    let mut i: usize = 0;
    assert(history@.subrange(0, 0) =~= Seq::<ApiMessage>::empty());
    while i < history.len()
        invariant
            i <= history@.len(),
            out@ == conversation_text(history@.subrange(0, i as int)),
        decreases history.len() - i,
    {
        let m = &history[i];
        assert(history@.subrange(0, i + 1).drop_last() =~= history@.subrange(0, i as int));
        assert(history@.subrange(0, i + 1).last() == history@[i as int]);
        match &m.content {
            Some(c) => {
                if !c.as_str().is_empty() {
                    push_str(&mut out, "[");
                    push_str(&mut out, m.role.as_str());
                    push_str(&mut out, "]: ");
                    push_str(&mut out, c.as_str());
                    push_str(&mut out, "\n\n");
                    assert(out@ =~= conversation_text(history@.subrange(0, i as int))
                        + conversation_entry(history@[i as int]));
                } else {
                    assert(conversation_entry(history@[i as int]) =~= Seq::<char>::empty());
                    assert(out@ =~= conversation_text(history@.subrange(0, i as int))
                        + conversation_entry(history@[i as int]));
                }
            },
            None => {
                assert(out@ =~= conversation_text(history@.subrange(0, i as int))
                    + conversation_entry(history@[i as int]));
            },
        }
        i = i + 1;
    }
    assert(history@.subrange(0, history@.len() as int) =~= history@);
    out
}

/// The instruction the model gets for a summary.
pub open spec fn summary_instruction() -> Seq<char> {
    "Ты — ассистент для сжатия контекста диалога. Твоя задача — создать краткий и точный конспект переданного диалога. Конспект должен сохранить всю важную техническую информацию: задачи пользователя, принятые решения, написанный код, обнаруженные ошибки и их исправления, текущий статус задач. Отвечай на русском языке. Начни с фразы: «📋 Конспект предыдущего диалога:»"@
}

/// The request for a summary of a dialogue: the instruction as the system message, then
/// the dialogue as one user message.
pub fn summary_messages(history: &[ApiMessage]) -> (r: Vec<ApiMessage>)
    ensures
        r@.len() == 2,
        r@[0].role@ == "system"@,
        r@[0].content matches Some(t) && t@ == summary_instruction(),
        r@[1].role@ == "user"@,
        r@[1].content matches Some(t) && t@ == "Сожми следующий диалог в краткий конспект:\n\n"@
            + conversation_text(history@),
        forall|k: int|
            0 <= k < 2 ==> (#[trigger] r@[k]).tool_calls is None && r@[k].tool_call_id is None
                && r@[k].name is None,
{
    let conversation = summary_conversation_text(history);
    let system = ApiMessage {
        role: "system".to_owned(),
        content: Some(
            "Ты — ассистент для сжатия контекста диалога. Твоя задача — создать краткий и точный конспект переданного диалога. Конспект должен сохранить всю важную техническую информацию: задачи пользователя, принятые решения, написанный код, обнаруженные ошибки и их исправления, текущий статус задач. Отвечай на русском языке. Начни с фразы: «📋 Конспект предыдущего диалога:»".to_owned(),
        ),
        tool_calls: None,
        tool_call_id: None,
        name: None,
    };
    let user = ApiMessage {
        role: "user".to_owned(),
        content: Some(concat2("Сожми следующий диалог в краткий конспект:\n\n", conversation.as_str())),
        tool_calls: None,
        tool_call_id: None,
        name: None,
    };
    let mut r: Vec<ApiMessage> = Vec::new();
    r.push(system);
    r.push(user);
    r
}

/// Providers that cannot summarise: the two command-line providers and 1C:Naparnik.
pub open spec fn summary_unsupported(p: LLMProvider) -> bool {
    p == LLMProvider::CodexCli || p == LLMProvider::QwenCli || p == LLMProvider::OneCNaparnik
}

/// The answer to a summary request for such a provider.
pub open spec fn summary_refusal(p: LLMProvider) -> Seq<char> {
    "Суммаризация не поддерживается для провайдера "@ + provider_label(p)
        + ". Используйте стратегию 'sliding_window'."@
}

/// Ollama's own chat endpoint: the base URL without trailing slashes and without a final
/// `/v1`, then `/api/chat`.
pub open spec fn native_summary_url(base_url: Seq<char>) -> Seq<char> {
    let t = strip_trailing_slashes(base_url);
    (if has_suffix(t, "/v1"@) {
        t.subrange(0, t.len() - 3)
    } else {
        t
    }) + "/api/chat"@
}

/// The OpenAI-style endpoint of a summary: `/v1` is put in front for Ollama and LM Studio
/// when the base URL lacks it.
pub open spec fn summary_chat_url(p: LLMProvider, base_url: Seq<char>) -> Seq<char> {
    let t = strip_trailing_slashes(base_url);
    if (p == LLMProvider::Ollama || p == LLMProvider::LMStudio) && !has_suffix(t, "/v1"@) {
        t + "/v1/chat/completions"@
    } else {
        t + "/chat/completions"@
    }
}

/// Headers of a summary request: Ollama's endpoint gets the content type and, for a key that
/// is not blank, the bearer token; the OpenAI-style endpoint always gets the bearer token.
pub open spec fn summary_headers(native: bool, api_key: Seq<char>) -> Seq<(Seq<char>, Seq<char>)> {
    if native {
        seq![("Content-Type"@, "application/json"@)] + (if trim(api_key).len() > 0 {
            seq![("Authorization"@, "Bearer "@ + api_key)]
        } else {
            Seq::empty()
        })
    } else {
        seq![("Authorization"@, "Bearer "@ + api_key), ("Content-Type"@, "application/json"@)]
    }
}

/// Where and how a summary is asked for.
pub struct SummaryRequest {
    pub url: String,
    /// Ollama's own endpoint (`message.content` in the reply) rather than an OpenAI-style one.
    pub native: bool,
    pub headers: Vec<(String, String)>,
}

/// Plans the summary request of a profile, or refuses the providers that cannot summarise.
pub fn summary_request(provider: LLMProvider, base_url: &str, api_key: &str) -> (r: Result<
    SummaryRequest,
    String,
>)
    ensures
        summary_unsupported(provider) <==> r is Err,
        match r {
            Err(e) => e@ == summary_refusal(provider),
            Ok(q) => {
                &&& q.native == (provider == LLMProvider::Ollama)
                &&& q.url@ == (if q.native {
                    native_summary_url(base_url@)
                } else {
                    summary_chat_url(provider, base_url@)
                })
                &&& header_views(q.headers@) == summary_headers(q.native, api_key@)
            },
        },
{
    match provider {
        LLMProvider::CodexCli | LLMProvider::QwenCli | LLMProvider::OneCNaparnik => {
            return Err(
                concat3(
                    "Суммаризация не поддерживается для провайдера ",
                    provider_name(&provider),
                    ". Используйте стратегию 'sliding_window'.",
                ),
            );
        },
        _ => {},
    }
    let v = chars_of(base_url);
    let t = strip_trailing_slashes_chars(&v);
    let v1 = chars_of("/v1");
    proof {
        reveal_strlit("/v1");
    }
    let has_v1 = ends_with_chars(&t, &v1);
    let mut headers: Vec<(String, String)> = Vec::new();
    match provider {
        LLMProvider::Ollama => {
            let root = if has_v1 {
                slice_chars(&t, 0, t.len() - 3)
            } else {
                t
            };
            let url = concat2(string_of(&root).as_str(), "/api/chat");
            push_header(&mut headers, "Content-Type", "application/json");
            if !is_blank(api_key) {
                let bearer = concat2("Bearer ", api_key);
                push_header(&mut headers, "Authorization", bearer.as_str());
            }
            assert(header_views(headers@) =~= summary_headers(true, api_key@));
            Ok(SummaryRequest { url, native: true, headers })
        },
        _ => {
            let trimmed = string_of(&t);
            let url = match provider {
                LLMProvider::LMStudio => if !has_v1 {
                    concat2(trimmed.as_str(), "/v1/chat/completions")
                } else {
                    concat2(trimmed.as_str(), "/chat/completions")
                },
                _ => concat2(trimmed.as_str(), "/chat/completions"),
            };
            let bearer = concat2("Bearer ", api_key);
            push_header(&mut headers, "Authorization", bearer.as_str());
            push_header(&mut headers, "Content-Type", "application/json");
            assert(header_views(headers@) =~= summary_headers(false, api_key@));
            Ok(SummaryRequest { url, native: false, headers })
        },
    }
}

/// Where the text of a summary stands in the reply.
pub open spec fn summary_pointer(native: bool) -> Seq<char> {
    if native {
        "/message/content"@
    } else {
        "/choices/0/message/content"@
    }
}

/// The answer when the reply holds no summary. The text for Ollama's endpoint is kept as
/// the application has always shown it.
pub open spec fn empty_summary_message(native: bool) -> Seq<char> {
    if native {
        "РџСѓСЃС‚РѕР№ РѕС‚ LLM"@
    } else {
        "Пустой ответ от LLM"@
    }
}

/// What a summary request gives: the summary's text trimmed, when it is a string that is not
/// blank.
pub open spec fn summary_outcome(native: bool, found: Option<Seq<char>>) -> Result<Seq<char>, Seq<char>> {
    match found {
        Some(s) => if trim(s).len() > 0 {
            Ok(trim(s))
        } else {
            Err(empty_summary_message(native))
        },
        None => Err(empty_summary_message(native)),
    }
}

/// Takes the summary out of a reply body.
pub fn summary_from_reply(native: bool, body: &str) -> (r: Result<String, String>)
    ensures
        match (r, summary_outcome(native, json_string_at(body@, summary_pointer(native)))) {
            (Ok(s), Ok(t)) => s@ == t,
            (Err(e), Err(t)) => e@ == t,
            _ => false,
        },
{
    let pointer = if native {
        "/message/content"
    } else {
        "/choices/0/message/content"
    };
    let empty = if native {
        "РџСѓСЃС‚РѕР№ РѕС‚ LLM"
    } else {
        "Пустой ответ от LLM"
    };
    match json_string_at_pointer(body, pointer) {
        Some(s) => {
            let t = trim_str(s.as_str());
            if t.as_str().is_empty() {
                Err(empty.to_owned())
            } else {
                Ok(t)
            }
        },
        None => Err(empty.to_owned()),
    }
}

// ───────────────────────────── quick actions ─────────────────────────────

/// How a quick action is served for a provider.
#[derive(Debug)]
pub enum QuickRoute {
    /// The provider cannot serve quick actions; the text says why.
    Refused(String),
    /// The Codex command-line provider has its own one-shot call.
    Codex,
    /// An HTTP request to the provider's API.
    Http,
}

/// 1C:Naparnik is refused, Codex is handed to its own call, everything else goes over HTTP.
pub fn quick_route(provider: LLMProvider) -> (r: QuickRoute)
    ensures
        provider == LLMProvider::OneCNaparnik <==> r is Refused,
        provider == LLMProvider::CodexCli <==> r is Codex,
        r matches QuickRoute::Refused(t) ==> t@ == "1С:Напарник не поддерживается для быстрых действий"@,
{
    match provider {
        LLMProvider::OneCNaparnik => QuickRoute::Refused(
            "1С:Напарник не поддерживается для быстрых действий".to_owned(),
        ),
        LLMProvider::CodexCli => QuickRoute::Codex,
        _ => QuickRoute::Http,
    }
}

/// A Qwen token is renewed before a quick action when it has an expiry that is less than
/// five minutes away.
pub open spec fn quick_token_expiring(now_secs: u64, expires_at: u64) -> bool {
    expires_at > 0 && now_secs + 300 >= expires_at
}

/// The answer when a Qwen token has run out and cannot be renewed.
pub open spec fn token_expired_message() -> Seq<char> {
    "Qwen CLI: Токен истек, требуется повторная авторизация"@
}

/// What to do with the stored Qwen token before a quick action: `Ok(false)` uses it as it is,
/// `Ok(true)` renews it with the refresh token first; without a refresh token an expiring
/// token ends the action.
pub fn quick_qwen_token_step(now_secs: u64, expires_at: u64, has_refresh_token: bool) -> (r: Result<
    bool,
    String,
>)
    ensures
        !quick_token_expiring(now_secs, expires_at) ==> r == Ok::<bool, String>(false),
        quick_token_expiring(now_secs, expires_at) && has_refresh_token ==> r == Ok::<bool, String>(true),
        quick_token_expiring(now_secs, expires_at) && !has_refresh_token ==> (r matches Err(e) && e@
            == token_expired_message()),
{
    let expiring = expires_at > 0 && (now_secs >= expires_at || expires_at - now_secs <= 300);
    if !expiring {
        Ok(false)
    } else if has_refresh_token {
        Ok(true)
    } else {
        Err("Qwen CLI: Токен истек, требуется повторная авторизация".to_owned())
    }
}

/// Base URL of Qwen's portal, used by Qwen CLI profiles.
pub open spec fn qwen_portal_base() -> Seq<char> {
    "https://portal.qwen.ai/v1"@
}

/// Base URL of a quick action: Qwen's portal for Qwen CLI, else the profile's base URL;
/// trailing slashes are dropped and `/v1` is added for Ollama and LM Studio when missing.
pub open spec fn quick_base(p: LLMProvider, profile_base_url: Seq<char>) -> Seq<char> {
    let raw = if p == LLMProvider::QwenCli {
        qwen_portal_base()
    } else {
        profile_base_url
    };
    let t = strip_trailing_slashes(raw);
    if (p == LLMProvider::Ollama || p == LLMProvider::LMStudio) && !has_suffix(t, "/v1"@) {
        t + "/v1"@
    } else {
        t
    }
}

/// Headers of a quick action: Anthropic's key, version and content type; elsewhere the
/// content type, the bearer token when there is a key, and for Qwen CLI the client identity
/// that Qwen's portal expects.
pub open spec fn quick_headers(p: LLMProvider, api_key: Seq<char>) -> Seq<(Seq<char>, Seq<char>)> {
    if p == LLMProvider::Anthropic {
        seq![
            ("x-api-key"@, api_key),
            ("anthropic-version"@, "2023-06-01"@),
            ("content-type"@, "application/json"@),
        ]
    } else {
        seq![("content-type"@, "application/json"@)] + (if api_key.len() > 0 {
            seq![("authorization"@, "Bearer "@ + api_key)]
        } else {
            Seq::empty()
        }) + (if p == LLMProvider::QwenCli {
            seq![
                ("User-Agent"@, "QwenCode/0.10.3 (darwin; arm64)"@),
                ("X-Dashscope-Useragent"@, "QwenCode/0.10.3 (darwin; arm64)"@),
                ("X-Dashscope-Authtype"@, "qwen-oauth"@),
            ]
        } else {
            Seq::empty()
        })
    }
}

/// The request of a quick action.
pub struct QuickRequest {
    pub url: String,
    pub headers: Vec<(String, String)>,
    /// Output-token limit: the profile's, at most 4096.
    pub max_tokens: u32,
    /// Anthropic's Messages API (`content[0].text` in the reply) rather than an OpenAI-style one.
    pub anthropic: bool,
}

/// Plans the HTTP request of a quick action.
pub fn quick_request(provider: LLMProvider, profile_base_url: &str, api_key: &str, max_tokens: u32) -> (r:
    QuickRequest)
    ensures
        r.anthropic == (provider == LLMProvider::Anthropic),
        r.url@ == quick_base(provider, profile_base_url@) + (if r.anthropic {
            "/messages"@
        } else {
            "/chat/completions"@
        }),
        header_views(r.headers@) == quick_headers(provider, api_key@),
        r.max_tokens == (if max_tokens < 4096 { max_tokens } else { 4096 }),
{
    let raw = match provider {
        LLMProvider::QwenCli => "https://portal.qwen.ai/v1",
        _ => profile_base_url,
    };
    let v = chars_of(raw);
    let t = strip_trailing_slashes_chars(&v);
    let v1 = chars_of("/v1");
    proof {
        reveal_strlit("/v1");
    }
    let has_v1 = ends_with_chars(&t, &v1);
    let trimmed = string_of(&t);
    let base = match provider {
        LLMProvider::Ollama | LLMProvider::LMStudio => if !has_v1 {
            concat2(trimmed.as_str(), "/v1")
        } else {
            trimmed
        },
        _ => trimmed,
    };
    let capped = if max_tokens < 4096 {
        max_tokens
    } else {
        4096
    };
    let mut headers: Vec<(String, String)> = Vec::new();
    match provider {
        LLMProvider::Anthropic => {
            push_header(&mut headers, "x-api-key", api_key);
            push_header(&mut headers, "anthropic-version", "2023-06-01");
            push_header(&mut headers, "content-type", "application/json");
            assert(header_views(headers@) =~= quick_headers(provider, api_key@));
            let url = concat2(base.as_str(), "/messages");
            QuickRequest { url, headers, max_tokens: capped, anthropic: true }
        },
        _ => {
            push_header(&mut headers, "content-type", "application/json");
            let ghost h1 = header_views(headers@);
            if !api_key.is_empty() {
                let bearer = concat2("Bearer ", api_key);
                push_header(&mut headers, "authorization", bearer.as_str());
            }
            let ghost h2 = header_views(headers@);
            assert(h2 =~= h1 + (if api_key@.len() > 0 {
                seq![("authorization"@, "Bearer "@ + api_key@)]
            } else {
                Seq::empty()
            }));
            match provider {
                LLMProvider::QwenCli => {
                    push_header(&mut headers, "User-Agent", "QwenCode/0.10.3 (darwin; arm64)");
                    push_header(&mut headers, "X-Dashscope-Useragent", "QwenCode/0.10.3 (darwin; arm64)");
                    push_header(&mut headers, "X-Dashscope-Authtype", "qwen-oauth");
                },
                _ => {},
            }
            assert(header_views(headers@) =~= quick_headers(provider, api_key@));
            let url = concat2(base.as_str(), "/chat/completions");
            QuickRequest { url, headers, max_tokens: capped, anthropic: false }
        },
    }
}

/// Where the answer stands in the reply of a quick action.
pub open spec fn quick_pointer(anthropic: bool) -> Seq<char> {
    if anthropic {
        "/content/0/text"@
    } else {
        "/choices/0/message/content"@
    }
}

/// The answer of a quick action: the string at the answer's place in the reply, or the empty
/// text when there is none.
pub fn quick_reply_text(anthropic: bool, body: &str) -> (r: String)
    ensures
        r@ == (match json_string_at(body@, quick_pointer(anthropic)) {
            Some(s) => s,
            None => Seq::empty(),
        }),
{
    let pointer = if anthropic {
        "/content/0/text"
    } else {
        "/choices/0/message/content"
    };
    match json_string_at_pointer(body, pointer) {
        Some(s) => s,
        None => String::new(),
    }
}

/// The error of a quick action whose request the API refused; `status` is the HTTP status
/// as shown, `text` the body of the reply.
pub fn quick_api_error(anthropic: bool, status: &str, text: &str) -> (r: String)
    ensures
        r@ == (if anthropic {
            "Anthropic API error "@
        } else {
            "LLM API error "@
        }) + status@ + ": "@ + text@,
{
    let mut r = if anthropic {
        "Anthropic API error ".to_owned()
    } else {
        "LLM API error ".to_owned()
    };
    push_str(&mut r, status);
    push_str(&mut r, ": ");
    push_str(&mut r, text);
    r
}

/// What a Codex quick action does after one stream event.
#[derive(Debug)]
pub enum QuickCodexStep {
    /// Read on.
    Continue,
    /// The response is complete.
    Done,
    /// The stream reported an error; the action ends with this text.
    Failed(String),
}

/// One event of a Codex quick action: answer text is appended, `response.completed` ends the
/// stream, an `error` event ends the action with its message, everything else is passed over.
/// `data` is the event's payload.
pub fn quick_codex_step(full: &mut String, e: &CodexEvent, data: &str) -> (r: QuickCodexStep)
    ensures
        e.kind@ == "response.output_text.delta"@ ==> r is Continue && final(full)@ == old(full)@
            + text_or_empty(e.delta),
        e.kind@ == "response.completed"@ ==> r is Done && final(full)@ == old(full)@,
        e.kind@ == "error"@ ==> final(full)@ == old(full)@ && (r matches QuickCodexStep::Failed(m)
            && m@ == (match json_string_at(data@, "/message"@) {
            Some(m) => m,
            None => "Codex stream error: "@ + data@,
        })),
        e.kind@ != "response.output_text.delta"@ && e.kind@ != "response.completed"@ && e.kind@
            != "error"@ ==> r is Continue && final(full)@ == old(full)@,
{
    proof {
        reveal_strlit("response.output_text.delta");
        reveal_strlit("response.completed");
        reveal_strlit("error");
        assert("response.completed"@.len() != "response.output_text.delta"@.len());
        assert("error"@.len() != "response.output_text.delta"@.len());
        assert("error"@.len() != "response.completed"@.len());
    }
    if str_eq(e.kind.as_str(), "response.output_text.delta") {
        match &e.delta {
            Some(d) => push_str(full, d.as_str()),
            None => {
                assert(old(full)@ + text_or_empty(e.delta) =~= old(full)@);
            },
        }
        QuickCodexStep::Continue
    } else if str_eq(e.kind.as_str(), "response.completed") {
        QuickCodexStep::Done
    } else if str_eq(e.kind.as_str(), "error") {
        QuickCodexStep::Failed(codex_stream_error(data))
    } else {
        QuickCodexStep::Continue
    }
}

} // verus!
