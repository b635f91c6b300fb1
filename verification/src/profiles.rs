//! LLM providers, profiles and the user's prompt customisation.
use vstd::prelude::*;

verus! {

/// The LLM back-ends a profile can talk to.
#[derive(Debug, Clone, Copy, PartialEq, Eq, Structural)]
pub enum LLMProvider {
    OpenAI,
    Anthropic,
    OpenRouter,
    Google,
    DeepSeek,
    Groq,
    Mistral,
    XAI,
    Perplexity,
    ZAI,
    MiniMax,
    OneCNaparnik,
    Ollama,
    OllamaCloud,
    LMStudio,
    QwenCli,
    CodexCli,
    Custom,
}

/// A configured LLM connection.
///
/// The sampling temperature is kept in thousandths (`700` stands for `0.7`).
#[derive(Debug, Clone)]
pub struct LLMProfile {
    pub id: String,
    pub name: String,
    pub provider: LLMProvider,
    pub model: String,
    pub api_key_encrypted: String,
    pub base_url: Option<String>,
    pub max_tokens: u32,
    pub temperature_milli: u32,
    pub context_window_override: Option<u32>,
    pub reasoning_effort: Option<String>,
    pub enable_thinking: Option<bool>,
    pub disable_streaming: Option<bool>,
    pub stream_timeout_secs: Option<u32>,
    pub context_compress_strategy: String,
    pub max_context_messages: Option<u32>,
    pub extra_headers: Option<Vec<(String, String)>>,
}

/// Identifier of the profile that `default_profile` creates.
pub open spec fn default_profile_id() -> Seq<char> {
    seq!['d', 'e', 'f', 'a', 'u', 'l', 't']
}

impl LLMProfile {
    /// The profile used when no other profile exists.
    pub fn default_profile() -> (p: LLMProfile)
        ensures
            p.id@ == default_profile_id(),
            p.api_key_encrypted@ == Seq::<char>::empty(),
            p.provider == LLMProvider::OpenAI,
    {
        let id = "default";
        proof {
            reveal_strlit("default");
        }
        LLMProfile {
            id: id.to_owned(),
            name: "Default".to_owned(),
            provider: LLMProvider::OpenAI,
            model: "gpt-4o".to_owned(),
            api_key_encrypted: String::new(),
            base_url: None,
            max_tokens: 4096,
            temperature_milli: 700,
            context_window_override: None,
            reasoning_effort: None,
            enable_thinking: None,
            disable_streaming: None,
            stream_timeout_secs: None,
            context_compress_strategy: String::new(),
            max_context_messages: None,
            extra_headers: None,
        }
    }
}

/// All profiles and the id of the active one.
#[derive(Debug, Clone)]
pub struct ProfileStore {
    pub profiles: Vec<LLMProfile>,
    pub active_profile_id: String,
}

/// A user prompt template.
#[derive(Debug, Clone)]
pub struct PromptTemplate {
    pub id: String,
    pub name: String,
    pub description: String,
    pub content: String,
    pub enabled: bool,
}

/// User overrides appended to system prompts.
#[derive(Debug, Clone)]
pub struct CustomPromptsSettings {
    pub system_prefix: String,
    pub on_code_change: String,
    pub on_code_generate: String,
    pub templates: Vec<PromptTemplate>,
}

impl CustomPromptsSettings {
    /// No overrides and no templates.
    pub fn empty() -> (c: CustomPromptsSettings)
        ensures
            c.system_prefix@.len() == 0,
            c.on_code_change@.len() == 0,
            c.on_code_generate@.len() == 0,
            c.templates@.len() == 0,
    {
        CustomPromptsSettings {
            system_prefix: String::new(),
            on_code_change: String::new(),
            on_code_generate: String::new(),
            templates: Vec::new(),
        }
    }
}

/// Behaviour preset that selects the assistant's role.
#[derive(Debug, Clone, Copy, PartialEq, Eq, Structural)]
pub enum PromptBehaviorPreset {
    Project,
    Maintenance,
    Cli,
    Planning,
}

} // verus!
