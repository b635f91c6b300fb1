//! The earlier prompt builder: language detection, whole-history code detection and its
//! compact prompt for local models.
use vstd::prelude::*;

use crate::models::{ApiMessage, ToolInfo};
use crate::profiles::{CustomPromptsSettings, LLMProvider};
use crate::prompts::{
    append_custom_prompt_settings, content_has_code, custom_section, message_has_code,
    push_tools_section, tools_section,
};
use crate::text::push_str;

verus! {

/// Instructions for the targeted-edit (search/replace) answer format.
pub const DIFF_FORMAT_INSTRUCTIONS: &'static str = "\nIMPORTANT: You are an expert 1C Developer.\nYour goal is to make **Targeted Edits** using strictly XML-based diff format.\n\n[RULES]\n1. OUTPUT_FORMAT: You MUST ONLY output your modifications using the following XML structure for EVERY change:\n<diff>\n  <search>\n[Exact content to be replaced, including indentation]\n  </search>\n  <replace>\n[New content to replace with]\n  </replace>\n</diff>\n\n2. SEARCH_BLOCK_RULES (CRITICAL):\n   - The `<search>` block must contain **COMPLETE LINES** of code. Do not start/end in the middle of a line.\n   - It must match the original file **EXACTLY** (character-for-character, space-for-space).\n   - It must include enough context (2-3 lines before/after) to be unique.\n   - To ADD code, search for the line before the insertion point and include it in both `<search>` and `<replace>`.\n\n3. STRICT_MODIFICATION_RULES:\n   - Modiffy ONLY the lines you are actively requested to change.\n   - PRESERVE the original logic, variable names, and comments of unmodified code.\n   - Do NOT fix typos in variable names unless explicitly requested.\n\n4. BLOCK_SPLITTING_RULES:\n   - Break large changes into a series of SMALLER `<diff>` blocks that each change a distinct small portion.\n   - DO NOT include long runs (e.g. 5+ lines) of unchanging lines in `<search>` blocks.\n\n5. RESPONSE_STRUCTURE:\n   - Respond ONLY with a brief text explanation and the `<diff>` blocks.\n   - NEVER start a diff block without `<diff><search>`.\n   - Ignore the format of previous answers in this chat. For the CURRENT task, you MUST wrap the result in the `<diff>` block.\n\n6. EOF_RULE_COMPLETING_CODE:\n   - If the code ends abruptly, you MUST complete it logically within the replace block.\n[/RULES]\n";

/// Language of the answers: always Russian (the system language), whatever the user wrote.
pub fn detect_target_lang(messages: &[ApiMessage]) -> (r: String)
    ensures
        r@ == "Russian"@,
{
    "Russian".to_owned()
}

/// Some message of the whole history holds BSL code.
pub open spec fn any_code_spec(messages: Seq<ApiMessage>) -> bool {
    exists|i: int| 0 <= i < messages.len() && message_has_code(#[trigger] messages[i])
}

/// Whether some message of the whole history holds BSL code.
pub fn has_code_context(messages: &[ApiMessage]) -> (b: bool)
    ensures
        b == any_code_spec(messages@),
{
    let mut i: usize = 0;
    while i < messages.len()
        invariant
            i <= messages@.len(),
            forall|j: int| 0 <= j < i ==> !message_has_code(#[trigger] messages@[j]),
        decreases messages.len() - i,
    {
        if let Some(c) = &messages[i].content {
            if content_has_code(c.as_str()) {
                assert(message_has_code(messages@[i as int]));
                return true;
            }
        }
        i = i + 1;
    }
    false
}

/// Local providers (Ollama, LM Studio) get the compact prompt.
pub fn is_local_provider(provider: Option<&LLMProvider>) -> (b: bool)
    ensures
        b == (provider == Some(&LLMProvider::Ollama) || provider == Some(&LLMProvider::LMStudio)),
{
    crate::prompts::is_local_provider(provider)
}

/// First line of the compact prompt.
pub const LEGACY_LIGHT_INTRO: &'static str = "Ты — AI-ассистент для разработки на платформе 1С:Предприятие.\nОтвечай ТОЛЬКО на ";

/// Rest of the compact prompt's fixed text.
pub const LEGACY_LIGHT_RULES: &'static str = " языке.\nВыполняй запросы пользователя точно и без лишних изменений.\nНе задавай уточняющих вопросов — выполняй задачу сразу.\n";

/// The compact system prompt of the earlier builder.
pub open spec fn legacy_lightweight_prompt_spec(
    tools: Seq<ToolInfo>,
    messages: Seq<ApiMessage>,
    custom: CustomPromptsSettings,
) -> Seq<char> {
    LEGACY_LIGHT_INTRO@ + "Russian"@ + LEGACY_LIGHT_RULES@ + (if any_code_spec(messages) {
        crate::prompts::LIGHT_DIFF_WITH_CODE@
    } else {
        crate::prompts::LIGHT_DIFF_NO_CODE@
    }) + tools_section(tools) + custom_section(custom)
}

/// Builds the compact prompt of the earlier builder for local models.
pub fn build_lightweight_system_prompt_with_custom_prompts(
    available_tools: &[ToolInfo],
    messages: &[ApiMessage],
    custom_prompts: &CustomPromptsSettings,
) -> (r: String)
    ensures
        r@ == legacy_lightweight_prompt_spec(available_tools@, messages@, *custom_prompts),
{
    let target_lang = detect_target_lang(messages);
    let has_code = has_code_context(messages);
    let mut prompt = LEGACY_LIGHT_INTRO.to_owned();
    push_str(&mut prompt, target_lang.as_str());
    push_str(&mut prompt, LEGACY_LIGHT_RULES);
    push_str(
        &mut prompt,
        if has_code {
            crate::prompts::LIGHT_DIFF_WITH_CODE
        } else {
            crate::prompts::LIGHT_DIFF_NO_CODE
        },
    );
    push_tools_section(&mut prompt, available_tools);
    append_custom_prompt_settings(&mut prompt, custom_prompts);
    prompt
}

} // verus!
