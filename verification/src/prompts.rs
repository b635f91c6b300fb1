//! System-prompt assembly: code-context and search-intent detection, the compact prompt for
//! local models, tool-usage rules and the user's prompt overrides.
use vstd::prelude::*;

use crate::ext::{to_lowercase, unicode_lowercase};
use crate::models::{ApiMessage, ToolInfo};
use crate::profiles::{CustomPromptsSettings, LLMProvider, PromptBehaviorPreset, PromptTemplate};
use crate::text::{
    chars_of, contains_chars, first_line, first_line_str, is_blank, push_str, replace_all,
    occurs_at, replace_chars, seq_contains, str_contains, str_eq, string_of, trim,
};

verus! {

/// Number of most recent messages inspected for code and search intent.
pub const CODE_CONTEXT_LOOKBACK: usize = 4;

// ───────────────────────────── code context ─────────────────────────────

/// Number of BSL keywords found in `c`.
pub open spec fn bsl_marker_count(c: Seq<char>) -> int {
    (if seq_contains(c, "КонецФункции"@) {
        1int
    } else {
        0int
    }) + (if seq_contains(c, "КонецПроцедуры"@) {
        1int
    } else {
        0int
    }) + (if seq_contains(c, "КонецЕсли"@) {
        1int
    } else {
        0int
    }) + (if seq_contains(c, "Функция "@) {
        1int
    } else {
        0int
    }) + (if seq_contains(c, "Процедура "@) {
        1int
    } else {
        0int
    })
}

/// `c` holds BSL code: a fenced BSL block or at least two BSL keywords.
pub open spec fn has_code_markers(c: Seq<char>) -> bool {
    seq_contains(c, "```bsl"@) || seq_contains(c, "```1c"@) || bsl_marker_count(c) >= 2
}

/// The message has content that holds BSL code.
pub open spec fn message_has_code(m: ApiMessage) -> bool {
    m.content is Some && has_code_markers(m.content->0@)
}

/// One of the last `CODE_CONTEXT_LOOKBACK` messages holds BSL code.
pub open spec fn code_context_spec(messages: Seq<ApiMessage>) -> bool {
    exists|i: int|
        0 <= i < messages.len() && messages.len() - CODE_CONTEXT_LOOKBACK <= i && message_has_code(
            #[trigger] messages[i],
        )
}

/// The BSL keywords whose presence marks a text as code.
pub open spec fn bsl_keywords() -> Seq<Seq<char>> {
    seq!["КонецФункции"@, "КонецПроцедуры"@, "КонецЕсли"@, "Функция "@, "Процедура "@]
}

/// A text holding two different BSL keywords holds code.
pub proof fn two_keywords_mean_code(c: Seq<char>, i: int, j: int)
    requires
        0 <= i < 5,
        0 <= j < 5,
        i != j,
        seq_contains(c, bsl_keywords()[i]),
        seq_contains(c, bsl_keywords()[j]),
    ensures
        has_code_markers(c),
{
    let k = bsl_keywords();
    assert(k[0] == "КонецФункции"@);
    assert(k[1] == "КонецПроцедуры"@);
    assert(k[2] == "КонецЕсли"@);
    assert(k[3] == "Функция "@);
    assert(k[4] == "Процедура "@);
}

/// A text with a fenced BSL or 1C block holds code.
pub proof fn fenced_block_means_code(c: Seq<char>)
    requires
        seq_contains(c, "```bsl"@) || seq_contains(c, "```1c"@),
    ensures
        has_code_markers(c),
{
}

/// A text without such a fence and with at most one BSL keyword holds no code.
pub proof fn one_keyword_is_not_code(c: Seq<char>, i: int)
    requires
        !seq_contains(c, "```bsl"@),
        !seq_contains(c, "```1c"@),
        0 <= i < 5,
        forall|j: int| 0 <= j < 5 && j != i ==> !seq_contains(c, #[trigger] bsl_keywords()[j]),
    ensures
        !has_code_markers(c),
{
    let k = bsl_keywords();
    assert(!seq_contains(c, k[(i + 1) % 5]));
    assert(!seq_contains(c, k[(i + 2) % 5]));
    assert(!seq_contains(c, k[(i + 3) % 5]));
    assert(!seq_contains(c, k[(i + 4) % 5]));
    assert(k[0] == "КонецФункции"@);
    assert(k[1] == "КонецПроцедуры"@);
    assert(k[2] == "КонецЕсли"@);
    assert(k[3] == "Функция "@);
    assert(k[4] == "Процедура "@);
}

/// Whether a text holds BSL code.
pub fn content_has_code(c: &str) -> (b: bool)
    ensures
        b == has_code_markers(c@),
{
    if str_contains(c, "```bsl") || str_contains(c, "```1c") {
        return true;
    }
    let mut count: u32 = 0;
    if str_contains(c, "КонецФункции") {
        count = count + 1;
    }
    if str_contains(c, "КонецПроцедуры") {
        count = count + 1;
    }
    if str_contains(c, "КонецЕсли") {
        count = count + 1;
    }
    if str_contains(c, "Функция ") {
        count = count + 1;
    }
    if str_contains(c, "Процедура ") {
        count = count + 1;
    }
    count >= 2
}

/// Whether one of the last `CODE_CONTEXT_LOOKBACK` messages holds BSL code.
pub fn has_code_context(messages: &[ApiMessage]) -> (b: bool)
    ensures
        b == code_context_spec(messages@),
{
    let n = messages.len();
    let lo: usize = if n > CODE_CONTEXT_LOOKBACK {
        n - CODE_CONTEXT_LOOKBACK
    } else {
        0
    };
    let mut i = lo;
    while i < n
        invariant
            n == messages.len(),
            lo <= i <= n,
            lo == (if n > CODE_CONTEXT_LOOKBACK {
                n - CODE_CONTEXT_LOOKBACK
            } else {
                0
            }),
            forall|j: int| lo <= j < i ==> !message_has_code(#[trigger] messages@[j]),
        decreases n - i,
    {
        if let Some(c) = &messages[i].content {
            if content_has_code(c.as_str()) {
                assert(message_has_code(messages@[i as int]));
                return true;
            }
        }
        i = i + 1;
    }
    false
}

/// Local providers (Ollama, LM Studio) get the compact prompt.
pub fn is_local_provider(provider: Option<&LLMProvider>) -> (b: bool)
    ensures
        b == (provider == Some(&LLMProvider::Ollama) || provider == Some(&LLMProvider::LMStudio)),
{
    match provider {
        Some(LLMProvider::Ollama) | Some(LLMProvider::LMStudio) => true,
        _ => false,
    }
}

// ───────────────────────────── search intent ─────────────────────────────

/// Phrases that show the user wants to search the configuration.
pub open spec fn search_markers() -> Seq<Seq<char>> {
    seq![
        "найди"@,
        "найти"@,
        "найдите"@,
        "поиск"@,
        "поищи"@,
        "где используется"@,
        "где используется?"@,
        "impact"@,
        "влияние изменений"@,
        "кто вызывает"@,
        "что делает"@,
        "как работает"@,
        "какая функция"@,
        "есть ли функция"@,
        "есть ли метод"@,
        "структура объекта"@,
        "найди функцию"@,
        "semantic_find"@,
        "find_references"@,
    ]
}

/// The search-intent phrases as executable strings.
pub fn search_intent_markers() -> (v: Vec<&'static str>)
    ensures
        v@.len() == search_markers().len(),
        forall|k: int| 0 <= k < v@.len() ==> (#[trigger] v@[k])@ == search_markers()[k],
{
    let v: Vec<&'static str> = vec![
        "найди",
        "найти",
        "найдите",
        "поиск",
        "поищи",
        "где используется",
        "где используется?",
        "impact",
        "влияние изменений",
        "кто вызывает",
        "что делает",
        "как работает",
        "какая функция",
        "есть ли функция",
        "есть ли метод",
        "структура объекта",
        "найди функцию",
        "semantic_find",
        "find_references",
    ];
    assert(v@.len() == search_markers().len());
    v
}

/// A lower-cased text contains one of the search-intent phrases.
pub open spec fn has_search_marker(lower: Seq<char>) -> bool {
    exists|k: int| 0 <= k < search_markers().len() && seq_contains(lower, search_markers()[k])
}

/// The message's lower-cased content contains a search-intent phrase.
pub open spec fn message_has_search_intent(m: ApiMessage) -> bool {
    m.content is Some && has_search_marker(unicode_lowercase(m.content->0@))
}

/// One of the last `CODE_CONTEXT_LOOKBACK` messages shows search intent.
pub open spec fn search_intent_spec(messages: Seq<ApiMessage>) -> bool {
    exists|i: int|
        0 <= i < messages.len() && messages.len() - CODE_CONTEXT_LOOKBACK <= i
            && message_has_search_intent(#[trigger] messages[i])
}

/// Whether a lower-cased text contains a search-intent phrase.
pub fn lowered_has_search_marker(lower: &str) -> (b: bool)
    ensures
        b == has_search_marker(lower@),
{
    let markers = search_intent_markers();
    let mut k: usize = 0;
    while k < markers.len()
        invariant
            k <= markers@.len(),
            markers@.len() == search_markers().len(),
            forall|j: int| 0 <= j < markers@.len() ==> (#[trigger] markers@[j])@ == search_markers()[j],
            forall|j: int| 0 <= j < k ==> !seq_contains(lower@, search_markers()[j]),
        decreases markers.len() - k,
    {
        if str_contains(lower, markers[k]) {
            return true;
        }
        k = k + 1;
    }
    false
}

/// Whether one of the last `CODE_CONTEXT_LOOKBACK` messages shows search intent.
pub fn has_search_intent(messages: &[ApiMessage]) -> (b: bool)
    ensures
        b == search_intent_spec(messages@),
{
    let n = messages.len();
    let lo: usize = if n > CODE_CONTEXT_LOOKBACK {
        n - CODE_CONTEXT_LOOKBACK
    } else {
        0
    };
    let mut i = lo;
    while i < n
        invariant
            n == messages.len(),
            lo <= i <= n,
            lo == (if n > CODE_CONTEXT_LOOKBACK {
                n - CODE_CONTEXT_LOOKBACK
            } else {
                0
            }),
            forall|j: int| lo <= j < i ==> !message_has_search_intent(#[trigger] messages@[j]),
        decreases n - i,
    {
        if let Some(c) = &messages[i].content {
            let lower = to_lowercase(c.as_str());
            if lowered_has_search_marker(lower.as_str()) {
                assert(message_has_search_intent(messages@[i as int]));
                return true;
            }
        }
        i = i + 1;
    }
    false
}

// ───────────────────────────── user overrides ─────────────────────────────

/// Lines listing the enabled templates, in order.
pub open spec fn enabled_template_lines(ts: Seq<PromptTemplate>) -> Seq<char>
    decreases ts.len(),
{
    if ts.len() == 0 {
        Seq::empty()
    } else {
        enabled_template_lines(ts.drop_last()) + if ts.last().enabled {
            "- "@ + ts.last().name@ + "\n"@ + ts.last().content@ + "\n"@
        } else {
            Seq::empty()
        }
    }
}

/// Some template is enabled.
pub open spec fn any_enabled(ts: Seq<PromptTemplate>) -> bool {
    exists|i: int| 0 <= i < ts.len() && ts[i].enabled
}

/// The text that the user's overrides append to a system prompt.
pub open spec fn custom_section(c: CustomPromptsSettings) -> Seq<char> {
    (if trim(c.system_prefix@).len() > 0 {
        "\n\n=== ПОЛЬЗОВАТЕЛЬСКИЕ ГЛОБАЛЬНЫЕ НАСТРОЙКИ (OVERRIDE) ===\n"@ + c.system_prefix@
    } else {
        Seq::empty()
    }) + (if trim(c.on_code_change@).len() > 0 {
        "\n\n=== ПОЛЬЗОВАТЕЛЬСКИЕ ИНСТРУКЦИИ ДЛЯ ИЗМЕНЕНИЯ КОДА ===\n"@ + c.on_code_change@
    } else {
        Seq::empty()
    }) + (if trim(c.on_code_generate@).len() > 0 {
        "\n\n=== ПОЛЬЗОВАТЕЛЬСКИЕ ИНСТРУКЦИИ ДЛЯ ГЕНЕРАЦИИ КОДА ===\n"@ + c.on_code_generate@
    } else {
        Seq::empty()
    }) + (if any_enabled(c.templates@) {
        "\n\n=== АКТИВНЫЕ ШАБЛОНЫ ===\n"@ + enabled_template_lines(c.templates@)
    } else {
        Seq::empty()
    })
}

/// Appends the user's prompt overrides to the end of a system prompt, so that they take
/// precedence over the built-in rules.
#[verifier::spinoff_prover]
#[verifier::rlimit(40)]
pub fn append_custom_prompt_settings(prompt: &mut String, custom: &CustomPromptsSettings)
    ensures
        final(prompt)@ == old(prompt)@ + custom_section(*custom),
{
    let ghost start = prompt@;
    if !is_blank(custom.system_prefix.as_str()) {
        push_str(prompt, "\n\n=== ПОЛЬЗОВАТЕЛЬСКИЕ ГЛОБАЛЬНЫЕ НАСТРОЙКИ (OVERRIDE) ===\n");
        push_str(prompt, custom.system_prefix.as_str());
    }
    let ghost p1 = prompt@;
    if !is_blank(custom.on_code_change.as_str()) {
        push_str(prompt, "\n\n=== ПОЛЬЗОВАТЕЛЬСКИЕ ИНСТРУКЦИИ ДЛЯ ИЗМЕНЕНИЯ КОДА ===\n");
        push_str(prompt, custom.on_code_change.as_str());
    }
    let ghost p2 = prompt@;
    if !is_blank(custom.on_code_generate.as_str()) {
        push_str(prompt, "\n\n=== ПОЛЬЗОВАТЕЛЬСКИЕ ИНСТРУКЦИИ ДЛЯ ГЕНЕРАЦИИ КОДА ===\n");
        push_str(prompt, custom.on_code_generate.as_str());
    }
    let ghost p3 = prompt@;
    let ts = &custom.templates;
    let mut any = false;
    let mut i: usize = 0;
    while i < ts.len()
        invariant
            i <= ts@.len(),
            any == exists|j: int| 0 <= j < i && ts@[j].enabled,
        decreases ts.len() - i,
    {
        if ts[i].enabled {
            any = true;
        }
        i = i + 1;
    }
    if any {
        push_str(prompt, "\n\n=== АКТИВНЫЕ ШАБЛОНЫ ===\n");
        let ghost p4 = prompt@;
        let mut k: usize = 0;
        while k < ts.len()
            invariant
                k <= ts@.len(),
                prompt@ == p4 + enabled_template_lines(ts@.subrange(0, k as int)),
            decreases ts.len() - k,
        {
            assert(ts@.subrange(0, k + 1).drop_last() =~= ts@.subrange(0, k as int));
            let ghost before = prompt@;
            if ts[k].enabled {
                push_str(prompt, "- ");
                push_str(prompt, ts[k].name.as_str());
                push_str(prompt, "\n");
                push_str(prompt, ts[k].content.as_str());
                push_str(prompt, "\n");
                assert(prompt@ =~= before + ("- "@ + ts@[k as int].name@ + "\n"@ + ts@[k as int].content@
                    + "\n"@));
            } else {
                assert(prompt@ =~= before + Seq::<char>::empty());
            }
            k = k + 1;
        }
        assert(ts@.subrange(0, ts.len() as int) =~= ts@);
    }
    assert(prompt@ =~= start + custom_section(*custom));
}

// ───────────────────────────── compact prompt ─────────────────────────────

/// Language line of the compact prompt.
pub const LIGHT_LANGUAGE: &'static str = "Отвечай ТОЛЬКО на русском языке.";

/// Question-handling line with code in context (Project and Maintenance presets).
pub const LIGHT_QUESTION_WITH_CODE: &'static str = "Выполняй запросы точно и без лишних изменений. Не задавай уточняющих вопросов — выполняй задачу сразу.";

/// Question-handling line otherwise.
pub const LIGHT_QUESTION: &'static str = "Выполняй запросы точно и без лишних изменений.";

/// Indentation and documentation line of the compact prompt.
pub const LIGHT_SKILLS: &'static str = "Отступы в коде BSL — табуляция (ASCII 0x09), не пробелы. Описания функций — только комментарии //.";

/// Edit-format section when code is in context.
pub const LIGHT_DIFF_WITH_CODE: &'static str = "\nПри изменении кода используй ТОЛЬКО xml-формат diff:\n<diff>\n  <search>[точный фрагмент оригинала]</search>\n  <replace>[новый вариант]</replace>\n</diff>\nПри создании кода с нуля — используй блок ```bsl.\nНе переписывай весь файл — изменяй только запрошенные строки.";

/// Edit-format section without code in context.
pub const LIGHT_DIFF_NO_CODE: &'static str = "\nПри создании нового кода используй блок ```bsl.";

/// One line per tool: its name and the first line of its description.
pub open spec fn tool_lines(tools: Seq<ToolInfo>) -> Seq<char>
    decreases tools.len(),
{
    if tools.len() == 0 {
        Seq::empty()
    } else {
        tool_lines(tools.drop_last()) + "- `"@ + tools.last().tool.function.name@ + "`: "@
            + first_line(tools.last().tool.function.description@) + "\n"@
    }
}

/// The tool list of the compact prompt (empty without tools).
pub open spec fn tools_section(tools: Seq<ToolInfo>) -> Seq<char> {
    if tools.len() > 0 {
        "\n\nДоступные инструменты:\n"@ + tool_lines(tools)
    } else {
        Seq::empty()
    }
}

/// Appends the tool list of the compact prompt.
pub fn push_tools_section(prompt: &mut String, tools: &[ToolInfo])
    ensures
        final(prompt)@ == old(prompt)@ + tools_section(tools@),
{
    let ghost start = prompt@;
    if tools.len() == 0 {
        assert(prompt@ =~= start + tools_section(tools@));
        return;
    }
    push_str(prompt, "\n\nДоступные инструменты:\n");
    let ghost head = prompt@;
    let mut i: usize = 0;
    while i < tools.len()
        invariant
            i <= tools@.len(),
            prompt@ == head + tool_lines(tools@.subrange(0, i as int)),
        decreases tools.len() - i,
    {
        assert(tools@.subrange(0, i + 1).drop_last() =~= tools@.subrange(0, i as int));
        let ghost before = prompt@;
        let short_desc = first_line_str(tools[i].tool.function.description.as_str());
        push_str(prompt, "- `");
        push_str(prompt, tools[i].tool.function.name.as_str());
        push_str(prompt, "`: ");
        push_str(prompt, short_desc.as_str());
        push_str(prompt, "\n");
        assert(prompt@ =~= before + "- `"@ + tools@[i as int].tool.function.name@ + "`: "@
            + first_line(tools@[i as int].tool.function.description@) + "\n"@);
        i = i + 1;
    }
    assert(tools@.subrange(0, tools.len() as int) =~= tools@);
    assert(prompt@ =~= start + tools_section(tools@));
}

/// Question-handling line of the compact prompt.
pub open spec fn light_question(preset: PromptBehaviorPreset, has_code: bool) -> Seq<char> {
    if (preset == PromptBehaviorPreset::Project || preset == PromptBehaviorPreset::Maintenance)
        && has_code {
        LIGHT_QUESTION_WITH_CODE@
    } else {
        LIGHT_QUESTION@
    }
}

/// The compact system prompt for local models.
pub open spec fn lightweight_prompt_spec(
    identity: Seq<char>,
    preset: PromptBehaviorPreset,
    tools: Seq<ToolInfo>,
    messages: Seq<ApiMessage>,
    custom: CustomPromptsSettings,
) -> Seq<char> {
    let has_code = code_context_spec(messages);
    identity + "\n\n"@ + LIGHT_LANGUAGE@ + "\n"@ + light_question(preset, has_code) + "\n"@
        + LIGHT_SKILLS@ + "\n"@ + (if has_code {
        LIGHT_DIFF_WITH_CODE@
    } else {
        LIGHT_DIFF_NO_CODE@
    }) + tools_section(tools) + custom_section(custom)
}

/// Builds the compact system prompt for local models (Ollama, LM Studio): the preset's
/// identity, language and indentation rules, the edit format, a short tool list and the
/// user's overrides at the end.
pub fn build_lightweight_system_prompt_with_custom_prompts(
    identity: &str,
    preset: PromptBehaviorPreset,
    available_tools: &[ToolInfo],
    messages: &[ApiMessage],
    custom_prompts: &CustomPromptsSettings,
) -> (r: String)
    ensures
        r@ == lightweight_prompt_spec(
            identity@,
            preset,
            available_tools@,
            messages@,
            *custom_prompts,
        ),
{
    let has_code = has_code_context(messages);
    let mut prompt = identity.to_owned();
    push_str(&mut prompt, "\n\n");
    push_str(&mut prompt, LIGHT_LANGUAGE);
    push_str(&mut prompt, "\n");
    let question = match preset {
        PromptBehaviorPreset::Project | PromptBehaviorPreset::Maintenance => if has_code {
            LIGHT_QUESTION_WITH_CODE
        } else {
            LIGHT_QUESTION
        },
        _ => LIGHT_QUESTION,
    };
    push_str(&mut prompt, question);
    push_str(&mut prompt, "\n");
    push_str(&mut prompt, LIGHT_SKILLS);
    push_str(&mut prompt, "\n");
    push_str(&mut prompt, if has_code { LIGHT_DIFF_WITH_CODE } else { LIGHT_DIFF_NO_CODE });
    push_tools_section(&mut prompt, available_tools);
    append_custom_prompt_settings(&mut prompt, custom_prompts);
    prompt
}

// ───────────────────────────── tool usage rules ─────────────────────────────

pub const TOOL_RULES_HEADER: &'static str = "\nКРИТИЧЕСКИЕ ПРАВИЛА ИСПОЛЬЗОВАНИЯ ИНСТРУМЕНТОВ:\n";

pub const CHECK_BSL_RULES: &'static str = "1. `check_bsl_syntax` (сервер bsl-ls): Используй для анализа и самопроверки.\n\n   РЕЖИМ А — Самопроверка (ИИ проверяет свои собственные изменения):\n   - Зона ответственности: ТОЛЬКО строки, которые ты сам добавил или изменил.\n   - ЗАПРЕТ: не трогай ошибки в окружающем Legacy-коде, даже в той же функции.\n   - 'Cognitive Complexity', 'Magic Number' в старом коде — ИГНОРИРУЙ.\n   - Исправляй ТОЛЬКО критические синтаксические ошибки (забытая скобка и т.п.).\n\n   РЕЖИМ Б — Выполнение явного запроса пользователя:\n   - Если пользователь ЯВНО просит исправить ошибки, добавить описание, устранить предупреждения — ВЫПОЛНЯЙ.\n   - Примеры явных запросов: 'исправь ошибки bsl', 'добавь описание параметров', 'устрани предупреждения'.\n   - ОБЯЗАТЕЛЬНО: перед внесением исправлений СНАЧАЛА вызови `check_bsl_syntax` для получения актуального анализа кода.\n   - В этом режиме исправляй ВСЕ указанные пользователем проблемы, включая Legacy-код.\n   - НЕ отказывайся со ссылкой на правила Legacy — пользователь осознанно просит изменения.\n   - ИСКЛЮЧЕНИЕ — `=== SELECTIVE BSL FIX SCOPE ===`: если пользователь прислал этот маркер, он явно ограничил объём исправления выбранным subset диагностик.\n   - При `=== SELECTIVE BSL FIX SCOPE ===` НЕ вызывай `check_bsl_syntax` до внесения правок и исправляй только явно перечисленные выбранные диагностики.\n   - При `=== SELECTIVE BSL FIX SCOPE ===` после правок `check_bsl_syntax` допустим только для самопроверки изменённых строк.\n";

pub const ASK_1C_AI_RULES: &'static str = "2. `ask_1c_ai` (сервер \"Напарник\" / 1C:Naparnik): Это инструмент для поиска в информационной системе 1С:ИТС.\n   - При команде /итс или запросе про ИТС — ВСЕГДА вызывай `ask_1c_ai` напрямую, не раздумывая.\n   - Также используй для консультаций по стандартам 1С и БСП.\n";

pub const HELP_RULES: &'static str = "\n3. `1С:Справка` (сервер builtin-1c-help): ЭТАЛОН СИНТАКСИСА И ОБЪЕКТНОЙ МОДЕЛИ.\n   - Используй `search_1c_help` и `get_1c_help_topic` как ГЛАВНЫЙ источник правды при написании кода.\n   - КРИТИЧЕСКОЕ ПРАВИЛО: Если ты не уверен на 100% в названии метода, порядке или типе параметров — ты ОБЯЗАН вызвать поиск по справке.\n   - ЗАПРЕТ НА ГАЛЛЮЦИНАЦИИ: Категорически запрещено выдумывать синтаксис 1С, методы или свойства, которых нет в официальной документации.\n   - Отличие от BSL-чеков: Справка используется ДО написания кода для верификации знаний, а `check_bsl_syntax` — ПОСЛЕ для поиска локальных ошибок.\n";

pub const METADATA_RULES: &'static str = "4. Инструменты метаданных: при неуверенности в структуре незнакомого объекта проверяй его через метаданные перед обращением к полям через точку, чтобы избежать ошибок 'Поле объекта не обнаружено'.\n";


/// Some tool is named `name`.
pub open spec fn has_tool_named(tools: Seq<ToolInfo>, name: Seq<char>) -> bool {
    exists|i: int| 0 <= i < tools.len() && tools[i].tool.function.name@ == name
}

/// Some tool comes from server `id`.
pub open spec fn has_server(tools: Seq<ToolInfo>, id: Seq<char>) -> bool {
    exists|i: int| 0 <= i < tools.len() && tools[i].server_id@ == id
}

/// Some tool name contains `p`.
pub open spec fn has_tool_name_containing(tools: Seq<ToolInfo>, p: Seq<char>) -> bool {
    exists|i: int| 0 <= i < tools.len() && seq_contains(tools[i].tool.function.name@, p)
}

/// Whether some tool is named `name`.
pub fn any_tool_named(tools: &[ToolInfo], name: &str) -> (b: bool)
    ensures
        b == has_tool_named(tools@, name@),
{
    let mut i: usize = 0;
    while i < tools.len()
        invariant
            i <= tools@.len(),
            forall|j: int| 0 <= j < i ==> tools@[j].tool.function.name@ != name@,
        decreases tools.len() - i,
    {
        if str_eq(tools[i].tool.function.name.as_str(), name) {
            return true;
        }
        i = i + 1;
    }
    false
}

/// Whether some tool comes from server `id`.
pub fn any_tool_from_server(tools: &[ToolInfo], id: &str) -> (b: bool)
    ensures
        b == has_server(tools@, id@),
{
    let mut i: usize = 0;
    while i < tools.len()
        invariant
            i <= tools@.len(),
            forall|j: int| 0 <= j < i ==> tools@[j].server_id@ != id@,
        decreases tools.len() - i,
    {
        if str_eq(tools[i].server_id.as_str(), id) {
            return true;
        }
        i = i + 1;
    }
    false
}

/// Whether some tool name contains `p`.
pub fn any_tool_name_containing(tools: &[ToolInfo], p: &str) -> (b: bool)
    ensures
        b == has_tool_name_containing(tools@, p@),
{
    let mut i: usize = 0;
    while i < tools.len()
        invariant
            i <= tools@.len(),
            forall|j: int| 0 <= j < i ==> !seq_contains(tools@[j].tool.function.name@, p@),
        decreases tools.len() - i,
    {
        if str_contains(tools[i].tool.function.name.as_str(), p) {
            return true;
        }
        i = i + 1;
    }
    false
}

/// The tool-usage rules for the tools at hand.
pub open spec fn tool_usage_rules(tools: Seq<ToolInfo>) -> Seq<char> {
    TOOL_RULES_HEADER@ + (if has_tool_named(tools, "check_bsl_syntax"@) {
        CHECK_BSL_RULES@
    } else {
        Seq::empty()
    }) + (if has_tool_named(tools, "ask_1c_ai"@) {
        ASK_1C_AI_RULES@
    } else {
        Seq::empty()
    }) + (if has_server(tools, "builtin-1c-help"@) {
        HELP_RULES@
    } else {
        Seq::empty()
    }) + (if has_tool_name_containing(tools, "metadata"@) {
        METADATA_RULES@
    } else {
        Seq::empty()
    })
}

/// Appends the rules for the specific tools available (BSL check, 1C:Naparnik, help,
/// metadata).
pub fn append_tool_usage_rules(prompt: &mut String, available_tools: &[ToolInfo])
    ensures
        final(prompt)@ == old(prompt)@ + tool_usage_rules(available_tools@),
{
    let ghost start = prompt@;
    push_str(prompt, TOOL_RULES_HEADER);
    if any_tool_named(available_tools, "check_bsl_syntax") {
        push_str(prompt, CHECK_BSL_RULES);
    }
    if any_tool_named(available_tools, "ask_1c_ai") {
        push_str(prompt, ASK_1C_AI_RULES);
    }
    if any_tool_from_server(available_tools, "builtin-1c-help") {
        push_str(prompt, HELP_RULES);
    }
    if any_tool_name_containing(available_tools, "metadata") {
        push_str(prompt, METADATA_RULES);
    }
    assert(prompt@ =~= start + tool_usage_rules(available_tools@));
}

/// The search guide goes into the full prompt when a search tool is available and the preset
/// is Planning, the user shows search intent, or no code is in context.
pub open spec fn search_guide_applies(
    tools: Seq<ToolInfo>,
    messages: Seq<ApiMessage>,
    preset: PromptBehaviorPreset,
) -> bool {
    has_server(tools, "builtin-1c-search"@) && (preset == PromptBehaviorPreset::Planning
        || search_intent_spec(messages) || !code_context_spec(messages))
}

/// Whether the full prompt gets the configuration-search guide.
pub fn search_guide_needed(
    available_tools: &[ToolInfo],
    messages: &[ApiMessage],
    preset: PromptBehaviorPreset,
) -> (b: bool)
    ensures
        b == search_guide_applies(available_tools@, messages@, preset),
{
    let has_search = any_tool_from_server(available_tools, "builtin-1c-search");
    if !has_search {
        return false;
    }
    let is_planning = match preset {
        PromptBehaviorPreset::Planning => true,
        _ => false,
    };
    is_planning || has_search_intent(messages) || !has_code_context(messages)
}

// ───────────────────────────── the full system prompt ─────────────────────────────

/// The fixed texts a full system prompt is made of, per preset and shared.
#[derive(Debug, Clone)]
pub struct PromptBlocks {
    pub project_identity: String,
    pub maintenance_identity: String,
    pub cli_identity: String,
    pub planning_identity: String,
    pub language: String,
    pub tabs: String,
    pub doc_format: String,
    pub skills_scripts: String,
    pub question_action_with_code: String,
    pub question_action_no_code: String,
    pub diff_format: String,
    pub maintenance_strict_compliance: String,
    pub maintenance_isolation_rule: String,
    pub project_marking: String,
    pub cli_marking: String,
    pub planning_readonly_rules: String,
    pub search_guide: String,
}

/// The code-generation settings the prompt depends on.
#[derive(Debug, Clone)]
pub struct CodeGenerationSettings {
    pub behavior_preset: PromptBehaviorPreset,
    pub mark_changes: bool,
    pub addition_marker_template: String,
    pub modification_marker_template: String,
    pub deletion_marker_template: String,
}

/// A change-marker template with `{datetime}` and then `{date}` filled in.
pub open spec fn filled_marker(template: Seq<char>, datetime: Seq<char>, date: Seq<char>) -> Seq<char> {
    replace_all(replace_all(template, "{datetime}"@, datetime), "{date}"@, date)
}

/// Fills a change-marker template with the current date and time.
pub fn fill_marker_template(template: &str, datetime: &str, date: &str) -> (r: String)
    ensures
        r@ == filled_marker(template@, datetime@, date@),
{
    let t = chars_of(template);
    let a = replace_chars(t.as_slice(), chars_of("{datetime}").as_slice(), chars_of(datetime).as_slice());
    string_of(&replace_chars(a.as_slice(), chars_of("{date}").as_slice(), chars_of(date).as_slice()))
}

/// The identity block of a preset.
pub open spec fn identity_of(b: PromptBlocks, p: PromptBehaviorPreset) -> Seq<char> {
    match p {
        PromptBehaviorPreset::Project => b.project_identity@,
        PromptBehaviorPreset::Maintenance => b.maintenance_identity@,
        PromptBehaviorPreset::Cli => b.cli_identity@,
        PromptBehaviorPreset::Planning => b.planning_identity@,
    }
}

/// One line per available tool: name, server and description (a placeholder when empty).
pub open spec fn mcp_tool_lines(tools: Seq<ToolInfo>) -> Seq<char>
    decreases tools.len(),
{
    if tools.len() == 0 {
        Seq::empty()
    } else {
        let t = tools.last();
        let desc = if t.tool.function.description@.len() == 0 {
            "(описание отсутствует)"@
        } else {
            t.tool.function.description@
        };
        mcp_tool_lines(tools.drop_last()) + "- `"@ + t.tool.function.name@ + "` (сервер: "@
            + t.server_id@ + "): "@ + desc + "\n"@
    }
}

/// The opening of the full prompt: identity, shared rules and the skill catalogue.
pub open spec fn prompt_head(b: PromptBlocks, p: PromptBehaviorPreset, skill_summary: Seq<char>) -> Seq<char> {
    identity_of(b, p) + "\n\n"@ + b.language@ + "\n"@ + b.tabs@ + "\n"@ + b.doc_format@ + "\n"@
        + b.skills_scripts@ + "\n"@ + (if skill_summary.len() > 0 {
        skill_summary + "\n"@
    } else {
        Seq::empty()
    })
}

/// The preset's conduct: question handling (Project and Maintenance), the edit format (with
/// code in context, not in Planning), Maintenance's strict rules, change marking and
/// Planning's read-only rules.
pub open spec fn prompt_conduct(
    b: PromptBlocks,
    s: CodeGenerationSettings,
    has_code: bool,
    maintenance_marking: Seq<char>,
) -> Seq<char> {
    let p = s.behavior_preset;
    (if p == PromptBehaviorPreset::Project || p == PromptBehaviorPreset::Maintenance {
        (if has_code {
            b.question_action_with_code@
        } else {
            b.question_action_no_code@
        }) + "\n"@
    } else {
        Seq::empty()
    }) + (if has_code && p != PromptBehaviorPreset::Planning {
        b.diff_format@ + "\n"@
    } else {
        Seq::empty()
    }) + (if p == PromptBehaviorPreset::Maintenance {
        b.maintenance_strict_compliance@ + "\n"@ + b.maintenance_isolation_rule@ + "\n"@
    } else {
        Seq::empty()
    }) + (if s.mark_changes || p == PromptBehaviorPreset::Maintenance {
        match p {
            PromptBehaviorPreset::Maintenance => maintenance_marking + "\n"@,
            PromptBehaviorPreset::Project => b.project_marking@ + "\n"@,
            PromptBehaviorPreset::Cli => b.cli_marking@ + "\n"@,
            PromptBehaviorPreset::Planning => Seq::empty(),
        }
    } else {
        Seq::empty()
    }) + (if p == PromptBehaviorPreset::Planning {
        b.planning_readonly_rules@ + "\n"@
    } else {
        Seq::empty()
    })
}

/// The tools part: the list of tools, their usage rules and, when it applies, the search
/// guide; nothing without tools.
pub open spec fn prompt_tools(
    b: PromptBlocks,
    p: PromptBehaviorPreset,
    tools: Seq<ToolInfo>,
    messages: Seq<ApiMessage>,
) -> Seq<char> {
    if tools.len() > 0 {
        "\n\nВАЖНО: Тебе доступны следующие специализированные инструменты MCP:\n"@
            + mcp_tool_lines(tools) + tool_usage_rules(tools) + (if search_guide_applies(
            tools,
            messages,
            p,
        ) {
            "\n"@ + b.search_guide@
        } else {
            Seq::empty()
        })
    } else {
        Seq::empty()
    }
}

/// The full system prompt: its opening, the preset's conduct, the tools, and the user's
/// overrides last.
pub open spec fn system_prompt_spec(
    b: PromptBlocks,
    s: CodeGenerationSettings,
    skill_summary: Seq<char>,
    maintenance_marking: Seq<char>,
    tools: Seq<ToolInfo>,
    messages: Seq<ApiMessage>,
    custom: CustomPromptsSettings,
) -> Seq<char> {
    prompt_head(b, s.behavior_preset, skill_summary) + prompt_conduct(
        b,
        s,
        code_context_spec(messages),
        maintenance_marking,
    ) + prompt_tools(b, s.behavior_preset, tools, messages) + custom_section(custom)
}

fn push_line(prompt: &mut String, block: &str)
    ensures
        final(prompt)@ == old(prompt)@ + block@ + "\n"@,
{
    push_str(prompt, block);
    push_str(prompt, "\n");
}

#[verifier::spinoff_prover]
#[verifier::rlimit(50)]
fn build_prompt_head(b: &PromptBlocks, p: PromptBehaviorPreset, skill_summary: &str) -> (r: String)
    ensures
        r@ == prompt_head(*b, p, skill_summary@),
{
    let mut prompt = match p {
        PromptBehaviorPreset::Project => b.project_identity.clone(),
        PromptBehaviorPreset::Maintenance => b.maintenance_identity.clone(),
        PromptBehaviorPreset::Cli => b.cli_identity.clone(),
        PromptBehaviorPreset::Planning => b.planning_identity.clone(),
    };
    push_str(&mut prompt, "\n\n");
    push_line(&mut prompt, b.language.as_str());
    push_line(&mut prompt, b.tabs.as_str());
    push_line(&mut prompt, b.doc_format.as_str());
    push_line(&mut prompt, b.skills_scripts.as_str());
    let ghost s1 = prompt@;
    if !skill_summary.is_empty() {
        push_line(&mut prompt, skill_summary);
    } else {
        assert(s1 + Seq::<char>::empty() =~= s1);
    }
    assert(prompt@ =~= prompt_head(*b, p, skill_summary@));
    prompt
}

#[verifier::spinoff_prover]
#[verifier::rlimit(50)]
fn push_prompt_conduct(
    prompt: &mut String,
    b: &PromptBlocks,
    s: &CodeGenerationSettings,
    has_code: bool,
    maintenance_marking: &str,
)
    ensures
        final(prompt)@ == old(prompt)@ + prompt_conduct(*b, *s, has_code, maintenance_marking@),
{
    let ghost s0 = prompt@;
    let p = s.behavior_preset;
    let qa = match p {
        PromptBehaviorPreset::Project | PromptBehaviorPreset::Maintenance => true,
        _ => false,
    };
    let planning = match p {
        PromptBehaviorPreset::Planning => true,
        _ => false,
    };
    let maintenance = match p {
        PromptBehaviorPreset::Maintenance => true,
        _ => false,
    };
    if qa {
        if has_code {
            push_line(prompt, b.question_action_with_code.as_str());
        } else {
            push_line(prompt, b.question_action_no_code.as_str());
        }
    }
    let ghost s1 = prompt@;
    if has_code && !planning {
        push_line(prompt, b.diff_format.as_str());
    }
    let ghost s2 = prompt@;
    if maintenance {
        push_line(prompt, b.maintenance_strict_compliance.as_str());
        push_line(prompt, b.maintenance_isolation_rule.as_str());
    }
    let ghost s3 = prompt@;
    if s.mark_changes || maintenance {
        match p {
            PromptBehaviorPreset::Maintenance => push_line(prompt, maintenance_marking),
            PromptBehaviorPreset::Project => push_line(prompt, b.project_marking.as_str()),
            PromptBehaviorPreset::Cli => push_line(prompt, b.cli_marking.as_str()),
            PromptBehaviorPreset::Planning => {},
        }
    }
    let ghost s4 = prompt@;
    if planning {
        push_line(prompt, b.planning_readonly_rules.as_str());
    }
    assert(prompt@ =~= s0 + prompt_conduct(*b, *s, has_code, maintenance_marking@));
}

#[verifier::spinoff_prover]
#[verifier::rlimit(50)]
fn push_prompt_tools(
    prompt: &mut String,
    b: &PromptBlocks,
    p: PromptBehaviorPreset,
    available_tools: &[ToolInfo],
    messages: &[ApiMessage],
)
    ensures
        final(prompt)@ == old(prompt)@ + prompt_tools(*b, p, available_tools@, messages@),
{
    let ghost s0 = prompt@;
    if available_tools.len() == 0 {
        assert(prompt@ =~= s0 + prompt_tools(*b, p, available_tools@, messages@));
        return;
    }
    push_str(prompt, "\n\nВАЖНО: Тебе доступны следующие специализированные инструменты MCP:\n");
    let ghost head = prompt@;
    let mut i: usize = 0;
    while i < available_tools.len()
        invariant
            i <= available_tools@.len(),
            prompt@ == head + mcp_tool_lines(available_tools@.subrange(0, i as int)),
        decreases available_tools.len() - i,
    {
        assert(available_tools@.subrange(0, i + 1).drop_last() =~= available_tools@.subrange(
            0,
            i as int,
        ));
        let ghost before = prompt@;
        let t = &available_tools[i];
        push_str(prompt, "- `");
        push_str(prompt, t.tool.function.name.as_str());
        push_str(prompt, "` (сервер: ");
        push_str(prompt, t.server_id.as_str());
        push_str(prompt, "): ");
        if t.tool.function.description.as_str().is_empty() {
            push_str(prompt, "(описание отсутствует)");
        } else {
            push_str(prompt, t.tool.function.description.as_str());
        }
        push_str(prompt, "\n");
        assert(prompt@ =~= head + mcp_tool_lines(available_tools@.subrange(0, i + 1)));
        i = i + 1;
    }
    assert(available_tools@.subrange(0, available_tools@.len() as int) =~= available_tools@);
    let ghost s1 = prompt@;
    append_tool_usage_rules(prompt, available_tools);
    let ghost s2 = prompt@;
    if search_guide_needed(available_tools, messages, p) {
        push_str(prompt, "\n");
        push_str(prompt, b.search_guide.as_str());
    }
    assert(prompt@ =~= s0 + prompt_tools(*b, p, available_tools@, messages@));
}

/// Builds the full system prompt from its blocks. `skill_summary` is the catalogue of
/// installed skills and `maintenance_marking` the Maintenance preset's change-marking rules
/// with the current markers.
#[verifier::spinoff_prover]
#[verifier::rlimit(50)]
pub fn build_system_prompt(
    blocks: &PromptBlocks,
    settings: &CodeGenerationSettings,
    skill_summary: &str,
    maintenance_marking: &str,
    available_tools: &[ToolInfo],
    messages: &[ApiMessage],
    custom: &CustomPromptsSettings,
) -> (r: String)
    ensures
        r@ == system_prompt_spec(
            *blocks,
            *settings,
            skill_summary@,
            maintenance_marking@,
            available_tools@,
            messages@,
            *custom,
        ),
{
    let has_code = has_code_context(messages);
    let mut prompt = build_prompt_head(blocks, settings.behavior_preset, skill_summary);
    push_prompt_conduct(&mut prompt, blocks, settings, has_code, maintenance_marking);
    push_prompt_tools(&mut prompt, blocks, settings.behavior_preset, available_tools, messages);
    append_custom_prompt_settings(&mut prompt, custom);
    prompt
}

/// The tools part of the full prompt without the search guide: the list of tools and their
/// usage rules; nothing without tools.
pub open spec fn prompt_tools_without_guide(tools: Seq<ToolInfo>) -> Seq<char> {
    if tools.len() > 0 {
        "\n\nВАЖНО: Тебе доступны следующие специализированные инструменты MCP:\n"@
            + mcp_tool_lines(tools) + tool_usage_rules(tools)
    } else {
        Seq::empty()
    }
}

/// The full prompt as it would read without the search guide.
pub open spec fn system_prompt_without_guide(
    b: PromptBlocks,
    s: CodeGenerationSettings,
    skill_summary: Seq<char>,
    maintenance_marking: Seq<char>,
    tools: Seq<ToolInfo>,
    messages: Seq<ApiMessage>,
    custom: CustomPromptsSettings,
) -> Seq<char> {
    prompt_head(b, s.behavior_preset, skill_summary) + prompt_conduct(
        b,
        s,
        code_context_spec(messages),
        maintenance_marking,
    ) + prompt_tools_without_guide(tools) + custom_section(custom)
}

/// The search guide's heading shows in the full prompt exactly when the guide applies: a
/// search tool is available and the preset is Planning, the user shows search intent, or no
/// code is in context. This holds of any heading that occurs in the guide and nowhere in the
/// prompt as it would read without the guide.
pub proof fn search_heading_shows_exactly_when_guide_applies(
    b: PromptBlocks,
    s: CodeGenerationSettings,
    skill_summary: Seq<char>,
    maintenance_marking: Seq<char>,
    tools: Seq<ToolInfo>,
    messages: Seq<ApiMessage>,
    custom: CustomPromptsSettings,
    heading: Seq<char>,
)
    requires
        seq_contains(b.search_guide@, heading),
        !seq_contains(
            system_prompt_without_guide(b, s, skill_summary, maintenance_marking, tools, messages, custom),
            heading,
        ),
    ensures
        seq_contains(
            system_prompt_spec(b, s, skill_summary, maintenance_marking, tools, messages, custom),
            heading,
        ) <==> search_guide_applies(tools, messages, s.behavior_preset),
{
    let p = s.behavior_preset;
    let front = prompt_head(b, p, skill_summary) + prompt_conduct(b, s, code_context_spec(messages), maintenance_marking)
        + prompt_tools_without_guide(tools);
    let back = custom_section(custom);
    let full = system_prompt_spec(b, s, skill_summary, maintenance_marking, tools, messages, custom);
    if search_guide_applies(tools, messages, p) {
        reveal_strlit("\n");
        let g = "\n"@ + b.search_guide@;
        assert(full =~= front + g + back);
        let i0 = choose|i: int| occurs_at(b.search_guide@, heading, i);
        let at = front.len() + 1 + i0;
        let fg = front + g;
        assert(full =~= fg + back);
        assert forall|k: int| 0 <= k < heading.len() implies #[trigger] full[at + k] == heading[k] by {
            assert(full[at + k] == fg[at + k]);
            assert(fg[at + k] == g[1 + i0 + k]);
            assert(g[1 + i0 + k] == b.search_guide@[i0 + k]);
            assert(b.search_guide@.subrange(i0, i0 + heading.len())[k] == b.search_guide@[i0 + k]);
        }
        assert(full.subrange(at, at + heading.len()) =~= heading);
        assert(occurs_at(full, heading, at));
    } else {
        assert(full =~= system_prompt_without_guide(b, s, skill_summary, maintenance_marking, tools, messages, custom));
    }
}

} // verus!
