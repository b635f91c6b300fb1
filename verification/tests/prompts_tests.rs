use mini_ai_1c::legacy_prompts;
use mini_ai_1c::models::{ApiMessage, Tool, ToolFunction, ToolInfo};
use mini_ai_1c::profiles::{CustomPromptsSettings, LLMProvider, PromptBehaviorPreset, PromptTemplate};
use mini_ai_1c::prompts::{
    append_custom_prompt_settings, build_lightweight_system_prompt_with_custom_prompts,
    build_system_prompt, fill_marker_template, has_code_context, has_search_intent,
    is_local_provider, search_guide_needed, CodeGenerationSettings, PromptBlocks,
    CODE_CONTEXT_LOOKBACK,
};

fn make_user_message(content: &str) -> ApiMessage {
    ApiMessage {
        role: "user".to_string(),
        content: Some(content.to_string()),
        tool_calls: None,
        tool_call_id: None,
        name: None,
    }
}

fn make_custom_prompts_with_templates(templates: Vec<PromptTemplate>) -> CustomPromptsSettings {
    CustomPromptsSettings {
        system_prefix: String::new(),
        on_code_change: String::new(),
        on_code_generate: String::new(),
        templates,
    }
}

fn make_search_tool() -> ToolInfo {
    ToolInfo {
        tool: Tool {
            kind: "function".to_string(),
            function: ToolFunction {
                name: "semantic_find".to_string(),
                description: "Поиск по конфигурации".to_string(),
                parameters: r#"{"type":"object","properties":{"query":{"type":"string"}},"required":["query"]}"#.to_string(),
            },
        },
        server_id: "builtin-1c-search".to_string(),
    }
}

fn enabled_template() -> CustomPromptsSettings {
    make_custom_prompts_with_templates(vec![PromptTemplate {
        id: "issue-160-rule".to_string(),
        name: "Issue 160 Rule".to_string(),
        description: "Regression marker".to_string(),
        content: "ISSUE160_CHECK_BSL_AFTER_EACH_ANSWER".to_string(),
        enabled: true,
    }])
}

fn disabled_template() -> CustomPromptsSettings {
    make_custom_prompts_with_templates(vec![PromptTemplate {
        id: "disabled-rule".to_string(),
        name: "Disabled Rule".to_string(),
        description: "Should stay out".to_string(),
        content: "ISSUE160_DISABLED_RULE_SHOULD_NOT_APPEAR".to_string(),
        enabled: false,
    }])
}

#[test]
fn prompts_lightweight_system_prompt_includes_enabled_custom_templates() {
    let custom = enabled_template();

    let prompt = legacy_prompts::build_lightweight_system_prompt_with_custom_prompts(
        &[],
        &[make_user_message("Напиши функцию")],
        &custom,
    );

    assert!(prompt.contains("ISSUE160_CHECK_BSL_AFTER_EACH_ANSWER"));
    assert!(prompt.contains("Issue 160 Rule"));
}

#[test]
fn prompts_lightweight_system_prompt_skips_disabled_custom_templates() {
    let custom = disabled_template();

    let prompt = legacy_prompts::build_lightweight_system_prompt_with_custom_prompts(
        &[],
        &[make_user_message("Напиши функцию")],
        &custom,
    );

    assert!(!prompt.contains("ISSUE160_DISABLED_RULE_SHOULD_NOT_APPEAR"));
    assert!(!prompt.contains("Disabled Rule"));
}

#[test]
fn prompts_is_local_provider_matches_ollama_and_lmstudio() {
    assert!(legacy_prompts::is_local_provider(Some(&LLMProvider::Ollama)));
    assert!(legacy_prompts::is_local_provider(Some(&LLMProvider::LMStudio)));
    assert!(!legacy_prompts::is_local_provider(Some(&LLMProvider::OpenAI)));
    assert!(!legacy_prompts::is_local_provider(Some(&LLMProvider::Anthropic)));
    assert!(!legacy_prompts::is_local_provider(None));
}

#[test]
fn mod_lightweight_system_prompt_includes_enabled_custom_templates() {
    let custom = enabled_template();

    let prompt = build_lightweight_system_prompt_with_custom_prompts(
        "Ты - эксперт-разработчик 1С.",
        PromptBehaviorPreset::Project,
        &[],
        &[make_user_message("Напиши функцию")],
        &custom,
    );

    assert!(prompt.contains("ISSUE160_CHECK_BSL_AFTER_EACH_ANSWER"));
    assert!(prompt.contains("Issue 160 Rule"));
}

#[test]
fn mod_lightweight_system_prompt_skips_disabled_custom_templates() {
    let custom = disabled_template();

    let prompt = build_lightweight_system_prompt_with_custom_prompts(
        "Ты - эксперт-разработчик 1С.",
        PromptBehaviorPreset::Project,
        &[],
        &[make_user_message("Напиши функцию")],
        &custom,
    );

    assert!(!prompt.contains("ISSUE160_DISABLED_RULE_SHOULD_NOT_APPEAR"));
    assert!(!prompt.contains("Disabled Rule"));
}

#[test]
fn mod_is_local_provider_matches_ollama_and_lmstudio() {
    assert!(is_local_provider(Some(&LLMProvider::Ollama)));
    assert!(is_local_provider(Some(&LLMProvider::LMStudio)));
    assert!(!is_local_provider(Some(&LLMProvider::OpenAI)));
    assert!(!is_local_provider(Some(&LLMProvider::Anthropic)));
    assert!(!is_local_provider(None));
}

#[test]
fn custom_override_appears_at_the_end() {
    let mut custom = make_custom_prompts_with_templates(vec![PromptTemplate {
        id: "final-rule".to_string(),
        name: "Final Rule".to_string(),
        description: "Should be at end".to_string(),
        content: "FINAL_OVERRIDE_MARKER".to_string(),
        enabled: true,
    }]);
    custom.system_prefix = "GLOBAL_PREFIX_MARKER".to_string();

    let mut prompt = String::new();
    prompt.push_str("=== СТАРТ ===\n");
    append_custom_prompt_settings(&mut prompt, &custom);

    assert!(prompt.ends_with("FINAL_OVERRIDE_MARKER\n"));
    assert!(
        prompt.find("GLOBAL_PREFIX_MARKER").unwrap() < prompt.find("FINAL_OVERRIDE_MARKER").unwrap()
    );
}

#[test]
fn has_code_context_uses_recent_messages_lookback() {
    let mut msgs = Vec::new();
    for _ in 0..(CODE_CONTEXT_LOOKBACK + 1) {
        msgs.push(make_user_message("просто текст без кода"));
    }
    msgs.push(make_user_message("Функция Старая()\nКонецФункции\nКонецПроцедуры"));
    let mut ordered = msgs.clone();
    ordered.reverse();
    assert!(!has_code_context(&ordered));
}

#[test]
fn has_code_context_detects_recent_code() {
    let msgs = vec![
        make_user_message("вопрос без кода"),
        make_user_message("```bsl\nПроцедура Тест()\nКонецПроцедуры\n```"),
    ];
    assert!(has_code_context(&msgs));
}

#[test]
fn search_intent_and_search_guide_follow_the_messages() {
    let edit = vec![make_user_message(
        "Исправь функцию:\n```bsl\nФункция Тест()\n\tКонецФункции\n```",
    )];
    assert!(has_code_context(&edit));
    assert!(!has_search_intent(&edit));
    assert!(!search_guide_needed(&[make_search_tool()], &edit, PromptBehaviorPreset::Project));

    let research = vec![make_user_message("Расскажи про учёт НДС в типовой")];
    assert!(!has_code_context(&research));
    assert!(search_guide_needed(&[make_search_tool()], &research, PromptBehaviorPreset::Project));

    let find = vec![make_user_message("найди функцию, которая рассчитывает НДС")];
    assert!(has_search_intent(&find));
    assert!(search_guide_needed(&[make_search_tool()], &find, PromptBehaviorPreset::Project));
    assert!(!search_guide_needed(&[], &find, PromptBehaviorPreset::Project));
}

#[test]
fn legacy_builder_answers_in_russian_and_detects_code_anywhere() {
    let msgs = vec![make_user_message("```bsl\nПроцедура А()\nКонецПроцедуры\n```"), make_user_message("ok")];
    assert_eq!(legacy_prompts::detect_target_lang(&msgs), "Russian");
    assert!(legacy_prompts::has_code_context(&msgs));
    let prompt = legacy_prompts::build_lightweight_system_prompt_with_custom_prompts(
        &[make_search_tool()],
        &msgs,
        &make_custom_prompts_with_templates(Vec::new()),
    );
    assert!(prompt.contains("Russian"));
    assert!(prompt.contains("semantic_find"));
}

fn blocks() -> PromptBlocks {
    PromptBlocks {
        project_identity: "[PROJECT]".to_string(),
        maintenance_identity: "[MAINTENANCE]".to_string(),
        cli_identity: "[CLI]".to_string(),
        planning_identity: "[PLANNING]".to_string(),
        language: "[LANG]".to_string(),
        tabs: "[TABS]".to_string(),
        doc_format: "[DOC]".to_string(),
        skills_scripts: "[SKILLS]".to_string(),
        question_action_with_code: "[QA+CODE]".to_string(),
        question_action_no_code: "[QA]".to_string(),
        diff_format: "[DIFF]".to_string(),
        maintenance_strict_compliance: "[STRICT]".to_string(),
        maintenance_isolation_rule: "[ISOLATION]".to_string(),
        project_marking: "[PMARK]".to_string(),
        cli_marking: "[CMARK]".to_string(),
        planning_readonly_rules: "[READONLY]".to_string(),
        search_guide: "[SEARCH]".to_string(),
    }
}

fn settings(preset: PromptBehaviorPreset, mark_changes: bool) -> CodeGenerationSettings {
    CodeGenerationSettings {
        behavior_preset: preset,
        mark_changes,
        addition_marker_template: "// +{date}".to_string(),
        modification_marker_template: "// ~{datetime}".to_string(),
        deletion_marker_template: "// -".to_string(),
    }
}

fn make_check_bsl_tool() -> ToolInfo {
    ToolInfo {
        tool: Tool {
            kind: "function".to_string(),
            function: ToolFunction {
                name: "check_bsl_syntax".to_string(),
                description: String::new(),
                parameters: "{}".to_string(),
            },
        },
        server_id: "bsl-ls".to_string(),
    }
}

#[test]
fn system_prompt_describes_strict_rule_for_selective_fix_scope() {
    let prompt = build_system_prompt(
        &blocks(),
        &settings(PromptBehaviorPreset::Project, false),
        "",
        "",
        &[make_check_bsl_tool()],
        &[make_user_message("/исправить")],
        &make_custom_prompts_with_templates(Vec::new()),
    );

    assert!(prompt.contains("=== SELECTIVE BSL FIX SCOPE ==="));
    assert!(prompt.contains("НЕ вызывай `check_bsl_syntax` до внесения правок"));
    assert!(prompt.contains("исправляй только явно перечисленные выбранные диагностики"));
    assert!(prompt.contains("- `check_bsl_syntax` (сервер: bsl-ls): (описание отсутствует)"));
}

#[test]
fn full_prompt_blocks_follow_preset_and_context() {
    let code = [make_user_message("```bsl\nПроцедура А()\nКонецПроцедуры\n```")];
    let custom = enabled_template();
    let maintenance = build_system_prompt(
        &blocks(),
        &settings(PromptBehaviorPreset::Maintenance, false),
        "* skill",
        "[MARKS]",
        &[],
        &code,
        &custom,
    );
    assert!(maintenance.starts_with("[MAINTENANCE]\n\n[LANG]\n[TABS]\n[DOC]\n[SKILLS]\n* skill\n[QA+CODE]\n[DIFF]\n[STRICT]\n[ISOLATION]\n[MARKS]\n"));
    assert!(maintenance.ends_with("ISSUE160_CHECK_BSL_AFTER_EACH_ANSWER\n"));

    let planning = build_system_prompt(
        &blocks(),
        &settings(PromptBehaviorPreset::Planning, true),
        "",
        "[MARKS]",
        &[make_search_tool()],
        &code,
        &make_custom_prompts_with_templates(Vec::new()),
    );
    assert!(!planning.contains("[DIFF]"));
    assert!(!planning.contains("[QA"));
    assert!(planning.contains("[READONLY]"));
    assert!(planning.contains("\n[SEARCH]"));

    let project = build_system_prompt(
        &blocks(),
        &settings(PromptBehaviorPreset::Project, true),
        "",
        "",
        &[make_search_tool()],
        &code,
        &make_custom_prompts_with_templates(Vec::new()),
    );
    assert!(project.contains("[PMARK]"));
    assert!(!project.contains("[SEARCH]"));
}

#[test]
fn marker_templates_get_date_and_time() {
    assert_eq!(fill_marker_template("// +{date}", "2026-01-02 03:04:05", "2026-01-02"), "// +2026-01-02");
    assert_eq!(
        fill_marker_template("{datetime} / {date}", "D T", "D"),
        "D T / D"
    );
}

#[test]
fn search_heading_shows_exactly_when_the_guide_applies() {
    let heading = "=== ПОИСК ПО КОНФИГУРАЦИИ (builtin-1c-search) ===";
    let mut with_heading = blocks();
    with_heading.search_guide = format!("{}\n[SEARCH]", heading);
    let none = make_custom_prompts_with_templates(Vec::new());
    let build = |preset: PromptBehaviorPreset, msgs: &[ApiMessage]| {
        build_system_prompt(&with_heading, &settings(preset, false), "", "", &[make_search_tool()], msgs, &none)
    };
    let find = [make_user_message("найди функцию, которая рассчитывает НДС")];
    let research = [make_user_message("Расскажи про учёт НДС в типовой")];
    let code = [make_user_message("Исправь функцию:\n```bsl\nФункция Тест()\n\tКонецФункции\n```")];
    assert!(build(PromptBehaviorPreset::Project, &find).contains(heading));
    assert!(build(PromptBehaviorPreset::Project, &research).contains(heading));
    assert!(build(PromptBehaviorPreset::Planning, &code).contains(heading));
    assert!(!build(PromptBehaviorPreset::Project, &code).contains(heading));
    assert!(!build(PromptBehaviorPreset::Maintenance, &code).contains(heading));
}
