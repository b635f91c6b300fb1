use mini_ai_1c::configurator::{
    bridge_capability_reason, bridge_method_hints_with_fallback, bridge_paste_target_name,
    bridge_supports_target, can_attempt_hint_based_bridge_semantic_write,
    captured_semantic_method_text, choose_bridge_paste_target, direct_apply_available, editor_context_has_current_method,
    hints_contain_semantic_method_identity, legacy_apply_support_for_intent,
    resolve_quick_action_apply_policy, semantic_target_name,
    should_retry_clipboard_capture_as_full_module, should_try_scintilla_fallback,
    BridgePasteTarget, EditorCapabilities, EditorContext, EditorMethodHints, QuickActionApplyPolicy,
    QuickActionKind, SemanticWriteIntent,
};

#[test]
fn quick_action_policy_uses_semantic_apply_when_bridge_enabled() {
    assert_eq!(
        resolve_quick_action_apply_policy(
            true,
            Some(QuickActionKind::Fix),
            Some(SemanticWriteIntent::ReplaceCurrentMethod),
        ),
        QuickActionApplyPolicy::ForceSemantic
    );
}

#[test]
fn quick_action_policy_uses_legacy_apply_when_bridge_disabled() {
    assert_eq!(
        resolve_quick_action_apply_policy(
            false,
            Some(QuickActionKind::Elaborate),
            Some(SemanticWriteIntent::ReplaceModule),
        ),
        QuickActionApplyPolicy::ForceLegacy
    );
}

#[test]
fn quick_action_policy_keeps_default_for_regular_apply() {
    assert_eq!(
        resolve_quick_action_apply_policy(true, None, None),
        QuickActionApplyPolicy::Default
    );
}

#[test]
fn semantic_policy_still_allows_scintilla_fallback() {
    assert!(should_try_scintilla_fallback(
        false,
        QuickActionApplyPolicy::ForceSemantic
    ));
}

#[test]
fn force_legacy_policy_disables_scintilla_fallback() {
    assert!(!should_try_scintilla_fallback(
        false,
        QuickActionApplyPolicy::ForceLegacy
    ));
    assert!(!should_try_scintilla_fallback(
        true,
        QuickActionApplyPolicy::Default
    ));
}

#[test]
fn empty_selection_clipboard_capture_retries_as_full_module() {
    assert!(should_retry_clipboard_capture_as_full_module(false, ""));
    assert!(should_retry_clipboard_capture_as_full_module(
        false,
        "   \r\n\t"
    ));
    assert!(!should_retry_clipboard_capture_as_full_module(
        false,
        "Процедура Тест()\n"
    ));
    assert!(!should_retry_clipboard_capture_as_full_module(true, ""));
}

#[test]
fn legacy_direct_apply_is_blocked_for_insert_before_current_method() {
    let support =
        legacy_apply_support_for_intent(Some(SemanticWriteIntent::InsertBeforeCurrentMethod));

    assert!(!support.can_apply_directly);
    assert_eq!(support.preferred_writer, "diff_only");
    assert_eq!(
        support.target_kind.as_deref(),
        Some(SemanticWriteIntent::InsertBeforeCurrentMethod.as_str())
    );
}

#[test]
fn legacy_apply_allows_module_and_selection_writes() {
    let support = legacy_apply_support_for_intent(Some(SemanticWriteIntent::ReplaceModule));
    assert!(support.can_apply_directly);
    assert_eq!(support.preferred_writer, "legacy_clipboard");
    assert_eq!(support.target_kind.as_deref(), Some("replace_module"));
    assert!(support.reason.is_none());

    let none = legacy_apply_support_for_intent(None);
    assert!(!none.can_apply_directly);
    assert_eq!(none.preferred_writer, "diff_only");
    assert!(none.target_kind.is_none());
    assert_eq!(
        none.reason.as_deref(),
        Some("Для этого действия запись в редактор не требуется.")
    );
}

#[test]
fn direct_apply_refuses_legacy_writer_for_method_targets() {
    let refused = direct_apply_available("legacy_clipboard", Some("replace_current_method".to_string()));
    assert!(!refused.can_apply_directly);
    assert_eq!(refused.preferred_writer, "diff_only");
    let allowed = direct_apply_available("editor_bridge", Some("replace_current_method".to_string()));
    assert!(allowed.can_apply_directly);
    assert_eq!(allowed.preferred_writer, "editor_bridge");
}

#[test]
fn semantic_target_names_are_stable() {
    assert_eq!(semantic_target_name(SemanticWriteIntent::ReplaceSelection), "replace_selection");
    assert_eq!(
        semantic_target_name(SemanticWriteIntent::ReplaceCurrentMethod),
        "replace_current_method"
    );
}

fn sample_context(capabilities: Option<EditorCapabilities>) -> EditorContext {
    EditorContext {
        available: true,
        conf_hwnd: 1,
        window_title: "test".to_string(),
        primary_runtime_id: Some("runtime-1".to_string()),
        has_selection: false,
        selection_text: String::new(),
        caret_line: 4,
        current_method_name: Some("Тест".to_string()),
        method_start_line: Some(4),
        method_end_line: Some(6),
        current_method_text: Some("Процедура Тест()\nКонецПроцедуры\n".to_string()),
        module_text: String::new(),
        capabilities,
    }
}

#[test]
fn editor_context_reports_current_method() {
    let ctx = sample_context(None);
    assert!(editor_context_has_current_method(&ctx));
    let mut without = sample_context(None);
    without.current_method_name = None;
    without.method_start_line = None;
    without.current_method_text = Some("   ".to_string());
    assert!(!editor_context_has_current_method(&without));
}

#[test]
fn bridge_support_follows_capabilities() {
    let caps = EditorCapabilities {
        can_replace_module: true,
        can_replace_selection: false,
        can_replace_current_method: true,
        can_insert_before_method: false,
        write_mode: "bridge".to_string(),
        diagnostic_message: "ok".to_string(),
    };
    let ctx = sample_context(Some(caps));
    assert!(bridge_supports_target(&ctx, &BridgePasteTarget::FullModule("x".to_string())));
    assert!(!bridge_supports_target(
        &ctx,
        &BridgePasteTarget::Selection("x".to_string())
    ));
    assert_eq!(
        bridge_paste_target_name(&BridgePasteTarget::FullModule(String::new())),
        "full_module"
    );
    assert_eq!(bridge_capability_reason(&ctx), Some("ok".to_string()));
    assert_eq!(bridge_capability_reason(&sample_context(None)), None);
}

#[test]
fn method_hints_fall_back_to_context() {
    let ctx = sample_context(None);
    let requested = EditorMethodHints {
        caret_line: None,
        method_start_line: None,
        method_name: None,
        runtime_id: None,
    };
    let hints = bridge_method_hints_with_fallback(&ctx, &requested);
    assert_eq!(hints.caret_line, Some(4));
    assert_eq!(hints.method_start_line, Some(4));
    assert_eq!(hints.method_name.as_deref(), Some("Тест"));
    assert_eq!(hints.runtime_id.as_deref(), Some("runtime-1"));
    assert!(hints_contain_semantic_method_identity(&hints));
    assert!(!hints_contain_semantic_method_identity(&requested));
}

#[test]
fn hint_based_semantic_write_needs_method_scope_and_identity() {
    let hints = EditorMethodHints {
        caret_line: Some(4),
        method_start_line: Some(0),
        method_name: Some("СформироватьXML".to_string()),
        runtime_id: Some("runtime-1".to_string()),
    };
    let captured = "Функция СформироватьXML(УзелОбмена)\nКонецФункции\n";
    assert!(can_attempt_hint_based_bridge_semantic_write(
        Some(SemanticWriteIntent::InsertBeforeCurrentMethod),
        Some(captured),
        &hints
    ));
    assert!(!can_attempt_hint_based_bridge_semantic_write(
        Some(SemanticWriteIntent::ReplaceModule),
        Some(captured),
        &hints
    ));
    assert!(!can_attempt_hint_based_bridge_semantic_write(
        Some(SemanticWriteIntent::ReplaceCurrentMethod),
        Some("  "),
        &hints
    ));
    assert_eq!(
        captured_semantic_method_text(
            SemanticWriteIntent::InsertBeforeCurrentMethod,
            Some(captured),
            Some(&hints)
        ),
        Some(captured)
    );
    assert_eq!(
        captured_semantic_method_text(SemanticWriteIntent::ReplaceModule, Some(captured), Some(&hints)),
        None
    );
}

fn exchange_context(live_method: &str, module_text: String) -> EditorContext {
    EditorContext {
        available: true,
        conf_hwnd: 1,
        window_title: "test".to_string(),
        primary_runtime_id: Some("runtime-1".to_string()),
        has_selection: false,
        selection_text: String::new(),
        caret_line: 4,
        current_method_name: Some("СформироватьПакетОбмена".to_string()),
        method_start_line: Some(4),
        method_end_line: Some(6),
        current_method_text: Some(live_method.to_string()),
        module_text,
        capabilities: None,
    }
}

#[test]
fn bridge_target_prefers_captured_method_text_when_hints_preserve_method_identity() {
    let captured_method = "Функция СформироватьXML(УзелОбмена)\n    Возврат УзелОбмена;\nКонецФункции\n";
    let live_method = "Функция СформироватьПакетОбмена(УзелОбмена)\n    Возврат СформироватьXML(УзелОбмена);\nКонецФункции\n";
    let module_text = format!("{}\n{}", captured_method, live_method);
    let ctx = EditorContext {
        available: true,
        conf_hwnd: 1,
        window_title: "test".to_string(),
        primary_runtime_id: Some("runtime-1".to_string()),
        has_selection: false,
        selection_text: String::new(),
        caret_line: 4,
        current_method_name: Some("СформироватьПакетОбмена".to_string()),
        method_start_line: Some(4),
        method_end_line: Some(6),
        current_method_text: Some(live_method.to_string()),
        module_text,
        capabilities: None,
    };
    let hints = EditorMethodHints {
        caret_line: Some(4),
        method_start_line: Some(0),
        method_name: Some("СформироватьXML".to_string()),
        runtime_id: Some("runtime-1".to_string()),
    };

    let target = choose_bridge_paste_target(
        &ctx,
        Some(SemanticWriteIntent::InsertBeforeCurrentMethod),
        false,
        Some(captured_method),
        Some(&hints),
        None,
        "",
    )
    .expect("captured method should remain the semantic write target");

    match target {
        BridgePasteTarget::InsertBeforeCurrentMethod(text) => {
            assert_eq!(text, captured_method);
        }
        _ => panic!("expected insert_before_current_method target"),
    }
}

#[test]
fn bridge_target_without_hints_uses_the_live_method() {
    let live_method = "Процедура Тест()\nКонецПроцедуры\n";
    let ctx = exchange_context(live_method, live_method.to_string());
    match choose_bridge_paste_target(
        &ctx,
        Some(SemanticWriteIntent::ReplaceCurrentMethod),
        false,
        Some("Процедура Старая()\nКонецПроцедуры\n"),
        None,
        None,
        "",
    ) {
        Ok(BridgePasteTarget::CurrentMethod(text)) => assert_eq!(text, live_method),
        _ => panic!("expected current_method target"),
    }
}

#[test]
fn bridge_target_module_write_narrows_to_method_when_module_changed() {
    let live_method = "Процедура Тест()\nКонецПроцедуры\n";
    let ctx = exchange_context(live_method, format!("// шапка\n{}", live_method));
    match choose_bridge_paste_target(&ctx, Some(SemanticWriteIntent::ReplaceModule), false, Some("старый"), None, Some("aaa"), "bbb") {
        Ok(BridgePasteTarget::CurrentMethod(text)) => assert_eq!(text, live_method),
        _ => panic!("expected current_method target"),
    }
    match choose_bridge_paste_target(&ctx, Some(SemanticWriteIntent::ReplaceModule), true, Some("старый"), None, Some("aaa"), "bbb") {
        Ok(BridgePasteTarget::FullModule(text)) => assert_eq!(text, ctx.module_text),
        _ => panic!("expected full_module target"),
    }
    match choose_bridge_paste_target(&ctx, Some(SemanticWriteIntent::ReplaceModule), false, Some("старый"), None, Some("bbb"), "bbb") {
        Ok(BridgePasteTarget::FullModule(text)) => assert_eq!(text, ctx.module_text),
        _ => panic!("expected full_module target"),
    }
}

#[test]
fn bridge_target_refusals() {
    let ctx = exchange_context("Процедура Тест()\nКонецПроцедуры\n", String::new());
    assert_eq!(
        choose_bridge_paste_target(&ctx, None, false, None, None, None, "").err().unwrap(),
        "Для этого действия запись в редактор не требуется."
    );
    assert_eq!(
        choose_bridge_paste_target(&ctx, Some(SemanticWriteIntent::ReplaceSelection), false, None, None, None, "")
            .err()
            .unwrap(),
        "Выделение в редакторе 1С больше недоступно. Повторите действие, не меняя фокус."
    );
    let mut no_method = ctx.clone();
    no_method.current_method_text = None;
    assert_eq!(
        choose_bridge_paste_target(&no_method, Some(SemanticWriteIntent::InsertBeforeCurrentMethod), false, None, None, None, "")
            .err()
            .unwrap(),
        "Не удалось определить текущую процедуру для вставки описания."
    );
}
