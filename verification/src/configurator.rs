//! Decisions about writing generated code into the 1C Configurator's editor: which apply
//! policy a quick action gets, which writer may be used, what a semantic write targets and
//! what the editor bridge reports about it.
use vstd::prelude::*;

use crate::models::EditorApplySupport;
use crate::text::{str_eq, trim, trim_str};

verus! {

/// Quick actions offered on the selected code.
#[derive(Debug, Clone, Copy, PartialEq, Eq, Structural)]
pub enum QuickActionKind {
    Fix,
    Elaborate,
    Describe,
}

/// What a write into the editor replaces or where it inserts.
#[derive(Debug, Clone, Copy, PartialEq, Eq, Structural)]
pub enum SemanticWriteIntent {
    ReplaceSelection,
    ReplaceCurrentMethod,
    InsertBeforeCurrentMethod,
    ReplaceModule,
}

/// Stable name of a write intent.
pub open spec fn intent_name(i: SemanticWriteIntent) -> Seq<char> {
    match i {
        SemanticWriteIntent::ReplaceSelection => "replace_selection"@,
        SemanticWriteIntent::ReplaceCurrentMethod => "replace_current_method"@,
        SemanticWriteIntent::InsertBeforeCurrentMethod => "insert_before_current_method"@,
        SemanticWriteIntent::ReplaceModule => "replace_module"@,
    }
}

impl SemanticWriteIntent {
    /// Stable name of the intent.
    pub fn as_str(&self) -> (s: &'static str)
        ensures
            s@ == intent_name(*self),
    {
        match self {
            SemanticWriteIntent::ReplaceSelection => "replace_selection",
            SemanticWriteIntent::ReplaceCurrentMethod => "replace_current_method",
            SemanticWriteIntent::InsertBeforeCurrentMethod => "insert_before_current_method",
            SemanticWriteIntent::ReplaceModule => "replace_module",
        }
    }
}

/// Name of the write target (`SemanticWriteIntent::as_str`, owned).
pub fn semantic_target_name(intent: SemanticWriteIntent) -> (s: String)
    ensures
        s@ == intent_name(intent),
{
    intent.as_str().to_owned()
}

/// A write intent that works on the current method.
pub open spec fn method_scoped(i: SemanticWriteIntent) -> bool {
    i == SemanticWriteIntent::ReplaceCurrentMethod || i == SemanticWriteIntent::InsertBeforeCurrentMethod
}

// ───────────────────────────── policies ─────────────────────────────

/// How a quick action's result is applied.
#[derive(Debug, Clone, Copy, PartialEq, Eq, Structural)]
pub enum QuickActionApplyPolicy {
    Default,
    ForceSemantic,
    ForceLegacy,
}

/// A plain apply keeps the default; a quick action or explicit intent goes through the
/// editor bridge when it is enabled and through the legacy writer otherwise.
pub fn resolve_quick_action_apply_policy(
    editor_bridge_enabled: bool,
    requested_action: Option<QuickActionKind>,
    requested_intent: Option<SemanticWriteIntent>,
) -> (p: QuickActionApplyPolicy)
    ensures
        p == (if requested_action is None && requested_intent is None {
            QuickActionApplyPolicy::Default
        } else if editor_bridge_enabled {
            QuickActionApplyPolicy::ForceSemantic
        } else {
            QuickActionApplyPolicy::ForceLegacy
        }),
{
    if requested_action.is_none() && requested_intent.is_none() {
        return QuickActionApplyPolicy::Default;
    }
    if editor_bridge_enabled {
        QuickActionApplyPolicy::ForceSemantic
    } else {
        QuickActionApplyPolicy::ForceLegacy
    }
}

/// The Scintilla writer may be tried unless legacy apply is forced by the caller or the
/// policy.
pub fn should_try_scintilla_fallback(
    force_legacy_apply: bool,
    quick_action_apply_policy: QuickActionApplyPolicy,
) -> (b: bool)
    ensures
        b == (!force_legacy_apply && quick_action_apply_policy != QuickActionApplyPolicy::ForceLegacy),
{
    !force_legacy_apply && match quick_action_apply_policy {
        QuickActionApplyPolicy::ForceLegacy => false,
        _ => true,
    }
}

/// A clipboard capture of the selection that came back blank is retried on the whole
/// module (unless the whole module was asked for already).
pub fn should_retry_clipboard_capture_as_full_module(select_all: bool, captured_text: &str) -> (b:
    bool)
    ensures
        b == (!select_all && trim(captured_text@).len() == 0),
{
    !select_all && crate::text::is_blank(captured_text)
}

// ───────────────────────────── apply support ─────────────────────────────

/// Direct apply is not possible; the user reviews a diff instead.
pub fn direct_apply_unavailable(reason: String, target_kind: Option<String>) -> (s:
    EditorApplySupport)
    ensures
        !s.can_apply_directly,
        s.preferred_writer@ == "diff_only"@,
        s.target_kind == target_kind,
        s.reason == Some(reason),
{
    EditorApplySupport {
        can_apply_directly: false,
        preferred_writer: "diff_only".to_owned(),
        target_kind,
        reason: Some(reason),
    }
}

/// Why the legacy clipboard writer is not used for method-scoped actions.
pub open spec fn legacy_method_reason() -> Seq<char> {
    "Legacy clipboard apply for method-scoped actions is disabled: without semantic writer it rewrites the whole module. Open the diff or enable EditorBridge."@
}

/// A target that only a semantic writer can handle safely.
pub open spec fn is_method_target(t: Option<String>) -> bool {
    t matches Some(k) && (k@ == "replace_current_method"@ || k@ == "insert_before_current_method"@)
}

/// Direct apply with `writer`, except that the legacy clipboard writer is refused for
/// method-scoped targets (it would rewrite the whole module).
pub fn direct_apply_available(writer: &str, target_kind: Option<String>) -> (s: EditorApplySupport)
    ensures
        if writer@ == "legacy_clipboard"@ && is_method_target(target_kind) {
            &&& !s.can_apply_directly
            &&& s.preferred_writer@ == "diff_only"@
            &&& s.target_kind == target_kind
            &&& s.reason matches Some(r) && r@ == legacy_method_reason()
        } else {
            &&& s.can_apply_directly
            &&& s.preferred_writer@ == writer@
            &&& s.target_kind == target_kind
            &&& s.reason is None
        },
{
    let method_target = match &target_kind {
        Some(k) => str_eq(k.as_str(), "replace_current_method") || str_eq(
            k.as_str(),
            "insert_before_current_method",
        ),
        None => false,
    };
    if str_eq(writer, "legacy_clipboard") && method_target {
        return direct_apply_unavailable(
            "Legacy clipboard apply for method-scoped actions is disabled: without semantic writer it rewrites the whole module. Open the diff or enable EditorBridge.".to_owned(),
            target_kind,
        );
    }
    EditorApplySupport {
        can_apply_directly: true,
        preferred_writer: writer.to_owned(),
        target_kind,
        reason: None,
    }
}

/// What the legacy clipboard writer can do for an intent: nothing for method-scoped
/// intents, a direct apply for the others, nothing to write without an intent.
pub fn legacy_apply_support_for_intent(intent: Option<SemanticWriteIntent>) -> (s:
    EditorApplySupport)
    ensures
        match intent {
            Some(i) => if method_scoped(i) {
                &&& !s.can_apply_directly
                &&& s.preferred_writer@ == "diff_only"@
                &&& s.target_kind matches Some(k) && k@ == intent_name(i)
                &&& s.reason matches Some(r) && r@ == legacy_method_reason()
            } else {
                &&& s.can_apply_directly
                &&& s.preferred_writer@ == "legacy_clipboard"@
                &&& s.target_kind matches Some(k) && k@ == intent_name(i)
                &&& s.reason is None
            },
            None => {
                &&& !s.can_apply_directly
                &&& s.preferred_writer@ == "diff_only"@
                &&& s.target_kind is None
                &&& s.reason matches Some(r) && r@
                    == "Для этого действия запись в редактор не требуется."@
            },
        },
{
    proof {
        reveal_strlit("replace_current_method");
        reveal_strlit("insert_before_current_method");
        reveal_strlit("replace_selection");
        reveal_strlit("replace_module");
        reveal_strlit("legacy_clipboard");
    }
    match intent {
        Some(i) => {
            match i {
                SemanticWriteIntent::ReplaceCurrentMethod
                | SemanticWriteIntent::InsertBeforeCurrentMethod => direct_apply_unavailable(
                    "Legacy clipboard apply for method-scoped actions is disabled: without semantic writer it rewrites the whole module. Open the diff or enable EditorBridge.".to_owned(),
                    Some(semantic_target_name(i)),
                ),
                _ => {
                    let name = semantic_target_name(i);
                    assert(name@.len() != "replace_current_method"@.len());
                    assert(name@.len() != "insert_before_current_method"@.len());
                    direct_apply_available("legacy_clipboard", Some(name))
                },
            }
        },
        None => direct_apply_unavailable(
            "Для этого действия запись в редактор не требуется.".to_owned(),
            None,
        ),
    }
}

// ───────────────────────────── editor bridge ─────────────────────────────

/// What the editor bridge can do in the current editor.
#[derive(Debug, Clone)]
pub struct EditorCapabilities {
    pub can_replace_module: bool,
    pub can_replace_selection: bool,
    pub can_replace_current_method: bool,
    pub can_insert_before_method: bool,
    pub write_mode: String,
    pub diagnostic_message: String,
}

/// The editor state reported by the bridge.
#[derive(Debug, Clone)]
pub struct EditorContext {
    pub available: bool,
    pub conf_hwnd: isize,
    pub window_title: String,
    pub primary_runtime_id: Option<String>,
    pub has_selection: bool,
    pub selection_text: String,
    pub caret_line: i64,
    pub current_method_name: Option<String>,
    pub method_start_line: Option<i64>,
    pub method_end_line: Option<i64>,
    pub current_method_text: Option<String>,
    pub module_text: String,
    pub capabilities: Option<EditorCapabilities>,
}

/// Where a method-scoped write should land, as far as the caller knows it.
#[derive(Debug, Clone)]
pub struct EditorMethodHints {
    pub caret_line: Option<i64>,
    pub method_start_line: Option<i64>,
    pub method_name: Option<String>,
    pub runtime_id: Option<String>,
}

/// Part of the editor a bridge write replaces.
#[derive(Debug, Clone)]
pub enum BridgePasteTarget {
    FullModule(String),
    Selection(String),
    CurrentMethod(String),
    InsertBeforeCurrentMethod(String),
}

/// Name of a paste target.
pub open spec fn target_name(t: BridgePasteTarget) -> Seq<char> {
    match t {
        BridgePasteTarget::FullModule(_) => "full_module"@,
        BridgePasteTarget::Selection(_) => "selection"@,
        BridgePasteTarget::CurrentMethod(_) => "current_method"@,
        BridgePasteTarget::InsertBeforeCurrentMethod(_) => "insert_before_current_method"@,
    }
}

/// Name of a paste target.
pub fn bridge_paste_target_name(target: &BridgePasteTarget) -> (s: &'static str)
    ensures
        s@ == target_name(*target),
{
    match target {
        BridgePasteTarget::FullModule(_) => "full_module",
        BridgePasteTarget::Selection(_) => "selection",
        BridgePasteTarget::CurrentMethod(_) => "current_method",
        BridgePasteTarget::InsertBeforeCurrentMethod(_) => "insert_before_current_method",
    }
}

/// Whether the bridge can write the target; with no capability report everything is
/// allowed.
pub fn bridge_supports_target(ctx: &EditorContext, target: &BridgePasteTarget) -> (b: bool)
    ensures
        b == match ctx.capabilities {
            None => true,
            Some(c) => match *target {
                BridgePasteTarget::FullModule(_) => c.can_replace_module,
                BridgePasteTarget::Selection(_) => c.can_replace_selection,
                BridgePasteTarget::CurrentMethod(_) => c.can_replace_current_method,
                BridgePasteTarget::InsertBeforeCurrentMethod(_) => c.can_insert_before_method,
            },
        },
{
    match &ctx.capabilities {
        None => true,
        Some(c) => match target {
            BridgePasteTarget::FullModule(_) => c.can_replace_module,
            BridgePasteTarget::Selection(_) => c.can_replace_selection,
            BridgePasteTarget::CurrentMethod(_) => c.can_replace_current_method,
            BridgePasteTarget::InsertBeforeCurrentMethod(_) => c.can_insert_before_method,
        },
    }
}

/// The bridge's own explanation of its capabilities, trimmed, when it gave a non-blank one.
pub fn bridge_capability_reason(ctx: &EditorContext) -> (r: Option<String>)
    ensures
        match ctx.capabilities {
            Some(c) => if trim(c.diagnostic_message@).len() > 0 {
                r matches Some(s) && s@ == trim(c.diagnostic_message@)
            } else {
                r is None
            },
            None => r is None,
        },
{
    match &ctx.capabilities {
        Some(c) => {
            let t = trim_str(c.diagnostic_message.as_str());
            if t.as_str().is_empty() {
                None
            } else {
                Some(t)
            }
        },
        None => None,
    }
}

/// The editor reports a current method with some non-blank text.
pub open spec fn has_current_method(ctx: EditorContext) -> bool {
    ctx.current_method_text matches Some(t) && trim(t@).len() > 0
}

/// Whether the editor reports a current method with some non-blank text.
pub fn editor_context_has_current_method(ctx: &EditorContext) -> (b: bool)
    ensures
        b == has_current_method(*ctx),
{
    match &ctx.current_method_text {
        Some(t) => !crate::text::is_blank(t.as_str()),
        None => false,
    }
}

/// Hints fill their gaps from the editor's context: caret line, method start, method name
/// and runtime id.
pub fn bridge_method_hints_with_fallback(ctx: &EditorContext, requested: &EditorMethodHints) -> (h:
    EditorMethodHints)
    ensures
        h.caret_line == (match requested.caret_line {
            Some(v) => Some(v),
            None => Some(ctx.caret_line),
        }),
        h.method_start_line == (match requested.method_start_line {
            Some(v) => Some(v),
            None => ctx.method_start_line,
        }),
        h.method_name == (match requested.method_name {
            Some(v) => Some(v),
            None => ctx.current_method_name,
        }),
        h.runtime_id == (match requested.runtime_id {
            Some(v) => Some(v),
            None => ctx.primary_runtime_id,
        }),
{
    EditorMethodHints {
        caret_line: match requested.caret_line {
            Some(v) => Some(v),
            None => Some(ctx.caret_line),
        },
        method_start_line: match requested.method_start_line {
            Some(v) => Some(v),
            None => ctx.method_start_line,
        },
        method_name: match &requested.method_name {
            Some(v) => Some(v.clone()),
            None => match &ctx.current_method_name {
                Some(v) => Some(v.clone()),
                None => None,
            },
        },
        runtime_id: match &requested.runtime_id {
            Some(v) => Some(v.clone()),
            None => match &ctx.primary_runtime_id {
                Some(v) => Some(v.clone()),
                None => None,
            },
        },
    }
}

/// Hints identify a method: a start line, a caret line or a non-blank method name.
pub open spec fn identifies_method(h: EditorMethodHints) -> bool {
    h.method_start_line is Some || h.caret_line is Some || (h.method_name matches Some(n) && trim(
        n@,
    ).len() > 0)
}

/// Whether the hints identify a method.
pub fn hints_contain_semantic_method_identity(hints: &EditorMethodHints) -> (b: bool)
    ensures
        b == identifies_method(*hints),
{
    hints.method_start_line.is_some() || hints.caret_line.is_some() || match &hints.method_name {
        Some(n) => !crate::text::is_blank(n.as_str()),
        None => false,
    }
}

/// A method-scoped write can be made from hints alone: a method-scoped intent, captured
/// method text that is not blank, and hints that identify the method.
pub fn can_attempt_hint_based_bridge_semantic_write(
    intent: Option<SemanticWriteIntent>,
    original_content: Option<&str>,
    hints: &EditorMethodHints,
) -> (b: bool)
    ensures
        b == ((intent matches Some(i) && method_scoped(i)) && (original_content matches Some(c)
            && trim(c@).len() > 0) && identifies_method(*hints)),
{
    let scoped = match intent {
        Some(SemanticWriteIntent::ReplaceCurrentMethod)
        | Some(SemanticWriteIntent::InsertBeforeCurrentMethod) => true,
        _ => false,
    };
    scoped && match original_content {
        Some(c) => !crate::text::is_blank(c),
        None => false,
    } && hints_contain_semantic_method_identity(hints)
}

/// The captured method text that a method-scoped write should target: used only when it
/// is not blank and hints identify the method.
pub fn captured_semantic_method_text<'a>(
    intent: SemanticWriteIntent,
    original_content: Option<&'a str>,
    hints: Option<&EditorMethodHints>,
) -> (r: Option<&'a str>)
    ensures
        r == (if method_scoped(intent) && (original_content matches Some(c) && trim(c@).len() > 0)
            && (hints matches Some(h) && identifies_method(*h)) {
            original_content
        } else {
            None
        }),
{
    match intent {
        SemanticWriteIntent::ReplaceCurrentMethod | SemanticWriteIntent::InsertBeforeCurrentMethod => {
        },
        _ => return None,
    }
    let captured = match original_content {
        Some(c) => if crate::text::is_blank(c) {
            return None;
        } else {
            c
        },
        None => return None,
    };
    let h = match hints {
        Some(h) => h,
        None => return None,
    };
    if hints_contain_semantic_method_identity(h) {
        Some(captured)
    } else {
        None
    }
}


/// The text a paste target holds.
pub open spec fn target_text(t: BridgePasteTarget) -> Seq<char> {
    match t {
        BridgePasteTarget::FullModule(s) => s@,
        BridgePasteTarget::Selection(s) => s@,
        BridgePasteTarget::CurrentMethod(s) => s@,
        BridgePasteTarget::InsertBeforeCurrentMethod(s) => s@,
    }
}

/// An optional text by its view.
pub open spec fn opt_str_view(o: Option<&str>) -> Option<Seq<char>> {
    match o {
        Some(s) => Some(s@),
        None => None,
    }
}

/// The method text a method-scoped write targets: the captured content where it is not blank
/// and the hints identify its method, else the editor's current method, else the captured
/// content.
pub open spec fn method_write_text(
    ctx: EditorContext,
    intent: SemanticWriteIntent,
    original: Option<Seq<char>>,
    hints: Option<EditorMethodHints>,
) -> Option<Seq<char>> {
    if method_scoped(intent) && (original matches Some(c) && trim(c).len() > 0) && (hints matches Some(h)
        && identifies_method(h)) {
        original
    } else {
        match ctx.current_method_text {
            Some(t) => Some(t@),
            None => original,
        }
    }
}

/// The method text for a method-scoped write, as `method_write_text` chooses it.
fn method_text_for_write(
    ctx: &EditorContext,
    intent: SemanticWriteIntent,
    original_content: Option<&str>,
    hints: Option<&EditorMethodHints>,
) -> (r: Option<String>)
    ensures
        opt_string_view(r) == method_write_text(
            *ctx,
            intent,
            opt_str_view(original_content),
            match hints {
                Some(h) => Some(*h),
                None => None,
            },
        ),
{
    match captured_semantic_method_text(intent, original_content, hints) {
        Some(c) => return Some(c.to_owned()),
        None => {},
    }
    match &ctx.current_method_text {
        Some(t) => Some(t.clone()),
        None => match original_content {
            Some(c) => Some(c.to_owned()),
            None => None,
        },
    }
}

/// An optional owned text by its view.
pub open spec fn opt_string_view(o: Option<String>) -> Option<Seq<char>> {
    match o {
        Some(s) => Some(s@),
        None => None,
    }
}

/// Where a bridge write of a quick action's result lands, for the write intent resolved for
/// the request (`None` when the action writes nothing): the live selection; the current
/// method, or the point before it, by `method_write_text`; or the whole module. A module
/// write goes to the current method instead when the editor has one, the caller did not ask
/// for the whole module (`select_all`), and the module no longer hashes as the captured
/// content did (`original_hash` is that content's hash, `module_hash` the module's).
pub fn choose_bridge_paste_target(
    ctx: &EditorContext,
    resolved_intent: Option<SemanticWriteIntent>,
    select_all: bool,
    original_content: Option<&str>,
    captured_method_hints: Option<&EditorMethodHints>,
    original_hash: Option<&str>,
    module_hash: &str,
) -> (r: Result<BridgePasteTarget, String>)
    ensures
        match resolved_intent {
            None => r matches Err(e) && e@ == "Для этого действия запись в редактор не требуется."@,
            Some(intent) => {
                let method = method_write_text(
                    *ctx,
                    intent,
                    opt_str_view(original_content),
                    match captured_method_hints {
                        Some(h) => Some(*h),
                        None => None,
                    },
                );
                match intent {
                    SemanticWriteIntent::ReplaceSelection => if ctx.has_selection {
                        r matches Ok(t) && t is Selection && target_text(t) == ctx.selection_text@
                    } else {
                        r matches Err(e) && e@
                            == "Выделение в редакторе 1С больше недоступно. Повторите действие, не меняя фокус."@
                    },
                    SemanticWriteIntent::ReplaceCurrentMethod => match method {
                        Some(m) => r matches Ok(t) && t is CurrentMethod && target_text(t) == m,
                        None => r matches Err(e) && e@ == "Не удалось определить текущую процедуру или функцию."@,
                    },
                    SemanticWriteIntent::InsertBeforeCurrentMethod => match method {
                        Some(m) => r matches Ok(t) && t is InsertBeforeCurrentMethod && target_text(t) == m,
                        None => r matches Err(e) && e@
                            == "Не удалось определить текущую процедуру для вставки описания."@,
                    },
                    SemanticWriteIntent::ReplaceModule => if (original_hash matches Some(h) && h@ != module_hash@)
                        && !select_all && has_current_method(*ctx) {
                        r matches Ok(t) && t is CurrentMethod && Some(target_text(t)) == opt_string_view(
                            ctx.current_method_text,
                        )
                    } else {
                        r matches Ok(t) && t is FullModule && target_text(t) == ctx.module_text@
                    },
                }
            },
        },
{
    let intent = match resolved_intent {
        None => return Err("Для этого действия запись в редактор не требуется.".to_owned()),
        Some(i) => i,
    };
    match intent {
        SemanticWriteIntent::ReplaceSelection => if ctx.has_selection {
            Ok(BridgePasteTarget::Selection(ctx.selection_text.clone()))
        } else {
            Err("Выделение в редакторе 1С больше недоступно. Повторите действие, не меняя фокус.".to_owned())
        },
        SemanticWriteIntent::ReplaceCurrentMethod => match method_text_for_write(
            ctx,
            intent,
            original_content,
            captured_method_hints,
        ) {
            Some(m) => Ok(BridgePasteTarget::CurrentMethod(m)),
            None => Err("Не удалось определить текущую процедуру или функцию.".to_owned()),
        },
        SemanticWriteIntent::InsertBeforeCurrentMethod => match method_text_for_write(
            ctx,
            intent,
            original_content,
            captured_method_hints,
        ) {
            Some(m) => Ok(BridgePasteTarget::InsertBeforeCurrentMethod(m)),
            None => Err("Не удалось определить текущую процедуру для вставки описания.".to_owned()),
        },
        SemanticWriteIntent::ReplaceModule => {
            let changed = match original_hash {
                Some(h) => !str_eq(h, module_hash),
                None => false,
            };
            if changed && !select_all && editor_context_has_current_method(ctx) {
                match &ctx.current_method_text {
                    Some(t) => Ok(BridgePasteTarget::CurrentMethod(t.clone())),
                    None => Err("Не удалось определить текущую процедуру или функцию.".to_owned()),
                }
            } else {
                Ok(BridgePasteTarget::FullModule(ctx.module_text.clone()))
            }
        },
    }
}

// ───────────────────────────── write verification ─────────────────────────────

/// Whether a bridge write took effect, judged by content hashes: a full module must now
/// hash to the written code; a current method must, or else the module must have changed;
/// a selection or an insertion must have changed the module.
pub open spec fn write_verified(
    target: BridgePasteTarget,
    before_module_hash: Seq<char>,
    expected_hash: Seq<char>,
    after_module_hash: Seq<char>,
    after_method_hash: Option<Seq<char>>,
) -> bool {
    match target {
        BridgePasteTarget::FullModule(_) => after_module_hash == expected_hash,
        BridgePasteTarget::Selection(_) => after_module_hash != before_module_hash,
        BridgePasteTarget::CurrentMethod(_) => after_method_hash == Some(expected_hash)
            || after_module_hash != before_module_hash,
        BridgePasteTarget::InsertBeforeCurrentMethod(_) => after_module_hash != before_module_hash,
    }
}

/// Checks a bridge write against the editor's content hashes after it.
pub fn bridge_verification_matches(
    target: &BridgePasteTarget,
    before_module_hash: &str,
    expected_hash: &str,
    after_module_hash: &str,
    after_method_hash: Option<&str>,
) -> (b: bool)
    ensures
        b == write_verified(*target, before_module_hash@, expected_hash@, after_module_hash@, match after_method_hash {
            Some(h) => Some(h@),
            None => None,
        }),
{
    match target {
        BridgePasteTarget::FullModule(_) => str_eq(after_module_hash, expected_hash),
        BridgePasteTarget::Selection(_) => !str_eq(after_module_hash, before_module_hash),
        BridgePasteTarget::CurrentMethod(_) => {
            let method_matches = match after_method_hash {
                Some(h) => str_eq(h, expected_hash),
                None => false,
            };
            method_matches || !str_eq(after_module_hash, before_module_hash)
        },
        BridgePasteTarget::InsertBeforeCurrentMethod(_) => !str_eq(after_module_hash, before_module_hash),
    }
}

/// The answer when the code in the Configurator changed since it was read.
pub open spec fn conflict_message() -> Seq<char> {
    "CONFLICT: Код в Конфигураторе был изменён с момента последнего чтения. Получите код заново перед применением."@
}

/// Refuses a write when the code read before (given by its hash) is not what the editor holds
/// now; without an earlier read there is nothing to compare.
pub fn ensure_content_not_changed(original_hash: Option<&str>, current_hash: &str) -> (r: Result<(), String>)
    ensures
        match original_hash {
            Some(h) => if h@ == current_hash@ {
                r is Ok
            } else {
                r matches Err(e) && e@ == conflict_message()
            },
            None => r is Ok,
        },
{
    match original_hash {
        Some(h) => if str_eq(h, current_hash) {
            Ok(())
        } else {
            Err(
                "CONFLICT: Код в Конфигураторе был изменён с момента последнего чтения. Получите код заново перед применением.".to_owned(),
            )
        },
        None => Ok(()),
    }
}

} // verus!
