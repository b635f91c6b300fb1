//! The quick-action overlay: its state, the window size each phase gets, and the state kept
//! for an overlay window that has not finished loading.
use vstd::prelude::*;

use crate::text::str_eq;

verus! {

/// What a quick action produced; drives the overlay's buttons and how the result is pasted.
#[derive(Debug, Clone, Copy, PartialEq, Eq, Structural)]
pub enum ActionResultType {
    /// A comment to insert before the method's first line.
    Comment,
    /// A SEARCH/REPLACE diff to apply through the diff viewer.
    Diff,
    /// An explanation to read; nothing is pasted.
    ExplainOnly,
}

/// Everything the overlay window shows.
#[derive(Debug, Clone)]
pub struct OverlayState {
    /// `menu`, `input`, `loading` or `result`.
    pub phase: String,
    /// `describe`, `elaborate`, `fix` or `explain`.
    pub action: Option<String>,
    pub result_type: Option<ActionResultType>,
    /// The first lines of the result.
    pub preview: Option<String>,
    /// Code to paste back into the Configurator.
    pub result_code: Option<String>,
    /// Raw SEARCH/REPLACE diff for the main diff viewer.
    pub diff_content: Option<String>,
    /// Configurator window to paste into.
    pub conf_hwnd: isize,
    /// Code captured when the action started, for conflict detection.
    pub original_code: Option<String>,
    /// Whether the whole module was captured.
    pub use_select_all: bool,
    pub write_intent: Option<String>,
    pub can_apply_directly: Option<bool>,
    pub apply_unavailable_reason: Option<String>,
    pub preferred_writer: Option<String>,
    pub caret_line: Option<i32>,
    pub method_start_line: Option<i32>,
    pub method_name: Option<String>,
    pub runtime_id: Option<String>,
    pub target_x: Option<i32>,
    pub target_y: Option<i32>,
    pub target_child_hwnd: Option<isize>,
}

/// Logical size of the overlay for a phase, before the page reports its own size.
pub open spec fn phase_size(phase: Seq<char>, result_type: Option<ActionResultType>) -> (u32, u32) {
    if phase == "menu"@ {
        (316, 420)
    } else if phase == "input"@ {
        (396, 320)
    } else if phase == "loading"@ {
        (404, 168)
    } else if phase == "result"@ {
        if result_type == Some(ActionResultType::ExplainOnly) {
            (548, 420)
        } else {
            (500, 430)
        }
    } else {
        (396, 320)
    }
}

/// Logical size of the overlay for a state.
pub fn fallback_window_size(state: &OverlayState) -> (r: (u32, u32))
    ensures
        r == phase_size(state.phase@, state.result_type),
{
    let phase = state.phase.as_str();
    if str_eq(phase, "menu") {
        (316, 420)
    } else if str_eq(phase, "input") {
        (396, 320)
    } else if str_eq(phase, "loading") {
        (404, 168)
    } else if str_eq(phase, "result") {
        match state.result_type {
            Some(ActionResultType::ExplainOnly) => (548, 420),
            _ => (500, 430),
        }
    } else {
        (396, 320)
    }
}

/// A size the page asked for, held within 280..=760 by 120..=560.
pub fn clamp_overlay_size(width: u32, height: u32) -> (r: (u32, u32))
    ensures
        r.0 == (if width < 280 {
            280
        } else if width > 760 {
            760
        } else {
            width
        }),
        r.1 == (if height < 120 {
            120
        } else if height > 560 {
            560
        } else {
            height
        }),
{
    let w = if width < 280 {
        280
    } else if width > 760 {
        760
    } else {
        width
    };
    let h = if height < 120 {
        120
    } else if height > 560 {
        560
    } else {
        height
    };
    (w, h)
}

/// The overlay page's readiness and the last state it should show.
#[derive(Debug, Clone)]
pub struct OverlayStateQueue {
    pub ready: bool,
    pub pending: Option<OverlayState>,
}

impl OverlayStateQueue {
    /// A page that has not loaded, with nothing to show.
    pub fn new() -> (q: Self)
        ensures
            !q.ready,
            q.pending is None,
    {
        OverlayStateQueue { ready: false, pending: None }
    }

    /// Keeps `state` as the one to show; returns whether it can be sent right away (the
    /// page has loaded).
    pub fn queue_overlay_state(&mut self, state: OverlayState) -> (send_now: bool)
        ensures
            final(self).pending == Some(state),
            final(self).ready == old(self).ready,
            send_now == old(self).ready,
    {
        self.pending = Some(state);
        self.ready
    }

    /// The page reports that it loaded; the kept state, if any, is to be sent now.
    pub fn mark_ready(&mut self) -> (to_send: Option<&OverlayState>)
        ensures
            final(self).ready,
            final(self).pending == old(self).pending,
            to_send == match final(self).pending {
                Some(s) => Some(&s),
                None => None,
            },
    {
        self.ready = true;
        match &self.pending {
            Some(s) => Some(s),
            None => None,
        }
    }

    /// The overlay was hidden: nothing is left to show.
    pub fn clear(&mut self)
        ensures
            final(self).pending is None,
            final(self).ready == old(self).ready,
    {
        self.pending = None;
    }
}

/// The state the page should show: what was kept last, cleared when the overlay is hidden.
pub fn get_pending_overlay_state(queue: &OverlayStateQueue) -> (r: Option<&OverlayState>)
    ensures
        r == match queue.pending {
            Some(s) => Some(&s),
            None => None,
        },
{
    match &queue.pending {
        Some(s) => Some(s),
        None => None,
    }
}

} // verus!
