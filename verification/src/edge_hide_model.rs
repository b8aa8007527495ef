//! The states edge hiding keeps per window, the commands it issues, and the
//! mathematical model of the controller with its well-formedness.

use vstd::prelude::*;
use crate::config::Edge;
use crate::entries::keys_unique;
use crate::geometry::{Rect, WindowHandle};

verus! {

/// What the edge-hide controller asks the platform to do with a window.
#[derive(Clone, Copy, Debug, PartialEq, Eq, Structural)]
pub enum EdgeHideCommand {
    /// Place the window at `rect`, past a screen edge, and keep it on top.
    Collapse { handle: WindowHandle, rect: Rect },
    /// Place the window at `rect` with the given topmost state.
    Restore { handle: WindowHandle, rect: Rect, topmost: bool },
}

/// What a live query of a window reports.
#[derive(Clone, Copy, Debug, PartialEq, Eq, Structural)]
pub enum EdgeHideLiveState {
    Visible(Rect),
    Minimized,
    Unavailable,
}

/// Mouse input that bears on edge hiding during one tick.
#[derive(Clone, Copy, Debug, PartialEq, Eq, Structural)]
pub struct EdgeHideInput {
    pub left_button_down: bool,
    pub right_button_pressed: bool,
    pub context_menu_dismissed: bool,
    pub suppress_foreground_restore: bool,
}

impl Default for EdgeHideInput {
    fn default() -> (r: Self)
        ensures
            !r.left_button_down,
            !r.right_button_pressed,
            !r.context_menu_dismissed,
            !r.suppress_foreground_restore,
    {
        EdgeHideInput {
            left_button_down: false,
            right_button_pressed: false,
            context_menu_dismissed: false,
            suppress_foreground_restore: false,
        }
    }
}

/// The life cycle of one window near a screen edge. Times are milliseconds
/// on the helper's monotonic clock.
#[derive(Clone, Copy, Debug, PartialEq, Eq, Structural)]
pub enum EdgeHideState {
    /// Resting near an edge, waiting for the collapse delay.
    Pending {
        edge: Edge,
        observed_rect: Rect,
        restore_rect: Rect,
        original_topmost: bool,
        since: u64,
    },
    /// A collapse command is out.
    Collapsing {
        edge: Edge,
        restore_rect: Rect,
        hidden_rect: Rect,
        original_topmost: bool,
        was_foreground: bool,
    },
    /// Hidden past the edge, showing only a strip.
    Collapsed {
        edge: Edge,
        restore_rect: Rect,
        hidden_rect: Rect,
        original_topmost: bool,
        was_foreground: bool,
    },
    /// A restore command is out.
    Expanding {
        edge: Edge,
        restore_rect: Rect,
        hidden_rect: Rect,
        original_topmost: bool,
        pointer_entered: bool,
    },
    /// Being moved to the edge of another display after the layout changed.
    Relocating {
        edge: Edge,
        restore_rect: Rect,
        hidden_rect: Rect,
        previous_restore_rect: Rect,
        previous_hidden_rect: Rect,
        original_topmost: bool,
        was_foreground: bool,
    },
    /// Shown again; collapses once the pointer has left for the restore delay.
    Expanded {
        edge: Edge,
        restore_rect: Rect,
        hidden_rect: Rect,
        original_topmost: bool,
        pointer_entered: bool,
        leave_since: Option<u64>,
    },
    /// A misplaced window being put back where it belongs.
    CleaningUp { rect: Rect, original_topmost: bool },
}

pub open spec fn command_handle(c: EdgeHideCommand) -> WindowHandle {
    match c {
        EdgeHideCommand::Collapse { handle, .. } => handle,
        EdgeHideCommand::Restore { handle, .. } => handle,
    }
}

/// Stored rectangles stay in the coordinate range: restore and observed
/// rectangles are screen rectangles, hidden ones may reach past the edge.
pub open spec fn state_ok(st: EdgeHideState) -> bool {
    match st {
        EdgeHideState::Pending { observed_rect, restore_rect, .. } => observed_rect.valid()
            && restore_rect.valid(),
        EdgeHideState::Collapsing { restore_rect, hidden_rect, .. } => restore_rect.valid()
            && hidden_rect.wide(),
        EdgeHideState::Collapsed { restore_rect, hidden_rect, .. } => restore_rect.valid()
            && hidden_rect.wide(),
        EdgeHideState::Expanding { restore_rect, hidden_rect, .. } => restore_rect.valid()
            && hidden_rect.wide(),
        EdgeHideState::Expanded { restore_rect, hidden_rect, .. } => restore_rect.valid()
            && hidden_rect.wide(),
        EdgeHideState::Relocating {
            restore_rect,
            hidden_rect,
            previous_restore_rect,
            previous_hidden_rect,
            ..
        } => restore_rect.valid() && hidden_rect.wide() && previous_restore_rect.valid()
            && previous_hidden_rect.wide(),
        EdgeHideState::CleaningUp { rect, .. } => rect.wide(),
    }
}

/// Commands carry rectangles within the reach of hidden windows.
pub open spec fn command_ok(c: EdgeHideCommand) -> bool {
    match c {
        EdgeHideCommand::Collapse { rect, .. } => rect.wide(),
        EdgeHideCommand::Restore { rect, .. } => rect.wide(),
    }
}

pub open spec fn live_ok(o: EdgeHideLiveState) -> bool {
    match o {
        EdgeHideLiveState::Visible(r) => r.wide(),
        _ => true,
    }
}

/// The controller's contents: the per-window states in their walking order,
/// the queue of pending restore commands, the retry deadlines of windows
/// whose last command did not take effect, and the window whose context menu
/// suspends collapsing.
#[verifier::ext_equal]
pub struct EdgeHideModel {
    pub states: Seq<(WindowHandle, EdgeHideState)>,
    pub queue: Seq<EdgeHideCommand>,
    pub retry: Seq<(WindowHandle, u64)>,
    pub guard: Option<WindowHandle>,
}

pub open spec fn states_ok(s: Seq<(WindowHandle, EdgeHideState)>) -> bool {
    forall|i: int| 0 <= i < s.len() ==> state_ok(#[trigger] s[i].1)
}

pub open spec fn queue_ok(q: Seq<EdgeHideCommand>) -> bool {
    forall|i: int| 0 <= i < q.len() ==> command_ok(#[trigger] q[i])
}

/// A state table: well-formed states, each window at most once, as in the
/// map it stands for.
pub open spec fn table_ok(s: Seq<(WindowHandle, EdgeHideState)>) -> bool {
    states_ok(s) && keys_unique(s)
}

/// The controller's tables hold each window at most once and hold
/// well-formed states and commands.
pub open spec fn model_wf(m: EdgeHideModel) -> bool {
    &&& table_ok(m.states)
    &&& queue_ok(m.queue)
    &&& keys_unique(m.retry)
}

} // verus!
