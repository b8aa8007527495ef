//! What each edge-hide operation does to the controller's model.

use vstd::prelude::*;
use crate::config::{Edge, EdgeHideConfig};
use crate::edge_hide_geometry::{
    detect_window_edge_spec, edge_preview_spec, edge_restore_monitor_spec, exposed_monitor_spec,
    hidden_rect_spec, monitor_for_rect_spec, restore_rect_spec, roughly_equal_spec,
    strip_rect_spec,
};
use crate::edge_hide_model::{EdgeHideCommand, EdgeHideLiveState, EdgeHideModel, EdgeHideState};
use crate::entries::{erase, has_key, lookup, upsert};
use crate::geometry::{Monitor, Point, Rect, WindowHandle, WindowInfo};
use crate::window_rules::candidate_spec;

verus! {

pub const RELOCATION_RETRY_DELAY_MS: u64 = 1000;

/// A live query confirms that the window sits at `rect`.
pub open spec fn live_matches_spec(rect: Rect, o: EdgeHideLiveState) -> bool {
    match o {
        EdgeHideLiveState::Visible(actual) => roughly_equal_spec(actual, rect),
        _ => false,
    }
}

pub open spec fn empty_model() -> EdgeHideModel {
    EdgeHideModel { states: Seq::empty(), queue: Seq::empty(), retry: Seq::empty(), guard: None }
}

pub open spec fn with_states(m: EdgeHideModel, s: Seq<(WindowHandle, EdgeHideState)>) -> EdgeHideModel {
    EdgeHideModel { states: s, ..m }
}

pub open spec fn with_retry(m: EdgeHideModel, r: Seq<(WindowHandle, u64)>) -> EdgeHideModel {
    EdgeHideModel { retry: r, ..m }
}

/// The retry deadlines still in the future at `now`.
pub open spec fn retry_alive(r: Seq<(WindowHandle, u64)>, now: u64) -> Seq<(WindowHandle, u64)>
    decreases r.len(),
{
    if r.len() == 0 {
        r
    } else {
        let p = retry_alive(r.drop_last(), now);
        if now < r.last().1 {
            p.push(r.last())
        } else {
            p
        }
    }
}

/// The restore command that undoes a window's state; none for a window that
/// was only waiting.
pub open spec fn restore_command_of(h: WindowHandle, st: EdgeHideState) -> Option<EdgeHideCommand> {
    match st {
        EdgeHideState::Pending { .. } => None,
        EdgeHideState::Collapsing { restore_rect, original_topmost, .. } => Some(
            EdgeHideCommand::Restore { handle: h, rect: restore_rect, topmost: original_topmost },
        ),
        EdgeHideState::Collapsed { restore_rect, original_topmost, .. } => Some(
            EdgeHideCommand::Restore { handle: h, rect: restore_rect, topmost: original_topmost },
        ),
        EdgeHideState::Expanding { restore_rect, original_topmost, .. } => Some(
            EdgeHideCommand::Restore { handle: h, rect: restore_rect, topmost: original_topmost },
        ),
        EdgeHideState::Expanded { restore_rect, original_topmost, .. } => Some(
            EdgeHideCommand::Restore { handle: h, rect: restore_rect, topmost: original_topmost },
        ),
        EdgeHideState::Relocating { restore_rect, original_topmost, .. } => Some(
            EdgeHideCommand::Restore { handle: h, rect: restore_rect, topmost: original_topmost },
        ),
        EdgeHideState::CleaningUp { rect, original_topmost } => Some(
            EdgeHideCommand::Restore { handle: h, rect, topmost: original_topmost },
        ),
    }
}

pub open spec fn restore_commands(s: Seq<(WindowHandle, EdgeHideState)>) -> Seq<EdgeHideCommand>
    decreases s.len(),
{
    if s.len() == 0 {
        Seq::empty()
    } else {
        let p = restore_commands(s.drop_last());
        match restore_command_of(s.last().0, s.last().1) {
            Some(c) => p.push(c),
            None => p,
        }
    }
}

/// Every tracked window gets a restore command and is forgotten.
pub open spec fn queue_restore_all_spec(m: EdgeHideModel) -> EdgeHideModel {
    EdgeHideModel {
        states: Seq::empty(),
        queue: m.queue + restore_commands(m.states),
        retry: Seq::empty(),
        guard: m.guard,
    }
}

pub open spec fn pop_spec(m: EdgeHideModel) -> (EdgeHideModel, Option<EdgeHideCommand>) {
    if m.queue.len() > 0 {
        (EdgeHideModel { queue: m.queue.drop_first(), ..m }, Some(m.queue[0]))
    } else {
        (m, None)
    }
}

pub open spec fn restore_if_needed_spec(m: EdgeHideModel) -> (EdgeHideModel, Option<EdgeHideCommand>) {
    pop_spec(if m.queue.len() == 0 { queue_restore_all_spec(m) } else { m })
}

pub open spec fn disable_spec(m: EdgeHideModel) -> (EdgeHideModel, Option<EdgeHideCommand>) {
    restore_if_needed_spec(EdgeHideModel { guard: None, ..m })
}

/// The edge and geometry of a state that has them.
pub open spec fn placement_of(st: EdgeHideState) -> Option<(Edge, Rect, Rect)> {
    match st {
        EdgeHideState::Collapsing { edge, restore_rect, hidden_rect, .. } => Some(
            (edge, restore_rect, hidden_rect),
        ),
        EdgeHideState::Collapsed { edge, restore_rect, hidden_rect, .. } => Some(
            (edge, restore_rect, hidden_rect),
        ),
        EdgeHideState::Expanding { edge, restore_rect, hidden_rect, .. } => Some(
            (edge, restore_rect, hidden_rect),
        ),
        EdgeHideState::Expanded { edge, restore_rect, hidden_rect, .. } => Some(
            (edge, restore_rect, hidden_rect),
        ),
        EdgeHideState::Relocating { edge, restore_rect, hidden_rect, .. } => Some(
            (edge, restore_rect, hidden_rect),
        ),
        _ => None,
    }
}

/// The state with its restore and hidden rectangles replaced.
pub open spec fn with_placement(st: EdgeHideState, restore: Rect, hidden: Rect) -> EdgeHideState {
    match st {
        EdgeHideState::Collapsing { edge, original_topmost, was_foreground, .. } =>
            EdgeHideState::Collapsing {
            edge,
            restore_rect: restore,
            hidden_rect: hidden,
            original_topmost,
            was_foreground,
        },
        EdgeHideState::Collapsed { edge, original_topmost, was_foreground, .. } =>
            EdgeHideState::Collapsed {
            edge,
            restore_rect: restore,
            hidden_rect: hidden,
            original_topmost,
            was_foreground,
        },
        EdgeHideState::Expanding { edge, original_topmost, pointer_entered, .. } =>
            EdgeHideState::Expanding {
            edge,
            restore_rect: restore,
            hidden_rect: hidden,
            original_topmost,
            pointer_entered,
        },
        EdgeHideState::Expanded { edge, original_topmost, pointer_entered, leave_since, .. } =>
            EdgeHideState::Expanded {
            edge,
            restore_rect: restore,
            hidden_rect: hidden,
            original_topmost,
            pointer_entered,
            leave_since,
        },
        EdgeHideState::Relocating {
            edge,
            previous_restore_rect,
            previous_hidden_rect,
            original_topmost,
            was_foreground,
            ..
        } => EdgeHideState::Relocating {
            edge,
            restore_rect: restore,
            hidden_rect: hidden,
            previous_restore_rect,
            previous_hidden_rect,
            original_topmost,
            was_foreground,
        },
        _ => st,
    }
}

/// Re-fits a placed state to the work area of `monitor`.
pub open spec fn refit_spec(st: EdgeHideState, edge: Edge, restore: Rect, monitor: Monitor, strip_size: i32) -> EdgeHideState {
    let adjusted = restore_rect_spec(restore, monitor.work_area);
    with_placement(st, adjusted, hidden_rect_spec(adjusted, monitor.work_area, edge, strip_size))
}

/// Before a batch restore every placed window is re-fitted to the monitor its
/// restore rectangle belongs to now.
pub open spec fn refit_for_restore(st: EdgeHideState, monitors: Seq<Monitor>, strip_size: i32) -> EdgeHideState {
    match placement_of(st) {
        Some((edge, restore, _)) => match monitor_for_rect_spec(restore, monitors) {
            Some(i) => refit_spec(st, edge, restore, monitors[i], strip_size),
            None => st,
        },
        None => st,
    }
}

pub open spec fn reconcile_for_restore_spec(
    s: Seq<(WindowHandle, EdgeHideState)>,
    monitors: Seq<Monitor>,
    strip_size: i32,
) -> Seq<(WindowHandle, EdgeHideState)> {
    s.map_values(|e: (WindowHandle, EdgeHideState)| (e.0, refit_for_restore(e.1, monitors, strip_size)))
}

pub open spec fn prepare_restore_all_spec(m: EdgeHideModel, monitors: Seq<Monitor>, strip_size: i32) -> EdgeHideModel {
    if m.queue.len() == 0 {
        with_states(m, reconcile_for_restore_spec(m.states, monitors, strip_size))
    } else {
        m
    }
}

/// Expanded and expanding windows follow a display change to the monitor
/// whose edge receives them.
pub open spec fn refit_expanded(st: EdgeHideState, monitors: Seq<Monitor>, strip_size: i32) -> EdgeHideState {
    match st {
        EdgeHideState::Expanded { edge, restore_rect, .. } | EdgeHideState::Expanding {
            edge,
            restore_rect,
            ..
        } => match edge_restore_monitor_spec(restore_rect, edge, monitors) {
            Some(i) => refit_spec(st, edge, restore_rect, monitors[i], strip_size),
            None => st,
        },
        _ => st,
    }
}

/// Drops waiting windows and restarts the leave timers of expanded ones.
pub open spec fn suspend_spec(s: Seq<(WindowHandle, EdgeHideState)>) -> Seq<(WindowHandle, EdgeHideState)>
    decreases s.len(),
{
    if s.len() == 0 {
        s
    } else {
        let p = suspend_spec(s.drop_last());
        let e = s.last();
        match e.1 {
            EdgeHideState::Pending { .. } => p,
            EdgeHideState::Expanded {
                edge,
                restore_rect,
                hidden_rect,
                original_topmost,
                pointer_entered,
                ..
            } => p.push(
                (
                    e.0,
                    EdgeHideState::Expanded {
                        edge,
                        restore_rect,
                        hidden_rect,
                        original_topmost,
                        pointer_entered,
                        leave_since: None,
                    },
                ),
            ),
            _ => p.push(e),
        }
    }
}

/// Drops the waiting windows other than `keep` (all of them when `keep` is
/// `None`).
pub open spec fn drop_pending_spec(s: Seq<(WindowHandle, EdgeHideState)>, keep: Option<WindowHandle>) -> Seq<
    (WindowHandle, EdgeHideState),
>
    decreases s.len(),
{
    if s.len() == 0 {
        s
    } else {
        let p = drop_pending_spec(s.drop_last(), keep);
        let e = s.last();
        if e.1 is Pending && keep != Some(e.0) {
            p
        } else {
            p.push(e)
        }
    }
}

/// After the transitions of one reconciled window: a collapsed window whose
/// monitor changed is moved to the edge of the monitor that receives it now.
pub open spec fn relocate_step(
    s: Seq<(WindowHandle, EdgeHideState)>,
    h: WindowHandle,
    monitors: Seq<Monitor>,
    strip_size: i32,
    live: spec_fn(WindowHandle, Rect) -> EdgeHideLiveState,
) -> (Seq<(WindowHandle, EdgeHideState)>, Option<EdgeHideCommand>) {
    match lookup(s, h) {
        Some(
            EdgeHideState::Collapsed {
                edge,
                restore_rect,
                hidden_rect,
                original_topmost,
                was_foreground,
            },
        ) => match edge_restore_monitor_spec(restore_rect, edge, monitors) {
            None => (s, None),
            Some(i) => {
                let work = monitors[i].work_area;
                let adjusted_restore = restore_rect_spec(restore_rect, work);
                let adjusted_hidden = hidden_rect_spec(adjusted_restore, work, edge, strip_size);
                if adjusted_restore == restore_rect && adjusted_hidden == hidden_rect {
                    (s, None)
                } else {
                    let o = live(h, hidden_rect);
                    if live_matches_spec(adjusted_hidden, o) {
                        (
                            upsert(
                                s,
                                h,
                                EdgeHideState::Collapsed {
                                    edge,
                                    restore_rect: adjusted_restore,
                                    hidden_rect: adjusted_hidden,
                                    original_topmost,
                                    was_foreground,
                                },
                            ),
                            None,
                        )
                    } else if !live_matches_spec(hidden_rect, o) {
                        (s, None)
                    } else {
                        (
                            upsert(
                                s,
                                h,
                                EdgeHideState::Relocating {
                                    edge,
                                    restore_rect: adjusted_restore,
                                    hidden_rect: adjusted_hidden,
                                    previous_restore_rect: restore_rect,
                                    previous_hidden_rect: hidden_rect,
                                    original_topmost,
                                    was_foreground,
                                },
                            ),
                            Some(EdgeHideCommand::Collapse { handle: h, rect: adjusted_hidden }),
                        )
                    }
                }
            },
        },
        _ => (s, None),
    }
}

/// One window of the reconciliation: commands whose outcome a live query now
/// shows are settled, a cleanup is retried, and a collapsed window follows
/// its edge.
pub open spec fn reconcile_step(
    s: Seq<(WindowHandle, EdgeHideState)>,
    h: WindowHandle,
    monitors: Seq<Monitor>,
    strip_size: i32,
    live: spec_fn(WindowHandle, Rect) -> EdgeHideLiveState,
) -> (Seq<(WindowHandle, EdgeHideState)>, Option<EdgeHideCommand>) {
    match lookup(s, h) {
        Some(
            EdgeHideState::Expanding {
                edge,
                restore_rect,
                hidden_rect,
                original_topmost,
                pointer_entered,
            },
        ) => {
            let s2 = match live(h, restore_rect) {
                EdgeHideLiveState::Visible(actual) => if roughly_equal_spec(actual, restore_rect) {
                    upsert(
                        s,
                        h,
                        EdgeHideState::Expanded {
                            edge,
                            restore_rect,
                            hidden_rect,
                            original_topmost,
                            pointer_entered,
                            leave_since: None,
                        },
                    )
                } else if roughly_equal_spec(actual, hidden_rect) {
                    upsert(
                        s,
                        h,
                        EdgeHideState::Collapsed {
                            edge,
                            restore_rect,
                            hidden_rect,
                            original_topmost,
                            was_foreground: false,
                        },
                    )
                } else {
                    erase(s, h)
                },
                _ => s,
            };
            relocate_step(s2, h, monitors, strip_size, live)
        },
        Some(
            EdgeHideState::Collapsing {
                edge,
                restore_rect,
                hidden_rect,
                original_topmost,
                was_foreground,
            },
        ) => match live(h, hidden_rect) {
            EdgeHideLiveState::Visible(actual) => if roughly_equal_spec(actual, hidden_rect) {
                relocate_step(
                    upsert(
                        s,
                        h,
                        EdgeHideState::Collapsed {
                            edge,
                            restore_rect,
                            hidden_rect,
                            original_topmost,
                            was_foreground,
                        },
                    ),
                    h,
                    monitors,
                    strip_size,
                    live,
                )
            } else {
                (
                    upsert(s, h, EdgeHideState::CleaningUp { rect: actual, original_topmost }),
                    Some(
                        EdgeHideCommand::Restore {
                            handle: h,
                            rect: actual,
                            topmost: original_topmost,
                        },
                    ),
                )
            },
            _ => relocate_step(s, h, monitors, strip_size, live),
        },
        Some(EdgeHideState::CleaningUp { rect, original_topmost }) => (
            s,
            Some(EdgeHideCommand::Restore { handle: h, rect, topmost: original_topmost }),
        ),
        _ => relocate_step(s, h, monitors, strip_size, live),
    }
}

/// Reconciles the windows `handles[k..]` in turn, stopping at the first
/// command; windows waiting for a retry are left alone.
pub open spec fn reconcile_loop(
    s: Seq<(WindowHandle, EdgeHideState)>,
    handles: Seq<WindowHandle>,
    k: int,
    retry: Seq<(WindowHandle, u64)>,
    monitors: Seq<Monitor>,
    strip_size: i32,
    live: spec_fn(WindowHandle, Rect) -> EdgeHideLiveState,
) -> (Seq<(WindowHandle, EdgeHideState)>, Option<EdgeHideCommand>)
    decreases handles.len() - k,
{
    if k < 0 || k >= handles.len() {
        (s, None)
    } else if has_key(retry, handles[k]) {
        reconcile_loop(s, handles, k + 1, retry, monitors, strip_size, live)
    } else {
        let (s2, c) = reconcile_step(s, handles[k], monitors, strip_size, live);
        if c is Some {
            (s2, c)
        } else {
            reconcile_loop(s2, handles, k + 1, retry, monitors, strip_size, live)
        }
    }
}

pub open spec fn handles_of(s: Seq<(WindowHandle, EdgeHideState)>) -> Seq<WindowHandle> {
    s.map_values(|e: (WindowHandle, EdgeHideState)| e.0)
}

pub open spec fn reconcile_monitors_spec(
    s: Seq<(WindowHandle, EdgeHideState)>,
    retry: Seq<(WindowHandle, u64)>,
    monitors: Seq<Monitor>,
    strip_size: i32,
    live: spec_fn(WindowHandle, Rect) -> EdgeHideLiveState,
) -> (Seq<(WindowHandle, EdgeHideState)>, Option<EdgeHideCommand>) {
    let s1 = s.map_values(
        |e: (WindowHandle, EdgeHideState)| (e.0, refit_expanded(e.1, monitors, strip_size)),
    );
    reconcile_loop(s1, handles_of(s1), 0, retry, monitors, strip_size, live)
}

/// Collapsed windows whose strip is live: not waiting for a retry, on an
/// exposed edge, and confirmed at their hidden rectangle.
pub open spec fn active_spec(
    s: Seq<(WindowHandle, EdgeHideState)>,
    retry: Seq<(WindowHandle, u64)>,
    monitors: Seq<Monitor>,
    live: spec_fn(WindowHandle, Rect) -> EdgeHideLiveState,
) -> Seq<WindowHandle>
    decreases s.len(),
{
    if s.len() == 0 {
        Seq::empty()
    } else {
        let p = active_spec(s.drop_last(), retry, monitors, live);
        let h = s.last().0;
        match s.last().1 {
            EdgeHideState::Collapsed { edge, restore_rect, hidden_rect, .. } => if !has_key(
                retry,
                h,
            ) && exposed_monitor_spec(restore_rect, edge, monitors) is Some && live_matches_spec(
                hidden_rect,
                live(h, hidden_rect),
            ) {
                p.push(h)
            } else {
                p
            },
            _ => p,
        }
    }
}

/// A collapsed window picked for restoring: handle, edge, restore and hidden
/// rectangles, and its original topmost state.
pub type Pick = (WindowHandle, Edge, Rect, Rect, bool);

pub open spec fn trigger_reach(config: EdgeHideConfig) -> int {
    if config.trigger_distance >= 1 { config.trigger_distance as int } else { 1 }
}

/// Every collapsed window records whether it is the foreground window now.
pub open spec fn note_foreground(st: EdgeHideState, is_foreground: bool) -> EdgeHideState {
    match st {
        EdgeHideState::Collapsed { edge, restore_rect, hidden_rect, original_topmost, .. } =>
            EdgeHideState::Collapsed {
            edge,
            restore_rect,
            hidden_rect,
            original_topmost,
            was_foreground: is_foreground,
        },
        _ => st,
    }
}

pub open spec fn note_foreground_all(s: Seq<(WindowHandle, EdgeHideState)>, foreground: Option<WindowHandle>) -> Seq<
    (WindowHandle, EdgeHideState),
> {
    s.map_values(
        |e: (WindowHandle, EdgeHideState)| (e.0, note_foreground(e.1, foreground == Some(e.0))),
    )
}

/// The last active collapsed window that has just become the foreground
/// window (restoring by activation is allowed).
pub open spec fn activated_spec(
    s: Seq<(WindowHandle, EdgeHideState)>,
    foreground: Option<WindowHandle>,
    active: Seq<WindowHandle>,
    allow: bool,
) -> Option<Pick>
    decreases s.len(),
{
    if s.len() == 0 {
        None
    } else {
        let h = s.last().0;
        match s.last().1 {
            EdgeHideState::Collapsed {
                edge,
                restore_rect,
                hidden_rect,
                original_topmost,
                was_foreground,
            } if active.contains(h) && allow && foreground == Some(h) && !was_foreground => Some(
                (h, edge, restore_rect, hidden_rect, original_topmost),
            ),
            _ => activated_spec(s.drop_last(), foreground, active, allow),
        }
    }
}

/// The first active collapsed window, from position `i`, whose visible strip
/// (grown by the trigger distance) holds the cursor.
pub open spec fn strip_target_from(
    s: Seq<(WindowHandle, EdgeHideState)>,
    i: int,
    active: Seq<WindowHandle>,
    monitors: Seq<Monitor>,
    cursor: Point,
    reach: int,
) -> Option<Pick>
    decreases s.len() - i,
{
    if i < 0 || i >= s.len() {
        None
    } else {
        let h = s[i].0;
        let here: Option<Pick> = match s[i].1 {
            EdgeHideState::Collapsed { edge, restore_rect, hidden_rect, original_topmost, .. } =>
                if active.contains(h) {
                match exposed_monitor_spec(restore_rect, edge, monitors) {
                    Some(m) => if strip_rect_spec(
                        hidden_rect,
                        monitors[m].work_area,
                    ).spec_inflate(reach).spec_contains(cursor) {
                        Some((h, edge, restore_rect, hidden_rect, original_topmost))
                    } else {
                        None
                    },
                    None => None,
                }
            } else {
                None
            },
            _ => None,
        };
        if here is Some {
            here
        } else {
            strip_target_from(s, i + 1, active, monitors, cursor, reach)
        }
    }
}

/// Restores a collapsed window that the user moved by hand, that became the
/// foreground window, or whose strip the cursor reached.
pub open spec fn handle_collapsed_spec(
    s: Seq<(WindowHandle, EdgeHideState)>,
    cursor: Point,
    config: EdgeHideConfig,
    monitors: Seq<Monitor>,
    foreground: Option<WindowInfo>,
    allow_foreground_restore: bool,
    active: Seq<WindowHandle>,
) -> (Seq<(WindowHandle, EdgeHideState)>, Option<EdgeHideCommand>) {
    let moved: Option<(WindowHandle, Rect, bool)> = match foreground {
        Some(w) => match lookup(s, w.handle) {
            Some(EdgeHideState::Collapsed { hidden_rect, original_topmost, .. }) => if !roughly_equal_spec(
                w.rect,
                hidden_rect,
            ) && w.rect.spec_contains(cursor) {
                Some((w.handle, w.rect, original_topmost))
            } else {
                None
            },
            _ => None,
        },
        None => None,
    };
    match moved {
        Some((h, rect, topmost)) => (
            erase(s, h),
            Some(EdgeHideCommand::Restore { handle: h, rect, topmost }),
        ),
        None => {
            let fh: Option<WindowHandle> = match foreground {
                Some(w) => Some(w.handle),
                None => None,
            };
            let s1 = note_foreground_all(s, fh);
            let reach = trigger_reach(config);
            let pick: Option<(Pick, bool)> = match activated_spec(
                s,
                fh,
                active,
                allow_foreground_restore,
            ) {
                Some(t) => Some((t, false)),
                None => match strip_target_from(s1, 0, active, monitors, cursor, reach) {
                    Some(t) => Some((t, t.2.spec_inflate(reach).spec_contains(cursor))),
                    None => None,
                },
            };
            match pick {
                None => (s1, None),
                Some((t, pointer_entered)) => (
                    upsert(
                        s1,
                        t.0,
                        EdgeHideState::Expanding {
                            edge: t.1,
                            restore_rect: t.2,
                            hidden_rect: t.3,
                            original_topmost: t.4,
                            pointer_entered,
                        },
                    ),
                    Some(EdgeHideCommand::Restore { handle: t.0, rect: t.2, topmost: t.4 }),
                ),
            }
        },
    }
}

/// Milliseconds from `since` to `now`, zero when `now` is earlier.
pub open spec fn elapsed(now: u64, since: u64) -> int {
    if now >= since { now - since } else { 0 }
}

pub open spec fn is_foreground(foreground: Option<WindowInfo>, h: WindowHandle) -> bool {
    match foreground {
        Some(w) => w.handle == h,
        None => false,
    }
}

/// One expanded window under the leave timer: the entry's new state, or the
/// window to collapse (its state then left as it was).
pub open spec fn expanded_visit(
    h: WindowHandle,
    st: EdgeHideState,
    now: u64,
    config: EdgeHideConfig,
    cursor: Point,
    foreground: Option<WindowInfo>,
) -> (EdgeHideState, Option<Pick>) {
    match st {
        EdgeHideState::Expanded {
            edge,
            restore_rect,
            hidden_rect,
            original_topmost,
            pointer_entered,
            leave_since,
        } => {
            let reset = |entered: bool|
                EdgeHideState::Expanded {
                    edge,
                    restore_rect,
                    hidden_rect,
                    original_topmost,
                    pointer_entered: entered,
                    leave_since: None,
                };
            if restore_rect.spec_inflate(trigger_reach(config)).spec_contains(cursor) {
                (reset(true), None)
            } else if config.keep_expanded_when_foreground && is_foreground(foreground, h) {
                (reset(pointer_entered), None)
            } else if !pointer_entered {
                (reset(pointer_entered), None)
            } else {
                match leave_since {
                    Some(since) => if elapsed(now, since) >= config.restore_delay_ms {
                        (st, Some((h, edge, restore_rect, hidden_rect, original_topmost)))
                    } else {
                        (st, None)
                    },
                    None => (
                        EdgeHideState::Expanded {
                            edge,
                            restore_rect,
                            hidden_rect,
                            original_topmost,
                            pointer_entered,
                            leave_since: Some(now),
                        },
                        None,
                    ),
                }
            }
        },
        _ => (st, None),
    }
}

/// Visits the entries from position `i` in turn until one is due to
/// collapse.
pub open spec fn expanded_scan(
    s: Seq<(WindowHandle, EdgeHideState)>,
    i: int,
    now: u64,
    config: EdgeHideConfig,
    cursor: Point,
    foreground: Option<WindowInfo>,
) -> (Seq<(WindowHandle, EdgeHideState)>, Option<Pick>)
    decreases s.len() - i,
{
    if i < 0 || i >= s.len() {
        (s, None)
    } else {
        let (st, found) = expanded_visit(s[i].0, s[i].1, now, config, cursor, foreground);
        if found is Some {
            (s, found)
        } else {
            expanded_scan(s.update(i, (s[i].0, st)), i + 1, now, config, cursor, foreground)
        }
    }
}

/// The foreground window, when expanded, adopts its current topmost state and
/// is forgotten once the user moved it away from both of its placements.
pub open spec fn adopt_foreground_spec(
    s: Seq<(WindowHandle, EdgeHideState)>,
    foreground: Option<WindowInfo>,
) -> Seq<(WindowHandle, EdgeHideState)> {
    match foreground {
        Some(w) => match lookup(s, w.handle) {
            Some(
                EdgeHideState::Expanded {
                    edge,
                    restore_rect,
                    hidden_rect,
                    pointer_entered,
                    leave_since,
                    ..
                },
            ) => {
                let s1 = upsert(
                    s,
                    w.handle,
                    EdgeHideState::Expanded {
                        edge,
                        restore_rect,
                        hidden_rect,
                        original_topmost: w.topmost,
                        pointer_entered,
                        leave_since,
                    },
                );
                if !roughly_equal_spec(w.rect, restore_rect) && !roughly_equal_spec(
                    w.rect,
                    hidden_rect,
                ) {
                    erase(s1, w.handle)
                } else {
                    s1
                }
            },
            _ => s,
        },
        None => s,
    }
}

/// Collapses an expanded window once the pointer has been away for the
/// restore delay.
pub open spec fn handle_expanded_spec(
    s: Seq<(WindowHandle, EdgeHideState)>,
    now: u64,
    config: EdgeHideConfig,
    cursor: Point,
    foreground: Option<WindowInfo>,
) -> (Seq<(WindowHandle, EdgeHideState)>, Option<EdgeHideCommand>) {
    let s1 = adopt_foreground_spec(s, foreground);
    let (s2, found) = expanded_scan(s1, 0, now, config, cursor, foreground);
    match found {
        Some(t) => (
            upsert(
                s2,
                t.0,
                EdgeHideState::Collapsing {
                    edge: t.1,
                    restore_rect: t.2,
                    hidden_rect: t.3,
                    original_topmost: t.4,
                    was_foreground: is_foreground(foreground, t.0),
                },
            ),
            Some(EdgeHideCommand::Collapse { handle: t.0, rect: t.3 }),
        ),
        None => (s2, None),
    }
}

/// The foreground window starts (or keeps) waiting at the edge it is near,
/// and collapses once it stayed there, unmoved, for the collapse delay.
pub open spec fn foreground_spec(
    s: Seq<(WindowHandle, EdgeHideState)>,
    now: u64,
    config: EdgeHideConfig,
    monitors: Seq<Monitor>,
    w: WindowInfo,
) -> (Seq<(WindowHandle, EdgeHideState)>, Option<EdgeHideCommand>) {
    match lookup(s, w.handle) {
        Some(st) if !(st is Pending) => (s, None),
        _ => if !candidate_spec(w, w.rect, config) {
            (erase(s, w.handle), None)
        } else {
            match detect_window_edge_spec(w.rect, monitors, config) {
                None => if lookup(s, w.handle) matches Some(EdgeHideState::Pending { .. }) {
                    (erase(s, w.handle), None)
                } else {
                    (s, None)
                },
                Some((edge, m)) => {
                    let work = monitors[m].work_area;
                    match lookup(s, w.handle) {
                        Some(
                            EdgeHideState::Pending {
                                edge: pending_edge,
                                observed_rect,
                                restore_rect,
                                original_topmost,
                                since,
                            },
                        ) if pending_edge == edge && roughly_equal_spec(observed_rect, w.rect) =>
                            if elapsed(now, since) >= config.collapse_delay_ms {
                            let hidden = hidden_rect_spec(restore_rect, work, edge, config.strip_size);
                            (
                                upsert(
                                    s,
                                    w.handle,
                                    EdgeHideState::Collapsing {
                                        edge,
                                        restore_rect,
                                        hidden_rect: hidden,
                                        original_topmost,
                                        was_foreground: true,
                                    },
                                ),
                                Some(EdgeHideCommand::Collapse { handle: w.handle, rect: hidden }),
                            )
                        } else {
                            (s, None)
                        },
                        _ => (
                            upsert(
                                s,
                                w.handle,
                                EdgeHideState::Pending {
                                    edge,
                                    observed_rect: w.rect,
                                    restore_rect: restore_rect_spec(w.rect, work),
                                    original_topmost: w.topmost,
                                    since: now,
                                },
                            ),
                            None,
                        ),
                    }
                },
            }
        },
    }
}

/// One tick of the controller at `now`: the next queued restore goes out
/// first; when disabled every window is restored; otherwise the displays are
/// reconciled, collapsed windows restored, expanded ones collapsed, and the
/// foreground window considered for hiding.
pub open spec fn tick_spec(
    m: EdgeHideModel,
    now: u64,
    config: EdgeHideConfig,
    cursor: Point,
    monitors: Seq<Monitor>,
    foreground: Option<WindowInfo>,
    input: crate::edge_hide_model::EdgeHideInput,
    live: spec_fn(WindowHandle, Rect) -> EdgeHideLiveState,
) -> (EdgeHideModel, Option<EdgeHideCommand>) {
    let m1 = with_retry(m, retry_alive(m.retry, now));
    if m1.queue.len() > 0 {
        pop_spec(m1)
    } else if !config.enabled {
        disable_spec(
            with_states(m1, reconcile_for_restore_spec(m1.states, monitors, config.strip_size)),
        )
    } else {
        let (s2, c2) = reconcile_monitors_spec(
            m1.states,
            m1.retry,
            monitors,
            config.strip_size,
            live,
        );
        if c2 is Some {
            (with_states(m1, s2), c2)
        } else {
            let active = active_spec(s2, m1.retry, monitors, live);
            let guard1 = if input.context_menu_dismissed || input.left_button_down {
                None
            } else {
                m1.guard
            };
            let m2 = EdgeHideModel { states: s2, guard: guard1, ..m1 };
            if input.right_button_pressed {
                let guard2 = match foreground {
                    Some(w) => if !w.transient {
                        Some(w.handle)
                    } else {
                        guard1
                    },
                    None => guard1,
                };
                (EdgeHideModel { states: suspend_spec(s2), guard: guard2, ..m2 }, None)
            } else {
                let (s3, c3) = handle_collapsed_spec(
                    s2,
                    cursor,
                    config,
                    monitors,
                    foreground,
                    !input.suppress_foreground_restore,
                    active,
                );
                if c3 is Some {
                    (with_states(m2, s3), c3)
                } else if input.left_button_down {
                    (with_states(m2, suspend_spec(s3)), None)
                } else {
                    let (s4, c4) = handle_expanded_spec(s3, now, config, cursor, foreground);
                    if c4 is Some {
                        (with_states(m2, s4), c4)
                    } else {
                        match foreground {
                            None => (with_states(m2, drop_pending_spec(s4, None)), None),
                            Some(w) => {
                                let s5 = drop_pending_spec(s4, Some(w.handle));
                                if guard1 == Some(w.handle) {
                                    (with_states(m2, drop_pending_spec(s5, None)), None)
                                } else {
                                    let (s6, c6) = foreground_spec(s5, now, config, monitors, w);
                                    (with_states(m2, s6), c6)
                                }
                            },
                        }
                    }
                }
            }
        }
    }
}

pub open spec fn retry_later(r: Seq<(WindowHandle, u64)>, h: WindowHandle, now: u64) -> Seq<
    (WindowHandle, u64),
> {
    upsert(r, h, (now + RELOCATION_RETRY_DELAY_MS) as u64)
}

/// What a command that took effect means for its window, given a live query
/// made after it: the window settles in the state the query confirms, or
/// waits a second before it is tried again.
pub open spec fn command_succeeded_spec(
    m: EdgeHideModel,
    command: EdgeHideCommand,
    live: EdgeHideLiveState,
    now: u64,
) -> (EdgeHideModel, Option<EdgeHideCommand>) {
    let s = m.states;
    let r = m.retry;
    match command {
        EdgeHideCommand::Restore { handle: h, rect, topmost } => {
            let (s2, r2): (Seq<(WindowHandle, EdgeHideState)>, Seq<(WindowHandle, u64)>) = match lookup(s, h) {
                Some(EdgeHideState::CleaningUp { rect: cleanup_rect, original_topmost })
                    if cleanup_rect == rect && original_topmost == topmost => if live_matches_spec(
                    rect,
                    live,
                ) {
                    (erase(s, h), erase(r, h))
                } else {
                    (s, retry_later(r, h, now))
                },
                Some(
                    EdgeHideState::Expanding {
                        edge,
                        restore_rect,
                        hidden_rect,
                        original_topmost,
                        pointer_entered,
                    },
                ) if restore_rect == rect && original_topmost == topmost => match live {
                    EdgeHideLiveState::Visible(actual) => if roughly_equal_spec(actual, restore_rect) {
                        (
                            upsert(
                                s,
                                h,
                                EdgeHideState::Expanded {
                                    edge,
                                    restore_rect,
                                    hidden_rect,
                                    original_topmost,
                                    pointer_entered,
                                    leave_since: None,
                                },
                            ),
                            erase(r, h),
                        )
                    } else if roughly_equal_spec(actual, hidden_rect) {
                        (
                            upsert(
                                s,
                                h,
                                EdgeHideState::Collapsed {
                                    edge,
                                    restore_rect,
                                    hidden_rect,
                                    original_topmost,
                                    was_foreground: false,
                                },
                            ),
                            erase(r, h),
                        )
                    } else {
                        (erase(s, h), erase(r, h))
                    },
                    _ => (s, retry_later(r, h, now)),
                },
                Some(
                    EdgeHideState::Expanded {
                        edge,
                        restore_rect,
                        hidden_rect,
                        original_topmost,
                        pointer_entered,
                        leave_since,
                    },
                ) if restore_rect == rect && original_topmost == topmost => match live {
                    EdgeHideLiveState::Visible(actual) => if roughly_equal_spec(actual, hidden_rect) {
                        (
                            upsert(
                                s,
                                h,
                                EdgeHideState::Collapsed {
                                    edge,
                                    restore_rect,
                                    hidden_rect,
                                    original_topmost,
                                    was_foreground: false,
                                },
                            ),
                            erase(r, h),
                        )
                    } else if roughly_equal_spec(actual, restore_rect) {
                        (s, erase(r, h))
                    } else {
                        (erase(s, h), erase(r, h))
                    },
                    _ => (
                        upsert(
                            s,
                            h,
                            EdgeHideState::Expanding {
                                edge,
                                restore_rect,
                                hidden_rect,
                                original_topmost,
                                pointer_entered,
                            },
                        ),
                        retry_later(r, h, now),
                    ),
                },
                None => if !live_matches_spec(rect, live) {
                    (
                        upsert(s, h, EdgeHideState::CleaningUp { rect, original_topmost: topmost }),
                        retry_later(r, h, now),
                    )
                } else {
                    (s, r)
                },
                _ => (s, r),
            };
            (EdgeHideModel { states: s2, retry: r2, ..m }, None)
        },
        EdgeHideCommand::Collapse { handle: h, rect } => match lookup(s, h) {
            Some(
                EdgeHideState::Collapsing {
                    edge,
                    restore_rect,
                    hidden_rect,
                    original_topmost,
                    was_foreground,
                },
            ) if hidden_rect == rect => match live {
                EdgeHideLiveState::Visible(actual) => if roughly_equal_spec(actual, hidden_rect) {
                    (
                        with_states(
                            m,
                            upsert(
                                s,
                                h,
                                EdgeHideState::Collapsed {
                                    edge,
                                    restore_rect,
                                    hidden_rect,
                                    original_topmost,
                                    was_foreground,
                                },
                            ),
                        ),
                        None,
                    )
                } else {
                    (
                        with_states(
                            m,
                            upsert(s, h, EdgeHideState::CleaningUp { rect: actual, original_topmost }),
                        ),
                        Some(
                            EdgeHideCommand::Restore {
                                handle: h,
                                rect: actual,
                                topmost: original_topmost,
                            },
                        ),
                    )
                },
                _ => (m, None),
            },
            Some(
                EdgeHideState::Relocating {
                    edge,
                    restore_rect,
                    hidden_rect,
                    previous_restore_rect,
                    previous_hidden_rect,
                    original_topmost,
                    was_foreground,
                },
            ) if hidden_rect == rect => {
                let back = EdgeHideState::Collapsed {
                    edge,
                    restore_rect: previous_restore_rect,
                    hidden_rect: previous_hidden_rect,
                    original_topmost,
                    was_foreground,
                };
                match live {
                    EdgeHideLiveState::Visible(actual) => if roughly_equal_spec(actual, hidden_rect) {
                        (
                            EdgeHideModel {
                                states: upsert(
                                    s,
                                    h,
                                    EdgeHideState::Collapsed {
                                        edge,
                                        restore_rect,
                                        hidden_rect,
                                        original_topmost,
                                        was_foreground,
                                    },
                                ),
                                retry: erase(r, h),
                                ..m
                            },
                            None,
                        )
                    } else if !roughly_equal_spec(actual, previous_hidden_rect) {
                        (
                            EdgeHideModel {
                                states: upsert(
                                    s,
                                    h,
                                    EdgeHideState::CleaningUp { rect: actual, original_topmost },
                                ),
                                retry: erase(r, h),
                                ..m
                            },
                            Some(
                                EdgeHideCommand::Restore {
                                    handle: h,
                                    rect: actual,
                                    topmost: original_topmost,
                                },
                            ),
                        )
                    } else {
                        (
                            EdgeHideModel {
                                states: upsert(s, h, back),
                                retry: retry_later(r, h, now),
                                ..m
                            },
                            None,
                        )
                    },
                    _ => (
                        EdgeHideModel {
                            states: upsert(s, h, back),
                            retry: retry_later(r, h, now),
                            ..m
                        },
                        None,
                    ),
                }
            },
            _ => (m, None),
        },
    }
}

/// What a command that the platform refused means: a relocation falls back
/// to where the window was, a collapse is cleaned up, a restore is retried in
/// a second.
pub open spec fn command_failed_spec(m: EdgeHideModel, command: EdgeHideCommand, now: u64) -> EdgeHideModel {
    let s = m.states;
    let r = m.retry;
    match command {
        EdgeHideCommand::Collapse { handle: h, rect } => match lookup(s, h) {
            Some(
                EdgeHideState::Relocating {
                    edge,
                    hidden_rect,
                    previous_restore_rect,
                    previous_hidden_rect,
                    original_topmost,
                    was_foreground,
                    ..
                },
            ) if hidden_rect == rect => EdgeHideModel {
                states: upsert(
                    s,
                    h,
                    EdgeHideState::Collapsed {
                        edge,
                        restore_rect: previous_restore_rect,
                        hidden_rect: previous_hidden_rect,
                        original_topmost,
                        was_foreground,
                    },
                ),
                retry: retry_later(r, h, now),
                ..m
            },
            Some(EdgeHideState::Collapsing { hidden_rect, restore_rect, original_topmost, .. })
                if hidden_rect == rect => EdgeHideModel {
                states: upsert(
                    s,
                    h,
                    EdgeHideState::CleaningUp { rect: restore_rect, original_topmost },
                ),
                retry: retry_later(r, h, now),
                ..m
            },
            _ => m,
        },
        EdgeHideCommand::Restore { handle: h, rect, topmost } => match lookup(s, h) {
            Some(EdgeHideState::CleaningUp { rect: cleanup_rect, original_topmost })
                if cleanup_rect == rect && original_topmost == topmost => with_retry(
                m,
                retry_later(r, h, now),
            ),
            Some(EdgeHideState::Expanding { restore_rect, original_topmost, .. })
                if restore_rect == rect && original_topmost == topmost => with_retry(
                m,
                retry_later(r, h, now),
            ),
            Some(EdgeHideState::Expanded { restore_rect, original_topmost, .. })
                if restore_rect == rect && original_topmost == topmost => with_retry(
                m,
                retry_later(r, h, now),
            ),
            None => EdgeHideModel {
                states: upsert(s, h, EdgeHideState::CleaningUp { rect, original_topmost: topmost }),
                retry: retry_later(r, h, now),
                ..m
            },
            _ => m,
        },
    }
}

/// The entries whose window still exists.
pub open spec fn keep_existing<V>(s: Seq<(WindowHandle, V)>, alive: spec_fn(WindowHandle) -> bool) -> Seq<
    (WindowHandle, V),
>
    decreases s.len(),
{
    if s.len() == 0 {
        s
    } else {
        let p = keep_existing(s.drop_last(), alive);
        if alive(s.last().0) {
            p.push(s.last())
        } else {
            p
        }
    }
}

pub open spec fn keep_existing_commands(q: Seq<EdgeHideCommand>, alive: spec_fn(WindowHandle) -> bool) -> Seq<
    EdgeHideCommand,
>
    decreases q.len(),
{
    if q.len() == 0 {
        q
    } else {
        let p = keep_existing_commands(q.drop_last(), alive);
        if alive(command_handle_of(q.last())) {
            p.push(q.last())
        } else {
            p
        }
    }
}

pub open spec fn command_handle_of(c: EdgeHideCommand) -> WindowHandle {
    crate::edge_hide_model::command_handle(c)
}

/// Everything recorded about windows that no longer exist is dropped.
pub open spec fn prune_spec(m: EdgeHideModel, alive: spec_fn(WindowHandle) -> bool) -> EdgeHideModel {
    EdgeHideModel {
        states: keep_existing(m.states, alive),
        queue: keep_existing_commands(m.queue, alive),
        retry: keep_existing(m.retry, alive),
        guard: match m.guard {
            Some(h) => if alive(h) {
                Some(h)
            } else {
                None
            },
            None => None,
        },
    }
}

/// The strips to draw: for each collapsed window not waiting for a retry and
/// confirmed at its hidden rectangle, its visible part on the monitor whose
/// edge it hides behind, when that part is not empty.
pub open spec fn strips_spec(
    s: Seq<(WindowHandle, EdgeHideState)>,
    retry: Seq<(WindowHandle, u64)>,
    monitors: Seq<Monitor>,
    live: spec_fn(WindowHandle, Rect) -> EdgeHideLiveState,
) -> Seq<Rect>
    decreases s.len(),
{
    if s.len() == 0 {
        Seq::empty()
    } else {
        let p = strips_spec(s.drop_last(), retry, monitors, live);
        let h = s.last().0;
        match s.last().1 {
            EdgeHideState::Collapsed { edge, restore_rect, hidden_rect, .. } => if has_key(retry, h)
                || !live_matches_spec(hidden_rect, live(h, hidden_rect)) {
                p
            } else {
                match exposed_monitor_spec(restore_rect, edge, monitors) {
                    Some(i) => {
                        let strip = strip_rect_spec(hidden_rect, monitors[i].work_area);
                        if strip.spec_width() > 0 && strip.spec_height() > 0 {
                            p.push(strip)
                        } else {
                            p
                        }
                    },
                    None => p,
                }
            },
            _ => p,
        }
    }
}

/// The edge segment a window dragged to `rect` would be hidden behind.
pub open spec fn collapse_preview_spec(
    m: EdgeHideModel,
    config: EdgeHideConfig,
    monitors: Seq<Monitor>,
    window: WindowInfo,
    rect: Rect,
) -> Option<Rect> {
    if !config.enabled || !config.show_preview || m.guard == Some(window.handle) || !candidate_spec(
        window,
        rect,
        config,
    ) {
        None
    } else {
        match detect_window_edge_spec(rect, monitors, config) {
            Some((edge, i)) => Some(
                edge_preview_spec(rect, monitors[i].work_area, edge, config.strip_size),
            ),
            None => None,
        }
    }
}

} // verus!
