//! The edge-hide controller: windows left near a screen edge slide behind it
//! after a delay, leaving a strip; reaching the strip (or activating the
//! window) brings them back, and leaving them lets them slide back again.

use vstd::prelude::*;
use std::collections::VecDeque;
use crate::config::{Edge, EdgeHideConfig};
use crate::edge_hide_geometry::{
    detect_window_edge, edge_config_ok, edge_preview_rect, exposed_monitor_for_restore,
    hidden_rect_for, monitor_for_edge_restore, monitor_for_rect, restore_rect_for,
    rects_roughly_equal, strip_rect,
};
use crate::edge_hide_model::{
    command_handle, command_ok, live_ok, model_wf, queue_ok, state_ok, states_ok, table_ok, EdgeHideCommand,
    EdgeHideInput, EdgeHideLiveState, EdgeHideModel, EdgeHideState,
};
use crate::edge_hide_spec::{
    activated_spec, active_spec, adopt_foreground_spec, disable_spec, foreground_spec, tick_spec, command_succeeded_spec, command_failed_spec, prune_spec, keep_existing, keep_existing_commands, strips_spec, collapse_preview_spec, retry_later, RELOCATION_RETRY_DELAY_MS, drop_pending_spec, elapsed, empty_model, expanded_scan, expanded_visit, handle_collapsed_spec, handle_expanded_spec, handles_of, is_foreground, live_matches_spec, note_foreground, note_foreground_all, placement_of, pop_spec, prepare_restore_all_spec, queue_restore_all_spec, reconcile_for_restore_spec, reconcile_loop, reconcile_monitors_spec, reconcile_step, refit_expanded, refit_for_restore, refit_spec, relocate_step, restore_commands, restore_if_needed_spec, retry_alive, strip_target_from, suspend_spec, trigger_reach, with_placement, with_retry, with_states,
};
use crate::entries::{
    contains_entry, erase, erase_entry, has_key, lookup, lookup_entry, upsert, upsert_entry,
};
use crate::geometry::{monitors_valid, Monitor, Point, Rect, WindowHandle, WindowInfo};
use crate::window_rules::{is_candidate_window, is_candidate_window_at};

verus! {

/// A live-window query usable by the controller: defined for every window and
/// rectangle, answering the same question the same way, and placing a
/// visible window within the coordinate reach when asked about such a place.
pub open spec fn live_oracle<F: Fn(WindowHandle, Rect) -> EdgeHideLiveState>(f: F) -> bool {
    &&& forall|h: WindowHandle, r: Rect| call_requires(f, (h, r))
    &&& forall|h: WindowHandle, r: Rect, o1: EdgeHideLiveState, o2: EdgeHideLiveState|
        call_ensures(f, (h, r), o1) && call_ensures(f, (h, r), o2) ==> o1 == o2
    &&& forall|h: WindowHandle, r: Rect, o: EdgeHideLiveState|
        r.wide() && call_ensures(f, (h, r), o) ==> live_ok(o)
}

/// The answer of a live query; where the query gives no answer, the window is
/// taken to be where the controller put it.
pub open spec fn live_fn<F: Fn(WindowHandle, Rect) -> EdgeHideLiveState>(f: F) -> spec_fn(
    WindowHandle,
    Rect,
) -> EdgeHideLiveState {
    |h: WindowHandle, r: Rect|
        if exists|o: EdgeHideLiveState| call_ensures(f, (h, r), o) {
            choose|o: EdgeHideLiveState| call_ensures(f, (h, r), o)
        } else {
            EdgeHideLiveState::Visible(r)
        }
}

fn query<F: Fn(WindowHandle, Rect) -> EdgeHideLiveState>(f: &F, h: WindowHandle, r: Rect) -> (o:
    EdgeHideLiveState)
    requires
        live_oracle(*f),
        r.wide(),
    ensures
        o == live_fn(*f)(h, r),
        live_ok(o),
{
    let o = f(h, r);
    proof {
        let c = choose|x: EdgeHideLiveState| call_ensures(*f, (h, r), x);
        assert(call_ensures(*f, (h, r), c));
    }
    o
}

/// A window-existence query usable by the controller: defined for every
/// handle and answering the same way each time.
pub open spec fn exists_oracle<F: Fn(WindowHandle) -> bool>(f: F) -> bool {
    &&& forall|h: WindowHandle| call_requires(f, (h,))
    &&& forall|h: WindowHandle, b1: bool, b2: bool|
        call_ensures(f, (h,), b1) && call_ensures(f, (h,), b2) ==> b1 == b2
}

pub open spec fn exists_fn<F: Fn(WindowHandle) -> bool>(f: F) -> spec_fn(WindowHandle) -> bool {
    |h: WindowHandle| choose|b: bool| call_ensures(f, (h,), b)
}

pub fn ask_exists<F: Fn(WindowHandle) -> bool>(f: &F, h: WindowHandle) -> (b: bool)
    requires
        exists_oracle(*f),
    ensures
        b == exists_fn(*f)(h),
{
    let b = f(h);
    proof {
        let c = choose|x: bool| call_ensures(*f, (h,), x);
        assert(call_ensures(*f, (h,), c));
    }
    b
}

pub open spec fn opt_window(o: Option<&WindowInfo>) -> Option<WindowInfo> {
    match o {
        Some(w) => Some(*w),
        None => None,
    }
}

pub struct EdgeHideController {
    states: Vec<(WindowHandle, EdgeHideState)>,
    restore_queue: VecDeque<EdgeHideCommand>,
    relocation_retry_after: Vec<(WindowHandle, u64)>,
    context_menu_guard: Option<WindowHandle>,
}

impl View for EdgeHideController {
    type V = EdgeHideModel;

    closed spec fn view(&self) -> EdgeHideModel {
        EdgeHideModel {
            states: self.states@,
            queue: self.restore_queue@,
            retry: self.relocation_retry_after@,
            guard: self.context_menu_guard,
        }
    }
}

impl EdgeHideController {
    pub open spec fn wf(&self) -> bool {
        model_wf(self@)
    }

    pub fn new() -> (c: Self)
        ensures
            c@ == empty_model(),
            c.wf(),
    {
        EdgeHideController {
            states: Vec::new(),
            restore_queue: VecDeque::new(),
            relocation_retry_after: Vec::new(),
            context_menu_guard: None,
        }
    }

    pub fn has_restore_work(&self) -> (r: bool)
        ensures
            r == (self@.states.len() > 0 || self@.queue.len() > 0),
    {
        self.states.len() > 0 || self.restore_queue.len() > 0
    }

    /// The recorded state of a window.
    pub fn state_of(&self, handle: WindowHandle) -> (r: Option<EdgeHideState>)
        ensures
            r == lookup(self@.states, handle),
    {
        lookup_entry(&self.states, handle)
    }

    /// Records a state for a window, as a display change or an earlier session
    /// would have left it.
    pub fn set_state(&mut self, handle: WindowHandle, state: EdgeHideState)
        requires
            old(self).wf(),
            state_ok(state),
        ensures
            final(self)@ == with_states(old(self)@, upsert(old(self)@.states, handle, state)),
            final(self).wf(),
    {
        let ghost s0 = self.states@;
        upsert_entry(&mut self.states, handle, state);
        proof {
            lemma_upsert_ok(s0, handle, state);
        }
    }

    /// The number of windows the controller tracks.
    pub fn tracked_count(&self) -> (n: usize)
        ensures
            n == self@.states.len(),
    {
        self.states.len()
    }
}

pub proof fn lemma_upsert_ok(s: Seq<(WindowHandle, EdgeHideState)>, h: WindowHandle, st: EdgeHideState)
    requires
        table_ok(s),
        state_ok(st),
    ensures
        table_ok(upsert(s, h, st)),
{
    crate::entries::lemma_upsert_unique(s, h, st);
    crate::entries::lemma_entry_pos(s, h);
    let t = upsert(s, h, st);
    assert forall|i: int| 0 <= i < t.len() implies state_ok(#[trigger] t[i].1) by {
        if i < s.len() && i != crate::entries::entry_pos(s, h) {
            assert(t[i] == s[i]);
        }
    }
}

pub proof fn lemma_erase_ok(s: Seq<(WindowHandle, EdgeHideState)>, h: WindowHandle)
    requires
        table_ok(s),
    ensures
        table_ok(erase(s, h)),
{
    crate::entries::lemma_erase_unique(s, h);
    crate::entries::lemma_entry_pos(s, h);
    let t = erase(s, h);
    let p = crate::entries::entry_pos(s, h);
    assert forall|i: int| 0 <= i < t.len() implies state_ok(#[trigger] t[i].1) by {
        if p >= 0 {
            let ii = if i < p { i } else { i + 1 };
            assert(t[i] == s[ii]);
        }
    }
}

proof fn lemma_restore_commands_ok(s: Seq<(WindowHandle, EdgeHideState)>)
    requires
        states_ok(s),
    ensures
        queue_ok(restore_commands(s)),
    decreases s.len(),
{
    if s.len() > 0 {
        lemma_restore_commands_ok(s.drop_last());
        assert(state_ok(s[s.len() - 1].1));
    }
}

impl EdgeHideController {
    fn queue_restore_all(&mut self)
        requires
            old(self).wf(),
        ensures
            final(self)@ == queue_restore_all_spec(old(self)@),
            final(self).wf(),
    {
        let ghost s0 = self.states@;
        let ghost q0 = self.restore_queue@;
        self.relocation_retry_after = Vec::new();
        let mut i: usize = 0;
        while i < self.states.len()
            invariant
                self.states@ == s0,
                i <= s0.len(),
                self.restore_queue@ == q0 + restore_commands(s0.take(i as int)),
                self.relocation_retry_after@ == Seq::<(WindowHandle, u64)>::empty(),
                self.context_menu_guard == old(self).context_menu_guard,
            decreases s0.len() - i,
        {
            proof {
                assert(s0.take(i + 1).drop_last() =~= s0.take(i as int));
            }
            let (handle, state) = self.states[i];
            let command = match state {
                EdgeHideState::Pending { .. } => None,
                EdgeHideState::Collapsing { restore_rect, original_topmost, .. } => Some(
                    EdgeHideCommand::Restore {
                        handle,
                        rect: restore_rect,
                        topmost: original_topmost,
                    },
                ),
                EdgeHideState::Collapsed { restore_rect, original_topmost, .. } => Some(
                    EdgeHideCommand::Restore {
                        handle,
                        rect: restore_rect,
                        topmost: original_topmost,
                    },
                ),
                EdgeHideState::Expanding { restore_rect, original_topmost, .. } => Some(
                    EdgeHideCommand::Restore {
                        handle,
                        rect: restore_rect,
                        topmost: original_topmost,
                    },
                ),
                EdgeHideState::Expanded { restore_rect, original_topmost, .. } => Some(
                    EdgeHideCommand::Restore {
                        handle,
                        rect: restore_rect,
                        topmost: original_topmost,
                    },
                ),
                EdgeHideState::Relocating { restore_rect, original_topmost, .. } => Some(
                    EdgeHideCommand::Restore {
                        handle,
                        rect: restore_rect,
                        topmost: original_topmost,
                    },
                ),
                EdgeHideState::CleaningUp { rect, original_topmost } => Some(
                    EdgeHideCommand::Restore { handle, rect, topmost: original_topmost },
                ),
            };
            if let Some(c) = command {
                self.restore_queue.push_back(c);
                proof {
                    assert(q0 + restore_commands(s0.take(i + 1)) =~= (q0 + restore_commands(
                        s0.take(i as int),
                    )).push(c));
                }
            }
            i += 1;
        }
        proof {
            assert(s0.take(s0.len() as int) =~= s0);
            lemma_restore_commands_ok(s0);
            assert(queue_ok(q0 + restore_commands(s0))) by {
                let all = q0 + restore_commands(s0);
                assert forall|k: int| 0 <= k < all.len() implies command_ok(#[trigger] all[k]) by {
                    if k < q0.len() {
                        assert(all[k] == q0[k]);
                    } else {
                        assert(all[k] == restore_commands(s0)[k - q0.len()]);
                    }
                }
            }
        }
        self.states = Vec::new();
    }

    fn pop_front(&mut self) -> (r: Option<EdgeHideCommand>)
        requires
            old(self).wf(),
        ensures
            (final(self)@, r) == pop_spec(old(self)@),
            final(self).wf(),
            r matches Some(c) ==> command_ok(c),
    {
        match self.restore_queue.pop_front() {
            Some(c) => {
                proof {
                    assert(self.restore_queue@ =~= old(self).restore_queue@.drop_first());
                }
                Some(c)
            },
            None => None,
        }
    }

    /// The next restore command to run while edge hiding shuts down: every
    /// tracked window gets one.
    pub fn restore_if_needed(&mut self) -> (r: Option<EdgeHideCommand>)
        requires
            old(self).wf(),
        ensures
            (final(self)@, r) == restore_if_needed_spec(old(self)@),
            final(self).wf(),
            r matches Some(c) ==> command_ok(c),
    {
        if self.restore_queue.len() == 0 {
            self.queue_restore_all();
        }
        self.pop_front()
    }

    fn disable(&mut self) -> (r: Option<EdgeHideCommand>)
        requires
            old(self).wf(),
        ensures
            (final(self)@, r) == disable_spec(old(self)@),
            final(self).wf(),
            r matches Some(c) ==> command_ok(c),
    {
        self.context_menu_guard = None;
        self.restore_if_needed()
    }
}

fn placement(st: EdgeHideState) -> (r: Option<(Edge, Rect, Rect)>)
    ensures
        r == placement_of(st),
{
    match st {
        EdgeHideState::Collapsing { edge, restore_rect, hidden_rect, .. } => Some(
            (edge, restore_rect, hidden_rect),
        ),
        EdgeHideState::Collapsed { edge, restore_rect, hidden_rect, .. } => Some(
            (edge, restore_rect, hidden_rect),
        ),
        EdgeHideState::Expanding { edge, restore_rect, hidden_rect, .. } => Some(
            (edge, restore_rect, hidden_rect),
        ),
        EdgeHideState::Expanded { edge, restore_rect, hidden_rect, .. } => Some(
            (edge, restore_rect, hidden_rect),
        ),
        EdgeHideState::Relocating { edge, restore_rect, hidden_rect, .. } => Some(
            (edge, restore_rect, hidden_rect),
        ),
        _ => None,
    }
}

fn place(st: EdgeHideState, restore: Rect, hidden: Rect) -> (r: EdgeHideState)
    ensures
        r == with_placement(st, restore, hidden),
{
    match st {
        EdgeHideState::Collapsing { edge, original_topmost, was_foreground, .. } =>
            EdgeHideState::Collapsing {
            edge,
            restore_rect: restore,
            hidden_rect: hidden,
            original_topmost,
            was_foreground,
        },
        EdgeHideState::Collapsed { edge, original_topmost, was_foreground, .. } =>
            EdgeHideState::Collapsed {
            edge,
            restore_rect: restore,
            hidden_rect: hidden,
            original_topmost,
            was_foreground,
        },
        EdgeHideState::Expanding { edge, original_topmost, pointer_entered, .. } =>
            EdgeHideState::Expanding {
            edge,
            restore_rect: restore,
            hidden_rect: hidden,
            original_topmost,
            pointer_entered,
        },
        EdgeHideState::Expanded { edge, original_topmost, pointer_entered, leave_since, .. } =>
            EdgeHideState::Expanded {
            edge,
            restore_rect: restore,
            hidden_rect: hidden,
            original_topmost,
            pointer_entered,
            leave_since,
        },
        EdgeHideState::Relocating {
            edge,
            previous_restore_rect,
            previous_hidden_rect,
            original_topmost,
            was_foreground,
            ..
        } => EdgeHideState::Relocating {
            edge,
            restore_rect: restore,
            hidden_rect: hidden,
            previous_restore_rect,
            previous_hidden_rect,
            original_topmost,
            was_foreground,
        },
        _ => st,
    }
}

fn refit(st: EdgeHideState, edge: Edge, restore: Rect, monitor: &Monitor, strip_size: i32) -> (r:
    EdgeHideState)
    requires
        state_ok(st),
        placement_of(st) is Some,
        restore.valid(),
        monitor.valid(),
        crate::edge_hide_geometry::strip_size_ok(strip_size),
    ensures
        r == refit_spec(st, edge, restore, *monitor, strip_size),
        state_ok(r),
{
    let adjusted = restore_rect_for(restore, monitor.work_area);
    let hidden = hidden_rect_for(adjusted, monitor.work_area, edge, strip_size);
    place(st, adjusted, hidden)
}

fn refit_state_for_restore(st: EdgeHideState, monitors: &[Monitor], strip_size: i32) -> (r:
    EdgeHideState)
    requires
        state_ok(st),
        monitors_valid(monitors@),
        crate::edge_hide_geometry::strip_size_ok(strip_size),
    ensures
        r == refit_for_restore(st, monitors@, strip_size),
        state_ok(r),
{
    match placement(st) {
        Some((edge, restore, _)) => match monitor_for_rect(restore, monitors) {
            Some(i) => {
                proof {
                    assert(monitors@[i as int].valid());
                }
                refit(st, edge, restore, &monitors[i], strip_size)
            },
            None => st,
        },
        None => st,
    }
}

fn refit_state_expanded(st: EdgeHideState, monitors: &[Monitor], strip_size: i32) -> (r:
    EdgeHideState)
    requires
        state_ok(st),
        monitors_valid(monitors@),
        crate::edge_hide_geometry::strip_size_ok(strip_size),
    ensures
        r == refit_expanded(st, monitors@, strip_size),
        state_ok(r),
{
    match st {
        EdgeHideState::Expanded { edge, restore_rect, .. } | EdgeHideState::Expanding {
            edge,
            restore_rect,
            ..
        } => match monitor_for_edge_restore(restore_rect, edge, monitors) {
            Some(i) => {
                proof {
                    assert(monitors@[i as int].valid());
                }
                refit(st, edge, restore_rect, &monitors[i], strip_size)
            },
            None => st,
        },
        _ => st,
    }
}

impl EdgeHideController {
    fn reconcile_for_restore(&mut self, monitors: &[Monitor], strip_size: i32)
        requires
            old(self).wf(),
            monitors_valid(monitors@),
            crate::edge_hide_geometry::strip_size_ok(strip_size),
        ensures
            final(self)@ == with_states(
                old(self)@,
                reconcile_for_restore_spec(old(self)@.states, monitors@, strip_size),
            ),
            final(self).wf(),
    {
        let ghost s0 = self.states@;
        let mut i: usize = 0;
        while i < self.states.len()
            invariant
                i <= s0.len(),
                self.states@.len() == s0.len(),
                table_ok(s0),
                monitors_valid(monitors@),
                crate::edge_hide_geometry::strip_size_ok(strip_size),
                forall|j: int|
                    0 <= j < i ==> #[trigger] self.states@[j] == (
                        s0[j].0,
                        refit_for_restore(s0[j].1, monitors@, strip_size),
                    ),
                table_ok(self.states@),
                forall|j: int| i <= j < s0.len() ==> #[trigger] self.states@[j] == s0[j],
                self.restore_queue@ == old(self).restore_queue@,
                self.relocation_retry_after@ == old(self).relocation_retry_after@,
                self.context_menu_guard == old(self).context_menu_guard,
            decreases s0.len() - i,
        {
            let (handle, state) = self.states[i];
            proof {
                assert(state_ok(s0[i as int].1));
            }
            let refitted = refit_state_for_restore(state, monitors, strip_size);
            let ghost before = self.states@;
            self.states.set(i, (handle, refitted));
            proof {
                assert forall|j: int| 0 <= j < self.states@.len() implies state_ok(
                    #[trigger] self.states@[j].1,
                ) by {
                    if j != i {
                        assert(self.states@[j] == before[j]);
                    }
                }
            }
            i += 1;
        }
        proof {
            assert(self.states@ =~= reconcile_for_restore_spec(s0, monitors@, strip_size));
        }
    }

    /// Re-fits every tracked window to the current displays before a batch
    /// restore, unless restore commands are already queued.
    pub fn prepare_restore_all(&mut self, monitors: &[Monitor], strip_size: i32)
        requires
            old(self).wf(),
            monitors_valid(monitors@),
            crate::edge_hide_geometry::strip_size_ok(strip_size),
        ensures
            final(self)@ == prepare_restore_all_spec(old(self)@, monitors@, strip_size),
            final(self).wf(),
    {
        if self.restore_queue.len() == 0 {
            self.reconcile_for_restore(monitors, strip_size);
        }
    }
}

proof fn lemma_suspend_ok(s: Seq<(WindowHandle, EdgeHideState)>)
    requires
        table_ok(s),
    ensures
        table_ok(suspend_spec(s)),
        crate::entries::keys_from(suspend_spec(s), s),
    decreases s.len(),
{
    if s.len() > 0 {
        lemma_suspend_ok(s.drop_last());
        assert(state_ok(s[s.len() - 1].1));
        let p = suspend_spec(s.drop_last());
        let e = s.last();
        match e.1 {
            EdgeHideState::Pending { .. } => {
                crate::entries::lemma_extend_from(p, s, None::<EdgeHideState>);
            },
            EdgeHideState::Expanded {
                edge,
                restore_rect,
                hidden_rect,
                original_topmost,
                pointer_entered,
                ..
            } => {
                crate::entries::lemma_extend_from(
                    p,
                    s,
                    Some(
                        EdgeHideState::Expanded {
                            edge,
                            restore_rect,
                            hidden_rect,
                            original_topmost,
                            pointer_entered,
                            leave_since: None,
                        },
                    ),
                );
            },
            _ => {
                crate::entries::lemma_extend_from(p, s, Some(e.1));
            },
        }
    }
}

proof fn lemma_drop_pending_ok(s: Seq<(WindowHandle, EdgeHideState)>, keep: Option<WindowHandle>)
    requires
        table_ok(s),
    ensures
        table_ok(drop_pending_spec(s, keep)),
        crate::entries::keys_from(drop_pending_spec(s, keep), s),
    decreases s.len(),
{
    if s.len() > 0 {
        lemma_drop_pending_ok(s.drop_last(), keep);
        assert(state_ok(s[s.len() - 1].1));
        let p = drop_pending_spec(s.drop_last(), keep);
        let e = s.last();
        if e.1 is Pending && keep != Some(e.0) {
            crate::entries::lemma_extend_from(p, s, None::<EdgeHideState>);
        } else {
            crate::entries::lemma_extend_from(p, s, Some(e.1));
        }
    }
}

impl EdgeHideController {
    fn suspend_new_collapses(&mut self)
        requires
            old(self).wf(),
        ensures
            final(self)@ == with_states(old(self)@, suspend_spec(old(self)@.states)),
            final(self).wf(),
    {
        let ghost s0 = self.states@;
        let mut out: Vec<(WindowHandle, EdgeHideState)> = Vec::new();
        let mut i: usize = 0;
        while i < self.states.len()
            invariant
                self.states@ == s0,
                i <= s0.len(),
                out@ == suspend_spec(s0.take(i as int)),
            decreases s0.len() - i,
        {
            proof {
                assert(s0.take(i + 1).drop_last() =~= s0.take(i as int));
            }
            let (handle, state) = self.states[i];
            match state {
                EdgeHideState::Pending { .. } => {},
                EdgeHideState::Expanded {
                    edge,
                    restore_rect,
                    hidden_rect,
                    original_topmost,
                    pointer_entered,
                    ..
                } => {
                    out.push(
                        (
                            handle,
                            EdgeHideState::Expanded {
                                edge,
                                restore_rect,
                                hidden_rect,
                                original_topmost,
                                pointer_entered,
                                leave_since: None,
                            },
                        ),
                    );
                },
                _ => {
                    out.push((handle, state));
                },
            }
            i += 1;
        }
        proof {
            assert(s0.take(s0.len() as int) =~= s0);
            lemma_suspend_ok(s0);
        }
        self.states = out;
    }

    fn drop_pending(&mut self, keep: Option<WindowHandle>)
        requires
            old(self).wf(),
        ensures
            final(self)@ == with_states(old(self)@, drop_pending_spec(old(self)@.states, keep)),
            final(self).wf(),
    {
        let ghost s0 = self.states@;
        let mut out: Vec<(WindowHandle, EdgeHideState)> = Vec::new();
        let mut i: usize = 0;
        while i < self.states.len()
            invariant
                self.states@ == s0,
                i <= s0.len(),
                out@ == drop_pending_spec(s0.take(i as int), keep),
            decreases s0.len() - i,
        {
            proof {
                assert(s0.take(i + 1).drop_last() =~= s0.take(i as int));
            }
            let (handle, state) = self.states[i];
            let pending = match state {
                EdgeHideState::Pending { .. } => true,
                _ => false,
            };
            if !(pending && keep != Some(handle)) {
                out.push((handle, state));
            }
            i += 1;
        }
        proof {
            assert(s0.take(s0.len() as int) =~= s0);
            lemma_drop_pending_ok(s0, keep);
        }
        self.states = out;
    }

    fn expire_retries(&mut self, now: u64)
        requires
            old(self).wf(),
        ensures
            final(self)@ == with_retry(old(self)@, retry_alive(old(self)@.retry, now)),
            final(self).wf(),
    {
        let ghost r0 = self.relocation_retry_after@;
        let mut out: Vec<(WindowHandle, u64)> = Vec::new();
        let mut i: usize = 0;
        while i < self.relocation_retry_after.len()
            invariant
                self.relocation_retry_after@ == r0,
                i <= r0.len(),
                out@ == retry_alive(r0.take(i as int), now),
            decreases r0.len() - i,
        {
            proof {
                assert(r0.take(i + 1).drop_last() =~= r0.take(i as int));
            }
            let entry = self.relocation_retry_after[i];
            if now < entry.1 {
                out.push(entry);
            }
            i += 1;
        }
        proof {
            assert(r0.take(r0.len() as int) =~= r0);
            lemma_retry_alive_unique(r0, now);
        }
        self.relocation_retry_after = out;
    }
}

fn live_matches(rect: Rect, o: EdgeHideLiveState) -> (r: bool)
    requires
        rect.wide(),
        live_ok(o),
    ensures
        r == live_matches_spec(rect, o),
{
    match o {
        EdgeHideLiveState::Visible(actual) => rects_roughly_equal(actual, rect),
        _ => false,
    }
}

fn relocate_entry<F: Fn(WindowHandle, Rect) -> EdgeHideLiveState>(
    states: &mut Vec<(WindowHandle, EdgeHideState)>,
    h: WindowHandle,
    monitors: &[Monitor],
    strip_size: i32,
    window_state: &F,
) -> (r: Option<EdgeHideCommand>)
    requires
        table_ok(old(states)@),
        monitors_valid(monitors@),
        crate::edge_hide_geometry::strip_size_ok(strip_size),
        live_oracle(*window_state),
    ensures
        (final(states)@, r) == relocate_step(
            old(states)@,
            h,
            monitors@,
            strip_size,
            live_fn(*window_state),
        ),
        table_ok(final(states)@),
        r matches Some(c) ==> command_ok(c),
{
    proof {
        crate::entries::lemma_entry_pos(states@, h);
    }
    match lookup_entry(states, h) {
        Some(
            EdgeHideState::Collapsed {
                edge,
                restore_rect,
                hidden_rect,
                original_topmost,
                was_foreground,
            },
        ) => {
            proof {
                assert(state_ok(states@[crate::entries::entry_pos(states@, h)].1));
            }
            let i = match monitor_for_edge_restore(restore_rect, edge, monitors) {
                Some(i) => i,
                None => return None,
            };
            proof {
                assert(monitors@[i as int].valid());
            }
            let work = monitors[i].work_area;
            let adjusted_restore = restore_rect_for(restore_rect, work);
            let adjusted_hidden = hidden_rect_for(adjusted_restore, work, edge, strip_size);
            if adjusted_restore == restore_rect && adjusted_hidden == hidden_rect {
                return None;
            }
            let o = query(window_state, h, hidden_rect);
            if live_matches(adjusted_hidden, o) {
                let st = EdgeHideState::Collapsed {
                    edge,
                    restore_rect: adjusted_restore,
                    hidden_rect: adjusted_hidden,
                    original_topmost,
                    was_foreground,
                };
                let ghost s0 = states@;
                upsert_entry(states, h, st);
                proof {
                    lemma_upsert_ok(s0, h, st);
                }
                return None;
            }
            if !live_matches(hidden_rect, o) {
                return None;
            }
            let st = EdgeHideState::Relocating {
                edge,
                restore_rect: adjusted_restore,
                hidden_rect: adjusted_hidden,
                previous_restore_rect: restore_rect,
                previous_hidden_rect: hidden_rect,
                original_topmost,
                was_foreground,
            };
            let ghost s0 = states@;
            upsert_entry(states, h, st);
            proof {
                lemma_upsert_ok(s0, h, st);
            }
            Some(EdgeHideCommand::Collapse { handle: h, rect: adjusted_hidden })
        },
        _ => None,
    }
}

fn reconcile_entry<F: Fn(WindowHandle, Rect) -> EdgeHideLiveState>(
    states: &mut Vec<(WindowHandle, EdgeHideState)>,
    h: WindowHandle,
    monitors: &[Monitor],
    strip_size: i32,
    window_state: &F,
) -> (r: Option<EdgeHideCommand>)
    requires
        table_ok(old(states)@),
        monitors_valid(monitors@),
        crate::edge_hide_geometry::strip_size_ok(strip_size),
        live_oracle(*window_state),
    ensures
        (final(states)@, r) == reconcile_step(
            old(states)@,
            h,
            monitors@,
            strip_size,
            live_fn(*window_state),
        ),
        table_ok(final(states)@),
        r matches Some(c) ==> command_ok(c),
{
    proof {
        crate::entries::lemma_entry_pos(states@, h);
    }
    let ghost s0 = states@;
    match lookup_entry(states, h) {
        Some(
            EdgeHideState::Expanding {
                edge,
                restore_rect,
                hidden_rect,
                original_topmost,
                pointer_entered,
            },
        ) => {
            proof {
                assert(state_ok(s0[crate::entries::entry_pos(s0, h)].1));
            }
            match query(window_state, h, restore_rect) {
                EdgeHideLiveState::Visible(actual) => {
                    if rects_roughly_equal(actual, restore_rect) {
                        let st = EdgeHideState::Expanded {
                            edge,
                            restore_rect,
                            hidden_rect,
                            original_topmost,
                            pointer_entered,
                            leave_since: None,
                        };
                        upsert_entry(states, h, st);
                        proof {
                            lemma_upsert_ok(s0, h, st);
                        }
                    } else if rects_roughly_equal(actual, hidden_rect) {
                        let st = EdgeHideState::Collapsed {
                            edge,
                            restore_rect,
                            hidden_rect,
                            original_topmost,
                            was_foreground: false,
                        };
                        upsert_entry(states, h, st);
                        proof {
                            lemma_upsert_ok(s0, h, st);
                        }
                    } else {
                        erase_entry(states, h);
                        proof {
                            lemma_erase_ok(s0, h);
                        }
                    }
                },
                _ => {},
            }
            relocate_entry(states, h, monitors, strip_size, window_state)
        },
        Some(
            EdgeHideState::Collapsing {
                edge,
                restore_rect,
                hidden_rect,
                original_topmost,
                was_foreground,
            },
        ) => {
            proof {
                assert(state_ok(s0[crate::entries::entry_pos(s0, h)].1));
            }
            match query(window_state, h, hidden_rect) {
                EdgeHideLiveState::Visible(actual) => {
                    if rects_roughly_equal(actual, hidden_rect) {
                        let st = EdgeHideState::Collapsed {
                            edge,
                            restore_rect,
                            hidden_rect,
                            original_topmost,
                            was_foreground,
                        };
                        upsert_entry(states, h, st);
                        proof {
                            lemma_upsert_ok(s0, h, st);
                        }
                        relocate_entry(states, h, monitors, strip_size, window_state)
                    } else {
                        let st = EdgeHideState::CleaningUp { rect: actual, original_topmost };
                        upsert_entry(states, h, st);
                        proof {
                            lemma_upsert_ok(s0, h, st);
                        }
                        Some(
                            EdgeHideCommand::Restore {
                                handle: h,
                                rect: actual,
                                topmost: original_topmost,
                            },
                        )
                    }
                },
                _ => relocate_entry(states, h, monitors, strip_size, window_state),
            }
        },
        Some(EdgeHideState::CleaningUp { rect, original_topmost }) => {
            proof {
                assert(state_ok(s0[crate::entries::entry_pos(s0, h)].1));
            }
            Some(EdgeHideCommand::Restore { handle: h, rect, topmost: original_topmost })
        },
        _ => relocate_entry(states, h, monitors, strip_size, window_state),
    }
}

impl EdgeHideController {
    fn reconcile_monitors<F: Fn(WindowHandle, Rect) -> EdgeHideLiveState>(
        &mut self,
        monitors: &[Monitor],
        strip_size: i32,
        window_state: &F,
    ) -> (r: Option<EdgeHideCommand>)
        requires
            old(self).wf(),
            monitors_valid(monitors@),
            crate::edge_hide_geometry::strip_size_ok(strip_size),
            live_oracle(*window_state),
        ensures
            (final(self)@.states, r) == reconcile_monitors_spec(
                old(self)@.states,
                old(self)@.retry,
                monitors@,
                strip_size,
                live_fn(*window_state),
            ),
            final(self)@ == with_states(old(self)@, final(self)@.states),
            final(self).wf(),
            r matches Some(c) ==> command_ok(c),
    {
        let ghost s0 = self.states@;
        let mut i: usize = 0;
        while i < self.states.len()
            invariant
                i <= s0.len(),
                self.states@.len() == s0.len(),
                table_ok(s0),
                monitors_valid(monitors@),
                crate::edge_hide_geometry::strip_size_ok(strip_size),
                forall|j: int|
                    0 <= j < i ==> #[trigger] self.states@[j] == (
                        s0[j].0,
                        refit_expanded(s0[j].1, monitors@, strip_size),
                    ),
                table_ok(self.states@),
                forall|j: int| i <= j < s0.len() ==> #[trigger] self.states@[j] == s0[j],
                self.restore_queue@ == old(self).restore_queue@,
                self.relocation_retry_after@ == old(self).relocation_retry_after@,
                self.context_menu_guard == old(self).context_menu_guard,
            decreases s0.len() - i,
        {
            let (handle, state) = self.states[i];
            proof {
                assert(state_ok(s0[i as int].1));
            }
            let refitted = refit_state_expanded(state, monitors, strip_size);
            let ghost before = self.states@;
            self.states.set(i, (handle, refitted));
            proof {
                assert forall|j: int| 0 <= j < self.states@.len() implies state_ok(
                    #[trigger] self.states@[j].1,
                ) by {
                    if j != i {
                        assert(self.states@[j] == before[j]);
                    }
                }
            }
            i += 1;
        }
        let ghost s1 = self.states@;
        proof {
            assert(s1 =~= s0.map_values(
                |e: (WindowHandle, EdgeHideState)| (e.0, refit_expanded(e.1, monitors@, strip_size)),
            ));
        }
        let mut handles: Vec<WindowHandle> = Vec::new();
        let mut k: usize = 0;
        while k < self.states.len()
            invariant
                self.states@ == s1,
                k <= s1.len(),
                handles@ =~= handles_of(s1).take(k as int),
            decreases s1.len() - k,
        {
            handles.push(self.states[k].0);
            k += 1;
        }
        proof {
            assert(handles@ =~= handles_of(s1));
        }
        let mut k: usize = 0;
        while k < handles.len()
            invariant
                k <= handles@.len(),
                handles@ == handles_of(s1),
                table_ok(self.states@),
                monitors_valid(monitors@),
                crate::edge_hide_geometry::strip_size_ok(strip_size),
                live_oracle(*window_state),
                old(self).wf(),
                reconcile_monitors_spec(
                    old(self)@.states,
                    old(self)@.retry,
                    monitors@,
                    strip_size,
                    live_fn(*window_state),
                ) == reconcile_loop(
                    self.states@,
                    handles@,
                    k as int,
                    old(self)@.retry,
                    monitors@,
                    strip_size,
                    live_fn(*window_state),
                ),
                self.restore_queue@ == old(self).restore_queue@,
                self.relocation_retry_after@ == old(self).relocation_retry_after@,
                self.context_menu_guard == old(self).context_menu_guard,
            decreases handles@.len() - k,
        {
            let h = handles[k];
            if contains_entry(&self.relocation_retry_after, h) {
                k += 1;
                continue;
            }
            let ghost before = self.states@;
            let r = reconcile_entry(&mut self.states, h, monitors, strip_size, window_state);
            proof {
                assert(!has_key(old(self)@.retry, handles@[k as int]));
                assert(reconcile_loop(
                    before,
                    handles@,
                    k as int,
                    old(self)@.retry,
                    monitors@,
                    strip_size,
                    live_fn(*window_state),
                ) == if r is Some {
                    (self.states@, r)
                } else {
                    reconcile_loop(
                        self.states@,
                        handles@,
                        k + 1,
                        old(self)@.retry,
                        monitors@,
                        strip_size,
                        live_fn(*window_state),
                    )
                });
            }
            if r.is_some() {
                return r;
            }
            k += 1;
        }
        None
    }
}

proof fn lemma_activated_ok(
    s: Seq<(WindowHandle, EdgeHideState)>,
    foreground: Option<WindowHandle>,
    active: Seq<WindowHandle>,
    allow: bool,
)
    requires
        table_ok(s),
    ensures
        activated_spec(s, foreground, active, allow) matches Some(t) ==> t.2.valid() && t.3.wide(),
    decreases s.len(),
{
    if s.len() > 0 {
        assert(state_ok(s[s.len() - 1].1));
        lemma_activated_ok(s.drop_last(), foreground, active, allow);
    }
}

proof fn lemma_target_ok(
    s: Seq<(WindowHandle, EdgeHideState)>,
    i: int,
    active: Seq<WindowHandle>,
    monitors: Seq<Monitor>,
    cursor: Point,
    reach: int,
)
    requires
        table_ok(s),
    ensures
        strip_target_from(s, i, active, monitors, cursor, reach) matches Some(t) ==> t.2.valid()
            && t.3.wide(),
    decreases s.len() - i,
{
    if 0 <= i < s.len() {
        assert(state_ok(s[i].1));
        lemma_target_ok(s, i + 1, active, monitors, cursor, reach);
    }
}

fn handle_listed(list: &Vec<WindowHandle>, h: WindowHandle) -> (r: bool)
    ensures
        r == list@.contains(h),
{
    let mut i: usize = 0;
    while i < list.len()
        invariant
            i <= list@.len(),
            forall|j: int| 0 <= j < i ==> list@[j] != h,
        decreases list@.len() - i,
    {
        if list[i] == h {
            return true;
        }
        i += 1;
    }
    false
}

fn reach_of(config: &EdgeHideConfig) -> (r: i32)
    requires
        edge_config_ok(*config),
    ensures
        r == trigger_reach(*config),
        crate::geometry::coord_ok(r as int),
{
    crate::edge_hide_geometry::max_i32(config.trigger_distance, 1)
}

impl EdgeHideController {
    fn active_collapsed<F: Fn(WindowHandle, Rect) -> EdgeHideLiveState>(
        &self,
        monitors: &[Monitor],
        window_state: &F,
    ) -> (r: Vec<WindowHandle>)
        requires
            self.wf(),
            monitors_valid(monitors@),
            live_oracle(*window_state),
        ensures
            r@ == active_spec(self@.states, self@.retry, monitors@, live_fn(*window_state)),
    {
        let ghost s0 = self.states@;
        let mut out: Vec<WindowHandle> = Vec::new();
        let mut i: usize = 0;
        while i < self.states.len()
            invariant
                self.states@ == s0,
                self.wf(),
                monitors_valid(monitors@),
                live_oracle(*window_state),
                i <= s0.len(),
                out@ == active_spec(
                    s0.take(i as int),
                    self@.retry,
                    monitors@,
                    live_fn(*window_state),
                ),
            decreases s0.len() - i,
        {
            proof {
                assert(s0.take(i + 1).drop_last() =~= s0.take(i as int));
                assert(state_ok(s0[i as int].1));
            }
            let (handle, state) = self.states[i];
            if let EdgeHideState::Collapsed { edge, restore_rect, hidden_rect, .. } = state {
                if !contains_entry(&self.relocation_retry_after, handle)
                    && exposed_monitor_for_restore(restore_rect, edge, monitors).is_some() {
                    let o = query(window_state, handle, hidden_rect);
                    if live_matches(hidden_rect, o) {
                        out.push(handle);
                    }
                }
            }
            i += 1;
        }
        proof {
            assert(s0.take(s0.len() as int) =~= s0);
        }
        out
    }

    fn handle_collapsed(
        &mut self,
        cursor: Point,
        config: &EdgeHideConfig,
        monitors: &[Monitor],
        foreground: Option<&WindowInfo>,
        allow_foreground_restore: bool,
        active: &Vec<WindowHandle>,
    ) -> (r: Option<EdgeHideCommand>)
        requires
            old(self).wf(),
            monitors_valid(monitors@),
            edge_config_ok(*config),
            foreground matches Some(w) ==> w.rect.valid(),
        ensures
            (final(self)@.states, r) == handle_collapsed_spec(
                old(self)@.states,
                cursor,
                *config,
                monitors@,
                opt_window(foreground),
                allow_foreground_restore,
                active@,
            ),
            final(self)@ == with_states(old(self)@, final(self)@.states),
            final(self).wf(),
            r matches Some(c) ==> command_ok(c),
    {
        let ghost s0 = self.states@;
        proof {
            if let Some(w) = foreground {
                crate::entries::lemma_entry_pos(s0, w.handle);
            }
        }
        if let Some(w) = foreground {
            if let Some(EdgeHideState::Collapsed { hidden_rect, original_topmost, .. })
                = lookup_entry(&self.states, w.handle) {
                proof {
                    assert(state_ok(s0[crate::entries::entry_pos(s0, w.handle)].1));
                }
                if !rects_roughly_equal(w.rect, hidden_rect) && w.rect.contains(cursor) {
                    erase_entry(&mut self.states, w.handle);
                    proof {
                        lemma_erase_ok(s0, w.handle);
                    }
                    return Some(
                        EdgeHideCommand::Restore {
                            handle: w.handle,
                            rect: w.rect,
                            topmost: original_topmost,
                        },
                    );
                }
            }
        }
        let foreground_handle: Option<WindowHandle> = match foreground {
            Some(w) => Some(w.handle),
            None => None,
        };
        let mut activated: Option<(WindowHandle, Edge, Rect, Rect, bool)> = None;
        let mut i: usize = 0;
        while i < self.states.len()
            invariant
                i <= s0.len(),
                self.states@.len() == s0.len(),
                table_ok(s0),
                forall|j: int|
                    0 <= j < i ==> #[trigger] self.states@[j] == (
                        s0[j].0,
                        note_foreground(s0[j].1, foreground_handle == Some(s0[j].0)),
                    ),
                forall|j: int| i <= j < s0.len() ==> #[trigger] self.states@[j] == s0[j],
                activated == activated_spec(
                    s0.take(i as int),
                    foreground_handle,
                    active@,
                    allow_foreground_restore,
                ),
                self.restore_queue@ == old(self).restore_queue@,
                self.relocation_retry_after@ == old(self).relocation_retry_after@,
                self.context_menu_guard == old(self).context_menu_guard,
            decreases s0.len() - i,
        {
            proof {
                assert(s0.take(i + 1).drop_last() =~= s0.take(i as int));
            }
            let (handle, state) = self.states[i];
            let is_foreground = foreground_handle == Some(handle);
            if let EdgeHideState::Collapsed {
                edge,
                restore_rect,
                hidden_rect,
                original_topmost,
                was_foreground,
            } = state {
                if handle_listed(active, handle) && allow_foreground_restore && is_foreground
                    && !was_foreground {
                    activated = Some((handle, edge, restore_rect, hidden_rect, original_topmost));
                }
                self.states.set(
                    i,
                    (
                        handle,
                        EdgeHideState::Collapsed {
                            edge,
                            restore_rect,
                            hidden_rect,
                            original_topmost,
                            was_foreground: is_foreground,
                        },
                    ),
                );
            }
            i += 1;
        }
        let ghost s1 = self.states@;
        proof {
            assert(s0.take(s0.len() as int) =~= s0);
            assert(s1 =~= note_foreground_all(s0, foreground_handle));
            assert forall|j: int| 0 <= j < s1.len() implies state_ok(#[trigger] s1[j].1) by {
                assert(state_ok(s0[j].1));
            }
        }
        let reach = reach_of(config);
        let mut target: Option<(WindowHandle, Edge, Rect, Rect, bool)> = None;
        let mut k: usize = 0;
        while k < self.states.len() && target.is_none()
            invariant
                self.states@ == s1,
                table_ok(s1),
                k <= s1.len(),
                monitors_valid(monitors@),
                reach == trigger_reach(*config),
                crate::geometry::coord_ok(reach as int),
                target is None ==> strip_target_from(s1, 0, active@, monitors@, cursor, reach as int)
                    == strip_target_from(s1, k as int, active@, monitors@, cursor, reach as int),
                target is Some ==> strip_target_from(s1, 0, active@, monitors@, cursor, reach as int)
                    == target,
                target matches Some(t) ==> t.2.valid() && t.3.wide(),
            decreases s1.len() - k,
        {
            let (handle, state) = self.states[k];
            proof {
                assert(state_ok(s1[k as int].1));
            }
            if let EdgeHideState::Collapsed { edge, restore_rect, hidden_rect, original_topmost, .. }
                = state {
                if handle_listed(active, handle) {
                    if let Some(m) = exposed_monitor_for_restore(restore_rect, edge, monitors) {
                        proof {
                            assert(monitors@[m as int].valid());
                        }
                        let visible = strip_rect(hidden_rect, monitors[m].work_area);
                        if visible.inflate(reach).contains(cursor) {
                            target = Some((handle, edge, restore_rect, hidden_rect, original_topmost));
                        }
                    }
                }
            }
            k += 1;
        }
        let chosen: Option<((WindowHandle, Edge, Rect, Rect, bool), bool)> = match activated {
            Some(t) => Some((t, false)),
            None => match target {
                Some(t) => {
                    proof {
                        assert(t.2.valid());
                    }
                    Some((t, t.2.inflate(reach).contains(cursor)))
                },
                None => None,
            },
        };
        match chosen {
            None => None,
            Some((t, pointer_entered)) => {
                let st = EdgeHideState::Expanding {
                    edge: t.1,
                    restore_rect: t.2,
                    hidden_rect: t.3,
                    original_topmost: t.4,
                    pointer_entered,
                };
                proof {
                    lemma_activated_ok(
                        s0,
                        foreground_handle,
                        active@,
                        allow_foreground_restore,
                    );
                    lemma_target_ok(s1, 0, active@, monitors@, cursor, reach as int);
                }
                upsert_entry(&mut self.states, t.0, st);
                proof {
                    lemma_upsert_ok(s1, t.0, st);
                }
                Some(EdgeHideCommand::Restore { handle: t.0, rect: t.2, topmost: t.4 })
            },
        }
    }
}

fn foreground_is(foreground: Option<&WindowInfo>, h: WindowHandle) -> (r: bool)
    ensures
        r == is_foreground(opt_window(foreground), h),
{
    match foreground {
        Some(w) => w.handle == h,
        None => false,
    }
}

fn elapsed_ms(now: u64, since: u64) -> (r: u64)
    ensures
        r == elapsed(now, since),
{
    if now >= since {
        now - since
    } else {
        0
    }
}

fn visit_expanded(
    h: WindowHandle,
    st: EdgeHideState,
    now: u64,
    config: &EdgeHideConfig,
    cursor: Point,
    foreground: Option<&WindowInfo>,
) -> (r: (EdgeHideState, Option<(WindowHandle, Edge, Rect, Rect, bool)>))
    requires
        state_ok(st),
        edge_config_ok(*config),
    ensures
        r == expanded_visit(h, st, now, *config, cursor, opt_window(foreground)),
        state_ok(r.0),
        r.1 matches Some(t) ==> t.0 == h && t.2.valid() && t.3.wide(),
{
    match st {
        EdgeHideState::Expanded {
            edge,
            restore_rect,
            hidden_rect,
            original_topmost,
            pointer_entered,
            leave_since,
        } => {
            let reach = reach_of(config);
            if restore_rect.inflate(reach).contains(cursor) {
                (
                    EdgeHideState::Expanded {
                        edge,
                        restore_rect,
                        hidden_rect,
                        original_topmost,
                        pointer_entered: true,
                        leave_since: None,
                    },
                    None,
                )
            } else if (config.keep_expanded_when_foreground && foreground_is(foreground, h))
                || !pointer_entered {
                (
                    EdgeHideState::Expanded {
                        edge,
                        restore_rect,
                        hidden_rect,
                        original_topmost,
                        pointer_entered,
                        leave_since: None,
                    },
                    None,
                )
            } else {
                match leave_since {
                    Some(since) => {
                        if elapsed_ms(now, since) >= config.restore_delay_ms {
                            (st, Some((h, edge, restore_rect, hidden_rect, original_topmost)))
                        } else {
                            (st, None)
                        }
                    },
                    None => (
                        EdgeHideState::Expanded {
                            edge,
                            restore_rect,
                            hidden_rect,
                            original_topmost,
                            pointer_entered,
                            leave_since: Some(now),
                        },
                        None,
                    ),
                }
            }
        },
        _ => (st, None),
    }
}

impl EdgeHideController {
    fn adopt_foreground(&mut self, foreground: Option<&WindowInfo>)
        requires
            old(self).wf(),
            foreground matches Some(w) ==> w.rect.valid(),
        ensures
            final(self)@ == with_states(
                old(self)@,
                adopt_foreground_spec(old(self)@.states, opt_window(foreground)),
            ),
            final(self).wf(),
    {
        let ghost s0 = self.states@;
        if let Some(w) = foreground {
            proof {
                crate::entries::lemma_entry_pos(s0, w.handle);
            }
            if let Some(
                EdgeHideState::Expanded {
                    edge,
                    restore_rect,
                    hidden_rect,
                    pointer_entered,
                    leave_since,
                    ..
                },
            ) = lookup_entry(&self.states, w.handle) {
                proof {
                    assert(state_ok(s0[crate::entries::entry_pos(s0, w.handle)].1));
                }
                let st = EdgeHideState::Expanded {
                    edge,
                    restore_rect,
                    hidden_rect,
                    original_topmost: w.topmost,
                    pointer_entered,
                    leave_since,
                };
                upsert_entry(&mut self.states, w.handle, st);
                proof {
                    lemma_upsert_ok(s0, w.handle, st);
                }
                if !rects_roughly_equal(w.rect, restore_rect) && !rects_roughly_equal(
                    w.rect,
                    hidden_rect,
                ) {
                    let ghost s1 = self.states@;
                    erase_entry(&mut self.states, w.handle);
                    proof {
                        lemma_erase_ok(s1, w.handle);
                    }
                }
            }
        }
    }

    fn handle_expanded(
        &mut self,
        now: u64,
        config: &EdgeHideConfig,
        cursor: Point,
        foreground: Option<&WindowInfo>,
    ) -> (r: Option<EdgeHideCommand>)
        requires
            old(self).wf(),
            edge_config_ok(*config),
            foreground matches Some(w) ==> w.rect.valid(),
        ensures
            (final(self)@.states, r) == handle_expanded_spec(
                old(self)@.states,
                now,
                *config,
                cursor,
                opt_window(foreground),
            ),
            final(self)@ == with_states(old(self)@, final(self)@.states),
            final(self).wf(),
            r matches Some(c) ==> command_ok(c),
    {
        self.adopt_foreground(foreground);
        let ghost s1 = self.states@;
        let mut found: Option<(WindowHandle, Edge, Rect, Rect, bool)> = None;
        let mut i: usize = 0;
        while i < self.states.len() && found.is_none()
            invariant
                i <= self.states@.len(),
                self.states@.len() == s1.len(),
                table_ok(self.states@),
                edge_config_ok(*config),
                found is None ==> expanded_scan(s1, 0, now, *config, cursor, opt_window(foreground))
                    == expanded_scan(
                    self.states@,
                    i as int,
                    now,
                    *config,
                    cursor,
                    opt_window(foreground),
                ),
                found is Some ==> expanded_scan(s1, 0, now, *config, cursor, opt_window(foreground))
                    == (self.states@, found),
                found matches Some(t) ==> t.2.valid() && t.3.wide(),
                self.restore_queue@ == old(self).restore_queue@,
                self.relocation_retry_after@ == old(self).relocation_retry_after@,
                self.context_menu_guard == old(self).context_menu_guard,
            decreases self.states@.len() - i,
        {
            let (handle, state) = self.states[i];
            proof {
                assert(state_ok(self.states@[i as int].1));
            }
            let (next, due) = visit_expanded(handle, state, now, config, cursor, foreground);
            if due.is_some() {
                found = due;
            } else {
                let ghost before = self.states@;
                self.states.set(i, (handle, next));
                proof {
                    assert forall|j: int| 0 <= j < self.states@.len() implies state_ok(
                        #[trigger] self.states@[j].1,
                    ) by {
                        if j != i {
                            assert(self.states@[j] == before[j]);
                        }
                    }
                }
            }
            i += 1;
        }
        let ghost s2 = self.states@;
        match found {
            Some(t) => {
                let st = EdgeHideState::Collapsing {
                    edge: t.1,
                    restore_rect: t.2,
                    hidden_rect: t.3,
                    original_topmost: t.4,
                    was_foreground: foreground_is(foreground, t.0),
                };
                upsert_entry(&mut self.states, t.0, st);
                proof {
                    lemma_upsert_ok(s2, t.0, st);
                }
                Some(EdgeHideCommand::Collapse { handle: t.0, rect: t.3 })
            },
            None => None,
        }
    }
}

impl EdgeHideController {
    fn consider_foreground(
        &mut self,
        now: u64,
        config: &EdgeHideConfig,
        monitors: &[Monitor],
        w: &WindowInfo,
    ) -> (r: Option<EdgeHideCommand>)
        requires
            old(self).wf(),
            monitors_valid(monitors@),
            edge_config_ok(*config),
            w.rect.valid(),
        ensures
            (final(self)@.states, r) == foreground_spec(
                old(self)@.states,
                now,
                *config,
                monitors@,
                *w,
            ),
            final(self)@ == with_states(old(self)@, final(self)@.states),
            final(self).wf(),
            r matches Some(c) ==> command_ok(c),
    {
        let ghost s0 = self.states@;
        proof {
            crate::entries::lemma_entry_pos(s0, w.handle);
        }
        let current = lookup_entry(&self.states, w.handle);
        let pending = match current {
            Some(EdgeHideState::Pending { .. }) => true,
            _ => false,
        };
        if current.is_some() && !pending {
            return None;
        }
        if !is_candidate_window(w, config) {
            erase_entry(&mut self.states, w.handle);
            proof {
                lemma_erase_ok(s0, w.handle);
            }
            return None;
        }
        let (edge, m) = match detect_window_edge(w.rect, monitors, config) {
            Some(found) => found,
            None => {
                if pending {
                    erase_entry(&mut self.states, w.handle);
                    proof {
                        lemma_erase_ok(s0, w.handle);
                    }
                }
                return None;
            },
        };
        proof {
            assert(monitors@[m as int].valid());
        }
        let work = monitors[m].work_area;
        if let Some(
            EdgeHideState::Pending {
                edge: pending_edge,
                observed_rect,
                restore_rect,
                original_topmost,
                since,
            },
        ) = current {
            proof {
                assert(state_ok(s0[crate::entries::entry_pos(s0, w.handle)].1));
            }
            if pending_edge == edge && rects_roughly_equal(observed_rect, w.rect) {
                if elapsed_ms(now, since) >= config.collapse_delay_ms {
                    let hidden = hidden_rect_for(restore_rect, work, edge, config.strip_size);
                    let st = EdgeHideState::Collapsing {
                        edge,
                        restore_rect,
                        hidden_rect: hidden,
                        original_topmost,
                        was_foreground: true,
                    };
                    upsert_entry(&mut self.states, w.handle, st);
                    proof {
                        lemma_upsert_ok(s0, w.handle, st);
                    }
                    return Some(EdgeHideCommand::Collapse { handle: w.handle, rect: hidden });
                } else {
                    return None;
                }
            }
        }
        let st = EdgeHideState::Pending {
            edge,
            observed_rect: w.rect,
            restore_rect: restore_rect_for(w.rect, work),
            original_topmost: w.topmost,
            since: now,
        };
        upsert_entry(&mut self.states, w.handle, st);
        proof {
            lemma_upsert_ok(s0, w.handle, st);
        }
        None
    }

    /// One tick at `now` (milliseconds on the helper's monotonic clock), given
    /// the cursor, the displays, the foreground window, the mouse input, and a
    /// live query of where a window is. Returns the command to carry out, if
    /// any.
    pub fn tick_with_live_state(
        &mut self,
        now: u64,
        config: &EdgeHideConfig,
        cursor: Point,
        monitors: &[Monitor],
        foreground: Option<&WindowInfo>,
        input: EdgeHideInput,
        window_state: impl Fn(WindowHandle, Rect) -> EdgeHideLiveState,
    ) -> (r: Option<EdgeHideCommand>)
        requires
            old(self).wf(),
            monitors_valid(monitors@),
            edge_config_ok(*config),
            foreground matches Some(w) ==> w.rect.valid(),
            live_oracle(window_state),
        ensures
            (final(self)@, r) == tick_spec(
                old(self)@,
                now,
                *config,
                cursor,
                monitors@,
                opt_window(foreground),
                input,
                live_fn(window_state),
            ),
            final(self).wf(),
            r matches Some(c) ==> command_ok(c),
    {
        self.expire_retries(now);
        if self.restore_queue.len() > 0 {
            return self.pop_front();
        }
        if !config.enabled {
            self.reconcile_for_restore(monitors, config.strip_size);
            return self.disable();
        }
        let reconciled = self.reconcile_monitors(monitors, config.strip_size, &window_state);
        if reconciled.is_some() {
            return reconciled;
        }
        let active = self.active_collapsed(monitors, &window_state);
        if input.context_menu_dismissed || input.left_button_down {
            self.context_menu_guard = None;
        }
        if input.right_button_pressed {
            if let Some(w) = foreground {
                if !w.transient {
                    self.context_menu_guard = Some(w.handle);
                }
            }
            self.suspend_new_collapses();
            return None;
        }
        let restored = self.handle_collapsed(
            cursor,
            config,
            monitors,
            foreground,
            !input.suppress_foreground_restore,
            &active,
        );
        if restored.is_some() {
            return restored;
        }
        if input.left_button_down {
            self.suspend_new_collapses();
            return None;
        }
        let collapsed = self.handle_expanded(now, config, cursor, foreground);
        if collapsed.is_some() {
            return collapsed;
        }
        match foreground {
            None => {
                self.drop_pending(None);
                None
            },
            Some(w) => {
                self.drop_pending(Some(w.handle));
                if self.context_menu_guard == Some(w.handle) {
                    self.drop_pending(None);
                    return None;
                }
                self.consider_foreground(now, config, monitors, w)
            },
        }
    }

    /// A tick in which the platform's live query is not consulted: every
    /// window is taken to be where the controller put it.
    pub fn tick_with_input(
        &mut self,
        now: u64,
        config: &EdgeHideConfig,
        cursor: Point,
        monitors: &[Monitor],
        foreground: Option<&WindowInfo>,
        input: EdgeHideInput,
    ) -> (r: Option<EdgeHideCommand>)
        requires
            old(self).wf(),
            monitors_valid(monitors@),
            edge_config_ok(*config),
            foreground matches Some(w) ==> w.rect.valid(),
        ensures
            (final(self)@, r) == tick_spec(
                old(self)@,
                now,
                *config,
                cursor,
                monitors@,
                opt_window(foreground),
                input,
                |h: WindowHandle, hidden: Rect| EdgeHideLiveState::Visible(hidden),
            ),
            final(self).wf(),
    {
        let assumed = |h: WindowHandle, hidden: Rect| -> (o: EdgeHideLiveState)
            ensures
                o == EdgeHideLiveState::Visible(hidden),
            { EdgeHideLiveState::Visible(hidden) };
        proof {
            assert(live_fn(assumed) =~= |h: WindowHandle, hidden: Rect|
                EdgeHideLiveState::Visible(hidden));
        }
        self.tick_with_live_state(now, config, cursor, monitors, foreground, input, assumed)
    }
}


impl EdgeHideController {
    fn put_state(&mut self, h: WindowHandle, st: EdgeHideState)
        requires
            old(self).wf(),
            state_ok(st),
        ensures
            final(self)@ == with_states(old(self)@, upsert(old(self)@.states, h, st)),
            final(self).wf(),
    {
        let ghost s0 = self.states@;
        upsert_entry(&mut self.states, h, st);
        proof {
            lemma_upsert_ok(s0, h, st);
        }
    }

    fn drop_state(&mut self, h: WindowHandle)
        requires
            old(self).wf(),
        ensures
            final(self)@ == with_states(old(self)@, erase(old(self)@.states, h)),
            final(self).wf(),
    {
        let ghost s0 = self.states@;
        erase_entry(&mut self.states, h);
        proof {
            lemma_erase_ok(s0, h);
        }
    }

    fn retry_in_a_second(&mut self, h: WindowHandle, now: u64)
        requires
            old(self).wf(),
            now <= u64::MAX - RELOCATION_RETRY_DELAY_MS,
        ensures
            final(self)@ == with_retry(old(self)@, retry_later(old(self)@.retry, h, now)),
            final(self).wf(),
    {
        proof {
            crate::entries::lemma_upsert_unique(
                self.relocation_retry_after@,
                h,
                (now + RELOCATION_RETRY_DELAY_MS) as u64,
            );
        }
        upsert_entry(&mut self.relocation_retry_after, h, now + RELOCATION_RETRY_DELAY_MS);
    }

    fn forget_retry(&mut self, h: WindowHandle)
        requires
            old(self).wf(),
        ensures
            final(self)@ == with_retry(old(self)@, erase(old(self)@.retry, h)),
            final(self).wf(),
    {
        proof {
            crate::entries::lemma_erase_unique(self.relocation_retry_after@, h);
        }
        erase_entry(&mut self.relocation_retry_after, h);
    }

    /// Reports that `command` took effect; `live_state` is where the window
    /// is found afterwards. Returns a follow-up command when a collapse
    /// landed somewhere unexpected and the window has to be put back.
    pub fn command_succeeded(
        &mut self,
        command: EdgeHideCommand,
        live_state: EdgeHideLiveState,
        now: u64,
    ) -> (r: Option<EdgeHideCommand>)
        requires
            old(self).wf(),
            command_ok(command),
            live_ok(live_state),
            now <= u64::MAX - RELOCATION_RETRY_DELAY_MS,
        ensures
            (final(self)@, r) == command_succeeded_spec(old(self)@, command, live_state, now),
            final(self).wf(),
            r matches Some(c) ==> command_ok(c),
    {
        match command {
            EdgeHideCommand::Restore { handle: h, rect, topmost } => {
                match lookup_entry(&self.states, h) {
                    Some(EdgeHideState::CleaningUp { rect: cleanup_rect, original_topmost }) => {
                        if cleanup_rect == rect && original_topmost == topmost {
                            if live_matches(rect, live_state) {
                                self.drop_state(h);
                                self.forget_retry(h);
                            } else {
                                self.retry_in_a_second(h, now);
                            }
                        }
                    },
                    Some(
                        EdgeHideState::Expanding {
                            edge,
                            restore_rect,
                            hidden_rect,
                            original_topmost,
                            pointer_entered,
                        },
                    ) => {
                        if restore_rect == rect && original_topmost == topmost {
                            proof {
                                lemma_lookup_ok(self.states@, h);
                            }
                            match live_state {
                                EdgeHideLiveState::Visible(actual) => {
                                    if rects_roughly_equal(actual, restore_rect) {
                                        self.put_state(
                                            h,
                                            EdgeHideState::Expanded {
                                                edge,
                                                restore_rect,
                                                hidden_rect,
                                                original_topmost,
                                                pointer_entered,
                                                leave_since: None,
                                            },
                                        );
                                        self.forget_retry(h);
                                    } else if rects_roughly_equal(actual, hidden_rect) {
                                        self.put_state(
                                            h,
                                            EdgeHideState::Collapsed {
                                                edge,
                                                restore_rect,
                                                hidden_rect,
                                                original_topmost,
                                                was_foreground: false,
                                            },
                                        );
                                        self.forget_retry(h);
                                    } else {
                                        self.drop_state(h);
                                        self.forget_retry(h);
                                    }
                                },
                                _ => {
                                    self.retry_in_a_second(h, now);
                                },
                            }
                        }
                    },
                    Some(
                        EdgeHideState::Expanded {
                            edge,
                            restore_rect,
                            hidden_rect,
                            original_topmost,
                            pointer_entered,
                            leave_since,
                        },
                    ) => {
                        if restore_rect == rect && original_topmost == topmost {
                            proof {
                                lemma_lookup_ok(self.states@, h);
                            }
                            match live_state {
                                EdgeHideLiveState::Visible(actual) => {
                                    if rects_roughly_equal(actual, hidden_rect) {
                                        self.put_state(
                                            h,
                                            EdgeHideState::Collapsed {
                                                edge,
                                                restore_rect,
                                                hidden_rect,
                                                original_topmost,
                                                was_foreground: false,
                                            },
                                        );
                                        self.forget_retry(h);
                                    } else if rects_roughly_equal(actual, restore_rect) {
                                        self.forget_retry(h);
                                    } else {
                                        self.drop_state(h);
                                        self.forget_retry(h);
                                    }
                                },
                                _ => {
                                    self.put_state(
                                        h,
                                        EdgeHideState::Expanding {
                                            edge,
                                            restore_rect,
                                            hidden_rect,
                                            original_topmost,
                                            pointer_entered,
                                        },
                                    );
                                    self.retry_in_a_second(h, now);
                                },
                            }
                        }
                    },
                    None => {
                        if !live_matches(rect, live_state) {
                            self.put_state(
                                h,
                                EdgeHideState::CleaningUp { rect, original_topmost: topmost },
                            );
                            self.retry_in_a_second(h, now);
                        }
                    },
                    _ => {},
                }
                None
            },
            EdgeHideCommand::Collapse { handle: h, rect } => {
                match lookup_entry(&self.states, h) {
                    Some(
                        EdgeHideState::Collapsing {
                            edge,
                            restore_rect,
                            hidden_rect,
                            original_topmost,
                            was_foreground,
                        },
                    ) => {
                        if hidden_rect == rect {
                            proof {
                                lemma_lookup_ok(self.states@, h);
                            }
                            match live_state {
                                EdgeHideLiveState::Visible(actual) => {
                                    if rects_roughly_equal(actual, hidden_rect) {
                                        self.put_state(
                                            h,
                                            EdgeHideState::Collapsed {
                                                edge,
                                                restore_rect,
                                                hidden_rect,
                                                original_topmost,
                                                was_foreground,
                                            },
                                        );
                                        None
                                    } else {
                                        self.put_state(
                                            h,
                                            EdgeHideState::CleaningUp { rect: actual, original_topmost },
                                        );
                                        Some(
                                            EdgeHideCommand::Restore {
                                                handle: h,
                                                rect: actual,
                                                topmost: original_topmost,
                                            },
                                        )
                                    }
                                },
                                _ => None,
                            }
                        } else {
                            None
                        }
                    },
                    Some(
                        EdgeHideState::Relocating {
                            edge,
                            restore_rect,
                            hidden_rect,
                            previous_restore_rect,
                            previous_hidden_rect,
                            original_topmost,
                            was_foreground,
                        },
                    ) => {
                        if hidden_rect == rect {
                            proof {
                                lemma_lookup_ok(self.states@, h);
                            }
                            let back = EdgeHideState::Collapsed {
                                edge,
                                restore_rect: previous_restore_rect,
                                hidden_rect: previous_hidden_rect,
                                original_topmost,
                                was_foreground,
                            };
                            match live_state {
                                EdgeHideLiveState::Visible(actual) => {
                                    if rects_roughly_equal(actual, hidden_rect) {
                                        self.forget_retry(h);
                                        self.put_state(
                                            h,
                                            EdgeHideState::Collapsed {
                                                edge,
                                                restore_rect,
                                                hidden_rect,
                                                original_topmost,
                                                was_foreground,
                                            },
                                        );
                                        None
                                    } else if !rects_roughly_equal(actual, previous_hidden_rect) {
                                        self.put_state(
                                            h,
                                            EdgeHideState::CleaningUp { rect: actual, original_topmost },
                                        );
                                        self.forget_retry(h);
                                        Some(
                                            EdgeHideCommand::Restore {
                                                handle: h,
                                                rect: actual,
                                                topmost: original_topmost,
                                            },
                                        )
                                    } else {
                                        self.put_state(h, back);
                                        self.retry_in_a_second(h, now);
                                        None
                                    }
                                },
                                _ => {
                                    self.put_state(h, back);
                                    self.retry_in_a_second(h, now);
                                    None
                                },
                            }
                        } else {
                            None
                        }
                    },
                    _ => None,
                }
            },
        }
    }

    /// Reports that the platform refused `command`.
    pub fn command_failed(&mut self, command: EdgeHideCommand, now: u64)
        requires
            old(self).wf(),
            command_ok(command),
            now <= u64::MAX - RELOCATION_RETRY_DELAY_MS,
        ensures
            final(self)@ == command_failed_spec(old(self)@, command, now),
            final(self).wf(),
    {
        proof {
            lemma_lookup_ok(self.states@, command_handle(command));
        }
        match command {
            EdgeHideCommand::Collapse { handle: h, rect } => match lookup_entry(&self.states, h) {
                Some(
                    EdgeHideState::Relocating {
                        edge,
                        hidden_rect,
                        previous_restore_rect,
                        previous_hidden_rect,
                        original_topmost,
                        was_foreground,
                        ..
                    },
                ) => {
                    if hidden_rect == rect {
                        self.put_state(
                            h,
                            EdgeHideState::Collapsed {
                                edge,
                                restore_rect: previous_restore_rect,
                                hidden_rect: previous_hidden_rect,
                                original_topmost,
                                was_foreground,
                            },
                        );
                        self.retry_in_a_second(h, now);
                    }
                },
                Some(EdgeHideState::Collapsing { hidden_rect, restore_rect, original_topmost, .. }) => {
                    if hidden_rect == rect {
                        self.put_state(
                            h,
                            EdgeHideState::CleaningUp { rect: restore_rect, original_topmost },
                        );
                        self.retry_in_a_second(h, now);
                    }
                },
                _ => {},
            },
            EdgeHideCommand::Restore { handle: h, rect, topmost } => match lookup_entry(&self.states, h) {
                Some(EdgeHideState::CleaningUp { rect: cleanup_rect, original_topmost }) => {
                    if cleanup_rect == rect && original_topmost == topmost {
                        self.retry_in_a_second(h, now);
                    }
                },
                Some(EdgeHideState::Expanding { restore_rect, original_topmost, .. }) => {
                    if restore_rect == rect && original_topmost == topmost {
                        self.retry_in_a_second(h, now);
                    }
                },
                Some(EdgeHideState::Expanded { restore_rect, original_topmost, .. }) => {
                    if restore_rect == rect && original_topmost == topmost {
                        self.retry_in_a_second(h, now);
                    }
                },
                None => {
                    self.put_state(h, EdgeHideState::CleaningUp { rect, original_topmost: topmost });
                    self.retry_in_a_second(h, now);
                },
                _ => {},
            },
        }
    }
}

impl EdgeHideController {
    /// Forgets every window for which `window_exists` says no: its state,
    /// its retry deadline, its queued commands, and the context-menu guard.
    pub fn prune_invalid_windows(&mut self, window_exists: impl Fn(WindowHandle) -> bool)
        requires
            old(self).wf(),
            exists_oracle(window_exists),
        ensures
            final(self)@ == prune_spec(old(self)@, exists_fn(window_exists)),
            final(self).wf(),
    {
        let ghost alive = exists_fn(window_exists);
        let ghost s0 = self.states@;
        let mut states: Vec<(WindowHandle, EdgeHideState)> = Vec::new();
        let mut i: usize = 0;
        while i < self.states.len()
            invariant
                self.states@ == s0,
                table_ok(s0),
                exists_oracle(window_exists),
                alive == exists_fn(window_exists),
                i <= s0.len(),
                states@ == keep_existing(s0.take(i as int), alive),
                states_ok(states@),
            decreases s0.len() - i,
        {
            proof {
                assert(s0.take(i + 1).drop_last() =~= s0.take(i as int));
            }
            let entry = self.states[i];
            if ask_exists(&window_exists, entry.0) {
                states.push(entry);
            }
            i += 1;
        }
        proof {
            assert(s0.take(s0.len() as int) =~= s0);
            lemma_keep_existing_unique(s0, alive);
        }
        self.states = states;
        let ghost r0 = self.relocation_retry_after@;
        let mut retry: Vec<(WindowHandle, u64)> = Vec::new();
        let mut i: usize = 0;
        while i < self.relocation_retry_after.len()
            invariant
                self.relocation_retry_after@ == r0,
                exists_oracle(window_exists),
                alive == exists_fn(window_exists),
                i <= r0.len(),
                retry@ == keep_existing(r0.take(i as int), alive),
            decreases r0.len() - i,
        {
            proof {
                assert(r0.take(i + 1).drop_last() =~= r0.take(i as int));
            }
            let entry = self.relocation_retry_after[i];
            if ask_exists(&window_exists, entry.0) {
                retry.push(entry);
            }
            i += 1;
        }
        proof {
            assert(r0.take(r0.len() as int) =~= r0);
            lemma_keep_existing_unique(r0, alive);
        }
        self.relocation_retry_after = retry;
        let ghost q0 = self.restore_queue@;
        let mut queue: VecDeque<EdgeHideCommand> = VecDeque::new();
        let mut i: usize = 0;
        while i < self.restore_queue.len()
            invariant
                self.restore_queue@ == q0,
                queue_ok(q0),
                exists_oracle(window_exists),
                alive == exists_fn(window_exists),
                i <= q0.len(),
                queue@ == keep_existing_commands(q0.take(i as int), alive),
                queue_ok(queue@),
            decreases q0.len() - i,
        {
            proof {
                assert(q0.take(i + 1).drop_last() =~= q0.take(i as int));
            }
            let c = self.restore_queue[i];
            let h = match c {
                EdgeHideCommand::Collapse { handle, .. } => handle,
                EdgeHideCommand::Restore { handle, .. } => handle,
            };
            if ask_exists(&window_exists, h) {
                queue.push_back(c);
            }
            i += 1;
        }
        proof {
            assert(q0.take(q0.len() as int) =~= q0);
        }
        self.restore_queue = queue;
        if let Some(h) = self.context_menu_guard {
            if !ask_exists(&window_exists, h) {
                self.context_menu_guard = None;
            }
        }
    }

    /// The strips to draw for collapsed windows that a live query still finds
    /// at their hidden rectangle; windows moved, minimized, gone, or waiting
    /// for a retry show none.
    pub fn collapsed_strips_with_live_state(
        &self,
        monitors: &[Monitor],
        window_state: impl Fn(WindowHandle, Rect) -> EdgeHideLiveState,
    ) -> (r: Vec<Rect>)
        requires
            self.wf(),
            monitors_valid(monitors@),
            live_oracle(window_state),
        ensures
            r@ == strips_spec(self@.states, self@.retry, monitors@, live_fn(window_state)),
    {
        let ghost s0 = self.states@;
        let ghost live = live_fn(window_state);
        let mut out: Vec<Rect> = Vec::new();
        let mut i: usize = 0;
        while i < self.states.len()
            invariant
                self.states@ == s0,
                table_ok(s0),
                self.wf(),
                monitors_valid(monitors@),
                live_oracle(window_state),
                live == live_fn(window_state),
                i <= s0.len(),
                out@ == strips_spec(s0.take(i as int), self@.retry, monitors@, live),
            decreases s0.len() - i,
        {
            proof {
                assert(s0.take(i + 1).drop_last() =~= s0.take(i as int));
                assert(state_ok(s0[i as int].1));
            }
            let (h, st) = self.states[i];
            if let EdgeHideState::Collapsed { edge, restore_rect, hidden_rect, .. } = st {
                if !contains_entry(&self.relocation_retry_after, h) {
                    let o = query(&window_state, h, hidden_rect);
                    if live_matches(hidden_rect, o) {
                        if let Some(m) = exposed_monitor_for_restore(restore_rect, edge, monitors) {
                            proof {
                                assert(monitors@[m as int].valid());
                            }
                            let strip = strip_rect(hidden_rect, monitors[m].work_area);
                            if strip.width() > 0 && strip.height() > 0 {
                                out.push(strip);
                            }
                        }
                    }
                }
            }
            i += 1;
        }
        proof {
            assert(s0.take(s0.len() as int) =~= s0);
        }
        out
    }

    /// The edge segment that would receive `window` if the pointer released
    /// it at `rect` now, when edge hiding would take it there.
    pub fn collapse_preview(
        &self,
        config: &EdgeHideConfig,
        monitors: &[Monitor],
        window: &WindowInfo,
        rect: Rect,
    ) -> (r: Option<Rect>)
        requires
            monitors_valid(monitors@),
            edge_config_ok(*config),
            rect.valid(),
        ensures
            r == collapse_preview_spec(self@, *config, monitors@, *window, rect),
    {
        if !config.enabled || !config.show_preview || self.context_menu_guard == Some(window.handle)
            || !is_candidate_window_at(window, rect, config) {
            return None;
        }
        match detect_window_edge(rect, monitors, config) {
            Some((edge, m)) => {
                proof {
                    assert(monitors@[m as int].valid());
                }
                Some(edge_preview_rect(rect, monitors[m].work_area, edge, config.strip_size))
            },
            None => None,
        }
    }

    /// A tick with no mouse input and no live query.
    pub fn tick(
        &mut self,
        now: u64,
        config: &EdgeHideConfig,
        cursor: Point,
        monitors: &[Monitor],
        foreground: Option<&WindowInfo>,
    ) -> (r: Option<EdgeHideCommand>)
        requires
            old(self).wf(),
            monitors_valid(monitors@),
            edge_config_ok(*config),
            foreground matches Some(w) ==> w.rect.valid(),
        ensures
            (final(self)@, r) == tick_spec(
                old(self)@,
                now,
                *config,
                cursor,
                monitors@,
                opt_window(foreground),
                EdgeHideInput {
                    left_button_down: false,
                    right_button_pressed: false,
                    context_menu_dismissed: false,
                    suppress_foreground_restore: false,
                },
                |h: WindowHandle, hidden: Rect| EdgeHideLiveState::Visible(hidden),
            ),
            final(self).wf(),
    {
        self.tick_with_input(now, config, cursor, monitors, foreground, EdgeHideInput::default())
    }

    /// A tick in which only the left button's state is known.
    pub fn tick_with_left_button_state(
        &mut self,
        now: u64,
        config: &EdgeHideConfig,
        cursor: Point,
        monitors: &[Monitor],
        foreground: Option<&WindowInfo>,
        left_button_down: bool,
    ) -> (r: Option<EdgeHideCommand>)
        requires
            old(self).wf(),
            monitors_valid(monitors@),
            edge_config_ok(*config),
            foreground matches Some(w) ==> w.rect.valid(),
        ensures
            (final(self)@, r) == tick_spec(
                old(self)@,
                now,
                *config,
                cursor,
                monitors@,
                opt_window(foreground),
                EdgeHideInput {
                    left_button_down,
                    right_button_pressed: false,
                    context_menu_dismissed: false,
                    suppress_foreground_restore: false,
                },
                |h: WindowHandle, hidden: Rect| EdgeHideLiveState::Visible(hidden),
            ),
            final(self).wf(),
    {
        let input = EdgeHideInput {
            left_button_down,
            right_button_pressed: false,
            context_menu_dismissed: false,
            suppress_foreground_restore: false,
        };
        self.tick_with_input(now, config, cursor, monitors, foreground, input)
    }
}

proof fn lemma_retry_alive_unique(r: Seq<(WindowHandle, u64)>, now: u64)
    requires
        crate::entries::keys_unique(r),
    ensures
        crate::entries::keys_unique(retry_alive(r, now)),
        crate::entries::keys_from(retry_alive(r, now), r),
    decreases r.len(),
{
    if r.len() > 0 {
        lemma_retry_alive_unique(r.drop_last(), now);
        let p = retry_alive(r.drop_last(), now);
        if now < r.last().1 {
            crate::entries::lemma_extend_from(p, r, Some(r.last().1));
        } else {
            crate::entries::lemma_extend_from(p, r, None::<u64>);
        }
    }
}

proof fn lemma_keep_existing_unique<V>(s: Seq<(WindowHandle, V)>, alive: spec_fn(WindowHandle) -> bool)
    requires
        crate::entries::keys_unique(s),
    ensures
        crate::entries::keys_unique(keep_existing(s, alive)),
        crate::entries::keys_from(keep_existing(s, alive), s),
    decreases s.len(),
{
    if s.len() > 0 {
        lemma_keep_existing_unique(s.drop_last(), alive);
        let p = keep_existing(s.drop_last(), alive);
        if alive(s.last().0) {
            crate::entries::lemma_extend_from(p, s, Some(s.last().1));
        } else {
            crate::entries::lemma_extend_from(p, s, None::<V>);
        }
    }
}

/// A state found in a well-formed table is itself well formed.
proof fn lemma_lookup_ok(s: Seq<(WindowHandle, EdgeHideState)>, h: WindowHandle)
    requires
        table_ok(s),
    ensures
        lookup(s, h) matches Some(st) ==> state_ok(st),
{
    crate::entries::lemma_entry_pos(s, h);
    let p = crate::entries::entry_pos(s, h);
    if p >= 0 {
        assert(state_ok(s[p].1));
    }
}

} // verus!
