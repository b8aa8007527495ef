//! Properties of edge hiding that hold across operations.

use vstd::prelude::*;
use crate::edge_hide_geometry::{
    exposed_monitor_spec, hidden_rect_spec, restore_rect_spec, strip_rect_spec, strip_size_ok,
};
use crate::edge_hide_geometry::{lemma_monitor_for_rect_in_range, monitor_for_rect_spec, roughly_equal_spec};
use crate::edge_hide_model::{
    model_wf, EdgeHideCommand, EdgeHideLiveState, EdgeHideModel, EdgeHideState,
};
use crate::edge_hide_spec::{
    command_handle_of, command_succeeded_spec, keep_existing, keep_existing_commands,
    live_matches_spec, placement_of, prepare_restore_all_spec, prune_spec, refit_for_restore,
    restore_command_of, restore_commands, restore_if_needed_spec, retry_alive, strips_spec,
    tick_spec, with_placement,
};
use crate::config::EdgeHideConfig;
use crate::edge_hide_model::EdgeHideInput;
use crate::geometry::{Point, WindowInfo};
use crate::entries::{erase, has_key, keys_unique, lemma_erase_unique, lemma_upsert_unique, lookup, upsert};
use crate::config::Edge;
use crate::geometry::{Monitor, Rect, WindowHandle};

verus! {

/// Every window that edge hiding has moved gets exactly its restore command,
/// in the order the windows are tracked.
pub proof fn law_restore_commands_cover(s: Seq<(WindowHandle, EdgeHideState)>, i: int)
    requires
        0 <= i < s.len(),
        !(s[i].1 is Pending),
    ensures
        restore_command_of(s[i].0, s[i].1) matches Some(c) && restore_commands(s).contains(c),
    decreases s.len(),
{
    let last = s.len() - 1;
    if i < last {
        law_restore_commands_cover(s.drop_last(), i);
        let c = restore_command_of(s[i].0, s[i].1)->0;
        let p = restore_commands(s.drop_last());
        let k = choose|k: int| 0 <= k < p.len() && p[k] == c;
        match restore_command_of(s.last().0, s.last().1) {
            Some(d) => {
                assert(p.push(d)[k] == c);
            },
            None => {},
        }
    } else {
        let c = restore_command_of(s[i].0, s[i].1)->0;
        let p = restore_commands(s.drop_last());
        assert(p.push(c)[p.len() as int] == c);
    }
}

/// When no restore is queued, asking for the next restore forgets every
/// tracked window and every retry deadline: the command returned and the
/// ones left queued are the restore commands of all tracked windows.
pub proof fn law_shutdown_restores_every_window(m: EdgeHideModel)
    requires
        m.queue.len() == 0,
    ensures
        ({
            let (m1, c) = restore_if_needed_spec(m);
            &&& m1.states.len() == 0
            &&& m1.retry.len() == 0
            &&& match c {
                Some(c) => seq![c] + m1.queue == restore_commands(m.states),
                None => m1.queue.len() == 0 && restore_commands(m.states).len() == 0,
            }
        }),
{
    let q = restore_commands(m.states);
    assert(m.queue + q =~= q);
    if q.len() > 0 {
        assert(seq![q[0]] + q.drop_first() =~= q);
    }
}

proof fn lemma_keep_existing<V>(s: Seq<(WindowHandle, V)>, alive: spec_fn(WindowHandle) -> bool)
    ensures
        forall|i: int| 0 <= i < keep_existing(s, alive).len() ==> alive(
            #[trigger] keep_existing(s, alive)[i].0,
        ),
        forall|i: int|
            0 <= i < s.len() && alive(#[trigger] s[i].0) ==> keep_existing(s, alive).contains(s[i]),
    decreases s.len(),
{
    if s.len() > 0 {
        let p = keep_existing(s.drop_last(), alive);
        lemma_keep_existing(s.drop_last(), alive);
        assert forall|i: int| 0 <= i < s.len() && alive(#[trigger] s[i].0) implies keep_existing(
            s,
            alive,
        ).contains(s[i]) by {
            if i < s.len() - 1 {
                assert(s.drop_last()[i] == s[i]);
                let k = choose|k: int| 0 <= k < p.len() && p[k] == s[i];
                if alive(s.last().0) {
                    assert(p.push(s.last())[k] == s[i]);
                }
            } else {
                assert(p.push(s.last())[p.len() as int] == s[i]);
            }
        }
    }
}

proof fn lemma_keep_existing_commands(
    q: Seq<EdgeHideCommand>,
    alive: spec_fn(WindowHandle) -> bool,
)
    ensures
        forall|i: int|
            0 <= i < keep_existing_commands(q, alive).len() ==> alive(
                command_handle_of(#[trigger] keep_existing_commands(q, alive)[i]),
            ),
        forall|i: int|
            0 <= i < q.len() && alive(command_handle_of(#[trigger] q[i]))
                ==> keep_existing_commands(q, alive).contains(q[i]),
    decreases q.len(),
{
    if q.len() > 0 {
        let p = keep_existing_commands(q.drop_last(), alive);
        lemma_keep_existing_commands(q.drop_last(), alive);
        assert forall|i: int|
            0 <= i < q.len() && alive(command_handle_of(#[trigger] q[i])) implies keep_existing_commands(
            q,
            alive,
        ).contains(q[i]) by {
            if i < q.len() - 1 {
                assert(q.drop_last()[i] == q[i]);
                let k = choose|k: int| 0 <= k < p.len() && p[k] == q[i];
                if alive(command_handle_of(q.last())) {
                    assert(p.push(q.last())[k] == q[i]);
                }
            } else {
                assert(p.push(q.last())[p.len() as int] == q[i]);
            }
        }
    }
}

/// Pruning leaves only what belongs to living windows, and keeps everything
/// that does.
pub proof fn law_prune_keeps_exactly_the_living(
    m: EdgeHideModel,
    alive: spec_fn(WindowHandle) -> bool,
)
    ensures
        ({
            let p = prune_spec(m, alive);
            &&& forall|i: int| 0 <= i < p.states.len() ==> alive(#[trigger] p.states[i].0)
            &&& forall|i: int|
                0 <= i < m.states.len() && alive(#[trigger] m.states[i].0) ==> p.states.contains(
                    m.states[i],
                )
            &&& forall|i: int| 0 <= i < p.retry.len() ==> alive(#[trigger] p.retry[i].0)
            &&& forall|i: int|
                0 <= i < m.retry.len() && alive(#[trigger] m.retry[i].0) ==> p.retry.contains(
                    m.retry[i],
                )
            &&& forall|i: int|
                0 <= i < p.queue.len() ==> alive(command_handle_of(#[trigger] p.queue[i]))
            &&& forall|i: int|
                0 <= i < m.queue.len() && alive(command_handle_of(#[trigger] m.queue[i]))
                    ==> p.queue.contains(m.queue[i])
            &&& (p.guard matches Some(h) ==> alive(h) && m.guard == Some(h))
            &&& (m.guard matches Some(h) ==> (alive(h) ==> p.guard == Some(h)))
        }),
{
    lemma_keep_existing(m.states, alive);
    lemma_keep_existing(m.retry, alive);
    lemma_keep_existing_commands(m.queue, alive);
}


/// `r` is the strip drawn for entry `e`: a collapsed window not waiting for a
/// retry, found by the live query at its hidden rectangle, whose visible part
/// on the display receiving it is `r` and not empty.
pub open spec fn strip_for(
    e: (WindowHandle, EdgeHideState),
    retry: Seq<(WindowHandle, u64)>,
    monitors: Seq<Monitor>,
    live: spec_fn(WindowHandle, Rect) -> EdgeHideLiveState,
    r: Rect,
) -> bool {
    match e.1 {
        EdgeHideState::Collapsed { edge, restore_rect, hidden_rect, .. } => {
            &&& !has_key(retry, e.0)
            &&& live_matches_spec(hidden_rect, live(e.0, hidden_rect))
            &&& exposed_monitor_spec(restore_rect, edge, monitors) matches Some(m) && r
                == strip_rect_spec(hidden_rect, monitors[m].work_area)
            &&& r.spec_width() > 0 && r.spec_height() > 0
        },
        _ => false,
    }
}

/// Strips are drawn only for collapsed windows that still occupy their
/// hidden rectangle and are not waiting for a retry, at most one per window,
/// in the order the windows are tracked.
pub proof fn law_strips_only_for_live_collapsed_windows(
    s: Seq<(WindowHandle, EdgeHideState)>,
    retry: Seq<(WindowHandle, u64)>,
    monitors: Seq<Monitor>,
    live: spec_fn(WindowHandle, Rect) -> EdgeHideLiveState,
)
    ensures
        strips_spec(s, retry, monitors, live).len() <= s.len(),
        forall|k: int|
            0 <= k < strips_spec(s, retry, monitors, live).len() ==> exists|i: int|
                0 <= i < s.len() && strip_for(
                    s[i],
                    retry,
                    monitors,
                    live,
                    #[trigger] strips_spec(s, retry, monitors, live)[k],
                ),
    decreases s.len(),
{
    if s.len() > 0 {
        let d = s.drop_last();
        law_strips_only_for_live_collapsed_windows(d, retry, monitors, live);
        let p = strips_spec(d, retry, monitors, live);
        let t = strips_spec(s, retry, monitors, live);
        assert forall|k: int| 0 <= k < t.len() implies exists|i: int|
            0 <= i < s.len() && strip_for(s[i], retry, monitors, live, #[trigger] t[k]) by {
            if k < p.len() {
                assert(t[k] == p[k]);
                let i = choose|i: int| 0 <= i < d.len() && strip_for(d[i], retry, monitors, live, p[k]);
                assert(s[i] == d[i]);
            } else {
                assert(strip_for(s[s.len() - 1], retry, monitors, live, t[k]));
            }
        }
    }
}

/// Every strip has a positive width and height and lies within the work
/// area of one of the displays.
pub proof fn law_strips_fit_a_work_area(
    s: Seq<(WindowHandle, EdgeHideState)>,
    retry: Seq<(WindowHandle, u64)>,
    monitors: Seq<Monitor>,
    live: spec_fn(WindowHandle, Rect) -> EdgeHideLiveState,
)
    ensures
        forall|k: int|
            0 <= k < strips_spec(s, retry, monitors, live).len() ==> {
                let r = #[trigger] strips_spec(s, retry, monitors, live)[k];
                &&& r.spec_width() > 0
                &&& r.spec_height() > 0
                &&& exists|j: int|
                    0 <= j < monitors.len() && monitors[j].work_area.left <= r.left && r.right
                        <= monitors[j].work_area.right && monitors[j].work_area.top <= r.top
                        && r.bottom <= monitors[j].work_area.bottom
            },
{
    law_strips_only_for_live_collapsed_windows(s, retry, monitors, live);
    let t = strips_spec(s, retry, monitors, live);
    assert forall|k: int| 0 <= k < t.len() implies {
        let r = #[trigger] t[k];
        &&& r.spec_width() > 0
        &&& r.spec_height() > 0
        &&& exists|j: int|
            0 <= j < monitors.len() && monitors[j].work_area.left <= r.left && r.right
                <= monitors[j].work_area.right && monitors[j].work_area.top <= r.top && r.bottom
                <= monitors[j].work_area.bottom
    } by {
        let i = choose|i: int| 0 <= i < s.len() && strip_for(s[i], retry, monitors, live, t[k]);
        match s[i].1 {
            EdgeHideState::Collapsed { edge, restore_rect, hidden_rect, .. } => {
                lemma_monitor_for_rect_in_range(restore_rect, monitors);
                let m = exposed_monitor_spec(restore_rect, edge, monitors)->0;
                assert(0 <= m < monitors.len());
                let w = monitors[m].work_area;
                assert(w.left <= t[k].left && t[k].right <= w.right && w.top <= t[k].top
                    && t[k].bottom <= w.bottom);
            },
            _ => {},
        }
    }
}

/// A restored window lies inside the work area. Along each axis it keeps its
/// extent wherever the work area is larger, and it does not move at all where
/// it already lay inside the work area.
pub proof fn law_restore_fits_work_area(original: Rect, work: Rect)
    requires
        original.valid(),
        work.valid(),
    ensures
        ({
            let r = restore_rect_spec(original, work);
            &&& work.left <= r.left <= r.right <= work.right
            &&& work.top <= r.top <= r.bottom <= work.bottom
            &&& original.spec_width() < work.spec_width() ==> r.spec_width()
                == original.spec_width()
            &&& original.spec_height() < work.spec_height() ==> r.spec_height()
                == original.spec_height()
            &&& work.left <= original.left && original.right <= work.right ==> r.left
                == original.left && r.right == original.right
            &&& work.top <= original.top && original.bottom <= work.bottom ==> r.top
                == original.top && r.bottom == original.bottom
        }),
{
}

/// A hidden window keeps the size of its restore rectangle, and along the
/// edge it was pushed past exactly the strip width (`strip_size`, at least
/// four pixels) of it stays inside the work area, wherever both the window
/// and the work area are at least that wide.
pub proof fn law_hidden_window_leaves_strip(restore: Rect, work: Rect, edge: Edge, strip_size: i32)
    requires
        restore.valid(),
        work.valid(),
        strip_size_ok(strip_size),
    ensures
        ({
            let h = hidden_rect_spec(restore, work, edge, strip_size);
            let strip: int = if strip_size >= 4 { strip_size as int } else { 4 };
            let v = strip_rect_spec(h, work);
            &&& h.spec_width() == restore.spec_width()
            &&& h.spec_height() == restore.spec_height()
            &&& strip <= restore.spec_width() && strip <= work.spec_width() ==> match edge {
                Edge::Left => v.left == work.left && v.right == work.left + strip,
                Edge::Right => v.left == work.right - strip && v.right == work.right,
                _ => true,
            }
            &&& strip <= restore.spec_height() && strip <= work.spec_height() ==> match edge {
                Edge::Top => v.top == work.top && v.bottom == work.top + strip,
                Edge::Bottom => v.top == work.bottom - strip && v.bottom == work.bottom,
                _ => true,
            }
        }),
{
}

proof fn lemma_other_entries<V>(s: Seq<(WindowHandle, V)>, h: WindowHandle)
    requires
        keys_unique(s),
    ensures
        forall|v: V, g: WindowHandle| g != h ==> #[trigger] lookup(upsert(s, h, v), g) == lookup(s, g),
        forall|g: WindowHandle| g != h ==> #[trigger] lookup(erase(s, h), g) == lookup(s, g),
{
    assert forall|v: V, g: WindowHandle| g != h implies #[trigger] lookup(upsert(s, h, v), g) == lookup(
        s,
        g,
    ) by {
        lemma_upsert_unique(s, h, v);
    }
    lemma_erase_unique(s, h);
}

/// An acknowledged restore asks for nothing more, and changes nothing but
/// the state and retry deadline of its own window: every other window, the
/// restore queue and the context-menu guard stay as they were.
pub proof fn law_restore_ack_touches_only_its_window(
    m: EdgeHideModel,
    handle: WindowHandle,
    rect: Rect,
    topmost: bool,
    live: EdgeHideLiveState,
    now: u64,
)
    requires
        model_wf(m),
    ensures
        ({
            let (m1, c) = command_succeeded_spec(
                m,
                EdgeHideCommand::Restore { handle, rect, topmost },
                live,
                now,
            );
            &&& c is None
            &&& m1.queue == m.queue
            &&& m1.guard == m.guard
            &&& forall|g: WindowHandle|
                g != handle ==> lookup(m1.states, g) == lookup(m.states, g) && lookup(m1.retry, g)
                    == lookup(m.retry, g)
        }),
{
    lemma_other_entries(m.states, handle);
    lemma_other_entries(m.retry, handle);
}

/// An acknowledged collapse asks for a further command only when the window
/// came to rest elsewhere than where it was sent: then it is a restore of
/// that window to where it actually is, with its original topmost state,
/// and the window is being cleaned up there.
pub proof fn law_collapse_ack_answer(
    m: EdgeHideModel,
    handle: WindowHandle,
    rect: Rect,
    live: EdgeHideLiveState,
    now: u64,
)
    requires
        model_wf(m),
    ensures
        ({
            let (m1, c) = command_succeeded_spec(m, EdgeHideCommand::Collapse { handle, rect }, live, now);
            c matches Some(r) ==> (live matches EdgeHideLiveState::Visible(actual) && (r
                matches EdgeHideCommand::Restore { handle: h, rect: to, topmost } && h == handle
                && to == actual && !roughly_equal_spec(actual, rect) && lookup(m1.states, handle)
                == Some(EdgeHideState::CleaningUp { rect: actual, original_topmost: topmost })))
        }),
{
    let s = m.states;
    match lookup(s, handle) {
        Some(EdgeHideState::Collapsing { original_topmost, .. }) => {
            if let EdgeHideLiveState::Visible(actual) = live {
                lemma_upsert_unique(
                    s,
                    handle,
                    EdgeHideState::CleaningUp { rect: actual, original_topmost },
                );
            }
        },
        Some(EdgeHideState::Relocating { original_topmost, .. }) => {
            if let EdgeHideLiveState::Visible(actual) = live {
                lemma_upsert_unique(
                    s,
                    handle,
                    EdgeHideState::CleaningUp { rect: actual, original_topmost },
                );
            }
        },
        _ => {},
    }
}

/// An acknowledgement of a collapse the window is not waiting for (it is
/// not collapsing or relocating to that rectangle: untracked, in another
/// state, stale or repeated) changes nothing and asks for nothing.
pub proof fn law_stale_collapse_ack_changes_nothing(
    m: EdgeHideModel,
    handle: WindowHandle,
    rect: Rect,
    live: EdgeHideLiveState,
    now: u64,
)
    requires
        !(lookup(m.states, handle) matches Some(EdgeHideState::Collapsing { hidden_rect, .. })
            && hidden_rect == rect),
        !(lookup(m.states, handle) matches Some(EdgeHideState::Relocating { hidden_rect, .. })
            && hidden_rect == rect),
    ensures
        command_succeeded_spec(m, EdgeHideCommand::Collapse { handle, rect }, live, now) == (m, None::<
            EdgeHideCommand,
        >),
{
}

/// The windows that may show a strip: collapsed and not waiting for a retry.
pub open spec fn strip_candidates(s: Seq<(WindowHandle, EdgeHideState)>, retry: Seq<(WindowHandle, u64)>) -> nat
    decreases s.len(),
{
    if s.len() == 0 {
        0
    } else {
        let p = strip_candidates(s.drop_last(), retry);
        if s.last().1 is Collapsed && !has_key(retry, s.last().0) {
            p + 1
        } else {
            p
        }
    }
}

/// There are never more strips than collapsed windows not waiting for a
/// retry.
pub proof fn law_strips_at_most_ready_collapsed(
    s: Seq<(WindowHandle, EdgeHideState)>,
    retry: Seq<(WindowHandle, u64)>,
    monitors: Seq<Monitor>,
    live: spec_fn(WindowHandle, Rect) -> EdgeHideLiveState,
)
    ensures
        strips_spec(s, retry, monitors, live).len() <= strip_candidates(s, retry),
    decreases s.len(),
{
    if s.len() > 0 {
        law_strips_at_most_ready_collapsed(s.drop_last(), retry, monitors, live);
    }
}

/// The results of `n` calls of `restore_if_needed`, in order, and the state
/// after them.
pub open spec fn restore_calls(m: EdgeHideModel, n: nat) -> (EdgeHideModel, Seq<Option<EdgeHideCommand>>)
    decreases n,
{
    if n == 0 {
        (m, seq![])
    } else {
        let (m1, c) = restore_if_needed_spec(m);
        let (m2, cs) = restore_calls(m1, (n - 1) as nat);
        (m2, seq![c] + cs)
    }
}

pub open spec fn as_answers(q: Seq<EdgeHideCommand>) -> Seq<Option<EdgeHideCommand>> {
    q.map_values(|c: EdgeHideCommand| Some(c))
}

/// Asking for restores until none is left hands out the queued commands in
/// order, then one restore for every tracked window that was moved, then
/// nothing; after that nothing is tracked, queued or waiting for a retry.
pub proof fn law_restore_calls_drain(m: EdgeHideModel)
    ensures
        ({
            let all = m.queue + restore_commands(m.states);
            let (m1, out) = restore_calls(m, (all.len() + 1) as nat);
            &&& out == as_answers(all).push(None)
            &&& m1.states.len() == 0
            &&& m1.queue.len() == 0
            &&& m1.retry.len() == 0
        }),
    decreases m.queue.len() + restore_commands(m.states).len(),
{
    let all = m.queue + restore_commands(m.states);
    let (m1, c) = restore_if_needed_spec(m);
    if m.queue.len() > 0 {
        law_restore_calls_drain(m1);
        let rest = m1.queue + restore_commands(m1.states);
        assert(rest =~= all.drop_first());
        assert(as_answers(all) =~= seq![c] + as_answers(rest));
        assert(seq![c] + as_answers(rest).push(None) =~= as_answers(all).push(None));
    } else if restore_commands(m.states).len() > 0 {
        let q = restore_commands(m.states);
        assert(m.queue + q =~= q);
        law_restore_calls_drain(m1);
        let rest = m1.queue + restore_commands(m1.states);
        assert(restore_commands(m1.states) =~= Seq::<EdgeHideCommand>::empty());
        assert(rest =~= all.drop_first());
        assert(as_answers(all) =~= seq![c] + as_answers(rest));
        assert(seq![c] + as_answers(rest).push(None) =~= as_answers(all).push(None));
    } else {
        assert(all.len() == 0);
        let (m2, cs) = restore_calls(m1, 0);
        assert(as_answers(all) =~= Seq::<Option<EdgeHideCommand>>::empty());
        assert(seq![c] + cs =~= as_answers(all).push(None));
    }
}

/// Preparing a batch restore does nothing while restores are queued, and
/// never touches the queue, the retry deadlines or the guard. Otherwise every
/// tracked window keeps its place in the table and is re-fitted to the
/// display its restore rectangle belongs to now; windows that are only
/// waiting or being cleaned up stay as they are, and with no display known
/// nothing changes.
pub proof fn law_prepare_restore_all(m: EdgeHideModel, monitors: Seq<Monitor>, strip_size: i32)
    ensures
        ({
            let m1 = prepare_restore_all_spec(m, monitors, strip_size);
            &&& m.queue.len() > 0 ==> m1 == m
            &&& m1.queue == m.queue
            &&& m1.retry == m.retry
            &&& m1.guard == m.guard
            &&& m1.states.len() == m.states.len()
            &&& forall|i: int|
                0 <= i < m.states.len() ==> (#[trigger] m1.states[i]).0 == m.states[i].0 && (
                m.queue.len() == 0 ==> m1.states[i].1 == refit_for_restore(
                    m.states[i].1,
                    monitors,
                    strip_size,
                )) && (m.queue.len() > 0 ==> m1.states[i].1 == m.states[i].1) && (placement_of(
                    m.states[i].1,
                ) is None ==> m1.states[i].1 == m.states[i].1)
            &&& monitors.len() == 0 ==> m1 == m
        }),
{
    let m1 = prepare_restore_all_spec(m, monitors, strip_size);
    if monitors.len() == 0 && m.queue.len() == 0 {
        assert(m1.states =~= m.states);
    }
}

/// The retry deadlines kept at `now` are exactly those still in the future,
/// in their order.
pub proof fn law_expired_retries_dropped(r: Seq<(WindowHandle, u64)>, now: u64)
    ensures
        forall|k: int|
            0 <= k < retry_alive(r, now).len() ==> now < (#[trigger] retry_alive(r, now)[k]).1
                && r.contains(retry_alive(r, now)[k]),
        forall|i: int| 0 <= i < r.len() && now < (#[trigger] r[i]).1 ==> retry_alive(r, now).contains(r[i]),
        retry_alive(r, now).len() <= r.len(),
    decreases r.len(),
{
    if r.len() > 0 {
        let d = r.drop_last();
        law_expired_retries_dropped(d, now);
        let p = retry_alive(d, now);
        let t = retry_alive(r, now);
        assert forall|k: int| 0 <= k < t.len() implies now < (#[trigger] t[k]).1 && r.contains(t[k]) by {
            if k < p.len() {
                assert(t[k] == p[k]);
                let i = choose|i: int| 0 <= i < d.len() && d[i] == p[k];
                assert(r[i] == d[i]);
            } else {
                assert(t[k] == r[r.len() - 1]);
            }
        }
        assert forall|i: int| 0 <= i < r.len() && now < (#[trigger] r[i]).1 implies t.contains(r[i]) by {
            if i < d.len() {
                assert(r[i] == d[i]);
                let k = choose|k: int| 0 <= k < p.len() && p[k] == d[i];
                assert(t[k] == p[k]);
            } else {
                assert(t[t.len() - 1] == r[i]);
            }
        }
    }
}

/// While a command is queued, a tick sends it before anything else, whatever
/// the settings, the cursor or the displays (edge hiding switched off
/// included): it leaves the queue, tracked windows and the guard stay as
/// they are, and only retry deadlines already past are dropped.
pub proof fn law_tick_sends_queued_command_first(
    m: EdgeHideModel,
    now: u64,
    config: EdgeHideConfig,
    cursor: Point,
    monitors: Seq<Monitor>,
    foreground: Option<WindowInfo>,
    input: EdgeHideInput,
    live: spec_fn(WindowHandle, Rect) -> EdgeHideLiveState,
)
    requires
        m.queue.len() > 0,
    ensures
        tick_spec(m, now, config, cursor, monitors, foreground, input, live) == (
            EdgeHideModel {
                states: m.states,
                queue: m.queue.drop_first(),
                retry: retry_alive(m.retry, now),
                guard: m.guard,
            },
            Some(m.queue[0]),
        ),
{
}

/// With nothing queued and some display known, preparing a batch restore
/// moves every placed window's restore rectangle into the work area of the
/// display that rectangle belongs to, and puts its hidden rectangle past the
/// same edge of that work area; its state and everything else about it stay.
pub proof fn law_prepare_restore_all_refits(m: EdgeHideModel, monitors: Seq<Monitor>, strip_size: i32)
    requires
        m.queue.len() == 0,
        monitors.len() > 0,
    ensures
        forall|i: int|
            0 <= i < m.states.len() ==> match placement_of(m.states[i].1) {
                Some((edge, restore, _)) => {
                    let w = monitors[monitor_for_rect_spec(restore, monitors)->0].work_area;
                    let a = restore_rect_spec(restore, w);
                    (#[trigger] prepare_restore_all_spec(m, monitors, strip_size).states[i]).1
                        == with_placement(m.states[i].1, a, hidden_rect_spec(a, w, edge, strip_size))
                },
                None => prepare_restore_all_spec(m, monitors, strip_size).states[i].1 == m.states[i].1,
            },
{
    let m1 = prepare_restore_all_spec(m, monitors, strip_size);
    assert forall|i: int| 0 <= i < m.states.len() implies match placement_of(m.states[i].1) {
        Some((edge, restore, _)) => {
            let w = monitors[monitor_for_rect_spec(restore, monitors)->0].work_area;
            let a = restore_rect_spec(restore, w);
            (#[trigger] m1.states[i]).1 == with_placement(m.states[i].1, a, hidden_rect_spec(a, w, edge, strip_size))
        },
        None => m1.states[i].1 == m.states[i].1,
    } by {
        if let Some((edge, restore, _)) = placement_of(m.states[i].1) {
            lemma_monitor_for_rect_in_range(restore, monitors);
        }
    }
}

} // verus!
