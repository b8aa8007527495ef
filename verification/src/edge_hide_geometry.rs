//! The geometry of edge hiding: where a window rests when it is restored,
//! where it sits when pushed past a screen edge, which monitor owns it and
//! whether an edge is exposed or shared with a neighbouring display.

use vstd::prelude::*;
use crate::config::{Edge, EdgeHideConfig, EdgeHideMonitorProfile};
use crate::text::text_eq;
use crate::geometry::monitor_id_spec;
use crate::geometry::{wide_coord_ok, Monitor, Rect, COORD_LIMIT};

verus! {

pub const EDGE_HIDE_PREVIEW_THICKNESS: i32 = 4;

pub open spec fn max32(a: i32, b: i32) -> i32 {
    if a >= b { a } else { b }
}

pub open spec fn min32(a: i32, b: i32) -> i32 {
    if a <= b { a } else { b }
}

pub fn max_i32(a: i32, b: i32) -> (r: i32)
    ensures
        r == max32(a, b),
{
    if a >= b { a } else { b }
}

pub fn min_i32(a: i32, b: i32) -> (r: i32)
    ensures
        r == min32(a, b),
{
    if a <= b { a } else { b }
}

pub open spec fn abs_int(v: int) -> int {
    if v < 0 { -v } else { v }
}

/// `v.clamp(lo, hi)` for `lo <= hi`.
pub open spec fn clamp_int(v: int, lo: int, hi: int) -> int {
    if v < lo { lo } else if v > hi { hi } else { v }
}

/// The visible part of a hidden window: its intersection with the work area.
pub open spec fn strip_rect_spec(hidden: Rect, work: Rect) -> Rect {
    Rect {
        left: max32(hidden.left, work.left),
        top: max32(hidden.top, work.top),
        right: min32(hidden.right, work.right),
        bottom: min32(hidden.bottom, work.bottom),
    }
}

pub fn strip_rect(hidden: Rect, work: Rect) -> (r: Rect)
    ensures
        r == strip_rect_spec(hidden, work),
{
    Rect {
        left: max_i32(hidden.left, work.left),
        top: max_i32(hidden.top, work.top),
        right: min_i32(hidden.right, work.right),
        bottom: min_i32(hidden.bottom, work.bottom),
    }
}

/// The rectangle a window is restored to: the same size, moved (and cut
/// where it is larger) so that it lies inside the work area.
pub open spec fn restore_rect_spec(original: Rect, work: Rect) -> Rect {
    let width = original.right - original.left;
    let height = original.bottom - original.top;
    let left = if width >= work.right - work.left {
        work.left as int
    } else {
        clamp_int(original.left as int, work.left as int, work.right - width)
    };
    let top = if height >= work.bottom - work.top {
        work.top as int
    } else {
        clamp_int(original.top as int, work.top as int, work.bottom - height)
    };
    Rect {
        left: left as i32,
        top: top as i32,
        right: (if left + width <= work.right { left + width } else { work.right as int }) as i32,
        bottom: (if top + height <= work.bottom { top + height } else { work.bottom as int }) as i32,
    }
}

pub fn restore_rect_for(original: Rect, work: Rect) -> (r: Rect)
    requires
        original.valid(),
        work.valid(),
    ensures
        r == restore_rect_spec(original, work),
        r.valid(),
{
    let width = original.right - original.left;
    let height = original.bottom - original.top;
    let area_width = work.right - work.left;
    let area_height = work.bottom - work.top;
    let left = if width >= area_width {
        work.left
    } else {
        let hi = work.right - width;
        if original.left < work.left {
            work.left
        } else if original.left > hi {
            hi
        } else {
            original.left
        }
    };
    let top = if height >= area_height {
        work.top
    } else {
        let hi = work.bottom - height;
        if original.top < work.top {
            work.top
        } else if original.top > hi {
            hi
        } else {
            original.top
        }
    };
    Rect {
        left,
        top,
        right: min_i32(left + width, work.right),
        bottom: min_i32(top + height, work.bottom),
    }
}

/// Where a window of the restore rectangle's size sits when it is pushed
/// past `edge`, leaving a strip of at least four pixels inside the work area.
pub open spec fn hidden_rect_spec(restore: Rect, work: Rect, edge: Edge, strip_size: i32) -> Rect {
    let strip: int = if strip_size >= 4 { strip_size as int } else { 4 };
    let w = restore.right - restore.left;
    let h = restore.bottom - restore.top;
    match edge {
        Edge::Left => Rect {
            left: (work.left - (w - strip)) as i32,
            top: restore.top,
            right: (work.left + strip) as i32,
            bottom: (restore.top + h) as i32,
        },
        Edge::Right => Rect {
            left: (work.right - strip) as i32,
            top: restore.top,
            right: (work.right + (w - strip)) as i32,
            bottom: (restore.top + h) as i32,
        },
        Edge::Top => Rect {
            left: restore.left,
            top: (work.top - (h - strip)) as i32,
            right: (restore.left + w) as i32,
            bottom: (work.top + strip) as i32,
        },
        Edge::Bottom => Rect {
            left: restore.left,
            top: (work.bottom - strip) as i32,
            right: (restore.left + w) as i32,
            bottom: (work.bottom + (h - strip)) as i32,
        },
    }
}

pub open spec fn strip_size_ok(strip_size: i32) -> bool {
    strip_size <= COORD_LIMIT
}

pub fn hidden_rect_for(restore: Rect, work: Rect, edge: Edge, strip_size: i32) -> (r: Rect)
    requires
        restore.valid(),
        work.valid(),
        strip_size_ok(strip_size),
    ensures
        r == hidden_rect_spec(restore, work, edge, strip_size),
        r.wide(),
{
    let strip = max_i32(strip_size, 4);
    let w = restore.right - restore.left;
    let h = restore.bottom - restore.top;
    match edge {
        Edge::Left => Rect {
            left: work.left - (w - strip),
            top: restore.top,
            right: work.left + strip,
            bottom: restore.top + h,
        },
        Edge::Right => Rect {
            left: work.right - strip,
            top: restore.top,
            right: work.right + (w - strip),
            bottom: restore.top + h,
        },
        Edge::Top => Rect {
            left: restore.left,
            top: work.top - (h - strip),
            right: restore.left + w,
            bottom: work.top + strip,
        },
        Edge::Bottom => Rect {
            left: restore.left,
            top: work.bottom - strip,
            right: restore.left + w,
            bottom: work.bottom + (h - strip),
        },
    }
}

/// The thin line drawn along the edge that would receive a window released
/// at `rect`: it spans the strip that stays visible once the window is hidden.
pub open spec fn edge_preview_spec(rect: Rect, work: Rect, edge: Edge, strip_size: i32) -> Rect {
    let visible = strip_rect_spec(
        hidden_rect_spec(restore_rect_spec(rect, work), work, edge, strip_size),
        work,
    );
    let t = EDGE_HIDE_PREVIEW_THICKNESS as int;
    match edge {
        Edge::Left => Rect {
            left: work.left,
            top: visible.top,
            right: min32((work.left + t) as i32, work.right),
            bottom: visible.bottom,
        },
        Edge::Top => Rect {
            left: visible.left,
            top: work.top,
            right: visible.right,
            bottom: min32((work.top + t) as i32, work.bottom),
        },
        Edge::Right => Rect {
            left: max32((work.right - t) as i32, work.left),
            top: visible.top,
            right: work.right,
            bottom: visible.bottom,
        },
        Edge::Bottom => Rect {
            left: visible.left,
            top: max32((work.bottom - t) as i32, work.top),
            right: visible.right,
            bottom: work.bottom,
        },
    }
}

pub fn edge_preview_rect(rect: Rect, work: Rect, edge: Edge, strip_size: i32) -> (r: Rect)
    requires
        rect.valid(),
        work.valid(),
        strip_size_ok(strip_size),
    ensures
        r == edge_preview_spec(rect, work, edge, strip_size),
{
    let restore = restore_rect_for(rect, work);
    let hidden = hidden_rect_for(restore, work, edge, strip_size);
    let visible = strip_rect(hidden, work);
    let thickness = EDGE_HIDE_PREVIEW_THICKNESS;
    match edge {
        Edge::Left => Rect {
            left: work.left,
            top: visible.top,
            right: min_i32(work.left + thickness, work.right),
            bottom: visible.bottom,
        },
        Edge::Top => Rect {
            left: visible.left,
            top: work.top,
            right: visible.right,
            bottom: min_i32(work.top + thickness, work.bottom),
        },
        Edge::Right => Rect {
            left: max_i32(work.right - thickness, work.left),
            top: visible.top,
            right: work.right,
            bottom: visible.bottom,
        },
        Edge::Bottom => Rect {
            left: visible.left,
            top: max_i32(work.bottom - thickness, work.top),
            right: visible.right,
            bottom: work.bottom,
        },
    }
}

/// Every side within two pixels: the tolerance for a window manager's
/// rounding when a placement is read back.
pub open spec fn roughly_equal_spec(a: Rect, b: Rect) -> bool {
    &&& abs_int(a.left - b.left) <= 2
    &&& abs_int(a.top - b.top) <= 2
    &&& abs_int(a.right - b.right) <= 2
    &&& abs_int(a.bottom - b.bottom) <= 2
}

fn close_enough(a: i32, b: i32) -> (r: bool)
    requires
        wide_coord_ok(a as int),
        wide_coord_ok(b as int),
    ensures
        r == (abs_int(a - b) <= 2),
{
    let d = a - b;
    -2 <= d && d <= 2
}

pub fn rects_roughly_equal(a: Rect, b: Rect) -> (r: bool)
    requires
        a.wide(),
        b.wide(),
    ensures
        r == roughly_equal_spec(a, b),
{
    close_enough(a.left, b.left) && close_enough(a.top, b.top) && close_enough(a.right, b.right)
        && close_enough(a.bottom, b.bottom)
}

/// How far `rect` reaches past `edge` of `area`, or 0.
pub open spec fn outside_amount_spec(rect: Rect, area: Rect, edge: Edge) -> int {
    let v: int = match edge {
        Edge::Left => area.left - rect.left,
        Edge::Top => area.top - rect.top,
        Edge::Right => rect.right - area.right,
        Edge::Bottom => rect.bottom - area.bottom,
    };
    if v > 0 { v } else { 0 }
}

pub fn outside_amount(rect: Rect, area: Rect, edge: Edge) -> (r: i32)
    requires
        rect.valid(),
        area.valid(),
    ensures
        r == outside_amount_spec(rect, area, edge),
{
    let v = match edge {
        Edge::Left => area.left - rect.left,
        Edge::Top => area.top - rect.top,
        Edge::Right => rect.right - area.right,
        Edge::Bottom => rect.bottom - area.bottom,
    };
    max_i32(v, 0)
}

/// An index found by exec code agrees with one a spec function names.
pub open spec fn same_index(r: Option<usize>, s: Option<int>) -> bool {
    match r {
        Some(i) => s == Some(i as int),
        None => s is None,
    }
}

/// How well a monitor fits a rectangle, compared lexicographically: any
/// overlap first, then the overlapping area, then closeness.
pub struct MonitorScore {
    pub overlaps: bool,
    pub area: i64,
    pub closeness: i64,
}

pub open spec fn score_spec(rect: Rect, area: Rect) -> (bool, int, int) {
    let ow_raw = min32(rect.right, area.right) - max32(rect.left, area.left);
    let oh_raw = min32(rect.bottom, area.bottom) - max32(rect.top, area.top);
    let ow: int = if ow_raw > 0 { ow_raw } else { 0 };
    let oh: int = if oh_raw > 0 { oh_raw } else { 0 };
    let overlap = ow * oh;
    let dx: int = if rect.right < area.left {
        area.left - rect.right
    } else if rect.left > area.right {
        rect.left - area.right
    } else {
        0
    };
    let dy: int = if rect.bottom < area.top {
        area.top - rect.bottom
    } else if rect.top > area.bottom {
        rect.top - area.bottom
    } else {
        0
    };
    (overlap > 0, overlap, -(dx * dx + dy * dy))
}

/// `a >= b` in the lexicographic order of scores.
pub open spec fn score_ge(a: (bool, int, int), b: (bool, int, int)) -> bool {
    ||| (a.0 && !b.0)
    ||| (a.0 == b.0 && a.1 > b.1)
    ||| (a.0 == b.0 && a.1 == b.1 && a.2 >= b.2)
}

impl MonitorScore {
    pub open spec fn view(self) -> (bool, int, int) {
        (self.overlaps, self.area as int, self.closeness as int)
    }

    fn at_least(&self, other: &MonitorScore) -> (r: bool)
        ensures
            r == score_ge(self.view(), other.view()),
    {
        (self.overlaps && !other.overlaps) || (self.overlaps == other.overlaps && self.area
            > other.area) || (self.overlaps == other.overlaps && self.area == other.area
            && self.closeness >= other.closeness)
    }
}

proof fn lemma_square_bound(a: int, b: int, bound: int)
    requires
        0 <= a <= bound,
        0 <= b <= bound,
    ensures
        0 <= a * b <= bound * bound,
        0 <= a * a <= bound * bound,
{
    assert(0 <= a * b <= bound * bound) by (nonlinear_arith)
        requires
            0 <= a <= bound,
            0 <= b <= bound,
    ;
    assert(0 <= a * a <= bound * bound) by (nonlinear_arith)
        requires
            0 <= a <= bound,
    ;
}

pub fn monitor_rect_score(rect: Rect, area: Rect) -> (s: MonitorScore)
    requires
        rect.valid(),
        area.valid(),
    ensures
        s.view() == score_spec(rect, area),
{
    let ow = max_i32(min_i32(rect.right, area.right) - max_i32(rect.left, area.left), 0) as i64;
    let oh = max_i32(min_i32(rect.bottom, area.bottom) - max_i32(rect.top, area.top), 0) as i64;
    proof {
        lemma_square_bound(ow as int, oh as int, 0x2000_0000);
    }
    let overlap = ow * oh;
    let dx: i64 = if rect.right < area.left {
        (area.left - rect.right) as i64
    } else if rect.left > area.right {
        (rect.left - area.right) as i64
    } else {
        0
    };
    let dy: i64 = if rect.bottom < area.top {
        (area.top - rect.bottom) as i64
    } else if rect.top > area.bottom {
        (rect.top - area.bottom) as i64
    } else {
        0
    };
    proof {
        lemma_square_bound(dx as int, dy as int, 0x2000_0000);
        lemma_square_bound(dy as int, dx as int, 0x2000_0000);
    }
    let distance_squared = dx * dx + dy * dy;
    MonitorScore { overlaps: overlap > 0, area: overlap, closeness: -distance_squared }
}

/// Among the first `n` monitors, the one that `Iterator::max_by_key` picks
/// for the score against `rect`: the last of the best.
pub open spec fn best_monitor_spec(rect: Rect, monitors: Seq<Monitor>, n: int) -> Option<int>
    decreases n,
{
    if n <= 0 {
        None
    } else {
        match best_monitor_spec(rect, monitors, n - 1) {
            None => Some(n - 1),
            Some(b) => if score_ge(
                score_spec(rect, monitors[n - 1].bounds),
                score_spec(rect, monitors[b].bounds),
            ) {
                Some(n - 1)
            } else {
                Some(b)
            },
        }
    }
}

/// The monitor a rectangle belongs to.
pub open spec fn monitor_for_rect_spec(rect: Rect, monitors: Seq<Monitor>) -> Option<int> {
    best_monitor_spec(rect, monitors, monitors.len() as int)
}

proof fn lemma_best_monitor_in_range(rect: Rect, monitors: Seq<Monitor>, n: int)
    requires
        n <= monitors.len(),
    ensures
        best_monitor_spec(rect, monitors, n) matches Some(b) ==> 0 <= b < n,
        n > 0 ==> best_monitor_spec(rect, monitors, n) is Some,
    decreases n,
{
    if n > 0 {
        lemma_best_monitor_in_range(rect, monitors, n - 1);
    }
}

/// The monitor found for a rectangle is one of the monitors given, and there
/// is one whenever any is given.
pub proof fn lemma_monitor_for_rect_in_range(rect: Rect, monitors: Seq<Monitor>)
    ensures
        monitor_for_rect_spec(rect, monitors) matches Some(b) ==> 0 <= b < monitors.len(),
        monitors.len() > 0 ==> monitor_for_rect_spec(rect, monitors) is Some,
{
    lemma_best_monitor_in_range(rect, monitors, monitors.len() as int);
}

pub fn monitor_for_rect(rect: Rect, monitors: &[Monitor]) -> (r: Option<usize>)
    requires
        rect.valid(),
        crate::geometry::monitors_valid(monitors@),
    ensures
        same_index(r, monitor_for_rect_spec(rect, monitors@)),
        r matches Some(i) ==> i < monitors@.len(),
{
    let mut best: Option<usize> = None;
    let mut best_score = MonitorScore { overlaps: false, area: 0, closeness: 0 };
    let mut i: usize = 0;
    while i < monitors.len()
        invariant
            i <= monitors@.len(),
            rect.valid(),
            crate::geometry::monitors_valid(monitors@),
            same_index(best, best_monitor_spec(rect, monitors@, i as int)),
            best matches Some(b) ==> b < i && best_score.view() == score_spec(
                rect,
                monitors@[b as int].bounds,
            ),
        decreases monitors@.len() - i,
    {
        proof {
            lemma_best_monitor_in_range(rect, monitors@, i as int);
            assert(monitors@[i as int].valid());
        }
        let score = monitor_rect_score(rect, monitors[i].bounds);
        match best {
            None => {
                best = Some(i);
                best_score = score;
            },
            Some(_) => {
                if score.at_least(&best_score) {
                    best = Some(i);
                    best_score = score;
                }
            },
        }
        i += 1;
    }
    proof {
        lemma_best_monitor_in_range(rect, monitors@, monitors@.len() as int);
    }
    best
}

/// `other` is a display beyond `edge` of `monitor` that touches it (within a
/// pixel) along the part of the edge that `rect` covers: a window pushed
/// there would appear on `other` instead of hiding.
pub open spec fn blocks_edge(other: Monitor, monitor: Monitor, edge: Edge, rect: Rect) -> bool {
    let perpendicular_overlap = match edge {
        Edge::Left | Edge::Right => min32(rect.bottom, other.bounds.bottom) - max32(
            rect.top,
            other.bounds.top,
        ) > 0,
        Edge::Top | Edge::Bottom => min32(rect.right, other.bounds.right) - max32(
            rect.left,
            other.bounds.left,
        ) > 0,
    };
    perpendicular_overlap && match edge {
        Edge::Left => other.bounds.left < monitor.bounds.left && other.bounds.right
            >= monitor.bounds.left - 1,
        Edge::Right => other.bounds.right > monitor.bounds.right && other.bounds.left
            <= monitor.bounds.right + 1,
        Edge::Top => other.bounds.top < monitor.bounds.top && other.bounds.bottom
            >= monitor.bounds.top - 1,
        Edge::Bottom => other.bounds.bottom > monitor.bounds.bottom && other.bounds.top
            <= monitor.bounds.bottom + 1,
    }
}

/// No other display blocks `edge` of monitor `m` along `rect`.
pub open spec fn edge_exposed_spec(monitors: Seq<Monitor>, m: int, edge: Edge, rect: Rect) -> bool {
    forall|i: int|
        0 <= i < monitors.len() && i != m ==> !blocks_edge(
            #[trigger] monitors[i],
            monitors[m],
            edge,
            rect,
        )
}

fn blocks(other: &Monitor, monitor: &Monitor, edge: Edge, rect: Rect) -> (r: bool)
    requires
        other.valid(),
        monitor.valid(),
        rect.valid(),
    ensures
        r == blocks_edge(*other, *monitor, edge, rect),
{
    let perpendicular_overlap = match edge {
        Edge::Left | Edge::Right => min_i32(rect.bottom, other.bounds.bottom) - max_i32(
            rect.top,
            other.bounds.top,
        ) > 0,
        Edge::Top | Edge::Bottom => min_i32(rect.right, other.bounds.right) - max_i32(
            rect.left,
            other.bounds.left,
        ) > 0,
    };
    if !perpendicular_overlap {
        return false;
    }
    match edge {
        Edge::Left => other.bounds.left < monitor.bounds.left && other.bounds.right
            >= monitor.bounds.left - 1,
        Edge::Right => other.bounds.right > monitor.bounds.right && other.bounds.left
            <= monitor.bounds.right + 1,
        Edge::Top => other.bounds.top < monitor.bounds.top && other.bounds.bottom
            >= monitor.bounds.top - 1,
        Edge::Bottom => other.bounds.bottom > monitor.bounds.bottom && other.bounds.top
            <= monitor.bounds.bottom + 1,
    }
}

pub fn is_edge_exposed_for_rect(m: usize, edge: Edge, rect: Rect, monitors: &[Monitor]) -> (r: bool)
    requires
        m < monitors@.len(),
        rect.valid(),
        crate::geometry::monitors_valid(monitors@),
    ensures
        r == edge_exposed_spec(monitors@, m as int, edge, rect),
{
    let mut i: usize = 0;
    while i < monitors.len()
        invariant
            i <= monitors@.len(),
            m < monitors@.len(),
            rect.valid(),
            crate::geometry::monitors_valid(monitors@),
            forall|j: int|
                0 <= j < i && j != m ==> !blocks_edge(
                    #[trigger] monitors@[j],
                    monitors@[m as int],
                    edge,
                    rect,
                ),
        decreases monitors@.len() - i,
    {
        if i != m {
            proof {
                assert(monitors@[i as int].valid());
                assert(monitors@[m as int].valid());
            }
            if blocks(&monitors[i], &monitors[m], edge, rect) {
                return false;
            }
        }
        i += 1;
    }
    true
}

/// The monitor a rectangle overlaps most, provided it overlaps it at all.
pub open spec fn render_monitor_spec(rect: Rect, monitors: Seq<Monitor>) -> Option<int> {
    match monitor_for_rect_spec(rect, monitors) {
        Some(m) => {
            let b = monitors[m].bounds;
            if min32(rect.right, b.right) - max32(rect.left, b.left) > 0 && min32(
                rect.bottom,
                b.bottom,
            ) - max32(rect.top, b.top) > 0 {
                Some(m)
            } else {
                None
            }
        },
        None => None,
    }
}

/// The monitor on which a hidden window's strip can be shown: the one its
/// restore rectangle overlaps, if `edge` of it is exposed there.
pub open spec fn exposed_monitor_spec(restore: Rect, edge: Edge, monitors: Seq<Monitor>) -> Option<
    int,
> {
    match render_monitor_spec(restore, monitors) {
        Some(m) => if edge_exposed_spec(monitors, m, edge, restore) {
            Some(m)
        } else {
            None
        },
        None => None,
    }
}

pub fn exposed_monitor_for_restore(restore: Rect, edge: Edge, monitors: &[Monitor]) -> (r: Option<
    usize,
>)
    requires
        restore.valid(),
        crate::geometry::monitors_valid(monitors@),
    ensures
        same_index(r, exposed_monitor_spec(restore, edge, monitors@)),
        r matches Some(i) ==> i < monitors@.len(),
{
    let m = match monitor_for_rect(restore, monitors) {
        Some(m) => m,
        None => return None,
    };
    proof {
        assert(monitors@[m as int].valid());
    }
    let b = monitors[m].bounds;
    let overlap_width = min_i32(restore.right, b.right) - max_i32(restore.left, b.left);
    let overlap_height = min_i32(restore.bottom, b.bottom) - max_i32(restore.top, b.top);
    if !(overlap_width > 0 && overlap_height > 0) {
        return None;
    }
    if is_edge_exposed_for_rect(m, edge, restore, monitors) {
        Some(m)
    } else {
        None
    }
}

/// Among the first `n` monitors, the best one (last of the best, by score
/// against `restore`) on which `edge` stays exposed for the restore
/// rectangle adjusted to that monitor.
pub open spec fn best_exposed_spec(restore: Rect, edge: Edge, monitors: Seq<Monitor>, n: int) -> Option<
    int,
>
    decreases n,
{
    if n <= 0 {
        None
    } else {
        let prev = best_exposed_spec(restore, edge, monitors, n - 1);
        let i = n - 1;
        if edge_exposed_spec(monitors, i, edge, restore_rect_spec(restore, monitors[i].work_area)) {
            match prev {
                None => Some(i),
                Some(b) => if score_ge(
                    score_spec(restore, monitors[i].bounds),
                    score_spec(restore, monitors[b].bounds),
                ) {
                    Some(i)
                } else {
                    Some(b)
                },
            }
        } else {
            prev
        }
    }
}

/// The monitor whose edge receives a hidden window again after the display
/// layout changed: its own monitor when the edge is still exposed there,
/// otherwise the best monitor on which it is.
pub open spec fn edge_restore_monitor_spec(restore: Rect, edge: Edge, monitors: Seq<Monitor>) -> Option<
    int,
> {
    match monitor_for_rect_spec(restore, monitors) {
        Some(m) if edge_exposed_spec(
            monitors,
            m,
            edge,
            restore_rect_spec(restore, monitors[m].work_area),
        ) => Some(m),
        _ => best_exposed_spec(restore, edge, monitors, monitors.len() as int),
    }
}

proof fn lemma_best_exposed_in_range(restore: Rect, edge: Edge, monitors: Seq<Monitor>, n: int)
    requires
        n <= monitors.len(),
    ensures
        best_exposed_spec(restore, edge, monitors, n) matches Some(b) ==> 0 <= b < n,
    decreases n,
{
    if n > 0 {
        lemma_best_exposed_in_range(restore, edge, monitors, n - 1);
    }
}

pub fn monitor_for_edge_restore(restore: Rect, edge: Edge, monitors: &[Monitor]) -> (r: Option<
    usize,
>)
    requires
        restore.valid(),
        crate::geometry::monitors_valid(monitors@),
    ensures
        same_index(r, edge_restore_monitor_spec(restore, edge, monitors@)),
        r matches Some(i) ==> i < monitors@.len(),
{
    if let Some(m) = monitor_for_rect(restore, monitors) {
        proof {
            assert(monitors@[m as int].valid());
        }
        let adjusted = restore_rect_for(restore, monitors[m].work_area);
        if is_edge_exposed_for_rect(m, edge, adjusted, monitors) {
            return Some(m);
        }
    }
    let mut best: Option<usize> = None;
    let mut best_score = MonitorScore { overlaps: false, area: 0, closeness: 0 };
    let mut i: usize = 0;
    while i < monitors.len()
        invariant
            i <= monitors@.len(),
            restore.valid(),
            crate::geometry::monitors_valid(monitors@),
            same_index(best, best_exposed_spec(restore, edge, monitors@, i as int)),
            best matches Some(b) ==> b < i && best_score.view() == score_spec(
                restore,
                monitors@[b as int].bounds,
            ),
        decreases monitors@.len() - i,
    {
        proof {
            lemma_best_exposed_in_range(restore, edge, monitors@, i as int);
            assert(monitors@[i as int].valid());
        }
        let adjusted = restore_rect_for(restore, monitors[i].work_area);
        if is_edge_exposed_for_rect(i, edge, adjusted, monitors) {
            let score = monitor_rect_score(restore, monitors[i].bounds);
            match best {
                None => {
                    best = Some(i);
                    best_score = score;
                },
                Some(_) => {
                    if score.at_least(&best_score) {
                        best = Some(i);
                        best_score = score;
                    }
                },
            }
        }
        i += 1;
    }
    best
}

/// Sizes in the edge-hide settings that stay within the coordinate range.
pub open spec fn edge_config_ok(config: EdgeHideConfig) -> bool {
    config.strip_size <= COORD_LIMIT && config.trigger_distance <= COORD_LIMIT
}

/// A window reaches past `edge` by at least the configured share of its size.
pub open spec fn ratio_triggered_spec(rect: Rect, area: Rect, edge: Edge, config: EdgeHideConfig) -> bool {
    let outside = outside_amount_spec(rect, area, edge);
    let dimension_raw: int = match edge {
        Edge::Left | Edge::Right => rect.right - rect.left,
        Edge::Top | Edge::Bottom => rect.bottom - rect.top,
    };
    let dimension: int = if dimension_raw >= 1 { dimension_raw } else { 1 };
    config.ratio_trigger_enabled && outside > 0 && outside * 100 >= dimension * clamp_int(
        config.trigger_ratio as int,
        1,
        100,
    )
}

pub fn ratio_triggered(rect: Rect, area: Rect, edge: Edge, config: &EdgeHideConfig) -> (r: bool)
    requires
        rect.valid(),
        area.valid(),
    ensures
        r == ratio_triggered_spec(rect, area, edge, *config),
{
    if !config.ratio_trigger_enabled {
        return false;
    }
    let outside = outside_amount(rect, area, edge) as i64;
    let dimension_raw = match edge {
        Edge::Left | Edge::Right => rect.right - rect.left,
        Edge::Top | Edge::Bottom => rect.bottom - rect.top,
    };
    let dimension = max_i32(dimension_raw, 1) as i64;
    let ratio: i64 = if config.trigger_ratio < 1 {
        1
    } else if config.trigger_ratio > 100 {
        100
    } else {
        config.trigger_ratio as i64
    };
    proof {
        assert(0 <= dimension * ratio <= 0x2000_0000 * 100) by (nonlinear_arith)
            requires
                1 <= dimension <= 0x2000_0000,
                1 <= ratio <= 100,
        ;
    }
    outside > 0 && outside * 100 >= dimension * ratio
}

/// The index of the first profile, at or after `i`, for the monitor `id`.
pub open spec fn profile_index_from(profiles: Seq<EdgeHideMonitorProfile>, id: Seq<char>, i: int) -> Option<
    int,
>
    decreases profiles.len() - i,
{
    if i < 0 || i >= profiles.len() {
        None
    } else if profiles[i].monitor_id@ == id {
        Some(i)
    } else {
        profile_index_from(profiles, id, i + 1)
    }
}

/// The edges that hide windows on a monitor: those of its profile when the
/// settings hold one for it, else the global ones.
pub open spec fn edges_for_monitor_spec(config: EdgeHideConfig, monitor: Monitor) -> Seq<Edge> {
    match profile_index_from(config.monitor_profiles@, monitor_id_spec(monitor), 0) {
        Some(k) => config.monitor_profiles@[k].edges@,
        None => config.edges@,
    }
}

pub fn edges_for_monitor<'a>(config: &'a EdgeHideConfig, monitor: &Monitor) -> (r: &'a Vec<Edge>)
    ensures
        r@ == edges_for_monitor_spec(*config, *monitor),
{
    let id = monitor.id();
    let mut i: usize = 0;
    while i < config.monitor_profiles.len()
        invariant
            i <= config.monitor_profiles@.len(),
            id@ == monitor_id_spec(*monitor),
            profile_index_from(config.monitor_profiles@, id@, 0) == profile_index_from(
                config.monitor_profiles@,
                id@,
                i as int,
            ),
        decreases config.monitor_profiles@.len() - i,
    {
        if text_eq(config.monitor_profiles[i].monitor_id.as_str(), id.as_str()) {
            return &config.monitor_profiles[i].edges;
        }
        i += 1;
    }
    &config.edges
}

/// `rect` is close enough to `edge` of `area` to hide there: within the
/// trigger distance (when that trigger is on) or past it by the trigger ratio.
pub open spec fn near_edge_spec(rect: Rect, area: Rect, edge: Edge, config: EdgeHideConfig) -> bool {
    let d: int = if config.trigger_distance >= 1 { config.trigger_distance as int } else { 1 };
    let gap: int = match edge {
        Edge::Left => rect.left - area.left,
        Edge::Top => rect.top - area.top,
        Edge::Right => rect.right - area.right,
        Edge::Bottom => rect.bottom - area.bottom,
    };
    (config.distance_trigger_enabled && abs_int(gap) <= d) || ratio_triggered_spec(
        rect,
        area,
        edge,
        config,
    )
}

/// The first of `edges`, from position `i`, near which `rect` lies and
/// which is exposed on monitor `m`.
pub open spec fn first_edge_from(
    rect: Rect,
    monitors: Seq<Monitor>,
    m: int,
    config: EdgeHideConfig,
    edges: Seq<Edge>,
    i: int,
) -> Option<Edge>
    decreases edges.len() - i,
{
    if i < 0 || i >= edges.len() {
        None
    } else if near_edge_spec(rect, monitors[m].work_area, edges[i], config) && edge_exposed_spec(
        monitors,
        m,
        edges[i],
        rect,
    ) {
        Some(edges[i])
    } else {
        first_edge_from(rect, monitors, m, config, edges, i + 1)
    }
}

/// The edge (and the monitor) where a window at `rect` would hide.
pub open spec fn detect_window_edge_spec(rect: Rect, monitors: Seq<Monitor>, config: EdgeHideConfig) -> Option<
    (Edge, int),
> {
    match monitor_for_rect_spec(rect, monitors) {
        None => None,
        Some(m) => match first_edge_from(
            rect,
            monitors,
            m,
            config,
            edges_for_monitor_spec(config, monitors[m]),
            0,
        ) {
            Some(e) => Some((e, m)),
            None => None,
        },
    }
}

pub fn detect_window_edge(rect: Rect, monitors: &[Monitor], config: &EdgeHideConfig) -> (r: Option<
    (Edge, usize),
>)
    requires
        rect.valid(),
        crate::geometry::monitors_valid(monitors@),
        edge_config_ok(*config),
    ensures
        match r {
            Some((e, m)) => detect_window_edge_spec(rect, monitors@, *config) == Some(
                (e, m as int),
            ) && m < monitors@.len(),
            None => detect_window_edge_spec(rect, monitors@, *config) is None,
        },
{
    let m = match monitor_for_rect(rect, monitors) {
        Some(m) => m,
        None => return None,
    };
    proof {
        assert(monitors@[m as int].valid());
    }
    let area = monitors[m].work_area;
    let distance = max_i32(config.trigger_distance, 1);
    let edges = edges_for_monitor(config, &monitors[m]);
    assert(edges@ == edges_for_monitor_spec(*config, monitors@[m as int]));
    let mut i: usize = 0;
    while i < edges.len()
        invariant
            i <= edges@.len(),
            m < monitors@.len(),
            area == monitors@[m as int].work_area,
            area.valid(),
            rect.valid(),
            crate::geometry::monitors_valid(monitors@),
            edge_config_ok(*config),
            distance as int == (if config.trigger_distance >= 1 {
                config.trigger_distance as int
            } else {
                1
            }),
            edges@ == edges_for_monitor_spec(*config, monitors@[m as int]),
            monitor_for_rect_spec(rect, monitors@) == Some(m as int),
            first_edge_from(rect, monitors@, m as int, *config, edges@, 0) == first_edge_from(
                rect,
                monitors@,
                m as int,
                *config,
                edges@,
                i as int,
            ),
        decreases edges@.len() - i,
    {
        let edge = edges[i];
        let gap = match edge {
            Edge::Left => rect.left - area.left,
            Edge::Top => rect.top - area.top,
            Edge::Right => rect.right - area.right,
            Edge::Bottom => rect.bottom - area.bottom,
        };
        let near = (config.distance_trigger_enabled && -distance <= gap && gap <= distance)
            || ratio_triggered(rect, area, edge, config);
        if near && is_edge_exposed_for_rect(m, edge, rect, monitors) {
            assert(near_edge_spec(rect, area, edge, *config));
            assert(first_edge_from(rect, monitors@, m as int, *config, edges@, i as int) == Some(
                edge,
            ));
            return Some((edge, m));
        }
        assert(!(near_edge_spec(rect, area, edge, *config) && edge_exposed_spec(
            monitors@,
            m as int,
            edge,
            rect,
        )));
        i += 1;
    }
    None
}

/// The share trigger compares how far a window reaches past an edge with
/// the window's extent across that edge: its height for the top and bottom
/// edges, its width for the left and right ones (at least one pixel), times
/// the configured percentage held to 1..=100. It fires exactly when the
/// reach is positive and at least that share.
pub proof fn law_ratio_trigger_measures_across_the_edge(rect: Rect, area: Rect, edge: Edge, config: EdgeHideConfig)
    ensures
        ({
            let reach: int = match edge {
                Edge::Left => area.left - rect.left,
                Edge::Top => area.top - rect.top,
                Edge::Right => rect.right - area.right,
                Edge::Bottom => rect.bottom - area.bottom,
            };
            let across: int = if edge == Edge::Top || edge == Edge::Bottom {
                rect.spec_height()
            } else {
                rect.spec_width()
            };
            let size: int = if across >= 1 { across } else { 1 };
            let percent: int = if config.trigger_ratio < 1 {
                1
            } else if config.trigger_ratio > 100 {
                100
            } else {
                config.trigger_ratio as int
            };
            ratio_triggered_spec(rect, area, edge, config) <==> config.ratio_trigger_enabled && reach > 0
                && reach * 100 >= size * percent
        }),
{
}

/// Whether a window reaches far enough past the top or bottom edge does not
/// depend on its horizontal extent, nor past the left or right edge on its
/// vertical extent.
pub proof fn law_ratio_trigger_ignores_the_other_axis(a: Rect, b: Rect, area: Rect, edge: Edge, config: EdgeHideConfig)
    requires
        (edge == Edge::Top || edge == Edge::Bottom) ==> a.top == b.top && a.bottom == b.bottom,
        (edge == Edge::Left || edge == Edge::Right) ==> a.left == b.left && a.right == b.right,
    ensures
        ratio_triggered_spec(a, area, edge, config) == ratio_triggered_spec(b, area, edge, config),
{
}

/// With the distance trigger on, a window is near an edge whenever its own
/// side toward that edge lies within the trigger distance (at least one
/// pixel) of the work area's side, inside or outside; with both triggers
/// off it is near no edge.
pub proof fn law_distance_trigger_watches_the_facing_side(rect: Rect, area: Rect, edge: Edge, config: EdgeHideConfig)
    ensures
        ({
            let d: int = if config.trigger_distance >= 1 { config.trigger_distance as int } else { 1 };
            let (side, limit): (int, int) = match edge {
                Edge::Left => (rect.left as int, area.left as int),
                Edge::Top => (rect.top as int, area.top as int),
                Edge::Right => (rect.right as int, area.right as int),
                Edge::Bottom => (rect.bottom as int, area.bottom as int),
            };
            &&& config.distance_trigger_enabled && limit - d <= side <= limit + d ==> near_edge_spec(
                rect,
                area,
                edge,
                config,
            )
            &&& !config.distance_trigger_enabled && !config.ratio_trigger_enabled ==> !near_edge_spec(
                rect,
                area,
                edge,
                config,
            )
            &&& !config.ratio_trigger_enabled ==> (near_edge_spec(rect, area, edge, config) <==> (
            config.distance_trigger_enabled && limit - d <= side <= limit + d))
        }),
{
}

} // verus!
