//! Hot zones: the four corners of a display and the centered forty percent of
//! each of its edges.

use vstd::prelude::*;
use vstd::arithmetic::div_mod::{lemma_div_denominator, lemma_fundamental_div_mod};
use vstd::arithmetic::power::lemma_pow0;
use vstd::arithmetic::power2::{lemma_pow2_unfold, pow2};
use crate::config::HotzoneId;
use crate::geometry::{monitors_valid, Monitor, Point, Rect};

verus! {

/// The single-precision value nearest to 0.4, as a multiple of 2^-25.
pub const SINGLE_FORTY_PERCENT: u64 = 13421773;

/// How many low bits of `x` fall outside 24 significant bits.
pub open spec fn significand_shift(x: nat) -> nat
    decreases x,
{
    if x < 0x100_0000 {
        0
    } else {
        1 + significand_shift(x / 2)
    }
}

/// `x` rounded to 24 significant bits, ties to even: the value single
/// precision keeps of `x` (or of `x` times a power of two).
pub open spec fn single_rounded(x: nat) -> nat {
    let p = pow2(significand_shift(x));
    let q = x / p;
    let r = x % p;
    if 2 * r > p || (2 * r == p && q % 2 == 1) {
        (q + 1) * p
    } else {
        q * p
    }
}

/// Forty percent of a length as single precision computes it: the length
/// rounded to a single, times the single nearest to 0.4, the product rounded
/// to a single, and that rounded half away from zero to a whole pixel. Up to
/// 5,242,880 pixels this is the nearest pixel to forty percent.
pub open spec fn forty_percent(len: int) -> int {
    let product = single_rounded(single_rounded(len as nat) * SINGLE_FORTY_PERCENT as nat);
    ((product + 0x100_0000) / 0x200_0000) as int
}

pub open spec fn hotzone_rect_spec(id: HotzoneId, bounds: Rect, edge_size: int) -> Rect {
    let edge = if edge_size >= 1 {
        edge_size
    } else {
        1
    };
    let w = bounds.right - bounds.left;
    let h = bounds.bottom - bounds.top;
    let hl = forty_percent(w);
    let vl = forty_percent(h);
    let hs = bounds.left + (w - hl) / 2;
    let vs = bounds.top + (h - vl) / 2;
    let (l, t, r, b): (int, int, int, int) = match id {
        HotzoneId::TopLeft => (
            bounds.left as int,
            bounds.top as int,
            bounds.left + edge,
            bounds.top + edge,
        ),
        HotzoneId::Top => (hs, bounds.top as int, hs + hl, bounds.top + edge),
        HotzoneId::TopRight => (
            bounds.right - edge,
            bounds.top as int,
            bounds.right as int,
            bounds.top + edge,
        ),
        HotzoneId::Right => (bounds.right - edge, vs, bounds.right as int, vs + vl),
        HotzoneId::BottomRight => (
            bounds.right - edge,
            bounds.bottom - edge,
            bounds.right as int,
            bounds.bottom as int,
        ),
        HotzoneId::Bottom => (hs, bounds.bottom - edge, hs + hl, bounds.bottom as int),
        HotzoneId::BottomLeft => (
            bounds.left as int,
            bounds.bottom - edge,
            bounds.left + edge,
            bounds.bottom as int,
        ),
        HotzoneId::Left => (bounds.left as int, vs, bounds.left + edge, vs + vl),
    };
    Rect { left: l as i32, top: t as i32, right: r as i32, bottom: b as i32 }
}

proof fn lemma_significand(x: nat)
    ensures
        pow2(significand_shift(x)) >= 1,
        x / pow2(significand_shift(x)) < 0x100_0000,
        significand_shift(x) > 0 ==> x / pow2(significand_shift(x)) >= 0x80_0000,
        significand_shift(x) == 0 ==> pow2(significand_shift(x)) == 1,
    decreases x,
{
    let s = significand_shift(x);
    if x < 0x100_0000 {
        lemma_pow0(2);
    } else {
        let t = significand_shift(x / 2);
        lemma_significand(x / 2);
        lemma_pow2_unfold(s);
        assert(s - 1 == t);
        lemma_div_denominator(x as int, 2, pow2(t) as int);
        assert(pow2(s) == 2 * pow2(t));
    }
}

/// Rounding to 24 significant bits moves a value up by at most one part in
/// 2^23.
proof fn lemma_single_rounded_bound(x: nat)
    ensures
        single_rounded(x) * 0x80_0000 <= x * 0x80_0001,
{
    lemma_significand(x);
    let p = pow2(significand_shift(x));
    let q = x / p;
    let r = x % p;
    lemma_fundamental_div_mod(x as int, p as int);
    if 2 * r > p || (2 * r == p && q % 2 == 1) {
        if significand_shift(x) == 0 {
            assert(r == 0);
        }
        assert(single_rounded(x) * 0x80_0000 <= x * 0x80_0001) by (nonlinear_arith)
            requires
                single_rounded(x) == (q + 1) * p,
                x == p * q + r,
                p >= 1,
                q >= 0x80_0000,
                r >= 0,
        ;
    } else {
        assert(single_rounded(x) * 0x80_0000 <= x * 0x80_0001) by (nonlinear_arith)
            requires
                single_rounded(x) == q * p,
                x == p * q + r,
                r >= 0,
        ;
    }
}

/// Forty percent of a display length is never negative and never longer
/// than the length.
pub proof fn lemma_forty_percent_within(len: int)
    requires
        0 <= len <= 2 * crate::geometry::COORD_LIMIT,
    ensures
        0 <= forty_percent(len) <= len,
{
    let single_len = single_rounded(len as nat);
    let product = single_rounded(single_len * SINGLE_FORTY_PERCENT as nat);
    lemma_single_rounded_bound(len as nat);
    lemma_single_rounded_bound(single_len * SINGLE_FORTY_PERCENT as nat);
    assert(product + 0x100_0000 < (len + 1) * 0x200_0000) by (nonlinear_arith)
        requires
            0 <= len,
            single_len * 0x80_0000 <= len * 0x80_0001,
            product * 0x80_0000 <= single_len * 13421773 * 0x80_0001,
    ;
}

/// `x` rounded to 24 significant bits, ties to even.
fn single_round(x: u64) -> (r: u64)
    requires
        x < 0x40_0000_0000_0000,
    ensures
        r == single_rounded(x as nat),
        r * 0x80_0000 <= x * 0x80_0001,
{
    proof {
        lemma_pow0(2);
    }
    let mut y: u64 = x;
    let mut p: u64 = 1;
    let ghost mut s: nat = 0;
    while y >= 0x100_0000
        invariant
            x < 0x40_0000_0000_0000,
            p == pow2(s),
            1 <= p,
            y == x as nat / p as nat,
            p * y <= x,
            significand_shift(x as nat) == s + significand_shift(y as nat),
            s > 0 ==> y >= 0x80_0000,
        decreases y,
    {
        proof {
            lemma_pow2_unfold(s + 1);
            lemma_div_denominator(x as int, p as int, 2);
            assert(p * 2 * (y / 2) <= p * y) by (nonlinear_arith)
                requires
                    p >= 1,
            ;
            assert(p <= x) by (nonlinear_arith)
                requires
                    p * y <= x,
                    y >= 1,
                    p >= 1,
            ;
        }
        y = y / 2;
        p = p * 2;
        proof {
            s = s + 1;
        }
    }
    proof {
        lemma_fundamental_div_mod(x as int, p as int);
        assert(significand_shift(y as nat) == 0);
    }
    let rest = x - p * y;
    if 2 * rest > p || (2 * rest == p && y % 2 == 1) {
        proof {
            assert(p * 0x80_0000 <= x) by (nonlinear_arith)
                requires
                    s > 0 ==> y >= 0x80_0000,
                    s == 0 ==> p == 1 && rest == 0,
                    p * y <= x,
                    2 * rest >= p,
                    p >= 1,
            ;
            assert((y + 1) * p == p * y + p) by (nonlinear_arith);
        }
        (y + 1) * p
    } else {
        proof {
            assert(y * p == p * y) by (nonlinear_arith);
        }
        y * p
    }
}

fn forty_percent_of(len: i32) -> (r: i32)
    requires
        0 <= len <= 2 * crate::geometry::COORD_LIMIT,
    ensures
        r == forty_percent(len as int),
        0 <= r <= len,
{
    let single_len = single_round(len as u64);
    let product = single_round(single_len * SINGLE_FORTY_PERCENT);
    proof {
        assert(product + 0x100_0000 < (len + 1) * 0x200_0000) by (nonlinear_arith)
            requires
                0 <= len,
                single_len * 0x80_0000 <= len * 0x80_0001,
                product * 0x80_0000 <= single_len * SINGLE_FORTY_PERCENT * 0x80_0001,
                SINGLE_FORTY_PERCENT == 13421773,
        ;
    }
    ((product + 0x100_0000) / 0x200_0000) as i32
}

/// The rectangle of hot zone `id` on a display with `bounds`: a square of
/// side `edge_size` (at least one) in a corner, or a band of that thickness
/// along the centered forty percent of an edge.
pub fn hotzone_rect(id: HotzoneId, bounds: Rect, edge_size: i32) -> (r: Rect)
    requires
        bounds.valid(),
        edge_size <= crate::geometry::COORD_LIMIT,
    ensures
        r == hotzone_rect_spec(id, bounds, edge_size as int),
        r.wide(),
{
    let edge: i32 = if edge_size >= 1 {
        edge_size
    } else {
        1
    };
    let w = bounds.right - bounds.left;
    let h = bounds.bottom - bounds.top;
    let horizontal_length = forty_percent_of(w);
    let vertical_length = forty_percent_of(h);
    let horizontal_start = bounds.left + (w - horizontal_length) / 2;
    let vertical_start = bounds.top + (h - vertical_length) / 2;
    match id {
        HotzoneId::TopLeft => Rect {
            left: bounds.left,
            top: bounds.top,
            right: bounds.left + edge,
            bottom: bounds.top + edge,
        },
        HotzoneId::Top => Rect {
            left: horizontal_start,
            top: bounds.top,
            right: horizontal_start + horizontal_length,
            bottom: bounds.top + edge,
        },
        HotzoneId::TopRight => Rect {
            left: bounds.right - edge,
            top: bounds.top,
            right: bounds.right,
            bottom: bounds.top + edge,
        },
        HotzoneId::Right => Rect {
            left: bounds.right - edge,
            top: vertical_start,
            right: bounds.right,
            bottom: vertical_start + vertical_length,
        },
        HotzoneId::BottomRight => Rect {
            left: bounds.right - edge,
            top: bounds.bottom - edge,
            right: bounds.right,
            bottom: bounds.bottom,
        },
        HotzoneId::Bottom => Rect {
            left: horizontal_start,
            top: bounds.bottom - edge,
            right: horizontal_start + horizontal_length,
            bottom: bounds.bottom,
        },
        HotzoneId::BottomLeft => Rect {
            left: bounds.left,
            top: bounds.bottom - edge,
            right: bounds.left + edge,
            bottom: bounds.bottom,
        },
        HotzoneId::Left => Rect {
            left: bounds.left,
            top: vertical_start,
            right: bounds.left + edge,
            bottom: vertical_start + vertical_length,
        },
    }
}

/// The order in which hot zones are tried: corners before edges.
pub open spec fn detection_order() -> Seq<HotzoneId> {
    seq![
        HotzoneId::TopLeft,
        HotzoneId::TopRight,
        HotzoneId::BottomRight,
        HotzoneId::BottomLeft,
        HotzoneId::Top,
        HotzoneId::Right,
        HotzoneId::Bottom,
        HotzoneId::Left,
    ]
}

/// The index of the first display, from `i` on, whose bounds hold `p`.
pub open spec fn first_display_from(monitors: Seq<Monitor>, p: Point, i: int) -> Option<int>
    decreases monitors.len() - i,
{
    if i < 0 || i >= monitors.len() {
        None
    } else if monitors[i].bounds.spec_contains(p) {
        Some(i)
    } else {
        first_display_from(monitors, p, i + 1)
    }
}

/// The first zone in detection order, from position `k` on, whose rectangle
/// holds `p`.
pub open spec fn first_zone_from(bounds: Rect, edge_size: int, p: Point, k: int) -> Option<HotzoneId>
    decreases 8 - k,
{
    if k < 0 || k >= 8 {
        None
    } else if hotzone_rect_spec(detection_order()[k], bounds, edge_size).spec_contains(p) {
        Some(detection_order()[k])
    } else {
        first_zone_from(bounds, edge_size, p, k + 1)
    }
}

/// The hot zone under the cursor on the first display holding it.
pub open spec fn detect_hotzone_spec(cursor: Point, monitors: Seq<Monitor>, edge_size: int) -> Option<
    HotzoneId,
> {
    match first_display_from(monitors, cursor, 0) {
        Some(i) => first_zone_from(monitors[i].bounds, edge_size, cursor, 0),
        None => None,
    }
}

fn zone_at(k: usize) -> (id: HotzoneId)
    requires
        k < 8,
    ensures
        id == detection_order()[k as int],
{
    match k {
        0 => HotzoneId::TopLeft,
        1 => HotzoneId::TopRight,
        2 => HotzoneId::BottomRight,
        3 => HotzoneId::BottomLeft,
        4 => HotzoneId::Top,
        5 => HotzoneId::Right,
        6 => HotzoneId::Bottom,
        _ => HotzoneId::Left,
    }
}

fn first_display(cursor: Point, monitors: &[Monitor]) -> (r: Option<usize>)
    ensures
        match r {
            Some(i) => first_display_from(monitors@, cursor, 0) == Some(i as int) && i
                < monitors@.len(),
            None => first_display_from(monitors@, cursor, 0) is None,
        },
{
    let mut i: usize = 0;
    while i < monitors.len()
        invariant
            i <= monitors@.len(),
            first_display_from(monitors@, cursor, 0) == first_display_from(
                monitors@,
                cursor,
                i as int,
            ),
        decreases monitors@.len() - i,
    {
        if monitors[i].bounds.contains(cursor) {
            return Some(i);
        }
        i += 1;
    }
    None
}

/// The hot zone under `cursor`, corners first, on the first display whose
/// bounds hold it.
pub fn detect_hotzone(cursor: Point, monitors: &[Monitor], edge_size: i32) -> (r: Option<HotzoneId>)
    requires
        monitors_valid(monitors@),
        edge_size <= crate::geometry::COORD_LIMIT,
    ensures
        r == detect_hotzone_spec(cursor, monitors@, edge_size as int),
{
    let i = match first_display(cursor, monitors) {
        Some(i) => i,
        None => return None,
    };
    proof {
        assert(monitors@[i as int].valid());
    }
    let bounds = monitors[i].bounds;
    let mut k: usize = 0;
    while k < 8
        invariant
            k <= 8,
            bounds.valid(),
            detect_hotzone_spec(cursor, monitors@, edge_size as int) == first_zone_from(
                bounds,
                edge_size as int,
                cursor,
                0,
            ),
            edge_size <= crate::geometry::COORD_LIMIT,
            first_zone_from(bounds, edge_size as int, cursor, 0) == first_zone_from(
                bounds,
                edge_size as int,
                cursor,
                k as int,
            ),
        decreases 8 - k,
    {
        let id = zone_at(k);
        let zone = hotzone_rect(id, bounds, edge_size);
        if zone.contains(cursor) {
            return Some(id);
        }
        k += 1;
    }
    None
}

/// Every hot zone lies inside its display when the edge thickness fits in
/// it.
pub proof fn law_hotzones_stay_on_display(id: HotzoneId, bounds: Rect, edge_size: int)
    requires
        bounds.valid(),
        1 <= edge_size <= bounds.spec_width(),
        edge_size <= bounds.spec_height(),
    ensures
        ({
            let r = hotzone_rect_spec(id, bounds, edge_size);
            &&& bounds.left <= r.left <= r.right <= bounds.right
            &&& bounds.top <= r.top <= r.bottom <= bounds.bottom
        }),
{
    let w = bounds.right - bounds.left;
    let h = bounds.bottom - bounds.top;
    lemma_forty_percent_within(w);
    lemma_forty_percent_within(h);
}

/// A reported zone is on a display holding the cursor, and its rectangle
/// holds the cursor.
pub proof fn law_detected_zone_holds_cursor(cursor: Point, monitors: Seq<Monitor>, edge_size: int)
    ensures
        detect_hotzone_spec(cursor, monitors, edge_size) matches Some(id) ==> exists|i: int|
            0 <= i < monitors.len() && #[trigger] monitors[i].bounds.spec_contains(cursor)
                && hotzone_rect_spec(id, monitors[i].bounds, edge_size).spec_contains(cursor),
{
    if let Some(i) = first_display_from(monitors, cursor, 0) {
        lemma_first_display(monitors, cursor, 0);
        lemma_first_zone(monitors[i].bounds, edge_size, cursor, 0);
    }
}

proof fn lemma_first_display(monitors: Seq<Monitor>, p: Point, i: int)
    ensures
        first_display_from(monitors, p, i) matches Some(j) ==> 0 <= j < monitors.len()
            && monitors[j].bounds.spec_contains(p),
    decreases monitors.len() - i,
{
    if 0 <= i < monitors.len() && !monitors[i].bounds.spec_contains(p) {
        lemma_first_display(monitors, p, i + 1);
    }
}

proof fn lemma_first_zone(bounds: Rect, edge_size: int, p: Point, k: int)
    ensures
        first_zone_from(bounds, edge_size, p, k) matches Some(id) ==> hotzone_rect_spec(
            id,
            bounds,
            edge_size,
        ).spec_contains(p),
    decreases 8 - k,
{
    if 0 <= k < 8 && !hotzone_rect_spec(detection_order()[k], bounds, edge_size).spec_contains(p) {
        lemma_first_zone(bounds, edge_size, p, k + 1);
    }
}

pub open spec fn is_corner(id: HotzoneId) -> bool {
    id == HotzoneId::TopLeft || id == HotzoneId::TopRight || id == HotzoneId::BottomRight || id
        == HotzoneId::BottomLeft
}

/// The place of a zone in the detection order: the corners first.
pub open spec fn detection_index(id: HotzoneId) -> int {
    match id {
        HotzoneId::TopLeft => 0,
        HotzoneId::TopRight => 1,
        HotzoneId::BottomRight => 2,
        HotzoneId::BottomLeft => 3,
        HotzoneId::Top => 4,
        HotzoneId::Right => 5,
        HotzoneId::Bottom => 6,
        HotzoneId::Left => 7,
    }
}

proof fn lemma_detection_index(id: HotzoneId)
    ensures
        0 <= detection_index(id) < 8,
        detection_order()[detection_index(id)] == id,
        is_corner(id) <==> detection_index(id) < 4,
{
}

proof fn lemma_first_zone_is_first(bounds: Rect, edge_size: int, p: Point, k: int)
    requires
        0 <= k <= 8,
    ensures
        match first_zone_from(bounds, edge_size, p, k) {
            Some(id) => k <= detection_index(id) < 8 && hotzone_rect_spec(id, bounds, edge_size).spec_contains(p)
                && forall|l: int|
                k <= l < detection_index(id) ==> !hotzone_rect_spec(
                    #[trigger] detection_order()[l],
                    bounds,
                    edge_size,
                ).spec_contains(p),
            None => forall|l: int|
                k <= l < 8 ==> !hotzone_rect_spec(#[trigger] detection_order()[l], bounds, edge_size).spec_contains(p),
        },
    decreases 8 - k,
{
    if k < 8 {
        lemma_detection_index(detection_order()[k]);
        assert(detection_index(detection_order()[k]) == k) by {
            assert(detection_order()[0] == HotzoneId::TopLeft);
            assert(detection_order()[1] == HotzoneId::TopRight);
            assert(detection_order()[2] == HotzoneId::BottomRight);
            assert(detection_order()[3] == HotzoneId::BottomLeft);
            assert(detection_order()[4] == HotzoneId::Top);
            assert(detection_order()[5] == HotzoneId::Right);
            assert(detection_order()[6] == HotzoneId::Bottom);
            assert(detection_order()[7] == HotzoneId::Left);
        }
        if !hotzone_rect_spec(detection_order()[k], bounds, edge_size).spec_contains(p) {
            lemma_first_zone_is_first(bounds, edge_size, p, k + 1);
        }
    }
}

proof fn lemma_first_display_is_first(monitors: Seq<Monitor>, p: Point, i: int)
    requires
        0 <= i,
    ensures
        match first_display_from(monitors, p, i) {
            Some(j) => i <= j < monitors.len() && monitors[j].bounds.spec_contains(p) && forall|l: int|
                i <= l < j ==> !(#[trigger] monitors[l]).bounds.spec_contains(p),
            None => forall|l: int| i <= l < monitors.len() ==> !(#[trigger] monitors[l]).bounds.spec_contains(p),
        },
    decreases monitors.len() - i,
{
    if i < monitors.len() && !monitors[i].bounds.spec_contains(p) {
        lemma_first_display_is_first(monitors, p, i + 1);
    }
}

/// Detection looks only at the first display holding the cursor and checks
/// the corners before the edges: a reported edge zone means no corner zone of
/// that display holds the cursor, and nothing is reported exactly when no
/// display holds the cursor or no zone of the first one does.
pub proof fn law_detection_prefers_first_display_and_corners(
    cursor: Point,
    monitors: Seq<Monitor>,
    edge_size: int,
)
    ensures
        match detect_hotzone_spec(cursor, monitors, edge_size) {
            Some(id) => exists|j: int|
                0 <= j < monitors.len() && #[trigger] monitors[j].bounds.spec_contains(cursor) && (forall|
                    l: int,
                | 0 <= l < j ==> !(#[trigger] monitors[l]).bounds.spec_contains(cursor))
                    && hotzone_rect_spec(id, monitors[j].bounds, edge_size).spec_contains(cursor) && (
                !is_corner(id) ==> forall|c: HotzoneId|
                    is_corner(c) ==> !(#[trigger] hotzone_rect_spec(
                        c,
                        monitors[j].bounds,
                        edge_size,
                    )).spec_contains(cursor)),
            None => (forall|l: int| 0 <= l < monitors.len() ==> !(#[trigger] monitors[l]).bounds.spec_contains(cursor))
                || exists|j: int|
                0 <= j < monitors.len() && #[trigger] monitors[j].bounds.spec_contains(cursor) && (forall|
                    l: int,
                | 0 <= l < j ==> !(#[trigger] monitors[l]).bounds.spec_contains(cursor)) && forall|
                    z: HotzoneId,
                | !(#[trigger] hotzone_rect_spec(z, monitors[j].bounds, edge_size)).spec_contains(cursor),
        },
{
    lemma_first_display_is_first(monitors, cursor, 0);
    if let Some(j) = first_display_from(monitors, cursor, 0) {
        let b = monitors[j].bounds;
        lemma_first_zone_is_first(b, edge_size, cursor, 0);
        match first_zone_from(b, edge_size, cursor, 0) {
            Some(id) => {
                assert forall|c: HotzoneId| is_corner(c) && !is_corner(id) implies !(#[trigger] hotzone_rect_spec(
                    c,
                    b,
                    edge_size,
                )).spec_contains(cursor) by {
                    lemma_detection_index(c);
                    lemma_detection_index(id);
                    assert(detection_order()[detection_index(c)] == c);
                }
            },
            None => {
                assert forall|z: HotzoneId| !(#[trigger] hotzone_rect_spec(z, b, edge_size)).spec_contains(cursor) by {
                    lemma_detection_index(z);
                    assert(detection_order()[detection_index(z)] == z);
                }
            },
        }
    }
}

/// The display pixel at the corner a corner zone belongs to.
pub open spec fn corner_pixel(id: HotzoneId, bounds: Rect) -> Point {
    match id {
        HotzoneId::TopRight => Point { x: (bounds.right - 1) as i32, y: bounds.top },
        HotzoneId::BottomRight => Point { x: (bounds.right - 1) as i32, y: (bounds.bottom - 1) as i32 },
        HotzoneId::BottomLeft => Point { x: bounds.left, y: (bounds.bottom - 1) as i32 },
        _ => Point { x: bounds.left, y: bounds.top },
    }
}

/// Where each zone lies on its display. A corner zone is a square of side
/// `edge_size` (at least one) flush with the two display edges of its
/// corner, so it holds that corner's pixel. An edge zone is a band of that
/// thickness flush with its own display edge, forty percent of that edge
/// long and centered on it (any odd pixel left over goes after the band).
pub proof fn law_zone_placement(id: HotzoneId, bounds: Rect, edge_size: int)
    requires
        bounds.valid(),
        edge_size <= crate::geometry::COORD_LIMIT,
    ensures
        ({
            let e = if edge_size >= 1 { edge_size } else { 1 };
            let r = hotzone_rect_spec(id, bounds, edge_size);
            let w = bounds.spec_width();
            let h = bounds.spec_height();
            &&& is_corner(id) ==> r.spec_width() == e && r.spec_height() == e
            &&& (id == HotzoneId::TopLeft || id == HotzoneId::TopRight || id == HotzoneId::Top) ==> r.top
                == bounds.top && r.bottom == bounds.top + e
            &&& (id == HotzoneId::BottomLeft || id == HotzoneId::BottomRight || id == HotzoneId::Bottom)
                ==> r.bottom == bounds.bottom && r.top == bounds.bottom - e
            &&& (id == HotzoneId::TopLeft || id == HotzoneId::BottomLeft || id == HotzoneId::Left) ==> r.left
                == bounds.left && r.right == bounds.left + e
            &&& (id == HotzoneId::TopRight || id == HotzoneId::BottomRight || id == HotzoneId::Right)
                ==> r.right == bounds.right && r.left == bounds.right - e
            &&& (id == HotzoneId::Top || id == HotzoneId::Bottom) ==> r.spec_width() == forty_percent(w)
                && 0 <= (bounds.right - r.right) - (r.left - bounds.left) <= 1
            &&& (id == HotzoneId::Left || id == HotzoneId::Right) ==> r.spec_height() == forty_percent(h)
                && 0 <= (bounds.bottom - r.bottom) - (r.top - bounds.top) <= 1
            &&& is_corner(id) && w >= 1 && h >= 1 ==> r.spec_contains(corner_pixel(id, bounds))
        }),
{
    let w = bounds.spec_width();
    let h = bounds.spec_height();
    lemma_forty_percent_within(w);
    lemma_forty_percent_within(h);
}

} // verus!
