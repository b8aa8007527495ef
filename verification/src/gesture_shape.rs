//! The integer geometry of a drawn mouse path: its bounding box, and the
//! size a path must reach before it is scored as a drawn rectangle.

use vstd::prelude::*;
use crate::geometry::Point;

verus! {

/// The smallest and largest coordinates met along a path, all inclusive.
#[derive(Clone, Copy, Debug, PartialEq, Eq, Structural)]
pub struct PathBounds {
    pub min_x: i32,
    pub min_y: i32,
    pub max_x: i32,
    pub max_y: i32,
}

/// `b` bounds the first `n` points of `s` and each of its four values is
/// reached by one of them.
pub open spec fn bounds_prefix(b: PathBounds, s: Seq<Point>, n: int) -> bool {
    &&& forall|j: int|
        0 <= j < n ==> b.min_x <= (#[trigger] s[j]).x <= b.max_x && b.min_y <= s[j].y <= b.max_y
    &&& exists|j: int| 0 <= j < n && #[trigger] s[j].x == b.min_x
    &&& exists|j: int| 0 <= j < n && #[trigger] s[j].x == b.max_x
    &&& exists|j: int| 0 <= j < n && #[trigger] s[j].y == b.min_y
    &&& exists|j: int| 0 <= j < n && #[trigger] s[j].y == b.max_y
}

/// `b` is the bounding box of the whole path.
pub open spec fn is_bounds_of(b: PathBounds, s: Seq<Point>) -> bool {
    bounds_prefix(b, s, s.len() as int)
}

/// Fewest points of a path that may be read as a rectangle.
pub const MIN_RECTANGLE_POINTS: usize = 5;

/// Smallest width and height, in pixels, of a drawn rectangle.
pub const MIN_RECTANGLE_SIDE: i64 = 40;

/// The bounding box of a path, or `None` for an empty path.
pub fn path_bounds(points: &[Point]) -> (r: Option<PathBounds>)
    ensures
        r is None <==> points@.len() == 0,
        r matches Some(b) ==> is_bounds_of(b, points@),
{
    if points.len() == 0 {
        return None;
    }
    let first = points[0];
    let mut b = PathBounds { min_x: first.x, min_y: first.y, max_x: first.x, max_y: first.y };
    assert(points@[0] == first);
    let mut i: usize = 1;
    while i < points.len()
        invariant
            1 <= i <= points.len(),
            bounds_prefix(b, points@, i as int),
        decreases points.len() - i,
    {
        let p = points[i];
        assert(points@[i as int] == p);
        let old_b = b;
        if p.x < b.min_x {
            b.min_x = p.x;
        }
        if p.x > b.max_x {
            b.max_x = p.x;
        }
        if p.y < b.min_y {
            b.min_y = p.y;
        }
        if p.y > b.max_y {
            b.max_y = p.y;
        }
        assert(bounds_prefix(b, points@, i + 1)) by {
            let s = points@;
            if b.min_x != old_b.min_x {
                assert(s[i as int].x == b.min_x);
            } else {
                let j = choose|j: int| 0 <= j < i && #[trigger] s[j].x == old_b.min_x;
                assert(s[j].x == b.min_x);
            }
            if b.max_x != old_b.max_x {
                assert(s[i as int].x == b.max_x);
            } else {
                let j = choose|j: int| 0 <= j < i && #[trigger] s[j].x == old_b.max_x;
                assert(s[j].x == b.max_x);
            }
            if b.min_y != old_b.min_y {
                assert(s[i as int].y == b.min_y);
            } else {
                let j = choose|j: int| 0 <= j < i && #[trigger] s[j].y == old_b.min_y;
                assert(s[j].y == b.min_y);
            }
            if b.max_y != old_b.max_y {
                assert(s[i as int].y == b.max_y);
            } else {
                let j = choose|j: int| 0 <= j < i && #[trigger] s[j].y == old_b.max_y;
                assert(s[j].y == b.max_y);
            }
        }
        i = i + 1;
    }
    Some(b)
}

/// Two boxes that both bound a path are the same box.
pub proof fn lemma_bounds_unique(a: PathBounds, b: PathBounds, s: Seq<Point>)
    requires
        is_bounds_of(a, s),
        is_bounds_of(b, s),
    ensures
        a == b,
{
    let n = s.len() as int;
    let j1 = choose|j: int| 0 <= j < n && #[trigger] s[j].x == a.min_x;
    let j2 = choose|j: int| 0 <= j < n && #[trigger] s[j].x == b.min_x;
    let j3 = choose|j: int| 0 <= j < n && #[trigger] s[j].x == a.max_x;
    let j4 = choose|j: int| 0 <= j < n && #[trigger] s[j].x == b.max_x;
    let j5 = choose|j: int| 0 <= j < n && #[trigger] s[j].y == a.min_y;
    let j6 = choose|j: int| 0 <= j < n && #[trigger] s[j].y == b.min_y;
    let j7 = choose|j: int| 0 <= j < n && #[trigger] s[j].y == a.max_y;
    let j8 = choose|j: int| 0 <= j < n && #[trigger] s[j].y == b.max_y;
    assert(b.min_x <= s[j1].x && a.min_x <= s[j2].x);
    assert(s[j3].x <= b.max_x && s[j4].x <= a.max_x);
    assert(b.min_y <= s[j5].y && a.min_y <= s[j6].y);
    assert(s[j7].y <= b.max_y && s[j8].y <= a.max_y);
}

/// Whether a bounding box is large enough for a drawn rectangle.
pub open spec fn rectangle_sized(b: PathBounds) -> bool {
    b.max_x - b.min_x >= MIN_RECTANGLE_SIDE && b.max_y - b.min_y >= MIN_RECTANGLE_SIDE
}

/// The bounding box of a path that may be a drawn rectangle: one of at least
/// five points whose box is at least 40 pixels wide and 40 pixels tall.
/// Whether its corners and length fit a rectangle is scored afterwards.
pub fn rectangle_candidate(points: &[Point]) -> (r: Option<PathBounds>)
    ensures
        r is Some <==> points@.len() >= MIN_RECTANGLE_POINTS && exists|b: PathBounds|
            is_bounds_of(b, points@) && rectangle_sized(b),
        r matches Some(b) ==> is_bounds_of(b, points@) && rectangle_sized(b),
{
    if points.len() < MIN_RECTANGLE_POINTS {
        return None;
    }
    let b = match path_bounds(points) {
        Some(b) => b,
        None => return None,
    };
    let width = (b.max_x as i64) - (b.min_x as i64);
    let height = (b.max_y as i64) - (b.min_y as i64);
    if width < MIN_RECTANGLE_SIDE || height < MIN_RECTANGLE_SIDE {
        proof {
            assert forall|c: PathBounds| is_bounds_of(c, points@) implies !rectangle_sized(c) by {
                lemma_bounds_unique(b, c, points@);
            }
        }
        return None;
    }
    assert(is_bounds_of(b, points@) && rectangle_sized(b));
    Some(b)
}

} // verus!
