//! Screen geometry shared by every controller: points, rectangles, monitors
//! and the windows the helper observes.

use vstd::prelude::*;
use crate::text::{append_decimal, decimal_spec, push_char};

verus! {

/// Largest magnitude of a screen coordinate that the controllers accept.
/// Every derived coordinate (hidden rectangles reach three times as far)
/// stays inside `i32`.
pub const COORD_LIMIT: i32 = 0x1000_0000;

pub open spec fn coord_ok(v: int) -> bool {
    -COORD_LIMIT <= v <= COORD_LIMIT
}

/// A coordinate that may lie up to three limits away from the origin, the
/// reach of a window pushed past a screen edge.
pub open spec fn wide_coord_ok(v: int) -> bool {
    -3 * COORD_LIMIT <= v <= 3 * COORD_LIMIT
}

#[derive(Clone, Copy, Debug, PartialEq, Eq, Structural)]
pub struct Point {
    pub x: i32,
    pub y: i32,
}

impl Point {
    pub open spec fn valid(self) -> bool {
        coord_ok(self.x as int) && coord_ok(self.y as int)
    }
}

/// A rectangle with exclusive right and bottom edges.
#[derive(Clone, Copy, Debug, PartialEq, Eq, Structural)]
pub struct Rect {
    pub left: i32,
    pub top: i32,
    pub right: i32,
    pub bottom: i32,
}

impl Rect {
    /// A well-formed screen rectangle: bounded coordinates, right not left of
    /// left, bottom not above top.
    pub open spec fn valid(self) -> bool {
        &&& coord_ok(self.left as int)
        &&& coord_ok(self.top as int)
        &&& coord_ok(self.right as int)
        &&& coord_ok(self.bottom as int)
        &&& self.left <= self.right
        &&& self.top <= self.bottom
    }

    pub open spec fn wide(self) -> bool {
        wide_coord_ok(self.left as int) && wide_coord_ok(self.top as int) && wide_coord_ok(
            self.right as int,
        ) && wide_coord_ok(self.bottom as int)
    }

    pub open spec fn spec_width(self) -> int {
        self.right - self.left
    }

    pub open spec fn spec_height(self) -> int {
        self.bottom - self.top
    }

    pub open spec fn spec_contains(self, p: Point) -> bool {
        self.left <= p.x < self.right && self.top <= p.y < self.bottom
    }

    pub open spec fn spec_inflate(self, d: int) -> Rect {
        Rect {
            left: (self.left - d) as i32,
            top: (self.top - d) as i32,
            right: (self.right + d) as i32,
            bottom: (self.bottom + d) as i32,
        }
    }

    pub fn width(&self) -> (w: i32)
        requires
            self.wide(),
        ensures
            w == self.spec_width(),
    {
        self.right - self.left
    }

    pub fn height(&self) -> (h: i32)
        requires
            self.wide(),
        ensures
            h == self.spec_height(),
    {
        self.bottom - self.top
    }

    pub fn contains(&self, p: Point) -> (b: bool)
        ensures
            b == self.spec_contains(p),
    {
        self.left <= p.x && p.x < self.right && self.top <= p.y && p.y < self.bottom
    }

    pub fn inflate(&self, d: i32) -> (r: Rect)
        requires
            self.wide(),
            coord_ok(d as int),
        ensures
            r == self.spec_inflate(d as int),
    {
        Rect { left: self.left - d, top: self.top - d, right: self.right + d, bottom: self.bottom + d }
    }
}

#[derive(Clone, Copy, Debug, PartialEq, Eq, Hash, Structural)]
pub struct WindowHandle(pub isize);

/// A display: its full bounds and the work area left free by task bars.
#[derive(Clone, Copy, Debug, PartialEq, Eq, Structural)]
pub struct Monitor {
    pub bounds: Rect,
    pub work_area: Rect,
    pub primary: bool,
}

pub open spec fn display_prefix() -> Seq<char> {
    seq!['d', 'i', 's', 'p', 'l', 'a', 'y', ':']
}

/// The stable identifier of a display, `display:left:top:right:bottom` of its
/// bounds, which monitor profiles in the configuration refer to.
pub open spec fn monitor_id_spec(m: Monitor) -> Seq<char> {
    display_prefix() + decimal_spec(m.bounds.left as int) + seq![':'] + decimal_spec(
        m.bounds.top as int,
    ) + seq![':'] + decimal_spec(m.bounds.right as int) + seq![':'] + decimal_spec(
        m.bounds.bottom as int,
    )
}

impl Monitor {
    pub open spec fn valid(self) -> bool {
        self.bounds.valid() && self.work_area.valid()
    }

    pub fn id(&self) -> (s: String)
        ensures
            s@ == monitor_id_spec(*self),
    {
        let mut s = String::new();
        push_char(&mut s, 'd');
        push_char(&mut s, 'i');
        push_char(&mut s, 's');
        push_char(&mut s, 'p');
        push_char(&mut s, 'l');
        push_char(&mut s, 'a');
        push_char(&mut s, 'y');
        push_char(&mut s, ':');
        assert(s@ =~= display_prefix());
        append_decimal(&mut s, self.bounds.left);
        push_char(&mut s, ':');
        append_decimal(&mut s, self.bounds.top);
        push_char(&mut s, ':');
        append_decimal(&mut s, self.bounds.right);
        push_char(&mut s, ':');
        append_decimal(&mut s, self.bounds.bottom);
        s
    }
}

/// What the helper knows of a top-level window.
#[derive(Clone, Debug)]
pub struct WindowInfo {
    pub handle: WindowHandle,
    pub rect: Rect,
    pub title: String,
    pub class_name: String,
    pub process_name: String,
    pub maximized: bool,
    pub transient: bool,
    pub arranged: bool,
    pub topmost: bool,
}

pub open spec fn monitors_valid(monitors: Seq<Monitor>) -> bool {
    forall|i: int| 0 <= i < monitors.len() ==> #[trigger] monitors[i].valid()
}

} // verus!
