//! Moving and resizing a window with a modifier held down: the drag follows
//! the cursor from where it was grabbed, and a resize never shrinks the window
//! below a minimum surface.

use vstd::prelude::*;
use crate::geometry::{Point, Rect, WindowHandle, WindowInfo};

verus! {

/// Smallest width a resize leaves.
pub const MIN_RESIZE_WIDTH: i32 = 160;

/// Smallest height a resize leaves.
pub const MIN_RESIZE_HEIGHT: i32 = 100;

#[derive(Clone, Copy, Debug, PartialEq, Eq, Structural)]
pub enum WindowDragMode {
    Move,
    Resize,
}

/// What the mouse hook reports about a modifier drag: which drag it belongs
/// to, where it started, where the cursor is now, and whether the button was
/// released.
#[derive(Clone, Copy, Debug, PartialEq, Eq, Structural)]
pub struct WindowDragCapture {
    pub sequence: u64,
    pub mode: WindowDragMode,
    pub start: Point,
    pub current: Point,
    pub finished: bool,
}

/// Where a dragged window should be put.
#[derive(Clone, Copy, Debug, PartialEq, Eq, Structural)]
pub struct WindowDragUpdate {
    pub handle: WindowHandle,
    pub rect: Rect,
    pub finished: bool,
    pub cancelled: bool,
}

/// A drag in progress.
#[derive(Clone, Copy, Debug, PartialEq, Eq, Structural)]
pub struct DragSession {
    pub sequence: u64,
    pub mode: WindowDragMode,
    pub handle: WindowHandle,
    pub start_cursor: Point,
    pub original_rect: Rect,
}

impl DragSession {
    pub open spec fn valid(self) -> bool {
        self.start_cursor.valid() && self.original_rect.valid()
    }
}

/// The window's rectangle shifted by how far the cursor moved.
pub open spec fn moved_rect_spec(session: DragSession, cursor: Point) -> Rect {
    let dx = cursor.x - session.start_cursor.x;
    let dy = cursor.y - session.start_cursor.y;
    let r = session.original_rect;
    Rect {
        left: (r.left + dx) as i32,
        top: (r.top + dy) as i32,
        right: (r.right + dx) as i32,
        bottom: (r.bottom + dy) as i32,
    }
}

/// Half of `v`, rounded toward zero.
pub open spec fn half_toward_zero(v: int) -> int {
    if v >= 0 {
        v / 2
    } else {
        -((-v) / 2)
    }
}

pub open spec fn min_int(a: int, b: int) -> int {
    if a <= b {
        a
    } else {
        b
    }
}

pub open spec fn max_int(a: int, b: int) -> int {
    if a >= b {
        a
    } else {
        b
    }
}

/// The window's rectangle with the edges nearest to where it was grabbed
/// following the cursor, never closer than the minimum surface to the
/// opposite edges.
pub open spec fn resized_rect_spec(session: DragSession, cursor: Point) -> Rect {
    let dx = cursor.x - session.start_cursor.x;
    let dy = cursor.y - session.start_cursor.y;
    let r = session.original_rect;
    let center_x = half_toward_zero(r.left + r.right);
    let center_y = half_toward_zero(r.top + r.bottom);
    let left = if session.start_cursor.x < center_x {
        min_int(r.left + dx, r.right - MIN_RESIZE_WIDTH)
    } else {
        r.left as int
    };
    let right = if session.start_cursor.x < center_x {
        r.right as int
    } else {
        max_int(r.right + dx, r.left + MIN_RESIZE_WIDTH)
    };
    let top = if session.start_cursor.y < center_y {
        min_int(r.top + dy, r.bottom - MIN_RESIZE_HEIGHT)
    } else {
        r.top as int
    };
    let bottom = if session.start_cursor.y < center_y {
        r.bottom as int
    } else {
        max_int(r.bottom + dy, r.top + MIN_RESIZE_HEIGHT)
    };
    Rect { left: left as i32, top: top as i32, right: right as i32, bottom: bottom as i32 }
}

pub fn moved_rect(session: DragSession, cursor: Point) -> (r: Rect)
    requires
        session.valid(),
        cursor.valid(),
    ensures
        r == moved_rect_spec(session, cursor),
        r.wide(),
{
    let dx = cursor.x - session.start_cursor.x;
    let dy = cursor.y - session.start_cursor.y;
    Rect {
        left: session.original_rect.left + dx,
        top: session.original_rect.top + dy,
        right: session.original_rect.right + dx,
        bottom: session.original_rect.bottom + dy,
    }
}

pub fn resized_rect(session: DragSession, cursor: Point) -> (r: Rect)
    requires
        session.valid(),
        cursor.valid(),
    ensures
        r == resized_rect_spec(session, cursor),
        r.wide(),
{
    let dx = cursor.x - session.start_cursor.x;
    let dy = cursor.y - session.start_cursor.y;
    let center_x = (session.original_rect.left + session.original_rect.right) / 2;
    let center_y = (session.original_rect.top + session.original_rect.bottom) / 2;
    let mut rect = session.original_rect;
    if session.start_cursor.x < center_x {
        let moved = rect.left + dx;
        let limit = rect.right - MIN_RESIZE_WIDTH;
        rect.left = if moved <= limit {
            moved
        } else {
            limit
        };
    } else {
        let moved = rect.right + dx;
        let limit = rect.left + MIN_RESIZE_WIDTH;
        rect.right = if moved >= limit {
            moved
        } else {
            limit
        };
    }
    if session.start_cursor.y < center_y {
        let moved = rect.top + dy;
        let limit = rect.bottom - MIN_RESIZE_HEIGHT;
        rect.top = if moved <= limit {
            moved
        } else {
            limit
        };
    } else {
        let moved = rect.bottom + dy;
        let limit = rect.top + MIN_RESIZE_HEIGHT;
        rect.bottom = if moved >= limit {
            moved
        } else {
            limit
        };
    }
    rect
}

/// Follows one modifier drag at a time.
pub struct WindowDragController {
    session: Option<DragSession>,
}

impl View for WindowDragController {
    type V = Option<DragSession>;

    closed spec fn view(&self) -> Option<DragSession> {
        self.session
    }
}

impl Default for WindowDragController {
    fn default() -> (c: Self)
        ensures
            c@ is None,
    {
        WindowDragController { session: None }
    }
}

/// What an update reports for `capture`, and the drag left afterwards.
pub open spec fn update_spec(session: Option<DragSession>, capture: WindowDragCapture, cancel: bool) -> (
    Option<DragSession>,
    Option<WindowDragUpdate>,
) {
    match session {
        None => (None, None),
        Some(s) => if s.sequence != capture.sequence {
            (session, None)
        } else if cancel {
            (
                None,
                Some(
                    WindowDragUpdate {
                        handle: s.handle,
                        rect: s.original_rect,
                        finished: true,
                        cancelled: true,
                    },
                ),
            )
        } else {
            let rect = match s.mode {
                WindowDragMode::Move => moved_rect_spec(s, capture.current),
                WindowDragMode::Resize => resized_rect_spec(s, capture.current),
            };
            (
                if capture.finished {
                    None
                } else {
                    session
                },
                Some(
                    WindowDragUpdate {
                        handle: s.handle,
                        rect,
                        finished: capture.finished,
                        cancelled: false,
                    },
                ),
            )
        },
    }
}

impl WindowDragController {
    /// Every drag it follows starts inside the coordinate range.
    pub open spec fn wf(&self) -> bool {
        self@ matches Some(s) ==> s.valid()
    }

    /// A controller already following `session`.
    pub fn from_session(session: DragSession) -> (c: Self)
        ensures
            c@ == Some(session),
    {
        WindowDragController { session: Some(session) }
    }

    /// Starts following a drag of `window` described by `capture`.
    pub fn start(&mut self, capture: WindowDragCapture, window: &WindowInfo)
        requires
            capture.start.valid(),
            window.rect.valid(),
        ensures
            final(self).wf(),
            final(self)@ == Some(
                DragSession {
                    sequence: capture.sequence,
                    mode: capture.mode,
                    handle: window.handle,
                    start_cursor: capture.start,
                    original_rect: window.rect,
                },
            ),
    {
        self.session = Some(
            DragSession {
                sequence: capture.sequence,
                mode: capture.mode,
                handle: window.handle,
                start_cursor: capture.start,
                original_rect: window.rect,
            },
        );
    }

    /// The sequence number of the drag being followed.
    pub fn sequence(&self) -> (r: Option<u64>)
        ensures
            r == (match self@ {
                Some(s) => Some(s.sequence),
                None => None,
            }),
    {
        match self.session {
            Some(s) => Some(s.sequence),
            None => None,
        }
    }

    pub fn is_active(&self) -> (r: bool)
        ensures
            r == self@ is Some,
    {
        self.session.is_some()
    }

    /// Where the window goes for `capture`: nowhere for another drag, back
    /// to where it started on a cancel, and otherwise following the cursor.
    /// A cancel or a released button ends the drag.
    pub fn update(&mut self, capture: WindowDragCapture, cancel: bool) -> (r: Option<WindowDragUpdate>)
        requires
            old(self).wf(),
            capture.current.valid(),
        ensures
            (final(self)@, r) == update_spec(old(self)@, capture, cancel),
            final(self).wf(),
    {
        let session = match self.session {
            Some(s) => s,
            None => return None,
        };
        if session.sequence != capture.sequence {
            return None;
        }
        if cancel {
            self.session = None;
            return Some(
                WindowDragUpdate {
                    handle: session.handle,
                    rect: session.original_rect,
                    finished: true,
                    cancelled: true,
                },
            );
        }
        let rect = match session.mode {
            WindowDragMode::Move => moved_rect(session, capture.current),
            WindowDragMode::Resize => resized_rect(session, capture.current),
        };
        let finished = capture.finished;
        if finished {
            self.session = None;
        }
        Some(WindowDragUpdate { handle: session.handle, rect, finished, cancelled: false })
    }

    /// Ends the drag and reports where its window started.
    pub fn cancel(&mut self) -> (r: Option<(WindowHandle, Rect)>)
        ensures
            final(self)@ is None,
            r == (match old(self)@ {
                Some(s) => Some((s.handle, s.original_rect)),
                None => None,
            }),
    {
        match self.session.take() {
            Some(s) => Some((s.handle, s.original_rect)),
            None => None,
        }
    }
}

/// A resize never leaves the window narrower or lower than the minimum
/// surface, whatever the cursor does.
pub proof fn law_resize_keeps_minimum_surface(session: DragSession, cursor: Point)
    requires
        session.valid(),
        cursor.valid(),
    ensures
        resized_rect_spec(session, cursor).spec_width() >= MIN_RESIZE_WIDTH,
        resized_rect_spec(session, cursor).spec_height() >= MIN_RESIZE_HEIGHT,
{
}

/// A move keeps the window's size.
pub proof fn law_move_keeps_size(session: DragSession, cursor: Point)
    requires
        session.valid(),
        cursor.valid(),
    ensures
        moved_rect_spec(session, cursor).spec_width() == session.original_rect.spec_width(),
        moved_rect_spec(session, cursor).spec_height() == session.original_rect.spec_height(),
{
}

/// Cancelling hands back where the window was when the drag started, and
/// no update reaches a cancelled drag.
pub proof fn law_cancel_returns_to_start(
    session: DragSession,
    capture: WindowDragCapture,
    later: WindowDragCapture,
    cancel_later: bool,
)
    requires
        capture.sequence == session.sequence,
    ensures
        update_spec(Some(session), capture, true) == (
            None::<DragSession>,
            Some(
                WindowDragUpdate {
                    handle: session.handle,
                    rect: session.original_rect,
                    finished: true,
                    cancelled: true,
                },
            ),
        ),
        update_spec(update_spec(Some(session), capture, true).0, later, cancel_later).1 is None,
{
}

/// A resize moves only the edges nearest the grab, each by the cursor's
/// motion along its own axis: grabbed left of the window's center, the left
/// edge moves by the horizontal motion (stopping where the minimum width
/// would be broken) and the right edge stays; grabbed right of it, the right
/// edge does so and the left edge stays. Likewise the top or bottom edge with
/// the vertical motion.
pub proof fn law_resize_follows_each_axis(session: DragSession, cursor: Point)
    requires
        session.valid(),
        cursor.valid(),
    ensures
        ({
            let o = session.original_rect;
            let s = session.start_cursor;
            let r = resized_rect_spec(session, cursor);
            let dx = cursor.x - s.x;
            let dy = cursor.y - s.y;
            &&& s.x < half_toward_zero(o.left + o.right) ==> r.right == o.right && r.left == (if o.left
                + dx <= o.right - MIN_RESIZE_WIDTH {
                o.left + dx
            } else {
                o.right - MIN_RESIZE_WIDTH
            })
            &&& s.x >= half_toward_zero(o.left + o.right) ==> r.left == o.left && r.right == (if o.right
                + dx >= o.left + MIN_RESIZE_WIDTH {
                o.right + dx
            } else {
                o.left + MIN_RESIZE_WIDTH
            })
            &&& s.y < half_toward_zero(o.top + o.bottom) ==> r.bottom == o.bottom && r.top == (if o.top
                + dy <= o.bottom - MIN_RESIZE_HEIGHT {
                o.top + dy
            } else {
                o.bottom - MIN_RESIZE_HEIGHT
            })
            &&& s.y >= half_toward_zero(o.top + o.bottom) ==> r.top == o.top && r.bottom == (if o.bottom
                + dy >= o.top + MIN_RESIZE_HEIGHT {
                o.bottom + dy
            } else {
                o.top + MIN_RESIZE_HEIGHT
            })
        }),
{
}

/// The left and right edges of a resized window depend on the cursor's
/// horizontal position only, and the top and bottom edges on its vertical
/// position only.
pub proof fn law_resize_axes_are_independent(session: DragSession, c1: Point, c2: Point)
    requires
        session.valid(),
        c1.valid(),
        c2.valid(),
    ensures
        c1.x == c2.x ==> resized_rect_spec(session, c1).left == resized_rect_spec(session, c2).left
            && resized_rect_spec(session, c1).right == resized_rect_spec(session, c2).right,
        c1.y == c2.y ==> resized_rect_spec(session, c1).top == resized_rect_spec(session, c2).top
            && resized_rect_spec(session, c1).bottom == resized_rect_spec(session, c2).bottom,
{
}

/// A move shifts every edge of the window by exactly the cursor's motion
/// along that edge's axis.
pub proof fn law_move_follows_the_cursor(session: DragSession, cursor: Point)
    requires
        session.valid(),
        cursor.valid(),
    ensures
        ({
            let o = session.original_rect;
            let r = moved_rect_spec(session, cursor);
            let dx = cursor.x - session.start_cursor.x;
            let dy = cursor.y - session.start_cursor.y;
            &&& r.left == o.left + dx && r.right == o.right + dx
            &&& r.top == o.top + dy && r.bottom == o.bottom + dy
        }),
{
}

} // verus!
