//! The presentation state of the volume and brightness overlay: which
//! helper feedback it shows, when that feedback expires, when a pending
//! action is worth showing at all, and when the overlay must be redrawn.
//! Times are milliseconds on a monotonic clock.

use vstd::prelude::*;
use crate::text::text_eq;

verus! {

/// How long a pending action waits for its result before it is shown.
pub const PENDING_DELAY_MS: u64 = 250;

/// How long pending feedback stays on screen without news.
pub const PENDING_LIFETIME_MS: u64 = 15_000;

/// How long an error stays on screen.
pub const ERROR_LIFETIME_MS: u64 = 3_000;

/// How long a level reading stays on screen.
pub const RESULT_LIFETIME_MS: u64 = 1_200;

/// Which level the adjustment overlay shows.
#[derive(Clone, Copy, Debug, PartialEq, Eq, Structural)]
pub enum Kind {
    Volume,
    Brightness,
}

/// The display an adjustment overlay is placed on.
#[derive(Clone, Copy, Debug, PartialEq, Eq, Structural)]
pub struct Screen {
    pub left: i32,
    pub top: i32,
    pub right: i32,
    pub bottom: i32,
}

/// A level reading. The reading itself is held by its key: `None` for a
/// reading that is not a number, otherwise the bits of the reading with a
/// negative zero written as zero, so that two readings are the same number
/// exactly when both keys are present and equal.
#[derive(Clone, Debug)]
pub struct Level {
    pub value: Option<u32>,
    pub muted: bool,
    pub device_name: String,
}

/// One report of the helper about a volume or brightness action.
#[derive(Clone, Debug)]
pub struct Feedback {
    pub interaction: u64,
    pub sequence: u64,
    pub kind: Kind,
    pub screen: Screen,
    pub level: Option<Level>,
    pub error: Option<String>,
    pub pending: bool,
}

/// What the overlay window renders, stamped with a revision that changes on
/// every redraw.
#[derive(Clone, Debug)]
pub struct Snapshot {
    pub revision: u64,
    pub feedback: Option<Feedback>,
}

/// The overlay's state between helper reports and timer ticks.
#[derive(Clone, Debug)]
pub struct Presentation {
    /// The newest feedback sequence accepted so far.
    pub latest: u64,
    pub snapshot: Snapshot,
    /// When the shown feedback expires.
    pub deadline: Option<u64>,
    /// When a pending action may first be shown.
    pub reveal_at: Option<u64>,
    /// The last revision the overlay window reported as drawn.
    pub rendered_revision: u64,
    pub visible: bool,
    /// The display the overlay was last placed on.
    pub positioned_screen: Option<Screen>,
}

pub open spec fn level_same_spec(a: Option<Level>, b: Option<Level>) -> bool {
    match (a, b) {
        (None, None) => true,
        (Some(x), Some(y)) => x.value is Some && x.value == y.value && x.muted == y.muted
            && x.device_name@ == y.device_name@,
        _ => false,
    }
}

pub open spec fn error_same_spec(a: Option<String>, b: Option<String>) -> bool {
    match (a, b) {
        (None, None) => true,
        (Some(x), Some(y)) => x@ == y@,
        _ => false,
    }
}

/// Two reports draw the same overlay: same kind, display, reading and error,
/// and, where neither a reading nor an error is shown, the same pending flag.
pub open spec fn same_content_spec(a: Feedback, b: Feedback) -> bool {
    &&& a.kind == b.kind
    &&& a.screen == b.screen
    &&& level_same_spec(a.level, b.level)
    &&& error_same_spec(a.error, b.error)
    &&& (a.level is Some || a.error is Some || a.pending == b.pending)
}

/// A report of an action that has neither a result nor an error yet.
pub open spec fn waits_for_result(f: Feedback) -> bool {
    f.pending && f.level is None && f.error is None
}

pub open spec fn lifetime_spec(f: Feedback) -> u64 {
    if f.pending {
        PENDING_LIFETIME_MS
    } else if f.error is Some {
        ERROR_LIFETIME_MS
    } else {
        RESULT_LIFETIME_MS
    }
}

/// A report continues what is shown: the overlay has not expired and shows
/// feedback of the same interaction.
pub open spec fn continues_spec(p: Presentation, f: Feedback, now: u64) -> bool {
    &&& p.deadline matches Some(d) && now < d
    &&& p.snapshot.feedback matches Some(prev) && prev.interaction == f.interaction
}

pub open spec fn changed_spec(p: Presentation, f: Feedback, continues: bool) -> bool {
    ||| !continues
    ||| p.positioned_screen != Some(f.screen)
    ||| !(p.snapshot.feedback matches Some(prev) && same_content_spec(prev, f))
}

/// The state after a report, and whether the overlay must be redrawn. A
/// report older than the newest accepted one changes nothing.
pub open spec fn update_spec(p: Presentation, f: Feedback, now: u64) -> (Presentation, bool) {
    if f.sequence < p.latest {
        (p, false)
    } else {
        let c = continues_spec(p, f, now);
        let changed = changed_spec(p, f, c);
        (
            Presentation {
                latest: f.sequence,
                snapshot: Snapshot {
                    revision: if changed {
                        (p.snapshot.revision + 1) as u64
                    } else {
                        p.snapshot.revision
                    },
                    feedback: Some(f),
                },
                deadline: Some((now + lifetime_spec(f)) as u64),
                reveal_at: if waits_for_result(f) {
                    if c {
                        p.reveal_at
                    } else {
                        Some((now + PENDING_DELAY_MS) as u64)
                    }
                } else {
                    None
                },
                rendered_revision: p.rendered_revision,
                visible: p.visible,
                positioned_screen: if c {
                    p.positioned_screen
                } else {
                    None
                },
            },
            changed,
        )
    }
}

/// The state with nothing shown, under a new revision.
pub open spec fn clear_spec(p: Presentation) -> Presentation {
    Presentation {
        latest: p.latest,
        snapshot: Snapshot { revision: (p.snapshot.revision + 1) as u64, feedback: None },
        deadline: None,
        reveal_at: None,
        rendered_revision: 0,
        visible: false,
        positioned_screen: None,
    }
}

pub open spec fn expire_spec(p: Presentation, now: u64) -> (Presentation, bool) {
    if p.deadline matches Some(d) && now >= d {
        (clear_spec(p), true)
    } else {
        (p, false)
    }
}

/// The overlay may be shown: it is hidden, its current revision is drawn,
/// it has not expired and no wait is running.
pub open spec fn may_reveal(p: Presentation, now: u64) -> bool {
    &&& !p.visible
    &&& p.rendered_revision == p.snapshot.revision
    &&& p.deadline matches Some(d) && now < d
    &&& !(p.reveal_at matches Some(r) && now < r)
}

pub open spec fn reveal_spec(p: Presentation, now: u64) -> (Presentation, bool) {
    if may_reveal(p, now) {
        (Presentation { reveal_at: None, ..p }, true)
    } else {
        (p, false)
    }
}

pub open spec fn timer_due_spec(p: Presentation, now: u64) -> bool {
    ||| p.deadline matches Some(d) && now >= d
    ||| p.rendered_revision == p.snapshot.revision && (p.reveal_at matches Some(r) && now >= r)
}

/// A timer tick: a reset forgets every accepted report, otherwise expired
/// feedback is cleared; then a running wait may end in a reveal. Returns
/// whether the overlay is to be hidden and whether it is to be shown.
pub open spec fn tick_spec(p: Presentation, reset: bool, now: u64) -> (Presentation, (bool, bool)) {
    let (p1, hide) = if reset {
        (clear_spec(Presentation { latest: 0, ..p }), true)
    } else {
        expire_spec(p, now)
    };
    let (p2, show) = if p1.reveal_at is Some {
        reveal_spec(p1, now)
    } else {
        (p1, false)
    };
    (p2, (hide, show))
}

pub open spec fn presentation_default_spec() -> Presentation {
    Presentation {
        latest: 0,
        snapshot: Snapshot { revision: 0, feedback: None },
        deadline: None,
        reveal_at: None,
        rendered_revision: 0,
        visible: false,
        positioned_screen: None,
    }
}

/// Whether the overlay may be advanced by one more revision.
pub open spec fn revision_room(p: Presentation) -> bool {
    p.snapshot.revision < u64::MAX
}

/// Largest time at which a report can be accepted: its deadline still fits.
pub open spec fn time_room(now: u64) -> bool {
    now <= u64::MAX - PENDING_LIFETIME_MS
}

fn level_same(a: &Option<Level>, b: &Option<Level>) -> (r: bool)
    ensures
        r == level_same_spec(*a, *b),
{
    match (a, b) {
        (None, None) => true,
        (Some(x), Some(y)) => {
            let same_value = match (x.value, y.value) {
                (Some(u), Some(v)) => u == v,
                _ => false,
            };
            same_value && x.muted == y.muted && text_eq(x.device_name.as_str(), y.device_name.as_str())
        },
        _ => false,
    }
}

fn error_same(a: &Option<String>, b: &Option<String>) -> (r: bool)
    ensures
        r == error_same_spec(*a, *b),
{
    match (a, b) {
        (None, None) => true,
        (Some(x), Some(y)) => text_eq(x.as_str(), y.as_str()),
        _ => false,
    }
}

impl Feedback {
    /// Whether this report draws the same overlay as `other`.
    pub fn same_content(&self, other: &Self) -> (r: bool)
        ensures
            r == same_content_spec(*self, *other),
    {
        self.kind == other.kind && self.screen == other.screen && level_same(&self.level, &other.level)
            && error_same(&self.error, &other.error) && (self.level.is_some() || self.error.is_some()
            || self.pending == other.pending)
    }
}

impl Default for Presentation {
    fn default() -> (r: Self)
        ensures
            r == presentation_default_spec(),
    {
        Presentation {
            latest: 0,
            snapshot: Snapshot { revision: 0, feedback: None },
            deadline: None,
            reveal_at: None,
            rendered_revision: 0,
            visible: false,
            positioned_screen: None,
        }
    }
}

impl Presentation {
    /// Takes a helper report received at `now`; returns whether the overlay
    /// must be redrawn.
    pub fn update(&mut self, feedback: Feedback, now: u64) -> (r: bool)
        requires
            revision_room(*old(self)),
            time_room(now),
        ensures
            (*final(self), r) == update_spec(*old(self), feedback, now),
    {
        if feedback.sequence < self.latest {
            return false;
        }
        let continues = match self.deadline {
            Some(deadline) => now < deadline && match &self.snapshot.feedback {
                Some(previous) => previous.interaction == feedback.interaction,
                None => false,
            },
            None => false,
        };
        let changed = if !continues {
            true
        } else {
            let same_screen = match self.positioned_screen {
                Some(screen) => screen == feedback.screen,
                None => false,
            };
            let same = match &self.snapshot.feedback {
                Some(previous) => previous.same_content(&feedback),
                None => false,
            };
            !same_screen || !same
        };
        if !continues {
            self.positioned_screen = None;
        }
        if feedback.pending && feedback.level.is_none() && feedback.error.is_none() {
            if !continues {
                self.reveal_at = Some(now + PENDING_DELAY_MS);
            }
        } else {
            self.reveal_at = None;
        }
        self.latest = feedback.sequence;
        let lifetime = if feedback.pending {
            PENDING_LIFETIME_MS
        } else if feedback.error.is_some() {
            ERROR_LIFETIME_MS
        } else {
            RESULT_LIFETIME_MS
        };
        self.deadline = Some(now + lifetime);
        if changed {
            self.snapshot.revision = self.snapshot.revision + 1;
        }
        self.snapshot.feedback = Some(feedback);
        changed
    }

    /// Clears the overlay once its deadline has passed; returns whether it did.
    pub fn expire(&mut self, now: u64) -> (r: bool)
        requires
            revision_room(*old(self)),
        ensures
            (*final(self), r) == expire_spec(*old(self), now),
    {
        let due = match self.deadline {
            Some(deadline) => now >= deadline,
            None => false,
        };
        if due {
            self.clear();
            return true;
        }
        false
    }

    /// Shows nothing from now on, under a new revision.
    pub fn clear(&mut self)
        requires
            revision_room(*old(self)),
        ensures
            *final(self) == clear_spec(*old(self)),
    {
        self.deadline = None;
        self.reveal_at = None;
        self.rendered_revision = 0;
        self.visible = false;
        self.positioned_screen = None;
        self.snapshot.revision = self.snapshot.revision + 1;
        self.snapshot.feedback = None;
    }

    /// Ends a finished wait; returns whether the overlay is to be shown now.
    pub fn try_reveal(&mut self, now: u64) -> (r: bool)
        ensures
            (*final(self), r) == reveal_spec(*old(self), now),
    {
        let live = match self.deadline {
            Some(deadline) => now < deadline,
            None => false,
        };
        let waiting = match self.reveal_at {
            Some(at) => now < at,
            None => false,
        };
        if self.visible || self.rendered_revision != self.snapshot.revision || !live || waiting {
            return false;
        }
        self.reveal_at = None;
        true
    }

    /// Whether a timer tick at `now` has anything to do.
    pub fn timer_due(&self, now: u64) -> (r: bool)
        ensures
            r == timer_due_spec(*self, now),
    {
        let expired = match self.deadline {
            Some(deadline) => now >= deadline,
            None => false,
        };
        let wait_over = match self.reveal_at {
            Some(at) => now >= at,
            None => false,
        };
        expired || (self.rendered_revision == self.snapshot.revision && wait_over)
    }

    /// After a redraw: the overlay is visible while a new wait runs, so it
    /// is to be hidden until the wait ends.
    pub fn hides_for_wait(&self, now: u64) -> (r: bool)
        ensures
            r == (self.visible && (self.reveal_at matches Some(at) && now < at)),
    {
        self.visible && match self.reveal_at {
            Some(at) => now < at,
            None => false,
        }
    }

    /// After a redraw: the overlay still has to be placed on `screen`.
    pub fn needs_placement(&self, screen: &Screen) -> (r: bool)
        ensures
            r == (self.positioned_screen != Some(*screen)),
    {
        match self.positioned_screen {
            Some(placed) => placed != *screen,
            None => true,
        }
    }

    /// A timer tick at `now`, or a reset when the helper connection starts
    /// or ends; returns whether to hide and whether to show the overlay.
    pub fn tick(&mut self, reset: bool, now: u64) -> (r: (bool, bool))
        requires
            revision_room(*old(self)),
        ensures
            (*final(self), r) == tick_spec(*old(self), reset, now),
    {
        let hide = if reset {
            self.latest = 0;
            self.clear();
            true
        } else {
            self.expire(now)
        };
        let show = self.reveal_at.is_some() && self.try_reveal(now);
        (hide, show)
    }
}

/// A report older than the newest accepted one neither changes the overlay
/// nor asks for a redraw.
pub proof fn law_stale_report_changes_nothing(p: Presentation, f: Feedback, now: u64)
    requires
        f.sequence < p.latest,
    ensures
        update_spec(p, f, now) == (p, false),
{
}

/// A report asks for a redraw exactly when it moves the revision on, and then
/// by one.
pub proof fn law_redraw_exactly_when_revision_moves(p: Presentation, f: Feedback, now: u64)
    requires
        revision_room(p),
    ensures
        ({
            let (q, redraw) = update_spec(p, f, now);
            &&& redraw ==> q.snapshot.revision == p.snapshot.revision + 1
            &&& !redraw ==> q.snapshot.revision == p.snapshot.revision
        }),
{
}

/// A report that continues the shown interaction on the display the overlay
/// already sits on, with the same content, only extends the overlay's life:
/// no redraw, same revision, same visibility.
pub proof fn law_unchanged_report_only_extends_lifetime(p: Presentation, f: Feedback, now: u64)
    requires
        p.latest <= f.sequence,
        continues_spec(p, f, now),
        p.positioned_screen == Some(f.screen),
        p.snapshot.feedback matches Some(prev) && same_content_spec(prev, f),
    ensures
        ({
            let (q, redraw) = update_spec(p, f, now);
            &&& !redraw
            &&& q.snapshot.revision == p.snapshot.revision
            &&& q.visible == p.visible
            &&& q.deadline == Some((now + lifetime_spec(f)) as u64)
        }),
{
}

/// New input for an interaction that is still waiting for its result does
/// not postpone the moment it may be shown; a result or an error ends the
/// wait at once.
pub proof fn law_wait_is_never_postponed(p: Presentation, f: Feedback, now: u64)
    requires
        p.latest <= f.sequence,
    ensures
        ({
            let (q, _) = update_spec(p, f, now);
            &&& continues_spec(p, f, now) && waits_for_result(f) ==> q.reveal_at == p.reveal_at
            &&& !waits_for_result(f) ==> q.reveal_at is None
        }),
{
}

/// Once the overlay has expired it shows nothing, and until new feedback
/// arrives no later tick expires it again, reveals it or finds work to do.
pub proof fn law_expired_overlay_stays_hidden(p: Presentation, now: u64, later: u64)
    requires
        revision_room(p),
    ensures
        ({
            let (q, expired) = expire_spec(p, now);
            expired ==> {
                &&& q.snapshot.feedback is None
                &&& !q.visible
                &&& expire_spec(q, later) == (q, false)
                &&& reveal_spec(q, later) == (q, false)
                &&& !timer_due_spec(q, later)
            }
        }),
{
}

} // verus!
