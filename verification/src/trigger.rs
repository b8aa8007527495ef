//! When a hot zone's trigger fires: hovering fires once per entry after the
//! hover delay, clicks and wheel steps fire on the input event, slides fire
//! once the pointer has slid far enough along the edge, and every trigger
//! waits for its cooldown. Times are milliseconds on the helper's monotonic
//! clock.

use vstd::prelude::*;
use crate::config::{HotzoneId, TriggerKind};

verus! {

/// How far a slide has to go, in pixels, before it fires.
pub const SLIDE_THRESHOLD: i32 = 16;

/// The slide distance kept in either direction, in pixels.
pub const SLIDE_LIMIT: i32 = 200;

pub struct HotzoneTriggerController {
    current_hotzone: Option<HotzoneId>,
    entered_at: u64,
    hover_triggered_for_entry: bool,
    slide_accumulator: i32,
    continuous_pending: Vec<(HotzoneId, TriggerKind)>,
    last_triggered_at: Vec<((HotzoneId, TriggerKind), u64)>,
}

/// The controller's state: the zone under the pointer and when it was
/// entered, whether its hover already fired, the slide distance, the
/// continuous triggers that hold motion not yet handed out, and when each
/// trigger of each zone last fired.
pub struct TriggerState {
    pub current: Option<HotzoneId>,
    pub entered_at: u64,
    pub hover_fired: bool,
    pub slide: i32,
    pub pending: Seq<(HotzoneId, TriggerKind)>,
    pub last_fired: Seq<((HotzoneId, TriggerKind), u64)>,
}

impl View for HotzoneTriggerController {
    type V = TriggerState;

    closed spec fn view(&self) -> TriggerState {
        TriggerState {
            current: self.current_hotzone,
            entered_at: self.entered_at,
            hover_fired: self.hover_triggered_for_entry,
            slide: self.slide_accumulator,
            pending: self.continuous_pending@,
            last_fired: self.last_triggered_at@,
        }
    }
}

/// The first record, from `i` on, for trigger `key`.
pub open spec fn fired_pos(s: Seq<((HotzoneId, TriggerKind), u64)>, key: (HotzoneId, TriggerKind), i: int) -> Option<int>
    decreases s.len() - i,
{
    if i < 0 || i >= s.len() {
        None
    } else if s[i].0 == key {
        Some(i)
    } else {
        fired_pos(s, key, i + 1)
    }
}

/// When trigger `key` last fired.
pub open spec fn last_fired_at(s: Seq<((HotzoneId, TriggerKind), u64)>, key: (HotzoneId, TriggerKind)) -> Option<u64> {
    match fired_pos(s, key, 0) {
        Some(i) => Some(s[i].1),
        None => None,
    }
}

/// Records that `key` fired at `now`: in place when it fired before, else
/// at the end.
pub open spec fn record_fired(
    s: Seq<((HotzoneId, TriggerKind), u64)>,
    key: (HotzoneId, TriggerKind),
    now: u64,
) -> Seq<((HotzoneId, TriggerKind), u64)> {
    match fired_pos(s, key, 0) {
        Some(i) => s.update(i, (key, now)),
        None => s.push((key, now)),
    }
}

pub open spec fn since(now: u64, then: u64) -> int {
    if now >= then {
        now - then
    } else {
        0
    }
}

/// A trigger may fire when it never fired or its cooldown has passed.
pub open spec fn cooldown_elapsed_spec(t: TriggerState, now: u64, key: (HotzoneId, TriggerKind), cooldown_ms: u64) -> bool {
    match last_fired_at(t.last_fired, key) {
        Some(last) => since(now, last) >= cooldown_ms,
        None => true,
    }
}

/// Moving to another zone (or off every zone) starts a new entry.
pub open spec fn observe_spec(t: TriggerState, now: u64, detected: Option<HotzoneId>) -> TriggerState {
    if detected != t.current {
        TriggerState {
            current: detected,
            entered_at: now,
            hover_fired: false,
            slide: 0,
            pending: Seq::empty(),
            ..t
        }
    } else {
        t
    }
}

/// Pausing forgets the zone entry, its slide and its held motion.
pub open spec fn suspend_spec(t: TriggerState, now: u64) -> TriggerState {
    TriggerState {
        current: None,
        entered_at: now,
        hover_fired: false,
        slide: 0,
        pending: Seq::empty(),
        ..t
    }
}

/// The held keys without `key`.
pub open spec fn without_key(s: Seq<(HotzoneId, TriggerKind)>, key: (HotzoneId, TriggerKind)) -> Seq<(HotzoneId, TriggerKind)>
    decreases s.len(),
{
    if s.len() == 0 {
        s
    } else if s.last() == key {
        without_key(s.drop_last(), key)
    } else {
        without_key(s.drop_last(), key).push(s.last())
    }
}

/// A continuous trigger of the zone under the pointer: motion this poll
/// (`has_motion`) is held for it; held motion is handed out, and the
/// trigger counts as fired, once its cooldown has passed. Returns whether
/// the held motion is handed out now.
pub open spec fn accumulate_spec(
    t: TriggerState,
    now: u64,
    id: HotzoneId,
    trigger: TriggerKind,
    has_motion: bool,
    cooldown_ms: u64,
) -> (TriggerState, bool) {
    let key = (id, trigger);
    if t.current != Some(id) {
        (t, false)
    } else {
        let held = if has_motion && !t.pending.contains(key) {
            t.pending.push(key)
        } else {
            t.pending
        };
        if !held.contains(key) || !cooldown_elapsed_spec(t, now, key, cooldown_ms) {
            (TriggerState { pending: held, ..t }, false)
        } else {
            (
                TriggerState {
                    pending: without_key(held, key),
                    last_fired: record_fired(t.last_fired, key, now),
                    ..t
                },
                true,
            )
        }
    }
}

pub open spec fn clamp_slide(v: int) -> i32 {
    if v < -SLIDE_LIMIT {
        (-SLIDE_LIMIT) as i32
    } else if v > SLIDE_LIMIT {
        SLIDE_LIMIT
    } else {
        v as i32
    }
}

/// Whether trigger `trigger` of zone `id` fires now, and the state after:
/// only in the zone under the pointer, on its event (`input_event` reports
/// the click or wheel step since the last poll), after its cooldown. A fired
/// hover is spent until the next entry, a fired slide starts over.
pub open spec fn should_trigger_spec(
    t: TriggerState,
    now: u64,
    id: HotzoneId,
    trigger: TriggerKind,
    input_event: bool,
    hover_delay_ms: u64,
    cooldown_ms: u64,
) -> (TriggerState, bool) {
    if t.current != Some(id) {
        (t, false)
    } else {
        let event = match trigger {
            TriggerKind::Hover => !t.hover_fired && since(now, t.entered_at) >= hover_delay_ms,
            TriggerKind::SlideForward => t.slide >= SLIDE_THRESHOLD,
            TriggerKind::SlideBackward => t.slide <= -SLIDE_THRESHOLD,
            _ => input_event,
        };
        if !event || !cooldown_elapsed_spec(t, now, (id, trigger), cooldown_ms) {
            (t, false)
        } else {
            (
                TriggerState {
                    hover_fired: if trigger == TriggerKind::Hover {
                        true
                    } else {
                        t.hover_fired
                    },
                    slide: if trigger == TriggerKind::SlideForward || trigger
                        == TriggerKind::SlideBackward {
                        0
                    } else {
                        t.slide
                    },
                    last_fired: record_fired(t.last_fired, (id, trigger), now),
                    ..t
                },
                true,
            )
        }
    }
}

/// Each trigger of each zone has at most one record, as in the map it
/// stands for.
pub open spec fn records_unique(s: Seq<((HotzoneId, TriggerKind), u64)>) -> bool {
    forall|a: int, b: int| 0 <= a < b < s.len() ==> s[a].0 != s[b].0
}

impl HotzoneTriggerController {
    pub open spec fn wf(&self) -> bool {
        &&& records_unique(self@.last_fired)
        &&& -SLIDE_LIMIT <= self@.slide <= SLIDE_LIMIT
    }

    pub fn new(now: u64) -> (c: Self)
        ensures
            c.wf(),
            c@.current is None,
            c@.entered_at == now,
            !c@.hover_fired,
            c@.slide == 0,
            c@.pending.len() == 0,
            c@.last_fired.len() == 0,
    {
        HotzoneTriggerController {
            current_hotzone: None,
            entered_at: now,
            hover_triggered_for_entry: false,
            slide_accumulator: 0,
            continuous_pending: Vec::new(),
            last_triggered_at: Vec::new(),
        }
    }

    /// The zone under the pointer.
    pub fn current_hotzone(&self) -> (r: Option<HotzoneId>)
        ensures
            r == self@.current,
    {
        self.current_hotzone
    }

    pub fn observe(&mut self, now: u64, detected: Option<HotzoneId>)
        requires
            old(self).wf(),
        ensures
            final(self).wf(),
            final(self)@ == observe_spec(old(self)@, now, detected),
    {
        if detected != self.current_hotzone {
            self.current_hotzone = detected;
            self.entered_at = now;
            self.hover_triggered_for_entry = false;
            self.slide_accumulator = 0;
            self.continuous_pending = Vec::new();
        }
    }

    /// Forgets the zone entry, as when hot zones are paused.
    pub fn suspend(&mut self, now: u64)
        requires
            old(self).wf(),
        ensures
            final(self).wf(),
            final(self)@ == suspend_spec(old(self)@, now),
    {
        self.current_hotzone = None;
        self.entered_at = now;
        self.hover_triggered_for_entry = false;
        self.slide_accumulator = 0;
        self.continuous_pending = Vec::new();
    }

    /// Adds `motion` pixels to the slide, kept within 200 in either
    /// direction.
    pub fn record_slide_motion(&mut self, motion: i32)
        requires
            old(self).wf(),
            i32::MIN <= old(self)@.slide + motion <= i32::MAX,
        ensures
            final(self).wf(),
            final(self)@ == (TriggerState { slide: clamp_slide(old(self)@.slide + motion), ..old(self)@ }),
    {
        let v = self.slide_accumulator + motion;
        self.slide_accumulator = if v < -SLIDE_LIMIT {
            -SLIDE_LIMIT
        } else if v > SLIDE_LIMIT {
            SLIDE_LIMIT
        } else {
            v
        };
    }

    pub fn clear_slide_motion(&mut self)
        requires
            old(self).wf(),
        ensures
            final(self).wf(),
            final(self)@ == (TriggerState { slide: 0, ..old(self)@ }),
    {
        self.slide_accumulator = 0;
    }

    fn find_fired(&self, key: (HotzoneId, TriggerKind)) -> (r: Option<usize>)
        ensures
            match r {
                Some(i) => fired_pos(self@.last_fired, key, 0) == Some(i as int) && i
                    < self@.last_fired.len(),
                None => fired_pos(self@.last_fired, key, 0) is None,
            },
    {
        let mut i: usize = 0;
        while i < self.last_triggered_at.len()
            invariant
                i <= self@.last_fired.len(),
                fired_pos(self@.last_fired, key, 0) == fired_pos(self@.last_fired, key, i as int),
            decreases self@.last_fired.len() - i,
        {
            let entry = self.last_triggered_at[i];
            if entry.0.0 == key.0 && entry.0.1 == key.1 {
                return Some(i);
            }
            i += 1;
        }
        None
    }

    /// Whether the cooldown of trigger `trigger` of zone `id` has passed.
    pub fn cooldown_elapsed(&self, now: u64, id: HotzoneId, trigger: TriggerKind, cooldown_ms: u64) -> (r: bool)
        ensures
            r == cooldown_elapsed_spec(self@, now, (id, trigger), cooldown_ms),
    {
        match self.find_fired((id, trigger)) {
            Some(i) => now.saturating_sub(self.last_triggered_at[i].1) >= cooldown_ms,
            None => true,
        }
    }

    /// Records that trigger `trigger` of zone `id` fired at `now`.
    pub fn record_fired(&mut self, now: u64, id: HotzoneId, trigger: TriggerKind)
        requires
            old(self).wf(),
        ensures
            final(self).wf(),
            final(self)@ == (TriggerState {
                last_fired: record_fired(old(self)@.last_fired, (id, trigger), now),
                ..old(self)@
            }),
    {
        proof {
            lemma_fired_pos(self@.last_fired, (id, trigger), 0);
        }
        let ghost s0 = self@.last_fired;
        match self.find_fired((id, trigger)) {
            Some(i) => {
                self.last_triggered_at.set(i, ((id, trigger), now));
                proof {
                    let r = self@.last_fired;
                    assert forall|a: int, b: int| 0 <= a < b < r.len() implies r[a].0 != r[b].0 by {
                        assert(r[a].0 == s0[a].0);
                        assert(r[b].0 == s0[b].0);
                    }
                }
            },
            None => {
                self.last_triggered_at.push(((id, trigger), now));
                proof {
                    let r = self@.last_fired;
                    assert forall|a: int, b: int| 0 <= a < b < r.len() implies r[a].0 != r[b].0 by {
                        assert(r[a] == s0[a]);
                        if b < s0.len() {
                            assert(r[b] == s0[b]);
                        }
                    }
                }
            },
        }
    }

    fn holds(&self, key: (HotzoneId, TriggerKind)) -> (r: bool)
        ensures
            r == self@.pending.contains(key),
    {
        let mut i: usize = 0;
        while i < self.continuous_pending.len()
            invariant
                i <= self@.pending.len(),
                forall|j: int| 0 <= j < i ==> self@.pending[j] != key,
            decreases self@.pending.len() - i,
        {
            let entry = self.continuous_pending[i];
            if entry.0 == key.0 && entry.1 == key.1 {
                assert(self@.pending[i as int] == key);
                return true;
            }
            i += 1;
        }
        false
    }

    /// The held-motion part of a continuous trigger; see `accumulate_spec`.
    /// The amounts held are fractions of a volume step, which the caller
    /// keeps in floating point under the same keys.
    pub fn accumulate_continuous_motion(
        &mut self,
        now: u64,
        id: HotzoneId,
        trigger: TriggerKind,
        has_motion: bool,
        cooldown_ms: u64,
    ) -> (r: bool)
        requires
            old(self).wf(),
        ensures
            final(self).wf(),
            (final(self)@, r) == accumulate_spec(old(self)@, now, id, trigger, has_motion, cooldown_ms),
    {
        if self.current_hotzone != Some(id) {
            return false;
        }
        let key = (id, trigger);
        let mut held = self.holds(key);
        if has_motion && !held {
            self.continuous_pending.push(key);
            held = true;
            assert(self@.pending.last() == key);
        }
        if !held || !self.cooldown_elapsed(now, id, trigger, cooldown_ms) {
            return false;
        }
        let rest = without(&self.continuous_pending, key);
        self.continuous_pending = rest;
        self.record_fired(now, id, trigger);
        true
    }

    pub fn should_trigger(
        &mut self,
        now: u64,
        id: HotzoneId,
        trigger: TriggerKind,
        input_event: bool,
        hover_delay_ms: u64,
        cooldown_ms: u64,
    ) -> (r: bool)
        requires
            old(self).wf(),
        ensures
            final(self).wf(),
            (final(self)@, r) == should_trigger_spec(
                old(self)@,
                now,
                id,
                trigger,
                input_event,
                hover_delay_ms,
                cooldown_ms,
            ),
    {
        if self.current_hotzone != Some(id) {
            return false;
        }
        let event = match trigger {
            TriggerKind::Hover => !self.hover_triggered_for_entry && now.saturating_sub(
                self.entered_at,
            ) >= hover_delay_ms,
            TriggerKind::SlideForward => self.slide_accumulator >= SLIDE_THRESHOLD,
            TriggerKind::SlideBackward => self.slide_accumulator <= -SLIDE_THRESHOLD,
            _ => input_event,
        };
        if !event || !self.cooldown_elapsed(now, id, trigger, cooldown_ms) {
            return false;
        }
        if trigger == TriggerKind::Hover {
            self.hover_triggered_for_entry = true;
        }
        if trigger == TriggerKind::SlideForward || trigger == TriggerKind::SlideBackward {
            self.slide_accumulator = 0;
        }
        self.record_fired(now, id, trigger);
        true
    }
}

fn without(v: &Vec<(HotzoneId, TriggerKind)>, key: (HotzoneId, TriggerKind)) -> (r: Vec<(HotzoneId, TriggerKind)>)
    ensures
        r@ == without_key(v@, key),
{
    let mut r: Vec<(HotzoneId, TriggerKind)> = Vec::new();
    let mut i: usize = 0;
    assert(v@.take(0) =~= Seq::<(HotzoneId, TriggerKind)>::empty());
    while i < v.len()
        invariant
            i <= v@.len(),
            r@ == without_key(v@.take(i as int), key),
        decreases v@.len() - i,
    {
        let entry = v[i];
        proof {
            assert(v@.take(i + 1).drop_last() =~= v@.take(i as int));
            assert(v@.take(i + 1).last() == entry);
        }
        if !(entry.0 == key.0 && entry.1 == key.1) {
            r.push(entry);
        }
        i += 1;
    }
    assert(v@.take(v@.len() as int) =~= v@);
    r
}


/// A hover fires at most once per entry into a zone: once it fired, it
/// fires again only after the pointer left and came back.
pub proof fn law_hover_fires_once_per_entry(
    t: TriggerState,
    now1: u64,
    now2: u64,
    id: HotzoneId,
    hover_delay_ms: u64,
    cooldown_ms: u64,
    event: bool,
)
    ensures
        ({
            let (t1, fired) = should_trigger_spec(t, now1, id, TriggerKind::Hover, event, hover_delay_ms, cooldown_ms);
            fired ==> !should_trigger_spec(t1, now2, id, TriggerKind::Hover, event, hover_delay_ms, cooldown_ms).1
        }),
{
}

/// After a trigger fires, it does not fire again before its cooldown has
/// passed on a clock that does not run backwards.
pub proof fn law_cooldown_holds(
    t: TriggerState,
    now1: u64,
    now2: u64,
    id: HotzoneId,
    trigger: TriggerKind,
    hover_delay_ms: u64,
    cooldown_ms: u64,
    event1: bool,
    event2: bool,
)
    requires
        now1 <= now2 < now1 + cooldown_ms,
    ensures
        ({
            let (t1, fired) = should_trigger_spec(t, now1, id, trigger, event1, hover_delay_ms, cooldown_ms);
            fired ==> !should_trigger_spec(t1, now2, id, trigger, event2, hover_delay_ms, cooldown_ms).1
        }),
{
    let (t1, fired) = should_trigger_spec(t, now1, id, trigger, event1, hover_delay_ms, cooldown_ms);
    if fired {
        lemma_record_fired(t.last_fired, (id, trigger), now1);
    }
}

proof fn lemma_fired_pos(s: Seq<((HotzoneId, TriggerKind), u64)>, key: (HotzoneId, TriggerKind), i: int)
    requires
        0 <= i,
    ensures
        fired_pos(s, key, i) matches Some(j) ==> i <= j < s.len() && s[j].0 == key && forall|m: int|
            i <= m < j ==> s[m].0 != key,
        fired_pos(s, key, i) is None ==> forall|m: int| i <= m < s.len() ==> s[m].0 != key,
    decreases s.len() - i,
{
    if i < s.len() && s[i].0 != key {
        lemma_fired_pos(s, key, i + 1);
    }
}

proof fn lemma_record_fired(s: Seq<((HotzoneId, TriggerKind), u64)>, key: (HotzoneId, TriggerKind), now: u64)
    ensures
        last_fired_at(record_fired(s, key, now), key) == Some(now),
{
    lemma_fired_pos(s, key, 0);
    let r = record_fired(s, key, now);
    lemma_fired_pos(r, key, 0);
    match fired_pos(s, key, 0) {
        Some(i) => {
            assert(r[i] == (key, now));
            assert forall|m: int| 0 <= m < i implies r[m].0 != key by {
                assert(r[m] == s[m]);
            }
            assert(fired_pos(r, key, 0) == Some(i));
        },
        None => {
            let n = s.len() as int;
            assert(r[n] == (key, now));
            assert forall|m: int| 0 <= m < n implies r[m].0 != key by {
                assert(r[m] == s[m]);
            }
            assert(fired_pos(r, key, 0) == Some(n));
        },
    }
}

/// A slide trigger fires only once the slide distance reached the threshold
/// in its direction, and a fired slide starts over: the distance is back to
/// zero, so neither slide fires again, at any time and whatever the other
/// input, until new slide motion is recorded.
pub proof fn law_fired_slide_starts_over(
    t: TriggerState,
    now1: u64,
    now2: u64,
    id: HotzoneId,
    trigger: TriggerKind,
    event1: bool,
    event2: bool,
    hover_delay_ms: u64,
    cooldown1: u64,
    cooldown2: u64,
)
    requires
        trigger == TriggerKind::SlideForward || trigger == TriggerKind::SlideBackward,
    ensures
        ({
            let (t1, fired) = should_trigger_spec(t, now1, id, trigger, event1, hover_delay_ms, cooldown1);
            &&& fired && trigger == TriggerKind::SlideForward ==> t.slide >= SLIDE_THRESHOLD
            &&& fired && trigger == TriggerKind::SlideBackward ==> t.slide <= -SLIDE_THRESHOLD
            &&& fired ==> t1.slide == 0
            &&& fired ==> !should_trigger_spec(
                t1,
                now2,
                id,
                TriggerKind::SlideForward,
                event2,
                hover_delay_ms,
                cooldown2,
            ).1
            &&& fired ==> !should_trigger_spec(
                t1,
                now2,
                id,
                TriggerKind::SlideBackward,
                event2,
                hover_delay_ms,
                cooldown2,
            ).1
        }),
{
}

proof fn lemma_record_fired_other(
    s: Seq<((HotzoneId, TriggerKind), u64)>,
    key: (HotzoneId, TriggerKind),
    other: (HotzoneId, TriggerKind),
    now: u64,
)
    requires
        other != key,
    ensures
        last_fired_at(record_fired(s, key, now), other) == last_fired_at(s, other),
{
    let r = record_fired(s, key, now);
    lemma_fired_pos(s, key, 0);
    lemma_fired_pos(s, other, 0);
    lemma_fired_pos(r, other, 0);
    assert forall|m: int| 0 <= m < s.len() implies (#[trigger] r[m]).0 == other <==> s[m].0 == other by {
        if fired_pos(s, key, 0) == Some(m) {
            assert(r[m].0 == key);
        } else {
            assert(r[m] == s[m]);
        }
    }
    match fired_pos(s, other, 0) {
        Some(j) => {
            if fired_pos(s, key, 0) != Some(j) {
                assert(r[j] == s[j]);
            }
            assert(fired_pos(r, other, 0) == Some(j));
        },
        None => {
            if fired_pos(s, key, 0) is None {
                assert(r[s.len() as int].0 == key);
            }
            assert(fired_pos(r, other, 0) is None);
        },
    }
}

/// A trigger fires exactly when the pointer is in its zone, its event
/// happened (for a hover: not yet fired in this entry and the pointer has
/// stayed for the hover delay, a clock running backwards counting as no
/// time; for a slide: the slide distance reached the
/// threshold in its direction; otherwise the click or wheel step reported),
/// and its cooldown has passed. A trigger that does not fire changes
/// nothing. One that fires is recorded as fired now, leaves every other
/// trigger's record and the zone entry as they were, spends a hover, and
/// keeps the slide distance unless it is a slide.
pub proof fn law_trigger_fires_exactly_when(
    t: TriggerState,
    now: u64,
    id: HotzoneId,
    trigger: TriggerKind,
    input_event: bool,
    hover_delay_ms: u64,
    cooldown_ms: u64,
    other: (HotzoneId, TriggerKind),
)
    ensures
        ({
            let (t1, fired) = should_trigger_spec(t, now, id, trigger, input_event, hover_delay_ms, cooldown_ms);
            let happened = match trigger {
                TriggerKind::Hover => !t.hover_fired && (if now >= t.entered_at {
                    now - t.entered_at
                } else {
                    0
                }) >= hover_delay_ms,
                TriggerKind::SlideForward => t.slide >= SLIDE_THRESHOLD,
                TriggerKind::SlideBackward => t.slide <= -SLIDE_THRESHOLD,
                _ => input_event,
            };
            let waited = match last_fired_at(t.last_fired, (id, trigger)) {
                Some(last) => (if now >= last {
                    now - last
                } else {
                    0
                }) >= cooldown_ms,
                None => true,
            };
            &&& fired <==> (t.current == Some(id) && happened && waited)
            &&& !fired ==> t1 == t
            &&& fired ==> last_fired_at(t1.last_fired, (id, trigger)) == Some(now)
            &&& fired && other != (id, trigger) ==> last_fired_at(t1.last_fired, other)
                == last_fired_at(t.last_fired, other)
            &&& fired ==> t1.current == t.current && t1.entered_at == t.entered_at && t1.pending
                == t.pending
            &&& fired ==> t1.hover_fired == (t.hover_fired || trigger == TriggerKind::Hover)
            &&& fired && trigger != TriggerKind::SlideForward && trigger != TriggerKind::SlideBackward
                ==> t1.slide == t.slide
        }),
{
    let (t1, fired) = should_trigger_spec(t, now, id, trigger, input_event, hover_delay_ms, cooldown_ms);
    if fired {
        lemma_record_fired(t.last_fired, (id, trigger), now);
        if other != (id, trigger) {
            lemma_record_fired_other(t.last_fired, (id, trigger), other, now);
        }
    }
}

} // verus!
