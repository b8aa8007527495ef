//! Decisions the helper's main loop makes between platform calls: how often
//! to poll, when to refresh the display list, which hot zone to hint, when a
//! window counts as full screen or paused, and when a foreground change came
//! from a window being minimized.

use vstd::prelude::*;
use crate::config::{
    action_for_mask_spec, has_action_spec, modifier_mask, mask_of, settings_view,
    trigger_actions_view, ActionKind, ActionView, AppConfig, HotzoneAction, HotzoneId,
    HotzoneSetting, HotzoneSettingView, ModifierKey, TriggerActionView, TriggerKind,
};
use crate::trigger::{
    accumulate_spec, clamp_slide, should_trigger_spec, suspend_spec,
    HotzoneTriggerController, TriggerState,
};
use crate::config_normalize::{clamp_u64, clamp_value, profiles_view, ProfileView};
use crate::desktop::{parse_u64, parse_u64_spec};
use crate::edge_hide::{exists_fn, exists_oracle};
use crate::edge_hide_geometry::{rects_roughly_equal, roughly_equal_spec};
use crate::geometry::{monitor_id_spec, monitors_valid, Monitor, Point, WindowHandle, WindowInfo};
use crate::hotzone::{detect_hotzone, detect_hotzone_spec, first_display_from};
use crate::text::{
    contains_text, eq_ignore_ascii_case, eq_ignore_ascii_case_spec, lowercase_of, text_contains,
    text_eq, to_lowercase_string, trim_spec, trim_to_string,
};

verus! {

/// Shortest poll interval, in milliseconds.
pub const MIN_POLL_MS: u64 = 10;

/// Longest poll interval while a window is being dragged, in milliseconds.
pub const DRAG_POLL_CEILING_MS: u64 = 16;

/// How long a foreground change caused by minimizing a window is treated as
/// passive, in milliseconds.
pub const MINIMIZED_FOREGROUND_GUARD_MS: u64 = 250;

pub open spec fn poll_interval_spec(configured_ms: u64, dragging: bool) -> u64 {
    let c = if configured_ms >= MIN_POLL_MS {
        configured_ms
    } else {
        MIN_POLL_MS
    };
    if dragging && c > DRAG_POLL_CEILING_MS {
        DRAG_POLL_CEILING_MS
    } else {
        c
    }
}

/// The time between two polls, in milliseconds: the configured interval, at
/// least 10 ms, and at most 16 ms while a drag is in progress.
pub fn engine_poll_interval(configured_ms: u64, dragging: bool) -> (r: u64)
    ensures
        r == poll_interval_spec(configured_ms, dragging),
{
    let configured = if configured_ms >= MIN_POLL_MS {
        configured_ms
    } else {
        MIN_POLL_MS
    };
    if dragging {
        if configured <= DRAG_POLL_CEILING_MS {
            configured
        } else {
            DRAG_POLL_CEILING_MS
        }
    } else {
        configured
    }
}

/// Remembers the last foreground window and whether a recent foreground
/// change came from that window being minimized.
pub struct ForegroundTracker {
    previous: Option<WindowHandle>,
    passive_guard_until: Option<u64>,
}

pub struct TrackerView {
    pub previous: Option<WindowHandle>,
    pub guard_until: Option<u64>,
}

impl View for ForegroundTracker {
    type V = TrackerView;

    closed spec fn view(&self) -> TrackerView {
        TrackerView { previous: self.previous, guard_until: self.passive_guard_until }
    }
}

impl Default for ForegroundTracker {
    fn default() -> (t: Self)
        ensures
            t@.previous is None,
            t@.guard_until is None,
    {
        ForegroundTracker { previous: None, passive_guard_until: None }
    }
}

/// One observation of the foreground window at `now`: an expired guard is
/// dropped; a change away from a window that is now minimized starts a new
/// guard; the last non-empty foreground is remembered. The answer says
/// whether a guard is running.
pub open spec fn observe_spec(
    t: TrackerView,
    now: u64,
    current: Option<WindowHandle>,
    minimized: spec_fn(WindowHandle) -> bool,
) -> (TrackerView, bool) {
    let kept = match t.guard_until {
        Some(deadline) => if now >= deadline {
            None
        } else {
            Some(deadline)
        },
        None => None,
    };
    let guard = match (t.previous, current) {
        (Some(p), Some(c)) => if p != c && minimized(p) {
            Some((now + MINIMIZED_FOREGROUND_GUARD_MS) as u64)
        } else {
            kept
        },
        _ => kept,
    };
    let previous = if current is Some {
        current
    } else {
        t.previous
    };
    (
        TrackerView { previous, guard_until: guard },
        match guard {
            Some(deadline) => now < deadline,
            None => false,
        },
    )
}

impl ForegroundTracker {
    pub fn observe(
        &mut self,
        now: u64,
        current: Option<WindowHandle>,
        is_minimized: impl Fn(WindowHandle) -> bool,
    ) -> (r: bool)
        requires
            exists_oracle(is_minimized),
            now <= u64::MAX - MINIMIZED_FOREGROUND_GUARD_MS,
        ensures
            (final(self)@, r) == observe_spec(old(self)@, now, current, exists_fn(is_minimized)),
    {
        if let Some(deadline) = self.passive_guard_until {
            if now >= deadline {
                self.passive_guard_until = None;
            }
        }
        if let (Some(previous), Some(current)) = (self.previous, current) {
            if previous != current && crate::edge_hide::ask_exists(&is_minimized, previous) {
                self.passive_guard_until = Some(now + MINIMIZED_FOREGROUND_GUARD_MS);
            }
        }
        self.observe_current(current);
        match self.passive_guard_until {
            Some(deadline) => now < deadline,
            None => false,
        }
    }

    /// Remembers `current` as the foreground when there is one.
    pub fn observe_current(&mut self, current: Option<WindowHandle>)
        ensures
            final(self)@.previous == (if current is Some {
                current
            } else {
                old(self)@.previous
            }),
            final(self)@.guard_until == old(self)@.guard_until,
    {
        if current.is_some() {
            self.previous = current;
        }
    }

    /// Forgets the foreground and any guard.
    pub fn reset(&mut self)
        ensures
            final(self)@.previous is None,
            final(self)@.guard_until is None,
    {
        self.previous = None;
        self.passive_guard_until = None;
    }
}

/// Rate limit for re-reading the display list.
pub struct RefreshSchedule {
    interval_ms: u64,
    last_refresh: Option<u64>,
}

pub struct ScheduleView {
    pub interval_ms: u64,
    pub last_refresh: Option<u64>,
}

impl View for RefreshSchedule {
    type V = ScheduleView;

    closed spec fn view(&self) -> ScheduleView {
        ScheduleView { interval_ms: self.interval_ms, last_refresh: self.last_refresh }
    }
}

/// A refresh is due at the first call and whenever a full interval has
/// passed since the last refresh; a due refresh is recorded.
pub open spec fn should_refresh_spec(s: ScheduleView, now: u64) -> (ScheduleView, bool) {
    let due = match s.last_refresh {
        None => true,
        Some(last) => (if now >= last {
            now - last
        } else {
            0
        }) >= s.interval_ms,
    };
    (
        if due {
            ScheduleView { last_refresh: Some(now), ..s }
        } else {
            s
        },
        due,
    )
}

impl RefreshSchedule {
    pub fn new(interval_ms: u64) -> (s: Self)
        ensures
            s@.interval_ms == interval_ms,
            s@.last_refresh is None,
    {
        RefreshSchedule { interval_ms, last_refresh: None }
    }

    pub fn should_refresh(&mut self, now: u64) -> (r: bool)
        ensures
            (final(self)@, r) == should_refresh_spec(old(self)@, now),
    {
        let due = match self.last_refresh {
            None => true,
            Some(last) => now.saturating_sub(last) >= self.interval_ms,
        };
        if due {
            self.last_refresh = Some(now);
        }
        due
    }
}

/// A paused-app entry, trimmed and lower-cased, is not empty and occurs in
/// the lower-cased process name, title or class of the window.
pub open spec fn pauses(item: Seq<char>, w: WindowInfo) -> bool {
    let needle = lowercase_of(trim_spec(item));
    &&& needle.len() > 0
    &&& (contains_text(lowercase_of(w.process_name@), needle) || contains_text(
        lowercase_of(w.title@),
        needle,
    ) || contains_text(lowercase_of(w.class_name@), needle))
}

pub open spec fn paused_spec(paused_apps: Seq<String>, w: WindowInfo) -> bool {
    exists|i: int| 0 <= i < paused_apps.len() && pauses(#[trigger] paused_apps[i]@, w)
}

pub fn is_paused_app(paused_apps: &[String], window: &WindowInfo) -> (r: bool)
    ensures
        r == paused_spec(paused_apps@, *window),
{
    let process = to_lowercase_string(window.process_name.as_str());
    let title = to_lowercase_string(window.title.as_str());
    let class_name = to_lowercase_string(window.class_name.as_str());
    let mut i: usize = 0;
    while i < paused_apps.len()
        invariant
            i <= paused_apps@.len(),
            process@ == lowercase_of(window.process_name@),
            title@ == lowercase_of(window.title@),
            class_name@ == lowercase_of(window.class_name@),
            forall|j: int| 0 <= j < i ==> !pauses(#[trigger] paused_apps@[j]@, *window),
        decreases paused_apps@.len() - i,
    {
        let trimmed = trim_to_string(paused_apps[i].as_str());
        let item = to_lowercase_string(trimmed.as_str());
        if !item.as_str().is_empty() && (text_contains(process.as_str(), item.as_str())
            || text_contains(title.as_str(), item.as_str()) || text_contains(
            class_name.as_str(),
            item.as_str(),
        )) {
            assert(pauses(paused_apps@[i as int]@, *window));
            return true;
        }
        i += 1;
    }
    false
}

/// A window fills a display when it is not maximized, is not the desktop
/// shell, and lies within two pixels of some display's full bounds.
pub open spec fn fullscreen_spec(w: WindowInfo, monitors: Seq<Monitor>) -> bool {
    &&& !w.maximized
    &&& !eq_ignore_ascii_case_spec(w.class_name@, "progman"@)
    &&& !eq_ignore_ascii_case_spec(w.class_name@, "workerw"@)
    &&& exists|i: int| 0 <= i < monitors.len() && roughly_equal_spec(w.rect, #[trigger] monitors[i].bounds)
}

pub fn is_fullscreen_window(window: &WindowInfo, monitors: &[Monitor]) -> (r: bool)
    requires
        window.rect.valid(),
        monitors_valid(monitors@),
    ensures
        r == fullscreen_spec(*window, monitors@),
{
    if window.maximized || eq_ignore_ascii_case(window.class_name.as_str(), "progman")
        || eq_ignore_ascii_case(window.class_name.as_str(), "workerw") {
        return false;
    }
    let mut i: usize = 0;
    while i < monitors.len()
        invariant
            i <= monitors@.len(),
            window.rect.valid(),
            monitors_valid(monitors@),
            !window.maximized,
            !eq_ignore_ascii_case_spec(window.class_name@, "progman"@),
            !eq_ignore_ascii_case_spec(window.class_name@, "workerw"@),
            forall|j: int| 0 <= j < i ==> !roughly_equal_spec(window.rect, #[trigger] monitors@[j].bounds),
        decreases monitors@.len() - i,
    {
        proof {
            assert(monitors@[i as int].valid());
        }
        if rects_roughly_equal(window.rect, monitors[i].bounds) {
            return true;
        }
        i += 1;
    }
    false
}

/// A native drag preview starts once the left button is down and the
/// pointer has moved since the last poll.
pub fn native_drag_preview_started(
    left_button_down: bool,
    cursor: Point,
    previous_cursor: Option<Point>,
) -> (r: bool)
    ensures
        r == (left_button_down && (previous_cursor matches Some(p) && p != cursor)),
{
    left_button_down && match previous_cursor {
        Some(previous) => previous != cursor,
        None => false,
    }
}

/// The identifier of a display that monitor profiles refer to.
pub fn monitor_id(monitor: &Monitor) -> (s: String)
    ensures
        s@ == monitor_id_spec(*monitor),
{
    monitor.id()
}

/// The first profile, from `i` on, named `id`.
pub open spec fn profile_for(profiles: Seq<ProfileView>, id: Seq<char>, i: int) -> Option<int>
    decreases profiles.len() - i,
{
    if i < 0 || i >= profiles.len() {
        None
    } else if profiles[i].monitor_id == id {
        Some(i)
    } else {
        profile_for(profiles, id, i + 1)
    }
}

/// The zones that apply under the cursor: those of the profile of the first
/// display holding it, when there is one, else the global ones.
pub open spec fn zones_for_cursor_spec(
    zones: Seq<HotzoneSettingView>,
    profiles: Seq<ProfileView>,
    cursor: Point,
    monitors: Seq<Monitor>,
) -> Seq<HotzoneSettingView> {
    match first_display_from(monitors, cursor, 0) {
        Some(m) => match profile_for(profiles, monitor_id_spec(monitors[m]), 0) {
            Some(p) => profiles[p].hotzones,
            None => zones,
        },
        None => zones,
    }
}

pub fn hotzones_for_cursor<'a>(config: &'a AppConfig, cursor: Point, monitors: &[Monitor]) -> (r:
    &'a Vec<HotzoneSetting>)
    ensures
        settings_view(r@) == zones_for_cursor_spec(
            settings_view(config.hotzones@),
            profiles_view(config.monitor_profiles@),
            cursor,
            monitors@,
        ),
{
    let mut m: usize = 0;
    while m < monitors.len()
        invariant
            m <= monitors@.len(),
            first_display_from(monitors@, cursor, 0) == first_display_from(monitors@, cursor, m as int),
        decreases monitors@.len() - m,
    {
        if monitors[m].bounds.contains(cursor) {
            let id = monitor_id(&monitors[m]);
            let ghost pv = profiles_view(config.monitor_profiles@);
            let mut p: usize = 0;
            while p < config.monitor_profiles.len()
                invariant
                    p <= config.monitor_profiles@.len(),
                    m < monitors@.len(),
                    first_display_from(monitors@, cursor, 0) == Some(m as int),
                    pv == profiles_view(config.monitor_profiles@),
                    id@ == monitor_id_spec(monitors@[m as int]),
                    profile_for(pv, id@, 0) == profile_for(pv, id@, p as int),
                decreases config.monitor_profiles@.len() - p,
            {
                if text_eq(config.monitor_profiles[p].monitor_id.as_str(), id.as_str()) {
                    assert(pv[p as int].monitor_id == id@);
                    return &config.monitor_profiles[p].hotzones;
                }
                p += 1;
            }
            return &config.hotzones;
        }
        m += 1;
    }
    &config.hotzones
}

/// The first zone, from `i` on, with id `id` and an action.
pub open spec fn acting_zone(zones: Seq<HotzoneSettingView>, id: HotzoneId, i: int) -> bool
    decreases zones.len() - i,
{
    if i < 0 || i >= zones.len() {
        false
    } else if zones[i].id == id && has_action_spec(zones[i]) {
        true
    } else {
        acting_zone(zones, id, i + 1)
    }
}

/// The zone to hint at: none while paused or with hot zones off; else the
/// zone under the cursor, when a zone with that id applies there and has an
/// action.
pub open spec fn hint_spec(c: AppConfig, cursor: Point, monitors: Seq<Monitor>, paused: bool) -> Option<HotzoneId> {
    if paused || !c.hotzones_enabled {
        None
    } else {
        match detect_hotzone_spec(cursor, monitors, c.edge_size as int) {
            Some(id) => if acting_zone(
                zones_for_cursor_spec(
                    settings_view(c.hotzones@),
                    profiles_view(c.monitor_profiles@),
                    cursor,
                    monitors,
                ),
                id,
                0,
            ) {
                Some(id)
            } else {
                None
            },
            None => None,
        }
    }
}

pub fn hotzone_hint_for(config: &AppConfig, cursor: Point, monitors: &[Monitor], paused: bool) -> (r:
    Option<HotzoneId>)
    requires
        monitors_valid(monitors@),
        config.edge_size <= crate::geometry::COORD_LIMIT,
    ensures
        r == hint_spec(*config, cursor, monitors@, paused),
{
    if paused || !config.hotzones_enabled {
        return None;
    }
    let detected = match detect_hotzone(cursor, monitors, config.edge_size) {
        Some(id) => id,
        None => return None,
    };
    let zones = hotzones_for_cursor(config, cursor, monitors);
    let ghost zv = settings_view(zones@);
    let mut i: usize = 0;
    while i < zones.len()
        invariant
            i <= zones@.len(),
            zv == settings_view(zones@),
            acting_zone(zv, detected, 0) == acting_zone(zv, detected, i as int),
            hint_spec(*config, cursor, monitors@, paused) == (if acting_zone(zv, detected, 0) {
                Some(detected)
            } else {
                None
            }),
        decreases zones@.len() - i,
    {
        if zones[i].id == detected && zones[i].has_action() {
            assert(zv[i as int] == zones@[i as int]@);
            return Some(detected);
        }
        proof {
            assert(zv[i as int] == zones@[i as int]@);
        }
        i += 1;
    }
    None
}

/// How far the pointer slid along the edge of zone `id`: horizontally on
/// the top and bottom edges, vertically on the left and right ones, not at
/// all in a corner.
pub fn slide_motion(id: HotzoneId, cursor: Point, previous: Point) -> (r: i32)
    requires
        cursor.valid(),
        previous.valid(),
    ensures
        r == (match id {
            HotzoneId::Top | HotzoneId::Bottom => cursor.x - previous.x,
            HotzoneId::Left | HotzoneId::Right => cursor.y - previous.y,
            _ => 0,
        }),
{
    match id {
        HotzoneId::Top | HotzoneId::Bottom => cursor.x - previous.x,
        HotzoneId::Left | HotzoneId::Right => cursor.y - previous.y,
        _ => 0,
    }
}

/// The mask of the modifier keys a setting lists.
pub fn modifier_config_mask(modifiers: &[ModifierKey]) -> (m: u8)
    ensures
        m == mask_of(modifiers@),
{
    modifier_mask(modifiers)
}

/// A volume action runs continuously, scaled by the distance moved, for
/// wheel and slide triggers.
pub fn is_continuous_volume_trigger(action: &HotzoneAction, trigger: TriggerKind) -> (r: bool)
    ensures
        r == (action.kind == ActionKind::VolumeAdjust && (trigger == TriggerKind::WheelUp || trigger
            == TriggerKind::WheelDown || trigger == TriggerKind::SlideForward || trigger
            == TriggerKind::SlideBackward)),
{
    action.kind == ActionKind::VolumeAdjust && match trigger {
        TriggerKind::WheelUp | TriggerKind::WheelDown | TriggerKind::SlideForward
        | TriggerKind::SlideBackward => true,
        _ => false,
    }
}


pub open spec fn or_held(mask: Option<u8>, held: u8) -> u8 {
    match mask {
        Some(m) => m,
        None => held,
    }
}

/// The modifier keys that pick a trigger's action: for a click or a wheel
/// turn, the keys held when it happened (`left_click`, `right_click`,
/// `wheel`: what the input layer recorded since the previous poll, if such
/// an event came), else the keys held now.
pub fn trigger_modifier_mask(
    trigger: TriggerKind,
    held: u8,
    left_click: Option<u8>,
    right_click: Option<u8>,
    wheel: Option<u8>,
) -> (r: u8)
    ensures
        r == match trigger {
            TriggerKind::LeftClick => or_held(left_click, held),
            TriggerKind::RightClick => or_held(right_click, held),
            TriggerKind::WheelUp | TriggerKind::WheelDown => or_held(wheel, held),
            _ => held,
        },
{
    let recorded = match trigger {
        TriggerKind::LeftClick => left_click,
        TriggerKind::RightClick => right_click,
        TriggerKind::WheelUp | TriggerKind::WheelDown => wheel,
        _ => None,
    };
    match recorded {
        Some(m) => m,
        None => held,
    }
}

/// Wheel distance of one notch.
pub const WHEEL_UNITS_PER_STEP: u32 = 120;

/// Slide distance, in pixels, of one step.
pub const SLIDE_UNITS_PER_STEP: u32 = 16;

/// How strongly a continuous volume action is applied: `distance` moved,
/// counted in steps of `per_step` (the scale is their quotient).
#[derive(Clone, Copy, Debug, PartialEq, Eq, Structural)]
pub struct MotionScale {
    pub distance: u32,
    pub per_step: u32,
}

pub open spec fn abs_u32(v: i32) -> u32 {
    (if v < 0 { -(v as int) } else { v as int }) as u32
}

pub open spec fn continuous_scale_spec(
    kind: ActionKind,
    trigger: TriggerKind,
    wheel_motion: i32,
    slide_motion: i32,
) -> Option<MotionScale> {
    if kind != ActionKind::VolumeAdjust {
        None
    } else {
        match trigger {
            TriggerKind::WheelUp if wheel_motion > 0 => Some(
                MotionScale { distance: wheel_motion as u32, per_step: WHEEL_UNITS_PER_STEP },
            ),
            TriggerKind::WheelDown if wheel_motion < 0 => Some(
                MotionScale { distance: abs_u32(wheel_motion), per_step: WHEEL_UNITS_PER_STEP },
            ),
            TriggerKind::SlideForward if slide_motion > 0 => Some(
                MotionScale { distance: slide_motion as u32, per_step: SLIDE_UNITS_PER_STEP },
            ),
            TriggerKind::SlideBackward if slide_motion < 0 => Some(
                MotionScale { distance: abs_u32(slide_motion), per_step: SLIDE_UNITS_PER_STEP },
            ),
            _ => None,
        }
    }
}

fn magnitude(v: i32) -> (r: u32)
    ensures
        r == abs_u32(v),
{
    if v < 0 {
        (-(v as i64)) as u32
    } else {
        v as u32
    }
}

/// The scale of a continuous volume action: the wheel distance moved since
/// the previous poll in the direction of a wheel trigger, in notches, or the
/// slide distance in the direction of a slide trigger, in 16-pixel steps;
/// nothing for any other action, trigger or direction.
pub fn continuous_action_scale(
    action: &HotzoneAction,
    trigger: TriggerKind,
    wheel_motion: i32,
    slide_motion: i32,
) -> (r: Option<MotionScale>)
    ensures
        r == continuous_scale_spec(action.kind, trigger, wheel_motion, slide_motion),
{
    if action.kind != ActionKind::VolumeAdjust {
        return None;
    }
    match trigger {
        TriggerKind::WheelUp => if wheel_motion > 0 {
            Some(MotionScale { distance: wheel_motion as u32, per_step: WHEEL_UNITS_PER_STEP })
        } else {
            None
        },
        TriggerKind::WheelDown => if wheel_motion < 0 {
            Some(MotionScale { distance: magnitude(wheel_motion), per_step: WHEEL_UNITS_PER_STEP })
        } else {
            None
        },
        TriggerKind::SlideForward => if slide_motion > 0 {
            Some(MotionScale { distance: slide_motion as u32, per_step: SLIDE_UNITS_PER_STEP })
        } else {
            None
        },
        TriggerKind::SlideBackward => if slide_motion < 0 {
            Some(MotionScale { distance: magnitude(slide_motion), per_step: SLIDE_UNITS_PER_STEP })
        } else {
            None
        },
        _ => None,
    }
}

/// Shortest and longest delay, in milliseconds, of the engine failure that
/// a test run can inject.
pub const INJECTED_FAILURE_MIN_MS: u64 = 50;
pub const INJECTED_FAILURE_MAX_MS: u64 = 60_000;

/// The delay after which a test run wants the engine to fail, from the
/// text it set: a whole number of milliseconds held to 50..=60000, or
/// nothing where no number is set.
pub fn injected_failure_delay_ms(value: Option<&str>) -> (r: Option<u64>)
    ensures
        r == match value {
            Some(text) => match parse_u64_spec(text@) {
                Some(ms) => Some(clamp_u64(ms, INJECTED_FAILURE_MIN_MS, INJECTED_FAILURE_MAX_MS)),
                None => None,
            },
            None => None,
        },
{
    match value {
        Some(text) => match parse_u64(text) {
            Some(ms) => Some(clamp_value(ms, INJECTED_FAILURE_MIN_MS, INJECTED_FAILURE_MAX_MS)),
            None => None,
        },
        None => None,
    }
}

/// What the input layer reports for a poll: the modifier keys held now,
/// those recorded with a left click, right click or wheel step since the
/// previous poll (where one came), which of those events came, and the
/// wheel distance turned since the previous poll.
#[derive(Clone, Copy, Debug, PartialEq, Eq, Structural)]
pub struct HotzoneInput {
    pub held: u8,
    pub left_click_mask: Option<u8>,
    pub right_click_mask: Option<u8>,
    pub wheel_mask: Option<u8>,
    pub left_clicked: bool,
    pub right_clicked: bool,
    pub wheel_up: bool,
    pub wheel_down: bool,
    pub wheel_motion: i32,
}

/// The motion a continuous trigger brought this poll, and whether the
/// motion it holds is handed out now.
#[derive(Clone, Copy, Debug, PartialEq, Eq, Structural)]
pub struct ContinuousStep {
    pub scale: Option<MotionScale>,
    pub fire: bool,
}

/// A trigger of the zone under the pointer that fires this poll with
/// `action` and the modifier keys `modifiers`; for a continuous trigger, its
/// step, reported whether or not it fires.
#[derive(Clone, Debug)]
pub struct HotzoneFiring {
    pub hotzone: HotzoneId,
    pub trigger: TriggerKind,
    pub action: HotzoneAction,
    pub modifiers: u8,
    pub continuous: Option<ContinuousStep>,
}

pub struct FiringView {
    pub hotzone: HotzoneId,
    pub trigger: TriggerKind,
    pub action: ActionView,
    pub modifiers: u8,
    pub continuous: Option<ContinuousStep>,
}

impl View for HotzoneFiring {
    type V = FiringView;

    open spec fn view(&self) -> FiringView {
        FiringView {
            hotzone: self.hotzone,
            trigger: self.trigger,
            action: self.action@,
            modifiers: self.modifiers,
            continuous: self.continuous,
        }
    }
}

pub open spec fn firings_view(v: Seq<HotzoneFiring>) -> Seq<FiringView> {
    v.map_values(|f: HotzoneFiring| f@)
}

pub open spec fn trigger_mask_spec(trigger: TriggerKind, input: HotzoneInput) -> u8 {
    match trigger {
        TriggerKind::LeftClick => or_held(input.left_click_mask, input.held),
        TriggerKind::RightClick => or_held(input.right_click_mask, input.held),
        TriggerKind::WheelUp | TriggerKind::WheelDown => or_held(input.wheel_mask, input.held),
        _ => input.held,
    }
}

/// Whether the event of a click or wheel trigger came since the last poll.
pub open spec fn input_event_spec(trigger: TriggerKind, input: HotzoneInput) -> bool {
    match trigger {
        TriggerKind::LeftClick => input.left_clicked,
        TriggerKind::RightClick => input.right_clicked,
        TriggerKind::WheelUp => input.wheel_up,
        TriggerKind::WheelDown => input.wheel_down,
        _ => false,
    }
}

pub open spec fn or_default(o: Option<u64>, d: u64) -> u64 {
    match o {
        Some(v) => v,
        None => d,
    }
}

pub open spec fn continuous_kind(kind: ActionKind, trigger: TriggerKind) -> bool {
    kind == ActionKind::VolumeAdjust && (trigger == TriggerKind::WheelUp || trigger
        == TriggerKind::WheelDown || trigger == TriggerKind::SlideForward || trigger
        == TriggerKind::SlideBackward)
}

pub open spec fn is_slide(trigger: TriggerKind) -> bool {
    trigger == TriggerKind::SlideForward || trigger == TriggerKind::SlideBackward
}

/// One trigger slot of the zone's setting: its action for the keys held
/// (none for `NoAction`), its cooldown (its own or the global one, held to
/// 10..=5000 ms) and hover delay (held to 0..=3000 ms). A continuous volume
/// trigger holds its motion and hands it out after the cooldown, starting
/// its slide over when it is a slide; any other trigger fires as
/// `should_trigger_spec` says.
pub open spec fn slot_step_spec(
    t: TriggerState,
    now: u64,
    c: AppConfig,
    id: HotzoneId,
    ta: TriggerActionView,
    input: HotzoneInput,
    motion: i32,
) -> (TriggerState, Seq<FiringView>) {
    let modifiers = trigger_mask_spec(ta.trigger, input);
    let action = action_for_mask_spec(ta.modifier_actions, ta.action, modifiers);
    if action.kind == ActionKind::NoAction {
        (t, seq![])
    } else {
        let cooldown = clamp_u64(or_default(ta.cooldown_ms, c.action_cooldown_ms), 10, 5000);
        if continuous_kind(action.kind, ta.trigger) {
            let scale = continuous_scale_spec(action.kind, ta.trigger, input.wheel_motion, motion);
            let (t1, fire) = accumulate_spec(t, now, id, ta.trigger, scale is Some, cooldown);
            let t2 = if fire && is_slide(ta.trigger) {
                TriggerState { slide: 0, ..t1 }
            } else {
                t1
            };
            (
                t2,
                seq![
                    FiringView {
                        hotzone: id,
                        trigger: ta.trigger,
                        action,
                        modifiers,
                        continuous: Some(ContinuousStep { scale, fire }),
                    },
                ],
            )
        } else {
            let hover = clamp_u64(or_default(ta.hover_delay_ms, c.hover_delay_ms), 0, 3000);
            let (t1, fire) = should_trigger_spec(
                t,
                now,
                id,
                ta.trigger,
                input_event_spec(ta.trigger, input),
                hover,
                cooldown,
            );
            (
                t1,
                if fire {
                    seq![
                        FiringView {
                            hotzone: id,
                            trigger: ta.trigger,
                            action,
                            modifiers,
                            continuous: None,
                        },
                    ]
                } else {
                    seq![]
                },
            )
        }
    }
}

/// The slots of a setting, in their order.
pub open spec fn slots_spec(
    t: TriggerState,
    now: u64,
    c: AppConfig,
    id: HotzoneId,
    slots: Seq<TriggerActionView>,
    input: HotzoneInput,
    motion: i32,
) -> (TriggerState, Seq<FiringView>)
    decreases slots.len(),
{
    if slots.len() == 0 {
        (t, seq![])
    } else {
        let (t1, f1) = slots_spec(t, now, c, id, slots.drop_last(), input, motion);
        let (t2, f2) = slot_step_spec(t1, now, c, id, slots.last(), input, motion);
        (t2, f1 + f2)
    }
}

/// The index of the first zone, from `i` on, with id `id` and an action.
pub open spec fn acting_index(zones: Seq<HotzoneSettingView>, id: HotzoneId, i: int) -> Option<int>
    decreases zones.len() - i,
{
    if i < 0 || i >= zones.len() {
        None
    } else if zones[i].id == id && has_action_spec(zones[i]) {
        Some(i)
    } else {
        acting_index(zones, id, i + 1)
    }
}

pub open spec fn slide_motion_spec(id: HotzoneId, cursor: Point, previous: Option<Point>) -> i32 {
    match previous {
        Some(p) => match id {
            HotzoneId::Top | HotzoneId::Bottom => (cursor.x - p.x) as i32,
            HotzoneId::Left | HotzoneId::Right => (cursor.y - p.y) as i32,
            _ => 0,
        },
        None => 0,
    }
}

/// One poll of the hot zones. Paused (or with hot zones off) the entry is
/// forgotten. Otherwise the zone under the pointer is observed; with no
/// zone nothing fires, and where no setting with that id and an action
/// applies under the cursor the entry is forgotten too. Else the slide along
/// the edge is recorded and the setting's slots run in their order.
pub open spec fn hotzone_tick_spec(
    t: TriggerState,
    now: u64,
    c: AppConfig,
    cursor: Point,
    previous_cursor: Option<Point>,
    monitors: Seq<Monitor>,
    input: HotzoneInput,
    paused: bool,
) -> (TriggerState, Seq<FiringView>) {
    if paused || !c.hotzones_enabled {
        (suspend_spec(t, now), seq![])
    } else {
        let detected = detect_hotzone_spec(cursor, monitors, c.edge_size as int);
        let t1 = crate::trigger::observe_spec(t, now, detected);
        match detected {
            None => (t1, seq![]),
            Some(id) => {
                let zones = zones_for_cursor_spec(
                    settings_view(c.hotzones@),
                    profiles_view(c.monitor_profiles@),
                    cursor,
                    monitors,
                );
                match acting_index(zones, id, 0) {
                    None => (suspend_spec(t1, now), seq![]),
                    Some(z) => {
                        let motion = slide_motion_spec(id, cursor, previous_cursor);
                        let t2 = TriggerState { slide: clamp_slide(t1.slide + motion), ..t1 };
                        slots_spec(t2, now, c, id, zones[z].actions, input, motion)
                    },
                }
            },
        }
    }
}

fn copy_action(a: &HotzoneAction) -> (r: HotzoneAction)
    ensures
        r@ == a@,
{
    let value = match &a.value {
        Some(v) => Some(v.clone()),
        None => None,
    };
    HotzoneAction { kind: a.kind, value }
}

fn first_acting(zones: &Vec<HotzoneSetting>, id: HotzoneId) -> (r: Option<usize>)
    ensures
        match r {
            Some(z) => z < zones@.len() && acting_index(settings_view(zones@), id, 0) == Some(z as int),
            None => acting_index(settings_view(zones@), id, 0) is None,
        },
{
    let ghost zv = settings_view(zones@);
    let mut z: usize = 0;
    while z < zones.len()
        invariant
            z <= zones@.len(),
            zv == settings_view(zones@),
            acting_index(zv, id, 0) == acting_index(zv, id, z as int),
        decreases zones@.len() - z,
    {
        proof {
            assert(zv[z as int] == zones@[z as int]@);
        }
        if zones[z].id == id && zones[z].has_action() {
            return Some(z);
        }
        z += 1;
    }
    None
}

/// Runs one poll of the hot zones: updates the trigger state and returns
/// what fires, in slot order; see `hotzone_tick_spec`.
pub fn hotzone_tick(
    triggers: &mut HotzoneTriggerController,
    now: u64,
    config: &AppConfig,
    cursor: Point,
    previous_cursor: Option<Point>,
    monitors: &[Monitor],
    input: &HotzoneInput,
    paused: bool,
) -> (r: Vec<HotzoneFiring>)
    requires
        old(triggers).wf(),
        monitors_valid(monitors@),
        config.edge_size <= crate::geometry::COORD_LIMIT,
        cursor.valid(),
        previous_cursor matches Some(p) ==> p.valid(),
    ensures
        final(triggers).wf(),
        (final(triggers)@, firings_view(r@)) == hotzone_tick_spec(
            old(triggers)@,
            now,
            *config,
            cursor,
            previous_cursor,
            monitors@,
            *input,
            paused,
        ),
{
    let mut out: Vec<HotzoneFiring> = Vec::new();
    if paused || !config.hotzones_enabled {
        triggers.suspend(now);
        return out;
    }
    let detected = detect_hotzone(cursor, monitors, config.edge_size);
    triggers.observe(now, detected);
    let id = match detected {
        Some(id) => id,
        None => return out,
    };
    let zones = hotzones_for_cursor(config, cursor, monitors);
    let ghost zv = settings_view(zones@);
    let z = match first_acting(zones, id) {
        Some(z) => z,
        None => {
            triggers.suspend(now);
            return out;
        },
    };
    let motion = match previous_cursor {
        Some(previous) => slide_motion(id, cursor, previous),
        None => 0,
    };
    triggers.record_slide_motion(motion);
    let slots = &zones[z].actions;
    let ghost sv = trigger_actions_view(slots@);
    let ghost t2 = triggers@;
    assert(sv == zv[z as int].actions);
    assert(sv.take(0) =~= Seq::<TriggerActionView>::empty());
    let mut i: usize = 0;
    while i < slots.len()
        invariant
            i <= slots@.len(),
            sv == trigger_actions_view(slots@),
            triggers.wf(),
            (triggers@, firings_view(out@)) == slots_spec(
                t2,
                now,
                *config,
                id,
                sv.take(i as int),
                *input,
                motion,
            ),
        decreases slots@.len() - i,
    {
        let ta = &slots[i];
        proof {
            assert(sv.take(i + 1).drop_last() =~= sv.take(i as int));
            assert(sv.take(i + 1).last() == ta@);
        }
        let ghost before = out@;
        let modifiers = trigger_modifier_mask(
            ta.trigger,
            input.held,
            input.left_click_mask,
            input.right_click_mask,
            input.wheel_mask,
        );
        let action = ta.action_for_modifier_mask(modifiers);
        if action.kind != ActionKind::NoAction {
            let cooldown = clamp_value(
                match ta.cooldown_ms {
                    Some(v) => v,
                    None => config.action_cooldown_ms,
                },
                10,
                5000,
            );
            if is_continuous_volume_trigger(action, ta.trigger) {
                let scale = continuous_action_scale(action, ta.trigger, input.wheel_motion, motion);
                let fire = triggers.accumulate_continuous_motion(
                    now,
                    id,
                    ta.trigger,
                    scale.is_some(),
                    cooldown,
                );
                if fire && (ta.trigger == TriggerKind::SlideForward || ta.trigger
                    == TriggerKind::SlideBackward) {
                    triggers.clear_slide_motion();
                }
                out.push(
                    HotzoneFiring {
                        hotzone: id,
                        trigger: ta.trigger,
                        action: copy_action(action),
                        modifiers,
                        continuous: Some(ContinuousStep { scale, fire }),
                    },
                );
                proof {
                    assert(firings_view(out@) =~= firings_view(before) + seq![out@.last()@]);
                }
            } else {
                let hover = clamp_value(
                    match ta.hover_delay_ms {
                        Some(v) => v,
                        None => config.hover_delay_ms,
                    },
                    0,
                    3000,
                );
                let event = match ta.trigger {
                    TriggerKind::LeftClick => input.left_clicked,
                    TriggerKind::RightClick => input.right_clicked,
                    TriggerKind::WheelUp => input.wheel_up,
                    TriggerKind::WheelDown => input.wheel_down,
                    _ => false,
                };
                if triggers.should_trigger(now, id, ta.trigger, event, hover, cooldown) {
                    out.push(
                        HotzoneFiring {
                            hotzone: id,
                            trigger: ta.trigger,
                            action: copy_action(action),
                            modifiers,
                            continuous: None,
                        },
                    );
                    proof {
                        assert(firings_view(out@) =~= firings_view(before) + seq![out@.last()@]);
                    }
                } else {
                    assert(firings_view(out@) =~= firings_view(before) + Seq::<FiringView>::empty());
                }
            }
        } else {
            assert(firings_view(out@) =~= firings_view(before) + Seq::<FiringView>::empty());
        }
        i += 1;
    }
    assert(sv.take(sv.len() as int) =~= sv);
    out
}

/// Where the edge-hide preview of a poll comes from.
#[derive(Clone, Copy, Debug, PartialEq, Eq, Structural)]
pub enum PreviewSource {
    /// No preview is shown.
    Nothing,
    /// The window being dragged by the helper, at its drag rectangle.
    DragTarget,
    /// The foreground window, at its own rectangle, as a native drag starts.
    Foreground,
}

/// What one poll of the main loop does besides reading the platform.
#[derive(Clone, Copy, Debug, PartialEq, Eq, Structural)]
pub struct TickPlan {
    /// Capture and recognize mouse gestures.
    pub capture_gestures: bool,
    /// Treat hot zones as paused for hints and firing.
    pub hotzones_paused: bool,
    /// Run edge hiding.
    pub run_edge_hide: bool,
    pub preview: PreviewSource,
    /// Forget the hot-zone entry.
    pub suspend_hotzones: bool,
    /// Cancel a drag in progress and put its window back.
    pub cancel_drag: bool,
    /// Forget the foreground history.
    pub reset_foreground: bool,
    /// Restore every window that edge hiding has moved.
    pub restore_edge_hide: bool,
}

/// The gesture pause of the foreground window: a paused app, or full screen
/// when gestures pause there.
pub open spec fn gestures_paused_spec(c: AppConfig, w: WindowInfo, monitors: Seq<Monitor>) -> bool {
    paused_spec(c.mouse_gestures.paused_apps@, w) || (c.mouse_gestures.fullscreen_pause
        && fullscreen_spec(w, monitors))
}

/// The plan of one poll. With the helper off: nothing runs, hot zones are
/// suspended, a drag is cancelled, the foreground history is forgotten and
/// every edge-hidden window comes back. When reading the cursor, displays or
/// foreground window failed: the same, but windows stay hidden and the
/// foreground history is kept. Otherwise gestures are captured when they
/// are on, the foreground app does not pause them and no drag runs; hot
/// zones are paused for a paused app or a drag; edge hiding runs unless a
/// drag does; and the preview follows the drag target, else the foreground
/// window when a native drag starts.
pub open spec fn tick_plan_spec(
    c: AppConfig,
    reads_ok: bool,
    foreground: Option<WindowInfo>,
    monitors: Seq<Monitor>,
    dragging: bool,
    drag_target: bool,
    native_drag_started: bool,
) -> TickPlan {
    if !c.enabled {
        TickPlan {
            capture_gestures: false,
            hotzones_paused: true,
            run_edge_hide: false,
            preview: PreviewSource::Nothing,
            suspend_hotzones: true,
            cancel_drag: true,
            reset_foreground: true,
            restore_edge_hide: true,
        }
    } else if !reads_ok {
        TickPlan {
            capture_gestures: false,
            hotzones_paused: true,
            run_edge_hide: false,
            preview: PreviewSource::Nothing,
            suspend_hotzones: true,
            cancel_drag: true,
            reset_foreground: false,
            restore_edge_hide: false,
        }
    } else {
        let paused = match foreground {
            Some(w) => paused_spec(c.paused_apps@, w),
            None => false,
        };
        let gestures_paused = match foreground {
            Some(w) => gestures_paused_spec(c, w, monitors),
            None => false,
        };
        TickPlan {
            capture_gestures: c.mouse_gestures.enabled && !gestures_paused && !dragging,
            hotzones_paused: paused || dragging,
            run_edge_hide: !dragging,
            preview: if drag_target {
                PreviewSource::DragTarget
            } else if !dragging && native_drag_started && foreground is Some {
                PreviewSource::Foreground
            } else {
                PreviewSource::Nothing
            },
            suspend_hotzones: false,
            cancel_drag: false,
            reset_foreground: false,
            restore_edge_hide: false,
        }
    }
}

/// Plans one poll of the main loop; see `tick_plan_spec`.
pub fn engine_tick_plan(
    config: &AppConfig,
    reads_ok: bool,
    foreground: Option<&WindowInfo>,
    monitors: &[Monitor],
    dragging: bool,
    drag_target: bool,
    native_drag_started: bool,
) -> (p: TickPlan)
    requires
        monitors_valid(monitors@),
        foreground matches Some(w) ==> w.rect.valid(),
    ensures
        p == tick_plan_spec(
            *config,
            reads_ok,
            match foreground {
                Some(w) => Some(*w),
                None => None,
            },
            monitors@,
            dragging,
            drag_target,
            native_drag_started,
        ),
{
    if !config.enabled {
        return TickPlan {
            capture_gestures: false,
            hotzones_paused: true,
            run_edge_hide: false,
            preview: PreviewSource::Nothing,
            suspend_hotzones: true,
            cancel_drag: true,
            reset_foreground: true,
            restore_edge_hide: true,
        };
    }
    if !reads_ok {
        return TickPlan {
            capture_gestures: false,
            hotzones_paused: true,
            run_edge_hide: false,
            preview: PreviewSource::Nothing,
            suspend_hotzones: true,
            cancel_drag: true,
            reset_foreground: false,
            restore_edge_hide: false,
        };
    }
    let (paused, gestures_paused) = match foreground {
        Some(w) => {
            let gestures_paused = is_paused_app(config.mouse_gestures.paused_apps.as_slice(), w)
                || (config.mouse_gestures.fullscreen_pause && is_fullscreen_window(w, monitors));
            (is_paused_app(config.paused_apps.as_slice(), w), gestures_paused)
        },
        None => (false, false),
    };
    let preview = if drag_target {
        PreviewSource::DragTarget
    } else if !dragging && native_drag_started && foreground.is_some() {
        PreviewSource::Foreground
    } else {
        PreviewSource::Nothing
    };
    TickPlan {
        capture_gestures: config.mouse_gestures.enabled && !gestures_paused && !dragging,
        hotzones_paused: paused || dragging,
        run_edge_hide: !dragging,
        preview,
        suspend_hotzones: false,
        cancel_drag: false,
        reset_foreground: false,
        restore_edge_hide: false,
    }
}

/// Polling never runs faster than every 10 ms, and never slower than every
/// 16 ms while a drag is in progress.
pub proof fn law_poll_interval_bounds(configured_ms: u64, dragging: bool)
    ensures
        poll_interval_spec(configured_ms, dragging) >= MIN_POLL_MS,
        dragging ==> poll_interval_spec(configured_ms, dragging) <= DRAG_POLL_CEILING_MS,
        !dragging && configured_ms >= MIN_POLL_MS ==> poll_interval_spec(configured_ms, dragging)
            == configured_ms,
{
}

/// Two refreshes in a row, the clock not running backwards, are at least
/// one interval apart.
pub proof fn law_refreshes_are_rate_limited(s: ScheduleView, t1: u64, t2: u64)
    requires
        t1 <= t2,
    ensures
        ({
            let (s1, first) = should_refresh_spec(s, t1);
            let (_, second) = should_refresh_spec(s1, t2);
            first && second ==> t2 - t1 >= s.interval_ms
        }),
        should_refresh_spec(s, t1).0.interval_ms == s.interval_ms,
{
}

/// While a guard runs, observations keep answering yes until its deadline,
/// whatever the foreground is, unless a new change starts a later one.
pub proof fn law_guard_lasts_until_deadline(
    t: TrackerView,
    now: u64,
    current: Option<WindowHandle>,
    minimized: spec_fn(WindowHandle) -> bool,
)
    requires
        t.guard_until matches Some(d) && now < d,
        now <= u64::MAX - MINIMIZED_FOREGROUND_GUARD_MS,
    ensures
        observe_spec(t, now, current, minimized).1,
{
}

} // verus!
