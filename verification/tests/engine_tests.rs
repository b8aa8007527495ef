use convenient_window::config::{
    ActionKind, AppConfig, HotzoneAction, HotzoneId, HotzoneSetting, MonitorProfile, TriggerAction,
    TriggerKind,
};
use convenient_window::engine_rules::{
    continuous_action_scale, engine_poll_interval, hotzone_hint_for, injected_failure_delay_ms,
    trigger_modifier_mask,
    MotionScale, is_continuous_volume_trigger, is_fullscreen_window,
    is_paused_app, modifier_config_mask, monitor_id, native_drag_preview_started, slide_motion,
    ForegroundTracker, RefreshSchedule,
};
use convenient_window::config::ModifierKey;
use convenient_window::geometry::{Monitor, Point, Rect, WindowHandle, WindowInfo};
use convenient_window::hotzone::detect_hotzone;

fn monitor() -> Monitor {
    Monitor {
        bounds: Rect {
            left: 0,
            top: 0,
            right: 100,
            bottom: 100,
        },
        work_area: Rect {
            left: 0,
            top: 0,
            right: 100,
            bottom: 100,
        },
        primary: true,
    }
}

#[test]
fn active_drag_uses_a_sixteen_millisecond_ceiling_without_changing_idle_polling() {
    assert_eq!(engine_poll_interval(33, false), 33);
    assert_eq!(engine_poll_interval(33, true), 16);
    assert_eq!(engine_poll_interval(10, true), 10);
    assert_eq!(engine_poll_interval(250, false), 250);
}

#[test]
fn poll_interval_never_drops_below_ten_milliseconds() {
    assert_eq!(engine_poll_interval(0, false), 10);
    assert_eq!(engine_poll_interval(3, true), 10);
}

#[test]
fn native_drag_preview_requires_pointer_motion() {
    assert!(!native_drag_preview_started(
        true,
        Point { x: 10, y: 10 },
        Some(Point { x: 10, y: 10 }),
    ));
    assert!(!native_drag_preview_started(true, Point { x: 10, y: 10 }, None));
    assert!(native_drag_preview_started(
        true,
        Point { x: 11, y: 10 },
        Some(Point { x: 10, y: 10 }),
    ));
    assert!(!native_drag_preview_started(
        false,
        Point { x: 11, y: 10 },
        Some(Point { x: 10, y: 10 }),
    ));
}

const START: u64 = 50_000;

#[test]
fn minimized_foreground_fallback_guard_survives_an_intermediate_window() {
    let collapsed = WindowHandle(1);
    let intermediate = WindowHandle(2);
    let target = WindowHandle(3);
    let mut tracker = ForegroundTracker::default();

    assert!(!tracker.observe(START, Some(collapsed), |_| false));
    assert!(tracker.observe(START + 8, Some(intermediate), |handle| handle == collapsed));
    assert!(tracker.observe(START + 16, Some(target), |_| false));
    assert!(!tracker.observe(START + 260, Some(target), |_| false));
}

#[test]
fn minimized_foreground_fallback_guard_handles_a_transient_empty_foreground() {
    let collapsed = WindowHandle(1);
    let target = WindowHandle(2);
    let mut tracker = ForegroundTracker::default();

    assert!(!tracker.observe(START, Some(collapsed), |_| false));
    assert!(!tracker.observe(START + 8, None, |_| true));
    assert!(tracker.observe(START + 16, Some(target), |handle| handle == collapsed));
}

#[test]
fn foreground_tracker_does_not_guard_without_a_minimized_previous_window() {
    let previous = WindowHandle(1);
    let current = WindowHandle(2);
    let mut tracker = ForegroundTracker::default();

    assert!(!tracker.observe(START, Some(previous), |_| false));
    assert!(!tracker.observe(START + 8, Some(current), |_| false));
    tracker.reset();
    assert!(!tracker.observe(START + 16, Some(current), |_| true));
}

#[test]
fn foreground_tracker_keeps_the_latest_non_empty_foreground_baseline() {
    let previous = WindowHandle(1);
    let current = WindowHandle(2);
    let mut tracker = ForegroundTracker::default();

    assert!(!tracker.observe(START, Some(previous), |_| false));
    assert!(!tracker.observe(START + 8, None, |_| true));
    assert!(!tracker.observe(START + 16, Some(previous), |_| false));
    assert!(!tracker.observe(START + 24, Some(current), |_| false));
}

#[test]
fn minimized_guard_ends_exactly_after_250_milliseconds() {
    let collapsed = WindowHandle(1);
    let target = WindowHandle(2);
    let mut tracker = ForegroundTracker::default();
    assert!(!tracker.observe(START, Some(collapsed), |_| false));
    assert!(tracker.observe(START + 10, Some(target), |handle| handle == collapsed));
    assert!(tracker.observe(START + 259, Some(target), |_| false));
    assert!(!tracker.observe(START + 260, Some(target), |_| false));
}

#[test]
fn monitor_refresh_is_rate_limited_but_topology_stays_fresh() {
    let mut refresh = RefreshSchedule::new(1000);

    assert!(refresh.should_refresh(START));
    assert!(!refresh.should_refresh(START + 999));
    assert!(refresh.should_refresh(START + 1000));
    assert!(!refresh.should_refresh(START + 1500));
    assert!(refresh.should_refresh(START + 2000));
}

#[test]
fn monitor_refresh_waits_when_the_clock_reads_earlier() {
    let mut refresh = RefreshSchedule::new(1000);
    assert!(refresh.should_refresh(START));
    assert!(!refresh.should_refresh(START - 5000));
}

fn hotzone(id: HotzoneId, enabled: bool, kind: ActionKind) -> HotzoneSetting {
    HotzoneSetting {
        id,
        enabled,
        actions: vec![TriggerAction {
            trigger: TriggerKind::Hover,
            action: HotzoneAction { kind, value: None },
            modifier_actions: Vec::new(),
            cooldown_ms: None,
            hover_delay_ms: None,
        }],
        trigger: None,
        action: None,
    }
}

#[test]
fn hint_only_appears_when_hotzones_are_enabled_and_have_an_action() {
    let mut config = AppConfig::default();
    config.hotzones_enabled = false;
    config.hotzones = vec![hotzone(HotzoneId::TopRight, true, ActionKind::ShowDesktop)];

    assert_eq!(
        hotzone_hint_for(&config, Point { x: 99, y: 1 }, &[monitor()], false),
        None
    );

    config.hotzones_enabled = true;
    config.hotzones = vec![hotzone(HotzoneId::TopRight, false, ActionKind::NoAction)];
    assert_eq!(
        hotzone_hint_for(&config, Point { x: 99, y: 1 }, &[monitor()], false),
        None
    );

    config.hotzones = vec![hotzone(HotzoneId::TopRight, false, ActionKind::ShowDesktop)];
    assert_eq!(
        hotzone_hint_for(&config, Point { x: 99, y: 1 }, &[monitor()], false),
        Some(HotzoneId::TopRight)
    );
}

#[test]
fn hint_only_appears_inside_the_action_hotzone() {
    let mut config = AppConfig::default();
    config.edge_size = 8;
    config.hotzones = vec![hotzone(HotzoneId::TopRight, true, ActionKind::ShowDesktop)];
    let outside = Point { x: 70, y: 20 };
    let inside = Point { x: 95, y: 5 };

    assert_eq!(detect_hotzone(outside, &[monitor()], config.edge_size), None);
    assert_eq!(hotzone_hint_for(&config, outside, &[monitor()], false), None);
    assert_eq!(
        hotzone_hint_for(&config, inside, &[monitor()], false),
        Some(HotzoneId::TopRight)
    );
}

#[test]
fn monitor_profile_overrides_global_hotzones_for_that_display() {
    let display = monitor();
    let mut config = AppConfig::default();
    config.hotzones = vec![hotzone(HotzoneId::TopRight, true, ActionKind::NoAction)];
    config.monitor_profiles = vec![MonitorProfile {
        monitor_id: monitor_id(&display),
        hotzones: vec![hotzone(HotzoneId::TopRight, true, ActionKind::ShowDesktop)],
    }];

    assert_eq!(
        hotzone_hint_for(&config, Point { x: 99, y: 1 }, &[display], false),
        Some(HotzoneId::TopRight)
    );
}

#[test]
fn paused_helper_shows_no_hint() {
    let mut config = AppConfig::default();
    config.hotzones = vec![hotzone(HotzoneId::TopRight, true, ActionKind::ShowDesktop)];
    assert_eq!(hotzone_hint_for(&config, Point { x: 99, y: 1 }, &[monitor()], true), None);
}

#[test]
fn monitor_ids_name_the_display_bounds() {
    let display = Monitor {
        bounds: Rect {
            left: -1920,
            top: 0,
            right: 0,
            bottom: 1080,
        },
        work_area: Rect {
            left: -1920,
            top: 0,
            right: 0,
            bottom: 1040,
        },
        primary: false,
    };
    assert_eq!(monitor_id(&display), "display:-1920:0:0:1080");
    assert_eq!(monitor_id(&monitor()), "display:0:0:100:100");
}

#[test]
fn slide_motion_follows_the_axis_of_each_edge() {
    assert_eq!(
        slide_motion(HotzoneId::Top, Point { x: 15, y: 1 }, Point { x: 10, y: 1 }),
        5
    );
    assert_eq!(
        slide_motion(HotzoneId::Right, Point { x: 99, y: 7 }, Point { x: 99, y: 12 }),
        -5
    );
    assert_eq!(
        slide_motion(HotzoneId::TopRight, Point { x: 99, y: 1 }, Point { x: 94, y: 1 }),
        0
    );
}

#[test]
fn volume_is_only_continuous_for_wheel_and_slide_triggers() {
    let volume = HotzoneAction {
        kind: ActionKind::VolumeAdjust,
        value: Some("0.02".to_string()),
    };

    assert!(is_continuous_volume_trigger(&volume, TriggerKind::WheelUp));
    assert!(is_continuous_volume_trigger(&volume, TriggerKind::SlideBackward));
    assert!(!is_continuous_volume_trigger(&volume, TriggerKind::Hover));
    assert!(!is_continuous_volume_trigger(&volume, TriggerKind::LeftClick));
}

#[test]
fn modifier_masks_combine_key_bits() {
    assert_eq!(modifier_config_mask(&[]), 0);
    assert_eq!(modifier_config_mask(&[ModifierKey::Ctrl, ModifierKey::Shift]), 5);
    assert_eq!(modifier_config_mask(&[ModifierKey::Win, ModifierKey::Alt, ModifierKey::Alt]), 10);
}

fn window(rect: Rect, class_name: &str, process_name: &str, title: &str) -> WindowInfo {
    WindowInfo {
        handle: WindowHandle(1),
        rect,
        title: title.into(),
        class_name: class_name.into(),
        process_name: process_name.into(),
        maximized: false,
        transient: false,
        arranged: false,
        topmost: false,
    }
}

#[test]
fn fullscreen_pause_uses_monitor_bounds_not_work_area() {
    let mut monitor = monitor();
    monitor.work_area.bottom = monitor.bounds.bottom - 10;
    let mut window = WindowInfo {
        handle: WindowHandle(1),
        rect: monitor.bounds,
        title: String::new(),
        class_name: String::new(),
        process_name: "game.exe".into(),
        maximized: false,
        transient: false,
        arranged: false,
        topmost: false,
    };
    assert!(is_fullscreen_window(&window, &[monitor]));
    window.rect = monitor.work_area;
    assert!(!is_fullscreen_window(&window, &[monitor]));
}

#[test]
fn fullscreen_pause_excludes_maximized_and_desktop_shell_windows() {
    let monitor = monitor();
    let mut window = WindowInfo {
        handle: WindowHandle(1),
        rect: monitor.bounds,
        title: String::new(),
        class_name: "Chrome_WidgetWin_1".into(),
        process_name: "browser.exe".into(),
        maximized: true,
        transient: false,
        arranged: false,
        topmost: false,
    };
    assert!(!is_fullscreen_window(&window, &[monitor]));

    window.maximized = false;
    window.class_name = "WorkerW".into();
    window.process_name = "explorer.exe".into();
    assert!(!is_fullscreen_window(&window, &[monitor]));
}

#[test]
fn paused_apps_match_trimmed_lowercase_fragments() {
    let rect = monitor().bounds;
    let game = window(rect, "UnityWndClass", "Game.EXE", "Big Game");
    assert!(is_paused_app(&["  game.exe ".to_string()], &game));
    assert!(is_paused_app(&["big".to_string()], &game));
    assert!(is_paused_app(&["unitywnd".to_string()], &game));
    assert!(!is_paused_app(&["   ".to_string(), "editor".to_string()], &game));
    assert!(!is_paused_app(&[], &game));
}

fn scale(value: Option<MotionScale>) -> Option<f32> {
    value.map(|s| s.distance as f32 / s.per_step as f32)
}

#[test]
fn continuous_volume_uses_raw_wheel_and_slide_distance() {
    let volume = HotzoneAction { kind: ActionKind::VolumeAdjust, value: Some("0.02".to_string()) };
    assert_eq!(scale(continuous_action_scale(&volume, TriggerKind::WheelUp, 240, 0)), Some(2.0));
    assert_eq!(scale(continuous_action_scale(&volume, TriggerKind::WheelUp, 30, 0)), Some(0.25));
    assert_eq!(scale(continuous_action_scale(&volume, TriggerKind::SlideForward, 0, 8)), Some(0.5));
    assert_eq!(scale(continuous_action_scale(&volume, TriggerKind::SlideBackward, 0, -4)), Some(0.25));
}

#[test]
fn continuous_scale_needs_volume_and_motion_in_the_trigger_direction() {
    let volume = HotzoneAction { kind: ActionKind::VolumeAdjust, value: Some("0.02".to_string()) };
    assert_eq!(
        continuous_action_scale(&volume, TriggerKind::WheelDown, -360, 0),
        Some(MotionScale { distance: 360, per_step: 120 })
    );
    assert_eq!(continuous_action_scale(&volume, TriggerKind::WheelDown, 120, 0), None);
    assert_eq!(continuous_action_scale(&volume, TriggerKind::WheelUp, 0, 0), None);
    assert_eq!(continuous_action_scale(&volume, TriggerKind::SlideForward, 0, -8), None);
    assert_eq!(continuous_action_scale(&volume, TriggerKind::Hover, 120, 16), None);
    assert_eq!(
        continuous_action_scale(&volume, TriggerKind::SlideBackward, 0, i32::MIN),
        Some(MotionScale { distance: 2_147_483_648, per_step: 16 })
    );
    let other = HotzoneAction { kind: ActionKind::ShowDesktop, value: None };
    assert_eq!(continuous_action_scale(&other, TriggerKind::WheelUp, 120, 0), None);
}

#[test]
fn injected_engine_failure_delay_is_bounded_and_opt_in() {
    assert_eq!(injected_failure_delay_ms(None), None);
    assert_eq!(injected_failure_delay_ms(Some("200")), Some(200));
    assert_eq!(injected_failure_delay_ms(Some("1")), Some(50));
    assert_eq!(injected_failure_delay_ms(Some("999999")), Some(60_000));
    assert_eq!(injected_failure_delay_ms(Some("soon")), None);
    assert_eq!(injected_failure_delay_ms(Some("")), None);
}

#[test]
fn clicks_and_wheel_turns_use_the_keys_held_when_they_happened() {
    assert_eq!(trigger_modifier_mask(TriggerKind::LeftClick, 1, Some(4), Some(8), Some(2)), 4);
    assert_eq!(trigger_modifier_mask(TriggerKind::LeftClick, 1, None, Some(8), Some(2)), 1);
    assert_eq!(trigger_modifier_mask(TriggerKind::RightClick, 1, Some(4), Some(8), Some(2)), 8);
    assert_eq!(trigger_modifier_mask(TriggerKind::WheelDown, 1, Some(4), Some(8), Some(2)), 2);
    assert_eq!(trigger_modifier_mask(TriggerKind::WheelUp, 1, Some(4), Some(8), None), 1);
    assert_eq!(trigger_modifier_mask(TriggerKind::Hover, 1, Some(4), Some(8), Some(2)), 1);
}
