use convenient_window::config::{
    ActionKind, AppConfig, HotzoneAction, HotzoneId, HotzoneSetting, ModifierAction, ModifierKey,
    TriggerAction, TriggerKind,
};
use convenient_window::engine_rules::{
    engine_tick_plan, hotzone_tick, ContinuousStep, HotzoneInput, MotionScale, PreviewSource,
};
use convenient_window::geometry::{Monitor, Point, Rect, WindowHandle, WindowInfo};
use convenient_window::trigger::HotzoneTriggerController;

const START: u64 = 50_000;

fn display() -> Monitor {
    let r = Rect { left: 0, top: 0, right: 100, bottom: 100 };
    Monitor { bounds: r, work_area: r, primary: true }
}

fn slot(trigger: TriggerKind, kind: ActionKind, value: Option<&str>) -> TriggerAction {
    TriggerAction {
        trigger,
        action: HotzoneAction { kind, value: value.map(str::to_string) },
        modifier_actions: Vec::new(),
        cooldown_ms: None,
        hover_delay_ms: None,
    }
}

fn config_with(id: HotzoneId, actions: Vec<TriggerAction>) -> AppConfig {
    let mut config = AppConfig::default();
    config.hotzones = vec![HotzoneSetting { id, enabled: true, actions, trigger: None, action: None }];
    config
}

fn quiet() -> HotzoneInput {
    HotzoneInput {
        held: 0,
        left_click_mask: None,
        right_click_mask: None,
        wheel_mask: None,
        left_clicked: false,
        right_clicked: false,
        wheel_up: false,
        wheel_down: false,
        wheel_motion: 0,
    }
}

const CORNER: Point = Point { x: 99, y: 1 };

#[test]
fn hover_fires_once_after_the_hover_delay() {
    let config = config_with(HotzoneId::TopRight, vec![slot(TriggerKind::Hover, ActionKind::ShowDesktop, None)]);
    let monitors = [display()];
    let mut t = HotzoneTriggerController::new(START);
    assert!(hotzone_tick(&mut t, START, &config, CORNER, None, &monitors, &quiet(), false).is_empty());
    assert!(hotzone_tick(&mut t, START + 349, &config, CORNER, Some(CORNER), &monitors, &quiet(), false).is_empty());
    let fired = hotzone_tick(&mut t, START + 350, &config, CORNER, Some(CORNER), &monitors, &quiet(), false);
    assert_eq!(fired.len(), 1);
    assert_eq!(fired[0].hotzone, HotzoneId::TopRight);
    assert_eq!(fired[0].trigger, TriggerKind::Hover);
    assert_eq!(fired[0].action.kind, ActionKind::ShowDesktop);
    assert_eq!(fired[0].continuous, None);
    assert!(hotzone_tick(&mut t, START + 2000, &config, CORNER, Some(CORNER), &monitors, &quiet(), false).is_empty());
}

#[test]
fn paused_or_switched_off_hotzones_forget_the_entry() {
    let mut config =
        config_with(HotzoneId::TopRight, vec![slot(TriggerKind::Hover, ActionKind::ShowDesktop, None)]);
    let monitors = [display()];
    let mut t = HotzoneTriggerController::new(START);
    hotzone_tick(&mut t, START, &config, CORNER, None, &monitors, &quiet(), false);
    assert_eq!(t.current_hotzone(), Some(HotzoneId::TopRight));
    assert!(hotzone_tick(&mut t, START + 400, &config, CORNER, Some(CORNER), &monitors, &quiet(), true).is_empty());
    assert_eq!(t.current_hotzone(), None);
    config.hotzones_enabled = false;
    assert!(hotzone_tick(&mut t, START + 900, &config, CORNER, Some(CORNER), &monitors, &quiet(), false).is_empty());
    assert_eq!(t.current_hotzone(), None);
}

#[test]
fn a_zone_without_an_action_suspends_the_entry() {
    let config = config_with(HotzoneId::TopRight, vec![slot(TriggerKind::Hover, ActionKind::NoAction, None)]);
    let monitors = [display()];
    let mut t = HotzoneTriggerController::new(START);
    assert!(hotzone_tick(&mut t, START, &config, CORNER, None, &monitors, &quiet(), false).is_empty());
    assert_eq!(t.current_hotzone(), None);
}

#[test]
fn clicks_fire_with_the_modifier_variant_held_at_the_click() {
    let mut click = slot(TriggerKind::LeftClick, ActionKind::ShowDesktop, None);
    click.modifier_actions = vec![ModifierAction {
        modifiers: vec![ModifierKey::Ctrl],
        action: HotzoneAction { kind: ActionKind::LockScreen, value: None },
    }];
    let config = config_with(HotzoneId::TopRight, vec![click]);
    let monitors = [display()];
    let mut t = HotzoneTriggerController::new(START);
    let ctrl = ModifierKey::Ctrl.mask();
    let mut input = quiet();
    input.left_clicked = true;
    input.left_click_mask = Some(ctrl);
    let fired = hotzone_tick(&mut t, START, &config, CORNER, None, &monitors, &input, false);
    assert_eq!(fired.len(), 1);
    assert_eq!(fired[0].action.kind, ActionKind::LockScreen);
    assert_eq!(fired[0].modifiers, ctrl);
    assert!(hotzone_tick(&mut t, START + 10, &config, CORNER, Some(CORNER), &monitors, &quiet(), false).is_empty());
}

#[test]
fn wheel_volume_holds_motion_until_its_cooldown_passes() {
    let config = config_with(
        HotzoneId::TopRight,
        vec![slot(TriggerKind::WheelUp, ActionKind::VolumeAdjust, Some("0.02"))],
    );
    let monitors = [display()];
    let mut t = HotzoneTriggerController::new(START);
    let mut input = quiet();
    input.wheel_up = true;
    input.wheel_motion = 240;
    let first = hotzone_tick(&mut t, START, &config, CORNER, None, &monitors, &input, false);
    assert_eq!(
        first[0].continuous,
        Some(ContinuousStep { scale: Some(MotionScale { distance: 240, per_step: 120 }), fire: true })
    );
    input.wheel_motion = 120;
    let held = hotzone_tick(&mut t, START + 10, &config, CORNER, Some(CORNER), &monitors, &input, false);
    assert_eq!(
        held[0].continuous,
        Some(ContinuousStep { scale: Some(MotionScale { distance: 120, per_step: 120 }), fire: false })
    );
    let later = hotzone_tick(&mut t, START + 700, &config, CORNER, Some(CORNER), &monitors, &quiet(), false);
    assert_eq!(later[0].continuous, Some(ContinuousStep { scale: None, fire: true }));
    let idle = hotzone_tick(&mut t, START + 1500, &config, CORNER, Some(CORNER), &monitors, &quiet(), false);
    assert_eq!(idle[0].continuous, Some(ContinuousStep { scale: None, fire: false }));
}

#[test]
fn sliding_along_the_top_edge_fires_the_slide_trigger() {
    let config = config_with(HotzoneId::Top, vec![slot(TriggerKind::SlideForward, ActionKind::ShowDesktop, None)]);
    let monitors = [display()];
    let mut t = HotzoneTriggerController::new(START);
    let a = Point { x: 40, y: 1 };
    let b = Point { x: 50, y: 1 };
    let c = Point { x: 60, y: 1 };
    assert!(hotzone_tick(&mut t, START, &config, a, None, &monitors, &quiet(), false).is_empty());
    assert!(hotzone_tick(&mut t, START + 10, &config, b, Some(a), &monitors, &quiet(), false).is_empty());
    let fired = hotzone_tick(&mut t, START + 20, &config, c, Some(b), &monitors, &quiet(), false);
    assert_eq!(fired.len(), 1);
    assert_eq!(fired[0].trigger, TriggerKind::SlideForward);
}

fn window(process_name: &str, rect: Rect) -> WindowInfo {
    WindowInfo {
        handle: WindowHandle(7),
        rect,
        title: "Title".to_string(),
        class_name: "AppWindow".to_string(),
        process_name: process_name.to_string(),
        maximized: false,
        transient: false,
        arranged: false,
        topmost: false,
    }
}

#[test]
fn a_disabled_helper_cleans_up_and_restores_hidden_windows() {
    let mut config = AppConfig::default();
    config.enabled = false;
    let plan = engine_tick_plan(&config, true, None, &[display()], false, false, false);
    assert!(plan.suspend_hotzones && plan.cancel_drag && plan.reset_foreground && plan.restore_edge_hide);
    assert!(!plan.capture_gestures && !plan.run_edge_hide);
    assert_eq!(plan.preview, PreviewSource::Nothing);
}

#[test]
fn failed_reads_clean_up_but_keep_windows_hidden() {
    let config = AppConfig::default();
    let plan = engine_tick_plan(&config, false, None, &[display()], true, true, true);
    assert!(plan.suspend_hotzones && plan.cancel_drag);
    assert!(!plan.reset_foreground && !plan.restore_edge_hide && !plan.run_edge_hide);
    assert_eq!(plan.preview, PreviewSource::Nothing);
}

#[test]
fn gestures_pause_for_paused_apps_full_screen_and_drags() {
    let mut config = AppConfig::default();
    config.mouse_gestures.enabled = true;
    config.mouse_gestures.paused_apps = vec!["game".to_string()];
    config.paused_apps = vec!["editor".to_string()];
    let monitors = [display()];
    let small = Rect { left: 10, top: 10, right: 50, bottom: 50 };
    let plain = window("notes.exe", small);
    let plan = engine_tick_plan(&config, true, Some(&plain), &monitors, false, false, false);
    assert!(plan.capture_gestures && !plan.hotzones_paused && plan.run_edge_hide);
    let game = window("game.exe", small);
    assert!(!engine_tick_plan(&config, true, Some(&game), &monitors, false, false, false).capture_gestures);
    let full = window("notes.exe", display().bounds);
    assert!(!engine_tick_plan(&config, true, Some(&full), &monitors, false, false, false).capture_gestures);
    config.mouse_gestures.fullscreen_pause = false;
    assert!(engine_tick_plan(&config, true, Some(&full), &monitors, false, false, false).capture_gestures);
    let editor = window("editor.exe", small);
    assert!(engine_tick_plan(&config, true, Some(&editor), &monitors, false, false, false).hotzones_paused);
    let dragging = engine_tick_plan(&config, true, Some(&plain), &monitors, true, false, false);
    assert!(!dragging.capture_gestures && dragging.hotzones_paused && !dragging.run_edge_hide);
}

#[test]
fn the_preview_follows_the_drag_target_else_a_native_drag() {
    let config = AppConfig::default();
    let monitors = [display()];
    let w = window("notes.exe", Rect { left: 10, top: 10, right: 50, bottom: 50 });
    assert_eq!(engine_tick_plan(&config, true, Some(&w), &monitors, true, true, true).preview, PreviewSource::DragTarget);
    assert_eq!(engine_tick_plan(&config, true, Some(&w), &monitors, false, false, true).preview, PreviewSource::Foreground);
    assert_eq!(engine_tick_plan(&config, true, None, &monitors, false, false, true).preview, PreviewSource::Nothing);
    assert_eq!(engine_tick_plan(&config, true, Some(&w), &monitors, true, false, true).preview, PreviewSource::Nothing);
}
