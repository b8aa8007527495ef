use convenient_window::config::{HotzoneId, TriggerKind};
use convenient_window::trigger::HotzoneTriggerController;

const START: u64 = 20_000;

#[test]
fn hover_triggers_once_per_entry() {
    let mut controller = HotzoneTriggerController::new(START);
    let hover_delay = 100;
    let cooldown = 100;

    controller.observe(START, Some(HotzoneId::TopLeft));
    assert!(!controller.should_trigger(START + 99, HotzoneId::TopLeft, TriggerKind::Hover, false, hover_delay, cooldown));
    assert!(controller.should_trigger(START + 100, HotzoneId::TopLeft, TriggerKind::Hover, false, hover_delay, cooldown));
    assert!(!controller.should_trigger(START + 500, HotzoneId::TopLeft, TriggerKind::Hover, false, hover_delay, cooldown));
}

#[test]
fn hover_rearms_after_leaving_and_reentering() {
    let mut controller = HotzoneTriggerController::new(START);
    let hover_delay = 50;
    let cooldown = 10;

    controller.observe(START, Some(HotzoneId::TopLeft));
    assert!(controller.should_trigger(START + 50, HotzoneId::TopLeft, TriggerKind::Hover, false, hover_delay, cooldown));

    controller.observe(START + 60, None);
    controller.observe(START + 70, Some(HotzoneId::TopLeft));

    assert!(!controller.should_trigger(START + 100, HotzoneId::TopLeft, TriggerKind::Hover, false, hover_delay, cooldown));
    assert!(controller.should_trigger(START + 120, HotzoneId::TopLeft, TriggerKind::Hover, false, hover_delay, cooldown));
}

#[test]
fn click_trigger_can_repeat_after_cooldown() {
    let mut controller = HotzoneTriggerController::new(START);
    let hover_delay = 0;
    let cooldown = 100;

    controller.observe(START, Some(HotzoneId::Right));
    assert!(controller.should_trigger(START + 1, HotzoneId::Right, TriggerKind::LeftClick, true, hover_delay, cooldown));
    assert!(!controller.should_trigger(START + 50, HotzoneId::Right, TriggerKind::LeftClick, true, hover_delay, cooldown));
    assert!(controller.should_trigger(START + 150, HotzoneId::Right, TriggerKind::LeftClick, true, hover_delay, cooldown));
}

#[test]
fn switching_hotzones_resets_hover_timing() {
    let mut controller = HotzoneTriggerController::new(START);
    let hover_delay = 100;
    let cooldown = 0;

    controller.observe(START, Some(HotzoneId::TopLeft));
    controller.observe(START + 80, Some(HotzoneId::TopRight));

    assert!(!controller.should_trigger(START + 100, HotzoneId::TopRight, TriggerKind::Hover, false, hover_delay, cooldown));
    assert!(controller.should_trigger(START + 180, HotzoneId::TopRight, TriggerKind::Hover, false, hover_delay, cooldown));
}

#[test]
fn suspension_discards_the_current_hotzone_entry() {
    let mut controller = HotzoneTriggerController::new(START);

    controller.observe(START, Some(HotzoneId::TopLeft));
    controller.suspend(START + 500);

    assert!(!controller.should_trigger(START + 500, HotzoneId::TopLeft, TriggerKind::Hover, false, 100, 100));
    assert_eq!(controller.current_hotzone(), None);
}

#[test]
fn wheel_directions_and_slides_are_independent_triggers() {
    let mut controller = HotzoneTriggerController::new(START);
    controller.observe(START, Some(HotzoneId::Right));

    assert!(controller.should_trigger(START + 1, HotzoneId::Right, TriggerKind::WheelUp, true, 0, 0));
    assert!(!controller.should_trigger(START + 2, HotzoneId::Right, TriggerKind::WheelDown, false, 0, 0));
    controller.record_slide_motion(8);
    controller.record_slide_motion(8);
    assert!(controller.should_trigger(START + 3, HotzoneId::Right, TriggerKind::SlideForward, false, 0, 0));
    controller.record_slide_motion(-16);
    assert!(controller.should_trigger(START + 4, HotzoneId::Right, TriggerKind::SlideBackward, false, 0, 0));
}

#[test]
fn slides_are_capped_and_only_fire_in_the_current_zone() {
    let mut controller = HotzoneTriggerController::new(START);
    controller.observe(START, Some(HotzoneId::Top));
    controller.record_slide_motion(1000);
    controller.record_slide_motion(-190);
    assert!(!controller.should_trigger(START + 1, HotzoneId::Top, TriggerKind::SlideForward, false, 0, 0));
    controller.record_slide_motion(6);
    assert!(!controller.should_trigger(START + 1, HotzoneId::Left, TriggerKind::SlideForward, false, 0, 0));
    assert!(controller.should_trigger(START + 1, HotzoneId::Top, TriggerKind::SlideForward, false, 0, 0));
    controller.record_slide_motion(12);
    controller.clear_slide_motion();
    assert!(!controller.should_trigger(START + 2, HotzoneId::Top, TriggerKind::SlideForward, false, 0, 0));
}

#[test]
fn cooldowns_are_kept_per_zone_and_trigger() {
    let mut controller = HotzoneTriggerController::new(START);
    controller.observe(START, Some(HotzoneId::Right));
    assert!(controller.should_trigger(START, HotzoneId::Right, TriggerKind::LeftClick, true, 0, 100));
    assert!(controller.should_trigger(START + 10, HotzoneId::Right, TriggerKind::RightClick, true, 0, 100));
    assert!(!controller.cooldown_elapsed(START + 99, HotzoneId::Right, TriggerKind::LeftClick, 100));
    assert!(controller.cooldown_elapsed(START + 100, HotzoneId::Right, TriggerKind::LeftClick, 100));
    controller.record_fired(START + 100, HotzoneId::Right, TriggerKind::LeftClick);
    assert!(!controller.cooldown_elapsed(START + 150, HotzoneId::Right, TriggerKind::LeftClick, 100));
    assert!(controller.cooldown_elapsed(START + 150, HotzoneId::Left, TriggerKind::LeftClick, 100));
}

#[test]
fn continuous_motion_is_preserved_during_cooldown() {
    let mut controller = HotzoneTriggerController::new(START);
    controller.observe(START, Some(HotzoneId::Right));
    let cooldown = 100;
    assert!(controller.accumulate_continuous_motion(START, HotzoneId::Right, TriggerKind::WheelUp, true, cooldown));
    assert!(!controller.accumulate_continuous_motion(START + 40, HotzoneId::Right, TriggerKind::WheelUp, true, cooldown));
    assert!(controller.accumulate_continuous_motion(START + 100, HotzoneId::Right, TriggerKind::WheelUp, false, cooldown));
    assert!(!controller.accumulate_continuous_motion(START + 300, HotzoneId::Right, TriggerKind::WheelUp, false, cooldown));
    controller.observe(START + 310, Some(HotzoneId::Left));
    assert!(!controller.accumulate_continuous_motion(START + 320, HotzoneId::Right, TriggerKind::WheelUp, true, cooldown));
}
