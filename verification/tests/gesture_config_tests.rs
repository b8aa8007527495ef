use convenient_window::config::{
    ActionKind, AppConfig, BuiltinGesture, GestureMode, GestureTemplate, GestureTriggerButton,
    HotzoneAction, ModifierAction, ModifierKey, SampleRef,
};
use convenient_window::gesture_config::{
    builtin_template, default_gestures, migrate_circle_topmost_action, normalize_gestures,
    MAX_GESTURE_TEMPLATES,
};

fn custom(id: &str, name: &str, samples: Vec<SampleRef>) -> GestureTemplate {
    GestureTemplate {
        id: id.to_string(),
        name: name.to_string(),
        enabled: true,
        builtin: false,
        mode: GestureMode::Action,
        action: HotzoneAction { kind: ActionKind::NoAction, value: None },
        modifier_actions: Vec::new(),
        samples,
    }
}

fn find<'a>(gestures: &'a [GestureTemplate], id: &str) -> &'a GestureTemplate {
    gestures.iter().find(|gesture| gesture.id == id).unwrap()
}

#[test]
fn gesture_capacity_preserves_builtins_and_restores_protected_fields() {
    let mut gestures: Vec<_> = (0..MAX_GESTURE_TEMPLATES)
        .map(|index| {
            custom(&format!("custom-{index}"), &format!("Custom {index}"), vec![SampleRef::Stored(
                index as u64,
            )])
        })
        .collect();
    let mut rectangle = builtin_template(BuiltinGesture::Rectangle);
    rectangle.builtin = false;
    rectangle.mode = GestureMode::Action;
    gestures[0] = rectangle;

    let normalized = normalize_gestures(gestures);
    let protected_rectangle = find(&normalized, "gesture-rectangle");

    assert_eq!(normalized.len(), MAX_GESTURE_TEMPLATES);
    assert_eq!(normalized.iter().filter(|gesture| gesture.builtin).count(), 5);
    assert_eq!(
        normalized.iter().filter(|gesture| !gesture.builtin).count(),
        MAX_GESTURE_TEMPLATES - 5
    );
    assert!(protected_rectangle.builtin);
    assert_eq!(protected_rectangle.mode, GestureMode::RegionScreenshot);
}

#[test]
fn legacy_circle_default_migrates_without_replacing_a_custom_action() {
    let mut legacy = AppConfig::default();
    legacy.schema_version = 4;
    let circle = legacy.mouse_gestures.gestures.iter_mut().find(|g| g.id == "gesture-circle").unwrap();
    circle.action = HotzoneAction { kind: ActionKind::ShowDesktop, value: None };
    let migrated = legacy.normalized();
    assert_eq!(
        find(&migrated.mouse_gestures.gestures, "gesture-circle").action.kind,
        ActionKind::ToggleWindowTopmost
    );

    let mut customized = AppConfig::default();
    customized.schema_version = 4;
    let circle =
        customized.mouse_gestures.gestures.iter_mut().find(|g| g.id == "gesture-circle").unwrap();
    circle.action = HotzoneAction { kind: ActionKind::Shortcut, value: Some("Win+D".to_string()) };
    let normalized = customized.normalized();
    let action = &find(&normalized.mouse_gestures.gestures, "gesture-circle").action;
    assert_eq!(action.kind, ActionKind::Shortcut);
    assert_eq!(action.value.as_deref(), Some("Win+D"));
}

#[test]
fn gesture_config_clamps_controls_and_keeps_builtin_templates() {
    let mut config = AppConfig::default();
    config.mouse_gestures.enabled = true;
    config.mouse_gestures.trigger_button = GestureTriggerButton::X2;
    config.mouse_gestures.min_distance = 999;
    config.mouse_gestures.sensitivity = 4;
    config.mouse_gestures.paused_apps = vec![" game.exe ".to_string(), "game.exe".to_string()];
    let mut z = custom("custom-z", " Z ", vec![SampleRef::Stored(0)]);
    z.action = HotzoneAction { kind: ActionKind::Shortcut, value: Some(" Ctrl+Z ".to_string()) };
    config.mouse_gestures.gestures = vec![z];
    let config = config.normalized();

    assert!(config.mouse_gestures.enabled);
    assert_eq!(config.mouse_gestures.trigger_button, GestureTriggerButton::X2);
    assert_eq!(config.mouse_gestures.min_distance, 240);
    assert_eq!(config.mouse_gestures.sensitivity, 35);
    assert_eq!(config.mouse_gestures.paused_apps, vec!["game.exe"]);
    let z = find(&config.mouse_gestures.gestures, "custom-z");
    assert_eq!(z.name, "Z");
    assert_eq!(z.action.value.as_deref(), Some("Ctrl+Z"));
    assert_eq!(z.samples, vec![SampleRef::Stored(0)]);
    assert!(config.mouse_gestures.gestures.iter().any(|g| g.id == "gesture-rectangle"));
}

#[test]
fn builtin_templates_come_first_in_their_order() {
    let defaults = default_gestures();
    let ids: Vec<&str> = defaults.iter().map(|g| g.id.as_str()).collect();
    assert_eq!(
        ids,
        vec!["gesture-up", "gesture-down", "gesture-l", "gesture-circle", "gesture-rectangle"]
    );
    assert_eq!(defaults[4].mode, GestureMode::RegionScreenshot);
    assert_eq!(defaults[0].samples, vec![SampleRef::Builtin(BuiltinGesture::Up)]);
    let normalized = normalize_gestures(vec![
        custom("mine", "Mine", vec![SampleRef::Stored(3)]),
        {
            let mut up = custom("gesture-up", "My up", vec![SampleRef::Stored(4)]);
            up.mode = GestureMode::RegionScreenshot;
            up
        },
    ]);
    assert_eq!(normalized.len(), 6);
    assert_eq!(normalized[0].id, "gesture-up");
    assert_eq!(normalized[0].name, "My up");
    assert!(normalized[0].builtin);
    assert_eq!(normalized[0].mode, GestureMode::Action);
    assert_eq!(normalized[0].samples, vec![SampleRef::Stored(4)]);
    assert_eq!(normalized[1].name, "向下 · 粘贴");
    assert_eq!(normalized[5].id, "mine");
}

#[test]
fn templates_without_id_name_or_samples_and_repeated_ids_are_dropped() {
    let normalized = normalize_gestures(vec![
        custom("  ", "Blank id", vec![SampleRef::Stored(0)]),
        custom("a", " ", vec![SampleRef::Stored(1)]),
        custom("b", "No samples", vec![]),
        custom(" c ", "First", vec![SampleRef::Stored(2)]),
        custom("c", "Second", vec![SampleRef::Stored(3)]),
        custom("b", "Later b", vec![SampleRef::Stored(4)]),
    ]);
    let customs: Vec<(&str, &str)> =
        normalized[5..].iter().map(|g| (g.id.as_str(), g.name.as_str())).collect();
    assert_eq!(customs, vec![("c", "First"), ("b", "Later b")]);
}

#[test]
fn ids_names_and_samples_are_cut_to_their_limits() {
    let long_id = "x".repeat(100);
    let long_name = "名".repeat(50);
    let samples: Vec<SampleRef> = (0..12).map(SampleRef::Stored).collect();
    let normalized = normalize_gestures(vec![custom(&long_id, &long_name, samples)]);
    let g = &normalized[5];
    assert_eq!(g.id, "x".repeat(80));
    assert_eq!(g.name.chars().count(), 40);
    assert_eq!(g.samples, (0..8).map(SampleRef::Stored).collect::<Vec<_>>());
}

#[test]
fn normalizing_again_changes_nothing_unless_a_cut_leaves_white_space() {
    let mut config = AppConfig::default();
    config.mouse_gestures.gestures.push(custom(" keep ", " Kept name ", vec![SampleRef::Stored(1)]));
    let once = config.normalized();
    let twice = once.clone().normalized();
    let names = |c: &AppConfig| -> Vec<(String, String)> {
        c.mouse_gestures.gestures.iter().map(|g| (g.id.clone(), g.name.clone())).collect()
    };
    assert_eq!(names(&once), names(&twice));

    let mut cut = AppConfig::default();
    let name = format!("{} tail", "n".repeat(39));
    cut.mouse_gestures.gestures.push(custom("cut", &name, vec![SampleRef::Stored(1)]));
    let once = cut.normalized();
    assert_eq!(find(&once.mouse_gestures.gestures, "cut").name, format!("{} ", "n".repeat(39)));
    let twice = once.normalized();
    assert_eq!(find(&twice.mouse_gestures.gestures, "cut").name, "n".repeat(39));
}

#[test]
fn circle_migration_touches_only_a_desktop_action() {
    let mut gestures = default_gestures();
    gestures[3].action = HotzoneAction { kind: ActionKind::ShowDesktop, value: None };
    migrate_circle_topmost_action(&mut gestures);
    assert_eq!(gestures[3].action.kind, ActionKind::ToggleWindowTopmost);
    assert_eq!(gestures[0].action.value.as_deref(), Some("Ctrl+C"));
    let mut none = vec![custom("other", "Other", vec![SampleRef::Stored(0)])];
    none[0].action = HotzoneAction { kind: ActionKind::ShowDesktop, value: None };
    migrate_circle_topmost_action(&mut none);
    assert_eq!(none[0].action.kind, ActionKind::ShowDesktop);
}

#[test]
fn gesture_modifier_variants_pick_the_action() {
    let mut g = custom("v", "Variants", vec![SampleRef::Stored(0)]);
    g.action = HotzoneAction { kind: ActionKind::ShowDesktop, value: None };
    g.modifier_actions = vec![ModifierAction {
        modifiers: vec![ModifierKey::Ctrl],
        action: HotzoneAction { kind: ActionKind::LockScreen, value: None },
    }];
    let ctrl = ModifierKey::Ctrl.mask();
    assert_eq!(g.action_for_modifier_mask(ctrl).kind, ActionKind::LockScreen);
    assert_eq!(g.action_for_modifier_mask(0).kind, ActionKind::ShowDesktop);
}

#[test]
fn normalizing_padded_gesture_texts_twice_changes_nothing_more() {
    let mut config = AppConfig::default();
    config.mouse_gestures.gestures.push(custom("  swipe-z  ", "\tZ swipe ", vec![SampleRef::Stored(7)]));
    let once = config.normalized();
    let added = find(&once.mouse_gestures.gestures, "swipe-z");
    assert_eq!(added.name, "Z swipe");
    let twice = once.clone().normalized();
    assert_eq!(format!("{:?}", once), format!("{:?}", twice));
}
