use convenient_window::config_compare::settings_adjusted;
use convenient_window::actions::{action_value, required_value, topmost_message, MissingValue};
use convenient_window::config::{
    ActionKind, AppConfig, Edge, EdgeHideMonitorProfile, HotzoneAction, HotzoneId, HotzoneSetting,
    ModifierAction, ModifierKey, MonitorProfile, TriggerAction, TriggerKind,
};
use convenient_window::config_normalize::{
    default_hotzones, normalize_modifier_actions, normalized_edges, normalized_modifiers,
    normalized_optional_string, normalized_string_list,
};

fn action(kind: ActionKind, value: Option<&str>) -> HotzoneAction {
    HotzoneAction { kind, value: value.map(str::to_string) }
}

fn slot(trigger: TriggerKind, kind: ActionKind, value: Option<&str>) -> TriggerAction {
    TriggerAction {
        trigger,
        action: action(kind, value),
        modifier_actions: Vec::new(),
        cooldown_ms: None,
        hover_delay_ms: None,
    }
}

fn zone(id: HotzoneId, enabled: bool, actions: Vec<TriggerAction>) -> HotzoneSetting {
    HotzoneSetting { id, enabled, actions, trigger: None, action: None }
}

#[test]
fn legacy_zone_switches_migrate_to_the_hotzone_global_switch() {
    let mut enabled = AppConfig::default();
    enabled.schema_version = 5;
    enabled.hotzones = vec![zone(
        HotzoneId::Right,
        true,
        vec![slot(TriggerKind::Hover, ActionKind::ShowDesktop, None)],
    )];
    let enabled = enabled.normalized();

    let mut disabled = AppConfig::default();
    disabled.schema_version = 5;
    let disabled = disabled.normalized();

    let mut explicit = AppConfig::default();
    explicit.schema_version = 6;
    explicit.hotzones_enabled = false;
    explicit.hotzones = vec![zone(HotzoneId::Right, true, Vec::new())];
    let explicit = explicit.normalized();

    assert!(enabled.hotzones_enabled);
    assert!(!disabled.hotzones_enabled);
    assert!(!explicit.hotzones_enabled);
}

#[test]
fn config_normalization_clamps_values_and_deduplicates_entries() {
    let mut config = AppConfig::default();
    config.edge_size = -20;
    config.hover_delay_ms = 99_999;
    config.poll_interval_ms = 0;
    config.paused_apps = vec![
        "  explorer.exe  ".to_string(),
        "".to_string(),
        "explorer.exe".to_string(),
    ];
    config.edge_hide.strip_size = 999;
    config.edge_hide.trigger_distance = 0;
    config.edge_hide.trigger_ratio = 999;
    config.edge_hide.edges = vec![Edge::Left, Edge::Left];
    config.hotzones[0].actions = vec![TriggerAction {
        trigger: TriggerKind::Hover,
        action: HotzoneAction {
            kind: ActionKind::Shortcut,
            value: Some("  Win+D  ".to_string()),
        },
        modifier_actions: Vec::new(),
        cooldown_ms: Some(99_999),
        hover_delay_ms: Some(99_999),
    }];

    let config = config.normalized();

    assert_eq!(config.edge_size, 2);
    assert_eq!(config.hover_delay_ms, 3000);
    assert_eq!(config.poll_interval_ms, 10);
    assert_eq!(config.paused_apps, vec!["explorer.exe"]);
    assert_eq!(config.edge_hide.strip_size, 64);
    assert_eq!(config.edge_hide.trigger_distance, 4);
    assert_eq!(config.edge_hide.trigger_ratio, 100);
    assert_eq!(config.edge_hide.edges, vec![Edge::Left]);
    assert_eq!(config.hotzones[0].actions[0].action.value.as_deref(), Some("Win+D"));
    assert_eq!(config.hotzones[0].actions[0].cooldown_ms, Some(5000));
    assert_eq!(config.hotzones[0].actions[0].hover_delay_ms, Some(3000));
}

#[test]
fn modifier_variants_are_sorted_deduplicated_and_selected_exactly() {
    let mut config = AppConfig::default();
    config.hotzones = vec![zone(
        HotzoneId::TopLeft,
        false,
        vec![TriggerAction {
            trigger: TriggerKind::Hover,
            action: action(ActionKind::ShowDesktop, None),
            modifier_actions: vec![
                ModifierAction {
                    modifiers: vec![ModifierKey::Shift, ModifierKey::Ctrl, ModifierKey::Shift],
                    action: action(ActionKind::Shortcut, Some(" Ctrl+C ")),
                },
                ModifierAction {
                    modifiers: vec![ModifierKey::Ctrl, ModifierKey::Shift],
                    action: action(ActionKind::LockScreen, None),
                },
                ModifierAction {
                    modifiers: vec![],
                    action: action(ActionKind::LockScreen, None),
                },
            ],
            cooldown_ms: None,
            hover_delay_ms: None,
        }],
    )];
    let config = config.normalized();
    let slot = &config.hotzones[0].actions[0];

    assert_eq!(slot.modifier_actions.len(), 1);
    assert_eq!(slot.modifier_actions[0].modifiers, vec![ModifierKey::Ctrl, ModifierKey::Shift]);
    assert_eq!(
        slot.action_for_modifier_mask(ModifierKey::Ctrl.mask() | ModifierKey::Shift.mask())
            .value
            .as_deref(),
        Some("Ctrl+C")
    );
    assert_eq!(slot.action_for_modifier_mask(ModifierKey::Alt.mask()).kind, ActionKind::ShowDesktop);
}

#[test]
fn legacy_single_trigger_config_migrates_to_multi_action_slots() {
    let mut config = AppConfig::default();
    config.hotzones = vec![HotzoneSetting {
        id: HotzoneId::Right,
        enabled: true,
        actions: Vec::new(),
        trigger: Some(TriggerKind::WheelUp),
        action: Some(action(ActionKind::Shortcut, Some(" VolumeUp "))),
    }];
    let config = config.normalized();
    let right = config.hotzones.iter().find(|zone| zone.id == HotzoneId::Right).unwrap();

    assert!(right.enabled);
    assert_eq!(right.actions.len(), 1);
    assert_eq!(right.actions[0].trigger, TriggerKind::WheelUp);
    assert_eq!(right.actions[0].action.kind, ActionKind::VolumeAdjust);
    assert_eq!(right.actions[0].action.value.as_deref(), Some("0.02"));
    assert!(right.trigger.is_none());
    assert!(right.action.is_none());
}

#[test]
fn edge_hide_monitor_profiles_keep_independent_directions() {
    let mut config = AppConfig::default();
    config.edge_hide.enabled = true;
    config.edge_hide.monitor_profiles = vec![
        EdgeHideMonitorProfile {
            monitor_id: "display:-1920:0:0:1080".to_string(),
            edges: vec![Edge::Left],
        },
        EdgeHideMonitorProfile {
            monitor_id: "display:0:0:1920:1080".to_string(),
            edges: vec![Edge::Right, Edge::Bottom],
        },
    ];
    let config = config.normalized();

    assert_eq!(config.edge_hide.monitor_profiles.len(), 2);
    assert_eq!(config.edge_hide.monitor_profiles[0].edges, vec![Edge::Left]);
    assert_eq!(config.edge_hide.monitor_profiles[1].edges, vec![Edge::Right, Edge::Bottom]);
}

#[test]
fn trigger_slots_keep_independent_timing() {
    let mut config = AppConfig::default();
    let mut hover = slot(TriggerKind::Hover, ActionKind::ShowDesktop, None);
    hover.cooldown_ms = Some(900);
    hover.hover_delay_ms = Some(480);
    let mut wheel = slot(TriggerKind::WheelUp, ActionKind::VolumeAdjust, Some("0.02"));
    wheel.cooldown_ms = Some(24);
    config.hotzones = vec![zone(HotzoneId::Right, true, vec![hover, wheel])];
    let config = config.normalized();
    let right = config.hotzones.iter().find(|zone| zone.id == HotzoneId::Right).unwrap();

    assert_eq!(right.actions[0].cooldown_ms, Some(900));
    assert_eq!(right.actions[0].hover_delay_ms, Some(480));
    assert_eq!(right.actions[1].cooldown_ms, Some(24));
    assert_eq!(right.actions[1].hover_delay_ms, None);
}

#[test]
fn normalized_settings_hold_one_zone_per_id_in_order() {
    let mut config = AppConfig::default();
    config.hotzones = vec![
        zone(HotzoneId::Left, true, Vec::new()),
        zone(HotzoneId::Left, false, vec![slot(TriggerKind::Hover, ActionKind::LockScreen, None)]),
        zone(HotzoneId::TopLeft, true, Vec::new()),
    ];
    let config = config.normalized();
    let ids: Vec<HotzoneId> = config.hotzones.iter().map(|zone| zone.id).collect();
    assert_eq!(ids, HotzoneId::all().to_vec());
    assert!(config.hotzones[0].enabled);
    let left = &config.hotzones[7];
    assert!(left.enabled);
    assert!(left.actions.is_empty());
    assert!(!config.hotzones[1].enabled);
}

#[test]
fn volume_slots_without_cooldown_follow_the_global_cooldown_up_to_32_ms() {
    let mut config = AppConfig::default();
    config.action_cooldown_ms = 20;
    config.hotzones = vec![zone(
        HotzoneId::Right,
        true,
        vec![slot(TriggerKind::WheelUp, ActionKind::VolumeAdjust, Some("0.02"))],
    )];
    config.monitor_profiles = vec![
        MonitorProfile {
            monitor_id: "  display:0:0:100:100 ".to_string(),
            hotzones: vec![zone(
                HotzoneId::Top,
                true,
                vec![slot(TriggerKind::WheelDown, ActionKind::VolumeAdjust, Some("-0.02"))],
            )],
        },
        MonitorProfile { monitor_id: "   ".to_string(), hotzones: Vec::new() },
    ];
    let config = config.normalized();
    assert_eq!(config.hotzones[3].actions[0].cooldown_ms, Some(20));
    assert_eq!(config.monitor_profiles.len(), 1);
    assert_eq!(config.monitor_profiles[0].monitor_id, "display:0:0:100:100");
    assert_eq!(config.monitor_profiles[0].hotzones.len(), 8);
    assert_eq!(config.monitor_profiles[0].hotzones[1].actions[0].cooldown_ms, Some(20));

    let mut slow = AppConfig::default();
    slow.hotzones = vec![zone(
        HotzoneId::Right,
        true,
        vec![slot(TriggerKind::WheelUp, ActionKind::VolumeAdjust, Some("0.02"))],
    )];
    let slow = slow.normalized();
    assert_eq!(slow.hotzones[3].actions[0].cooldown_ms, Some(32));
}

#[test]
fn a_later_slot_for_the_same_trigger_replaces_the_earlier_one_in_place() {
    let mut config = AppConfig::default();
    config.hotzones = vec![zone(
        HotzoneId::Top,
        true,
        vec![
            slot(TriggerKind::Hover, ActionKind::ShowDesktop, None),
            slot(TriggerKind::LeftClick, ActionKind::LockScreen, None),
            slot(TriggerKind::Hover, ActionKind::Shortcut, Some("Win+Tab")),
        ],
    )];
    let config = config.normalized();
    let top = &config.hotzones[1];
    assert_eq!(top.actions.len(), 2);
    assert_eq!(top.actions[0].trigger, TriggerKind::Hover);
    assert_eq!(top.actions[0].action.kind, ActionKind::Shortcut);
    assert_eq!(top.actions[1].trigger, TriggerKind::LeftClick);
}

#[test]
fn normalizing_twice_changes_nothing_more() {
    let mut config = AppConfig::default();
    config.edge_size = 99;
    config.paused_apps = vec![" A.exe ".to_string(), "a.EXE".to_string()];
    config.hotzones = vec![zone(
        HotzoneId::Right,
        true,
        vec![slot(TriggerKind::WheelUp, ActionKind::Shortcut, Some("volumedown"))],
    )];
    let once = config.normalized();
    let twice = once.clone().normalized();
    assert_eq!(format!("{:?}", once), format!("{:?}", twice));
    assert_eq!(once.hotzones[3].actions[0].action.value.as_deref(), Some("-0.02"));
}

#[test]
fn string_lists_are_trimmed_and_deduplicated_ignoring_ascii_case() {
    let list = normalized_string_list(vec![
        " Game.exe ".to_string(),
        "GAME.EXE".to_string(),
        "\t".to_string(),
        "éditeur".to_string(),
        "ÉDITEUR".to_string(),
    ]);
    assert_eq!(list, vec!["Game.exe", "éditeur", "ÉDITEUR"]);
    assert_eq!(normalized_optional_string(Some("  x ".to_string())), Some("x".to_string()));
    assert_eq!(normalized_optional_string(Some("   ".to_string())), None);
    assert_eq!(normalized_optional_string(None), None);
}

#[test]
fn modifier_lists_and_edges_become_canonical() {
    assert_eq!(
        normalized_modifiers(vec![ModifierKey::Win, ModifierKey::Ctrl, ModifierKey::Win]),
        vec![ModifierKey::Ctrl, ModifierKey::Win]
    );
    assert_eq!(
        normalized_edges(vec![Edge::Bottom, Edge::Top, Edge::Bottom]),
        vec![Edge::Bottom, Edge::Top]
    );
    let variants: Vec<ModifierAction> = (0..20)
        .map(|i| ModifierAction {
            modifiers: if i % 2 == 0 { vec![ModifierKey::Alt] } else { vec![ModifierKey::Ctrl] },
            action: action(ActionKind::LockScreen, None),
        })
        .collect();
    assert_eq!(normalize_modifier_actions(variants).len(), 2);
    let many: Vec<ModifierAction> = (1..16u8)
        .chain(1..16u8)
        .map(|mask| ModifierAction {
            modifiers: ModifierKey::all()
                .into_iter()
                .filter(|key| mask & key.mask() != 0)
                .collect(),
            action: action(ActionKind::LockScreen, None),
        })
        .collect();
    assert_eq!(normalize_modifier_actions(many).len(), 15);
}

#[test]
fn default_zones_are_off_and_empty() {
    let zones = default_hotzones();
    assert_eq!(zones.len(), 8);
    assert!(zones.iter().all(|zone| !zone.enabled && zone.actions.is_empty() && !zone.has_action()));
    assert_eq!(ModifierKey::Win.mask(), 8);
}

#[test]
fn actions_need_a_non_blank_value() {
    assert_eq!(required_value(&action(ActionKind::Shortcut, Some("  Ctrl+C "))), Some("Ctrl+C"));
    assert_eq!(required_value(&action(ActionKind::OpenCommand, Some(" \t "))), None);
    assert_eq!(required_value(&action(ActionKind::VolumeAdjust, None)), None);
}

#[test]
fn topmost_status_names_the_window_when_it_has_a_title() {
    assert_eq!(topmost_message("Notes", true), "已置顶：Notes");
    assert_eq!(topmost_message("Notes", false), "已取消置顶：Notes");
    assert_eq!(topmost_message("  ", true), "窗口已置顶");
    assert_eq!(topmost_message("", false), "窗口已取消置顶");
}

#[test]
fn parameterized_actions_reject_blank_values() {
    for kind in
        [ActionKind::Shortcut, ActionKind::VolumeAdjust, ActionKind::OpenCommand, ActionKind::HostAction]
    {
        assert_eq!(action_value(&action(kind, None)), Err(MissingValue { kind }));
        assert_eq!(action_value(&action(kind, Some("   "))), Err(MissingValue { kind }));
        assert_eq!(action_value(&action(kind, Some(" x "))), Ok(Some("x")));
    }
    assert_eq!(action_value(&action(ActionKind::ShowDesktop, None)), Ok(None));
    assert_eq!(action_value(&action(ActionKind::NoAction, Some("ignored"))), Ok(None));
}

#[test]
fn settings_update_reports_whether_normalization_changed_it() {
    let mut received = AppConfig::default();
    received.enabled = true;
    received.edge_size = 999;
    let normalized = received.clone().normalized();
    assert_eq!(normalized.edge_size, 48);
    assert!(settings_adjusted(&received, &normalized));

    let settled = AppConfig::default().normalized();
    let again = settled.clone().normalized();
    assert!(!settings_adjusted(&settled, &again));

    let mut padded = settled.clone();
    padded.paused_apps = vec![" Game.exe ".to_string()];
    let trimmed = padded.clone().normalized();
    assert!(settings_adjusted(&padded, &trimmed));
}
