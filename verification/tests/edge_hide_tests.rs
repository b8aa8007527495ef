use convenient_window::config::{Edge, EdgeHideConfig, EdgeHideMonitorProfile};
use convenient_window::edge_hide::EdgeHideController;
use convenient_window::edge_hide_geometry::detect_window_edge;
use convenient_window::edge_hide_model::{
    EdgeHideCommand, EdgeHideInput, EdgeHideLiveState, EdgeHideState,
};
use convenient_window::edge_hide_spec::RELOCATION_RETRY_DELAY_MS;
use convenient_window::geometry::{Monitor, Point, Rect, WindowHandle, WindowInfo};
use convenient_window::window_rules::is_candidate_window;

/// The helper clock's reading when a scenario starts, in milliseconds.
const START: u64 = 10_000_000;


fn monitor() -> Monitor {
    Monitor {
        bounds: Rect {
            left: 0,
            top: 0,
            right: 1920,
            bottom: 1080,
        },
        work_area: Rect {
            left: 0,
            top: 0,
            right: 1920,
            bottom: 1040,
        },
        primary: true,
    }
}

fn window(rect: Rect) -> WindowInfo {
    window_with_handle(WindowHandle(42), rect)
}

fn window_with_handle(handle: WindowHandle, rect: Rect) -> WindowInfo {
    WindowInfo {
        handle,
        rect,
        title: "Editor".to_string(),
        class_name: "Window".to_string(),
        process_name: "editor.exe".to_string(),
        maximized: false,
        transient: false,
        arranged: false,
        topmost: false,
    }
}

fn left_and_primary_monitors() -> [Monitor; 2] {
    [
        monitor(),
        Monitor {
            bounds: Rect {
                left: -1920,
                top: 0,
                right: 0,
                bottom: 1080,
            },
            work_area: Rect {
                left: -1920,
                top: 0,
                right: 0,
                bottom: 1040,
            },
            primary: false,
        },
    ]
}

fn collapsed_controller_on_left_monitor() -> EdgeHideController {
    let mut controller = EdgeHideController::new();
    controller.set_state(
        WindowHandle(42),
        EdgeHideState::Collapsed {
            edge: Edge::Left,
            restore_rect: Rect {
                left: 0,
                top: 120,
                right: 600,
                bottom: 700,
            },
            hidden_rect: Rect {
                left: -592,
                top: 120,
                right: 8,
                bottom: 700,
            },
            original_topmost: false,
            was_foreground: false,
        },
    );
    controller
}

fn collapsed_controller_on_removed_left_monitor() -> EdgeHideController {
    let mut controller = EdgeHideController::new();
    controller.set_state(
        WindowHandle(42),
        EdgeHideState::Collapsed {
            edge: Edge::Left,
            restore_rect: Rect {
                left: -1920,
                top: 120,
                right: -1320,
                bottom: 700,
            },
            hidden_rect: Rect {
                left: -2504,
                top: 120,
                right: -1904,
                bottom: 700,
            },
            original_topmost: false,
            was_foreground: false,
        },
    );
    controller
}

#[test]
fn collapse_preview_uses_the_eventual_visible_strip_length() {
    let mut config = EdgeHideConfig::default();
    config.enabled = true;
    let controller = EdgeHideController::new();
    let monitors = [monitor()];
    let target = window(Rect {
        left: 0,
        top: 120,
        right: 640,
        bottom: 620,
    });

    assert_eq!(
        controller.collapse_preview(&config, &monitors, &target, target.rect),
        Some(Rect {
            left: 0,
            top: 120,
            right: 4,
            bottom: 620,
        })
    );
}

#[test]
fn collapse_preview_remains_available_after_edge_hide_state_changes() {
    let mut config = EdgeHideConfig::default();
    config.enabled = true;
    config.collapse_delay_ms = 0;
    let monitors = [monitor()];
    let start = START;
    let original = window(Rect {
        left: 0,
        top: 120,
        right: 600,
        bottom: 700,
    });
    let moved = window(Rect {
        left: 1320,
        top: 120,
        right: 1920,
        bottom: 700,
    });
    let mut controller = EdgeHideController::new();

    let _ = controller.tick(
        start,
        &config,
        Point { x: 900, y: 500 },
        &monitors,
        Some(&original),
    );
    assert_eq!(
        controller.tick(
            start + 1,
            &config,
            Point { x: 900, y: 500 },
            &monitors,
            Some(&original),
        ),
        Some(EdgeHideCommand::Collapse {
            handle: original.handle,
            rect: Rect {
                left: -584,
                top: 120,
                right: 16,
                bottom: 700,
            },
        })
    );
    assert_eq!(
        controller.collapse_preview(&config, &monitors, &moved, moved.rect),
        Some(Rect {
            left: 1916,
            top: 120,
            right: 1920,
            bottom: 700,
        })
    );

    assert_eq!(
        controller.tick(
            start + 2,
            &config,
            Point { x: 2, y: 200 },
            &monitors,
            None,
        ),
        Some(EdgeHideCommand::Restore {
            handle: original.handle,
            rect: original.rect,
            topmost: false,
        })
    );
    assert_eq!(
        controller.collapse_preview(&config, &monitors, &moved, moved.rect),
        Some(Rect {
            left: 1916,
            top: 120,
            right: 1920,
            bottom: 700,
        })
    );
}

#[test]
fn collapse_preview_switch_defaults_on_and_hides_when_disabled() {
    let mut config = EdgeHideConfig::default();
    config.enabled = true;
    let controller = EdgeHideController::new();
    let monitors = [monitor()];
    let target = window(Rect {
        left: 300,
        top: 540,
        right: 900,
        bottom: 1040,
    });

    assert!(config.show_preview);
    assert_eq!(
        controller.collapse_preview(&config, &monitors, &target, target.rect),
        Some(Rect {
            left: 300,
            top: 1036,
            right: 900,
            bottom: 1040,
        })
    );

    config.show_preview = false;
    assert_eq!(
        controller.collapse_preview(&config, &monitors, &target, target.rect),
        None
    );
}

#[test]
fn chooses_edge_directions_from_the_window_monitor_profile() {
    let mut config = EdgeHideConfig::default();
    config.monitor_profiles = vec![
        EdgeHideMonitorProfile {
            monitor_id: "display:0:0:1920:1080".to_string(),
            edges: vec![Edge::Top],
        },
        EdgeHideMonitorProfile {
            monitor_id: "display:-1920:0:0:1080".to_string(),
            edges: vec![],
        },
    ];
    let monitors = left_and_primary_monitors();

    assert_eq!(
        detect_window_edge(
            Rect {
                left: 400,
                top: 0,
                right: 1000,
                bottom: 500,
            },
            &monitors,
            &config,
        )
        .map(|(edge, _)| edge),
        Some(Edge::Top)
    );
    assert!(detect_window_edge(
        Rect {
            left: -1600,
            top: 0,
            right: -1000,
            bottom: 500,
        },
        &monitors,
        &config,
    )
    .is_none());
}

#[test]
fn collapses_after_delay() {
    let mut config = EdgeHideConfig::default();
    config.enabled = true;
    config.collapse_delay_ms = 100;

    let mut controller = EdgeHideController::new();
    let start = START;
    let window = window(Rect {
        left: 0,
        top: 120,
        right: 600,
        bottom: 700,
    });

    assert_eq!(
        controller.tick(
            start,
            &config,
            Point { x: 800, y: 500 },
            &[monitor()],
            Some(&window)
        ),
        None
    );
    assert_eq!(
        controller.tick(
            start + 101,
            &config,
            Point { x: 800, y: 500 },
            &[monitor()],
            Some(&window),
        ),
        Some(EdgeHideCommand::Collapse {
            handle: WindowHandle(42),
            rect: Rect {
                left: -584,
                top: 120,
                right: 16,
                bottom: 700,
            },
        })
    );
}

#[test]
fn restores_when_cursor_reaches_strip() {
    let mut config = EdgeHideConfig::default();
    config.enabled = true;
    config.collapse_delay_ms = 0;

    let mut controller = EdgeHideController::new();
    let start = START;
    let window = window(Rect {
        left: 0,
        top: 120,
        right: 600,
        bottom: 700,
    });

    let _ = controller.tick(
        start,
        &config,
        Point { x: 900, y: 500 },
        &[monitor()],
        Some(&window),
    );
    let _ = controller.tick(
        start + 1,
        &config,
        Point { x: 900, y: 500 },
        &[monitor()],
        Some(&window),
    );

    assert_eq!(
        controller.tick(
            start + 2,
            &config,
            Point { x: 2, y: 200 },
            &[monitor()],
            None,
        ),
        Some(EdgeHideCommand::Restore {
            handle: WindowHandle(42),
            rect: window.rect,
            topmost: false,
        })
    );
}

#[test]
fn restores_when_disabled_after_collapse() {
    let mut config = EdgeHideConfig::default();
    config.enabled = true;
    config.collapse_delay_ms = 0;

    let mut controller = EdgeHideController::new();
    let start = START;
    let window = window(Rect {
        left: 0,
        top: 120,
        right: 600,
        bottom: 700,
    });

    let _ = controller.tick(
        start,
        &config,
        Point { x: 900, y: 500 },
        &[monitor()],
        Some(&window),
    );
    let _ = controller.tick(
        start + 1,
        &config,
        Point { x: 900, y: 500 },
        &[monitor()],
        Some(&window),
    );

    config.enabled = false;
    assert_eq!(
        controller.tick(
            start + 2,
            &config,
            Point { x: 900, y: 500 },
            &[monitor()],
            None,
        ),
        Some(EdgeHideCommand::Restore {
            handle: WindowHandle(42),
            rect: window.rect,
            topmost: false,
        })
    );
}

#[test]
fn collapses_when_window_is_one_third_outside_screen() {
    let mut config = EdgeHideConfig::default();
    config.enabled = true;
    config.collapse_delay_ms = 0;

    let mut controller = EdgeHideController::new();
    let start = START;
    let window = window(Rect {
        left: -220,
        top: 120,
        right: 380,
        bottom: 700,
    });

    let _ = controller.tick(
        start,
        &config,
        Point { x: 900, y: 500 },
        &[monitor()],
        Some(&window),
    );

    assert_eq!(
        controller.tick(
            start + 1,
            &config,
            Point { x: 900, y: 500 },
            &[monitor()],
            Some(&window),
        ),
        Some(EdgeHideCommand::Collapse {
            handle: WindowHandle(42),
            rect: Rect {
                left: -584,
                top: 120,
                right: 16,
                bottom: 700,
            },
        })
    );
}

#[test]
fn restores_outside_window_to_a_fully_visible_rect() {
    let mut config = EdgeHideConfig::default();
    config.enabled = true;
    config.collapse_delay_ms = 0;

    let mut controller = EdgeHideController::new();
    let start = START;
    let window = window(Rect {
        left: -220,
        top: 120,
        right: 380,
        bottom: 700,
    });

    let _ = controller.tick(
        start,
        &config,
        Point { x: 900, y: 500 },
        &[monitor()],
        Some(&window),
    );
    let _ = controller.tick(
        start + 1,
        &config,
        Point { x: 900, y: 500 },
        &[monitor()],
        Some(&window),
    );

    assert_eq!(
        controller.tick(
            start + 2,
            &config,
            Point { x: 2, y: 200 },
            &[monitor()],
            None,
        ),
        Some(EdgeHideCommand::Restore {
            handle: WindowHandle(42),
            rect: Rect {
                left: 0,
                top: 120,
                right: 600,
                bottom: 700,
            },
            topmost: false,
        })
    );
}

#[test]
fn multiple_windows_can_stay_collapsed_and_restore_independently() {
    let mut config = EdgeHideConfig::default();
    config.enabled = true;
    config.collapse_delay_ms = 0;

    let mut controller = EdgeHideController::new();
    let start = START;
    let left_window = window_with_handle(
        WindowHandle(42),
        Rect {
            left: 0,
            top: 120,
            right: 600,
            bottom: 700,
        },
    );
    let right_window = window_with_handle(
        WindowHandle(43),
        Rect {
            left: 1320,
            top: 220,
            right: 1920,
            bottom: 800,
        },
    );

    let _ = controller.tick(
        start,
        &config,
        Point { x: 900, y: 500 },
        &[monitor()],
        Some(&left_window),
    );
    assert!(matches!(
        controller.tick(
            start + 1,
            &config,
            Point { x: 900, y: 500 },
            &[monitor()],
            Some(&left_window),
        ),
        Some(EdgeHideCommand::Collapse {
            handle: WindowHandle(42),
            ..
        })
    ));

    let _ = controller.tick(
        start + 2,
        &config,
        Point { x: 900, y: 500 },
        &[monitor()],
        Some(&right_window),
    );
    assert!(matches!(
        controller.tick(
            start + 3,
            &config,
            Point { x: 900, y: 500 },
            &[monitor()],
            Some(&right_window),
        ),
        Some(EdgeHideCommand::Collapse {
            handle: WindowHandle(43),
            ..
        })
    ));

    assert_eq!(
        controller.tick(
            start + 4,
            &config,
            Point { x: 1918, y: 240 },
            &[monitor()],
            None,
        ),
        Some(EdgeHideCommand::Restore {
            handle: WindowHandle(43),
            rect: right_window.rect,
            topmost: false,
        })
    );

    assert_eq!(
        controller.tick(
            start + 5,
            &config,
            Point { x: 2, y: 140 },
            &[monitor()],
            None,
        ),
        Some(EdgeHideCommand::Restore {
            handle: WindowHandle(42),
            rect: left_window.rect,
            topmost: false,
        })
    );
}

#[test]
fn cancels_pending_when_window_moves_back_to_center() {
    let mut config = EdgeHideConfig::default();
    config.enabled = true;
    config.collapse_delay_ms = 100;

    let mut controller = EdgeHideController::new();
    let start = START;
    let edge_window = window(Rect {
        left: -220,
        top: 120,
        right: 380,
        bottom: 700,
    });
    let centered_window = window(Rect {
        left: 500,
        top: 120,
        right: 1100,
        bottom: 700,
    });

    let _ = controller.tick(
        start,
        &config,
        Point { x: 900, y: 500 },
        &[monitor()],
        Some(&edge_window),
    );

    assert_eq!(
        controller.tick(
            start + 101,
            &config,
            Point { x: 900, y: 500 },
            &[monitor()],
            Some(&centered_window),
        ),
        None
    );
}

#[test]
fn moving_expanded_window_to_center_prevents_recollapse() {
    let mut config = EdgeHideConfig::default();
    config.enabled = true;
    config.collapse_delay_ms = 0;
    config.restore_delay_ms = 10;

    let mut controller = EdgeHideController::new();
    let start = START;
    let edge_window = window(Rect {
        left: 0,
        top: 120,
        right: 600,
        bottom: 700,
    });
    let centered_window = window(Rect {
        left: 500,
        top: 120,
        right: 1100,
        bottom: 700,
    });

    let _ = controller.tick(
        start,
        &config,
        Point { x: 900, y: 500 },
        &[monitor()],
        Some(&edge_window),
    );
    let _ = controller.tick(
        start + 1,
        &config,
        Point { x: 900, y: 500 },
        &[monitor()],
        Some(&edge_window),
    );
    let _ = controller.tick(
        start + 2,
        &config,
        Point { x: 2, y: 200 },
        &[monitor()],
        None,
    );

    assert_eq!(
        controller.tick(
            start + 20,
            &config,
            Point { x: 1300, y: 800 },
            &[monitor()],
            Some(&centered_window),
        ),
        None
    );
}

#[test]
fn manually_dragged_out_collapsed_window_can_collapse_again() {
    let mut config = EdgeHideConfig::default();
    config.enabled = true;
    config.collapse_delay_ms = 0;

    let mut controller = EdgeHideController::new();
    let start = START;
    let edge_window = window(Rect {
        left: 0,
        top: 120,
        right: 600,
        bottom: 700,
    });
    let centered_window = window(Rect {
        left: 500,
        top: 120,
        right: 1100,
        bottom: 700,
    });

    controller.tick(
        start,
        &config,
        Point { x: 900, y: 500 },
        &[monitor()],
        Some(&edge_window),
    );
    assert!(matches!(
        controller.tick(
            start + 1,
            &config,
            Point { x: 900, y: 500 },
            &[monitor()],
            Some(&edge_window),
        ),
        Some(EdgeHideCommand::Collapse { .. })
    ));

    // The user grabs the visible strip and drags the actual window to the center.
    assert_eq!(
        controller.tick(
            start + 2,
            &config,
            Point { x: 700, y: 140 },
            &[monitor()],
            Some(&centered_window),
        ),
        Some(EdgeHideCommand::Restore {
            handle: WindowHandle(42),
            rect: centered_window.rect,
            topmost: false,
        })
    );

    controller.tick(
        start + 3,
        &config,
        Point { x: 300, y: 140 },
        &[monitor()],
        Some(&edge_window),
    );
    assert!(matches!(
        controller.tick(
            start + 4,
            &config,
            Point { x: 300, y: 140 },
            &[monitor()],
            Some(&edge_window),
        ),
        Some(EdgeHideCommand::Collapse {
            handle: WindowHandle(42),
            ..
        })
    ));
}

#[test]
fn far_left_window_uses_left_monitor_instead_of_primary_fallback() {
    let mut config = EdgeHideConfig::default();
    config.enabled = true;
    config.collapse_delay_ms = 0;

    let mut controller = EdgeHideController::new();
    let start = START;
    let window = window(Rect {
        left: -2300,
        top: 120,
        right: -1700,
        bottom: 700,
    });
    let monitors = left_and_primary_monitors();

    controller.tick(
        start,
        &config,
        Point { x: -1800, y: 500 },
        &monitors,
        Some(&window),
    );
    assert_eq!(
        controller.tick(
            start + 1,
            &config,
            Point { x: -1800, y: 500 },
            &monitors,
            Some(&window),
        ),
        Some(EdgeHideCommand::Collapse {
            handle: WindowHandle(42),
            rect: Rect {
                left: -2504,
                top: 120,
                right: -1904,
                bottom: 700,
            },
        })
    );
}

#[test]
fn does_not_collapse_at_vertical_seam_between_monitors() {
    let mut config = EdgeHideConfig::default();
    config.enabled = true;
    config.collapse_delay_ms = 0;
    let monitors = left_and_primary_monitors();
    let start = START;

    for (index, rect) in [
        Rect {
            left: 0,
            top: 120,
            right: 600,
            bottom: 700,
        },
        Rect {
            left: -600,
            top: 120,
            right: 0,
            bottom: 700,
        },
    ]
    .into_iter()
    .enumerate()
    {
        let mut controller = EdgeHideController::new();
        let seam_window = window_with_handle(WindowHandle(50 + index as isize), rect);
        assert_eq!(
            controller.tick(
                start,
                &config,
                Point { x: -10, y: 500 },
                &monitors,
                Some(&seam_window),
            ),
            None
        );
        assert_eq!(
            controller.tick(
                start + 1,
                &config,
                Point { x: -10, y: 500 },
                &monitors,
                Some(&seam_window),
            ),
            None
        );
    }
}

#[test]
fn partially_covered_monitor_edge_only_collapses_on_exposed_segment() {
    let mut config = EdgeHideConfig::default();
    config.enabled = true;
    config.collapse_delay_ms = 0;
    let monitors = [
        monitor(),
        Monitor {
            bounds: Rect {
                left: -1280,
                top: 300,
                right: 0,
                bottom: 1024,
            },
            work_area: Rect {
                left: -1280,
                top: 300,
                right: 0,
                bottom: 984,
            },
            primary: false,
        },
    ];
    let start = START;

    let covered = window_with_handle(
        WindowHandle(60),
        Rect {
            left: 0,
            top: 400,
            right: 600,
            bottom: 800,
        },
    );
    let exposed = window_with_handle(
        WindowHandle(61),
        Rect {
            left: 0,
            top: 20,
            right: 600,
            bottom: 250,
        },
    );

    let mut covered_controller = EdgeHideController::new();
    covered_controller.tick(
        start,
        &config,
        Point { x: 300, y: 500 },
        &monitors,
        Some(&covered),
    );
    assert_eq!(
        covered_controller.tick(
            start + 1,
            &config,
            Point { x: 300, y: 500 },
            &monitors,
            Some(&covered),
        ),
        None
    );

    let mut exposed_controller = EdgeHideController::new();
    exposed_controller.tick(
        start,
        &config,
        Point { x: 300, y: 100 },
        &monitors,
        Some(&exposed),
    );
    assert!(matches!(
        exposed_controller.tick(
            start + 1,
            &config,
            Point { x: 300, y: 100 },
            &monitors,
            Some(&exposed),
        ),
        Some(EdgeHideCommand::Collapse { .. })
    ));
}

#[test]
fn does_not_collapse_at_horizontal_seam_between_monitors() {
    let mut config = EdgeHideConfig::default();
    config.enabled = true;
    config.collapse_delay_ms = 0;
    let monitors = [
        monitor(),
        Monitor {
            bounds: Rect {
                left: 0,
                top: -1080,
                right: 1920,
                bottom: 0,
            },
            work_area: Rect {
                left: 0,
                top: -1080,
                right: 1920,
                bottom: 0,
            },
            primary: false,
        },
    ];
    let start = START;

    for (index, rect) in [
        Rect {
            left: 400,
            top: 0,
            right: 1000,
            bottom: 500,
        },
        Rect {
            left: 400,
            top: -500,
            right: 1000,
            bottom: 0,
        },
    ]
    .into_iter()
    .enumerate()
    {
        let mut controller = EdgeHideController::new();
        let seam_window = window_with_handle(WindowHandle(70 + index as isize), rect);
        controller.tick(
            start,
            &config,
            Point { x: 600, y: -10 },
            &monitors,
            Some(&seam_window),
        );
        assert_eq!(
            controller.tick(
                start + 1,
                &config,
                Point { x: 600, y: -10 },
                &monitors,
                Some(&seam_window),
            ),
            None
        );
    }
}

#[test]
fn restores_expanded_window_when_disabled() {
    let mut config = EdgeHideConfig::default();
    config.enabled = true;
    config.collapse_delay_ms = 0;
    config.restore_delay_ms = 99999; // will not collapse back on its own

    let mut controller = EdgeHideController::new();
    let start = START;
    let win = window(Rect {
        left: 0,
        top: 120,
        right: 600,
        bottom: 700,
    });

    // tick once to enter Pending, once to Collapse
    controller.tick(
        start,
        &config,
        Point { x: 900, y: 500 },
        &[monitor()],
        Some(&win),
    );
    controller.tick(
        start + 1,
        &config,
        Point { x: 900, y: 500 },
        &[monitor()],
        Some(&win),
    );
    // cursor near strip => Expand
    controller.tick(
        start + 2,
        &config,
        Point { x: 2, y: 200 },
        &[monitor()],
        None,
    );

    // now disable
    config.enabled = false;
    assert_eq!(
        controller.tick(
            start + 3,
            &config,
            Point { x: 900, y: 500 },
            &[monitor()],
            None
        ),
        Some(EdgeHideCommand::Restore {
            handle: WindowHandle(42),
            rect: win.rect,
            topmost: false,
        })
    );
}

#[test]
fn waits_for_left_button_release_before_starting_collapse_delay() {
    let mut config = EdgeHideConfig::default();
    config.enabled = true;
    config.collapse_delay_ms = 100;

    let mut controller = EdgeHideController::new();
    let start = START;
    let edge_window = window(Rect {
        left: 0,
        top: 120,
        right: 600,
        bottom: 700,
    });

    assert_eq!(
        controller.tick_with_left_button_state(
            start,
            &config,
            Point { x: 20, y: 200 },
            &[monitor()],
            Some(&edge_window),
            true,
        ),
        None
    );
    assert_eq!(
        controller.tick_with_left_button_state(
            start + 500,
            &config,
            Point { x: 20, y: 200 },
            &[monitor()],
            Some(&edge_window),
            true,
        ),
        None
    );

    assert_eq!(
        controller.tick_with_left_button_state(
            start + 501,
            &config,
            Point { x: 20, y: 200 },
            &[monitor()],
            Some(&edge_window),
            false,
        ),
        None
    );
    assert!(matches!(
        controller.tick_with_left_button_state(
            start + 602,
            &config,
            Point { x: 20, y: 200 },
            &[monitor()],
            Some(&edge_window),
            false,
        ),
        Some(EdgeHideCommand::Collapse { .. })
    ));
}

#[test]
fn distance_and_ratio_triggers_can_be_controlled_independently() {
    let monitors = [monitor()];
    let near_edge = Rect {
        left: 12,
        top: 120,
        right: 612,
        bottom: 700,
    };
    let partly_outside = Rect {
        left: -180,
        top: 120,
        right: 420,
        bottom: 700,
    };
    let mut config = EdgeHideConfig::default();
    config.distance_trigger_enabled = true;
    config.ratio_trigger_enabled = false;

    assert_eq!(
        detect_window_edge(near_edge, &monitors, &config).map(|(edge, _)| edge),
        Some(Edge::Left)
    );
    assert!(detect_window_edge(partly_outside, &monitors, &config).is_none());

    config.distance_trigger_enabled = false;
    config.ratio_trigger_enabled = true;
    config.trigger_ratio = 30;

    assert!(detect_window_edge(near_edge, &monitors, &config).is_none());
    assert_eq!(
        detect_window_edge(partly_outside, &monitors, &config).map(|(edge, _)| edge),
        Some(Edge::Left)
    );
}

#[test]
fn transient_owned_windows_are_never_edge_hide_candidates() {
    let config = EdgeHideConfig::default();
    let mut popup = window(Rect {
        left: 0,
        top: 700,
        right: 360,
        bottom: 1000,
    });
    popup.transient = true;

    assert!(!is_candidate_window(&popup, &config));
}

#[test]
fn windows_shell_flyouts_are_never_edge_hide_candidates() {
    let config = EdgeHideConfig::default();
    let mut notification_center = window(Rect {
        left: 1500,
        top: 0,
        right: 1920,
        bottom: 1000,
    });
    notification_center.process_name = "explorer.exe".to_string();
    notification_center.class_name = "XamlExplorerHostIslandWindow_WASDK".to_string();
    notification_center.title.clear();

    assert!(!is_candidate_window(&notification_center, &config));

    notification_center.process_name = "ShellExperienceHost.exe".to_string();
    notification_center.class_name = "Windows.UI.Core.CoreWindow".to_string();
    assert!(!is_candidate_window(&notification_center, &config));

    notification_center.process_name = "explorer.exe".to_string();
    notification_center.class_name = "ApplicationFrameWindow".to_string();
    notification_center.title.clear();
    assert!(!is_candidate_window(&notification_center, &config));

    notification_center.class_name = "CabinetWClass".to_string();
    notification_center.title = "Downloads".to_string();
    assert!(is_candidate_window(&notification_center, &config));
}

#[test]
fn pruning_destroyed_windows_removes_their_strip_hints() {
    let mut controller = EdgeHideController::new();
    controller.set_state(
        WindowHandle(42),
        EdgeHideState::Collapsed {
            edge: Edge::Left,
            restore_rect: Rect {
                left: 0,
                top: 120,
                right: 600,
                bottom: 700,
            },
            hidden_rect: Rect {
                left: -592,
                top: 120,
                right: 8,
                bottom: 700,
            },
            original_topmost: false,
            was_foreground: false,
        },
    );
    assert_eq!(
        controller
            .collapsed_strips_with_live_state(&[monitor()], |_, hidden| {
                EdgeHideLiveState::Visible(hidden)
            })
            .len(),
        1
    );

    controller.prune_invalid_windows(|_| false);

    assert!(controller
        .collapsed_strips_with_live_state(&[monitor()], |_, hidden| {
            EdgeHideLiveState::Visible(hidden)
        })
        .is_empty());
}

#[test]
fn moved_collapsed_windows_no_longer_render_stale_strip_hints() {
    let mut controller = EdgeHideController::new();
    controller.set_state(
        WindowHandle(42),
        EdgeHideState::Collapsed {
            edge: Edge::Left,
            restore_rect: Rect {
                left: 0,
                top: 120,
                right: 600,
                bottom: 700,
            },
            hidden_rect: Rect {
                left: -592,
                top: 120,
                right: 8,
                bottom: 700,
            },
            original_topmost: false,
            was_foreground: false,
        },
    );
    assert!(controller
        .collapsed_strips_with_live_state(&[monitor()], |_, _| {
            EdgeHideLiveState::Visible(Rect {
                left: 240,
                top: 180,
                right: 840,
                bottom: 780,
            })
        })
        .is_empty());
}

#[test]
fn collapsed_windows_do_not_render_strips_without_a_current_monitor() {
    let mut controller = EdgeHideController::new();
    controller.set_state(
        WindowHandle(42),
        EdgeHideState::Collapsed {
            edge: Edge::Left,
            restore_rect: Rect {
                left: 0,
                top: 120,
                right: 600,
                bottom: 700,
            },
            hidden_rect: Rect {
                left: -592,
                top: 120,
                right: 8,
                bottom: 700,
            },
            original_topmost: false,
            was_foreground: false,
        },
    );

    assert!(controller
        .collapsed_strips_with_live_state(&[], |_, hidden| {
            EdgeHideLiveState::Visible(hidden)
        })
        .is_empty());
}

#[test]
fn collapsed_windows_do_not_render_strips_for_a_removed_monitor() {
    let mut controller = EdgeHideController::new();
    controller.set_state(
        WindowHandle(42),
        EdgeHideState::Collapsed {
            edge: Edge::Left,
            restore_rect: Rect {
                left: -1920,
                top: 120,
                right: -1320,
                bottom: 700,
            },
            hidden_rect: Rect {
                left: -2504,
                top: 120,
                right: -1904,
                bottom: 700,
            },
            original_topmost: false,
            was_foreground: false,
        },
    );

    assert!(controller
        .collapsed_strips_with_live_state(&[monitor()], |_, hidden| {
            EdgeHideLiveState::Visible(hidden)
        })
        .is_empty());
}

#[test]
fn adding_an_adjacent_monitor_relocates_before_showing_the_new_outer_edge_hint() {
    let mut controller = collapsed_controller_on_left_monitor();
    let config = EdgeHideConfig {
        enabled: true,
        ..EdgeHideConfig::default()
    };
    let adjacent_monitors = [
        monitor(),
        Monitor {
            bounds: Rect {
                left: -1920,
                top: 0,
                right: 0,
                bottom: 1080,
            },
            work_area: Rect {
                left: -1920,
                top: 0,
                right: 0,
                bottom: 1040,
            },
            primary: false,
        },
    ];
    let hidden = Rect {
        left: -592,
        top: 120,
        right: 8,
        bottom: 700,
    };

    assert_eq!(
        controller.tick_with_live_state(
            START,
            &config,
            Point { x: 1000, y: 900 },
            &adjacent_monitors,
            None,
            EdgeHideInput::default(),
            |_, _| EdgeHideLiveState::Visible(hidden),
        ),
        Some(EdgeHideCommand::Collapse {
            handle: WindowHandle(42),
            rect: Rect {
                left: -2504,
                top: 120,
                right: -1904,
                bottom: 700,
            },
        })
    );
    assert!(controller
        .collapsed_strips_with_live_state(&adjacent_monitors, |_, _| {
            EdgeHideLiveState::Visible(hidden)
        })
        .is_empty());
}

#[test]
fn hidden_collapsed_windows_do_not_render_stale_strip_hints() {
    let mut controller = EdgeHideController::new();
    controller.set_state(
        WindowHandle(42),
        EdgeHideState::Collapsed {
            edge: Edge::Left,
            restore_rect: Rect {
                left: 0,
                top: 120,
                right: 600,
                bottom: 700,
            },
            hidden_rect: Rect {
                left: -592,
                top: 120,
                right: 8,
                bottom: 700,
            },
            original_topmost: false,
            was_foreground: false,
        },
    );

    assert!(controller
        .collapsed_strips_with_live_state(&[monitor()], |_, _| {
            EdgeHideLiveState::Unavailable
        })
        .is_empty());
}

#[test]
fn minimized_collapsed_windows_do_not_render_restore_strips() {
    let mut controller = EdgeHideController::new();
    controller.set_state(
        WindowHandle(42),
        EdgeHideState::Collapsed {
            edge: Edge::Left,
            restore_rect: Rect {
                left: 0,
                top: 120,
                right: 600,
                bottom: 700,
            },
            hidden_rect: Rect {
                left: -592,
                top: 120,
                right: 8,
                bottom: 700,
            },
            original_topmost: false,
            was_foreground: false,
        },
    );

    assert!(controller
        .collapsed_strips_with_live_state(&[monitor()], |_, _| EdgeHideLiveState::Minimized)
        .is_empty());
}

#[test]
fn inactive_collapsed_windows_have_no_invisible_restore_hotzone() {
    let config = EdgeHideConfig {
        enabled: true,
        strip_size: 8,
        ..EdgeHideConfig::default()
    };
    for live_state in [
        EdgeHideLiveState::Unavailable,
        EdgeHideLiveState::Minimized,
        EdgeHideLiveState::Visible(Rect {
            left: 240,
            top: 180,
            right: 840,
            bottom: 780,
        }),
    ] {
        let mut controller = collapsed_controller_on_left_monitor();
        assert_eq!(
            controller.tick_with_live_state(
                START,
                &config,
                Point { x: 1, y: 300 },
                &[monitor()],
                None,
                EdgeHideInput::default(),
                |_, _| live_state,
            ),
            None
        );
        assert!(matches!(
            controller.state_of(WindowHandle(42)).as_ref(),
            Some(EdgeHideState::Collapsed { .. })
        ));
    }
}

#[test]
fn transient_live_query_failure_does_not_fake_a_foreground_activation() {
    let config = EdgeHideConfig {
        enabled: true,
        strip_size: 8,
        ..EdgeHideConfig::default()
    };
    let hidden_rect = Rect {
        left: -592,
        top: 120,
        right: 8,
        bottom: 700,
    };
    let foreground = window(hidden_rect);
    let mut controller = collapsed_controller_on_left_monitor();

    assert_eq!(
        controller.tick_with_live_state(
            START,
            &config,
            Point { x: 1000, y: 900 },
            &[monitor()],
            Some(&foreground),
            EdgeHideInput::default(),
            |_, _| EdgeHideLiveState::Unavailable,
        ),
        None
    );
    assert_eq!(
        controller.tick_with_live_state(
            START,
            &config,
            Point { x: 1000, y: 900 },
            &[monitor()],
            Some(&foreground),
            EdgeHideInput::default(),
            |_, _| EdgeHideLiveState::Visible(hidden_rect),
        ),
        None
    );
}

#[test]
fn monitor_reconciliation_moves_the_window_before_reenabling_its_strip() {
    let config = EdgeHideConfig {
        enabled: true,
        ..EdgeHideConfig::default()
    };
    let old_hidden_rect = Rect {
        left: -2504,
        top: 120,
        right: -1904,
        bottom: 700,
    };
    let mut controller = collapsed_controller_on_removed_left_monitor();

    let relocation = controller
        .tick_with_live_state(
            START,
            &config,
            Point { x: 1, y: 300 },
            &[monitor()],
            None,
            EdgeHideInput::default(),
            |_, _| EdgeHideLiveState::Visible(old_hidden_rect),
        )
        .expect("the collapsed window should move to the current monitor");
    let EdgeHideCommand::Collapse {
        rect: relocated_hidden,
        ..
    } = relocation
    else {
        panic!("monitor reconciliation should issue a collapse relocation")
    };
    assert!(controller
        .collapsed_strips_with_live_state(&[monitor()], |_, _| {
            EdgeHideLiveState::Visible(old_hidden_rect)
        })
        .is_empty());

    controller.command_succeeded(
        relocation,
        EdgeHideLiveState::Visible(relocated_hidden),
        START,
    );

    assert_eq!(
        controller
            .collapsed_strips_with_live_state(&[monitor()], |_, _| {
                EdgeHideLiveState::Visible(relocated_hidden)
            })
            .len(),
        1
    );
    assert!(matches!(
        controller.tick_with_live_state(
            START,
            &config,
            Point { x: 1, y: 300 },
            &[monitor()],
            None,
            EdgeHideInput::default(),
            |_, _| EdgeHideLiveState::Visible(relocated_hidden),
        ),
        Some(EdgeHideCommand::Restore { .. })
    ));
}

#[test]
fn monitor_reconciliation_adopts_a_window_already_moved_by_windows() {
    let config = EdgeHideConfig {
        enabled: true,
        ..EdgeHideConfig::default()
    };
    let relocated_hidden = Rect {
        left: -584,
        top: 120,
        right: 16,
        bottom: 700,
    };
    let mut controller = collapsed_controller_on_removed_left_monitor();

    assert_eq!(
        controller.tick_with_live_state(
            START,
            &config,
            Point { x: 1000, y: 900 },
            &[monitor()],
            None,
            EdgeHideInput::default(),
            |_, _| EdgeHideLiveState::Visible(relocated_hidden),
        ),
        None
    );
    assert!(matches!(
        controller.state_of(WindowHandle(42)).as_ref(),
        Some(EdgeHideState::Collapsed {
            restore_rect,
            hidden_rect,
            ..
        }) if *restore_rect == Rect {
            left: 0,
            top: 120,
            right: 600,
            bottom: 700,
        } && *hidden_rect == relocated_hidden
    ));
    assert_eq!(
        controller
            .collapsed_strips_with_live_state(&[monitor()], |_, _| {
                EdgeHideLiveState::Visible(relocated_hidden)
            })
            .len(),
        1
    );
}

#[test]
fn relocation_success_is_not_committed_without_matching_live_geometry() {
    let config = EdgeHideConfig {
        enabled: true,
        ..EdgeHideConfig::default()
    };
    let old_hidden_rect = Rect {
        left: -2504,
        top: 120,
        right: -1904,
        bottom: 700,
    };
    let actual_rect = Rect {
        left: 200,
        top: 160,
        right: 800,
        bottom: 740,
    };
    let mut controller = collapsed_controller_on_removed_left_monitor();
    let relocation = controller
        .tick_with_live_state(
            START,
            &config,
            Point { x: 1000, y: 900 },
            &[monitor()],
            None,
            EdgeHideInput::default(),
            |_, _| EdgeHideLiveState::Visible(old_hidden_rect),
        )
        .expect("relocation command");

    let cleanup = controller
        .command_succeeded(
            relocation,
            EdgeHideLiveState::Visible(actual_rect),
            START,
        )
        .expect("unexpected relocation geometry should be cleaned up");
    assert_eq!(
        cleanup,
        EdgeHideCommand::Restore {
            handle: WindowHandle(42),
            rect: actual_rect,
            topmost: false,
        }
    );
    assert!(matches!(
        controller.state_of(WindowHandle(42)).as_ref(),
        Some(EdgeHideState::CleaningUp { .. })
    ));
    assert!(controller
        .collapsed_strips_with_live_state(&[monitor()], |_, _| {
            EdgeHideLiveState::Visible(actual_rect)
        })
        .is_empty());

    controller.command_succeeded(
        cleanup,
        EdgeHideLiveState::Visible(actual_rect),
        START,
    );

    assert!(!controller.state_of(WindowHandle(42)).is_some());
}

#[test]
fn failed_monitor_relocation_rolls_back_and_can_retry() {
    let config = EdgeHideConfig {
        enabled: true,
        ..EdgeHideConfig::default()
    };
    let old_hidden_rect = Rect {
        left: -2504,
        top: 120,
        right: -1904,
        bottom: 700,
    };
    let mut controller = collapsed_controller_on_removed_left_monitor();
    let relocation = controller
        .tick_with_live_state(
            START,
            &config,
            Point { x: 1, y: 300 },
            &[monitor()],
            None,
            EdgeHideInput::default(),
            |_, _| EdgeHideLiveState::Visible(old_hidden_rect),
        )
        .expect("first relocation attempt");

    let failed_at = START;
    controller.command_failed(relocation, failed_at);

    assert!(matches!(
        controller.state_of(WindowHandle(42)).as_ref(),
        Some(EdgeHideState::Collapsed { hidden_rect, .. }) if *hidden_rect == old_hidden_rect
    ));
    assert!(matches!(
        controller.tick_with_live_state(
            failed_at + RELOCATION_RETRY_DELAY_MS,
            &config,
            Point { x: 1, y: 300 },
            &[monitor()],
            None,
            EdgeHideInput::default(),
            |_, _| EdgeHideLiveState::Visible(old_hidden_rect),
        ),
        Some(EdgeHideCommand::Collapse { .. })
    ));
}

#[test]
fn failed_monitor_relocation_does_not_block_other_restore_hotzones() {
    let config = EdgeHideConfig {
        enabled: true,
        ..EdgeHideConfig::default()
    };
    let old_hidden_rect = Rect {
        left: -2504,
        top: 120,
        right: -1904,
        bottom: 700,
    };
    let other_hidden_rect = Rect {
        left: -584,
        top: 720,
        right: 16,
        bottom: 1000,
    };
    let mut controller = collapsed_controller_on_removed_left_monitor();
    controller.set_state(
        WindowHandle(43),
        EdgeHideState::Collapsed {
            edge: Edge::Left,
            restore_rect: Rect {
                left: 0,
                top: 720,
                right: 600,
                bottom: 1000,
            },
            hidden_rect: other_hidden_rect,
            original_topmost: false,
            was_foreground: false,
        },
    );
    let started_at = START;
    let relocation = controller
        .tick_with_live_state(
            started_at,
            &config,
            Point { x: 1000, y: 900 },
            &[monitor()],
            None,
            EdgeHideInput::default(),
            |handle, _| {
                EdgeHideLiveState::Visible(if handle == WindowHandle(42) {
                    old_hidden_rect
                } else {
                    other_hidden_rect
                })
            },
        )
        .expect("first window relocation");
    controller.command_failed(relocation, started_at);

    assert_eq!(
        controller.tick_with_live_state(
            started_at + 1,
            &config,
            Point { x: 1, y: 800 },
            &[monitor()],
            None,
            EdgeHideInput::default(),
            |handle, _| {
                EdgeHideLiveState::Visible(if handle == WindowHandle(42) {
                    old_hidden_rect
                } else {
                    other_hidden_rect
                })
            },
        ),
        Some(EdgeHideCommand::Restore {
            handle: WindowHandle(43),
            rect: Rect {
                left: 0,
                top: 720,
                right: 600,
                bottom: 1000,
            },
            topmost: false,
        })
    );
}

#[test]
fn transient_popup_interrupts_the_parent_window_collapse_delay() {
    let mut config = EdgeHideConfig::default();
    config.enabled = true;
    config.collapse_delay_ms = 100;
    let mut controller = EdgeHideController::new();
    let start = START;
    let parent = window(Rect {
        left: 0,
        top: 120,
        right: 600,
        bottom: 700,
    });
    let mut popup = window_with_handle(
        WindowHandle(43),
        Rect {
            left: 0,
            top: 700,
            right: 360,
            bottom: 1000,
        },
    );
    popup.transient = true;

    assert_eq!(
        controller.tick(
            start,
            &config,
            Point { x: 20, y: 200 },
            &[monitor()],
            Some(&parent),
        ),
        None
    );
    assert_eq!(
        controller.tick(
            start + 50,
            &config,
            Point { x: 20, y: 800 },
            &[monitor()],
            Some(&popup),
        ),
        None
    );
    assert_eq!(
        controller.tick(
            start + 200,
            &config,
            Point { x: 20, y: 200 },
            &[monitor()],
            Some(&parent),
        ),
        None
    );
}

#[test]
fn windows_snap_arranged_windows_are_never_edge_hide_candidates() {
    let config = EdgeHideConfig::default();
    let mut snapped = window(Rect {
        left: 0,
        top: 0,
        right: 960,
        bottom: 1040,
    });
    snapped.arranged = true;

    assert!(!is_candidate_window(&snapped, &config));
}

#[test]
fn in_window_context_menu_suspends_collapse_until_dismissed() {
    let mut config = EdgeHideConfig::default();
    config.enabled = true;
    config.collapse_delay_ms = 100;
    let mut controller = EdgeHideController::new();
    let start = START;
    let edge_window = window(Rect {
        left: 0,
        top: 120,
        right: 600,
        bottom: 700,
    });

    assert_eq!(
        controller.tick_with_input(
            start,
            &config,
            Point { x: 20, y: 200 },
            &[monitor()],
            Some(&edge_window),
            EdgeHideInput {
                right_button_pressed: true,
                ..Default::default()
            },
        ),
        None
    );
    assert_eq!(
        controller.tick_with_input(
            start + (5 * 1000),
            &config,
            Point { x: 20, y: 200 },
            &[monitor()],
            Some(&edge_window),
            EdgeHideInput::default(),
        ),
        None
    );
    assert_eq!(
        controller.tick_with_input(
            start + (5 * 1000) + 1,
            &config,
            Point { x: 20, y: 200 },
            &[monitor()],
            Some(&edge_window),
            EdgeHideInput {
                context_menu_dismissed: true,
                ..Default::default()
            },
        ),
        None
    );
    assert!(matches!(
        controller.tick_with_input(
            start + (5 * 1000) + 102,
            &config,
            Point { x: 20, y: 200 },
            &[monitor()],
            Some(&edge_window),
            EdgeHideInput::default(),
        ),
        Some(EdgeHideCommand::Collapse { .. })
    ));
}

#[test]
fn expanded_window_moved_to_another_edge_collapses_at_the_new_edge() {
    let mut config = EdgeHideConfig::default();
    config.enabled = true;
    config.edges = vec![Edge::Right, Edge::Bottom];
    config.collapse_delay_ms = 0;
    config.restore_delay_ms = 0;
    let mut controller = EdgeHideController::new();
    let start = START;
    let right_window = window(Rect {
        left: 1320,
        top: 120,
        right: 1920,
        bottom: 700,
    });

    controller.tick(
        start,
        &config,
        Point { x: 1500, y: 500 },
        &[monitor()],
        Some(&right_window),
    );
    controller.tick(
        start + 1,
        &config,
        Point { x: 1500, y: 500 },
        &[monitor()],
        Some(&right_window),
    );
    controller.tick(
        start + 2,
        &config,
        Point { x: 1910, y: 200 },
        &[monitor()],
        None,
    );

    let bottom_window = window(Rect {
        left: 600,
        top: 460,
        right: 1200,
        bottom: 1040,
    });
    assert_eq!(
        controller.tick_with_left_button_state(
            start + 3,
            &config,
            Point { x: 800, y: 1000 },
            &[monitor()],
            Some(&bottom_window),
            true,
        ),
        None
    );
    assert_eq!(
        controller.tick_with_left_button_state(
            start + 4,
            &config,
            Point { x: 800, y: 1000 },
            &[monitor()],
            Some(&bottom_window),
            false,
        ),
        None
    );
    assert_eq!(
        controller.tick(
            start + 5,
            &config,
            Point { x: 800, y: 1000 },
            &[monitor()],
            Some(&bottom_window),
        ),
        Some(EdgeHideCommand::Collapse {
            handle: WindowHandle(42),
            rect: Rect {
                left: 600,
                top: 1024,
                right: 1200,
                bottom: 1604,
            },
        })
    );
}

#[test]
fn foreground_activation_restores_and_only_rearms_after_focus_is_lost() {
    let mut config = EdgeHideConfig::default();
    config.enabled = true;
    config.edges = vec![Edge::Right];
    config.collapse_delay_ms = 0;
    config.restore_delay_ms = 50;
    let mut controller = EdgeHideController::new();
    let start = START;
    let visible = window(Rect {
        left: 1320,
        top: 120,
        right: 1920,
        bottom: 700,
    });
    controller.tick(
        start,
        &config,
        Point { x: 1500, y: 500 },
        &[monitor()],
        Some(&visible),
    );
    let collapse = controller.tick(
        start + 1,
        &config,
        Point { x: 1500, y: 500 },
        &[monitor()],
        Some(&visible),
    );
    let Some(EdgeHideCommand::Collapse { rect: hidden, .. }) = collapse else {
        panic!("window should collapse first");
    };

    let other = window_with_handle(
        WindowHandle(99),
        Rect {
            left: 200,
            top: 200,
            right: 800,
            bottom: 700,
        },
    );
    controller.tick(
        start + 2,
        &config,
        Point { x: 1000, y: 1000 },
        &[monitor()],
        Some(&other),
    );
    let collapsed_foreground = window(hidden);
    assert_eq!(
        controller.tick(
            start + 3,
            &config,
            Point { x: 1000, y: 1060 },
            &[monitor()],
            Some(&collapsed_foreground),
        ),
        Some(EdgeHideCommand::Restore {
            handle: WindowHandle(42),
            rect: visible.rect,
            topmost: false,
        })
    );

    assert_eq!(
        controller.tick(
            start + 100,
            &config,
            Point { x: 1000, y: 1060 },
            &[monitor()],
            Some(&visible),
        ),
        None
    );
    assert_eq!(
        controller.tick(
            start + 101,
            &config,
            Point { x: 1500, y: 500 },
            &[monitor()],
            Some(&visible),
        ),
        None
    );
    assert_eq!(
        controller.tick(
            start + 102,
            &config,
            Point { x: 1000, y: 1000 },
            &[monitor()],
            Some(&visible),
        ),
        None
    );
    assert_eq!(
        controller.tick(
            start + 153,
            &config,
            Point { x: 1000, y: 1000 },
            &[monitor()],
            Some(&visible),
        ),
        None
    );
    assert_eq!(
        controller.tick(
            start + 154,
            &config,
            Point { x: 1000, y: 1000 },
            &[monitor()],
            None,
        ),
        None
    );
    assert!(matches!(
        controller.tick(
            start + 205,
            &config,
            Point { x: 1000, y: 1000 },
            &[monitor()],
            None,
        ),
        Some(EdgeHideCommand::Collapse { rect, .. }) if rect == hidden
    ));
}

#[test]
fn minimized_window_focus_fallback_does_not_restore_a_collapsed_window() {
    let mut config = EdgeHideConfig::default();
    config.enabled = true;
    config.edges = vec![Edge::Right];
    config.collapse_delay_ms = 0;
    let mut controller = EdgeHideController::new();
    let start = START;
    let visible = window(Rect {
        left: 1320,
        top: 120,
        right: 1920,
        bottom: 700,
    });

    controller.tick(
        start,
        &config,
        Point { x: 1500, y: 500 },
        &[monitor()],
        Some(&visible),
    );
    let Some(EdgeHideCommand::Collapse { rect: hidden, .. }) = controller.tick(
        start + 1,
        &config,
        Point { x: 1500, y: 500 },
        &[monitor()],
        Some(&visible),
    ) else {
        panic!("window should collapse first");
    };

    let other = window_with_handle(
        WindowHandle(99),
        Rect {
            left: 200,
            top: 200,
            right: 800,
            bottom: 700,
        },
    );
    controller.tick(
        start + 2,
        &config,
        Point { x: 1000, y: 1000 },
        &[monitor()],
        Some(&other),
    );

    let collapsed_foreground = window(hidden);
    assert_eq!(
        controller.tick_with_input(
            start + 3,
            &config,
            Point { x: 1000, y: 1000 },
            &[monitor()],
            Some(&collapsed_foreground),
            EdgeHideInput {
                suppress_foreground_restore: true,
                ..Default::default()
            },
        ),
        None
    );
    assert_eq!(
        controller
            .collapsed_strips_with_live_state(&[monitor()], |_, hidden| {
                EdgeHideLiveState::Visible(hidden)
            })
            .len(),
        1
    );

    assert_eq!(
        controller.tick(
            start + 4,
            &config,
            Point { x: 1000, y: 1000 },
            &[monitor()],
            Some(&collapsed_foreground),
        ),
        None
    );
    assert_eq!(
        controller.tick(
            start + 5,
            &config,
            Point { x: 1918, y: 200 },
            &[monitor()],
            Some(&collapsed_foreground),
        ),
        Some(EdgeHideCommand::Restore {
            handle: WindowHandle(42),
            rect: visible.rect,
            topmost: false,
        })
    );
}

#[test]
fn restoring_a_collapsed_window_preserves_its_original_topmost_state() {
    let mut config = EdgeHideConfig::default();
    config.enabled = true;
    config.edges = vec![Edge::Right];
    config.collapse_delay_ms = 0;
    let mut controller = EdgeHideController::new();
    let start = START;
    let mut visible = window(Rect {
        left: 1320,
        top: 120,
        right: 1920,
        bottom: 700,
    });
    visible.topmost = true;

    controller.tick(
        start,
        &config,
        Point { x: 1500, y: 500 },
        &[monitor()],
        Some(&visible),
    );
    assert!(matches!(
        controller.tick(
            start + 1,
            &config,
            Point { x: 1500, y: 500 },
            &[monitor()],
            Some(&visible),
        ),
        Some(EdgeHideCommand::Collapse { .. })
    ));
    assert_eq!(
        controller.tick(
            start + 2,
            &config,
            Point { x: 1910, y: 200 },
            &[monitor()],
            None,
        ),
        Some(EdgeHideCommand::Restore {
            handle: WindowHandle(42),
            rect: visible.rect,
            topmost: true,
        })
    );
}

#[test]
fn failed_collapse_keeps_cleanup_state_until_restore_succeeds() {
    let config = EdgeHideConfig {
        enabled: true,
        collapse_delay_ms: 0,
        ..EdgeHideConfig::default()
    };
    let mut controller = EdgeHideController::new();
    let visible = window(Rect {
        left: 0,
        top: 120,
        right: 600,
        bottom: 700,
    });
    let start = START;

    assert_eq!(
        controller.tick(
            start,
            &config,
            Point { x: 300, y: 300 },
            &[monitor()],
            Some(&visible),
        ),
        None
    );
    let command = controller
        .tick(
            start + 1,
            &config,
            Point { x: 300, y: 300 },
            &[monitor()],
            Some(&visible),
        )
        .expect("collapse command");
    assert!(controller
        .collapsed_strips_with_live_state(&[monitor()], |_, hidden| {
            EdgeHideLiveState::Visible(hidden)
        })
        .is_empty());

    let failed_at = start + 2;
    controller.command_failed(command, failed_at);

    assert!(controller
        .collapsed_strips_with_live_state(&[monitor()], |_, hidden| {
            EdgeHideLiveState::Visible(hidden)
        })
        .is_empty());
    assert!(matches!(
        controller.state_of(visible.handle).as_ref(),
        Some(EdgeHideState::CleaningUp { .. })
    ));
    assert_eq!(
        controller.tick_with_live_state(
            failed_at + RELOCATION_RETRY_DELAY_MS - 1,
            &config,
            Point { x: 300, y: 300 },
            &[monitor()],
            None,
            EdgeHideInput::default(),
            |_, _| EdgeHideLiveState::Visible(visible.rect),
        ),
        None
    );
    let cleanup = controller
        .tick_with_live_state(
            failed_at + RELOCATION_RETRY_DELAY_MS,
            &config,
            Point { x: 300, y: 300 },
            &[monitor()],
            None,
            EdgeHideInput::default(),
            |_, _| EdgeHideLiveState::Visible(visible.rect),
        )
        .expect("cleanup restore should retry");
    assert_eq!(
        cleanup,
        EdgeHideCommand::Restore {
            handle: visible.handle,
            rect: visible.rect,
            topmost: false,
        }
    );

    controller.command_succeeded(
        cleanup,
        EdgeHideLiveState::Visible(visible.rect),
        failed_at + RELOCATION_RETRY_DELAY_MS,
    );

    assert!(!controller.state_of(visible.handle).is_some());
}

#[test]
fn successful_collapse_is_cleaned_up_when_live_geometry_did_not_move() {
    let config = EdgeHideConfig {
        enabled: true,
        collapse_delay_ms: 0,
        ..EdgeHideConfig::default()
    };
    let mut controller = EdgeHideController::new();
    let visible = window(Rect {
        left: 0,
        top: 120,
        right: 600,
        bottom: 700,
    });
    let start = START;
    controller.tick(
        start,
        &config,
        Point { x: 300, y: 300 },
        &[monitor()],
        Some(&visible),
    );
    let command = controller
        .tick(
            start + 1,
            &config,
            Point { x: 300, y: 300 },
            &[monitor()],
            Some(&visible),
        )
        .expect("collapse command");

    let cleanup = controller
        .command_succeeded(
            command,
            EdgeHideLiveState::Visible(visible.rect),
            start + 1,
        )
        .expect("mismatched geometry should be restored");
    assert_eq!(
        cleanup,
        EdgeHideCommand::Restore {
            handle: visible.handle,
            rect: visible.rect,
            topmost: false,
        }
    );
    assert!(matches!(
        controller.state_of(visible.handle).as_ref(),
        Some(EdgeHideState::CleaningUp { .. })
    ));
    assert!(controller
        .collapsed_strips_with_live_state(&[monitor()], |_, hidden| {
            EdgeHideLiveState::Visible(hidden)
        })
        .is_empty());

    let failed_at = start + 2;
    controller.command_failed(cleanup, failed_at);
    let retry = controller
        .tick_with_live_state(
            failed_at + RELOCATION_RETRY_DELAY_MS,
            &config,
            Point { x: 300, y: 300 },
            &[monitor()],
            None,
            EdgeHideInput::default(),
            |_, _| EdgeHideLiveState::Visible(visible.rect),
        )
        .expect("failed cleanup should retry");
    assert_eq!(retry, cleanup);
    controller.command_succeeded(
        retry,
        EdgeHideLiveState::Visible(visible.rect),
        failed_at + RELOCATION_RETRY_DELAY_MS,
    );

    assert!(!controller.state_of(visible.handle).is_some());
}

#[test]
fn unavailable_collapse_never_exposes_hint_and_cleans_up_after_query_recovers() {
    let config = EdgeHideConfig {
        enabled: true,
        collapse_delay_ms: 0,
        ..EdgeHideConfig::default()
    };
    let mut controller = EdgeHideController::new();
    let visible = window(Rect {
        left: 0,
        top: 120,
        right: 600,
        bottom: 700,
    });
    let start = START;
    controller.tick(
        start,
        &config,
        Point { x: 300, y: 300 },
        &[monitor()],
        Some(&visible),
    );
    let command = controller
        .tick(
            start + 1,
            &config,
            Point { x: 300, y: 300 },
            &[monitor()],
            Some(&visible),
        )
        .expect("collapse command");

    assert_eq!(
        controller.command_succeeded(
            command,
            EdgeHideLiveState::Unavailable,
            start + 1,
        ),
        None
    );
    assert!(matches!(
        controller.state_of(visible.handle).as_ref(),
        Some(EdgeHideState::Collapsing { .. })
    ));
    assert!(controller
        .collapsed_strips_with_live_state(&[monitor()], |_, hidden| {
            EdgeHideLiveState::Visible(hidden)
        })
        .is_empty());

    let cleanup = controller
        .tick_with_live_state(
            start + 2,
            &config,
            Point { x: 300, y: 300 },
            &[monitor()],
            None,
            EdgeHideInput::default(),
            |_, _| EdgeHideLiveState::Visible(visible.rect),
        )
        .expect("recovered query should clean up the mismatched window");
    assert_eq!(
        cleanup,
        EdgeHideCommand::Restore {
            handle: visible.handle,
            rect: visible.rect,
            topmost: false,
        }
    );
    assert!(matches!(
        controller.state_of(visible.handle).as_ref(),
        Some(EdgeHideState::CleaningUp { .. })
    ));
    assert!(controller
        .collapsed_strips_with_live_state(&[monitor()], |_, hidden| {
            EdgeHideLiveState::Visible(hidden)
        })
        .is_empty());

    controller.command_succeeded(
        cleanup,
        EdgeHideLiveState::Visible(visible.rect),
        start + 2,
    );

    assert!(!controller.state_of(visible.handle).is_some());
}

#[test]
fn failed_restore_returns_to_the_collapsed_state() {
    let config = EdgeHideConfig {
        enabled: true,
        collapse_delay_ms: 0,
        ..EdgeHideConfig::default()
    };
    let mut controller = EdgeHideController::new();
    let visible = window(Rect {
        left: 0,
        top: 120,
        right: 600,
        bottom: 700,
    });
    let start = START;
    controller.tick(
        start,
        &config,
        Point { x: 300, y: 300 },
        &[monitor()],
        Some(&visible),
    );
    controller.tick(
        start + 1,
        &config,
        Point { x: 300, y: 300 },
        &[monitor()],
        Some(&visible),
    );
    let command = controller
        .tick(
            start + 2,
            &config,
            Point { x: 1, y: 300 },
            &[monitor()],
            None,
        )
        .expect("restore command");

    let failed_at = start + 3;
    controller.command_failed(command, failed_at);

    assert!(matches!(
        controller.state_of(visible.handle).as_ref(),
        Some(EdgeHideState::Expanding { .. })
    ));
    assert_eq!(
        controller
            .collapsed_strips_with_live_state(&[monitor()], |_, hidden| {
                EdgeHideLiveState::Visible(hidden)
            })
            .len(),
        0
    );
    controller.tick_with_live_state(
        failed_at + RELOCATION_RETRY_DELAY_MS,
        &config,
        Point { x: 500, y: 500 },
        &[monitor()],
        None,
        EdgeHideInput::default(),
        |_, _| {
            EdgeHideLiveState::Visible(Rect {
                left: -584,
                top: 120,
                right: 16,
                bottom: 700,
            })
        },
    );
    assert_eq!(
        controller
            .collapsed_strips_with_live_state(&[monitor()], |_, hidden| {
                EdgeHideLiveState::Visible(hidden)
            })
            .len(),
        1
    );
}

#[test]
fn restore_success_requires_live_geometry_before_expanding() {
    let config = EdgeHideConfig {
        enabled: true,
        ..EdgeHideConfig::default()
    };
    let visible_rect = Rect {
        left: 0,
        top: 120,
        right: 600,
        bottom: 700,
    };
    let hidden_rect = Rect {
        left: -584,
        top: 120,
        right: 16,
        bottom: 700,
    };
    let mut controller = EdgeHideController::new();
    controller.set_state(
        WindowHandle(42),
        EdgeHideState::Collapsed {
            edge: Edge::Left,
            restore_rect: visible_rect,
            hidden_rect,
            original_topmost: false,
            was_foreground: false,
        },
    );
    let start = START;
    let command = controller
        .tick_with_live_state(
            start,
            &config,
            Point { x: 1, y: 300 },
            &[monitor()],
            None,
            EdgeHideInput::default(),
            |_, _| EdgeHideLiveState::Visible(hidden_rect),
        )
        .expect("restore command");
    assert_eq!(
        command,
        EdgeHideCommand::Restore {
            handle: WindowHandle(42),
            rect: visible_rect,
            topmost: false,
        }
    );
    assert!(matches!(
        controller.state_of(WindowHandle(42)).as_ref(),
        Some(EdgeHideState::Expanding { .. })
    ));

    controller.command_succeeded(command, EdgeHideLiveState::Visible(hidden_rect), start);
    assert!(matches!(
        controller.state_of(WindowHandle(42)).as_ref(),
        Some(EdgeHideState::Collapsed { .. })
    ));
    assert_eq!(
        controller
            .collapsed_strips_with_live_state(&[monitor()], |_, _| {
                EdgeHideLiveState::Visible(hidden_rect)
            })
            .len(),
        1
    );

    let command = controller
        .tick_with_live_state(
            start + 1,
            &config,
            Point { x: 1, y: 300 },
            &[monitor()],
            None,
            EdgeHideInput::default(),
            |_, _| EdgeHideLiveState::Visible(hidden_rect),
        )
        .expect("second restore command");
    controller.command_succeeded(command, EdgeHideLiveState::Unavailable, start);
    assert!(matches!(
        controller.state_of(WindowHandle(42)).as_ref(),
        Some(EdgeHideState::Expanding { .. })
    ));
    assert!(controller
        .collapsed_strips_with_live_state(&[monitor()], |_, _| {
            EdgeHideLiveState::Visible(hidden_rect)
        })
        .is_empty());

    controller.tick_with_live_state(
        start + RELOCATION_RETRY_DELAY_MS,
        &config,
        Point { x: 500, y: 500 },
        &[monitor()],
        None,
        EdgeHideInput::default(),
        |_, _| EdgeHideLiveState::Visible(visible_rect),
    );
    assert!(matches!(
        controller.state_of(WindowHandle(42)).as_ref(),
        Some(EdgeHideState::Expanded { .. })
    ));
}

#[test]
fn failed_batch_restore_keeps_state_for_a_later_retry() {
    let mut controller = EdgeHideController::new();
    let restore_rect = Rect {
        left: 0,
        top: 120,
        right: 600,
        bottom: 700,
    };
    controller.set_state(
        WindowHandle(42),
        EdgeHideState::Collapsed {
            edge: Edge::Left,
            restore_rect,
            hidden_rect: Rect {
                left: -584,
                top: 120,
                right: 16,
                bottom: 700,
            },
            original_topmost: true,
            was_foreground: false,
        },
    );

    controller.prepare_restore_all(&[monitor()], 16);
    let command = controller.restore_if_needed().expect("batch restore");
    assert_eq!(
        command,
        EdgeHideCommand::Restore {
            handle: WindowHandle(42),
            rect: restore_rect,
            topmost: true,
        }
    );
    assert!((controller.tracked_count() == 0));

    let failed_at = START;
    controller.command_failed(command, failed_at);
    assert!(matches!(
        controller.state_of(WindowHandle(42)).as_ref(),
        Some(EdgeHideState::CleaningUp { .. })
    ));
    let retry = controller.restore_if_needed().expect("batch restore retry");
    assert_eq!(retry, command);
    controller.command_succeeded(
        retry,
        EdgeHideLiveState::Visible(restore_rect),
        failed_at + RELOCATION_RETRY_DELAY_MS,
    );
    assert!((controller.tracked_count() == 0));
}

#[test]
fn invalid_window_handles_are_pruned_with_their_hints() {
    let mut controller = EdgeHideController::new();
    controller.set_state(
        WindowHandle(42),
        EdgeHideState::Collapsed {
            edge: Edge::Left,
            restore_rect: Rect {
                left: 0,
                top: 120,
                right: 600,
                bottom: 700,
            },
            hidden_rect: Rect {
                left: -584,
                top: 120,
                right: 16,
                bottom: 700,
            },
            original_topmost: false,
            was_foreground: false,
        },
    );

    controller.prune_invalid_windows(|_| false);

    assert!((controller.tracked_count() == 0));
    assert!(controller
        .collapsed_strips_with_live_state(&[monitor()], |_, hidden| {
            EdgeHideLiveState::Visible(hidden)
        })
        .is_empty());
}

#[test]
fn disabled_restore_reclamps_collapsed_window_to_current_work_area() {
    let mut controller = EdgeHideController::new();
    controller.set_state(
        WindowHandle(42),
        EdgeHideState::Collapsed {
            edge: Edge::Left,
            restore_rect: Rect {
                left: -1920,
                top: 120,
                right: -1320,
                bottom: 700,
            },
            hidden_rect: Rect {
                left: -2504,
                top: 120,
                right: -1904,
                bottom: 700,
            },
            original_topmost: false,
            was_foreground: false,
        },
    );

    controller.prepare_restore_all(&[monitor()], 16);

    assert_eq!(
        controller.restore_if_needed(),
        Some(EdgeHideCommand::Restore {
            handle: WindowHandle(42),
            rect: Rect {
                left: 0,
                top: 120,
                right: 600,
                bottom: 700,
            },
            topmost: false,
        })
    );
}

#[test]
fn foreground_expanded_window_does_not_recollapse_while_in_use() {
    let config = EdgeHideConfig {
        enabled: true,
        collapse_delay_ms: 0,
        restore_delay_ms: 10,
        ..EdgeHideConfig::default()
    };
    let mut controller = EdgeHideController::new();
    let visible = window(Rect {
        left: 0,
        top: 120,
        right: 600,
        bottom: 700,
    });
    let start = START;
    controller.tick(
        start,
        &config,
        Point { x: 300, y: 300 },
        &[monitor()],
        Some(&visible),
    );
    controller.tick(
        start + 1,
        &config,
        Point { x: 300, y: 300 },
        &[monitor()],
        Some(&visible),
    );
    controller.tick(
        start + 2,
        &config,
        Point { x: 1, y: 300 },
        &[monitor()],
        None,
    );

    assert_eq!(
        controller.tick(
            start + 30,
            &config,
            Point { x: 1200, y: 900 },
            &[monitor()],
            Some(&visible),
        ),
        None
    );
    assert!(matches!(
        controller.state_of(visible.handle).as_ref(),
        Some(EdgeHideState::Expanded {
            leave_since: None,
            ..
        })
    ));
}

#[test]
fn foreground_expanded_window_recollapses_when_hold_is_disabled() {
    let config = EdgeHideConfig {
        enabled: true,
        keep_expanded_when_foreground: false,
        collapse_delay_ms: 0,
        restore_delay_ms: 10,
        ..EdgeHideConfig::default()
    };
    let mut controller = EdgeHideController::new();
    let visible = window(Rect {
        left: 0,
        top: 120,
        right: 600,
        bottom: 700,
    });
    let start = START;
    controller.tick(
        start,
        &config,
        Point { x: 300, y: 300 },
        &[monitor()],
        Some(&visible),
    );
    let Some(EdgeHideCommand::Collapse { rect: hidden, .. }) = controller.tick(
        start + 1,
        &config,
        Point { x: 300, y: 300 },
        &[monitor()],
        Some(&visible),
    ) else {
        panic!("window should collapse first");
    };
    assert!(matches!(
        controller.tick(
            start + 2,
            &config,
            Point { x: 1, y: 300 },
            &[monitor()],
            None,
        ),
        Some(EdgeHideCommand::Restore { .. })
    ));

    assert_eq!(
        controller.tick(
            start + 3,
            &config,
            Point { x: 1200, y: 900 },
            &[monitor()],
            Some(&visible),
        ),
        None
    );
    assert_eq!(
        controller.tick(
            start + 14,
            &config,
            Point { x: 1200, y: 900 },
            &[monitor()],
            Some(&visible),
        ),
        Some(EdgeHideCommand::Collapse {
            handle: visible.handle,
            rect: hidden,
        })
    );
}

#[test]
fn expanded_window_adopts_an_explicit_topmost_change() {
    let config = EdgeHideConfig {
        enabled: true,
        ..EdgeHideConfig::default()
    };
    let mut controller = EdgeHideController::new();
    let mut visible = window(Rect {
        left: 200,
        top: 120,
        right: 800,
        bottom: 700,
    });
    visible.topmost = true;
    controller.set_state(
        visible.handle,
        EdgeHideState::Expanded {
            edge: Edge::Left,
            restore_rect: visible.rect,
            hidden_rect: Rect {
                left: -584,
                top: 120,
                right: 16,
                bottom: 700,
            },
            original_topmost: false,
            pointer_entered: true,
            leave_since: None,
        },
    );

    assert_eq!(
        controller.tick(
            START,
            &config,
            Point { x: 400, y: 300 },
            &[monitor()],
            Some(&visible),
        ),
        None
    );
    assert_eq!(
        controller.restore_if_needed(),
        Some(EdgeHideCommand::Restore {
            handle: visible.handle,
            rect: visible.rect,
            topmost: true,
        })
    );
}