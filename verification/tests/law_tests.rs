use convenient_window::config::{Edge, EdgeHideConfig, HotzoneId};
use convenient_window::edge_hide::EdgeHideController;
use convenient_window::edge_hide_geometry::{hidden_rect_for, restore_rect_for, strip_rect};
use convenient_window::edge_hide_model::{EdgeHideCommand, EdgeHideLiveState, EdgeHideState};
use convenient_window::geometry::{Monitor, Point, Rect, WindowHandle};
use convenient_window::hotzone::{detect_hotzone, hotzone_rect};
use convenient_window::window_drag::{moved_rect, resized_rect, DragSession, WindowDragMode};

fn rect(left: i32, top: i32, right: i32, bottom: i32) -> Rect {
    Rect { left, top, right, bottom }
}

#[test]
fn shutdown_restores_every_moved_window_once() {
    let mut controller = EdgeHideController::new();
    controller.set_state(
        WindowHandle(1),
        EdgeHideState::Collapsed {
            edge: Edge::Left,
            restore_rect: rect(0, 100, 600, 700),
            hidden_rect: rect(-592, 100, 8, 700),
            original_topmost: false,
            was_foreground: false,
        },
    );
    controller.set_state(
        WindowHandle(2),
        EdgeHideState::Pending {
            edge: Edge::Top,
            observed_rect: rect(200, 0, 800, 500),
            restore_rect: rect(200, 0, 800, 500),
            original_topmost: false,
            since: 5,
        },
    );
    controller.set_state(
        WindowHandle(3),
        EdgeHideState::CleaningUp { rect: rect(10, 10, 400, 300), original_topmost: true },
    );
    assert!(controller.has_restore_work());
    let mut commands = Vec::new();
    while let Some(command) = controller.restore_if_needed() {
        commands.push(command);
    }
    assert_eq!(
        commands,
        vec![
            EdgeHideCommand::Restore { handle: WindowHandle(1), rect: rect(0, 100, 600, 700), topmost: false },
            EdgeHideCommand::Restore { handle: WindowHandle(3), rect: rect(10, 10, 400, 300), topmost: true },
        ]
    );
    assert!(!controller.has_restore_work());
    assert_eq!(controller.tracked_count(), 0);
}

#[test]
fn pruning_keeps_exactly_the_living_windows() {
    let mut controller = EdgeHideController::new();
    for handle in [WindowHandle(1), WindowHandle(2), WindowHandle(3)] {
        controller.set_state(
            handle,
            EdgeHideState::CleaningUp { rect: rect(0, 0, 300, 200), original_topmost: false },
        );
    }
    controller.prune_invalid_windows(|handle| handle != WindowHandle(2));
    assert!(controller.state_of(WindowHandle(1)).is_some());
    assert!(controller.state_of(WindowHandle(2)).is_none());
    assert!(controller.state_of(WindowHandle(3)).is_some());
    assert_eq!(controller.tracked_count(), 2);
}

#[test]
fn recording_a_window_twice_keeps_one_entry() {
    let mut controller = EdgeHideController::new();
    let first = EdgeHideState::CleaningUp { rect: rect(0, 0, 300, 200), original_topmost: false };
    let second = EdgeHideState::CleaningUp { rect: rect(5, 5, 305, 205), original_topmost: true };
    controller.set_state(WindowHandle(9), first);
    controller.set_state(WindowHandle(9), second);
    assert_eq!(controller.tracked_count(), 1);
    assert_eq!(controller.state_of(WindowHandle(9)), Some(second));
}

#[test]
fn resizing_never_goes_below_the_minimum_surface() {
    let session = DragSession {
        sequence: 3,
        mode: WindowDragMode::Resize,
        handle: WindowHandle(4),
        start_cursor: Point { x: 120, y: 90 },
        original_rect: rect(100, 80, 700, 580),
    };
    for x in (-2000..2000).step_by(97) {
        for y in (-2000..2000).step_by(89) {
            let r = resized_rect(session, Point { x, y });
            assert!(r.right - r.left >= 160);
            assert!(r.bottom - r.top >= 100);
            assert_eq!((r.right, r.bottom), (700, 580));
            let m = moved_rect(session, Point { x, y });
            assert_eq!((m.right - m.left, m.bottom - m.top), (600, 500));
        }
    }
}

#[test]
fn hot_zones_stay_on_their_display() {
    let bounds = rect(-1920, 0, 0, 1080);
    for id in HotzoneId::all() {
        let zone = hotzone_rect(id, bounds, 12);
        assert!(bounds.left <= zone.left && zone.left <= zone.right && zone.right <= bounds.right);
        assert!(bounds.top <= zone.top && zone.top <= zone.bottom && zone.bottom <= bounds.bottom);
    }
}

#[test]
fn restored_window_fits_the_work_area_and_keeps_its_size() {
    let work = rect(0, 0, 1920, 1040);
    let restored = restore_rect_for(rect(-100, 50, 700, 650), work);
    assert_eq!(restored, rect(0, 50, 800, 650));
    let inside = rect(300, 200, 900, 700);
    assert_eq!(restore_rect_for(inside, work), inside);
    let too_tall = restore_rect_for(rect(10, -20, 410, 1200), work);
    assert_eq!(too_tall, rect(10, 0, 410, 1040));
}

#[test]
fn hidden_window_leaves_exactly_the_strip_visible() {
    let work = rect(0, 0, 1920, 1040);
    let restore = rect(0, 50, 800, 650);
    let hidden = hidden_rect_for(restore, work, Edge::Left, 6);
    assert_eq!(hidden, rect(-794, 50, 6, 650));
    assert_eq!(strip_rect(hidden, work), rect(0, 50, 6, 650));
    let right = hidden_rect_for(restore, work, Edge::Right, 1);
    assert_eq!(right, rect(1916, 50, 2716, 650));
    assert_eq!(strip_rect(right, work), rect(1916, 50, 1920, 650));
}

fn collapsed_on_left(restore: Rect, hidden: Rect) -> EdgeHideState {
    EdgeHideState::Collapsed {
        edge: Edge::Left,
        restore_rect: restore,
        hidden_rect: hidden,
        original_topmost: false,
        was_foreground: false,
    }
}

#[test]
fn stale_collapse_acknowledgement_changes_nothing() {
    let mut controller = EdgeHideController::new();
    let state = collapsed_on_left(rect(0, 100, 600, 700), rect(-592, 100, 8, 700));
    controller.set_state(WindowHandle(1), state);
    let reply = controller.command_succeeded(
        EdgeHideCommand::Collapse { handle: WindowHandle(1), rect: rect(-592, 100, 8, 700) },
        EdgeHideLiveState::Visible(rect(300, 300, 900, 900)),
        1_000,
    );
    assert_eq!(reply, None);
    assert_eq!(controller.state_of(WindowHandle(1)), Some(state));
    assert_eq!(controller.tracked_count(), 1);
    let untracked = controller.command_succeeded(
        EdgeHideCommand::Collapse { handle: WindowHandle(9), rect: rect(-592, 100, 8, 700) },
        EdgeHideLiveState::Unavailable,
        1_000,
    );
    assert_eq!(untracked, None);
    assert_eq!(controller.state_of(WindowHandle(9)), None);
    assert_eq!(controller.tracked_count(), 1);
}

#[test]
fn restore_acknowledgement_touches_only_its_window() {
    let mut controller = EdgeHideController::new();
    let other = collapsed_on_left(rect(0, 0, 500, 500), rect(-492, 0, 8, 500));
    controller.set_state(WindowHandle(1), collapsed_on_left(rect(0, 100, 600, 700), rect(-592, 100, 8, 700)));
    controller.set_state(WindowHandle(2), other);
    let reply = controller.command_succeeded(
        EdgeHideCommand::Restore { handle: WindowHandle(1), rect: rect(0, 100, 600, 700), topmost: false },
        EdgeHideLiveState::Visible(rect(0, 100, 600, 700)),
        2_000,
    );
    assert_eq!(reply, None);
    assert_eq!(controller.state_of(WindowHandle(2)), Some(other));
}

#[test]
fn preparing_a_restore_refits_windows_to_the_remaining_display() {
    let display = Monitor {
        bounds: rect(0, 0, 1920, 1080),
        work_area: rect(0, 0, 1920, 1040),
        primary: true,
    };
    let mut controller = EdgeHideController::new();
    // Restore rect lies on a display that is gone (left of the remaining one).
    controller.set_state(WindowHandle(1), collapsed_on_left(rect(-1500, 100, -900, 700), rect(-2092, 100, -1492, 700)));
    let cleaning = EdgeHideState::CleaningUp { rect: rect(-1500, 0, -1000, 400), original_topmost: true };
    controller.set_state(WindowHandle(2), cleaning);
    controller.prepare_restore_all(&[display], 8);
    let restore = restore_rect_for(rect(-1500, 100, -900, 700), display.work_area);
    assert_eq!(restore, rect(0, 100, 600, 700));
    match controller.state_of(WindowHandle(1)) {
        Some(EdgeHideState::Collapsed { edge, restore_rect, hidden_rect, .. }) => {
            assert_eq!(edge, Edge::Left);
            assert_eq!(restore_rect, restore);
            assert_eq!(hidden_rect, hidden_rect_for(restore, display.work_area, Edge::Left, 8));
        }
        other => panic!("unexpected state {:?}", other),
    }
    assert_eq!(controller.state_of(WindowHandle(2)), Some(cleaning));
    // With no displays nothing is moved.
    let mut untouched = EdgeHideController::new();
    let state = collapsed_on_left(rect(0, 100, 600, 700), rect(-592, 100, 8, 700));
    untouched.set_state(WindowHandle(1), state);
    untouched.prepare_restore_all(&[], 8);
    assert_eq!(untouched.state_of(WindowHandle(1)), Some(state));
}

#[test]
fn a_queued_command_goes_out_before_anything_else_in_a_tick() {
    let display = Monitor {
        bounds: rect(0, 0, 1920, 1080),
        work_area: rect(0, 0, 1920, 1040),
        primary: true,
    };
    let mut controller = EdgeHideController::new();
    controller.set_state(WindowHandle(1), collapsed_on_left(rect(0, 100, 600, 700), rect(-592, 100, 8, 700)));
    controller.set_state(WindowHandle(2), collapsed_on_left(rect(0, 0, 500, 500), rect(-492, 0, 8, 500)));
    assert_eq!(
        controller.restore_if_needed(),
        Some(EdgeHideCommand::Restore { handle: WindowHandle(1), rect: rect(0, 100, 600, 700), topmost: false })
    );
    let mut config = EdgeHideConfig::default();
    config.enabled = true;
    assert_eq!(
        controller.tick(10_000, &config, Point { x: 0, y: 50 }, &[display], None),
        Some(EdgeHideCommand::Restore { handle: WindowHandle(2), rect: rect(0, 0, 500, 500), topmost: false })
    );
    assert!(!controller.has_restore_work());
}

#[test]
fn detection_takes_the_first_display_and_corners_before_edges() {
    let small = Monitor { bounds: rect(0, 0, 10, 10), work_area: rect(0, 0, 10, 10), primary: true };
    let large = Monitor { bounds: rect(0, 0, 100, 100), work_area: rect(0, 0, 100, 100), primary: false };
    // (3, 3) lies in the top-left corner, the top edge and the left edge zones.
    assert!(hotzone_rect(HotzoneId::Top, small.bounds, 8).left <= 3);
    assert_eq!(detect_hotzone(Point { x: 3, y: 3 }, &[small, large], 8), Some(HotzoneId::TopLeft));
    // (50, 2) is only on the second display, in its top edge zone.
    assert_eq!(detect_hotzone(Point { x: 50, y: 2 }, &[small, large], 8), Some(HotzoneId::Top));
    // (50, 50) is on a display but in no zone; (500, 500) is on none.
    assert_eq!(detect_hotzone(Point { x: 50, y: 50 }, &[small, large], 8), None);
    assert_eq!(detect_hotzone(Point { x: 500, y: 500 }, &[small, large], 8), None);
}
