use convenient_window::config::HotzoneId;
use convenient_window::geometry::{Monitor, Point, Rect};
use convenient_window::hotzone::{detect_hotzone, hotzone_rect};

fn monitor() -> Monitor {
    Monitor {
        bounds: Rect {
            left: 0,
            top: 0,
            right: 100,
            bottom: 100,
        },
        work_area: Rect {
            left: 0,
            top: 0,
            right: 100,
            bottom: 100,
        },
        primary: true,
    }
}

#[test]
fn detects_corner_before_edge() {
    assert_eq!(
        detect_hotzone(Point { x: 2, y: 2 }, &[monitor()], 8),
        Some(HotzoneId::TopLeft)
    );
}

#[test]
fn detects_edges() {
    assert_eq!(
        detect_hotzone(Point { x: 50, y: 2 }, &[monitor()], 8),
        Some(HotzoneId::Top)
    );
    assert_eq!(
        detect_hotzone(Point { x: 98, y: 50 }, &[monitor()], 8),
        Some(HotzoneId::Right)
    );
}

#[test]
fn ignores_center() {
    assert_eq!(detect_hotzone(Point { x: 50, y: 50 }, &[monitor()], 8), None);
}

#[test]
fn edge_hotzones_use_the_same_centered_forty_percent_as_the_hint() {
    assert_eq!(
        hotzone_rect(HotzoneId::Top, monitor().bounds, 8),
        Rect {
            left: 30,
            top: 0,
            right: 70,
            bottom: 8,
        }
    );
    assert_eq!(detect_hotzone(Point { x: 20, y: 2 }, &[monitor()], 8), None);
    assert_eq!(
        detect_hotzone(Point { x: 50, y: 2 }, &[monitor()], 8),
        Some(HotzoneId::Top)
    );
}

#[test]
fn forty_percent_rounds_to_the_nearest_pixel() {
    let bounds = Rect {
        left: 0,
        top: 0,
        right: 1366,
        bottom: 768,
    };
    // 1366 * 0.4 = 546.4 -> 546, centered at (1366 - 546) / 2 = 410.
    assert_eq!(
        hotzone_rect(HotzoneId::Bottom, bounds, 8),
        Rect {
            left: 410,
            top: 760,
            right: 956,
            bottom: 768,
        }
    );
    // 768 * 0.4 = 307.2 -> 307, centered at (768 - 307) / 2 = 230.
    assert_eq!(
        hotzone_rect(HotzoneId::Left, bounds, 8),
        Rect {
            left: 0,
            top: 230,
            right: 8,
            bottom: 537,
        }
    );
    // 7 * 0.4 = 2.8 -> 3.
    let narrow = Rect {
        left: 0,
        top: 0,
        right: 7,
        bottom: 7,
    };
    assert_eq!(hotzone_rect(HotzoneId::Top, narrow, 1).right - hotzone_rect(HotzoneId::Top, narrow, 1).left, 3);
}

#[test]
fn corner_thickness_is_at_least_one_pixel() {
    assert_eq!(
        hotzone_rect(HotzoneId::BottomRight, monitor().bounds, 0),
        Rect {
            left: 99,
            top: 99,
            right: 100,
            bottom: 100,
        }
    );
}

#[test]
fn a_cursor_outside_every_display_has_no_zone() {
    assert_eq!(detect_hotzone(Point { x: 150, y: 2 }, &[monitor()], 8), None);
    assert_eq!(detect_hotzone(Point { x: 2, y: 2 }, &[], 8), None);
}

#[test]
fn very_wide_displays_take_forty_percent_in_single_precision() {
    // 5242881 * 0.4 = 2097152.4, but the single-precision product is
    // 2097152.5, which rounds up.
    let bounds = Rect { left: 0, top: 0, right: 5_242_881, bottom: 1080 };
    assert_eq!(
        hotzone_rect(HotzoneId::Top, bounds, 8),
        Rect { left: 1_572_864, top: 0, right: 3_670_017, bottom: 8 }
    );
}
