use convenient_window::geometry::Point;
use convenient_window::gesture_shape::{path_bounds, rectangle_candidate, PathBounds};

fn p(x: i32, y: i32) -> Point {
    Point { x, y }
}

#[test]
fn path_bounds_reach_every_extreme() {
    let points = [p(-800, 100), p(-200, 102), p(-198, 500), p(-802, 498), p(-800, 100)];
    assert_eq!(
        path_bounds(&points),
        Some(PathBounds { min_x: -802, min_y: 100, max_x: -198, max_y: 500 })
    );
    assert_eq!(path_bounds(&[]), None);
    assert_eq!(
        path_bounds(&[p(7, -3)]),
        Some(PathBounds { min_x: 7, min_y: -3, max_x: 7, max_y: -3 })
    );
}

#[test]
fn rectangle_candidate_needs_five_points_and_forty_pixels() {
    let closed = [p(-800, 100), p(-200, 102), p(-198, 500), p(-802, 498), p(-800, 100)];
    assert_eq!(
        rectangle_candidate(&closed),
        Some(PathBounds { min_x: -802, min_y: 100, max_x: -198, max_y: 500 })
    );
    assert_eq!(rectangle_candidate(&closed[..4]), None);
    let flat = [p(0, 0), p(100, 0), p(100, 39), p(0, 39), p(0, 0)];
    assert_eq!(rectangle_candidate(&flat), None);
    let just_big_enough = [p(0, 0), p(40, 0), p(40, 40), p(0, 40), p(0, 0)];
    assert_eq!(
        rectangle_candidate(&just_big_enough),
        Some(PathBounds { min_x: 0, min_y: 0, max_x: 40, max_y: 40 })
    );
}
