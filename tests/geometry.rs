use card_sandbox::easing::{ease, Rate};
use card_sandbox::geometry::{floor_div, snap_point, Bounds, Point, Size, UNIT};

#[test]
fn floor_div_rounds_down() {
    assert_eq!(floor_div(7, 2), 3);
    assert_eq!(floor_div(-1, UNIT), -1);
    assert_eq!(floor_div(-1000, UNIT), -1);
    assert_eq!(floor_div(-1001, UNIT), -2);
    assert_eq!(floor_div(0, UNIT), 0);
}

#[test]
fn snap_goes_to_cell_anchor() {
    let cell = Size { w: 1000, h: 400 };
    let p = snap_point(Point { x: 2500, y: -1 }, cell);
    assert_eq!(p, Point { x: 2500, y: -200 });
    let q = snap_point(Point { x: 1999, y: 399 }, cell);
    assert_eq!(q, Point { x: 1500, y: 200 });
}

#[test]
fn snap_is_idempotent() {
    let cell = Size { w: 150_000, h: 210_000 };
    for &(x, y) in &[(0, 0), (-1, 1), (123_456, -987_654), (-150_000, 150_000), (74_999, 75_000)] {
        let once = snap_point(Point { x, y }, cell);
        let twice = snap_point(once, cell);
        assert_eq!(once, twice);
    }
}

#[test]
fn contains_is_inclusive() {
    let b = Bounds { center: Point { x: 0, y: 0 }, size: Size { w: 100, h: 50 } };
    assert!(b.contains(Point { x: 50, y: 25 }));
    assert!(b.contains(Point { x: -50, y: -25 }));
    assert!(!b.contains(Point { x: 51, y: 0 }));
    assert!(!b.contains(Point { x: 0, y: -26 }));
}

#[test]
fn ease_rounds_away_from_zero() {
    let r = Rate { num: 15, den: 100 };
    assert_eq!(ease(0, 100, r), 15);
    assert_eq!(ease(0, 1, r), 1);
    assert_eq!(ease(0, -1, r), -1);
    assert_eq!(ease(10, 0, Rate { num: 1, den: 10 }), 9);
    assert_eq!(ease(-7, -7, r), -7);
    assert_eq!(ease(0, 5, Rate { num: 10, den: 10 }), 5);
}
