use rsbot::curve::{build, sample};
use rsbot::geom::Point;

#[test]
fn sample_has_resolution_plus_one_points() {
    let c = build(Point { x: 10, y: 20 }, Point { x: 300, y: 400 });
    let pts = sample(&c, 50);
    assert_eq!(pts.len(), 51);
    let pts = sample(&c, 1);
    assert_eq!(pts.len(), 2);
}

#[test]
fn sample_first_is_start_last_is_end() {
    let start = Point { x: 0, y: 0 };
    let end = Point { x: 100, y: 0 };
    let c = build(start, end);
    assert_eq!(c.p0, start);
    assert_eq!(c.p3, end);
    let pts = sample(&c, 1000);
    assert_eq!(pts.len(), 1001);
    assert_eq!(pts[0], start);
    assert_eq!(pts[1000], end);
}

#[test]
fn sample_large_coordinates() {
    let start = Point { x: -999_000, y: 999_000 };
    let end = Point { x: 999_000, y: -999_000 };
    let c = build(start, end);
    let pts = sample(&c, 2000);
    assert_eq!(pts.len(), 2001);
    assert_eq!(pts[0], start);
    assert_eq!(pts[2000], end);
}

#[test]
fn degenerate_curve_samples_to_copies() {
    let p = Point { x: 5, y: 5 };
    let c = build(p, p);
    assert_eq!(c.p1, p);
    assert_eq!(c.p2, p);
    let pts = sample(&c, 7);
    assert_eq!(pts.len(), 8);
    for q in pts {
        assert_eq!(q, p);
    }
}

#[test]
fn control_points_deviation_is_bounded() {
    let start = Point { x: 0, y: 0 };
    let end = Point { x: 100, y: 0 };
    for _ in 0..20 {
        let c = build(start, end);
        assert!((c.p1.x - start.x).abs() <= 300);
        assert!((c.p1.y - start.y).abs() <= 300);
        assert!((c.p2.x - end.x).abs() <= 300);
        assert!((c.p2.y - end.y).abs() <= 300);
    }
}

#[test]
fn sample_matches_cubic_formula_exactly() {
    // Hand-built curve, resolution 2, midpoint k = 1:
    // x = (1*p0 + 3*p1 + 3*p2 + 1*p3) / 8.
    let c = rsbot::curve::MotionCurve {
        p0: Point { x: 0, y: 0 },
        p1: Point { x: 0, y: 1 },
        p2: Point { x: 100, y: 1 },
        p3: Point { x: 100, y: 1 },
    };
    let pts = sample(&c, 2);
    assert_eq!(pts.len(), 3);
    assert_eq!(pts[0], Point { x: 0, y: 0 });
    // x: (0 + 0 + 300 + 100) / 8 = 50; y: (0 + 3 + 3 + 1) / 8 rounds down to 0.
    assert_eq!(pts[1], Point { x: 50, y: 0 });
    assert_eq!(pts[2], Point { x: 100, y: 1 });
}

#[test]
fn sample_rounds_toward_negative_infinity() {
    let c = rsbot::curve::MotionCurve {
        p0: Point { x: 0, y: 0 },
        p1: Point { x: -1, y: -1 },
        p2: Point { x: -1, y: -1 },
        p3: Point { x: -1, y: -1 },
    };
    let pts = sample(&c, 2);
    // (0 - 3 - 3 - 1) / 8 = -7 / 8, floor is -1.
    assert_eq!(pts[1], Point { x: -1, y: -1 });
    assert_eq!(pts[2], Point { x: -1, y: -1 });
}
