use rsbot::event::DelayRange;
use rsbot::rng::draw_delay;

#[test]
fn delay_draw_stays_in_range() {
    let r = DelayRange { min_ms: 5, max_ms: 9 };
    for _ in 0..200 {
        let d = draw_delay(&r);
        assert!(5 <= d && d <= 9);
    }
}

#[test]
fn delay_draw_degenerate_range_is_exact() {
    let r = DelayRange { min_ms: 10, max_ms: 10 };
    for _ in 0..20 {
        assert_eq!(draw_delay(&r), 10);
    }
}

#[test]
fn delay_draw_from_zero() {
    let r = DelayRange { min_ms: 0, max_ms: 3 };
    for _ in 0..100 {
        assert!(draw_delay(&r) <= 3);
    }
}
