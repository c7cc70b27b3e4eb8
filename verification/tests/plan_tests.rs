use rsbot::event::{DelayRange, Event, KeySpec};
use rsbot::geom::Point;
use rsbot::plan::{plan_event, plan_hook, Modifier, Primitive};

fn key_event(c: char, count: u32, min: u32, max: u32) -> Event {
    Event::KeyPress {
        id: "k".to_string(),
        key: KeySpec::Character(c),
        delay: DelayRange { min_ms: min, max_ms: max },
        count,
    }
}

#[test]
fn key_plan_presses_exactly_count_times_before_trailing_delay() {
    let e = key_event('x', 3, 7, 7);
    let (plan, post) = plan_event(&e, Point { x: 4, y: 5 });
    assert_eq!(post, Point { x: 4, y: 5 });
    assert_eq!(plan.len(), 7);
    let mut presses = 0;
    for (i, p) in plan.iter().enumerate() {
        match p {
            Primitive::PressKey { key: KeySpec::Character(c) } => {
                assert_eq!(*c, 'x');
                assert!(i % 2 == 0 && i < 6);
                presses += 1;
            },
            Primitive::Sleep { ms } => {
                if i < 6 {
                    assert!(i % 2 == 1);
                    assert!(100 <= *ms && *ms <= 150);
                } else {
                    assert_eq!(i, 6);
                    assert_eq!(*ms, 7);
                }
            },
            _ => panic!("unexpected primitive in key plan"),
        }
    }
    assert_eq!(presses, 3);
}

#[test]
fn key_plan_single_press() {
    let e = key_event('q', 1, 0, 0);
    let (plan, _) = plan_event(&e, Point { x: 0, y: 0 });
    assert_eq!(plan.len(), 3);
    assert!(matches!(&plan[0], Primitive::PressKey { key: KeySpec::Character('q') }));
    assert!(matches!(&plan[1], Primitive::Sleep { ms } if *ms >= 100 && *ms <= 150));
    assert!(matches!(&plan[2], Primitive::Sleep { ms: 0 }));
}

#[test]
fn mouse_plan_glides_clicks_then_delays() {
    let e = Event::Mouse {
        id: "click_tree".to_string(),
        x: 100,
        y: 0,
        delay: DelayRange { min_ms: 10, max_ms: 10 },
    };
    let pre = Point { x: 0, y: 0 };
    let (plan, post) = plan_event(&e, pre);
    // 1001 moves, settle sleep, click, trailing delay.
    assert_eq!(plan.len(), 1004);
    assert!(matches!(&plan[0], Primitive::MoveTo { x: 0, y: 0 }));
    match &plan[1000] {
        Primitive::MoveTo { x, y } => {
            assert_eq!((*x, *y), (post.x, post.y));
            assert!((x - 100).abs() <= 2);
            assert!(y.abs() <= 2);
        },
        _ => panic!("expected final move"),
    }
    assert!(matches!(&plan[1001], Primitive::Sleep { ms: 50 }));
    assert!(matches!(&plan[1002], Primitive::Click));
    assert!(matches!(&plan[1003], Primitive::Sleep { ms: 10 }));
    for p in plan[..1001].iter() {
        assert!(matches!(p, Primitive::MoveTo { .. }));
    }
}

#[test]
fn composite_plan_visits_the_whole_grid_with_shift_clicks() {
    let e = Event::Mouse {
        id: "the_drop_inventory_macro".to_string(),
        x: 1,
        y: 1,
        delay: DelayRange { min_ms: 3, max_ms: 3 },
    };
    let (plan, _post) = plan_event(&e, Point { x: 0, y: 0 });
    let cell = 1008;
    assert_eq!(plan.len(), 28 * cell + 1);
    let mut shift_downs = 0;
    let mut clicks = 0;
    for p in plan.iter() {
        match p {
            Primitive::KeyDown { modifier: Modifier::Shift } => shift_downs += 1,
            Primitive::Click => clicks += 1,
            _ => {},
        }
    }
    assert_eq!(shift_downs, 28);
    assert_eq!(clicks, 28);
    // First cell: glide to near the grid origin, then the held-shift click.
    match &plan[1000] {
        Primitive::MoveTo { x, y } => {
            assert!((x - 780).abs() <= 2);
            assert!((y - 700).abs() <= 2);
        },
        _ => panic!("expected move at end of first glide"),
    }
    assert!(matches!(&plan[1001], Primitive::Sleep { ms: 50 }));
    assert!(matches!(&plan[1002], Primitive::KeyDown { modifier: Modifier::Shift }));
    assert!(matches!(&plan[1003], Primitive::Sleep { ms: 100 }));
    assert!(matches!(&plan[1004], Primitive::Click));
    assert!(matches!(&plan[1005], Primitive::Sleep { ms: 100 }));
    assert!(matches!(&plan[1006], Primitive::KeyUp { modifier: Modifier::Shift }));
    assert!(matches!(&plan[1007], Primitive::Sleep { ms: 100 }));
    // Second cell heads one column step to the right.
    match &plan[cell + 1000] {
        Primitive::MoveTo { x, y } => {
            assert!((x - 830).abs() <= 2);
            assert!((y - 700).abs() <= 2);
        },
        _ => panic!("expected move at end of second glide"),
    }
    // Trailing delay of the triggering event.
    assert!(matches!(&plan[28 * cell], Primitive::Sleep { ms: 3 }));
}

#[test]
fn hook_plan_shape() {
    let plan = plan_hook();
    assert_eq!(plan.len(), 8);
    assert!(matches!(&plan[0], Primitive::PressKey { key: KeySpec::Character('d') }));
    assert!(matches!(&plan[1], Primitive::Sleep { ms } if *ms >= 100 && *ms <= 150));
    assert!(matches!(&plan[2], Primitive::KeyDown { modifier: Modifier::Control }));
    assert!(matches!(&plan[3], Primitive::Sleep { ms: 100 }));
    assert!(matches!(&plan[4], Primitive::PressKey { key: KeySpec::Character('a') }));
    assert!(matches!(&plan[5], Primitive::Sleep { ms: 100 }));
    assert!(matches!(&plan[6], Primitive::KeyUp { modifier: Modifier::Control }));
    assert!(matches!(&plan[7], Primitive::Sleep { ms: 100 }));
}

#[test]
fn symbol_key_plan_carries_the_name() {
    let e = Event::KeyPress {
        id: "sym".to_string(),
        key: KeySpec::Symbol("Return".to_string()),
        delay: DelayRange { min_ms: 1, max_ms: 2 },
        count: 2,
    };
    let (plan, _) = plan_event(&e, Point { x: 0, y: 0 });
    assert_eq!(plan.len(), 5);
    for i in [0usize, 2] {
        match &plan[i] {
            Primitive::PressKey { key: KeySpec::Symbol(s) } => assert_eq!(s, "Return"),
            _ => panic!("expected symbol press"),
        }
    }
    assert!(matches!(&plan[4], Primitive::Sleep { ms } if *ms == 1 || *ms == 2));
}
