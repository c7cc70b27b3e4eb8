use rsbot::event::{validate_script, DelayRange, Event, KeySpec, RawEvent, ScriptErrorKind};

fn raw_mouse(x: u32, y: u32, dmin: u32, dmax: u32) -> RawEvent {
    RawEvent {
        kind: "mouse".to_string(),
        id: "m1".to_string(),
        pos: Some((x, y)),
        keycode: None,
        delay_rng: Some((dmin, dmax)),
        count: None,
    }
}

fn raw_key(kc: &str, count: u32, dmin: u32, dmax: u32) -> RawEvent {
    RawEvent {
        kind: "keypress".to_string(),
        id: "k1".to_string(),
        pos: None,
        keycode: Some(kc.to_string()),
        delay_rng: Some((dmin, dmax)),
        count: Some(count),
    }
}

#[test]
fn valid_script_converts_in_order() {
    let s = validate_script(vec![raw_mouse(100, 0, 10, 10), raw_key("x", 3, 5, 9)]).unwrap();
    assert_eq!(s.len(), 2);
    match &s.events[0] {
        Event::Mouse { id, x, y, delay } => {
            assert_eq!(id, "m1");
            assert_eq!((*x, *y), (100, 0));
            assert_eq!(*delay, DelayRange { min_ms: 10, max_ms: 10 });
        },
        _ => panic!("expected mouse event first"),
    }
    match &s.events[1] {
        Event::KeyPress { id, key, delay, count } => {
            assert_eq!(id, "k1");
            assert!(matches!(key, KeySpec::Character('x')));
            assert_eq!(*delay, DelayRange { min_ms: 5, max_ms: 9 });
            assert_eq!(*count, 3);
        },
        _ => panic!("expected key event second"),
    }
}

#[test]
fn multi_char_keycode_becomes_symbol() {
    let s = validate_script(vec![raw_key("Shift", 1, 0, 0)]).unwrap();
    match &s.events[0] {
        Event::KeyPress { key: KeySpec::Symbol(name), .. } => assert_eq!(name, "Shift"),
        _ => panic!("expected symbolic key"),
    }
}

#[test]
fn unknown_type_rejects_before_any_replay() {
    let mut bad = raw_mouse(1, 1, 0, 0);
    bad.kind = "banana".to_string();
    let e = validate_script(vec![raw_key("x", 1, 0, 0), bad]).unwrap_err();
    assert_eq!(e.index, 1);
    assert_eq!(e.kind, ScriptErrorKind::UnknownType);
}

#[test]
fn missing_field_rejects() {
    let mut bad = raw_key("x", 1, 0, 0);
    bad.count = None;
    let e = validate_script(vec![bad]).unwrap_err();
    assert_eq!(e.index, 0);
    assert_eq!(e.kind, ScriptErrorKind::MissingField);

    let mut bad = raw_mouse(1, 1, 0, 0);
    bad.pos = None;
    let e = validate_script(vec![bad]).unwrap_err();
    assert_eq!(e.kind, ScriptErrorKind::MissingField);
}

#[test]
fn inverted_delay_range_rejects() {
    let e = validate_script(vec![raw_mouse(1, 1, 9, 3)]).unwrap_err();
    assert_eq!(e.kind, ScriptErrorKind::BadDelayRange);
}

#[test]
fn zero_count_rejects() {
    let e = validate_script(vec![raw_key("x", 0, 0, 0)]).unwrap_err();
    assert_eq!(e.kind, ScriptErrorKind::BadCount);
}

#[test]
fn huge_target_rejects() {
    let e = validate_script(vec![raw_mouse(1_000_000, 0, 0, 0)]).unwrap_err();
    assert_eq!(e.kind, ScriptErrorKind::TargetOutOfRange);
}

#[test]
fn error_kinds_have_names() {
    let e = validate_script(vec![raw_key("x", 0, 0, 0)]).unwrap_err();
    assert!(!e.kind_name().is_empty());
}

#[test]
fn empty_script_is_valid() {
    let s = validate_script(Vec::new()).unwrap();
    assert_eq!(s.len(), 0);
}
