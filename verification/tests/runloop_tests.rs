use rsbot::event::{DelayRange, Event, KeySpec, Script};
use rsbot::geom::Point;
use rsbot::plan::Primitive;
use rsbot::runloop::{run_event_loop, LoopState, RunPhase, StepAction};
use rsbot::BotConfig;

fn key_script(count: u32) -> Script {
    Script {
        events: vec![Event::KeyPress {
            id: "k".to_string(),
            key: KeySpec::Character('x'),
            delay: DelayRange { min_ms: 10, max_ms: 10 },
            count,
        }],
    }
}

fn pointer_script() -> Script {
    Script {
        events: vec![Event::Mouse {
            id: "move_click".to_string(),
            x: 100,
            y: 0,
            delay: DelayRange { min_ms: 10, max_ms: 10 },
        }],
    }
}

#[test]
fn zero_budget_still_runs_one_full_pass() {
    let script = key_script(1);
    let mut state = LoopState::new(Point { x: 0, y: 0 });
    // Deadline already elapsed at the very first check: the first pass
    // still runs in full.
    match run_event_loop(&mut state, &script, true) {
        StepAction::Pass(plan) => assert_eq!(plan.len(), 3),
        _ => panic!("first step must be a full pass even on a zero budget"),
    }
    assert_eq!(state.passes, 1);
    // The next boundary sees the elapsed deadline and completes.
    assert!(matches!(run_event_loop(&mut state, &script, true), StepAction::Done));
    assert_eq!(state.phase, RunPhase::Completed);
    assert_eq!(state.passes, 1);
}

#[test]
fn hook_fires_exactly_every_second_pass() {
    let script = key_script(1);
    let mut state = LoopState::new(Point { x: 0, y: 0 });
    let mut log: Vec<&str> = Vec::new();
    loop {
        // Keep the deadline unelapsed until four passes have completed.
        let elapsed = state.passes >= 4;
        match run_event_loop(&mut state, &script, elapsed) {
            StepAction::Pass(_) => log.push("pass"),
            StepAction::Hook(_) => log.push("hook"),
            StepAction::Done => break,
        }
    }
    assert_eq!(log, vec!["pass", "pass", "hook", "pass", "pass", "hook"]);
    assert_eq!(state.passes, 4);
    assert_eq!(state.hooks, 2);
    assert_eq!(state.phase, RunPhase::Completed);
}

#[test]
fn events_of_different_passes_never_interleave() {
    // Each step is one whole pass: its plan covers the entire script.
    let script = key_script(2);
    let mut state = LoopState::new(Point { x: 7, y: 8 });
    for _ in 0..2 {
        match run_event_loop(&mut state, &script, false) {
            StepAction::Pass(plan) => {
                // A complete pass of the one-event script, nothing less,
                // nothing more.
                assert_eq!(plan.len(), 5);
            },
            StepAction::Hook(_) => {},
            StepAction::Done => panic!("deadline never elapsed"),
        }
    }
}

#[test]
fn pointer_pass_records_path_from_start_to_target() {
    let script = pointer_script();
    let mut state = LoopState::new(Point { x: 0, y: 0 });
    let plan = match run_event_loop(&mut state, &script, false) {
        StepAction::Pass(plan) => plan,
        _ => panic!("expected a pass"),
    };
    let moves: Vec<(i64, i64)> = plan
        .iter()
        .filter_map(|p| match p {
            Primitive::MoveTo { x, y } => Some((*x, *y)),
            _ => None,
        })
        .collect();
    assert_eq!(moves.len(), 1001);
    // The path begins near the starting position and ends near the target.
    assert_eq!(moves[0], (0, 0));
    let (lx, ly) = moves[1000];
    assert!((lx - 100).abs() <= 2 && ly.abs() <= 2);
    // The trailing sleep enforces at least 10 ms between pass starts.
    assert!(matches!(plan.last().unwrap(), Primitive::Sleep { ms: 10 }));
    // The loop state tracks the pointer to the jittered target.
    assert_eq!((state.pos.x, state.pos.y), (lx, ly));
    // Second pass starts from there.
    match run_event_loop(&mut state, &script, false) {
        StepAction::Pass(plan2) => match &plan2[0] {
            Primitive::MoveTo { x, y } => assert_eq!((*x, *y), (lx, ly)),
            _ => panic!("expected a move first"),
        },
        _ => panic!("expected a second pass"),
    }
}

#[test]
fn injector_failure_stops_the_run_after_two_successes() {
    let script = key_script(3);
    let mut state = LoopState::new(Point { x: 0, y: 0 });
    let plan = match run_event_loop(&mut state, &script, false) {
        StepAction::Pass(plan) => plan,
        _ => panic!("expected a pass"),
    };
    // A stub injector that fails on its third primitive call.
    let mut calls = 0;
    let mut successes = 0;
    let mut failed = false;
    for _p in plan.iter() {
        calls += 1;
        if calls == 3 {
            failed = true;
            break;
        }
        successes += 1;
    }
    assert!(failed);
    assert_eq!(successes, 2);
    // Fail fast: the rest of the pass is abandoned and no further pass
    // is ever issued.
    state.record_failure();
    assert_eq!(state.phase, RunPhase::Failed);
    assert!(matches!(run_event_loop(&mut state, &script, false), StepAction::Done));
    assert!(matches!(run_event_loop(&mut state, &script, true), StepAction::Done));
    assert_eq!(state.passes, 1);
}

#[test]
fn budget_is_converted_to_milliseconds() {
    let config = BotConfig { script: "bot.json".to_string(), runtime: 3600, debug: false };
    assert_eq!(config.budget_millis(), 3_600_000);
    let config = BotConfig { script: "bot.json".to_string(), runtime: u64::MAX, debug: true };
    assert_eq!(config.budget_millis(), u64::MAX);
}
