//! The event loop: repeated playback of the whole script under a
//! wall-clock budget, with a periodic hook between passes.
//!
//! The loop's decisions live here, verified; the unverified shell owns the
//! clock and the injector. Each call to `run_event_loop` yields the next
//! unit of work: a complete pass over the script (never a partial one), a
//! hook plan when one is due, or `Done`. The deadline is consulted only
//! between passes — after the hook, never mid-pass — and the first pass
//! runs unconditionally, even on an already elapsed budget. A recorded
//! failure is terminal: no further pass or hook is ever issued.

use vstd::prelude::*;
use crate::event::{Event, Script};
use crate::geom::{Point, wf_point};
use crate::plan::{Primitive, event_plan_len, event_plan_ok, hook_plan_ok, plan_event, plan_hook};

verus! {

/// The hook runs after every `HOOK_PERIOD`-th completed pass.
pub const HOOK_PERIOD: u64 = 2;

/// Where a run stands. `Failed` and `Completed` are terminal.
#[derive(Clone, Copy, PartialEq, Eq, Structural, Debug)]
pub enum RunPhase {
    Running,
    Completed,
    Failed,
}

/// The next unit of work the shell must perform: deliver a whole pass,
/// deliver the hook plan, or stop.
#[derive(Debug)]
pub enum StepAction {
    Pass(Vec<Primitive>),
    Hook(Vec<Primitive>),
    Done,
}

/// The plan realizes the events in order, each from the pointer position
/// the previous one left behind: `pre` before the first event, `post`
/// after the last, and no primitive outside the events' own plans.
pub open spec fn pass_plan_ok(
    events: Seq<Event>,
    pre: Point,
    plan: Seq<Primitive>,
    post: Point,
) -> bool
    decreases events.len(),
{
    if events.len() == 0 {
        plan.len() == 0 && post == pre
    } else {
        let e = events.last();
        let k = plan.len() - event_plan_len(e);
        &&& plan.len() >= event_plan_len(e)
        &&& exists|mid: Point|
            pass_plan_ok(events.drop_last(), pre, plan.take(k), mid) && #[trigger] event_plan_ok(
                e,
                mid,
                plan.skip(k),
                post,
            )
    }
}

/// State of one run: the modeled pointer position, the pass and hook
/// counters, whether a hook is due before the next deadline check, and
/// the phase.
#[derive(Debug)]
pub struct LoopState {
    pub pos: Point,
    pub passes: u64,
    pub hooks: u64,
    pub hook_pending: bool,
    pub phase: RunPhase,
}

impl LoopState {
    /// Counter discipline: while no hook is pending, exactly one hook has
    /// run per `HOOK_PERIOD` completed passes; while one is pending, it
    /// is one short and due.
    pub open spec fn wf(&self) -> bool {
        &&& wf_point(self.pos)
        &&& self.passes < u64::MAX
        &&& (self.hook_pending ==> self.passes > 0 && self.passes % HOOK_PERIOD == 0
            && self.hooks + 1 == self.passes / HOOK_PERIOD)
        &&& (!self.hook_pending ==> self.hooks == self.passes / HOOK_PERIOD)
    }

    /// A fresh run, not yet through any pass, with the pointer at `start`.
    pub fn new(start: Point) -> (s: Self)
        requires
            wf_point(start),
        ensures
            s.wf(),
            s.pos == start,
            s.passes == 0,
            s.hooks == 0,
            !s.hook_pending,
            s.phase == RunPhase::Running,
    {
        LoopState { pos: start, passes: 0, hooks: 0, hook_pending: false, phase: RunPhase::Running }
    }

    /// Record a failed primitive delivery. The failure is terminal: every
    /// later call to `run_event_loop` answers `Done`.
    pub fn record_failure(&mut self)
        requires
            old(self).wf(),
        ensures
            final(self).wf(),
            final(self).phase == RunPhase::Failed,
            final(self).pos == old(self).pos,
            final(self).passes == old(self).passes,
            final(self).hooks == old(self).hooks,
            final(self).hook_pending == old(self).hook_pending,
    {
        self.phase = RunPhase::Failed;
    }
}

/// The periodic hook fires exactly once per `HOOK_PERIOD` completed
/// passes, never more, never less: in any well-formed quiescent state
/// (no hook pending) the hook counter equals the pass counter divided by
/// the period, and while one is pending it is exactly one short.
pub proof fn lemma_hook_rate(s: LoopState)
    requires
        s.wf(),
    ensures
        !s.hook_pending ==> s.hooks == s.passes / HOOK_PERIOD,
        s.hook_pending ==> s.hooks + 1 == s.passes / HOOK_PERIOD,
{
}

/// Advance the run by one step and say what the shell must do next.
///
/// From `Running`: a pending hook is issued first, before the deadline is
/// consulted; otherwise, if no pass has run yet — even on an already
/// elapsed deadline — or the deadline has not elapsed, one complete pass
/// over the script is planned, in script order, from the current pointer
/// position; otherwise the run completes. Terminal phases answer `Done`
/// and change nothing.
pub fn run_event_loop(state: &mut LoopState, script: &Script, deadline_elapsed: bool) -> (step:
    StepAction)
    requires
        old(state).wf(),
        script.wf(),
    ensures
        final(state).wf(),
        old(state).phase != RunPhase::Running ==> step is Done && *final(state) == *old(state),
        old(state).phase == RunPhase::Running && old(state).hook_pending ==> {
            &&& step matches StepAction::Hook(h) && hook_plan_ok(h@)
            &&& final(state).hook_pending == false
            &&& final(state).hooks == old(state).hooks + 1
            &&& final(state).passes == old(state).passes
            &&& final(state).pos == old(state).pos
            &&& final(state).phase == RunPhase::Running
        },
        old(state).phase == RunPhase::Running && !old(state).hook_pending && old(state).passes
            < u64::MAX - 1 && (old(state).passes == 0 || !deadline_elapsed) ==> {
            &&& step matches StepAction::Pass(p) && pass_plan_ok(
                script.events@,
                old(state).pos,
                p@,
                final(state).pos,
            )
            &&& final(state).passes == old(state).passes + 1
            &&& final(state).hook_pending == (final(state).passes % HOOK_PERIOD == 0)
            &&& final(state).hooks == old(state).hooks
            &&& final(state).phase == RunPhase::Running
        },
        old(state).phase == RunPhase::Running && !old(state).hook_pending && (old(state).passes
            >= u64::MAX - 1 || (old(state).passes > 0 && deadline_elapsed)) ==> {
            &&& step is Done
            &&& final(state).phase == RunPhase::Completed
            &&& final(state).pos == old(state).pos
            &&& final(state).passes == old(state).passes
            &&& final(state).hooks == old(state).hooks
            &&& final(state).hook_pending == old(state).hook_pending
        },
{
    match state.phase {
        RunPhase::Running => {},
        _ => {
            return StepAction::Done;
        },
    }
    if state.hook_pending {
        state.hook_pending = false;
        state.hooks = state.hooks + 1;
        return StepAction::Hook(plan_hook());
    }
    if state.passes >= u64::MAX - 1 || (state.passes > 0 && deadline_elapsed) {
        state.phase = RunPhase::Completed;
        return StepAction::Done;
    }
    let start_pos: Point = state.pos;
    let mut plan: Vec<Primitive> = Vec::new();
    let mut cur: Point = start_pos;
    let mut idx: usize = 0;
    while idx < script.events.len()
        invariant
            script.wf(),
            wf_point(cur),
            wf_point(start_pos),
            idx <= script.events@.len(),
            pass_plan_ok(script.events@.take(idx as int), start_pos, plan@, cur),
        decreases script.events@.len() - idx,
    {
        let ghost old_plan = plan@;
        let e = &script.events[idx];
        let (mut seg, post) = plan_event(e, cur);
        let ghost old_seg = seg@;
        plan.append(&mut seg);
        proof {
            let evs = script.events@;
            let sub_new = evs.take(idx as int + 1);
            assert(sub_new.last() == evs[idx as int]);
            assert(sub_new.drop_last() =~= evs.take(idx as int));
            assert(pass_plan_ok(sub_new, start_pos, plan@, post)) by {
                let e2 = sub_new.last();
                let k2 = plan@.len() - event_plan_len(e2);
                assert(old_seg.len() == event_plan_len(e2));
                assert(k2 == old_plan.len());
                assert(plan@.take(k2) =~= old_plan);
                assert(plan@.skip(k2) =~= old_seg);
                assert(pass_plan_ok(sub_new.drop_last(), start_pos, plan@.take(k2), cur));
                assert(event_plan_ok(e2, cur, plan@.skip(k2), post));
            }
        }
        cur = post;
        idx = idx + 1;
    }
    proof {
        assert(script.events@.take(script.events@.len() as int) =~= script.events@);
    }
    state.pos = cur;
    state.passes = state.passes + 1;
    state.hook_pending = state.passes % HOOK_PERIOD == 0;
    proof {
        let op = old(state).passes as int;
        let np = state.passes as int;
        assert(np == op + 1);
        assert(HOOK_PERIOD == 2);
        if np % 2 == 0 {
            assert(np / 2 == op / 2 + 1);
        } else {
            assert(np / 2 == op / 2);
        }
    }
    StepAction::Pass(plan)
}

} // verus!
