//! The event executor: it interprets one script event and lays out the
//! exact sequence of input primitives that realizes it — pointer glides
//! along a sampled motion curve, clicks, key presses, and randomized
//! blocking sleeps. The unverified shell delivers the primitives to the
//! host strictly in order, so every ordering stated here is the ordering
//! on the wire.

use vstd::prelude::*;
use crate::curve::{MotionCurve, build, curve_x, curve_y, sample, wf_curve};
use crate::event::{contains_seq, contains_chars, DelayRange, Event, KeySpec, wf_event, MAX_TARGET};
use crate::geom::{Point, wf_point};
use crate::rng::{draw_delay, rand_i64_in};

verus! {

/// Number of curve segments a pointer glide is sampled into; the glide
/// visits this many points plus one.
pub const CURVE_RESOLUTION: u32 = 1_000;

/// Largest magnitude of the random jitter added to a declared target.
pub const JITTER_MAX: i64 = 2;

/// Fixed settle delay after the pointer reaches its target, in ms.
pub const SETTLE_MS: u64 = 50;

/// Bounds of the randomized gap between repeated key presses, in ms.
pub const KEY_GAP_MIN_MS: u64 = 100;

/// See `KEY_GAP_MIN_MS`.
pub const KEY_GAP_MAX_MS: u64 = 150;

/// Fixed delay around held-modifier presses, in ms.
pub const MOD_GAP_MS: u64 = 100;

/// Inventory grid shape and placement for the composite drop action.
pub const INVENTORY_ROWS: u32 = 7;

/// See `INVENTORY_ROWS`.
pub const INVENTORY_COLS: u32 = 4;

/// See `INVENTORY_ROWS`.
pub const INVENTORY_BASE_X: u32 = 780;

/// See `INVENTORY_ROWS`.
pub const INVENTORY_BASE_Y: u32 = 700;

/// See `INVENTORY_ROWS`.
pub const INVENTORY_COL_STEP: u32 = 50;

/// See `INVENTORY_ROWS`.
pub const INVENTORY_ROW_STEP: u32 = 37;

/// A modifier key held around another primitive.
#[derive(Clone, Copy, PartialEq, Eq, Structural, Debug)]
pub enum Modifier {
    Shift,
    Control,
}

/// One input primitive, delivered synchronously by the injector backend.
/// A `Sleep` is a blocking wait on the single thread of control.
#[derive(Debug)]
pub enum Primitive {
    MoveTo { x: i64, y: i64 },
    Click,
    KeyDown { modifier: Modifier },
    KeyUp { modifier: Modifier },
    PressKey { key: KeySpec },
    Sleep { ms: u64 },
}

/// `p` is a sleep whose duration lies within `[lo, hi]`.
pub open spec fn is_sleep_in(p: Primitive, lo: int, hi: int) -> bool {
    match p {
        Primitive::Sleep { ms } => lo <= ms <= hi,
        _ => false,
    }
}

/// An event id that selects the composite inventory-drop action instead of
/// a plain click.
pub open spec fn composite_event_id(id: Seq<char>) -> bool {
    contains_seq(id, "drop_inventory"@)
}

/// Number of primitives in a pointer glide: one move per sample point,
/// then the settle sleep.
pub open spec fn glide_len() -> int {
    CURVE_RESOLUTION + 2
}

/// The glide `seg` follows the motion curve `c` from `pre` to `post`: one
/// `MoveTo` per sample point in parameter order, then the settle sleep.
/// `post` is the jittered target, within `JITTER_MAX` of `(tx, ty)`.
pub open spec fn glide_matches(
    c: MotionCurve,
    pre: Point,
    tx: int,
    ty: int,
    seg: Seq<Primitive>,
    post: Point,
) -> bool {
    &&& wf_curve(c)
    &&& c.p0 == pre
    &&& c.p3 == post
    &&& tx - JITTER_MAX <= post.x <= tx + JITTER_MAX
    &&& ty - JITTER_MAX <= post.y <= ty + JITTER_MAX
    &&& seg.len() == glide_len()
    &&& forall|k: int|
        0 <= k <= CURVE_RESOLUTION ==> #[trigger] seg[k] == (Primitive::MoveTo {
            x: curve_x(c, k, CURVE_RESOLUTION as int) as i64,
            y: curve_y(c, k, CURVE_RESOLUTION as int) as i64,
        })
    &&& seg[0] == (Primitive::MoveTo { x: pre.x, y: pre.y })
    &&& seg[CURVE_RESOLUTION as int] == (Primitive::MoveTo { x: post.x, y: post.y })
    &&& seg[CURVE_RESOLUTION + 1] == (Primitive::Sleep { ms: SETTLE_MS })
}

/// Some motion curve from `pre` to a jittered `(tx, ty)` underlies `seg`.
pub open spec fn glide_ok(pre: Point, tx: int, ty: int, seg: Seq<Primitive>, post: Point) -> bool {
    exists|c: MotionCurve| #[trigger] glide_matches(c, pre, tx, ty, seg, post)
}

/// Plan of a plain pointer event: glide to the jittered target, click,
/// then the trailing randomized delay drawn from the event's range.
pub open spec fn mouse_plain_ok(
    pre: Point,
    tx: int,
    ty: int,
    delay: DelayRange,
    plan: Seq<Primitive>,
    post: Point,
) -> bool {
    &&& plan.len() == glide_len() + 2
    &&& glide_ok(pre, tx, ty, plan.take(glide_len()), post)
    &&& plan[glide_len()] == Primitive::Click
    &&& is_sleep_in(plan[glide_len() + 1], delay.min_ms as int, delay.max_ms as int)
}

/// The held-shift click performed at each inventory cell.
pub open spec fn shift_click_ok(seg: Seq<Primitive>) -> bool {
    &&& seg.len() == 6
    &&& seg[0] == (Primitive::KeyDown { modifier: Modifier::Shift })
    &&& seg[1] == (Primitive::Sleep { ms: MOD_GAP_MS })
    &&& seg[2] == Primitive::Click
    &&& seg[3] == (Primitive::Sleep { ms: MOD_GAP_MS })
    &&& seg[4] == (Primitive::KeyUp { modifier: Modifier::Shift })
    &&& seg[5] == (Primitive::Sleep { ms: MOD_GAP_MS })
}

/// X coordinate of inventory cell `i`, row-major over a 7 by 4 grid.
pub open spec fn grid_x(i: int) -> int {
    INVENTORY_BASE_X + (i % (INVENTORY_COLS as int)) * INVENTORY_COL_STEP
}

/// Y coordinate of inventory cell `i`.
pub open spec fn grid_y(i: int) -> int {
    INVENTORY_BASE_Y + (i / (INVENTORY_COLS as int)) * INVENTORY_ROW_STEP
}

/// Number of inventory cells.
pub open spec fn grid_cells() -> int {
    (INVENTORY_ROWS * INVENTORY_COLS) as int
}

/// Number of primitives spent on one inventory cell: the glide there plus
/// the held-shift click.
pub open spec fn cell_len() -> int {
    glide_len() + 6
}

/// The primitives of cell `i` within a composite plan.
pub open spec fn cell_at(plan: Seq<Primitive>, i: int) -> Seq<Primitive> {
    plan.subrange(i * cell_len(), (i + 1) * cell_len())
}

/// Cell `i` glides from `pre` to the jittered cell position and performs
/// the held-shift click there.
pub open spec fn cell_matches(i: int, pre: Point, seg: Seq<Primitive>, post: Point) -> bool {
    &&& seg.len() == cell_len()
    &&& glide_ok(pre, grid_x(i), grid_y(i), seg.take(glide_len()), post)
    &&& shift_click_ok(seg.skip(glide_len()))
}

/// `ps` chains the pointer positions through every inventory cell of the
/// composite plan: `ps[i]` is the position before cell `i`.
pub open spec fn composite_chain(
    ps: Seq<Point>,
    pre: Point,
    plan: Seq<Primitive>,
    post: Point,
) -> bool {
    &&& ps.len() == grid_cells() + 1
    &&& ps[0] == pre
    &&& ps[grid_cells()] == post
    &&& plan.len() == grid_cells() * cell_len()
    &&& forall|i: int|
        0 <= i < grid_cells() ==> cell_matches(i, ps[i], #[trigger] cell_at(plan, i), ps[i + 1])
}

/// Plan of the composite inventory-drop action: every cell visited in
/// row-major order with a held-shift click, then the trailing randomized
/// delay drawn from the event's range.
pub open spec fn composite_ok(
    pre: Point,
    delay: DelayRange,
    plan: Seq<Primitive>,
    post: Point,
) -> bool {
    &&& plan.len() == grid_cells() * cell_len() + 1
    &&& is_sleep_in(plan[grid_cells() * cell_len()], delay.min_ms as int, delay.max_ms as int)
    &&& exists|ps: Seq<Point>| #[trigger] composite_chain(ps, pre, plan.take(grid_cells() * cell_len()), post)
}

/// Plan of a key event: `count` presses of the key, each followed by a
/// randomized short gap, then the trailing delay drawn from the event's
/// range. Every press stands strictly before the trailing delay sleep.
pub open spec fn key_plan_ok(
    key: KeySpec,
    delay: DelayRange,
    count: int,
    plan: Seq<Primitive>,
) -> bool {
    &&& plan.len() == 2 * count + 1
    &&& forall|j: int|
        0 <= j < 2 * count && j % 2 == 0 ==> #[trigger] plan[j] == (Primitive::PressKey { key })
    &&& forall|j: int|
        0 <= j < 2 * count && j % 2 == 1 ==> is_sleep_in(
            #[trigger] plan[j],
            KEY_GAP_MIN_MS as int,
            KEY_GAP_MAX_MS as int,
        )
    &&& is_sleep_in(plan[2 * count], delay.min_ms as int, delay.max_ms as int)
}

/// Number of key-press primitives in a plan.
pub open spec fn press_count(plan: Seq<Primitive>) -> int
    decreases plan.len(),
{
    if plan.len() == 0 {
        0
    } else {
        press_count(plan.drop_last()) + if plan.last() is PressKey {
            1int
        } else {
            0int
        }
    }
}

/// In a sequence alternating presses (even positions) and sleeps (odd
/// positions), the presses number half the length.
proof fn lemma_press_count_alternating(s: Seq<Primitive>, key: KeySpec, m: int)
    requires
        0 <= m,
        s.len() == 2 * m,
        forall|j: int| 0 <= j < 2 * m && j % 2 == 0 ==> (#[trigger] s[j]) is PressKey,
        forall|j: int| 0 <= j < 2 * m && j % 2 == 1 ==> (#[trigger] s[j]) is Sleep,
    ensures
        press_count(s) == m,
    decreases m,
{
    if m > 0 {
        let t = s.drop_last().drop_last();
        assert(s[2 * m - 1] is Sleep);
        assert(s[2 * m - 2] is PressKey);
        assert(press_count(s) == press_count(s.drop_last()));
        assert(press_count(s.drop_last()) == press_count(t) + 1);
        assert(forall|j: int| 0 <= j < 2 * (m - 1) ==> t[j] == s[j]);
        lemma_press_count_alternating(t, key, m - 1);
    }
}

/// A key action's plan presses its key exactly `count` times, and every
/// press stands before the plan's last element, the trailing delay sleep.
pub proof fn lemma_key_plan_press_count(
    key: KeySpec,
    delay: DelayRange,
    count: int,
    plan: Seq<Primitive>,
)
    requires
        0 <= count,
        key_plan_ok(key, delay, count, plan),
    ensures
        press_count(plan) == count,
        plan.last() is Sleep,
{
    assert(plan[2 * count] is Sleep);
    assert(press_count(plan) == press_count(plan.drop_last()));
    assert(plan.drop_last() =~= plan.take(2 * count));
    lemma_press_count_alternating(plan.take(2 * count), key, count);
}

/// Length of the plan an event produces.
pub open spec fn event_plan_len(e: Event) -> int {
    match e {
        Event::Mouse { id, .. } => if composite_event_id(id@) {
            grid_cells() * cell_len() + 1
        } else {
            glide_len() + 2
        },
        Event::KeyPress { count, .. } => 2 * count + 1,
    }
}

/// The plan realizes the event from pointer position `pre`, leaving the
/// pointer at `post`.
pub open spec fn event_plan_ok(e: Event, pre: Point, plan: Seq<Primitive>, post: Point) -> bool {
    match e {
        Event::Mouse { id, x, y, delay } => if composite_event_id(id@) {
            composite_ok(pre, delay, plan, post)
        } else {
            mouse_plain_ok(pre, x as int, y as int, delay, plan, post)
        },
        Event::KeyPress { key, delay, count, .. } => {
            &&& key_plan_ok(key, delay, count as int, plan)
            &&& post == pre
        },
    }
}

/// A copy of a key with the same value.
fn clone_key(k: &KeySpec) -> (r: KeySpec)
    ensures
        r == *k,
{
    match k {
        KeySpec::Character(c) => KeySpec::Character(*c),
        KeySpec::Symbol(s) => KeySpec::Symbol(s.clone()),
    }
}

/// Glide the pointer from `pre` to `(tx, ty)` plus jitter: build a fresh
/// randomized motion curve, visit its samples in order, then settle.
fn plan_glide(pre: Point, tx: u32, ty: u32) -> (r: (Vec<Primitive>, Point))
    requires
        wf_point(pre),
        tx <= MAX_TARGET,
        ty <= MAX_TARGET,
    ensures
        glide_ok(pre, tx as int, ty as int, r.0@, r.1),
        r.0@.len() == glide_len(),
        wf_point(r.1),
{
    let jx: i64 = rand_i64_in(-JITTER_MAX, JITTER_MAX);
    let jy: i64 = rand_i64_in(-JITTER_MAX, JITTER_MAX);
    let post = Point { x: tx as i64 + jx, y: ty as i64 + jy };
    let c: MotionCurve = build(pre, post);
    let pts: Vec<Point> = sample(&c, CURVE_RESOLUTION);
    let mut seg: Vec<Primitive> = Vec::new();
    let mut k: usize = 0;
    while k < pts.len()
        invariant
            pts@.len() == CURVE_RESOLUTION + 1,
            k <= pts@.len(),
            seg@.len() == k,
            forall|j: int|
                0 <= j <= CURVE_RESOLUTION ==> pts@[j].x == curve_x(c, j, CURVE_RESOLUTION as int)
                    && pts@[j].y == curve_y(c, j, CURVE_RESOLUTION as int),
            forall|j: int|
                0 <= j < k ==> #[trigger] seg@[j] == (Primitive::MoveTo {
                    x: pts@[j].x,
                    y: pts@[j].y,
                }),
        decreases pts@.len() - k,
    {
        let p = pts[k];
        seg.push(Primitive::MoveTo { x: p.x, y: p.y });
        k = k + 1;
    }
    seg.push(Primitive::Sleep { ms: SETTLE_MS });
    proof {
        assert forall|j: int|
            0 <= j <= CURVE_RESOLUTION implies #[trigger] seg@[j] == (Primitive::MoveTo {
            x: curve_x(c, j, CURVE_RESOLUTION as int) as i64,
            y: curve_y(c, j, CURVE_RESOLUTION as int) as i64,
        }) by {
            assert(seg@[j] == (Primitive::MoveTo { x: pts@[j].x, y: pts@[j].y }));
        }
        crate::curve::lemma_curve_endpoints(c, CURVE_RESOLUTION as int);
        assert(glide_matches(c, pre, tx as int, ty as int, seg@, post));
    }
    (seg, post)
}

/// Plan a plain pointer event: glide, click, trailing delay.
fn plan_mouse_plain(pre: Point, tx: u32, ty: u32, delay: &DelayRange) -> (r: (
    Vec<Primitive>,
    Point,
))
    requires
        wf_point(pre),
        tx <= MAX_TARGET,
        ty <= MAX_TARGET,
        delay.wf(),
    ensures
        mouse_plain_ok(pre, tx as int, ty as int, *delay, r.0@, r.1),
        r.0@.len() == glide_len() + 2,
        wf_point(r.1),
{
    let (mut plan, post) = plan_glide(pre, tx, ty);
    let ghost glide_part = plan@;
    plan.push(Primitive::Click);
    let d: u64 = draw_delay(delay);
    plan.push(Primitive::Sleep { ms: d });
    proof {
        assert(plan@.take(glide_len()) =~= glide_part);
    }
    (plan, post)
}

/// Plan one inventory cell: glide to the cell, then the held-shift click.
fn plan_cell(pre: Point, idx: u32) -> (r: (Vec<Primitive>, Point))
    requires
        wf_point(pre),
        idx < INVENTORY_ROWS * INVENTORY_COLS,
    ensures
        cell_matches(idx as int, pre, r.0@, r.1),
        r.0@.len() == cell_len(),
        wf_point(r.1),
{
    let tx: u32 = INVENTORY_BASE_X + (idx % INVENTORY_COLS) * INVENTORY_COL_STEP;
    let ty: u32 = INVENTORY_BASE_Y + (idx / INVENTORY_COLS) * INVENTORY_ROW_STEP;
    let (mut seg, post) = plan_glide(pre, tx, ty);
    let ghost glide_part = seg@;
    seg.push(Primitive::KeyDown { modifier: Modifier::Shift });
    seg.push(Primitive::Sleep { ms: MOD_GAP_MS });
    seg.push(Primitive::Click);
    seg.push(Primitive::Sleep { ms: MOD_GAP_MS });
    seg.push(Primitive::KeyUp { modifier: Modifier::Shift });
    seg.push(Primitive::Sleep { ms: MOD_GAP_MS });
    proof {
        assert(seg@.take(glide_len()) =~= glide_part);
        assert(shift_click_ok(seg@.skip(glide_len())));
    }
    (seg, post)
}

/// Plan the composite inventory-drop action from `pre`, then the trailing
/// delay of the triggering event.
fn plan_composite(pre: Point, delay: &DelayRange) -> (r: (Vec<Primitive>, Point))
    requires
        wf_point(pre),
        delay.wf(),
    ensures
        composite_ok(pre, *delay, r.0@, r.1),
        r.0@.len() == grid_cells() * cell_len() + 1,
        wf_point(r.1),
{
    let mut plan: Vec<Primitive> = Vec::new();
    let mut cur: Point = pre;
    let ghost mut ps: Seq<Point> = seq![pre];
    let total: u32 = INVENTORY_ROWS * INVENTORY_COLS;
    let mut i: u32 = 0;
    while i < total
        invariant
            total == INVENTORY_ROWS * INVENTORY_COLS,
            i <= total,
            wf_point(cur),
            plan@.len() == i * cell_len(),
            ps.len() == i + 1,
            ps[0] == pre,
            ps[i as int] == cur,
            forall|j: int|
                0 <= j < i ==> cell_matches(j, ps[j], #[trigger] cell_at(plan@, j), ps[j + 1]),
        decreases total - i,
    {
        let ghost old_plan = plan@;
        let (mut seg, post) = plan_cell(cur, i);
        let ghost old_seg = seg@;
        plan.append(&mut seg);
        proof {
            ps = ps.push(post);
            assert(cell_len() == 1008);
            assert(plan@.len() == old_plan.len() + 1008);
            assert forall|j: int|
                0 <= j < i + 1 implies cell_matches(j, ps[j], #[trigger] cell_at(plan@, j), ps[j + 1]) by {
                assert(cell_len() == 1008);
                if j < i {
                    assert(j * 1008 + 1008 == (j + 1) * 1008);
                    assert((j + 1) * 1008 <= i * 1008);
                    assert(cell_at(plan@, j) =~= cell_at(old_plan, j));
                    assert(cell_matches(j, ps[j], cell_at(old_plan, j), ps[j + 1]));
                } else {
                    assert(j == i);
                    assert(j * 1008 == old_plan.len());
                    assert(cell_at(plan@, j) =~= old_seg);
                    assert(cell_matches(i as int, cur, old_seg, post));
                }
            }
        }
        cur = post;
        i = i + 1;
    }
    let ghost chain_part = plan@;
    let d: u64 = draw_delay(delay);
    plan.push(Primitive::Sleep { ms: d });
    proof {
        assert(plan@.take(grid_cells() * cell_len()) =~= chain_part);
        assert(composite_chain(ps, pre, plan@.take(grid_cells() * cell_len()), cur));
    }
    (plan, cur)
}

/// Plan a key event: `count` presses with randomized gaps, then the
/// trailing delay.
fn plan_key(key: &KeySpec, delay: &DelayRange, count: u32) -> (r: Vec<Primitive>)
    requires
        delay.wf(),
        1 <= count <= crate::event::MAX_COUNT,
    ensures
        key_plan_ok(*key, *delay, count as int, r@),
        r@.len() == 2 * count + 1,
{
    let mut plan: Vec<Primitive> = Vec::new();
    let mut i: u32 = 0;
    while i < count
        invariant
            count <= crate::event::MAX_COUNT,
            i <= count,
            plan@.len() == 2 * i,
            forall|j: int|
                0 <= j < 2 * i && j % 2 == 0 ==> #[trigger] plan@[j] == (Primitive::PressKey {
                    key: *key,
                }),
            forall|j: int|
                0 <= j < 2 * i && j % 2 == 1 ==> is_sleep_in(
                    #[trigger] plan@[j],
                    KEY_GAP_MIN_MS as int,
                    KEY_GAP_MAX_MS as int,
                ),
        decreases count - i,
    {
        plan.push(Primitive::PressKey { key: clone_key(key) });
        let gap: i64 = rand_i64_in(KEY_GAP_MIN_MS as i64, KEY_GAP_MAX_MS as i64);
        plan.push(Primitive::Sleep { ms: gap as u64 });
        i = i + 1;
    }
    let d: u64 = draw_delay(delay);
    plan.push(Primitive::Sleep { ms: d });
    plan
}

/// Plan the periodic hook action: press the drop key, then the held-
/// control key chord, with its fixed gaps.
pub fn plan_hook() -> (r: Vec<Primitive>)
    ensures
        hook_plan_ok(r@),
{
    let mut plan: Vec<Primitive> = Vec::new();
    plan.push(Primitive::PressKey { key: KeySpec::Character('d') });
    let gap: i64 = rand_i64_in(KEY_GAP_MIN_MS as i64, KEY_GAP_MAX_MS as i64);
    plan.push(Primitive::Sleep { ms: gap as u64 });
    plan.push(Primitive::KeyDown { modifier: Modifier::Control });
    plan.push(Primitive::Sleep { ms: MOD_GAP_MS });
    plan.push(Primitive::PressKey { key: KeySpec::Character('a') });
    plan.push(Primitive::Sleep { ms: MOD_GAP_MS });
    plan.push(Primitive::KeyUp { modifier: Modifier::Control });
    plan.push(Primitive::Sleep { ms: MOD_GAP_MS });
    plan
}

/// Plan of the periodic hook: the drop key press with its randomized gap,
/// then `a` pressed under held control, each step separated by the fixed
/// modifier gap.
pub open spec fn hook_plan_ok(plan: Seq<Primitive>) -> bool {
    &&& plan.len() == 8
    &&& plan[0] == (Primitive::PressKey { key: KeySpec::Character('d') })
    &&& is_sleep_in(plan[1], KEY_GAP_MIN_MS as int, KEY_GAP_MAX_MS as int)
    &&& plan[2] == (Primitive::KeyDown { modifier: Modifier::Control })
    &&& plan[3] == (Primitive::Sleep { ms: MOD_GAP_MS })
    &&& plan[4] == (Primitive::PressKey { key: KeySpec::Character('a') })
    &&& plan[5] == (Primitive::Sleep { ms: MOD_GAP_MS })
    &&& plan[6] == (Primitive::KeyUp { modifier: Modifier::Control })
    &&& plan[7] == (Primitive::Sleep { ms: MOD_GAP_MS })
}

/// Execute one event on paper: produce the primitive sequence realizing
/// it from pointer position `pre`, and the pointer position afterwards.
/// An id naming the composite action selects the inventory drop; any
/// other pointer event is a plain glide and click.
pub fn plan_event(e: &Event, pre: Point) -> (r: (Vec<Primitive>, Point))
    requires
        wf_event(*e),
        wf_point(pre),
    ensures
        event_plan_ok(*e, pre, r.0@, r.1),
        r.0@.len() == event_plan_len(*e),
        wf_point(r.1),
{
    match e {
        Event::Mouse { id, x, y, delay } => {
            if contains_chars(id.as_str(), "drop_inventory") {
                plan_composite(pre, delay)
            } else {
                plan_mouse_plain(pre, *x, *y, delay)
            }
        },
        Event::KeyPress { key, delay, count, .. } => {
            let plan = plan_key(key, delay, *count);
            (plan, pre)
        },
    }
}

} // verus!
