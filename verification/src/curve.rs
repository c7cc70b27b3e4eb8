//! Human-like pointer motion: randomized cubic parametric curves over
//! integer coordinates, and exact sampling.
//!
//! A motion curve is a cubic with four control points. Sampling evaluates
//! it at the rational parameters `k / n` for `k = 0 ..= n`; each coordinate
//! is the exact integer quotient `bez_num / n^3` (rounded toward negative
//! infinity), so the first sample is exactly the curve's start and the last
//! exactly its end.

use vstd::prelude::*;
use crate::geom::{Point, dist, isqrt, wf_point, CTRL_LIMIT};
use crate::rng::rand_i64_in;

verus! {

use vstd::arithmetic::div_mod::lemma_div_is_ordered;
use vstd::arithmetic::div_mod::lemma_div_multiples_vanish;
use vstd::arithmetic::div_mod::lemma_hoist_over_denominator;

/// Largest sampling resolution the engine accepts; keeps `n^3` times a
/// control coordinate inside `i64`.
pub const MAX_RESOLUTION: u32 = 2_000;

/// A cubic motion curve: start, two control points, end. Immutable once
/// built; consumed only by sampling.
#[derive(Clone, Copy, PartialEq, Eq, Structural, Debug)]
pub struct MotionCurve {
    pub p0: Point,
    pub p1: Point,
    pub p2: Point,
    pub p3: Point,
}

/// All control coordinates bounded by `CTRL_LIMIT` in magnitude.
pub open spec fn wf_curve(c: MotionCurve) -> bool {
    &&& -CTRL_LIMIT <= c.p0.x <= CTRL_LIMIT && -CTRL_LIMIT <= c.p0.y <= CTRL_LIMIT
    &&& -CTRL_LIMIT <= c.p1.x <= CTRL_LIMIT && -CTRL_LIMIT <= c.p1.y <= CTRL_LIMIT
    &&& -CTRL_LIMIT <= c.p2.x <= CTRL_LIMIT && -CTRL_LIMIT <= c.p2.y <= CTRL_LIMIT
    &&& -CTRL_LIMIT <= c.p3.x <= CTRL_LIMIT && -CTRL_LIMIT <= c.p3.y <= CTRL_LIMIT
}

/// Numerator of the cubic Bernstein form at parameter `k / n`, scaled by
/// `n^3`.
pub open spec fn bez_num(a0: int, a1: int, a2: int, a3: int, k: int, n: int) -> int {
    (n - k) * (n - k) * (n - k) * a0 + 3 * (n - k) * (n - k) * k * a1 + 3 * (n - k) * k * k * a2
        + k * k * k * a3
}

/// X coordinate of the curve at parameter `k / n`.
pub open spec fn curve_x(c: MotionCurve, k: int, n: int) -> int {
    bez_num(c.p0.x as int, c.p1.x as int, c.p2.x as int, c.p3.x as int, k, n) / (n * n * n)
}

/// Y coordinate of the curve at parameter `k / n`.
pub open spec fn curve_y(c: MotionCurve, k: int, n: int) -> int {
    bez_num(c.p0.y as int, c.p1.y as int, c.p2.y as int, c.p3.y as int, k, n) / (n * n * n)
}

/// The magnitude of an integer.
pub open spec fn abs_val(x: int) -> int {
    if x >= 0 { x } else { -x }
}

/// Quotient of a possibly negative numerator by a positive denominator,
/// rounded toward zero.
pub open spec fn scaled_div(num: int, den: int) -> int {
    if num >= 0 { num / den } else { -((-num) / den) }
}

/// The sum of the four cubic Bernstein coefficients is `n^3`.
proof fn lemma_bez_coeff_sum(k: int, n: int)
    requires
        0 <= k <= n,
    ensures
        (n - k) * (n - k) * (n - k) + 3 * (n - k) * (n - k) * k + 3 * (n - k) * k * k + k * k * k
            == n * n * n,
{
    assert((n - k) * (n - k) * (n - k) + 3 * (n - k) * (n - k) * k + 3 * (n - k) * k * k
        + k * k * k == n * n * n) by (nonlinear_arith);
}

/// At the ends of the parameter range the curve passes exactly through its
/// start and end control points.
pub proof fn lemma_curve_endpoints(c: MotionCurve, n: int)
    requires
        1 <= n,
    ensures
        curve_x(c, 0, n) == c.p0.x,
        curve_y(c, 0, n) == c.p0.y,
        curve_x(c, n, n) == c.p3.x,
        curve_y(c, n, n) == c.p3.y,
{
    assert(1 <= n * n * n) by (nonlinear_arith)
        requires 1 <= n;
    assert(bez_num(c.p0.x as int, c.p1.x as int, c.p2.x as int, c.p3.x as int, 0, n) == n * n * n * c.p0.x)
        by (nonlinear_arith);
    assert(bez_num(c.p0.y as int, c.p1.y as int, c.p2.y as int, c.p3.y as int, 0, n) == n * n * n * c.p0.y)
        by (nonlinear_arith);
    assert(bez_num(c.p0.x as int, c.p1.x as int, c.p2.x as int, c.p3.x as int, n, n) == n * n * n * c.p3.x)
        by (nonlinear_arith);
    assert(bez_num(c.p0.y as int, c.p1.y as int, c.p2.y as int, c.p3.y as int, n, n) == n * n * n * c.p3.y)
        by (nonlinear_arith);
    lemma_div_multiples_vanish(c.p0.x as int, n * n * n);
    lemma_div_multiples_vanish(c.p0.y as int, n * n * n);
    lemma_div_multiples_vanish(c.p3.x as int, n * n * n);
    lemma_div_multiples_vanish(c.p3.y as int, n * n * n);
}

/// A curve whose four control points coincide stays at that point for
/// every sampling parameter: zero deviation everywhere.
pub proof fn lemma_curve_degenerate(c: MotionCurve, k: int, n: int)
    requires
        1 <= n,
        0 <= k <= n,
        c.p1 == c.p0,
        c.p2 == c.p0,
        c.p3 == c.p0,
    ensures
        curve_x(c, k, n) == c.p0.x,
        curve_y(c, k, n) == c.p0.y,
{
    assert(1 <= n * n * n) by (nonlinear_arith)
        requires 1 <= n;
    lemma_bez_coeff_sum(k, n);
    assert(bez_num(c.p0.x as int, c.p0.x as int, c.p0.x as int, c.p0.x as int, k, n) == n * n * n * c.p0.x)
        by (nonlinear_arith)
        requires
            (n - k) * (n - k) * (n - k) + 3 * (n - k) * (n - k) * k + 3 * (n - k) * k * k
                + k * k * k == n * n * n,
    ;
    assert(bez_num(c.p0.y as int, c.p0.y as int, c.p0.y as int, c.p0.y as int, k, n) == n * n * n * c.p0.y)
        by (nonlinear_arith)
        requires
            (n - k) * (n - k) * (n - k) + 3 * (n - k) * (n - k) * k + 3 * (n - k) * k * k
                + k * k * k == n * n * n,
    ;
    lemma_div_multiples_vanish(c.p0.x as int, n * n * n);
    lemma_div_multiples_vanish(c.p0.y as int, n * n * n);
}

/// Evaluate one coordinate of the Bernstein form at `k / n`, exactly.
fn eval_coord(a0: i64, a1: i64, a2: i64, a3: i64, k: u32, n: u32) -> (x: i64)
    requires
        1 <= n <= MAX_RESOLUTION,
        k <= n,
        -CTRL_LIMIT <= a0 <= CTRL_LIMIT,
        -CTRL_LIMIT <= a1 <= CTRL_LIMIT,
        -CTRL_LIMIT <= a2 <= CTRL_LIMIT,
        -CTRL_LIMIT <= a3 <= CTRL_LIMIT,
    ensures
        x == bez_num(a0 as int, a1 as int, a2 as int, a3 as int, k as int, n as int) / (n * n
            * n),
        -CTRL_LIMIT <= x <= CTRL_LIMIT,
{
    let nk: i64 = (n - k) as i64;
    let kk: i64 = k as i64;
    let nn: i64 = n as i64;
    proof {
        assert(0 <= nk * nk <= 4_000_000 && 0 <= kk * kk <= 4_000_000 && 1 <= nn * nn
            <= 4_000_000 && 0 <= 3 * nk * nk <= 12_000_000 && 0 <= 3 * nk * kk <= 12_000_000
            && 0 <= nk * nk * nk <= 8_000_000_000 && 0 <= 3 * nk * nk * kk
            <= 24_000_000_000 && 0 <= 3 * nk * kk * kk <= 24_000_000_000 && 0 <= kk * kk * kk
            <= 8_000_000_000 && 1 <= nn * nn * nn <= 8_000_000_000) by (nonlinear_arith)
            requires
                0 <= nk <= 2000,
                0 <= kk <= 2000,
                1 <= nn <= 2000,
        ;
    }
    let c0: i64 = nk * nk * nk;
    let c1: i64 = 3 * nk * nk * kk;
    let c2: i64 = 3 * nk * kk * kk;
    let c3: i64 = kk * kk * kk;
    let den: i64 = nn * nn * nn;
    proof {
        lemma_bez_coeff_sum(kk as int, nn as int);
        assert(c0 + c1 + c2 + c3 == den);
        assert(-c0 * CTRL_LIMIT <= c0 * a0 <= c0 * CTRL_LIMIT) by (nonlinear_arith)
            requires 0 <= c0, -CTRL_LIMIT <= a0 <= CTRL_LIMIT;
        assert(-c1 * CTRL_LIMIT <= c1 * a1 <= c1 * CTRL_LIMIT) by (nonlinear_arith)
            requires 0 <= c1, -CTRL_LIMIT <= a1 <= CTRL_LIMIT;
        assert(-c2 * CTRL_LIMIT <= c2 * a2 <= c2 * CTRL_LIMIT) by (nonlinear_arith)
            requires 0 <= c2, -CTRL_LIMIT <= a2 <= CTRL_LIMIT;
        assert(-c3 * CTRL_LIMIT <= c3 * a3 <= c3 * CTRL_LIMIT) by (nonlinear_arith)
            requires 0 <= c3, -CTRL_LIMIT <= a3 <= CTRL_LIMIT;
        assert(c0 * CTRL_LIMIT + c1 * CTRL_LIMIT + c2 * CTRL_LIMIT + c3 * CTRL_LIMIT == den
            * CTRL_LIMIT) by (nonlinear_arith)
            requires c0 + c1 + c2 + c3 == den;
        assert(den * CTRL_LIMIT <= 80_000_000_000_000_000) by (nonlinear_arith)
            requires 0 <= den <= 8_000_000_000;
    }
    let num: i64 = c0 * a0 + c1 * a1 + c2 * a2 + c3 * a3;
    let shifted: i64 = num + den * CTRL_LIMIT;
    let q: u64 = (shifted as u64) / (den as u64);
    proof {
        lemma_hoist_over_denominator(num as int, CTRL_LIMIT as int, den as nat);
        assert(q == num as int / den as int + CTRL_LIMIT);
        lemma_div_is_ordered(-(den * CTRL_LIMIT) as int, num as int, den as int);
        lemma_div_is_ordered(num as int, (den * CTRL_LIMIT) as int, den as int);
        lemma_div_multiples_vanish(CTRL_LIMIT as int, den as int);
        assert(den * CTRL_LIMIT == den * (CTRL_LIMIT as int)) by (nonlinear_arith);
        assert(-(den * CTRL_LIMIT) == den * (-CTRL_LIMIT as int)) by (nonlinear_arith);
        lemma_div_multiples_vanish(-CTRL_LIMIT as int, den as int);
    }
    (q as i64) - CTRL_LIMIT
}

/// Sample the curve at `resolution + 1` evenly spaced parameters, in
/// increasing parameter order. The first point is exactly the curve's
/// start and the last exactly its end; a degenerate curve (all control
/// points equal) yields `resolution + 1` copies of that point.
pub fn sample(c: &MotionCurve, resolution: u32) -> (pts: Vec<Point>)
    requires
        wf_curve(*c),
        1 <= resolution <= MAX_RESOLUTION,
    ensures
        pts@.len() == resolution + 1,
        forall|k: int|
            0 <= k <= resolution ==> (#[trigger] pts@[k]).x == curve_x(*c, k, resolution as int)
                && pts@[k].y == curve_y(*c, k, resolution as int),
        forall|k: int|
            0 <= k <= resolution ==> -CTRL_LIMIT <= (#[trigger] pts@[k]).x <= CTRL_LIMIT
                && -CTRL_LIMIT <= pts@[k].y <= CTRL_LIMIT,
        pts@[0] == c.p0,
        pts@[resolution as int] == c.p3,
        (c.p1 == c.p0 && c.p2 == c.p0 && c.p3 == c.p0) ==> forall|k: int|
            0 <= k <= resolution ==> pts@[k] == c.p0,
{
    let n = resolution;
    let mut pts: Vec<Point> = Vec::new();
    let mut k: u32 = 0;
    while k <= n
        invariant
            wf_curve(*c),
            1 <= n <= MAX_RESOLUTION,
            k <= n + 1,
            pts@.len() == k,
            forall|j: int|
                0 <= j < k ==> (#[trigger] pts@[j]).x == curve_x(*c, j, n as int) && pts@[j].y
                    == curve_y(*c, j, n as int),
            forall|j: int|
                0 <= j < k ==> -CTRL_LIMIT <= (#[trigger] pts@[j]).x <= CTRL_LIMIT && -CTRL_LIMIT
                    <= pts@[j].y <= CTRL_LIMIT,
        decreases n - k + 1,
    {
        let x = eval_coord(c.p0.x, c.p1.x, c.p2.x, c.p3.x, k, n);
        let y = eval_coord(c.p0.y, c.p1.y, c.p2.y, c.p3.y, k, n);
        pts.push(Point { x, y });
        k = k + 1;
    }
    proof {
        lemma_curve_endpoints(*c, n as int);
        assert(pts@[0].x == curve_x(*c, 0, n as int));
        assert(pts@[n as int].x == curve_x(*c, n as int, n as int));
        if c.p1 == c.p0 && c.p2 == c.p0 && c.p3 == c.p0 {
            assert forall|k: int| 0 <= k <= n implies pts@[k] == c.p0 by {
                lemma_curve_degenerate(*c, k, n as int);
            }
        }
    }
    pts
}

/// Scaled rotated direction component: `off * r / (1000 * d)`, rounded
/// toward zero, bounded by `3 * d` in magnitude.
fn scaled_component(off: i64, r: i64, d: i64) -> (v: i64)
    requires
        1 <= d <= 2_900_000,
        0 <= off <= d,
        -5_000_000_000 <= r <= 5_000_000_000,
        -1717 * d <= r <= 1717 * d,
    ensures
        v == scaled_div(off * r, 1000 * d),
        -3 * d <= v <= 3 * d,
{
    proof {
        assert(-1717 * (d * d) <= off * r <= 1717 * (d * d)) by (nonlinear_arith)
            requires
                0 <= off <= d,
                -1717 * d <= r <= 1717 * d,
                1 <= d,
        ;
        assert(1717 * (d * d) <= 15_000_000_000_000_000) by (nonlinear_arith)
            requires 1 <= d <= 2_900_000;
        assert(1000 * d >= 1000);
    }
    let num: i64 = off * r;
    let den: i64 = 1000 * d;
    let v: i64 = if num >= 0 {
        ((num as u64) / (den as u64)) as i64
    } else {
        proof {
            vstd::arithmetic::div_mod::lemma_div_pos_is_pos(-num as int, den as int);
            lemma_div_is_ordered(0, -num as int, den as int);
        }
        -((((-num) as u64) / (den as u64)) as i64)
    };
    proof {
        let numi = num as int;
        let deni = den as int;
        assert(1717 * (d * d) <= 3 * d * deni) by (nonlinear_arith)
            requires 1 <= d, deni == 1000 * d;
        lemma_div_multiples_vanish(3 * d, deni);
        if numi >= 0 {
            lemma_div_is_ordered(numi, deni * (3 * d), deni);
            assert(deni * (3 * d) == 3 * d * deni) by (nonlinear_arith);
            lemma_div_is_ordered(0, numi, deni);
        } else {
            lemma_div_is_ordered(-numi, deni * (3 * d), deni);
            assert(deni * (3 * d) == 3 * d * deni) by (nonlinear_arith);
            lemma_div_is_ordered(0, -numi, deni);
        }
    }
    v
}

/// Build a randomized cubic curve from `start` to `end`.
///
/// The deviation scale is three fifths of the distance; the first control
/// point leaves `start` along the bearing perturbed by a random angle drawn
/// within about 0.8 radians, the second approaches `end` along the bearing
/// perturbed within about 0.5 radians, with independently drawn offset
/// magnitudes. Coincident endpoints give the degenerate curve with zero
/// deviation: all four control points equal.
pub fn build(start: Point, end: Point) -> (c: MotionCurve)
    requires
        wf_point(start),
        wf_point(end),
    ensures
        c.p0 == start,
        c.p3 == end,
        wf_curve(c),
        start == end ==> c.p1 == start && c.p2 == start,
        abs_val(c.p1.x - start.x) <= 3 * (abs_val(end.x - start.x) + abs_val(end.y - start.y)),
        abs_val(c.p1.y - start.y) <= 3 * (abs_val(end.x - start.x) + abs_val(end.y - start.y)),
        abs_val(c.p2.x - end.x) <= 3 * (abs_val(end.x - start.x) + abs_val(end.y - start.y)),
        abs_val(c.p2.y - end.y) <= 3 * (abs_val(end.x - start.x) + abs_val(end.y - start.y)),
{
    let d64: u64 = dist(start, end);
    if d64 == 0 {
        return MotionCurve { p0: start, p1: start, p2: start, p3: end };
    }
    let d: i64 = d64 as i64;
    let dev: u64 = d64 * 3 / 5;
    let off1: i64 = rand_i64_in((dev / 2) as i64, dev as i64);
    proof {
        lemma_div_is_ordered(3 * dev as int, 8 * dev as int, 10);
    }
    let off2: i64 = rand_i64_in((dev * 3 / 10) as i64, (dev * 8 / 10) as i64);
    let s1: i64 = rand_i64_in(-717, 717);
    let s2: i64 = rand_i64_in(-479, 479);
    proof {
        assert(0 <= s1 * s1 <= 514_089 && 0 <= s2 * s2 <= 514_089) by (nonlinear_arith)
            requires -717 <= s1 <= 717, -717 <= s2 <= 717;
    }
    let c1u: u64 = isqrt((1_000_000 - s1 * s1) as u64);
    let c2u: u64 = isqrt((1_000_000 - s2 * s2) as u64);
    proof {
        assert(c1u <= 1000 && c2u <= 1000) by (nonlinear_arith)
            requires c1u * c1u <= 1_000_000, c2u * c2u <= 1_000_000;
    }
    let c1: i64 = c1u as i64;
    let c2: i64 = c2u as i64;
    proof {
        assert(dev <= d64);
        lemma_div_is_ordered(3 * d64 as int, 5 * d64 as int, 5);
        lemma_div_multiples_vanish(d64 as int, 5);
        assert(5 * d64 as int == d64 as int * 5) by (nonlinear_arith);
    }
    let dx: i64 = end.x - start.x;
    let dy: i64 = end.y - start.y;
    proof {
        assert(-2_900_000_000 <= c1 * dx <= 2_900_000_000 && -2_079_300_000 <= s1 * dy
            <= 2_079_300_000 && -2_900_000_000 <= c1 * dy <= 2_900_000_000 && -2_079_300_000
            <= s1 * dx <= 2_079_300_000) by (nonlinear_arith)
            requires
                0 <= c1 <= 1000,
                -717 <= s1 <= 717,
                -2_900_000 <= dx <= 2_900_000,
                -2_900_000 <= dy <= 2_900_000,
        ;
        assert(-2_900_000_000 <= c2 * dx <= 2_900_000_000 && -2_079_300_000 <= s2 * dy
            <= 2_079_300_000 && -2_900_000_000 <= c2 * dy <= 2_900_000_000 && -2_079_300_000
            <= s2 * dx <= 2_079_300_000) by (nonlinear_arith)
            requires
                0 <= c2 <= 1000,
                -717 <= s2 <= 717,
                -2_900_000 <= dx <= 2_900_000,
                -2_900_000 <= dy <= 2_900_000,
        ;
        assert(-1717 * d <= c1 * dx - s1 * dy <= 1717 * d && -1717 * d <= c1 * dy + s1 * dx
            <= 1717 * d) by (nonlinear_arith)
            requires
                0 <= c1 <= 1000,
                -717 <= s1 <= 717,
                -d <= dx <= d,
                -d <= dy <= d,
                1 <= d,
        ;
        assert(-1717 * d <= c2 * dx - s2 * dy <= 1717 * d && -1717 * d <= c2 * dy + s2 * dx
            <= 1717 * d) by (nonlinear_arith)
            requires
                0 <= c2 <= 1000,
                -717 <= s2 <= 717,
                -d <= dx <= d,
                -d <= dy <= d,
                1 <= d,
        ;
    }
    let v1x: i64 = scaled_component(off1, c1 * dx - s1 * dy, d);
    let v1y: i64 = scaled_component(off1, c1 * dy + s1 * dx, d);
    let v2x: i64 = scaled_component(off2, c2 * dx - s2 * dy, d);
    let v2y: i64 = scaled_component(off2, c2 * dy + s2 * dx, d);
    let p1 = Point { x: start.x + v1x, y: start.y + v1y };
    let p2 = Point { x: end.x - v2x, y: end.y - v2y };
    proof {
        assert(d * d <= (dx * dx + dy * dy));
        assert(d <= abs_val(dx as int) + abs_val(dy as int)) by (nonlinear_arith)
            requires
                0 <= d,
                d * d <= dx * dx + dy * dy,
        ;
    }
    MotionCurve { p0: start, p1, p2, p3: end }
}

} // verus!
