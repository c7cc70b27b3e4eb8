//! Plane geometry over integer screen coordinates: points, the integer
//! square root used for distances, and the coordinate bounds that keep all
//! curve arithmetic inside `i64`.

use vstd::prelude::*;

verus! {

/// Largest magnitude a pointer coordinate may take. Event targets are held
/// slightly below it so that jitter never pushes a position outside.
pub const COORD_LIMIT: i64 = 1_000_000;

/// Largest magnitude a curve control-point coordinate may take; curve
/// construction keeps control points within it (see `curve`).
pub const CTRL_LIMIT: i64 = 10_000_000;

/// An absolute screen position. Negative coordinates are allowed (multi-head
/// layouts place screens left of or above the origin).
#[derive(Clone, Copy, PartialEq, Eq, Structural, Debug)]
pub struct Point {
    pub x: i64,
    pub y: i64,
}

/// A pointer position the engine agrees to work with: both coordinates
/// bounded by `COORD_LIMIT` in magnitude.
pub open spec fn wf_point(p: Point) -> bool {
    -COORD_LIMIT <= p.x <= COORD_LIMIT && -COORD_LIMIT <= p.y <= COORD_LIMIT
}

/// Floor of the square root: the unique `r` with `r * r <= n < (r + 1) * (r + 1)`.
pub fn isqrt(n: u64) -> (r: u64)
    requires
        n <= 32_000_000_000_000,
    ensures
        r * r <= n < (r + 1) * (r + 1),
{
    let mut r: u64 = 0;
    loop
        invariant
            n <= 32_000_000_000_000,
            r * r <= n,
            r <= 6_000_000,
        decreases n - r,
    {
        proof {
            assert((r + 1) * (r + 1) <= 36_000_012_000_001) by (nonlinear_arith)
                requires r <= 6_000_000;
        }
        let next: u64 = (r + 1) * (r + 1);
        if next > n {
            return r;
        }
        proof {
            assert(r + 1 <= 6_000_000) by (nonlinear_arith)
                requires (r + 1) * (r + 1) <= 32_000_000_000_000;
            assert(r < n) by (nonlinear_arith)
                requires (r + 1) * (r + 1) <= n;
        }
        r = r + 1;
    }
}

/// Euclidean distance between two bounded points, rounded down to an
/// integer. The result dominates each axis gap, which bounds every control
/// point the curve builder derives from it.
pub fn dist(a: Point, b: Point) -> (d: u64)
    requires
        wf_point(a),
        wf_point(b),
    ensures
        d * d <= (b.x - a.x) * (b.x - a.x) + (b.y - a.y) * (b.y - a.y) < (d + 1) * (d + 1),
        d <= 2_900_000,
        b.x - a.x <= d && a.x - b.x <= d && b.y - a.y <= d && a.y - b.y <= d,
        d == 0 ==> a == b,
{
    let dx: i64 = b.x - a.x;
    let dy: i64 = b.y - a.y;
    proof {
        assert(0 <= dx * dx <= 4_000_000_000_000 && 0 <= dy * dy <= 4_000_000_000_000)
            by (nonlinear_arith)
            requires
                -2_000_000 <= dx <= 2_000_000,
                -2_000_000 <= dy <= 2_000_000,
        ;
    }
    let d2: u64 = (dx * dx) as u64 + (dy * dy) as u64;
    let d: u64 = isqrt(d2);
    proof {
        assert(d <= 2_900_000) by (nonlinear_arith)
            requires d * d <= 8_000_000_000_000;
        assert(dx <= d && -dx <= d && dy <= d && -dy <= d) by (nonlinear_arith)
            requires
                d2 == dx * dx + dy * dy,
                dx * dx >= 0,
                dy * dy >= 0,
                d >= 0,
                d * d <= d2 < (d + 1) * (d + 1);
        if d == 0 {
            assert(dx == 0 && dy == 0) by (nonlinear_arith)
                requires dx * dx + dy * dy < 1;
        }
    }
    d
}

} // verus!
