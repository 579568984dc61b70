//! Planar points on the unit torus.

use vstd::prelude::*;
use crate::fixed::{SCALE, in_range, isqrt};

verus! {

/// A point with fixed-point coordinates.
#[derive(Clone, Copy, PartialEq, Eq, Structural)]
pub struct Point {
    pub x: i64,
    pub y: i64,
}

/// A point lying on the unit torus `[0, SCALE) x [0, SCALE)`.
pub open spec fn on_torus(p: Point) -> bool {
    0 <= p.x < SCALE && 0 <= p.y < SCALE
}

/// Squared Euclidean distance between two points.
pub open spec fn dist2_sp(a: Point, b: Point) -> int {
    (a.x - b.x) * (a.x - b.x) + (a.y - b.y) * (a.y - b.y)
}

/// Squared Euclidean distance of two points with in-range coordinates.
pub fn dist2(a: Point, b: Point) -> (r: i64)
    requires
        0 <= a.x < SCALE,
        0 <= a.y < SCALE,
        0 <= b.x < SCALE,
        0 <= b.y < SCALE,
    ensures
        r as int == dist2_sp(a, b),
        0 <= r < 0x200000000,
{
    let dx: i64 = a.x - b.x;
    let dy: i64 = a.y - b.y;
    proof {
        assert(0 <= dx * dx < 0x100000000 && 0 <= dy * dy < 0x100000000)
            by (nonlinear_arith)
            requires
                -(SCALE as int) < dx as int,
                (dx as int) < (SCALE as int),
                -(SCALE as int) < dy as int,
                (dy as int) < (SCALE as int),
        ;
    }
    dx * dx + dy * dy
}

/// The integer square root as a spec value: the unique non-negative `r`
/// whose square is the largest not exceeding `x`.
pub open spec fn sqrt_floor_sp(x: int) -> int {
    choose|r: int| 0 <= r && #[trigger] (r * r) <= x && x < (r + 1) * (r + 1)
}

/// Any witness of the square-root window is the spec square root.
pub proof fn lemma_sqrt_floor_unique(x: int, r: int)
    requires
        0 <= r,
        r * r <= x,
        x < (r + 1) * (r + 1),
    ensures
        sqrt_floor_sp(x) == r,
{
    assert(exists|t: int| 0 <= t && #[trigger] (t * t) <= x && x < (t + 1) * (t + 1)) by {
        assert(0 <= r && r * r <= x && x < (r + 1) * (r + 1));
    }
    let c = sqrt_floor_sp(x);
    assert(0 <= c && c * c <= x && x < (c + 1) * (c + 1));
    if c < r {
        assert(x < (c + 1) * (c + 1) && (c + 1) * (c + 1) <= r * r) by (nonlinear_arith)
            requires
                0 <= c < r,
                x < (c + 1) * (c + 1),
        ;
    }
    if r < c {
        assert(x < (r + 1) * (r + 1) && (r + 1) * (r + 1) <= c * c) by (nonlinear_arith)
            requires
                0 <= r < c,
                x < (r + 1) * (r + 1),
        ;
    }
}

/// The Euclidean distance between two torus points, rounded down.
pub fn dist_floor(a: Point, b: Point) -> (r: i64)
    requires
        on_torus(a),
        on_torus(b),
    ensures
        r as int == sqrt_floor_sp(dist2_sp(a, b)),
        0 <= r < 2 * SCALE,
{
    let d2: i64 = dist2(a, b);
    let s: u64 = isqrt(d2 as u64);
    proof {
        lemma_sqrt_floor_unique(d2 as int, s as int);
        assert((2 * SCALE as int) * (2 * SCALE as int) > 0x200000000) by (nonlinear_arith);
        if s as int >= 2 * SCALE as int {
            assert((s as int) * (s as int) >= (2 * SCALE as int) * (2 * SCALE as int))
                by (nonlinear_arith)
                requires
                    s as int >= 2 * SCALE as int,
            ;
        }
    }
    s as i64
}

} // verus!
