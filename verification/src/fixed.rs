//! Fixed-point scalar arithmetic.
//!
//! Every scalar in this library (positions, speeds, angles, weights, genes,
//! sensor energies) is an `i64` holding the real value times `SCALE`.
//! Stored scalars are kept inside `[-VAL_MAX, VAL_MAX]`; arithmetic that
//! could leave that range is clipped back into it.

use vstd::prelude::*;

verus! {

/// One, in fixed-point units: a scalar `x` stands for the real number `x / SCALE`.
pub const SCALE: i64 = 65536;

/// Largest magnitude a stored scalar may take.
pub const VAL_MAX: i64 = 1073741824;

/// Pi in fixed-point units (rounded to the nearest unit).
pub const PI_FP: i64 = 205887;

/// Two pi in fixed-point units, kept as exactly `2 * PI_FP`.
pub const TWO_PI_FP: i64 = 411774;

/// Half pi in fixed-point units, kept as exactly `PI_FP / 2` rounded up.
pub const HALF_PI_FP: i64 = 102944;

/// Quarter pi in fixed-point units.
pub const QUARTER_PI_FP: i64 = 51472;

/// Coefficient of the arctangent correction term (0.273 in fixed point).
pub const ATAN_K_FP: i64 = 17892;

pub open spec fn in_range(x: int) -> bool {
    -(VAL_MAX as int) <= x <= VAL_MAX as int
}

/// Every entry lies in the stored-scalar range.
pub open spec fn all_in_range(s: Seq<i64>) -> bool {
    forall|i: int| 0 <= i < s.len() ==> in_range(#[trigger] s[i] as int)
}

/// Clip a value into the stored-scalar range.
pub open spec fn clip_sp(x: int) -> int {
    if x < -(VAL_MAX as int) {
        -(VAL_MAX as int)
    } else if x > VAL_MAX as int {
        VAL_MAX as int
    } else {
        x
    }
}

/// Scale a double-width product back down, truncating toward zero.
pub open spec fn div_scale_sp(x: int) -> int {
    if x >= 0 {
        x / (SCALE as int)
    } else {
        -((-x) / (SCALE as int))
    }
}

/// Fixed-point multiplication: scale the product down, then clip.
pub open spec fn fp_mul_sp(a: int, b: int) -> int {
    clip_sp(div_scale_sp(a * b))
}

/// Clip a double-width value into the stored-scalar range.
pub fn clip128(x: i128) -> (r: i64)
    ensures
        r as int == clip_sp(x as int),
        in_range(r as int),
{
    if x < -(VAL_MAX as i128) {
        -VAL_MAX
    } else if x > VAL_MAX as i128 {
        VAL_MAX
    } else {
        x as i64
    }
}

/// Divide a double-width value by `SCALE`, truncating toward zero.
pub fn div_scale128(x: i128) -> (r: i128)
    requires
        x as int > -0x80000000000000000000000000000000,
    ensures
        r as int == div_scale_sp(x as int),
{
    if x >= 0 {
        let m: u128 = x as u128;
        (m / (SCALE as u128)) as i128
    } else {
        let m: u128 = (-x) as u128;
        -((m / (SCALE as u128)) as i128)
    }
}

/// Fixed-point multiplication of two in-range scalars.
pub fn fp_mul(a: i64, b: i64) -> (r: i64)
    requires
        in_range(a as int),
        in_range(b as int),
    ensures
        r as int == fp_mul_sp(a as int, b as int),
        in_range(r as int),
{
    proof {
        assert((a as int) * (b as int) <= (VAL_MAX as int) * (VAL_MAX as int)
            && (a as int) * (b as int) >= -((VAL_MAX as int) * (VAL_MAX as int)))
            by (nonlinear_arith)
            requires
                -(VAL_MAX as int) <= a as int <= VAL_MAX as int,
                -(VAL_MAX as int) <= b as int <= VAL_MAX as int,
        ;
    }
    let p: i128 = (a as i128) * (b as i128);
    let q: i128 = div_scale128(p);
    clip128(q)
}

/// Clamp a scalar into `[lo, hi]`.
pub open spec fn clamp_sp(x: int, lo: int, hi: int) -> int {
    if x < lo {
        lo
    } else if x > hi {
        hi
    } else {
        x
    }
}

pub fn clamp(x: i64, lo: i64, hi: i64) -> (r: i64)
    requires
        lo <= hi,
    ensures
        r as int == clamp_sp(x as int, lo as int, hi as int),
        lo <= r <= hi,
{
    if x < lo {
        lo
    } else if x > hi {
        hi
    } else {
        x
    }
}

/// A world coordinate wrapped onto the unit torus: the representative of
/// `x` modulo `SCALE` lying in `[0, SCALE)`.
pub open spec fn wrap_coord_sp(x: int) -> int {
    x % (SCALE as int)
}

/// Wrap a coordinate onto the unit torus.
///
/// A coordinate that would step just past one edge reappears at the
/// opposite edge, shifted by exactly one world width.
pub fn wrap_coord(x: i64) -> (r: i64)
    requires
        in_range(x as int),
    ensures
        r as int == wrap_coord_sp(x as int),
        0 <= r < SCALE,
        SCALE <= x < 2 * SCALE ==> r == x - SCALE,
        -SCALE <= x < 0 ==> r == x + SCALE,
        0 <= x < SCALE ==> r == x,
{
    if x >= 0 {
        let m: u64 = (x as u64) % (SCALE as u64);
        m as i64
    } else {
        let m: u64 = ((-x) as u64) % (SCALE as u64);
        if m == 0 {
            0
        } else {
            SCALE - (m as i64)
        }
    }
}

/// An angle wrapped into `[-PI_FP, PI_FP)`.
pub open spec fn wrap_angle_sp(a: int) -> int {
    (a + PI_FP as int) % (TWO_PI_FP as int) - PI_FP as int
}

/// Wrap an angle into `[-PI_FP, PI_FP)`.
pub fn wrap_angle(a: i64) -> (r: i64)
    requires
        in_range(a as int),
    ensures
        r as int == wrap_angle_sp(a as int),
        -PI_FP <= r < PI_FP,
{
    let shifted: i64 = a + PI_FP;
    let m: i64 = if shifted >= 0 {
        ((shifted as u64) % (TWO_PI_FP as u64)) as i64
    } else {
        let k: u64 = ((-shifted) as u64) % (TWO_PI_FP as u64);
        if k == 0 {
            0
        } else {
            TWO_PI_FP - (k as i64)
        }
    };
    m - PI_FP
}

/// Integer square root: the largest `r` with `r * r <= x`.
pub fn isqrt(x: u64) -> (r: u64)
    requires
        x < 0x1000000000000,
    ensures
        r * r <= x,
        x < (r + 1) * (r + 1),
        r <= 0x1000000,
{
    let mut lo: u64 = 0;
    let mut hi: u64 = 0x1000000;
    proof {
        assert((0x1000000u64 + 1) * (0x1000000u64 + 1) > 0x1000000000000) by (nonlinear_arith);
    }
    while lo < hi
        invariant
            lo <= hi <= 0x1000000,
            lo * lo <= x,
            x < (hi + 1) * (hi + 1),
        decreases hi - lo,
    {
        let mid: u64 = lo + (hi - lo + 1) / 2;
        proof {
            assert(lo < mid <= hi);
            assert(mid * mid <= 0x1000000000000) by (nonlinear_arith)
                requires
                    mid <= 0x1000000u64,
            ;
        }
        if mid * mid <= x {
            lo = mid;
        } else {
            hi = mid - 1;
            proof {
                assert(x < ((mid - 1) + 1) * ((mid - 1) + 1));
            }
        }
    }
    lo
}

} // verus!
