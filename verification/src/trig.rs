//! Fixed-point trigonometry.
//!
//! The sine uses Bhaskara's rational approximation on `[0, PI_FP]`, extended
//! by symmetry; the cosine is the sine shifted a quarter turn; the arctangent
//! uses a quadratic approximation on the first octant, extended by octant and
//! quadrant symmetry. Each executable function returns exactly the value of
//! its spec-level counterpart, so every caller is pinned to one definition.

use vstd::prelude::*;
use vstd::arithmetic::div_mod::lemma_div_is_ordered;
use vstd::arithmetic::div_mod::lemma_div_by_multiple;
use crate::fixed::{
    SCALE, VAL_MAX, PI_FP, TWO_PI_FP, HALF_PI_FP, QUARTER_PI_FP, ATAN_K_FP, in_range,
    fp_mul_sp, wrap_angle_sp, wrap_angle,
};

verus! {

pub open spec fn abs_sp(x: int) -> int {
    if x < 0 {
        -x
    } else {
        x
    }
}

/// Bhaskara's sine approximation, for an angle in `[0, PI_FP]`.
pub open spec fn sin_half_sp(x: int) -> int {
    16 * x * (PI_FP as int - x) * (SCALE as int) / (5 * (PI_FP as int) * (PI_FP as int) - 4
        * x * (PI_FP as int - x))
}

/// The sine of a fixed-point angle: wrap into `[-PI_FP, PI_FP)`, then apply
/// the half-turn approximation with odd symmetry.
pub open spec fn sin_fp_sp(a: int) -> int {
    let w = wrap_angle_sp(a);
    if w >= 0 {
        sin_half_sp(w)
    } else {
        -sin_half_sp(-w)
    }
}

/// The cosine of a fixed-point angle: the sine a quarter turn ahead.
pub open spec fn cos_fp_sp(a: int) -> int {
    sin_fp_sp(wrap_angle_sp(a) + HALF_PI_FP as int)
}

proof fn lemma_quad_bound(x: int, m: int)
    requires
        0 <= x <= m,
    ensures
        0 <= x * (m - x),
        4 * (x * (m - x)) <= m * m,
{
    assert(0 <= x * (m - x) && 4 * (x * (m - x)) <= m * m) by (nonlinear_arith)
        requires
            0 <= x <= m,
    ;
}

/// Bhaskara's sine approximation on `[0, PI_FP]`, in fixed point.
fn sin_half(x: i64) -> (r: i64)
    requires
        0 <= x <= PI_FP,
    ensures
        r as int == sin_half_sp(x as int),
        0 <= r <= SCALE,
{
    proof {
        lemma_quad_bound(x as int, PI_FP as int);
    }
    let xu: u128 = x as u128;
    let p: u128 = xu * ((PI_FP as u128) - xu);
    proof {
        assert(p as int == (x as int) * (PI_FP as int - x as int));
        assert(4 * (p as int) <= (PI_FP as int) * (PI_FP as int));
        assert((PI_FP as u128) * (PI_FP as u128) == (PI_FP as int) * (PI_FP as int));
    }
    let num: u128 = 16 * p * (SCALE as u128);
    let den: u128 = 5 * (PI_FP as u128) * (PI_FP as u128) - 4 * p;
    proof {
        assert(num as int == 16 * (x as int) * (PI_FP as int - x as int) * (SCALE as int))
            by (nonlinear_arith)
            requires
                num as int == 16 * (p as int) * (SCALE as int),
                p as int == (x as int) * (PI_FP as int - x as int),
        ;
        assert(den as int == 5 * (PI_FP as int) * (PI_FP as int) - 4 * (p as int));
        assert(den as int == 5 * (PI_FP as int) * (PI_FP as int) - 4 * (x as int) * (
        PI_FP as int - x as int)) by (nonlinear_arith)
            requires
                den as int == 5 * (PI_FP as int) * (PI_FP as int) - 4 * (p as int),
                p as int == (x as int) * (PI_FP as int - x as int),
        ;
        assert(den as int >= 4 * (PI_FP as int) * (PI_FP as int));
        // 16 p <= 5 pi^2 - 4 p, hence num <= den * SCALE and the quotient
        // cannot exceed SCALE.
        assert(num as int <= (den as int) * (SCALE as int)) by (nonlinear_arith)
            requires
                num as int == 16 * (p as int) * (SCALE as int),
                den as int == 5 * (PI_FP as int) * (PI_FP as int) - 4 * (p as int),
                4 * (p as int) <= (PI_FP as int) * (PI_FP as int),
                0 <= p as int,
        ;
        lemma_div_is_ordered(num as int, (den as int) * (SCALE as int), den as int);
        lemma_div_by_multiple(SCALE as int, den as int);
    }
    let r: u128 = num / den;
    r as i64
}

/// The sine of a fixed-point angle.
pub fn sin_fp(a: i64) -> (r: i64)
    requires
        in_range(a as int),
    ensures
        r as int == sin_fp_sp(a as int),
        -SCALE <= r <= SCALE,
{
    let w: i64 = wrap_angle(a);
    if w >= 0 {
        sin_half(w)
    } else {
        -sin_half(-w)
    }
}

/// The cosine of a fixed-point angle.
pub fn cos_fp(a: i64) -> (r: i64)
    requires
        in_range(a as int),
    ensures
        r as int == cos_fp_sp(a as int),
        -SCALE <= r <= SCALE,
{
    let w: i64 = wrap_angle(a);
    sin_fp(w + HALF_PI_FP)
}

/// Quadratic arctangent approximation on the first octant: the angle whose
/// tangent is `z / SCALE`, for `z` in `[0, SCALE]`.
pub open spec fn atan_unit_sp(z: int) -> int {
    ((QUARTER_PI_FP as int) * z + (ATAN_K_FP as int) * z * ((SCALE as int) - z) / (
    SCALE as int)) / (SCALE as int)
}

fn atan_unit(z: i64) -> (r: i64)
    requires
        0 <= z <= SCALE,
    ensures
        r as int == atan_unit_sp(z as int),
        0 <= r <= HALF_PI_FP,
{
    proof {
        lemma_quad_bound(z as int, SCALE as int);
    }
    let zu: u128 = z as u128;
    proof {
        assert((QUARTER_PI_FP as int) * (zu as int) <= (QUARTER_PI_FP as int) * (
        SCALE as int)) by (nonlinear_arith)
            requires
                0 <= zu as int <= SCALE as int,
        ;
        assert((ATAN_K_FP as int) * (zu as int) <= (ATAN_K_FP as int) * (SCALE as int))
            by (nonlinear_arith)
            requires
                0 <= zu as int <= SCALE as int,
        ;
        assert((ATAN_K_FP as int) * (zu as int) * ((SCALE as int) - zu as int) <= (
        ATAN_K_FP as int) * (SCALE as int) * (SCALE as int)) by (nonlinear_arith)
            requires
                0 <= zu as int <= SCALE as int,
        ;
    }
    let t1: u128 = (QUARTER_PI_FP as u128) * zu;
    let p: u128 = (ATAN_K_FP as u128) * zu * ((SCALE as u128) - zu);
    proof {
        assert(p as int == (ATAN_K_FP as int) * (z as int) * ((SCALE as int) - z as int));
        // K * (z * (SCALE - z)) <= K * (SCALE * SCALE / 4)
        assert(p as int <= (ATAN_K_FP as int) * ((SCALE as int) * (SCALE as int) / 4))
            by (nonlinear_arith)
            requires
                p as int == (ATAN_K_FP as int) * (z as int) * ((SCALE as int) - z as int),
                4 * ((z as int) * ((SCALE as int) - z as int)) <= (SCALE as int) * (
                SCALE as int),
                0 <= z as int <= SCALE as int,
        ;
        lemma_div_is_ordered(
            p as int,
            (ATAN_K_FP as int) * ((SCALE as int) * (SCALE as int) / 4),
            SCALE as int,
        );
    }
    let t2: u128 = p / (SCALE as u128);
    let q: u128 = (t1 + t2) / (SCALE as u128);
    proof {
        lemma_div_is_ordered(
            (t1 + t2) as int,
            (QUARTER_PI_FP as int) * (SCALE as int) + (ATAN_K_FP as int) * ((SCALE as int)
                * (SCALE as int) / 4) / (SCALE as int),
            SCALE as int,
        );
    }
    q as i64
}

/// A product of a factor in `[0, SCALE]` and a factor in `[-SCALE, SCALE]`,
/// scaled back down, stays within `[-SCALE, SCALE]`.
pub proof fn lemma_fp_mul_within(a: int, b: int)
    requires
        0 <= a <= SCALE as int,
        -(SCALE as int) <= b <= SCALE as int,
    ensures
        -(SCALE as int) <= fp_mul_sp(a, b) <= SCALE as int,
{
    if b >= 0 {
        assert(0 <= a * b <= (SCALE as int) * (SCALE as int)) by (nonlinear_arith)
            requires
                0 <= a <= SCALE as int,
                0 <= b <= SCALE as int,
        ;
        lemma_div_is_ordered(a * b, (SCALE as int) * (SCALE as int), SCALE as int);
        lemma_div_by_multiple(SCALE as int, SCALE as int);
        lemma_div_is_ordered(0, a * b, SCALE as int);
        assert(0 as int / (SCALE as int) == 0) by (nonlinear_arith);
    } else {
        assert(0 <= a * (-b) <= (SCALE as int) * (SCALE as int)) by (nonlinear_arith)
            requires
                0 <= a <= SCALE as int,
                0 <= -b <= SCALE as int,
        ;
        assert(a * (-b) == -(a * b)) by (nonlinear_arith);
        lemma_div_is_ordered(-(a * b), (SCALE as int) * (SCALE as int), SCALE as int);
        lemma_div_by_multiple(SCALE as int, SCALE as int);
        lemma_div_is_ordered(0, -(a * b), SCALE as int);
        assert(0 as int / (SCALE as int) == 0) by (nonlinear_arith);
    }
}

/// The signed angle, in `[-PI_FP, PI_FP]`, of the vector whose sine-component
/// is `s` and cosine-component is `c`; zero when both components are zero.
pub open spec fn atan2_sp(s: int, c: int) -> int {
    if s == 0 && c == 0 {
        0
    } else {
        let sa = abs_sp(s);
        let ca = abs_sp(c);
        let base = if ca >= sa {
            atan_unit_sp(sa * (SCALE as int) / ca)
        } else {
            HALF_PI_FP as int - atan_unit_sp(ca * (SCALE as int) / sa)
        };
        if c >= 0 {
            if s >= 0 {
                base
            } else {
                -base
            }
        } else {
            if s >= 0 {
                (PI_FP as int) - base
            } else {
                -((PI_FP as int) - base)
            }
        }
    }
}

/// The ratio `a * SCALE / b` for `0 <= a <= b`, landing in `[0, SCALE]`.
fn ratio_unit(a: i64, b: i64) -> (r: i64)
    requires
        0 <= a <= b,
        0 < b,
        b <= VAL_MAX,
    ensures
        r as int == (a as int) * (SCALE as int) / (b as int),
        0 <= r <= SCALE,
{
    proof {
        assert((a as int) * (SCALE as int) <= (b as int) * (SCALE as int) && (b as int) * (
        SCALE as int) <= (VAL_MAX as int) * (SCALE as int)) by (nonlinear_arith)
            requires
                0 <= a as int <= b as int,
                b as int <= VAL_MAX as int,
        ;
    }
    let n: u128 = (a as u128) * (SCALE as u128);
    proof {
        assert(n as int == (a as int) * (SCALE as int));
        assert(n as int <= (b as int) * (SCALE as int));
        lemma_div_is_ordered(n as int, (b as int) * (SCALE as int), b as int);
        lemma_div_by_multiple(SCALE as int, b as int);
    }
    let q: u128 = n / (b as u128);
    q as i64
}

/// The signed bearing of a planar vector, by the approximation `atan2_sp`.
pub fn atan2_fp(s: i64, c: i64) -> (r: i64)
    requires
        in_range(s as int),
        in_range(c as int),
    ensures
        r as int == atan2_sp(s as int, c as int),
        -PI_FP <= r <= PI_FP,
{
    if s == 0 && c == 0 {
        return 0;
    }
    let sa: i64 = if s < 0 {
        -s
    } else {
        s
    };
    let ca: i64 = if c < 0 {
        -c
    } else {
        c
    };
    let base: i64 = if ca >= sa {
        atan_unit(ratio_unit(sa, ca))
    } else {
        HALF_PI_FP - atan_unit(ratio_unit(ca, sa))
    };
    if c >= 0 {
        if s >= 0 {
            base
        } else {
            -base
        }
    } else {
        if s >= 0 {
            PI_FP - base
        } else {
            -(PI_FP - base)
        }
    }
}

} // verus!
