//! Fixed-point square root and circular functions.
//!
//! `fx_sqrt` is exact: it returns the floor of the square root of its
//! argument's value. The sine and cosine are degree-seven and degree-six
//! Taylor evaluations after reduction into one period; their contracts state
//! that computation exactly, together with the clamped range.

use vstd::prelude::*;
use crate::fx::{fx_mul_s, iabs, tdiv, FX_ONE};

verus! {

/// Raw fixed-point value of the half circle.
pub const FX_PI: i64 = 205887;

/// Raw fixed-point value of the full circle.
pub const FX_TWO_PI: i64 = 411775;

/// The floor of the integer square root, as a function: halve the digits,
/// double the result, and correct by one.
pub open spec fn isqrt(n: int) -> int
    decreases n,
{
    if n < 1 {
        0
    } else {
        let r = 2 * isqrt(n / 4);
        if (r + 1) * (r + 1) <= n {
            r + 1
        } else {
            r
        }
    }
}

/// `isqrt` is the floor of the square root.
pub proof fn lemma_isqrt(n: int)
    requires
        n >= 0,
    ensures
        isqrt(n) >= 0,
        isqrt(n) * isqrt(n) <= n,
        n < (isqrt(n) + 1) * (isqrt(n) + 1),
    decreases n,
{
    if n >= 1 {
        vstd::arithmetic::div_mod::lemma_fundamental_div_mod(n, 4);
        vstd::arithmetic::div_mod::lemma_mod_bound(n, 4);
        lemma_isqrt(n / 4);
        let h = isqrt(n / 4);
        assert(4 * (h * h) <= 4 * (n / 4) && 4 * (n / 4) <= n && (2 * h) * (2 * h) == 4 * (h * h))
            by (nonlinear_arith)
            requires
                h * h <= n / 4,
                n == 4 * (n / 4) + n % 4,
                0 <= n % 4 < 4,
        ;
        assert(n < (2 * h + 2) * (2 * h + 2)) by (nonlinear_arith)
            requires
                n / 4 < (h + 1) * (h + 1),
                n == 4 * (n / 4) + n % 4,
                0 <= n % 4 < 4,
        ;
    }
}

/// Only one value can be the floor of the square root.
pub proof fn lemma_isqrt_unique(n: int, r: int)
    requires
        0 <= r,
        r * r <= n,
        n < (r + 1) * (r + 1),
    ensures
        r == isqrt(n),
{
    lemma_isqrt(n);
    let s = isqrt(n);
    if r < s {
        assert((r + 1) * (r + 1) <= s * s) by (nonlinear_arith)
            requires
                0 <= r,
                r + 1 <= s,
        ;
    }
    if s < r {
        assert((s + 1) * (s + 1) <= r * r) by (nonlinear_arith)
            requires
                0 <= s,
                s + 1 <= r,
        ;
    }
}

/// Fixed-point square root: the floor of the square root of the value.
///
/// The result is exactly `isqrt(x * FX_ONE)`, so it satisfies
/// `r * r <= x * FX_ONE < (r + 1) * (r + 1)`.
pub fn fx_sqrt(x: i64) -> (r: i64)
    requires
        x >= 0,
    ensures
        r >= 0,
        r == isqrt((x as int) * (FX_ONE as int)),
        (r as int) * (r as int) <= (x as int) * (FX_ONE as int),
        ((x as int) * (FX_ONE as int)) < ((r as int + 1) * (r as int + 1)),
{
    let target: i128 = (x as i128) * (FX_ONE as i128);
    proof {
        crate::fx::lemma_mul_bounds2(x as int, 0x8000_0000_0000_0000, FX_ONE as int, 0x1_0000);
        assert((0x100_0000_0000 as int) * (0x100_0000_0000 as int) > target as int)
            by (nonlinear_arith)
            requires
                target as int <= 0x8000_0000_0000_0000 * 0x1_0000,
        ;
    }
    let mut lo: i128 = 0;
    let mut hi: i128 = 0x100_0000_0000;
    while lo + 1 < hi
        invariant
            0 <= lo < hi <= 0x100_0000_0000,
            (lo as int) * (lo as int) <= target as int,
            (target as int) < ((hi as int) * (hi as int)),
            target as int == (x as int) * (FX_ONE as int),
        decreases hi - lo,
    {
        let mid: i128 = lo + (hi - lo) / 2;
        proof {
            crate::fx::lemma_mul_bounds(mid as int, mid as int, 0x100_0000_0000);
        }
        if mid * mid <= target {
            lo = mid;
        } else {
            hi = mid;
        }
    }
    proof {
        crate::fx::lemma_mul_bounds(lo as int, lo as int, 0x100_0000_0000);
        lemma_isqrt_unique(target as int, lo as int);
    }
    lo as i64
}

/// Clamps a raw scalar into the unit range.
pub open spec fn clamp_unit_s(x: int) -> int {
    if x > FX_ONE {
        FX_ONE as int
    } else if x < -FX_ONE {
        -(FX_ONE as int)
    } else {
        x
    }
}

/// The angle reduced into `(-FX_TWO_PI, FX_TWO_PI)` by truncated division.
pub open spec fn wrap_angle_s(x: int) -> int {
    x - (FX_TWO_PI as int) * tdiv(x, FX_TWO_PI as int)
}

/// The degree-seven Taylor evaluation of the sine at `x`, in fixed point.
pub open spec fn sin_taylor_s(x: int) -> int {
    let x2 = fx_mul_s(x, x);
    let x3 = fx_mul_s(x2, x);
    let x5 = fx_mul_s(x3, x2);
    let x7 = fx_mul_s(x5, x2);
    x - tdiv(x3, 6) + tdiv(x5, 120) - tdiv(x7, 5040)
}

/// The degree-six Taylor evaluation of the cosine at `x`, in fixed point.
pub open spec fn cos_taylor_s(x: int) -> int {
    let x2 = fx_mul_s(x, x);
    let x4 = fx_mul_s(x2, x2);
    let x6 = fx_mul_s(x4, x2);
    (FX_ONE as int) - tdiv(x2, 2) + tdiv(x4, 24) - tdiv(x6, 720)
}

/// The fixed-point sine: the Taylor evaluation of the angle folded into a
/// quarter period, clamped into the unit range.
pub open spec fn fx_sin_s(x: int) -> int {
    let w0 = wrap_angle_s(x);
    let w = if w0 < 0 {
        w0 + FX_TWO_PI as int
    } else {
        w0
    };
    if w <= (FX_PI as int) / 2 {
        clamp_unit_s(sin_taylor_s(w))
    } else if w <= FX_PI as int {
        clamp_unit_s(sin_taylor_s((FX_PI as int) - w))
    } else if w <= (FX_PI as int) + (FX_PI as int) / 2 {
        -clamp_unit_s(sin_taylor_s(w - (FX_PI as int)))
    } else {
        -clamp_unit_s(sin_taylor_s((FX_TWO_PI as int) - w))
    }
}

/// The fixed-point cosine: the shifted sine evaluation over the same folding.
pub open spec fn fx_cos_s(x: int) -> int {
    let w0 = wrap_angle_s(x);
    let w = if w0 < 0 {
        w0 + FX_TWO_PI as int
    } else {
        w0
    };
    if w <= (FX_PI as int) / 2 {
        clamp_unit_s(cos_taylor_s(w))
    } else if w <= FX_PI as int {
        -clamp_unit_s(cos_taylor_s((FX_PI as int) - w))
    } else if w <= (FX_PI as int) + (FX_PI as int) / 2 {
        -clamp_unit_s(cos_taylor_s(w - (FX_PI as int)))
    } else {
        clamp_unit_s(cos_taylor_s((FX_TWO_PI as int) - w))
    }
}

/// Clamps a raw scalar into the unit range.
fn clamp_unit(x: i64) -> (r: i64)
    ensures
        r == clamp_unit_s(x as int),
        -FX_ONE <= r <= FX_ONE,
{
    if x > FX_ONE {
        FX_ONE
    } else if x < -FX_ONE {
        -FX_ONE
    } else {
        x
    }
}

/// Truncated division by a positive constant.
fn tdiv_by(n: i64, d: i64) -> (r: i64)
    requires
        d > 0,
        i64::MIN < n,
    ensures
        r == tdiv(n as int, d as int),
{
    if n >= 0 {
        n / d
    } else {
        -((-n) / d)
    }
}

/// The folded angle in `[0, FX_TWO_PI)`.
fn wrap_angle(x: i64) -> (r: i64)
    requires
        i64::MIN < x,
    ensures
        r == (if wrap_angle_s(x as int) < 0 {
            wrap_angle_s(x as int) + FX_TWO_PI as int
        } else {
            wrap_angle_s(x as int)
        }),
        0 <= r < FX_TWO_PI,
{
    let q = tdiv_by(x, FX_TWO_PI);
    proof {
        crate::fx::lemma_mul_bounds2(FX_TWO_PI as int, FX_TWO_PI as int, q as int, iabs(q as int));
        assert((FX_TWO_PI as int) * tdiv(x as int, FX_TWO_PI as int) <= iabs(x as int)
            && -iabs(x as int) <= (FX_TWO_PI as int) * tdiv(x as int, FX_TWO_PI as int)
            && iabs(x as int - (FX_TWO_PI as int) * tdiv(x as int, FX_TWO_PI as int)) < (
        FX_TWO_PI as int)) by (nonlinear_arith)
            requires
                FX_TWO_PI == 411775,
                tdiv(x as int, FX_TWO_PI as int) == (if ((x as int) >= 0) {
                    (x as int) / (FX_TWO_PI as int)
                } else {
                    -((-(x as int)) / (FX_TWO_PI as int))
                }),
        ;
    }
    let w = x - FX_TWO_PI * q;
    if w < 0 {
        w + FX_TWO_PI
    } else {
        w
    }
}

/// The degree-seven Taylor sine of a small angle.
fn sin_taylor(x: i64) -> (r: i64)
    requires
        0 <= x <= FX_PI,
    ensures
        r == sin_taylor_s(x as int),
{
    proof {
        crate::fx::lemma_fx_mul_bound(x as int, FX_PI as int, x as int, FX_PI as int);
    }
    let x2 = crate::fx::fx_mul(x, x);
    proof {
        crate::fx::lemma_fx_mul_bound(x2 as int, 0xA_0000, x as int, FX_PI as int);
    }
    let x3 = crate::fx::fx_mul(x2, x);
    proof {
        crate::fx::lemma_fx_mul_bound(x3 as int, 0x20_0000, x2 as int, 0xA_0000);
    }
    let x5 = crate::fx::fx_mul(x3, x2);
    proof {
        crate::fx::lemma_fx_mul_bound(x5 as int, 0x200_0000, x2 as int, 0xA_0000);
    }
    let x7 = crate::fx::fx_mul(x5, x2);
    x - tdiv_by(x3, 6) + tdiv_by(x5, 120) - tdiv_by(x7, 5040)
}

/// The degree-six Taylor cosine of a small angle.
fn cos_taylor(x: i64) -> (r: i64)
    requires
        0 <= x <= FX_PI,
    ensures
        r == cos_taylor_s(x as int),
{
    proof {
        crate::fx::lemma_fx_mul_bound(x as int, FX_PI as int, x as int, FX_PI as int);
    }
    let x2 = crate::fx::fx_mul(x, x);
    proof {
        crate::fx::lemma_fx_mul_bound(x2 as int, 0xA_0000, x2 as int, 0xA_0000);
    }
    let x4 = crate::fx::fx_mul(x2, x2);
    proof {
        crate::fx::lemma_fx_mul_bound(x4 as int, 0x100_0000, x2 as int, 0xA_0000);
    }
    let x6 = crate::fx::fx_mul(x4, x2);
    FX_ONE - tdiv_by(x2, 2) + tdiv_by(x4, 24) - tdiv_by(x6, 720)
}

/// The fixed-point sine of an arbitrary angle.
pub fn fx_sin(x: i64) -> (r: i64)
    requires
        i64::MIN < x,
    ensures
        r == fx_sin_s(x as int),
        -FX_ONE <= r <= FX_ONE,
{
    let w = wrap_angle(x);
    if w <= FX_PI / 2 {
        clamp_unit(sin_taylor(w))
    } else if w <= FX_PI {
        clamp_unit(sin_taylor(FX_PI - w))
    } else if w <= FX_PI + FX_PI / 2 {
        -clamp_unit(sin_taylor(w - FX_PI))
    } else {
        -clamp_unit(sin_taylor(FX_TWO_PI - w))
    }
}

/// The fixed-point cosine of an arbitrary angle.
pub fn fx_cos(x: i64) -> (r: i64)
    requires
        i64::MIN < x,
    ensures
        r == fx_cos_s(x as int),
        -FX_ONE <= r <= FX_ONE,
{
    let w = wrap_angle(x);
    if w <= FX_PI / 2 {
        clamp_unit(cos_taylor(w))
    } else if w <= FX_PI {
        -clamp_unit(cos_taylor(FX_PI - w))
    } else if w <= FX_PI + FX_PI / 2 {
        -clamp_unit(cos_taylor(w - FX_PI))
    } else {
        clamp_unit(cos_taylor(FX_TWO_PI - w))
    }
}

} // verus!
