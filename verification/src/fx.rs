//! The fixed-point scalar.
//!
//! A scalar is an `i64` raw value standing for the real number `raw / FX_ONE`.
//! Multiplication and division truncate toward zero, and both have exact
//! integer specifications (`fx_mul_s`, `fx_div_s`) that the rest of the crate
//! builds its contracts on.

use vstd::prelude::*;

verus! {

/// Raw representation of the scalar value one.
pub const FX_ONE: i64 = 65536;

/// Largest raw magnitude accepted by the binary fixed-point operations. The
/// product of two admissible raws stays below `2^78`, so it fits an `i128`
/// intermediate, and the truncated quotient fits an `i64`.
pub const FX_LIM: i64 = 0x80_0000_0000;

/// Magnitude under which fixed-point products stay small enough that three of
/// them can be summed without leaving `i64`.
pub const FX_SUM_LIM: i64 = 0x40_0000_0000;

/// Magnitude of an integer.
pub open spec fn iabs(n: int) -> int {
    if n >= 0 {
        n
    } else {
        -n
    }
}

/// Truncating (toward zero) integer division, the rounding used by all
/// fixed-point operations.
pub open spec fn tdiv(n: int, d: int) -> int {
    if (n >= 0) == (d >= 0) {
        iabs(n) / iabs(d)
    } else {
        -(iabs(n) / iabs(d))
    }
}

/// Exact meaning of fixed-point multiplication.
pub open spec fn fx_mul_s(a: int, b: int) -> int {
    tdiv(a * b, FX_ONE as int)
}

/// Exact meaning of fixed-point division.
pub open spec fn fx_div_s(a: int, b: int) -> int {
    tdiv(a * (FX_ONE as int), b)
}

/// The numeric two of the fixed-point scalar.
pub trait Two: Sized {
    fn two() -> Self;
}

/// The numeric one half of the fixed-point scalar.
pub trait Half: Sized {
    fn half() -> Self;
}

impl Two for i64 {
    fn two() -> (r: i64)
        ensures
            r == 2 * (FX_ONE as int),
    {
        2 * FX_ONE
    }
}

impl Half for i64 {
    fn half() -> (r: i64)
        ensures
            r == (FX_ONE as int) / 2,
    {
        FX_ONE / 2
    }
}

/// Truncated quotient of the magnitudes' division, signed like the real
/// quotient: exactly `tdiv`.
pub fn tdiv128(n: i128, d: i128) -> (r: i128)
    requires
        d != 0,
        -0x4000_0000_0000_0000_0000_0000_0000_0000 < n,
        -0x4000_0000_0000_0000_0000_0000_0000_0000 < d,
    ensures
        r == tdiv(n as int, d as int),
        iabs(r as int) == iabs(n as int) / iabs(d as int),
{
    let nm: i128 = if n >= 0 { n } else { -n };
    let dm: i128 = if d >= 0 { d } else { -d };
    let q: i128 = nm / dm;
    if (n >= 0) == (d >= 0) {
        q
    } else {
        -q
    }
}

/// Fixed-point product, truncated toward zero.
pub fn fx_mul(a: i64, b: i64) -> (r: i64)
    requires
        -FX_LIM <= a <= FX_LIM,
        -FX_LIM <= b <= FX_LIM,
    ensures
        r == fx_mul_s(a as int, b as int),
        iabs(r as int) <= iabs(a as int) * iabs(b as int) / (FX_ONE as int),
        -0x4000_0000_0000_0000 <= r <= 0x4000_0000_0000_0000,
        iabs(a as int) <= FX_SUM_LIM && iabs(b as int) <= FX_SUM_LIM ==> iabs(r as int)
            <= 0x1000_0000_0000_0000,
{
    proof {
        lemma_mul_bounds(a as int, b as int, FX_LIM as int);
        lemma_abs_mul(a as int, b as int);
    }
    let p: i128 = (a as i128) * (b as i128);
    let q: i128 = tdiv128(p, FX_ONE as i128);
    proof {
        assert(iabs(p as int) <= 0x4000_0000_0000_0000 * (FX_ONE as int));
        vstd::arithmetic::div_mod::lemma_div_is_ordered(
            iabs(p as int),
            0x4000_0000_0000_0000 * (FX_ONE as int),
            FX_ONE as int,
        );
        if iabs(a as int) <= FX_SUM_LIM && iabs(b as int) <= FX_SUM_LIM {
            lemma_mul_bounds(a as int, b as int, FX_SUM_LIM as int);
            assert(iabs(p as int) <= 0x1000_0000_0000_0000 * (FX_ONE as int));
            vstd::arithmetic::div_mod::lemma_div_is_ordered(
                iabs(p as int),
                0x1000_0000_0000_0000 * (FX_ONE as int),
                FX_ONE as int,
            );
        }
    }
    q as i64
}

/// Fixed-point quotient, truncated toward zero. The divisor must be nonzero.
pub fn fx_div(a: i64, b: i64) -> (r: i64)
    requires
        -FX_LIM <= a <= FX_LIM,
        b != 0,
    ensures
        r == fx_div_s(a as int, b as int),
        iabs(r as int) <= iabs(a as int) * (FX_ONE as int),
{
    proof {
        lemma_mul_bounds(a as int, FX_ONE as int, FX_LIM as int);
        lemma_abs_mul(a as int, FX_ONE as int);
    }
    let n: i128 = (a as i128) * (FX_ONE as i128);
    let q: i128 = tdiv128(n, b as i128);
    proof {
        vstd::arithmetic::div_mod::lemma_div_nonincreasing(iabs(n as int), iabs(b as int));
    }
    q as i64
}

/// Truncated halving of a raw scalar.
pub fn half64(n: i64) -> (r: i64)
    requires
        i64::MIN < n,
    ensures
        r == tdiv(n as int, 2),
{
    if n >= 0 {
        n / 2
    } else {
        -((-n) / 2)
    }
}

/// `|a * b| <= l * l` whenever `|a| <= l` and `|b| <= l`.
pub proof fn lemma_mul_bounds(a: int, b: int, l: int)
    requires
        -l <= a <= l,
        -l <= b <= l,
        0 <= l,
    ensures
        -(l * l) <= a * b <= l * l,
{
    assert(-(l * l) <= a * b <= l * l) by (nonlinear_arith)
        requires
            -l <= a <= l,
            -l <= b <= l,
            0 <= l,
    ;
}

/// `|a * b| <= la * lb` whenever `|a| <= la` and `|b| <= lb`.
pub proof fn lemma_mul_bounds2(a: int, la: int, b: int, lb: int)
    requires
        iabs(a) <= la,
        iabs(b) <= lb,
    ensures
        iabs(a * b) <= la * lb,
{
    assert(iabs(a * b) <= la * lb) by (nonlinear_arith)
        requires
            iabs(a) <= la,
            iabs(b) <= lb,
    ;
}

/// Fixed-point product with an asymmetric domain: a narrow factor and a wide
/// one, as the separating-axis cross terms need.
pub fn fx_mul_wide(a: i64, b: i64) -> (r: i64)
    requires
        -0x4000_0000 <= a <= 0x4000_0000,
        -0x2000_0000_0000 <= b <= 0x2000_0000_0000,
    ensures
        r == fx_mul_s(a as int, b as int),
        -0x800_0000_0000_0000 <= r <= 0x800_0000_0000_0000,
{
    proof {
        lemma_mul_bounds2(a as int, 0x4000_0000, b as int, 0x2000_0000_0000);
        lemma_abs_mul(a as int, b as int);
    }
    let p: i128 = (a as i128) * (b as i128);
    let q: i128 = tdiv128(p, FX_ONE as i128);
    proof {
        assert(iabs(p as int) <= 0x800_0000_0000_0000 * (FX_ONE as int));
        vstd::arithmetic::div_mod::lemma_div_is_ordered(
            iabs(p as int),
            0x800_0000_0000_0000 * (FX_ONE as int),
            FX_ONE as int,
        );
    }
    q as i64
}

/// The magnitude of a truncated quotient is the quotient of the magnitudes.
pub proof fn lemma_tdiv_abs(n: int, d: int)
    requires
        d > 0,
    ensures
        iabs(tdiv(n, d)) == iabs(n) / d,
{
    if n >= 0 {
        vstd::arithmetic::div_mod::lemma_div_pos_is_pos(n, d);
    } else {
        vstd::arithmetic::div_mod::lemma_div_pos_is_pos(-n, d);
    }
}

/// Magnitude bound of a fixed-point product from its factors' bounds.
pub proof fn lemma_fx_mul_bound(a: int, la: int, b: int, lb: int)
    requires
        iabs(a) <= la,
        iabs(b) <= lb,
    ensures
        iabs(fx_mul_s(a, b)) <= la * lb / (FX_ONE as int),
{
    lemma_abs_mul(a, b);
    lemma_mul_bounds2(a, la, b, lb);
    vstd::arithmetic::div_mod::lemma_div_is_ordered(iabs(a * b), la * lb, FX_ONE as int);
}

/// Magnitude bound of a fixed-point quotient from the numerator's bound and
/// a lower bound on the divisor's magnitude.
pub proof fn lemma_fx_div_bound(a: int, la: int, b: int, bmin: int)
    requires
        iabs(a) <= la,
        0 <= la,
        1 <= bmin <= iabs(b),
    ensures
        iabs(fx_div_s(a, b)) <= la * (FX_ONE as int) / bmin,
{
    lemma_abs_mul(a, FX_ONE as int);
    assert(iabs(fx_div_s(a, b)) == iabs(a * (FX_ONE as int)) / iabs(b));
    assert(iabs(a) * (FX_ONE as int) <= la * (FX_ONE as int)) by (nonlinear_arith)
        requires
            iabs(a) <= la,
    ;
    vstd::arithmetic::div_mod::lemma_div_is_ordered(
        iabs(a * (FX_ONE as int)),
        la * (FX_ONE as int),
        iabs(b),
    );
    vstd::arithmetic::div_mod::lemma_div_is_ordered_by_denominator(
        la * (FX_ONE as int),
        bmin,
        iabs(b),
    );
}

/// Stepping `k` times by the truncated step `range / n` stays within the
/// range.
pub proof fn lemma_step_bound(range: int, n: int, k: int)
    requires
        0 <= range,
        1 <= n,
        0 <= k <= n,
    ensures
        0 <= k * (range / n) <= range,
{
    let q = range / n;
    vstd::arithmetic::div_mod::lemma_div_pos_is_pos(range, n);
    vstd::arithmetic::div_mod::lemma_fundamental_div_mod(range, n);
    vstd::arithmetic::div_mod::lemma_mod_bound(range, n);
    assert(k * q <= n * q) by (nonlinear_arith)
        requires
            0 <= q,
            k <= n,
    ;
    assert(0 <= k * q) by (nonlinear_arith)
        requires
            0 <= q,
            0 <= k,
    ;
}

/// The magnitude of a product is the product of the magnitudes.
pub proof fn lemma_abs_mul(a: int, b: int)
    ensures
        iabs(a * b) == iabs(a) * iabs(b),
{
    assert(iabs(a * b) == iabs(a) * iabs(b)) by (nonlinear_arith);
}

/// Multiplying by the fixed-point one (or zero) is exact.
pub proof fn lemma_fx_mul_one(a: int)
    ensures
        fx_mul_s(a, FX_ONE as int) == a,
        fx_mul_s(FX_ONE as int, a) == a,
        fx_mul_s(a, 0) == 0,
        fx_mul_s(0, a) == 0,
{
    lemma_abs_mul(a, FX_ONE as int);
    lemma_abs_mul(FX_ONE as int, a);
    vstd::arithmetic::div_mod::lemma_div_by_multiple(iabs(a), FX_ONE as int);
    assert(iabs(a) * (FX_ONE as int) == iabs(a * (FX_ONE as int))) by (nonlinear_arith);
    assert(a * (FX_ONE as int) == (FX_ONE as int) * a) by (nonlinear_arith);
    assert(a * 0 == 0) by (nonlinear_arith);
    assert(0 * a == 0) by (nonlinear_arith);
}

/// Fixed-point multiplication is commutative.
pub proof fn lemma_fx_mul_comm(a: int, b: int)
    ensures
        fx_mul_s(a, b) == fx_mul_s(b, a),
{
    assert(a * b == b * a) by (nonlinear_arith);
}

/// Negating one factor negates the truncated product exactly.
pub proof fn lemma_fx_mul_neg(a: int, b: int)
    ensures
        fx_mul_s(a, -b) == -fx_mul_s(a, b),
        fx_mul_s(-a, b) == -fx_mul_s(a, b),
{
    assert(a * (-b) == -(a * b) && (-a) * b == -(a * b)) by (nonlinear_arith);
}

/// Truncation toward zero is monotone in the numerator.
pub proof fn lemma_tdiv_mono(x: int, y: int, d: int)
    requires
        x <= y,
        d > 0,
    ensures
        tdiv(x, d) <= tdiv(y, d),
{
    if 0 <= x {
        vstd::arithmetic::div_mod::lemma_div_is_ordered(x, y, d);
    } else if y < 0 {
        vstd::arithmetic::div_mod::lemma_div_is_ordered(-y, -x, d);
    } else {
        vstd::arithmetic::div_mod::lemma_div_pos_is_pos(-x, d);
        vstd::arithmetic::div_mod::lemma_div_pos_is_pos(y, d);
    }
}

/// A truncated product is monotone in one factor, in the direction of the
/// other factor's sign.
pub proof fn lemma_fx_mul_mono(l: int, a: int, b: int)
    requires
        a <= b,
    ensures
        l >= 0 ==> fx_mul_s(l, a) <= fx_mul_s(l, b),
        l <= 0 ==> fx_mul_s(l, b) <= fx_mul_s(l, a),
{
    if l >= 0 {
        assert(l * a <= l * b) by (nonlinear_arith)
            requires
                l >= 0,
                a <= b,
        ;
        lemma_tdiv_mono(l * a, l * b, FX_ONE as int);
    }
    if l <= 0 {
        assert(l * b <= l * a) by (nonlinear_arith)
            requires
                l <= 0,
                a <= b,
        ;
        lemma_tdiv_mono(l * b, l * a, FX_ONE as int);
    }
}

} // verus!
