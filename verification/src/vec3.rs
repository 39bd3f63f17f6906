//! Small fixed-point vectors.
//!
//! `V3` and `V2` carry raw fixed-point components (see `fx`). Arithmetic is
//! componentwise; products go through the truncating fixed-point
//! multiplication and every operation states its result exactly.

use vstd::prelude::*;
use crate::fx::{fx_mul, fx_mul_s, iabs, FX_LIM, FX_SUM_LIM};

verus! {

/// `n` fits the raw scalar representation.
pub open spec fn fits64(n: int) -> bool {
    i64::MIN <= n <= i64::MAX
}

/// A three-component fixed-point vector.
#[derive(Clone, Copy, PartialEq, Eq, Structural, Debug)]
pub struct V3 {
    pub x: i64,
    pub y: i64,
    pub z: i64,
}

/// A two-component fixed-point vector.
#[derive(Clone, Copy, PartialEq, Eq, Structural, Debug)]
pub struct V2 {
    pub x: i64,
    pub y: i64,
}

/// Exact meaning of the fixed-point dot product of three-component vectors.
pub open spec fn dot3_s(ax: int, ay: int, az: int, bx: int, by: int, bz: int) -> int {
    fx_mul_s(ax, bx) + fx_mul_s(ay, by) + fx_mul_s(az, bz)
}

/// Exact meaning of the fixed-point dot product of two-component vectors.
pub open spec fn dot2_s(ax: int, ay: int, bx: int, by: int) -> int {
    fx_mul_s(ax, bx) + fx_mul_s(ay, by)
}

impl V3 {
    /// Every component's magnitude is at most `l`.
    pub open spec fn in_lim(self, l: int) -> bool {
        iabs(self.x as int) <= l && iabs(self.y as int) <= l && iabs(self.z as int) <= l
    }

    pub fn new(x: i64, y: i64, z: i64) -> (r: V3)
        ensures
            r == (V3 { x, y, z }),
    {
        V3 { x, y, z }
    }

    pub fn zeros() -> (r: V3)
        ensures
            r == (V3 { x: 0i64, y: 0i64, z: 0i64 }),
    {
        V3 { x: 0, y: 0, z: 0 }
    }

    pub fn repeat(v: i64) -> (r: V3)
        ensures
            r == (V3 { x: v, y: v, z: v }),
    {
        V3 { x: v, y: v, z: v }
    }

    /// Componentwise sum.
    pub fn add(&self, o: &V3) -> (r: V3)
        requires
            fits64(self.x + o.x),
            fits64(self.y + o.y),
            fits64(self.z + o.z),
        ensures
            r.x == self.x + o.x,
            r.y == self.y + o.y,
            r.z == self.z + o.z,
    {
        V3 { x: self.x + o.x, y: self.y + o.y, z: self.z + o.z }
    }

    /// Componentwise difference.
    pub fn sub(&self, o: &V3) -> (r: V3)
        requires
            fits64(self.x - o.x),
            fits64(self.y - o.y),
            fits64(self.z - o.z),
        ensures
            r.x == self.x - o.x,
            r.y == self.y - o.y,
            r.z == self.z - o.z,
    {
        V3 { x: self.x - o.x, y: self.y - o.y, z: self.z - o.z }
    }

    /// Componentwise negation.
    pub fn neg(&self) -> (r: V3)
        requires
            self.in_lim(i64::MAX as int),
        ensures
            r.x == -self.x,
            r.y == -self.y,
            r.z == -self.z,
    {
        V3 { x: -self.x, y: -self.y, z: -self.z }
    }

    /// Fixed-point scaling of every component by `s`.
    pub fn scale(&self, s: i64) -> (r: V3)
        requires
            self.in_lim(FX_LIM as int),
            -FX_LIM <= s <= FX_LIM,
        ensures
            r.x == fx_mul_s(self.x as int, s as int),
            r.y == fx_mul_s(self.y as int, s as int),
            r.z == fx_mul_s(self.z as int, s as int),
    {
        V3 { x: fx_mul(self.x, s), y: fx_mul(self.y, s), z: fx_mul(self.z, s) }
    }

    /// Fixed-point dot product.
    pub fn dot(&self, o: &V3) -> (r: i64)
        requires
            self.in_lim(FX_SUM_LIM as int),
            o.in_lim(FX_SUM_LIM as int),
        ensures
            r == dot3_s(
                self.x as int,
                self.y as int,
                self.z as int,
                o.x as int,
                o.y as int,
                o.z as int,
            ),
            self.in_lim(0x40_0000) && o.in_lim(0x40_0000) ==> iabs(r as int) <= 0x4000_0000,
            self.in_lim(0x40_0000) && o.in_lim(0x20_0000_0000) ==> iabs(r as int)
                <= 0x2000_0000_0000,
    {
        proof {
            lemma_dot_term_bound(self.x as int, o.x as int);
            lemma_dot_term_bound(self.y as int, o.y as int);
            lemma_dot_term_bound(self.z as int, o.z as int);
        }
        fx_mul(self.x, o.x) + fx_mul(self.y, o.y) + fx_mul(self.z, o.z)
    }

    /// Fixed-point cross product.
    pub fn cross(&self, o: &V3) -> (r: V3)
        requires
            self.in_lim(FX_SUM_LIM as int),
            o.in_lim(FX_SUM_LIM as int),
        ensures
            r.x == fx_mul_s(self.y as int, o.z as int) - fx_mul_s(self.z as int, o.y as int),
            r.y == fx_mul_s(self.z as int, o.x as int) - fx_mul_s(self.x as int, o.z as int),
            r.z == fx_mul_s(self.x as int, o.y as int) - fx_mul_s(self.y as int, o.x as int),
    {
        V3 {
            x: fx_mul(self.y, o.z) - fx_mul(self.z, o.y),
            y: fx_mul(self.z, o.x) - fx_mul(self.x, o.z),
            z: fx_mul(self.x, o.y) - fx_mul(self.y, o.x),
        }
    }

    /// Componentwise fixed-point product.
    pub fn component_mul(&self, o: &V3) -> (r: V3)
        requires
            self.in_lim(FX_LIM as int),
            o.in_lim(FX_LIM as int),
        ensures
            r.x == fx_mul_s(self.x as int, o.x as int),
            r.y == fx_mul_s(self.y as int, o.y as int),
            r.z == fx_mul_s(self.z as int, o.z as int),
    {
        V3 { x: fx_mul(self.x, o.x), y: fx_mul(self.y, o.y), z: fx_mul(self.z, o.z) }
    }
}

impl V2 {
    /// Every component's magnitude is at most `l`.
    pub open spec fn in_lim(self, l: int) -> bool {
        iabs(self.x as int) <= l && iabs(self.y as int) <= l
    }

    pub fn new(x: i64, y: i64) -> (r: V2)
        ensures
            r == (V2 { x, y }),
    {
        V2 { x, y }
    }

    /// Fixed-point dot product.
    pub fn dot(&self, o: &V2) -> (r: i64)
        requires
            self.in_lim(FX_SUM_LIM as int),
            o.in_lim(FX_SUM_LIM as int),
        ensures
            r == dot2_s(self.x as int, self.y as int, o.x as int, o.y as int),
            self.in_lim(0x40_0000) && o.in_lim(0x40_0000) ==> iabs(r as int) <= 0x4000_0000,
            self.in_lim(0x40_0000) && o.in_lim(0x20_0000_0000) ==> iabs(r as int)
                <= 0x2000_0000_0000,
    {
        proof {
            lemma_dot_term_bound(self.x as int, o.x as int);
            lemma_dot_term_bound(self.y as int, o.y as int);
        }
        fx_mul(self.x, o.x) + fx_mul(self.y, o.y)
    }
}


/// Magnitude bounds for one term of a fixed-point dot product, under the
/// operand ranges the separating-axis kernels use.
proof fn lemma_dot_term_bound(a: int, b: int)
    ensures
        iabs(a) <= 0x40_0000 && iabs(b) <= 0x40_0000 ==> iabs(fx_mul_s(a, b)) <= 0x1000_0000,
        iabs(a) <= 0x40_0000 && iabs(b) <= 0x20_0000_0000 ==> iabs(fx_mul_s(a, b))
            <= 0x800_0000_0000,
{
    crate::fx::lemma_abs_mul(a, b);
    if iabs(a) <= 0x40_0000 && iabs(b) <= 0x40_0000 {
        crate::fx::lemma_mul_bounds2(a, 0x40_0000, b, 0x40_0000);
        vstd::arithmetic::div_mod::lemma_div_is_ordered(
            iabs(a * b),
            (0x40_0000 * 0x40_0000) as int,
            65536,
        );
        assert(iabs(fx_mul_s(a, b)) <= iabs(a * b) / 65536);
    }
    if iabs(a) <= 0x40_0000 && iabs(b) <= 0x20_0000_0000 {
        crate::fx::lemma_mul_bounds2(a, 0x40_0000, b, 0x20_0000_0000);
        vstd::arithmetic::div_mod::lemma_div_is_ordered(
            iabs(a * b),
            (0x40_0000 * 0x20_0000_0000) as int,
            65536,
        );
        assert(iabs(fx_mul_s(a, b)) <= iabs(a * b) / 65536);
    }
}

} // verus!
