//! Fixed-point rotation quaternions.
//!
//! Storage order is (i, j, k, w). The working range is twice the unit raw
//! value; a unit quaternion never leaves it, and the product clamps into it,
//! so rotation state stays well-formed across any number of updates.

use vstd::prelude::*;
use crate::fx::{fx_mul, fx_mul_s, iabs, FX_ONE};
use crate::trig::{fx_sin, fx_cos, fx_sin_s, fx_cos_s, fx_sqrt, isqrt, clamp_unit_s};
use crate::vec3::{V3, dot3_s};

verus! {

/// Magnitude bound on quaternion components.
pub const QUAT_LIM: i64 = 131072;

/// A rotation quaternion in fixed point.
#[derive(Clone, Copy, PartialEq, Eq, Structural, Debug)]
pub struct Quat {
    pub i: i64,
    pub j: i64,
    pub k: i64,
    pub w: i64,
}

/// Clamps a raw scalar into the quaternion working range.
pub open spec fn clamp_quat_s(x: int) -> int {
    if x > QUAT_LIM {
        QUAT_LIM as int
    } else if x < -QUAT_LIM {
        -(QUAT_LIM as int)
    } else {
        x
    }
}

/// The clamped Hamilton-product components of `a * b`.
pub open spec fn quat_mul_i_s(a: Quat, b: Quat) -> int {
    clamp_quat_s(
        fx_mul_s(a.w as int, b.i as int) + fx_mul_s(a.i as int, b.w as int) + fx_mul_s(
            a.j as int,
            b.k as int,
        ) - fx_mul_s(a.k as int, b.j as int),
    )
}

pub open spec fn quat_mul_j_s(a: Quat, b: Quat) -> int {
    clamp_quat_s(
        fx_mul_s(a.w as int, b.j as int) - fx_mul_s(a.i as int, b.k as int) + fx_mul_s(
            a.j as int,
            b.w as int,
        ) + fx_mul_s(a.k as int, b.i as int),
    )
}

pub open spec fn quat_mul_k_s(a: Quat, b: Quat) -> int {
    clamp_quat_s(
        fx_mul_s(a.w as int, b.k as int) + fx_mul_s(a.i as int, b.j as int) - fx_mul_s(
            a.j as int,
            b.i as int,
        ) + fx_mul_s(a.k as int, b.w as int),
    )
}

pub open spec fn quat_mul_w_s(a: Quat, b: Quat) -> int {
    clamp_quat_s(
        fx_mul_s(a.w as int, b.w as int) - fx_mul_s(a.i as int, b.i as int) - fx_mul_s(
            a.j as int,
            b.j as int,
        ) - fx_mul_s(a.k as int, b.k as int),
    )
}

/// Clamps a raw scalar into the quaternion working range.
fn clamp_quat(x: i64) -> (r: i64)
    ensures
        r == clamp_quat_s(x as int),
        -QUAT_LIM <= r <= QUAT_LIM,
{
    if x > QUAT_LIM {
        QUAT_LIM
    } else if x < -QUAT_LIM {
        -QUAT_LIM
    } else {
        x
    }
}

/// The axis-angle quaternion of a scaled axis, as a value: the rotation by
/// the angle `|v|` around `v / |v|`, with the norm as the exact floor square
/// root, sine and cosine by their fixed-point evaluations, and the axis
/// components clamped into the unit range. A zero axis gives the identity.
pub open spec fn from_scaled_axis_s(v: V3) -> Quat {
    let n2 = dot3_s(v.x as int, v.y as int, v.z as int, v.x as int, v.y as int, v.z as int);
    let n2c = if n2 >= 0 {
        n2
    } else {
        0
    };
    let theta = isqrt(n2c * (FX_ONE as int));
    if theta == 0 {
        Quat { i: 0, j: 0, k: 0, w: FX_ONE }
    } else {
        let s = fx_sin_s(theta / 2);
        let c = fx_cos_s(theta / 2);
        Quat {
            i: fx_mul_s(clamp_unit_s(crate::fx::fx_div_s(v.x as int, theta)), s) as i64,
            j: fx_mul_s(clamp_unit_s(crate::fx::fx_div_s(v.y as int, theta)), s) as i64,
            k: fx_mul_s(clamp_unit_s(crate::fx::fx_div_s(v.z as int, theta)), s) as i64,
            w: c as i64,
        }
    }
}

impl Quat {
    /// The conjugate as a value.
    pub open spec fn spec_conjugate(self) -> Quat {
        Quat { i: (-self.i) as i64, j: (-self.j) as i64, k: (-self.k) as i64, w: self.w }
    }

    /// All components are inside the working range.
    pub open spec fn wf(self) -> bool {
        &&& iabs(self.i as int) <= QUAT_LIM
        &&& iabs(self.j as int) <= QUAT_LIM
        &&& iabs(self.k as int) <= QUAT_LIM
        &&& iabs(self.w as int) <= QUAT_LIM
    }

    /// The identity rotation.
    pub fn identity() -> (r: Quat)
        ensures
            r == (Quat { i: 0i64, j: 0i64, k: 0i64, w: FX_ONE }),
            r.wf(),
    {
        Quat { i: 0, j: 0, k: 0, w: FX_ONE }
    }

    /// The Hamilton product `self * other`, components clamped into the
    /// working range.
    pub fn mul(&self, other: &Quat) -> (r: Quat)
        requires
            self.wf(),
            other.wf(),
        ensures
            r.i == quat_mul_i_s(*self, *other),
            r.j == quat_mul_j_s(*self, *other),
            r.k == quat_mul_k_s(*self, *other),
            r.w == quat_mul_w_s(*self, *other),
            r.wf(),
    {
        let i = fx_mul(self.w, other.i) + fx_mul(self.i, other.w) + fx_mul(self.j, other.k)
            - fx_mul(self.k, other.j);
        let j = fx_mul(self.w, other.j) - fx_mul(self.i, other.k) + fx_mul(self.j, other.w)
            + fx_mul(self.k, other.i);
        let k = fx_mul(self.w, other.k) + fx_mul(self.i, other.j) - fx_mul(self.j, other.i)
            + fx_mul(self.k, other.w);
        let w = fx_mul(self.w, other.w) - fx_mul(self.i, other.i) - fx_mul(self.j, other.j)
            - fx_mul(self.k, other.k);
        Quat { i: clamp_quat(i), j: clamp_quat(j), k: clamp_quat(k), w: clamp_quat(w) }
    }

    /// The conjugate rotation: the axis components negated.
    pub fn conjugate(&self) -> (r: Quat)
        requires
            self.wf(),
        ensures
            r.i == -self.i,
            r.j == -self.j,
            r.k == -self.k,
            r.w == self.w,
            r.wf(),
    {
        Quat { i: -self.i, j: -self.j, k: -self.k, w: self.w }
    }

    /// Negates the axis components in place.
    pub fn conjugate_mut(&mut self)
        requires
            old(self).wf(),
        ensures
            final(self).i == -old(self).i,
            final(self).j == -old(self).j,
            final(self).k == -old(self).k,
            final(self).w == old(self).w,
            final(self).wf(),
    {
        self.i = -self.i;
        self.j = -self.j;
        self.k = -self.k;
    }

    /// The rotation by the angle `|v|` around the axis `v / |v|`: the
    /// quaternion exponential of the scaled axis, evaluated in fixed point.
    /// A zero axis yields the identity.
    pub fn from_scaled_axis(v: &V3) -> (r: Quat)
        requires
            v.in_lim(0x40_0000_0000),
        ensures
            r == from_scaled_axis_s(*v),
            r.wf(),
    {
        let n2 = v.dot(v);
        let theta = fx_sqrt(if n2 >= 0 {
            n2
        } else {
            0
        });
        if theta == 0 {
            return Quat::identity();
        }
        let half = theta / 2;
        let s = fx_sin(half);
        let c = fx_cos(half);
        let ax = clamp_axis(crate::fx::fx_div(v.x, theta));
        let ay = clamp_axis(crate::fx::fx_div(v.y, theta));
        let az = clamp_axis(crate::fx::fx_div(v.z, theta));
        proof {
            crate::fx::lemma_fx_mul_bound(ax as int, FX_ONE as int, s as int, FX_ONE as int);
            crate::fx::lemma_fx_mul_bound(ay as int, FX_ONE as int, s as int, FX_ONE as int);
            crate::fx::lemma_fx_mul_bound(az as int, FX_ONE as int, s as int, FX_ONE as int);
        }
        Quat { i: fx_mul(ax, s), j: fx_mul(ay, s), k: fx_mul(az, s), w: c }
    }
}

/// Clamps an axis component into the unit range.
fn clamp_axis(x: i64) -> (r: i64)
    ensures
        r == clamp_unit_s(x as int),
        -FX_ONE <= r <= FX_ONE,
{
    if x > FX_ONE {
        FX_ONE
    } else if x < -FX_ONE {
        -FX_ONE
    } else {
        x
    }
}

} // verus!
