//! Fixed-point 4x4 transformation matrices and rotation helpers.
//!
//! Matrices are row-major: `mRC` is row `R`, column `C`. The constructors
//! build translation, rotation, scale and their inverses; `right`, `up` and
//! `forward` are the world-frame images of the coordinate axes under a
//! rotation quaternion (the columns of its rotation matrix).

use vstd::prelude::*;
use crate::fx::{fx_mul, fx_mul_s, fx_div, fx_div_s, iabs, FX_ONE};
use crate::quat::{Quat, QUAT_LIM};
use crate::vec3::V3;

verus! {

/// Magnitude bound on rotation-matrix entries built from a well-formed
/// quaternion.
pub const ROT_LIM: i64 = 0x20_0000;

/// A 4x4 fixed-point matrix, row-major.
#[derive(Clone, Copy, PartialEq, Eq, Structural, Debug)]
pub struct Mat4 {
    pub m00: i64,
    pub m01: i64,
    pub m02: i64,
    pub m03: i64,
    pub m10: i64,
    pub m11: i64,
    pub m12: i64,
    pub m13: i64,
    pub m20: i64,
    pub m21: i64,
    pub m22: i64,
    pub m23: i64,
    pub m30: i64,
    pub m31: i64,
    pub m32: i64,
    pub m33: i64,
}

/// Rotation-matrix entries of a quaternion, in fixed point: `rot_rc_s(q)` is
/// the row-`r`, column-`c` entry for `r, c < 3`.
pub open spec fn rot00_s(q: Quat) -> int {
    (FX_ONE as int) - fx_mul_s(
        2 * FX_ONE,
        fx_mul_s(q.j as int, q.j as int) + fx_mul_s(q.k as int, q.k as int),
    )
}

pub open spec fn rot01_s(q: Quat) -> int {
    fx_mul_s(2 * FX_ONE, fx_mul_s(q.i as int, q.j as int) - fx_mul_s(q.w as int, q.k as int))
}

pub open spec fn rot02_s(q: Quat) -> int {
    fx_mul_s(2 * FX_ONE, fx_mul_s(q.w as int, q.j as int) + fx_mul_s(q.i as int, q.k as int))
}

pub open spec fn rot10_s(q: Quat) -> int {
    fx_mul_s(2 * FX_ONE, fx_mul_s(q.w as int, q.k as int) + fx_mul_s(q.i as int, q.j as int))
}

pub open spec fn rot11_s(q: Quat) -> int {
    (FX_ONE as int) - fx_mul_s(
        2 * FX_ONE,
        fx_mul_s(q.i as int, q.i as int) + fx_mul_s(q.k as int, q.k as int),
    )
}

pub open spec fn rot12_s(q: Quat) -> int {
    fx_mul_s(2 * FX_ONE, fx_mul_s(q.j as int, q.k as int) - fx_mul_s(q.w as int, q.i as int))
}

pub open spec fn rot20_s(q: Quat) -> int {
    fx_mul_s(2 * FX_ONE, fx_mul_s(q.i as int, q.k as int) - fx_mul_s(q.w as int, q.j as int))
}

pub open spec fn rot21_s(q: Quat) -> int {
    fx_mul_s(2 * FX_ONE, fx_mul_s(q.w as int, q.i as int) + fx_mul_s(q.j as int, q.k as int))
}

pub open spec fn rot22_s(q: Quat) -> int {
    (FX_ONE as int) - fx_mul_s(
        2 * FX_ONE,
        fx_mul_s(q.i as int, q.i as int) + fx_mul_s(q.j as int, q.j as int),
    )
}

/// Magnitude bounds for all nine rotation entries of a well-formed
/// quaternion.
pub proof fn lemma_rot_bounds(q: Quat)
    requires
        q.wf(),
    ensures
        iabs(rot00_s(q)) <= ROT_LIM,
        iabs(rot01_s(q)) <= ROT_LIM,
        iabs(rot02_s(q)) <= ROT_LIM,
        iabs(rot10_s(q)) <= ROT_LIM,
        iabs(rot11_s(q)) <= ROT_LIM,
        iabs(rot12_s(q)) <= ROT_LIM,
        iabs(rot20_s(q)) <= ROT_LIM,
        iabs(rot21_s(q)) <= ROT_LIM,
        iabs(rot22_s(q)) <= ROT_LIM,
{
    crate::fx::lemma_fx_mul_bound(q.i as int, QUAT_LIM as int, q.i as int, QUAT_LIM as int);
    crate::fx::lemma_fx_mul_bound(q.i as int, QUAT_LIM as int, q.j as int, QUAT_LIM as int);
    crate::fx::lemma_fx_mul_bound(q.i as int, QUAT_LIM as int, q.k as int, QUAT_LIM as int);
    crate::fx::lemma_fx_mul_bound(q.j as int, QUAT_LIM as int, q.j as int, QUAT_LIM as int);
    crate::fx::lemma_fx_mul_bound(q.j as int, QUAT_LIM as int, q.k as int, QUAT_LIM as int);
    crate::fx::lemma_fx_mul_bound(q.k as int, QUAT_LIM as int, q.k as int, QUAT_LIM as int);
    crate::fx::lemma_fx_mul_bound(q.w as int, QUAT_LIM as int, q.i as int, QUAT_LIM as int);
    crate::fx::lemma_fx_mul_bound(q.w as int, QUAT_LIM as int, q.j as int, QUAT_LIM as int);
    crate::fx::lemma_fx_mul_bound(q.w as int, QUAT_LIM as int, q.k as int, QUAT_LIM as int);
    crate::fx::lemma_fx_mul_bound(2 * FX_ONE, 2 * FX_ONE, rot00_s(q) - FX_ONE, 0x10_0000);
    crate::fx::lemma_fx_mul_bound(
        2 * (FX_ONE as int),
        2 * (FX_ONE as int),
        fx_mul_s(q.j as int, q.j as int) + fx_mul_s(q.k as int, q.k as int),
        0x10_0000,
    );
    crate::fx::lemma_fx_mul_bound(
        2 * (FX_ONE as int),
        2 * (FX_ONE as int),
        fx_mul_s(q.i as int, q.i as int) + fx_mul_s(q.k as int, q.k as int),
        0x10_0000,
    );
    crate::fx::lemma_fx_mul_bound(
        2 * (FX_ONE as int),
        2 * (FX_ONE as int),
        fx_mul_s(q.i as int, q.i as int) + fx_mul_s(q.j as int, q.j as int),
        0x10_0000,
    );
    crate::fx::lemma_fx_mul_bound(
        2 * (FX_ONE as int),
        2 * (FX_ONE as int),
        fx_mul_s(q.i as int, q.j as int) - fx_mul_s(q.w as int, q.k as int),
        0x10_0000,
    );
    crate::fx::lemma_fx_mul_bound(
        2 * (FX_ONE as int),
        2 * (FX_ONE as int),
        fx_mul_s(q.w as int, q.j as int) + fx_mul_s(q.i as int, q.k as int),
        0x10_0000,
    );
    crate::fx::lemma_fx_mul_bound(
        2 * (FX_ONE as int),
        2 * (FX_ONE as int),
        fx_mul_s(q.w as int, q.k as int) + fx_mul_s(q.i as int, q.j as int),
        0x10_0000,
    );
    crate::fx::lemma_fx_mul_bound(
        2 * (FX_ONE as int),
        2 * (FX_ONE as int),
        fx_mul_s(q.j as int, q.k as int) - fx_mul_s(q.w as int, q.i as int),
        0x10_0000,
    );
    crate::fx::lemma_fx_mul_bound(
        2 * (FX_ONE as int),
        2 * (FX_ONE as int),
        fx_mul_s(q.i as int, q.k as int) - fx_mul_s(q.w as int, q.j as int),
        0x10_0000,
    );
    crate::fx::lemma_fx_mul_bound(
        2 * (FX_ONE as int),
        2 * (FX_ONE as int),
        fx_mul_s(q.w as int, q.i as int) + fx_mul_s(q.j as int, q.k as int),
        0x10_0000,
    );
}

impl Mat4 {
    /// The identity matrix.
    pub fn identity() -> (r: Mat4)
        ensures
            r.m00 == FX_ONE && r.m11 == FX_ONE && r.m22 == FX_ONE && r.m33 == FX_ONE,
            r.m01 == 0 && r.m02 == 0 && r.m03 == 0,
            r.m10 == 0 && r.m12 == 0 && r.m13 == 0,
            r.m20 == 0 && r.m21 == 0 && r.m23 == 0,
            r.m30 == 0 && r.m31 == 0 && r.m32 == 0,
    {
        Mat4 {
            m00: FX_ONE,
            m01: 0,
            m02: 0,
            m03: 0,
            m10: 0,
            m11: FX_ONE,
            m12: 0,
            m13: 0,
            m20: 0,
            m21: 0,
            m22: FX_ONE,
            m23: 0,
            m30: 0,
            m31: 0,
            m32: 0,
            m33: FX_ONE,
        }
    }
}

/// Generates a 4x4 translation matrix from a 3d point.
pub fn init_translation(pos: &V3) -> (r: Mat4)
    ensures
        r.m00 == FX_ONE && r.m11 == FX_ONE && r.m22 == FX_ONE && r.m33 == FX_ONE,
        r.m03 == pos.x && r.m13 == pos.y && r.m23 == pos.z,
        r.m01 == 0 && r.m02 == 0 && r.m10 == 0 && r.m12 == 0 && r.m20 == 0 && r.m21 == 0,
        r.m30 == 0 && r.m31 == 0 && r.m32 == 0,
{
    let mut m = Mat4::identity();
    m.m03 = pos.x;
    m.m13 = pos.y;
    m.m23 = pos.z;
    m
}

/// Generates an inverse 4x4 translation matrix from a 3d point.
pub fn init_inverse_translation(pos: &V3) -> (r: Mat4)
    requires
        pos.in_lim(0x4000_0000_0000_0000),
    ensures
        r.m00 == FX_ONE && r.m11 == FX_ONE && r.m22 == FX_ONE && r.m33 == FX_ONE,
        r.m03 == -pos.x && r.m13 == -pos.y && r.m23 == -pos.z,
        r.m01 == 0 && r.m02 == 0 && r.m10 == 0 && r.m12 == 0 && r.m20 == 0 && r.m21 == 0,
        r.m30 == 0 && r.m31 == 0 && r.m32 == 0,
{
    let mut m = Mat4::identity();
    m.m03 = -pos.x;
    m.m13 = -pos.y;
    m.m23 = -pos.z;
    m
}

/// Generates a 4x4 rotation matrix from a rotation quaternion.
pub fn init_rotation(rot: &Quat) -> (r: Mat4)
    requires
        rot.wf(),
    ensures
        r.m00 == rot00_s(*rot) && r.m01 == rot01_s(*rot) && r.m02 == rot02_s(*rot),
        r.m10 == rot10_s(*rot) && r.m11 == rot11_s(*rot) && r.m12 == rot12_s(*rot),
        r.m20 == rot20_s(*rot) && r.m21 == rot21_s(*rot) && r.m22 == rot22_s(*rot),
        r.m03 == 0 && r.m13 == 0 && r.m23 == 0 && r.m33 == FX_ONE,
        r.m30 == 0 && r.m31 == 0 && r.m32 == 0,
{
    proof {
        crate::fx::lemma_fx_mul_bound(rot.i as int, QUAT_LIM as int, rot.i as int, QUAT_LIM as int);
        crate::fx::lemma_fx_mul_bound(rot.i as int, QUAT_LIM as int, rot.j as int, QUAT_LIM as int);
        crate::fx::lemma_fx_mul_bound(rot.i as int, QUAT_LIM as int, rot.k as int, QUAT_LIM as int);
        crate::fx::lemma_fx_mul_bound(rot.j as int, QUAT_LIM as int, rot.j as int, QUAT_LIM as int);
        crate::fx::lemma_fx_mul_bound(rot.j as int, QUAT_LIM as int, rot.k as int, QUAT_LIM as int);
        crate::fx::lemma_fx_mul_bound(rot.k as int, QUAT_LIM as int, rot.k as int, QUAT_LIM as int);
        crate::fx::lemma_fx_mul_bound(rot.w as int, QUAT_LIM as int, rot.i as int, QUAT_LIM as int);
        crate::fx::lemma_fx_mul_bound(rot.w as int, QUAT_LIM as int, rot.j as int, QUAT_LIM as int);
        crate::fx::lemma_fx_mul_bound(rot.w as int, QUAT_LIM as int, rot.k as int, QUAT_LIM as int);
    }
    let two = 2 * FX_ONE;
    let ii = fx_mul(rot.i, rot.i);
    let jj = fx_mul(rot.j, rot.j);
    let kk = fx_mul(rot.k, rot.k);
    let ij = fx_mul(rot.i, rot.j);
    let ik = fx_mul(rot.i, rot.k);
    let jk = fx_mul(rot.j, rot.k);
    let wi = fx_mul(rot.w, rot.i);
    let wj = fx_mul(rot.w, rot.j);
    let wk = fx_mul(rot.w, rot.k);
    Mat4 {
        m00: FX_ONE - fx_mul(two, jj + kk),
        m01: fx_mul(two, ij - wk),
        m02: fx_mul(two, wj + ik),
        m03: 0,
        m10: fx_mul(two, wk + ij),
        m11: FX_ONE - fx_mul(two, ii + kk),
        m12: fx_mul(two, jk - wi),
        m13: 0,
        m20: fx_mul(two, ik - wj),
        m21: fx_mul(two, wi + jk),
        m22: FX_ONE - fx_mul(two, ii + jj),
        m23: 0,
        m30: 0,
        m31: 0,
        m32: 0,
        m33: FX_ONE,
    }
}

/// Generates an inverse 4x4 rotation matrix (the transpose of the rotation
/// matrix) from a rotation quaternion.
pub fn init_inverse_rotation(rot: &Quat) -> (r: Mat4)
    requires
        rot.wf(),
    ensures
        r.m00 == rot00_s(*rot) && r.m01 == rot10_s(*rot) && r.m02 == rot20_s(*rot),
        r.m10 == rot01_s(*rot) && r.m11 == rot11_s(*rot) && r.m12 == rot21_s(*rot),
        r.m20 == rot02_s(*rot) && r.m21 == rot12_s(*rot) && r.m22 == rot22_s(*rot),
        r.m03 == 0 && r.m13 == 0 && r.m23 == 0 && r.m33 == FX_ONE,
        r.m30 == 0 && r.m31 == 0 && r.m32 == 0,
{
    proof {
        crate::fx::lemma_fx_mul_bound(rot.i as int, QUAT_LIM as int, rot.i as int, QUAT_LIM as int);
        crate::fx::lemma_fx_mul_bound(rot.i as int, QUAT_LIM as int, rot.j as int, QUAT_LIM as int);
        crate::fx::lemma_fx_mul_bound(rot.i as int, QUAT_LIM as int, rot.k as int, QUAT_LIM as int);
        crate::fx::lemma_fx_mul_bound(rot.j as int, QUAT_LIM as int, rot.j as int, QUAT_LIM as int);
        crate::fx::lemma_fx_mul_bound(rot.j as int, QUAT_LIM as int, rot.k as int, QUAT_LIM as int);
        crate::fx::lemma_fx_mul_bound(rot.k as int, QUAT_LIM as int, rot.k as int, QUAT_LIM as int);
        crate::fx::lemma_fx_mul_bound(rot.w as int, QUAT_LIM as int, rot.i as int, QUAT_LIM as int);
        crate::fx::lemma_fx_mul_bound(rot.w as int, QUAT_LIM as int, rot.j as int, QUAT_LIM as int);
        crate::fx::lemma_fx_mul_bound(rot.w as int, QUAT_LIM as int, rot.k as int, QUAT_LIM as int);
    }
    let two = 2 * FX_ONE;
    let ii = fx_mul(rot.i, rot.i);
    let jj = fx_mul(rot.j, rot.j);
    let kk = fx_mul(rot.k, rot.k);
    let ij = fx_mul(rot.i, rot.j);
    let ik = fx_mul(rot.i, rot.k);
    let jk = fx_mul(rot.j, rot.k);
    let wi = fx_mul(rot.w, rot.i);
    let wj = fx_mul(rot.w, rot.j);
    let wk = fx_mul(rot.w, rot.k);
    Mat4 {
        m00: FX_ONE - fx_mul(two, jj + kk),
        m01: fx_mul(two, wk + ij),
        m02: fx_mul(two, ik - wj),
        m03: 0,
        m10: fx_mul(two, ij - wk),
        m11: FX_ONE - fx_mul(two, ii + kk),
        m12: fx_mul(two, wi + jk),
        m13: 0,
        m20: fx_mul(two, wj + ik),
        m21: fx_mul(two, jk - wi),
        m22: FX_ONE - fx_mul(two, ii + jj),
        m23: 0,
        m30: 0,
        m31: 0,
        m32: 0,
        m33: FX_ONE,
    }
}

/// Generates a 4x4 scale matrix from a 3d scale vector.
pub fn init_scale(scale: &V3) -> (r: Mat4)
    ensures
        r.m00 == scale.x && r.m11 == scale.y && r.m22 == scale.z && r.m33 == FX_ONE,
        r.m01 == 0 && r.m02 == 0 && r.m03 == 0,
        r.m10 == 0 && r.m12 == 0 && r.m13 == 0,
        r.m20 == 0 && r.m21 == 0 && r.m23 == 0,
        r.m30 == 0 && r.m31 == 0 && r.m32 == 0,
{
    let mut m = Mat4::identity();
    m.m00 = scale.x;
    m.m11 = scale.y;
    m.m22 = scale.z;
    m
}

/// Generates an inverse 4x4 scale matrix: the reciprocal of each scale
/// component on the diagonal. The scale must be free of zero components.
pub fn init_inverse_scale(scale: &V3) -> (r: Mat4)
    requires
        scale.x != 0,
        scale.y != 0,
        scale.z != 0,
        scale.in_lim(crate::fx::FX_LIM as int),
    ensures
        r.m00 == fx_div_s(FX_ONE as int, scale.x as int),
        r.m11 == fx_div_s(FX_ONE as int, scale.y as int),
        r.m22 == fx_div_s(FX_ONE as int, scale.z as int),
        r.m33 == FX_ONE,
        r.m01 == 0 && r.m02 == 0 && r.m03 == 0,
        r.m10 == 0 && r.m12 == 0 && r.m13 == 0,
        r.m20 == 0 && r.m21 == 0 && r.m23 == 0,
        r.m30 == 0 && r.m31 == 0 && r.m32 == 0,
{
    let mut m = Mat4::identity();
    m.m00 = fx_div(FX_ONE, scale.x);
    m.m11 = fx_div(FX_ONE, scale.y);
    m.m22 = fx_div(FX_ONE, scale.z);
    m
}

/// The world-frame image of the positive x axis under the rotation.
pub fn right(rot: &Quat) -> (r: V3)
    requires
        rot.wf(),
    ensures
        r.x == rot00_s(*rot),
        r.y == rot10_s(*rot),
        r.z == rot20_s(*rot),
        r.in_lim(ROT_LIM as int),
{
    proof {
        lemma_rot_bounds(*rot);
    }
    let two = 2 * FX_ONE;
    V3 {
        x: FX_ONE - fx_mul(two, fx_mul(rot.j, rot.j) + fx_mul(rot.k, rot.k)),
        y: fx_mul(two, fx_mul(rot.w, rot.k) + fx_mul(rot.i, rot.j)),
        z: fx_mul(two, fx_mul(rot.i, rot.k) - fx_mul(rot.w, rot.j)),
    }
}

/// The world-frame image of the positive y axis under the rotation.
pub fn up(rot: &Quat) -> (r: V3)
    requires
        rot.wf(),
    ensures
        r.x == rot01_s(*rot),
        r.y == rot11_s(*rot),
        r.z == rot21_s(*rot),
        r.in_lim(ROT_LIM as int),
{
    proof {
        lemma_rot_bounds(*rot);
    }
    let two = 2 * FX_ONE;
    V3 {
        x: fx_mul(two, fx_mul(rot.i, rot.j) - fx_mul(rot.w, rot.k)),
        y: FX_ONE - fx_mul(two, fx_mul(rot.i, rot.i) + fx_mul(rot.k, rot.k)),
        z: fx_mul(two, fx_mul(rot.w, rot.i) + fx_mul(rot.j, rot.k)),
    }
}

/// The world-frame image of the positive z axis under the rotation.
pub fn forward(rot: &Quat) -> (r: V3)
    requires
        rot.wf(),
    ensures
        r.x == rot02_s(*rot),
        r.y == rot12_s(*rot),
        r.z == rot22_s(*rot),
        r.in_lim(ROT_LIM as int),
{
    proof {
        lemma_rot_bounds(*rot);
    }
    let two = 2 * FX_ONE;
    V3 {
        x: fx_mul(two, fx_mul(rot.w, rot.j) + fx_mul(rot.i, rot.k)),
        y: fx_mul(two, fx_mul(rot.j, rot.k) - fx_mul(rot.w, rot.i)),
        z: FX_ONE - fx_mul(two, fx_mul(rot.i, rot.i) + fx_mul(rot.j, rot.j)),
    }
}

/// One entry of the fixed-point matrix product: row `r` of `a` against
/// column `c` of `b`.
pub open spec fn mat4_mul_entry(a: Mat4, b: Mat4, r: int, c: int) -> int {
    let ar = if r == 0 {
        (a.m00, a.m01, a.m02, a.m03)
    } else if r == 1 {
        (a.m10, a.m11, a.m12, a.m13)
    } else if r == 2 {
        (a.m20, a.m21, a.m22, a.m23)
    } else {
        (a.m30, a.m31, a.m32, a.m33)
    };
    let bc = if c == 0 {
        (b.m00, b.m10, b.m20, b.m30)
    } else if c == 1 {
        (b.m01, b.m11, b.m21, b.m31)
    } else if c == 2 {
        (b.m02, b.m12, b.m22, b.m32)
    } else {
        (b.m03, b.m13, b.m23, b.m33)
    };
    fx_mul_s(ar.0 as int, bc.0 as int) + fx_mul_s(ar.1 as int, bc.1 as int) + fx_mul_s(
        ar.2 as int,
        bc.2 as int,
    ) + fx_mul_s(ar.3 as int, bc.3 as int)
}

/// Every entry's magnitude is at most `l`.
pub open spec fn mat4_in_lim(m: Mat4, l: int) -> bool {
    &&& iabs(m.m00 as int) <= l && iabs(m.m01 as int) <= l && iabs(m.m02 as int) <= l && iabs(
        m.m03 as int,
    ) <= l
    &&& iabs(m.m10 as int) <= l && iabs(m.m11 as int) <= l && iabs(m.m12 as int) <= l && iabs(
        m.m13 as int,
    ) <= l
    &&& iabs(m.m20 as int) <= l && iabs(m.m21 as int) <= l && iabs(m.m22 as int) <= l && iabs(
        m.m23 as int,
    ) <= l
    &&& iabs(m.m30 as int) <= l && iabs(m.m31 as int) <= l && iabs(m.m32 as int) <= l && iabs(
        m.m33 as int,
    ) <= l
}

/// The fixed-point matrix product `a * b`.
pub fn mat4_mul(a: &Mat4, b: &Mat4) -> (r: Mat4)
    requires
        mat4_in_lim(*a, 0x40_0000_0000),
        mat4_in_lim(*b, 0x40_0000_0000),
    ensures
        r.m00 == mat4_mul_entry(*a, *b, 0, 0) && r.m01 == mat4_mul_entry(*a, *b, 0, 1) && r.m02
            == mat4_mul_entry(*a, *b, 0, 2) && r.m03 == mat4_mul_entry(*a, *b, 0, 3),
        r.m10 == mat4_mul_entry(*a, *b, 1, 0) && r.m11 == mat4_mul_entry(*a, *b, 1, 1) && r.m12
            == mat4_mul_entry(*a, *b, 1, 2) && r.m13 == mat4_mul_entry(*a, *b, 1, 3),
        r.m20 == mat4_mul_entry(*a, *b, 2, 0) && r.m21 == mat4_mul_entry(*a, *b, 2, 1) && r.m22
            == mat4_mul_entry(*a, *b, 2, 2) && r.m23 == mat4_mul_entry(*a, *b, 2, 3),
        r.m30 == mat4_mul_entry(*a, *b, 3, 0) && r.m31 == mat4_mul_entry(*a, *b, 3, 1) && r.m32
            == mat4_mul_entry(*a, *b, 3, 2) && r.m33 == mat4_mul_entry(*a, *b, 3, 3),
{
    Mat4 {
        m00: fx_mul(a.m00, b.m00) + fx_mul(a.m01, b.m10) + fx_mul(a.m02, b.m20) + fx_mul(
            a.m03,
            b.m30,
        ),
        m01: fx_mul(a.m00, b.m01) + fx_mul(a.m01, b.m11) + fx_mul(a.m02, b.m21) + fx_mul(
            a.m03,
            b.m31,
        ),
        m02: fx_mul(a.m00, b.m02) + fx_mul(a.m01, b.m12) + fx_mul(a.m02, b.m22) + fx_mul(
            a.m03,
            b.m32,
        ),
        m03: fx_mul(a.m00, b.m03) + fx_mul(a.m01, b.m13) + fx_mul(a.m02, b.m23) + fx_mul(
            a.m03,
            b.m33,
        ),
        m10: fx_mul(a.m10, b.m00) + fx_mul(a.m11, b.m10) + fx_mul(a.m12, b.m20) + fx_mul(
            a.m13,
            b.m30,
        ),
        m11: fx_mul(a.m10, b.m01) + fx_mul(a.m11, b.m11) + fx_mul(a.m12, b.m21) + fx_mul(
            a.m13,
            b.m31,
        ),
        m12: fx_mul(a.m10, b.m02) + fx_mul(a.m11, b.m12) + fx_mul(a.m12, b.m22) + fx_mul(
            a.m13,
            b.m32,
        ),
        m13: fx_mul(a.m10, b.m03) + fx_mul(a.m11, b.m13) + fx_mul(a.m12, b.m23) + fx_mul(
            a.m13,
            b.m33,
        ),
        m20: fx_mul(a.m20, b.m00) + fx_mul(a.m21, b.m10) + fx_mul(a.m22, b.m20) + fx_mul(
            a.m23,
            b.m30,
        ),
        m21: fx_mul(a.m20, b.m01) + fx_mul(a.m21, b.m11) + fx_mul(a.m22, b.m21) + fx_mul(
            a.m23,
            b.m31,
        ),
        m22: fx_mul(a.m20, b.m02) + fx_mul(a.m21, b.m12) + fx_mul(a.m22, b.m22) + fx_mul(
            a.m23,
            b.m32,
        ),
        m23: fx_mul(a.m20, b.m03) + fx_mul(a.m21, b.m13) + fx_mul(a.m22, b.m23) + fx_mul(
            a.m23,
            b.m33,
        ),
        m30: fx_mul(a.m30, b.m00) + fx_mul(a.m31, b.m10) + fx_mul(a.m32, b.m20) + fx_mul(
            a.m33,
            b.m30,
        ),
        m31: fx_mul(a.m30, b.m01) + fx_mul(a.m31, b.m11) + fx_mul(a.m32, b.m21) + fx_mul(
            a.m33,
            b.m31,
        ),
        m32: fx_mul(a.m30, b.m02) + fx_mul(a.m31, b.m12) + fx_mul(a.m32, b.m22) + fx_mul(
            a.m33,
            b.m32,
        ),
        m33: fx_mul(a.m30, b.m03) + fx_mul(a.m31, b.m13) + fx_mul(a.m32, b.m23) + fx_mul(
            a.m33,
            b.m33,
        ),
    }
}

/// The image of a point under the affine matrix: the linear part applied to
/// the point plus the translation column.
pub open spec fn mat4_point_x_s(m: Mat4, p: V3) -> int {
    fx_mul_s(m.m00 as int, p.x as int) + fx_mul_s(m.m01 as int, p.y as int) + fx_mul_s(
        m.m02 as int,
        p.z as int,
    ) + m.m03
}

pub open spec fn mat4_point_y_s(m: Mat4, p: V3) -> int {
    fx_mul_s(m.m10 as int, p.x as int) + fx_mul_s(m.m11 as int, p.y as int) + fx_mul_s(
        m.m12 as int,
        p.z as int,
    ) + m.m13
}

pub open spec fn mat4_point_z_s(m: Mat4, p: V3) -> int {
    fx_mul_s(m.m20 as int, p.x as int) + fx_mul_s(m.m21 as int, p.y as int) + fx_mul_s(
        m.m22 as int,
        p.z as int,
    ) + m.m23
}

/// The image of a direction under the linear part of the matrix.
pub open spec fn mat4_vec_x_s(m: Mat4, p: V3) -> int {
    fx_mul_s(m.m00 as int, p.x as int) + fx_mul_s(m.m01 as int, p.y as int) + fx_mul_s(
        m.m02 as int,
        p.z as int,
    )
}

pub open spec fn mat4_vec_y_s(m: Mat4, p: V3) -> int {
    fx_mul_s(m.m10 as int, p.x as int) + fx_mul_s(m.m11 as int, p.y as int) + fx_mul_s(
        m.m12 as int,
        p.z as int,
    )
}

pub open spec fn mat4_vec_z_s(m: Mat4, p: V3) -> int {
    fx_mul_s(m.m20 as int, p.x as int) + fx_mul_s(m.m21 as int, p.y as int) + fx_mul_s(
        m.m22 as int,
        p.z as int,
    )
}

/// Applies the affine matrix to a point (translation included).
pub fn mat4_point(m: &Mat4, p: &V3) -> (r: V3)
    requires
        mat4_in_lim(*m, 0x40_0000_0000),
        p.in_lim(0x40_0000_0000),
    ensures
        r.x == mat4_point_x_s(*m, *p),
        r.y == mat4_point_y_s(*m, *p),
        r.z == mat4_point_z_s(*m, *p),
{
    V3 {
        x: fx_mul(m.m00, p.x) + fx_mul(m.m01, p.y) + fx_mul(m.m02, p.z) + m.m03,
        y: fx_mul(m.m10, p.x) + fx_mul(m.m11, p.y) + fx_mul(m.m12, p.z) + m.m13,
        z: fx_mul(m.m20, p.x) + fx_mul(m.m21, p.y) + fx_mul(m.m22, p.z) + m.m23,
    }
}

/// Applies the linear part of the matrix to a direction.
pub fn mat4_vec(m: &Mat4, p: &V3) -> (r: V3)
    requires
        mat4_in_lim(*m, 0x40_0000_0000),
        p.in_lim(0x40_0000_0000),
    ensures
        r.x == mat4_vec_x_s(*m, *p),
        r.y == mat4_vec_y_s(*m, *p),
        r.z == mat4_vec_z_s(*m, *p),
{
    V3 {
        x: fx_mul(m.m00, p.x) + fx_mul(m.m01, p.y) + fx_mul(m.m02, p.z),
        y: fx_mul(m.m10, p.x) + fx_mul(m.m11, p.y) + fx_mul(m.m12, p.z),
        z: fx_mul(m.m20, p.x) + fx_mul(m.m21, p.y) + fx_mul(m.m22, p.z),
    }
}

} // verus!
