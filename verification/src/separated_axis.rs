//! Separating-axis kernels.
//!
//! Non-intersection tests for box shapes: a pair of convex boxes overlaps if
//! and only if no candidate axis separates their projections. All tests are
//! closed: touching counts as overlap, and no epsilon is applied — callers
//! wanting a tolerant test inflate their half sizes. The projections are
//! evaluated in fixed-point arithmetic with truncation toward zero; the spec
//! functions below state the outcome of that exact computation.

use vstd::prelude::*;
use crate::fx::{fx_mul, fx_mul_wide, fx_mul_s, iabs};
use crate::vec3::{V3, V2, dot3_s, dot2_s};

verus! {

/// Magnitude bound for the box-frame axis vectors handed to the kernels.
pub const SAT_AXIS_LIM: i64 = 0x40_0000;

/// Magnitude bound for the center-to-center vector handed to the kernels.
pub const SAT_REL_LIM: i64 = 0x20_0000_0000;

/// Magnitude bound for the half sizes handed to the kernels.
pub const SAT_SIZE_LIM: i64 = 0x40_0000_0000;

/// The fixed-point dot product of two vectors, as a value.
pub open spec fn vdot(a: V3, b: V3) -> int {
    dot3_s(a.x as int, a.y as int, a.z as int, b.x as int, b.y as int, b.z as int)
}

/// The fixed-point dot product of two planar vectors, as a value.
pub open spec fn vdot2(a: V2, b: V2) -> int {
    dot2_s(a.x as int, a.y as int, b.x as int, b.y as int)
}

/// A face axis separates: the projected distance `d` exceeds the own half
/// size plus the other box's projection radius over three axes.
pub open spec fn sep_face(d: int, own: int, s0: int, c0: int, s1: int, c1: int, s2: int, c2: int,
) -> bool {
    iabs(d) > own + fx_mul_s(s0, iabs(c0)) + fx_mul_s(s1, iabs(c1)) + fx_mul_s(s2, iabs(c2))
}

/// An edge-cross axis separates: the projected distance `d` exceeds the sum
/// of the four projection radii.
pub open spec fn sep_cross(d: int, s0: int, c0: int, s1: int, c1: int, s2: int, c2: int, s3: int,
    c3: int,
) -> bool {
    iabs(d) > fx_mul_s(s0, iabs(c0)) + fx_mul_s(s1, iabs(c1)) + fx_mul_s(s2, iabs(c2)) + fx_mul_s(
        s3,
        iabs(c3),
    )
}

/// A planar face axis separates.
pub open spec fn sep_face2(d: int, own: int, s0: int, c0: int, s1: int, c1: int) -> bool {
    iabs(d) > own + fx_mul_s(s0, iabs(c0)) + fx_mul_s(s1, iabs(c1))
}

/// The six face-axis conditions of the OBB-OBB test: no face normal of
/// either box separates the projections.
pub open spec fn sat_faces_s(
    a0: V3,
    a1: V3,
    a2: V3,
    b0: V3,
    b1: V3,
    b2: V3,
    rel: V3,
    sa0: int,
    sa1: int,
    sa2: int,
    sb0: int,
    sb1: int,
    sb2: int,
) -> bool {
    &&& !sep_face(vdot(a0, rel), sa0, sb0, vdot(a0, b0), sb1, vdot(a0, b1), sb2, vdot(a0, b2))
    &&& !sep_face(vdot(a1, rel), sa1, sb0, vdot(a1, b0), sb1, vdot(a1, b1), sb2, vdot(a1, b2))
    &&& !sep_face(vdot(a2, rel), sa2, sb0, vdot(a2, b0), sb1, vdot(a2, b1), sb2, vdot(a2, b2))
    &&& !sep_face(vdot(b0, rel), sb0, sa0, vdot(a0, b0), sa1, vdot(a1, b0), sa2, vdot(a2, b0))
    &&& !sep_face(vdot(b1, rel), sb1, sa0, vdot(a0, b1), sa1, vdot(a1, b1), sa2, vdot(a2, b1))
    &&& !sep_face(vdot(b2, rel), sb2, sa0, vdot(a0, b2), sa1, vdot(a1, b2), sa2, vdot(a2, b2))
}

/// The nine edge-cross conditions of the OBB-OBB test: no cross product of a
/// face axis of each box separates the projections.
pub open spec fn sat_crosses_s(
    a0: V3,
    a1: V3,
    a2: V3,
    b0: V3,
    b1: V3,
    b2: V3,
    rel: V3,
    sa0: int,
    sa1: int,
    sa2: int,
    sb0: int,
    sb1: int,
    sb2: int,
) -> bool {
    let c00 = vdot(a0, b0);
    let c01 = vdot(a0, b1);
    let c02 = vdot(a0, b2);
    let c10 = vdot(a1, b0);
    let c11 = vdot(a1, b1);
    let c12 = vdot(a1, b2);
    let c20 = vdot(a2, b0);
    let c21 = vdot(a2, b1);
    let c22 = vdot(a2, b2);
    let a0d = vdot(a0, rel);
    let a1d = vdot(a1, rel);
    let a2d = vdot(a2, rel);
    &&& !sep_cross(
        fx_mul_s(c10, a2d) - fx_mul_s(c20, a1d),
        sa1,
        c20,
        sa2,
        c10,
        sb1,
        c02,
        sb2,
        c01,
    )
    &&& !sep_cross(
        fx_mul_s(c11, a2d) - fx_mul_s(c21, a1d),
        sa1,
        c21,
        sa2,
        c11,
        sb0,
        c02,
        sb2,
        c00,
    )
    &&& !sep_cross(
        fx_mul_s(c12, a2d) - fx_mul_s(c22, a1d),
        sa1,
        c22,
        sa2,
        c12,
        sb0,
        c01,
        sb1,
        c00,
    )
    &&& !sep_cross(
        fx_mul_s(c20, a0d) - fx_mul_s(c00, a2d),
        sa0,
        c20,
        sa2,
        c00,
        sb1,
        c12,
        sb2,
        c11,
    )
    &&& !sep_cross(
        fx_mul_s(c21, a0d) - fx_mul_s(c01, a2d),
        sa0,
        c21,
        sa2,
        c01,
        sb0,
        c12,
        sb2,
        c10,
    )
    &&& !sep_cross(
        fx_mul_s(c22, a0d) - fx_mul_s(c02, a2d),
        sa0,
        c22,
        sa2,
        c02,
        sb0,
        c11,
        sb1,
        c10,
    )
    &&& !sep_cross(
        fx_mul_s(c00, a1d) - fx_mul_s(c10, a0d),
        sa0,
        c10,
        sa1,
        c00,
        sb1,
        c22,
        sb2,
        c21,
    )
    &&& !sep_cross(
        fx_mul_s(c01, a1d) - fx_mul_s(c11, a0d),
        sa0,
        c11,
        sa1,
        c01,
        sb0,
        c22,
        sb2,
        c20,
    )
    &&& !sep_cross(
        fx_mul_s(c02, a1d) - fx_mul_s(c12, a0d),
        sa0,
        c12,
        sa1,
        c02,
        sb0,
        c21,
        sb1,
        c20,
    )
}

/// The exact outcome of the OBB-OBB separating-axis test: true if and only
/// if none of the fifteen candidate axes separates the boxes.
pub open spec fn sat_obb_obb_s(
    a0: V3,
    a1: V3,
    a2: V3,
    b0: V3,
    b1: V3,
    b2: V3,
    rel: V3,
    sa0: int,
    sa1: int,
    sa2: int,
    sb0: int,
    sb1: int,
    sb2: int,
) -> bool {
    &&& sat_faces_s(a0, a1, a2, b0, b1, b2, rel, sa0, sa1, sa2, sb0, sb1, sb2)
    &&& sat_crosses_s(a0, a1, a2, b0, b1, b2, rel, sa0, sa1, sa2, sb0, sb1, sb2)
}

/// All kernel operands are within the fixed-point working ranges.
pub open spec fn sat_args_ok(
    a0: V3,
    a1: V3,
    a2: V3,
    b0: V3,
    b1: V3,
    b2: V3,
    rel: V3,
    sa0: i64,
    sa1: i64,
    sa2: i64,
    sb0: i64,
    sb1: i64,
    sb2: i64,
) -> bool {
    &&& a0.in_lim(SAT_AXIS_LIM as int)
    &&& a1.in_lim(SAT_AXIS_LIM as int)
    &&& a2.in_lim(SAT_AXIS_LIM as int)
    &&& b0.in_lim(SAT_AXIS_LIM as int)
    &&& b1.in_lim(SAT_AXIS_LIM as int)
    &&& b2.in_lim(SAT_AXIS_LIM as int)
    &&& rel.in_lim(SAT_REL_LIM as int)
    &&& iabs(sa0 as int) <= SAT_SIZE_LIM
    &&& iabs(sa1 as int) <= SAT_SIZE_LIM
    &&& iabs(sa2 as int) <= SAT_SIZE_LIM
    &&& iabs(sb0 as int) <= SAT_SIZE_LIM
    &&& iabs(sb1 as int) <= SAT_SIZE_LIM
    &&& iabs(sb2 as int) <= SAT_SIZE_LIM
}

/// The fixed-point absolute value of a raw scalar.
fn abs64(a: i64) -> (r: i64)
    requires
        i64::MIN < a,
    ensures
        r == iabs(a as int),
{
    if a >= 0 {
        a
    } else {
        -a
    }
}

/// Projected radius of a face axis: the own half size plus three scaled
/// magnitudes.
fn face_radius(own: i64, s0: i64, c0: i64, s1: i64, c1: i64, s2: i64, c2: i64) -> (r: i64)
    requires
        iabs(own as int) <= SAT_SIZE_LIM,
        iabs(s0 as int) <= SAT_SIZE_LIM,
        iabs(s1 as int) <= SAT_SIZE_LIM,
        iabs(s2 as int) <= SAT_SIZE_LIM,
        iabs(c0 as int) <= 0x1_0000_0000,
        iabs(c1 as int) <= 0x1_0000_0000,
        iabs(c2 as int) <= 0x1_0000_0000,
    ensures
        r == own + fx_mul_s(s0 as int, iabs(c0 as int)) + fx_mul_s(s1 as int, iabs(c1 as int))
            + fx_mul_s(s2 as int, iabs(c2 as int)),
{
    own + fx_mul(s0, abs64(c0)) + fx_mul(s1, abs64(c1)) + fx_mul(s2, abs64(c2))
}

/// Projected radius of an edge-cross axis: four scaled magnitudes.
fn cross_radius(s0: i64, c0: i64, s1: i64, c1: i64, s2: i64, c2: i64, s3: i64, c3: i64) -> (r: i64)
    requires
        iabs(s0 as int) <= SAT_SIZE_LIM,
        iabs(s1 as int) <= SAT_SIZE_LIM,
        iabs(s2 as int) <= SAT_SIZE_LIM,
        iabs(s3 as int) <= SAT_SIZE_LIM,
        iabs(c0 as int) <= 0x1_0000_0000,
        iabs(c1 as int) <= 0x1_0000_0000,
        iabs(c2 as int) <= 0x1_0000_0000,
        iabs(c3 as int) <= 0x1_0000_0000,
    ensures
        r == fx_mul_s(s0 as int, iabs(c0 as int)) + fx_mul_s(s1 as int, iabs(c1 as int)) + fx_mul_s(
            s2 as int,
            iabs(c2 as int),
        ) + fx_mul_s(s3 as int, iabs(c3 as int)),
{
    fx_mul(s0, abs64(c0)) + fx_mul(s1, abs64(c1)) + fx_mul(s2, abs64(c2)) + fx_mul(s3, abs64(c3))
}

/// OBB-OBB overlap test by the separating-axis theorem in three dimensions:
/// the three face axes of each box and the nine edge-cross axes. Returns true
/// if and only if no axis separates (touching counts as overlap).
#[verifier::rlimit(60)]
pub fn intersects_obb_obb(
    a0: &V3,
    a1: &V3,
    a2: &V3,
    b0: &V3,
    b1: &V3,
    b2: &V3,
    rel: &V3,
    sa0: i64,
    sa1: i64,
    sa2: i64,
    sb0: i64,
    sb1: i64,
    sb2: i64,
) -> (r: bool)
    requires
        sat_args_ok(*a0, *a1, *a2, *b0, *b1, *b2, *rel, sa0, sa1, sa2, sb0, sb1, sb2),
    ensures
        r == sat_obb_obb_s(
            *a0,
            *a1,
            *a2,
            *b0,
            *b1,
            *b2,
            *rel,
            sa0 as int,
            sa1 as int,
            sa2 as int,
            sb0 as int,
            sb1 as int,
            sb2 as int,
        ),
{
    let c00 = a0.dot(b0);
    let c01 = a0.dot(b1);
    let c02 = a0.dot(b2);
    let a0d = a0.dot(rel);
    if abs64(a0d) > face_radius(sa0, sb0, c00, sb1, c01, sb2, c02) {
        return false;
    }
    let c10 = a1.dot(b0);
    let c11 = a1.dot(b1);
    let c12 = a1.dot(b2);
    let a1d = a1.dot(rel);
    if abs64(a1d) > face_radius(sa1, sb0, c10, sb1, c11, sb2, c12) {
        return false;
    }
    let c20 = a2.dot(b0);
    let c21 = a2.dot(b1);
    let c22 = a2.dot(b2);
    let a2d = a2.dot(rel);
    if abs64(a2d) > face_radius(sa2, sb0, c20, sb1, c21, sb2, c22) {
        return false;
    }
    if abs64(b0.dot(rel)) > face_radius(sb0, sa0, c00, sa1, c10, sa2, c20) {
        return false;
    }
    if abs64(b1.dot(rel)) > face_radius(sb1, sa0, c01, sa1, c11, sa2, c21) {
        return false;
    }
    if abs64(b2.dot(rel)) > face_radius(sb2, sa0, c02, sa1, c12, sa2, c22) {
        return false;
    }
    if abs64(fx_mul_wide(c10, a2d) - fx_mul_wide(c20, a1d)) > cross_radius(
        sa1,
        c20,
        sa2,
        c10,
        sb1,
        c02,
        sb2,
        c01,
    ) {
        return false;
    }
    if abs64(fx_mul_wide(c11, a2d) - fx_mul_wide(c21, a1d)) > cross_radius(
        sa1,
        c21,
        sa2,
        c11,
        sb0,
        c02,
        sb2,
        c00,
    ) {
        return false;
    }
    if abs64(fx_mul_wide(c12, a2d) - fx_mul_wide(c22, a1d)) > cross_radius(
        sa1,
        c22,
        sa2,
        c12,
        sb0,
        c01,
        sb1,
        c00,
    ) {
        return false;
    }
    if abs64(fx_mul_wide(c20, a0d) - fx_mul_wide(c00, a2d)) > cross_radius(
        sa0,
        c20,
        sa2,
        c00,
        sb1,
        c12,
        sb2,
        c11,
    ) {
        return false;
    }
    if abs64(fx_mul_wide(c21, a0d) - fx_mul_wide(c01, a2d)) > cross_radius(
        sa0,
        c21,
        sa2,
        c01,
        sb0,
        c12,
        sb2,
        c10,
    ) {
        return false;
    }
    if abs64(fx_mul_wide(c22, a0d) - fx_mul_wide(c02, a2d)) > cross_radius(
        sa0,
        c22,
        sa2,
        c02,
        sb0,
        c11,
        sb1,
        c10,
    ) {
        return false;
    }
    if abs64(fx_mul_wide(c00, a1d) - fx_mul_wide(c10, a0d)) > cross_radius(
        sa0,
        c10,
        sa1,
        c00,
        sb1,
        c22,
        sb2,
        c21,
    ) {
        return false;
    }
    if abs64(fx_mul_wide(c01, a1d) - fx_mul_wide(c11, a0d)) > cross_radius(
        sa0,
        c11,
        sa1,
        c01,
        sb0,
        c22,
        sb2,
        c20,
    ) {
        return false;
    }
    if abs64(fx_mul_wide(c02, a1d) - fx_mul_wide(c12, a0d)) > cross_radius(
        sa0,
        c12,
        sa1,
        c02,
        sb0,
        c21,
        sb1,
        c20,
    ) {
        return false;
    }
    true
}

/// The exact outcome of the OBB-AABB separating-axis test: the box axes of
/// the oriented box against the world axes.
pub open spec fn sat_obb_aabb_s(
    a0: V3,
    a1: V3,
    a2: V3,
    rel: V3,
    sa0: int,
    sa1: int,
    sa2: int,
    sb0: int,
    sb1: int,
    sb2: int,
) -> bool {
    sat_obb_obb_s(
        a0,
        a1,
        a2,
        V3 { x: crate::fx::FX_ONE, y: 0i64, z: 0i64 },
        V3 { x: 0i64, y: crate::fx::FX_ONE, z: 0i64 },
        V3 { x: 0i64, y: 0i64, z: crate::fx::FX_ONE },
        rel,
        sa0,
        sa1,
        sa2,
        sb0,
        sb1,
        sb2,
    )
}

/// OBB-AABB overlap test: the oriented box's axes against the world axes.
/// Evaluates the same fifteen axes as the OBB-OBB kernel with the world
/// basis for the second box.
pub fn intersects_obb_aabb(
    a0: &V3,
    a1: &V3,
    a2: &V3,
    rel: &V3,
    sa0: i64,
    sa1: i64,
    sa2: i64,
    sb0: i64,
    sb1: i64,
    sb2: i64,
) -> (r: bool)
    requires
        sat_args_ok(
            *a0,
            *a1,
            *a2,
            V3 { x: crate::fx::FX_ONE, y: 0i64, z: 0i64 },
            V3 { x: 0i64, y: crate::fx::FX_ONE, z: 0i64 },
            V3 { x: 0i64, y: 0i64, z: crate::fx::FX_ONE },
            *rel,
            sa0,
            sa1,
            sa2,
            sb0,
            sb1,
            sb2,
        ),
    ensures
        r == sat_obb_aabb_s(
            *a0,
            *a1,
            *a2,
            *rel,
            sa0 as int,
            sa1 as int,
            sa2 as int,
            sb0 as int,
            sb1 as int,
            sb2 as int,
        ),
{
    let ex = V3 { x: crate::fx::FX_ONE, y: 0, z: 0 };
    let ey = V3 { x: 0, y: crate::fx::FX_ONE, z: 0 };
    let ez = V3 { x: 0, y: 0, z: crate::fx::FX_ONE };
    intersects_obb_obb(a0, a1, a2, &ex, &ey, &ez, rel, sa0, sa1, sa2, sb0, sb1, sb2)
}

/// AABB-AABB overlap: the closed intervals meet on every axis.
///
/// Returns true if and only if the boxes overlap (touching counts).
pub fn intersects_aabb_aabb(min0: &V3, max0: &V3, min1: &V3, max1: &V3) -> (r: bool)
    ensures
        r == (max1.x >= min0.x && min1.x <= max0.x && max1.y >= min0.y && min1.y <= max0.y
            && max1.z >= min0.z && min1.z <= max0.z),
{
    if max1.x < min0.x || min1.x > max0.x {
        return false;
    }
    if max1.y < min0.y || min1.y > max0.y {
        return false;
    }
    if max1.z < min0.z || min1.z > max0.z {
        return false;
    }
    true
}

/// The exact outcome of the planar OBB-OBB separating-axis test.
pub open spec fn sat_obb_obb_2d_s(
    a0: V2,
    a1: V2,
    b0: V2,
    b1: V2,
    rel: V2,
    sa0: int,
    sa1: int,
    sb0: int,
    sb1: int,
) -> bool {
    let c00 = vdot2(a0, b0);
    let c01 = vdot2(a0, b1);
    let c10 = vdot2(a1, b0);
    let c11 = vdot2(a1, b1);
    let a0d = vdot2(a0, rel);
    let a1d = vdot2(a1, rel);
    &&& !sep_face2(a0d, sa0, sb0, c00, sb1, c01)
    &&& !sep_face2(a1d, sa1, sb0, c10, sb1, c11)
    &&& !sep_face2(vdot2(b0, rel), sb0, sa0, c00, sa1, c10)
    &&& !sep_face2(vdot2(b1, rel), sb1, sa0, c01, sa1, c11)
    &&& !(iabs(fx_mul_s(c00, a1d) - fx_mul_s(c10, a0d)) > fx_mul_s(sa0, iabs(c10)) + fx_mul_s(
        sa1,
        iabs(c00),
    ))
    &&& !(iabs(fx_mul_s(c01, a1d) - fx_mul_s(c11, a0d)) > fx_mul_s(sa0, iabs(c11)) + fx_mul_s(
        sa1,
        iabs(c10),
    ))
}

/// Planar OBB-OBB overlap test by the separating-axis theorem.
pub fn intersects_obb_obb_2d(
    a0: &V2,
    a1: &V2,
    b0: &V2,
    b1: &V2,
    rel: &V2,
    sa0: i64,
    sa1: i64,
    sb0: i64,
    sb1: i64,
) -> (r: bool)
    requires
        a0.in_lim(SAT_AXIS_LIM as int),
        a1.in_lim(SAT_AXIS_LIM as int),
        b0.in_lim(SAT_AXIS_LIM as int),
        b1.in_lim(SAT_AXIS_LIM as int),
        rel.in_lim(SAT_REL_LIM as int),
        iabs(sa0 as int) <= SAT_SIZE_LIM,
        iabs(sa1 as int) <= SAT_SIZE_LIM,
        iabs(sb0 as int) <= SAT_SIZE_LIM,
        iabs(sb1 as int) <= SAT_SIZE_LIM,
    ensures
        r == sat_obb_obb_2d_s(
            *a0,
            *a1,
            *b0,
            *b1,
            *rel,
            sa0 as int,
            sa1 as int,
            sb0 as int,
            sb1 as int,
        ),
{
    let c00 = a0.dot(b0);
    let c01 = a0.dot(b1);
    let a0d = a0.dot(rel);
    if abs64(a0d) > sa0 + fx_mul(sb0, abs64(c00)) + fx_mul(sb1, abs64(c01)) {
        return false;
    }
    let c10 = a1.dot(b0);
    let c11 = a1.dot(b1);
    let a1d = a1.dot(rel);
    if abs64(a1d) > sa1 + fx_mul(sb0, abs64(c10)) + fx_mul(sb1, abs64(c11)) {
        return false;
    }
    if abs64(b0.dot(rel)) > sb0 + fx_mul(sa0, abs64(c00)) + fx_mul(sa1, abs64(c10)) {
        return false;
    }
    if abs64(b1.dot(rel)) > sb1 + fx_mul(sa0, abs64(c01)) + fx_mul(sa1, abs64(c11)) {
        return false;
    }
    if abs64(fx_mul_wide(c00, a1d) - fx_mul_wide(c10, a0d)) > fx_mul(sa0, abs64(c10)) + fx_mul(
        sa1,
        abs64(c00),
    ) {
        return false;
    }
    if abs64(fx_mul_wide(c01, a1d) - fx_mul_wide(c11, a0d)) > fx_mul(sa0, abs64(c11)) + fx_mul(
        sa1,
        abs64(c10),
    ) {
        return false;
    }
    true
}

/// The exact outcome of the planar OBB-AABB separating-axis test: the
/// oriented box's axes against the world axes.
pub open spec fn sat_obb_aabb_2d_s(
    a0: V2,
    a1: V2,
    rel: V2,
    sa0: int,
    sa1: int,
    sb0: int,
    sb1: int,
) -> bool {
    sat_obb_obb_2d_s(
        a0,
        a1,
        V2 { x: crate::fx::FX_ONE, y: 0i64 },
        V2 { x: 0i64, y: crate::fx::FX_ONE },
        rel,
        sa0,
        sa1,
        sb0,
        sb1,
    )
}

/// Planar OBB-AABB overlap test: the oriented box's axes against the world
/// axes. Evaluates the same axes as the planar OBB-OBB kernel with the world
/// basis for the second box.
pub fn intersects_obb_aabb_2d(
    a0: &V2,
    a1: &V2,
    rel: &V2,
    sa0: i64,
    sa1: i64,
    sb0: i64,
    sb1: i64,
) -> (r: bool)
    requires
        a0.in_lim(SAT_AXIS_LIM as int),
        a1.in_lim(SAT_AXIS_LIM as int),
        rel.in_lim(SAT_REL_LIM as int),
        iabs(sa0 as int) <= SAT_SIZE_LIM,
        iabs(sa1 as int) <= SAT_SIZE_LIM,
        iabs(sb0 as int) <= SAT_SIZE_LIM,
        iabs(sb1 as int) <= SAT_SIZE_LIM,
    ensures
        r == sat_obb_aabb_2d_s(*a0, *a1, *rel, sa0 as int, sa1 as int, sb0 as int, sb1 as int),
{
    let ex = V2 { x: crate::fx::FX_ONE, y: 0 };
    let ey = V2 { x: 0, y: crate::fx::FX_ONE };
    intersects_obb_obb_2d(a0, a1, &ex, &ey, rel, sa0, sa1, sb0, sb1)
}

/// The smaller of one axis component's truncated products with a box's two
/// corner coordinates.
pub open spec fn proj_term_lo(l: int, a: int, b: int) -> int {
    let p = fx_mul_s(l, a);
    let q = fx_mul_s(l, b);
    if p <= q {
        p
    } else {
        q
    }
}

/// The larger of one axis component's truncated products with a box's two
/// corner coordinates.
pub open spec fn proj_term_hi(l: int, a: int, b: int) -> int {
    let p = fx_mul_s(l, a);
    let q = fx_mul_s(l, b);
    if p <= q {
        q
    } else {
        p
    }
}

/// The lower end of the box `[mn, mx]`'s projection interval onto axis `l`,
/// each component entering through its own truncated product.
pub open spec fn box_proj_lo(l: V3, mn: V3, mx: V3) -> int {
    proj_term_lo(l.x as int, mn.x as int, mx.x as int) + proj_term_lo(
        l.y as int,
        mn.y as int,
        mx.y as int,
    ) + proj_term_lo(l.z as int, mn.z as int, mx.z as int)
}

/// The upper end of the box `[mn, mx]`'s projection interval onto axis `l`.
pub open spec fn box_proj_hi(l: V3, mn: V3, mx: V3) -> int {
    proj_term_hi(l.x as int, mn.x as int, mx.x as int) + proj_term_hi(
        l.y as int,
        mn.y as int,
        mx.y as int,
    ) + proj_term_hi(l.z as int, mn.z as int, mx.z as int)
}

/// An oriented box's projection radius onto axis `l`: the half sizes scaled
/// by the magnitudes of the box axes' dots with `l`.
pub open spec fn obb_radius_s(
    a0: V3,
    a1: V3,
    a2: V3,
    sa0: int,
    sa1: int,
    sa2: int,
    l: V3,
) -> int {
    fx_mul_s(sa0, iabs(vdot(a0, l))) + fx_mul_s(sa1, iabs(vdot(a1, l))) + fx_mul_s(
        sa2,
        iabs(vdot(a2, l)),
    )
}

/// Axis `l` does not separate: the box's projection interval meets the
/// oriented box's interval `[vdot(l, ca) - ra, vdot(l, ca) + ra]`.
pub open spec fn axis_meets(l: V3, ca: V3, ra: int, mn: V3, mx: V3) -> bool {
    box_proj_lo(l, mn, mx) <= vdot(l, ca) + ra && vdot(l, ca) - ra <= box_proj_hi(l, mn, mx)
}

/// The world x axis in fixed point.
pub open spec fn unit_x() -> V3 {
    V3 { x: crate::fx::FX_ONE, y: 0i64, z: 0i64 }
}

/// The world y axis in fixed point.
pub open spec fn unit_y() -> V3 {
    V3 { x: 0i64, y: crate::fx::FX_ONE, z: 0i64 }
}

/// The world z axis in fixed point.
pub open spec fn unit_z() -> V3 {
    V3 { x: 0i64, y: 0i64, z: crate::fx::FX_ONE }
}

/// The cross product of `a` with the world x axis, exact in fixed point.
pub open spec fn cross_unit_x(a: V3) -> V3 {
    V3 { x: 0i64, y: a.z, z: (0 - a.y as int) as i64 }
}

/// The cross product of `a` with the world y axis, exact in fixed point.
pub open spec fn cross_unit_y(a: V3) -> V3 {
    V3 { x: (0 - a.z as int) as i64, y: 0i64, z: a.x }
}

/// The cross product of `a` with the world z axis, exact in fixed point.
pub open spec fn cross_unit_z(a: V3) -> V3 {
    V3 { x: a.y, y: (0 - a.x as int) as i64, z: 0i64 }
}

/// The exact outcome of the oriented-box-against-box separating-axis test:
/// the oriented box's face axes, the world axes, and their nine crosses, the
/// box side evaluated per corner coordinate so that the test is exactly
/// monotone under box enclosure.
pub open spec fn sat_obb_box_s(
    a0: V3,
    a1: V3,
    a2: V3,
    ca: V3,
    sa0: int,
    sa1: int,
    sa2: int,
    mn: V3,
    mx: V3,
) -> bool {
    &&& axis_meets(a0, ca, obb_radius_s(a0, a1, a2, sa0, sa1, sa2, a0), mn, mx)
    &&& axis_meets(a1, ca, obb_radius_s(a0, a1, a2, sa0, sa1, sa2, a1), mn, mx)
    &&& axis_meets(a2, ca, obb_radius_s(a0, a1, a2, sa0, sa1, sa2, a2), mn, mx)
    &&& axis_meets(unit_x(), ca, obb_radius_s(a0, a1, a2, sa0, sa1, sa2, unit_x()), mn, mx)
    &&& axis_meets(unit_y(), ca, obb_radius_s(a0, a1, a2, sa0, sa1, sa2, unit_y()), mn, mx)
    &&& axis_meets(unit_z(), ca, obb_radius_s(a0, a1, a2, sa0, sa1, sa2, unit_z()), mn, mx)
    &&& axis_meets(cross_unit_x(a0), ca, obb_radius_s(a0, a1, a2, sa0, sa1, sa2, cross_unit_x(a0)), mn, mx)
    &&& axis_meets(cross_unit_y(a0), ca, obb_radius_s(a0, a1, a2, sa0, sa1, sa2, cross_unit_y(a0)), mn, mx)
    &&& axis_meets(cross_unit_z(a0), ca, obb_radius_s(a0, a1, a2, sa0, sa1, sa2, cross_unit_z(a0)), mn, mx)
    &&& axis_meets(cross_unit_x(a1), ca, obb_radius_s(a0, a1, a2, sa0, sa1, sa2, cross_unit_x(a1)), mn, mx)
    &&& axis_meets(cross_unit_y(a1), ca, obb_radius_s(a0, a1, a2, sa0, sa1, sa2, cross_unit_y(a1)), mn, mx)
    &&& axis_meets(cross_unit_z(a1), ca, obb_radius_s(a0, a1, a2, sa0, sa1, sa2, cross_unit_z(a1)), mn, mx)
    &&& axis_meets(cross_unit_x(a2), ca, obb_radius_s(a0, a1, a2, sa0, sa1, sa2, cross_unit_x(a2)), mn, mx)
    &&& axis_meets(cross_unit_y(a2), ca, obb_radius_s(a0, a1, a2, sa0, sa1, sa2, cross_unit_y(a2)), mn, mx)
    &&& axis_meets(cross_unit_z(a2), ca, obb_radius_s(a0, a1, a2, sa0, sa1, sa2, cross_unit_z(a2)), mn, mx)
}

/// The smaller truncated corner product, with the bounds the sums need.
fn proj_lo64(l: i64, a: i64, b: i64) -> (r: i64)
    requires
        iabs(l as int) <= SAT_AXIS_LIM,
        iabs(a as int) <= 0x10_0000_0000,
        iabs(b as int) <= 0x10_0000_0000,
    ensures
        r == proj_term_lo(l as int, a as int, b as int),
        iabs(r as int) <= 0x400_0000_0000,
{
    proof {
        crate::fx::lemma_fx_mul_bound(l as int, SAT_AXIS_LIM as int, a as int, 0x10_0000_0000);
        crate::fx::lemma_fx_mul_bound(l as int, SAT_AXIS_LIM as int, b as int, 0x10_0000_0000);
    }
    let p = fx_mul(l, a);
    let q = fx_mul(l, b);
    if p <= q {
        p
    } else {
        q
    }
}

/// The larger truncated corner product, with the bounds the sums need.
fn proj_hi64(l: i64, a: i64, b: i64) -> (r: i64)
    requires
        iabs(l as int) <= SAT_AXIS_LIM,
        iabs(a as int) <= 0x10_0000_0000,
        iabs(b as int) <= 0x10_0000_0000,
    ensures
        r == proj_term_hi(l as int, a as int, b as int),
        iabs(r as int) <= 0x400_0000_0000,
{
    proof {
        crate::fx::lemma_fx_mul_bound(l as int, SAT_AXIS_LIM as int, a as int, 0x10_0000_0000);
        crate::fx::lemma_fx_mul_bound(l as int, SAT_AXIS_LIM as int, b as int, 0x10_0000_0000);
    }
    let p = fx_mul(l, a);
    let q = fx_mul(l, b);
    if p <= q {
        q
    } else {
        p
    }
}

/// The oriented box's projection radius onto `l`.
fn obb_radius(a0: &V3, a1: &V3, a2: &V3, sa0: i64, sa1: i64, sa2: i64, l: &V3) -> (r: i64)
    requires
        a0.in_lim(SAT_AXIS_LIM as int),
        a1.in_lim(SAT_AXIS_LIM as int),
        a2.in_lim(SAT_AXIS_LIM as int),
        l.in_lim(SAT_AXIS_LIM as int),
        0 <= sa0 <= 0x100_0000,
        0 <= sa1 <= 0x100_0000,
        0 <= sa2 <= 0x100_0000,
    ensures
        r == obb_radius_s(*a0, *a1, *a2, sa0 as int, sa1 as int, sa2 as int, *l),
        0 <= r <= 0x100_0000_0000,
{
    let d0 = abs64(a0.dot(l));
    let d1 = abs64(a1.dot(l));
    let d2 = abs64(a2.dot(l));
    proof {
        crate::fx::lemma_fx_mul_bound(sa0 as int, 0x100_0000, d0 as int, 0x4000_0000);
        crate::fx::lemma_fx_mul_bound(sa1 as int, 0x100_0000, d1 as int, 0x4000_0000);
        crate::fx::lemma_fx_mul_bound(sa2 as int, 0x100_0000, d2 as int, 0x4000_0000);
        lemma_fx_mul_nonneg(sa0 as int, d0 as int);
        lemma_fx_mul_nonneg(sa1 as int, d1 as int);
        lemma_fx_mul_nonneg(sa2 as int, d2 as int);
    }
    fx_mul(sa0, d0) + fx_mul(sa1, d1) + fx_mul(sa2, d2)
}

/// Projection-interval overlap of a box with an oriented box on one axis.
fn box_axis_meets(l: &V3, ca: &V3, ra: i64, mn: &V3, mx: &V3) -> (r: bool)
    requires
        l.in_lim(SAT_AXIS_LIM as int),
        ca.in_lim(0x4_0000_0000),
        mn.in_lim(0x10_0000_0000),
        mx.in_lim(0x10_0000_0000),
        0 <= ra <= 0x100_0000_0000,
    ensures
        r == axis_meets(*l, *ca, ra as int, *mn, *mx),
{
    let lo = proj_lo64(l.x, mn.x, mx.x) + proj_lo64(l.y, mn.y, mx.y) + proj_lo64(l.z, mn.z, mx.z);
    let hi = proj_hi64(l.x, mn.x, mx.x) + proj_hi64(l.y, mn.y, mx.y) + proj_hi64(l.z, mn.z, mx.z);
    let d = l.dot(ca);
    lo <= d + ra && d - ra <= hi
}

/// A truncated product of nonnegative factors is nonnegative.
proof fn lemma_fx_mul_nonneg(a: int, b: int)
    requires
        a >= 0,
        b >= 0,
    ensures
        fx_mul_s(a, b) >= 0,
{
    assert(a * b >= 0) by (nonlinear_arith)
        requires
            a >= 0,
            b >= 0,
    ;
}

/// Oriented-box-against-box overlap test over the fifteen axes, the box side
/// evaluated per corner coordinate. Returns true if and only if no axis
/// separates (touching counts as overlap).
pub fn intersects_obb_box(
    a0: &V3,
    a1: &V3,
    a2: &V3,
    ca: &V3,
    sa0: i64,
    sa1: i64,
    sa2: i64,
    mn: &V3,
    mx: &V3,
) -> (r: bool)
    requires
        a0.in_lim(SAT_AXIS_LIM as int),
        a1.in_lim(SAT_AXIS_LIM as int),
        a2.in_lim(SAT_AXIS_LIM as int),
        ca.in_lim(0x4_0000_0000),
        mn.in_lim(0x10_0000_0000),
        mx.in_lim(0x10_0000_0000),
        0 <= sa0 <= 0x100_0000,
        0 <= sa1 <= 0x100_0000,
        0 <= sa2 <= 0x100_0000,
    ensures
        r == sat_obb_box_s(
            *a0,
            *a1,
            *a2,
            *ca,
            sa0 as int,
            sa1 as int,
            sa2 as int,
            *mn,
            *mx,
        ),
{
    let ex = V3 { x: crate::fx::FX_ONE, y: 0, z: 0 };
    let ey = V3 { x: 0, y: crate::fx::FX_ONE, z: 0 };
    let ez = V3 { x: 0, y: 0, z: crate::fx::FX_ONE };
    let c0x = V3 { x: 0, y: a0.z, z: -a0.y };
    let c0y = V3 { x: -a0.z, y: 0, z: a0.x };
    let c0z = V3 { x: a0.y, y: -a0.x, z: 0 };
    let c1x = V3 { x: 0, y: a1.z, z: -a1.y };
    let c1y = V3 { x: -a1.z, y: 0, z: a1.x };
    let c1z = V3 { x: a1.y, y: -a1.x, z: 0 };
    let c2x = V3 { x: 0, y: a2.z, z: -a2.y };
    let c2y = V3 { x: -a2.z, y: 0, z: a2.x };
    let c2z = V3 { x: a2.y, y: -a2.x, z: 0 };
    if !box_axis_meets(a0, ca, obb_radius(a0, a1, a2, sa0, sa1, sa2, a0), mn, mx) {
        return false;
    }
    if !box_axis_meets(a1, ca, obb_radius(a0, a1, a2, sa0, sa1, sa2, a1), mn, mx) {
        return false;
    }
    if !box_axis_meets(a2, ca, obb_radius(a0, a1, a2, sa0, sa1, sa2, a2), mn, mx) {
        return false;
    }
    if !box_axis_meets(&ex, ca, obb_radius(a0, a1, a2, sa0, sa1, sa2, &ex), mn, mx) {
        return false;
    }
    if !box_axis_meets(&ey, ca, obb_radius(a0, a1, a2, sa0, sa1, sa2, &ey), mn, mx) {
        return false;
    }
    if !box_axis_meets(&ez, ca, obb_radius(a0, a1, a2, sa0, sa1, sa2, &ez), mn, mx) {
        return false;
    }
    if !box_axis_meets(&c0x, ca, obb_radius(a0, a1, a2, sa0, sa1, sa2, &c0x), mn, mx) {
        return false;
    }
    if !box_axis_meets(&c0y, ca, obb_radius(a0, a1, a2, sa0, sa1, sa2, &c0y), mn, mx) {
        return false;
    }
    if !box_axis_meets(&c0z, ca, obb_radius(a0, a1, a2, sa0, sa1, sa2, &c0z), mn, mx) {
        return false;
    }
    if !box_axis_meets(&c1x, ca, obb_radius(a0, a1, a2, sa0, sa1, sa2, &c1x), mn, mx) {
        return false;
    }
    if !box_axis_meets(&c1y, ca, obb_radius(a0, a1, a2, sa0, sa1, sa2, &c1y), mn, mx) {
        return false;
    }
    if !box_axis_meets(&c1z, ca, obb_radius(a0, a1, a2, sa0, sa1, sa2, &c1z), mn, mx) {
        return false;
    }
    if !box_axis_meets(&c2x, ca, obb_radius(a0, a1, a2, sa0, sa1, sa2, &c2x), mn, mx) {
        return false;
    }
    if !box_axis_meets(&c2y, ca, obb_radius(a0, a1, a2, sa0, sa1, sa2, &c2y), mn, mx) {
        return false;
    }
    if !box_axis_meets(&c2z, ca, obb_radius(a0, a1, a2, sa0, sa1, sa2, &c2z), mn, mx) {
        return false;
    }
    true
}

/// One corner term of the projection interval moves outward (or stays) when
/// the box grows.
proof fn lemma_proj_term_mono(l: int, ia: int, ib: int, oa: int, ob: int)
    requires
        oa <= ia <= ib <= ob,
    ensures
        proj_term_lo(l, oa, ob) <= proj_term_lo(l, ia, ib),
        proj_term_hi(l, ia, ib) <= proj_term_hi(l, oa, ob),
{
    crate::fx::lemma_fx_mul_mono(l, oa, ia);
    crate::fx::lemma_fx_mul_mono(l, ia, ib);
    crate::fx::lemma_fx_mul_mono(l, ib, ob);
}

/// One axis's overlap verdict survives growing the box: the projection
/// interval of the larger box contains the smaller one's.
proof fn lemma_axis_meets_monotone(l: V3, ca: V3, ra: int, imn: V3, imx: V3, omn: V3, omx: V3)
    requires
        omn.x <= imn.x && omn.y <= imn.y && omn.z <= imn.z,
        imx.x <= omx.x && imx.y <= omx.y && imx.z <= omx.z,
        imn.x <= imx.x && imn.y <= imx.y && imn.z <= imx.z,
        axis_meets(l, ca, ra, imn, imx),
    ensures
        axis_meets(l, ca, ra, omn, omx),
{
    lemma_proj_term_mono(l.x as int, imn.x as int, imx.x as int, omn.x as int, omx.x as int);
    lemma_proj_term_mono(l.y as int, imn.y as int, imx.y as int, omn.y as int, omx.y as int);
    lemma_proj_term_mono(l.z as int, imn.z as int, imx.z as int, omn.z as int, omx.z as int);
}

/// One axis never separates a box from an oriented box whose world center
/// lies inside the box: the center's own projection is inside the interval.
proof fn lemma_axis_meets_center(l: V3, ca: V3, ra: int, mn: V3, mx: V3)
    requires
        mn.x <= ca.x <= mx.x,
        mn.y <= ca.y <= mx.y,
        mn.z <= ca.z <= mx.z,
        ra >= 0,
    ensures
        axis_meets(l, ca, ra, mn, mx),
{
    crate::fx::lemma_fx_mul_mono(l.x as int, mn.x as int, ca.x as int);
    crate::fx::lemma_fx_mul_mono(l.x as int, ca.x as int, mx.x as int);
    crate::fx::lemma_fx_mul_mono(l.y as int, mn.y as int, ca.y as int);
    crate::fx::lemma_fx_mul_mono(l.y as int, ca.y as int, mx.y as int);
    crate::fx::lemma_fx_mul_mono(l.z as int, mn.z as int, ca.z as int);
    crate::fx::lemma_fx_mul_mono(l.z as int, ca.z as int, mx.z as int);
}

/// The whole oriented-box-against-box verdict survives growing the box.
pub proof fn lemma_sat_obb_box_monotone(
    a0: V3,
    a1: V3,
    a2: V3,
    ca: V3,
    sa0: int,
    sa1: int,
    sa2: int,
    imn: V3,
    imx: V3,
    omn: V3,
    omx: V3,
)
    requires
        omn.x <= imn.x && omn.y <= imn.y && omn.z <= imn.z,
        imx.x <= omx.x && imx.y <= omx.y && imx.z <= omx.z,
        imn.x <= imx.x && imn.y <= imx.y && imn.z <= imx.z,
        sat_obb_box_s(a0, a1, a2, ca, sa0, sa1, sa2, imn, imx),
    ensures
        sat_obb_box_s(a0, a1, a2, ca, sa0, sa1, sa2, omn, omx),
{
    lemma_axis_meets_monotone(a0, ca, obb_radius_s(a0, a1, a2, sa0, sa1, sa2, a0), imn, imx, omn, omx);
    lemma_axis_meets_monotone(a1, ca, obb_radius_s(a0, a1, a2, sa0, sa1, sa2, a1), imn, imx, omn, omx);
    lemma_axis_meets_monotone(a2, ca, obb_radius_s(a0, a1, a2, sa0, sa1, sa2, a2), imn, imx, omn, omx);
    lemma_axis_meets_monotone(unit_x(), ca, obb_radius_s(a0, a1, a2, sa0, sa1, sa2, unit_x()), imn, imx, omn, omx);
    lemma_axis_meets_monotone(unit_y(), ca, obb_radius_s(a0, a1, a2, sa0, sa1, sa2, unit_y()), imn, imx, omn, omx);
    lemma_axis_meets_monotone(unit_z(), ca, obb_radius_s(a0, a1, a2, sa0, sa1, sa2, unit_z()), imn, imx, omn, omx);
    lemma_axis_meets_monotone(cross_unit_x(a0), ca, obb_radius_s(a0, a1, a2, sa0, sa1, sa2, cross_unit_x(a0)), imn, imx, omn, omx);
    lemma_axis_meets_monotone(cross_unit_y(a0), ca, obb_radius_s(a0, a1, a2, sa0, sa1, sa2, cross_unit_y(a0)), imn, imx, omn, omx);
    lemma_axis_meets_monotone(cross_unit_z(a0), ca, obb_radius_s(a0, a1, a2, sa0, sa1, sa2, cross_unit_z(a0)), imn, imx, omn, omx);
    lemma_axis_meets_monotone(cross_unit_x(a1), ca, obb_radius_s(a0, a1, a2, sa0, sa1, sa2, cross_unit_x(a1)), imn, imx, omn, omx);
    lemma_axis_meets_monotone(cross_unit_y(a1), ca, obb_radius_s(a0, a1, a2, sa0, sa1, sa2, cross_unit_y(a1)), imn, imx, omn, omx);
    lemma_axis_meets_monotone(cross_unit_z(a1), ca, obb_radius_s(a0, a1, a2, sa0, sa1, sa2, cross_unit_z(a1)), imn, imx, omn, omx);
    lemma_axis_meets_monotone(cross_unit_x(a2), ca, obb_radius_s(a0, a1, a2, sa0, sa1, sa2, cross_unit_x(a2)), imn, imx, omn, omx);
    lemma_axis_meets_monotone(cross_unit_y(a2), ca, obb_radius_s(a0, a1, a2, sa0, sa1, sa2, cross_unit_y(a2)), imn, imx, omn, omx);
    lemma_axis_meets_monotone(cross_unit_z(a2), ca, obb_radius_s(a0, a1, a2, sa0, sa1, sa2, cross_unit_z(a2)), imn, imx, omn, omx);
}

/// No axis separates a box from an oriented box whose world center lies
/// inside it (with nonnegative half sizes).
pub proof fn lemma_sat_obb_box_center(
    a0: V3,
    a1: V3,
    a2: V3,
    ca: V3,
    sa0: int,
    sa1: int,
    sa2: int,
    mn: V3,
    mx: V3,
)
    requires
        mn.x <= ca.x <= mx.x,
        mn.y <= ca.y <= mx.y,
        mn.z <= ca.z <= mx.z,
        sa0 >= 0,
        sa1 >= 0,
        sa2 >= 0,
    ensures
        sat_obb_box_s(a0, a1, a2, ca, sa0, sa1, sa2, mn, mx),
{
    assert forall|l: V3| #[trigger] obb_radius_s(a0, a1, a2, sa0, sa1, sa2, l) >= 0 by {
        lemma_fx_mul_nonneg(sa0, iabs(vdot(a0, l)));
        lemma_fx_mul_nonneg(sa1, iabs(vdot(a1, l)));
        lemma_fx_mul_nonneg(sa2, iabs(vdot(a2, l)));
    }
    lemma_axis_meets_center(a0, ca, obb_radius_s(a0, a1, a2, sa0, sa1, sa2, a0), mn, mx);
    lemma_axis_meets_center(a1, ca, obb_radius_s(a0, a1, a2, sa0, sa1, sa2, a1), mn, mx);
    lemma_axis_meets_center(a2, ca, obb_radius_s(a0, a1, a2, sa0, sa1, sa2, a2), mn, mx);
    lemma_axis_meets_center(unit_x(), ca, obb_radius_s(a0, a1, a2, sa0, sa1, sa2, unit_x()), mn, mx);
    lemma_axis_meets_center(unit_y(), ca, obb_radius_s(a0, a1, a2, sa0, sa1, sa2, unit_y()), mn, mx);
    lemma_axis_meets_center(unit_z(), ca, obb_radius_s(a0, a1, a2, sa0, sa1, sa2, unit_z()), mn, mx);
    lemma_axis_meets_center(cross_unit_x(a0), ca, obb_radius_s(a0, a1, a2, sa0, sa1, sa2, cross_unit_x(a0)), mn, mx);
    lemma_axis_meets_center(cross_unit_y(a0), ca, obb_radius_s(a0, a1, a2, sa0, sa1, sa2, cross_unit_y(a0)), mn, mx);
    lemma_axis_meets_center(cross_unit_z(a0), ca, obb_radius_s(a0, a1, a2, sa0, sa1, sa2, cross_unit_z(a0)), mn, mx);
    lemma_axis_meets_center(cross_unit_x(a1), ca, obb_radius_s(a0, a1, a2, sa0, sa1, sa2, cross_unit_x(a1)), mn, mx);
    lemma_axis_meets_center(cross_unit_y(a1), ca, obb_radius_s(a0, a1, a2, sa0, sa1, sa2, cross_unit_y(a1)), mn, mx);
    lemma_axis_meets_center(cross_unit_z(a1), ca, obb_radius_s(a0, a1, a2, sa0, sa1, sa2, cross_unit_z(a1)), mn, mx);
    lemma_axis_meets_center(cross_unit_x(a2), ca, obb_radius_s(a0, a1, a2, sa0, sa1, sa2, cross_unit_x(a2)), mn, mx);
    lemma_axis_meets_center(cross_unit_y(a2), ca, obb_radius_s(a0, a1, a2, sa0, sa1, sa2, cross_unit_y(a2)), mn, mx);
    lemma_axis_meets_center(cross_unit_z(a2), ca, obb_radius_s(a0, a1, a2, sa0, sa1, sa2, cross_unit_z(a2)), mn, mx);
}

/// The six face-axis conditions of the OBB-OBB test are symmetric: swapping
/// the boxes (and negating the relative vector) maps each box's three face
/// conditions exactly onto the other's. Only the nine edge-cross axes
/// evaluate in different frames under the swap.
pub proof fn lemma_sat_faces_symm(
    a0: V3,
    a1: V3,
    a2: V3,
    b0: V3,
    b1: V3,
    b2: V3,
    rel: V3,
    nrel: V3,
    sa0: int,
    sa1: int,
    sa2: int,
    sb0: int,
    sb1: int,
    sb2: int,
)
    requires
        nrel.x == -rel.x,
        nrel.y == -rel.y,
        nrel.z == -rel.z,
    ensures
        sat_faces_s(a0, a1, a2, b0, b1, b2, rel, sa0, sa1, sa2, sb0, sb1, sb2) == sat_faces_s(
            b0,
            b1,
            b2,
            a0,
            a1,
            a2,
            nrel,
            sb0,
            sb1,
            sb2,
            sa0,
            sa1,
            sa2,
        ),
{
    lemma_vdot_comm(a0, b0);
    lemma_vdot_comm(a0, b1);
    lemma_vdot_comm(a0, b2);
    lemma_vdot_comm(a1, b0);
    lemma_vdot_comm(a1, b1);
    lemma_vdot_comm(a1, b2);
    lemma_vdot_comm(a2, b0);
    lemma_vdot_comm(a2, b1);
    lemma_vdot_comm(a2, b2);
    lemma_vdot_neg(a0, rel, nrel);
    lemma_vdot_neg(a1, rel, nrel);
    lemma_vdot_neg(a2, rel, nrel);
    lemma_vdot_neg(b0, rel, nrel);
    lemma_vdot_neg(b1, rel, nrel);
    lemma_vdot_neg(b2, rel, nrel);
}

/// The fixed-point dot product commutes.
proof fn lemma_vdot_comm(a: V3, b: V3)
    ensures
        vdot(a, b) == vdot(b, a),
{
    crate::fx::lemma_fx_mul_comm(a.x as int, b.x as int);
    crate::fx::lemma_fx_mul_comm(a.y as int, b.y as int);
    crate::fx::lemma_fx_mul_comm(a.z as int, b.z as int);
}

/// Negating one operand negates the fixed-point dot product exactly.
proof fn lemma_vdot_neg(a: V3, rel: V3, nrel: V3)
    requires
        nrel.x == -rel.x,
        nrel.y == -rel.y,
        nrel.z == -rel.z,
    ensures
        vdot(a, nrel) == -vdot(a, rel),
{
    crate::fx::lemma_fx_mul_neg(a.x as int, rel.x as int);
    crate::fx::lemma_fx_mul_neg(a.y as int, rel.y as int);
    crate::fx::lemma_fx_mul_neg(a.z as int, rel.z as int);
}

} // verus!
