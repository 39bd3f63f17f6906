//! Oriented bounding boxes.
//!
//! An `OBB` is a box of given half sizes carried by a transformer. Its world
//! axes are the images of the coordinate axes under the transformer's
//! rotation; its enclosing axis-aligned box projects the half extents through
//! the absolute values of the affine matrix's linear part, which is exact for
//! any orientation.

use vstd::prelude::*;
use crate::aabb::AABB;
use crate::fx::{fx_mul, fx_mul_s, iabs};
use crate::inertia::Transformer;
use crate::mat::{mat4_vec_x_s, mat4_vec_y_s, mat4_vec_z_s, mat4_point_x_s, mat4_point_y_s,
    mat4_point_z_s, rot00_s, rot01_s, rot02_s, rot10_s, rot11_s, rot12_s, rot20_s, rot21_s,
    rot22_s};
use crate::separated_axis::{sat_obb_obb_s, sat_obb_box_s, intersects_obb_obb, intersects_obb_box,
    lemma_sat_obb_box_monotone, lemma_sat_obb_box_center};
use crate::vec3::V3;
use crate::volume::BVIntersector;

verus! {

/// Magnitude bound on OBB half sizes.
pub const OBB_HALF_LIM: i64 = 0x100_0000;

/// An oriented bounding box: half sizes in the body frame, carried by a
/// transformer.
#[derive(Clone, Copy, PartialEq, Eq, Structural, Debug)]
pub struct OBB {
    pub half_size: V3,
    pub transform: Transformer,
}

/// The world center of an OBB: its position plus the rotated pivot offset.
pub open spec fn obb_center_s(o: OBB) -> V3 {
    V3 {
        x: (o.transform.pos.x + mat4_vec_x_s(o.transform.mat, o.transform.offset)) as i64,
        y: (o.transform.pos.y + mat4_vec_y_s(o.transform.mat, o.transform.offset)) as i64,
        z: (o.transform.pos.z + mat4_vec_z_s(o.transform.mat, o.transform.offset)) as i64,
    }
}

/// The world half extent of an OBB along a world axis: the half sizes
/// projected through the magnitudes of one row of the linear part.
pub open spec fn obb_extent_s(o: OBB, m0: i64, m1: i64, m2: i64) -> int {
    fx_mul_s(iabs(m0 as int), o.half_size.x as int) + fx_mul_s(
        iabs(m1 as int),
        o.half_size.y as int,
    ) + fx_mul_s(iabs(m2 as int), o.half_size.z as int)
}

impl OBB {
    /// Nonnegative, bounded half sizes on a well-formed transformer.
    pub open spec fn wf(self) -> bool {
        &&& 0 <= self.half_size.x <= OBB_HALF_LIM
        &&& 0 <= self.half_size.y <= OBB_HALF_LIM
        &&& 0 <= self.half_size.z <= OBB_HALF_LIM
        &&& self.transform.wf()
    }

    /// The world center of the box.
    pub fn center(&self) -> (r: V3)
        requires
            self.wf(),
        ensures
            r == obb_center_s(*self),
            r.in_lim(0x4_0000_0000),
    {
        proof {
            crate::inertia::lemma_transformer_bounds(self.transform);
            lemma_small_vec_apply(self.transform.mat.m00, self.transform.mat.m01,
                self.transform.mat.m02, self.transform.offset);
            lemma_small_vec_apply(self.transform.mat.m10, self.transform.mat.m11,
                self.transform.mat.m12, self.transform.offset);
            lemma_small_vec_apply(self.transform.mat.m20, self.transform.mat.m21,
                self.transform.mat.m22, self.transform.offset);
        }
        let v = self.transform.trafo_vec(&self.transform.offset);
        self.transform.pos.add(&v)
    }

    /// The surface-area proxy: the sum of the pairwise half-size products.
    pub fn area(&self) -> (r: i64)
        requires
            self.wf(),
        ensures
            r == fx_mul_s(self.half_size.x as int, self.half_size.y as int) + fx_mul_s(
                self.half_size.y as int,
                self.half_size.z as int,
            ) + fx_mul_s(self.half_size.z as int, self.half_size.x as int),
    {
        fx_mul(self.half_size.x, self.half_size.y) + fx_mul(self.half_size.y, self.half_size.z)
            + fx_mul(self.half_size.z, self.half_size.x)
    }

    /// The least world coordinates of the box: the center minus the world
    /// half extents.
    pub fn min(&self) -> (r: V3)
        requires
            self.wf(),
        ensures
            r.x == obb_center_s(*self).x - obb_extent_s(
                *self,
                self.transform.mat.m00,
                self.transform.mat.m01,
                self.transform.mat.m02,
            ),
            r.y == obb_center_s(*self).y - obb_extent_s(
                *self,
                self.transform.mat.m10,
                self.transform.mat.m11,
                self.transform.mat.m12,
            ),
            r.z == obb_center_s(*self).z - obb_extent_s(
                *self,
                self.transform.mat.m20,
                self.transform.mat.m21,
                self.transform.mat.m22,
            ),
            r.in_lim(0x8_0000_0000),
    {
        let c = self.center();
        let w = self.extents();
        c.sub(&w)
    }

    /// The greatest world coordinates of the box: the center plus the world
    /// half extents.
    pub fn max(&self) -> (r: V3)
        requires
            self.wf(),
        ensures
            r.x == obb_center_s(*self).x + obb_extent_s(
                *self,
                self.transform.mat.m00,
                self.transform.mat.m01,
                self.transform.mat.m02,
            ),
            r.y == obb_center_s(*self).y + obb_extent_s(
                *self,
                self.transform.mat.m10,
                self.transform.mat.m11,
                self.transform.mat.m12,
            ),
            r.z == obb_center_s(*self).z + obb_extent_s(
                *self,
                self.transform.mat.m20,
                self.transform.mat.m21,
                self.transform.mat.m22,
            ),
            r.in_lim(0x8_0000_0000),
    {
        let c = self.center();
        let w = self.extents();
        c.add(&w)
    }

    /// The world half extents along the three world axes.
    fn extents(&self) -> (r: V3)
        requires
            self.wf(),
        ensures
            r.x == obb_extent_s(
                *self,
                self.transform.mat.m00,
                self.transform.mat.m01,
                self.transform.mat.m02,
            ),
            r.y == obb_extent_s(
                *self,
                self.transform.mat.m10,
                self.transform.mat.m11,
                self.transform.mat.m12,
            ),
            r.z == obb_extent_s(
                *self,
                self.transform.mat.m20,
                self.transform.mat.m21,
                self.transform.mat.m22,
            ),
            0 <= r.x <= 0x2_0000_0000,
            0 <= r.y <= 0x2_0000_0000,
            0 <= r.z <= 0x2_0000_0000,
    {
        proof {
            crate::inertia::lemma_transformer_bounds(self.transform);
        }
        let m = &self.transform.mat;
        let x = row_extent(m.m00, m.m01, m.m02, &self.half_size);
        let y = row_extent(m.m10, m.m11, m.m12, &self.half_size);
        let z = row_extent(m.m20, m.m21, m.m22, &self.half_size);
        V3 { x, y, z }
    }

    /// The full world size of the box: twice the half sizes.
    pub fn size(&self) -> (r: V3)
        requires
            self.wf(),
        ensures
            r.x == 2 * self.half_size.x,
            r.y == 2 * self.half_size.y,
            r.z == 2 * self.half_size.z,
    {
        V3 {
            x: 2 * self.half_size.x,
            y: 2 * self.half_size.y,
            z: 2 * self.half_size.z,
        }
    }

    /// The body-frame half sizes.
    pub fn half_sizes(&self) -> (r: V3)
        ensures
            r == self.half_size,
    {
        self.half_size
    }

    /// The enclosing axis-aligned box, exact for any orientation.
    pub fn wrap(&self) -> (r: AABB)
        requires
            self.wf(),
        ensures
            r.min == (self.min_spec()),
            r.max == (self.max_spec()),
            r.wf(),
            r.is_valid(),
            r.min.in_lim(0x8_0000_0000),
            r.max.in_lim(0x8_0000_0000),
    {
        let mn = self.min();
        let mx = self.max();
        proof {
            lemma_extent_nonneg(
                *self,
                self.transform.mat.m00,
                self.transform.mat.m01,
                self.transform.mat.m02,
            );
            lemma_extent_nonneg(
                *self,
                self.transform.mat.m10,
                self.transform.mat.m11,
                self.transform.mat.m12,
            );
            lemma_extent_nonneg(
                *self,
                self.transform.mat.m20,
                self.transform.mat.m21,
                self.transform.mat.m22,
            );
        }
        AABB { min: mn, max: mx }
    }

    /// The least corner as a value.
    pub open spec fn min_spec(self) -> V3 {
        V3 {
            x: (obb_center_s(self).x - obb_extent_s(
                self,
                self.transform.mat.m00,
                self.transform.mat.m01,
                self.transform.mat.m02,
            )) as i64,
            y: (obb_center_s(self).y - obb_extent_s(
                self,
                self.transform.mat.m10,
                self.transform.mat.m11,
                self.transform.mat.m12,
            )) as i64,
            z: (obb_center_s(self).z - obb_extent_s(
                self,
                self.transform.mat.m20,
                self.transform.mat.m21,
                self.transform.mat.m22,
            )) as i64,
        }
    }

    /// The greatest corner as a value.
    pub open spec fn max_spec(self) -> V3 {
        V3 {
            x: (obb_center_s(self).x + obb_extent_s(
                self,
                self.transform.mat.m00,
                self.transform.mat.m01,
                self.transform.mat.m02,
            )) as i64,
            y: (obb_center_s(self).y + obb_extent_s(
                self,
                self.transform.mat.m10,
                self.transform.mat.m11,
                self.transform.mat.m12,
            )) as i64,
            z: (obb_center_s(self).z + obb_extent_s(
                self,
                self.transform.mat.m20,
                self.transform.mat.m21,
                self.transform.mat.m22,
            )) as i64,
        }
    }
}

/// One row of the absolute linear part applied to the half sizes.
fn row_extent(m0: i64, m1: i64, m2: i64, h: &V3) -> (r: i64)
    requires
        iabs(m0 as int) <= 0x80_0000,
        iabs(m1 as int) <= 0x80_0000,
        iabs(m2 as int) <= 0x80_0000,
        0 <= h.x <= OBB_HALF_LIM,
        0 <= h.y <= OBB_HALF_LIM,
        0 <= h.z <= OBB_HALF_LIM,
    ensures
        r == fx_mul_s(iabs(m0 as int), h.x as int) + fx_mul_s(iabs(m1 as int), h.y as int)
            + fx_mul_s(iabs(m2 as int), h.z as int),
        0 <= r <= 0x2_0000_0000,
{
    proof {
        lemma_fx_nonneg(iabs(m0 as int), h.x as int);
        lemma_fx_nonneg(iabs(m1 as int), h.y as int);
        lemma_fx_nonneg(iabs(m2 as int), h.z as int);
    }
    let a0 = if m0 >= 0 {
        m0
    } else {
        -m0
    };
    let a1 = if m1 >= 0 {
        m1
    } else {
        -m1
    };
    let a2 = if m2 >= 0 {
        m2
    } else {
        -m2
    };
    proof {
        crate::fx::lemma_fx_mul_bound(a0 as int, 0x80_0000, h.x as int, OBB_HALF_LIM as int);
        crate::fx::lemma_fx_mul_bound(a1 as int, 0x80_0000, h.y as int, OBB_HALF_LIM as int);
        crate::fx::lemma_fx_mul_bound(a2 as int, 0x80_0000, h.z as int, OBB_HALF_LIM as int);
    }
    fx_mul(a0, h.x) + fx_mul(a1, h.y) + fx_mul(a2, h.z)
}

/// The world half extents are never negative, and bounded when the linear
/// entries are.
proof fn lemma_extent_nonneg(o: OBB, m0: i64, m1: i64, m2: i64)
    requires
        o.wf(),
    ensures
        obb_extent_s(o, m0, m1, m2) >= 0,
        iabs(m0 as int) <= 0x80_0000 && iabs(m1 as int) <= 0x80_0000 && iabs(m2 as int)
            <= 0x80_0000 ==> obb_extent_s(o, m0, m1, m2) <= 0x2_0000_0000,
{
    lemma_fx_nonneg(iabs(m0 as int), o.half_size.x as int);
    lemma_fx_nonneg(iabs(m1 as int), o.half_size.y as int);
    lemma_fx_nonneg(iabs(m2 as int), o.half_size.z as int);
    if iabs(m0 as int) <= 0x80_0000 && iabs(m1 as int) <= 0x80_0000 && iabs(m2 as int)
        <= 0x80_0000 {
        crate::fx::lemma_fx_mul_bound(
            iabs(m0 as int),
            0x80_0000,
            o.half_size.x as int,
            OBB_HALF_LIM as int,
        );
        crate::fx::lemma_fx_mul_bound(
            iabs(m1 as int),
            0x80_0000,
            o.half_size.y as int,
            OBB_HALF_LIM as int,
        );
        crate::fx::lemma_fx_mul_bound(
            iabs(m2 as int),
            0x80_0000,
            o.half_size.z as int,
            OBB_HALF_LIM as int,
        );
    }
}

/// The enclosing box of a well-formed OBB is a valid, bounded box well
/// inside the working range of the tree queries.
pub proof fn lemma_wrap_bounds(o: OBB)
    requires
        o.wf(),
    ensures
        (AABB { min: o.min_spec(), max: o.max_spec() }).wf(),
        (AABB { min: o.min_spec(), max: o.max_spec() }).is_valid(),
        o.min_spec().in_lim(0x10_0000_0000),
        o.max_spec().in_lim(0x10_0000_0000),
{
    crate::inertia::lemma_transformer_bounds(o.transform);
    lemma_small_vec_apply(o.transform.mat.m00, o.transform.mat.m01, o.transform.mat.m02,
        o.transform.offset);
    lemma_small_vec_apply(o.transform.mat.m10, o.transform.mat.m11, o.transform.mat.m12,
        o.transform.offset);
    lemma_small_vec_apply(o.transform.mat.m20, o.transform.mat.m21, o.transform.mat.m22,
        o.transform.offset);
    lemma_extent_nonneg(o, o.transform.mat.m00, o.transform.mat.m01, o.transform.mat.m02);
    lemma_extent_nonneg(o, o.transform.mat.m10, o.transform.mat.m11, o.transform.mat.m12);
    lemma_extent_nonneg(o, o.transform.mat.m20, o.transform.mat.m21, o.transform.mat.m22);
}

/// A fixed-point product of nonnegative factors is nonnegative.
proof fn lemma_fx_nonneg(a: int, b: int)
    requires
        a >= 0,
        b >= 0,
    ensures
        fx_mul_s(a, b) >= 0,
{
    assert(a * b >= 0) by (nonlinear_arith)
        requires
            a >= 0,
            b >= 0,
    ;
}

/// Products of one small row with a small vector stay small.
proof fn lemma_small_vec_apply(m0: i64, m1: i64, m2: i64, p: V3)
    requires
        iabs(m0 as int) <= 0x80_0000,
        iabs(m1 as int) <= 0x80_0000,
        iabs(m2 as int) <= 0x80_0000,
        p.in_lim(0x100_0000),
    ensures
        iabs(
            fx_mul_s(m0 as int, p.x as int) + fx_mul_s(m1 as int, p.y as int) + fx_mul_s(
                m2 as int,
                p.z as int,
            ),
        ) <= 0x2_0000_0000,
{
    crate::fx::lemma_fx_mul_bound(m0 as int, 0x80_0000, p.x as int, 0x100_0000);
    crate::fx::lemma_fx_mul_bound(m1 as int, 0x80_0000, p.y as int, 0x100_0000);
    crate::fx::lemma_fx_mul_bound(m2 as int, 0x80_0000, p.z as int, 0x100_0000);
}

impl BVIntersector<OBB> for OBB {
    open spec fn req(&self, other: &OBB) -> bool {
        self.wf() && other.wf()
    }

    /// The exact fixed-point separating-axis outcome between the two boxes.
    open spec fn hits(&self, other: &OBB) -> bool {
        sat_obb_obb_s(
            V3 {
                x: rot00_s(self.transform.rot) as i64,
                y: rot10_s(self.transform.rot) as i64,
                z: rot20_s(self.transform.rot) as i64,
            },
            V3 {
                x: rot01_s(self.transform.rot) as i64,
                y: rot11_s(self.transform.rot) as i64,
                z: rot21_s(self.transform.rot) as i64,
            },
            V3 {
                x: rot02_s(self.transform.rot) as i64,
                y: rot12_s(self.transform.rot) as i64,
                z: rot22_s(self.transform.rot) as i64,
            },
            V3 {
                x: rot00_s(other.transform.rot) as i64,
                y: rot10_s(other.transform.rot) as i64,
                z: rot20_s(other.transform.rot) as i64,
            },
            V3 {
                x: rot01_s(other.transform.rot) as i64,
                y: rot11_s(other.transform.rot) as i64,
                z: rot21_s(other.transform.rot) as i64,
            },
            V3 {
                x: rot02_s(other.transform.rot) as i64,
                y: rot12_s(other.transform.rot) as i64,
                z: rot22_s(other.transform.rot) as i64,
            },
            V3 {
                x: (obb_center_s(*other).x - obb_center_s(*self).x) as i64,
                y: (obb_center_s(*other).y - obb_center_s(*self).y) as i64,
                z: (obb_center_s(*other).z - obb_center_s(*self).z) as i64,
            },
            self.half_size.x as int,
            self.half_size.y as int,
            self.half_size.z as int,
            other.half_size.x as int,
            other.half_size.y as int,
            other.half_size.z as int,
        )
    }

    fn intersects(&self, other: &OBB) -> (r: bool) {
        let sc = self.center();
        let oc = other.center();
        let rel = oc.sub(&sc);
        intersects_obb_obb(
            &self.transform.right(),
            &self.transform.up(),
            &self.transform.forward(),
            &other.transform.right(),
            &other.transform.up(),
            &other.transform.forward(),
            &rel,
            self.half_size.x,
            self.half_size.y,
            self.half_size.z,
            other.half_size.x,
            other.half_size.y,
            other.half_size.z,
        )
    }
}

impl BVIntersector<AABB> for OBB {
    open spec fn req(&self, other: &AABB) -> bool {
        self.wf() && other.min.in_lim(0x10_0000_0000) && other.max.in_lim(0x10_0000_0000)
    }

    /// An invalid (empty) box hits nothing; otherwise the exact fixed-point
    /// separating-axis outcome against the box, the box side evaluated per
    /// corner coordinate, which makes the test exactly monotone under box
    /// enclosure (`lemma_obb_box_hits_grows`).
    open spec fn hits(&self, other: &AABB) -> bool {
        other.is_valid() && sat_obb_box_s(
            V3 {
                x: rot00_s(self.transform.rot) as i64,
                y: rot10_s(self.transform.rot) as i64,
                z: rot20_s(self.transform.rot) as i64,
            },
            V3 {
                x: rot01_s(self.transform.rot) as i64,
                y: rot11_s(self.transform.rot) as i64,
                z: rot21_s(self.transform.rot) as i64,
            },
            V3 {
                x: rot02_s(self.transform.rot) as i64,
                y: rot12_s(self.transform.rot) as i64,
                z: rot22_s(self.transform.rot) as i64,
            },
            obb_center_s(*self),
            self.half_size.x as int,
            self.half_size.y as int,
            self.half_size.z as int,
            other.min,
            other.max,
        )
    }

    fn intersects(&self, other: &AABB) -> (r: bool) {
        if other.max.x < other.min.x || other.max.y < other.min.y || other.max.z < other.min.z {
            return false;
        }
        let sc = self.center();
        intersects_obb_box(
            &self.transform.right(),
            &self.transform.up(),
            &self.transform.forward(),
            &sc,
            self.half_size.x,
            self.half_size.y,
            self.half_size.z,
            &other.min,
            &other.max,
        )
    }
}

impl BVIntersector<V3> for OBB {
    open spec fn req(&self, other: &V3) -> bool {
        self.wf() && other.in_lim(0x10_0000_0000)
    }

    /// The point lies in the box: its body-frame image is within the half
    /// sizes on every axis.
    open spec fn hits(&self, other: &V3) -> bool {
        &&& -(self.half_size.x as int) <= mat4_point_x_s(self.transform.inv_mat, *other)
            <= self.half_size.x
        &&& -(self.half_size.y as int) <= mat4_point_y_s(self.transform.inv_mat, *other)
            <= self.half_size.y
        &&& -(self.half_size.z as int) <= mat4_point_z_s(self.transform.inv_mat, *other)
            <= self.half_size.z
    }

    fn intersects(&self, other: &V3) -> (r: bool) {
        let rel = self.transform.inv_trafo_point(other);
        if rel.x < -self.half_size.x || rel.x > self.half_size.x {
            return false;
        }
        if rel.y < -self.half_size.y || rel.y > self.half_size.y {
            return false;
        }
        if rel.z < -self.half_size.z || rel.z > self.half_size.z {
            return false;
        }
        true
    }
}

impl BVIntersector<OBB> for AABB {
    open spec fn req(&self, other: &OBB) -> bool {
        other.wf() && self.min.in_lim(0x10_0000_0000) && self.max.in_lim(0x10_0000_0000)
    }

    /// Delegates to the OBB-AABB test, which keeps the pairing symmetric by
    /// construction.
    open spec fn hits(&self, other: &OBB) -> bool {
        <OBB as BVIntersector<AABB>>::hits(other, self)
    }

    fn intersects(&self, other: &OBB) -> (r: bool) {
        other.intersects(self)
    }
}


/// A body always overlaps itself: the separating-axis test of a well-formed
/// box against itself finds no separating axis, so a collider query always
/// reports at least the querying body and callers filter by identity.
pub proof fn lemma_obb_hits_itself(o: OBB)
    requires
        o.wf(),
    ensures
        <OBB as BVIntersector<OBB>>::hits(&o, &o),
{
    let zero = V3 {
        x: (obb_center_s(o).x - obb_center_s(o).x) as i64,
        y: (obb_center_s(o).y - obb_center_s(o).y) as i64,
        z: (obb_center_s(o).z - obb_center_s(o).z) as i64,
    };
    assert(zero.x == 0 && zero.y == 0 && zero.z == 0);
    assert forall|a: V3| crate::separated_axis::vdot(a, zero) == 0 by {
        crate::fx::lemma_fx_mul_one(a.x as int);
        crate::fx::lemma_fx_mul_one(a.y as int);
        crate::fx::lemma_fx_mul_one(a.z as int);
    }
    assert forall|s: int, c: int| s >= 0 implies crate::fx::fx_mul_s(s, iabs(c)) >= 0 by {
        lemma_fx_nonneg(s, iabs(c));
    }
    assert forall|c: int| #[trigger] crate::fx::fx_mul_s(c, 0) == 0 by {
        crate::fx::lemma_fx_mul_one(c);
    }
}

/// The AABB-OBB pairing is symmetric by construction: each side delegates to
/// the one oriented kernel.
pub proof fn lemma_obb_aabb_symm(a: AABB, o: OBB)
    ensures
        <AABB as BVIntersector<OBB>>::hits(&a, &o) == <OBB as BVIntersector<AABB>>::hits(&o, &a),
{
}

/// An oriented query's box test grows with containment: whatever valid box it
/// hits, it hits every enclosing box, exactly, because every truncated corner
/// product only moves outward. This is the monotonicity the tree traversals'
/// completeness rests on.
pub proof fn lemma_obb_box_hits_grows(o: &OBB)
    ensures
        crate::tlas::tlas_hits_grows::<OBB>(o),
        crate::bvh::hits_grows::<OBB>(o),
{
    assert forall|inner: AABB, outer: AABB|
        #[trigger] crate::aabb::aabb_contains(outer, inner) && <OBB as BVIntersector<AABB>>::hits(
            o,
            &inner,
        ) implies <OBB as BVIntersector<AABB>>::hits(o, &outer) by {
        lemma_sat_obb_box_monotone(
            V3 {
                x: rot00_s(o.transform.rot) as i64,
                y: rot10_s(o.transform.rot) as i64,
                z: rot20_s(o.transform.rot) as i64,
            },
            V3 {
                x: rot01_s(o.transform.rot) as i64,
                y: rot11_s(o.transform.rot) as i64,
                z: rot21_s(o.transform.rot) as i64,
            },
            V3 {
                x: rot02_s(o.transform.rot) as i64,
                y: rot12_s(o.transform.rot) as i64,
                z: rot22_s(o.transform.rot) as i64,
            },
            obb_center_s(*o),
            o.half_size.x as int,
            o.half_size.y as int,
            o.half_size.z as int,
            inner.min,
            inner.max,
            outer.min,
            outer.max,
        );
    }
}

/// A valid box that contains the oriented box's world center is always hit:
/// the center's projection lies inside the box's projection on every axis.
pub proof fn lemma_obb_hits_center_box(o: &OBB, a: &AABB)
    requires
        o.wf(),
        a.is_valid(),
        a.min.x <= obb_center_s(*o).x <= a.max.x,
        a.min.y <= obb_center_s(*o).y <= a.max.y,
        a.min.z <= obb_center_s(*o).z <= a.max.z,
    ensures
        <OBB as BVIntersector<AABB>>::hits(o, a),
{
    lemma_sat_obb_box_center(
        V3 {
            x: rot00_s(o.transform.rot) as i64,
            y: rot10_s(o.transform.rot) as i64,
            z: rot20_s(o.transform.rot) as i64,
        },
        V3 {
            x: rot01_s(o.transform.rot) as i64,
            y: rot11_s(o.transform.rot) as i64,
            z: rot21_s(o.transform.rot) as i64,
        },
        V3 {
            x: rot02_s(o.transform.rot) as i64,
            y: rot12_s(o.transform.rot) as i64,
            z: rot22_s(o.transform.rot) as i64,
        },
        obb_center_s(*o),
        o.half_size.x as int,
        o.half_size.y as int,
        o.half_size.z as int,
        a.min,
        a.max,
    );
}

/// An oriented box always hits its own enclosing wrap: the wrap is centered
/// on the box's world center, so a collider query that walks a tree of wraps
/// always reaches the querying body's own leaf.
pub proof fn lemma_obb_hits_own_wrap(o: &OBB)
    requires
        o.wf(),
    ensures
        <OBB as BVIntersector<AABB>>::hits(o, &(AABB { min: o.min_spec(), max: o.max_spec() })),
{
    lemma_wrap_bounds(*o);
    crate::inertia::lemma_transformer_bounds(o.transform);
    lemma_small_vec_apply(o.transform.mat.m00, o.transform.mat.m01, o.transform.mat.m02,
        o.transform.offset);
    lemma_small_vec_apply(o.transform.mat.m10, o.transform.mat.m11, o.transform.mat.m12,
        o.transform.offset);
    lemma_small_vec_apply(o.transform.mat.m20, o.transform.mat.m21, o.transform.mat.m22,
        o.transform.offset);
    lemma_extent_nonneg(*o, o.transform.mat.m00, o.transform.mat.m01, o.transform.mat.m02);
    lemma_extent_nonneg(*o, o.transform.mat.m10, o.transform.mat.m11, o.transform.mat.m12);
    lemma_extent_nonneg(*o, o.transform.mat.m20, o.transform.mat.m21, o.transform.mat.m22);
    lemma_obb_hits_center_box(o, &(AABB { min: o.min_spec(), max: o.max_spec() }));
}

} // verus!
