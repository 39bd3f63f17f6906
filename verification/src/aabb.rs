//! Axis-aligned bounding boxes.
//!
//! An `AABB` is a pair of corner vectors. A freshly created box is in the
//! *empty sentinel state*: `min` at `+AABB_INF`, `max` at `-AABB_INF`, so that
//! growing it around any content yields the tight bounds. Growing keeps a box
//! either empty or valid (`min <= max` componentwise); that is the
//! well-formedness every user of a box relies on.

use vstd::prelude::*;
use crate::fx::{iabs, tdiv};
use crate::vec3::V3;
use crate::volume::BVIntersector;

verus! {

/// Sentinel magnitude standing in for infinity; larger than any world
/// coordinate the rest of the crate produces.
pub const AABB_INF: i64 = 0x100_0000_0000;

/// The smaller of two raw scalars.
pub open spec fn smin(a: i64, b: i64) -> i64 {
    if a <= b {
        a
    } else {
        b
    }
}

/// The larger of two raw scalars.
pub open spec fn smax(a: i64, b: i64) -> i64 {
    if a <= b {
        b
    } else {
        a
    }
}

/// Axis-aligned bounding box.
#[derive(Clone, Copy, PartialEq, Eq, Structural, Debug)]
pub struct AABB {
    pub min: V3,
    pub max: V3,
}

/// `outer` contains `inner` on every axis.
pub open spec fn aabb_contains(outer: AABB, inner: AABB) -> bool {
    &&& outer.min.x <= inner.min.x
    &&& outer.min.y <= inner.min.y
    &&& outer.min.z <= inner.min.z
    &&& inner.max.x <= outer.max.x
    &&& inner.max.y <= outer.max.y
    &&& inner.max.z <= outer.max.z
}

/// The point `p` lies inside `a` (boundaries included).
pub open spec fn aabb_contains_pt(a: AABB, p: V3) -> bool {
    &&& a.min.x <= p.x <= a.max.x
    &&& a.min.y <= p.y <= a.max.y
    &&& a.min.z <= p.z <= a.max.z
}

/// The closed boxes `a` and `b` overlap: their intervals meet on every axis.
pub open spec fn aabb_overlap(a: AABB, b: AABB) -> bool {
    &&& b.max.x >= a.min.x && b.min.x <= a.max.x
    &&& b.max.y >= a.min.y && b.min.y <= a.max.y
    &&& b.max.z >= a.min.z && b.min.z <= a.max.z
}

/// The componentwise union of two boxes.
pub open spec fn aabb_union(a: AABB, b: AABB) -> AABB {
    AABB {
        min: V3 { x: smin(a.min.x, b.min.x), y: smin(a.min.y, b.min.y), z: smin(
            a.min.z,
            b.min.z,
        ) },
        max: V3 { x: smax(a.max.x, b.max.x), y: smax(a.max.y, b.max.y), z: smax(
            a.max.z,
            b.max.z,
        ) },
    }
}

/// The union of a box and a single point.
pub open spec fn aabb_grown(a: AABB, p: V3) -> AABB {
    AABB {
        min: V3 { x: smin(a.min.x, p.x), y: smin(a.min.y, p.y), z: smin(a.min.z, p.z) },
        max: V3 { x: smax(a.max.x, p.x), y: smax(a.max.y, p.y), z: smax(a.max.z, p.z) },
    }
}

/// Exact meaning of the surface-area proxy: the sum of the pairwise products
/// of the edge sizes (half the true surface area).
pub open spec fn aabb_area_s(a: AABB) -> int {
    let sx = a.max.x - a.min.x;
    let sy = a.max.y - a.min.y;
    let sz = a.max.z - a.min.z;
    sx * sy + sy * sz + sz * sx
}

impl AABB {
    /// The empty sentinel state.
    pub open spec fn is_empty(self) -> bool {
        &&& self.min == (V3 { x: AABB_INF, y: AABB_INF, z: AABB_INF })
        &&& self.max.x == -(AABB_INF as int)
        &&& self.max.y == -(AABB_INF as int)
        &&& self.max.z == -(AABB_INF as int)
    }

    /// `min <= max` on every axis.
    pub open spec fn is_valid(self) -> bool {
        self.min.x <= self.max.x && self.min.y <= self.max.y && self.min.z <= self.max.z
    }

    /// All corner coordinates are within the sentinel range.
    pub open spec fn bounded(self) -> bool {
        self.min.in_lim(AABB_INF as int) && self.max.in_lim(AABB_INF as int)
    }

    /// A box every grow sequence maintains: bounded, and valid unless still
    /// untouched (empty sentinel).
    pub open spec fn wf(self) -> bool {
        self.bounded() && (self.is_valid() || self.is_empty())
    }

    /// Creates an AABB in the empty sentinel state, ready to be grown.
    pub fn new() -> (r: AABB)
        ensures
            r.is_empty(),
            r.wf(),
    {
        AABB {
            min: V3 { x: AABB_INF, y: AABB_INF, z: AABB_INF },
            max: V3 { x: -AABB_INF, y: -AABB_INF, z: -AABB_INF },
        }
    }

    /// Puts the box back in the empty sentinel state.
    pub fn reset(&mut self)
        ensures
            final(self).is_empty(),
            final(self).wf(),
    {
        self.min = V3 { x: AABB_INF, y: AABB_INF, z: AABB_INF };
        self.max = V3 { x: -AABB_INF, y: -AABB_INF, z: -AABB_INF };
    }

    /// Sets this box to the union of `left` and `right`.
    ///
    /// Growing never leaves the well-formed states: the result of a union of
    /// well-formed boxes is well-formed.
    pub fn adjust(&mut self, left: &AABB, right: &AABB)
        ensures
            *final(self) == aabb_union(*left, *right),
            left.wf() && right.wf() ==> final(self).wf(),
    {
        self.min = V3 {
            x: if left.min.x <= right.min.x { left.min.x } else { right.min.x },
            y: if left.min.y <= right.min.y { left.min.y } else { right.min.y },
            z: if left.min.z <= right.min.z { left.min.z } else { right.min.z },
        };
        self.max = V3 {
            x: if left.max.x <= right.max.x { right.max.x } else { left.max.x },
            y: if left.max.y <= right.max.y { right.max.y } else { left.max.y },
            z: if left.max.z <= right.max.z { right.max.z } else { left.max.z },
        };
    }

    /// Grows this box to also cover `other`. Growing by an empty box is a
    /// no-op; growing keeps a well-formed box well-formed.
    pub fn grow_other(&mut self, other: &AABB)
        ensures
            *final(self) == aabb_union(*old(self), *other),
            old(self).wf() && other.wf() ==> final(self).wf(),
            other.is_empty() && old(self).bounded() ==> *final(self) == *old(self),
    {
        self.min = V3 {
            x: if self.min.x <= other.min.x { self.min.x } else { other.min.x },
            y: if self.min.y <= other.min.y { self.min.y } else { other.min.y },
            z: if self.min.z <= other.min.z { self.min.z } else { other.min.z },
        };
        self.max = V3 {
            x: if self.max.x <= other.max.x { other.max.x } else { self.max.x },
            y: if self.max.y <= other.max.y { other.max.y } else { self.max.y },
            z: if self.max.z <= other.max.z { other.max.z } else { self.max.z },
        };
    }

    /// Grows this box to also cover the point `p`. Growing keeps a
    /// well-formed box well-formed, and the grown box covers `p`.
    pub fn grow(&mut self, p: &V3)
        ensures
            *final(self) == aabb_grown(*old(self), *p),
            old(self).wf() && p.in_lim(AABB_INF as int) ==> final(self).wf(),
            old(self).wf() && p.in_lim(AABB_INF as int) ==> aabb_contains_pt(*final(self), *p),
    {
        self.min = V3 {
            x: if self.min.x <= p.x { self.min.x } else { p.x },
            y: if self.min.y <= p.y { self.min.y } else { p.y },
            z: if self.min.z <= p.z { self.min.z } else { p.z },
        };
        self.max = V3 {
            x: if self.max.x <= p.x { p.x } else { self.max.x },
            y: if self.max.y <= p.y { p.y } else { self.max.y },
            z: if self.max.z <= p.z { p.z } else { self.max.z },
        };
    }

    /// Grows only the `min` corner toward `p`.
    pub fn grow_min(&mut self, p: &V3)
        ensures
            final(self).max == old(self).max,
            final(self).min.x == smin(old(self).min.x, p.x),
            final(self).min.y == smin(old(self).min.y, p.y),
            final(self).min.z == smin(old(self).min.z, p.z),
    {
        self.min = V3 {
            x: if self.min.x <= p.x { self.min.x } else { p.x },
            y: if self.min.y <= p.y { self.min.y } else { p.y },
            z: if self.min.z <= p.z { self.min.z } else { p.z },
        };
    }

    /// Grows only the `max` corner toward `p`.
    pub fn grow_max(&mut self, p: &V3)
        ensures
            final(self).min == old(self).min,
            final(self).max.x == smax(old(self).max.x, p.x),
            final(self).max.y == smax(old(self).max.y, p.y),
            final(self).max.z == smax(old(self).max.z, p.z),
    {
        self.max = V3 {
            x: if self.max.x <= p.x { p.x } else { self.max.x },
            y: if self.max.y <= p.y { p.y } else { self.max.y },
            z: if self.max.z <= p.z { p.z } else { self.max.z },
        };
    }

    /// The midpoint of the box, componentwise, truncated toward zero.
    pub fn center(&self) -> (r: V3)
        requires
            self.bounded(),
        ensures
            r.x == tdiv(self.min.x + self.max.x, 2),
            r.y == tdiv(self.min.y + self.max.y, 2),
            r.z == tdiv(self.min.z + self.max.z, 2),
    {
        V3 {
            x: crate::fx::half64(self.min.x + self.max.x),
            y: crate::fx::half64(self.min.y + self.max.y),
            z: crate::fx::half64(self.min.z + self.max.z),
        }
    }

    /// The surface-area proxy used by the SAH build heuristics.
    pub fn area(&self) -> (r: i128)
        requires
            self.bounded(),
        ensures
            r == aabb_area_s(*self),
    {
        let sx: i128 = (self.max.x as i128) - (self.min.x as i128);
        let sy: i128 = (self.max.y as i128) - (self.min.y as i128);
        let sz: i128 = (self.max.z as i128) - (self.min.z as i128);
        proof {
            crate::fx::lemma_mul_bounds(sx as int, sy as int, 2 * (AABB_INF as int));
            crate::fx::lemma_mul_bounds(sy as int, sz as int, 2 * (AABB_INF as int));
            crate::fx::lemma_mul_bounds(sz as int, sx as int, 2 * (AABB_INF as int));
        }
        sx * sy + sy * sz + sz * sx
    }

    /// The edge sizes of the box.
    pub fn size(&self) -> (r: V3)
        requires
            self.bounded(),
        ensures
            r.x == self.max.x - self.min.x,
            r.y == self.max.y - self.min.y,
            r.z == self.max.z - self.min.z,
    {
        V3 { x: self.max.x - self.min.x, y: self.max.y - self.min.y, z: self.max.z - self.min.z }
    }

    /// Half the edge sizes of the box, truncated toward zero.
    pub fn half_size(&self) -> (r: V3)
        requires
            self.bounded(),
        ensures
            r.x == tdiv(self.max.x - self.min.x, 2),
            r.y == tdiv(self.max.y - self.min.y, 2),
            r.z == tdiv(self.max.z - self.min.z, 2),
    {
        V3 {
            x: crate::fx::half64(self.max.x - self.min.x),
            y: crate::fx::half64(self.max.y - self.min.y),
            z: crate::fx::half64(self.max.z - self.min.z),
        }
    }
}

impl BVIntersector<AABB> for AABB {
    open spec fn req(&self, other: &AABB) -> bool {
        true
    }

    open spec fn hits(&self, other: &AABB) -> bool {
        aabb_overlap(*self, *other)
    }

    fn intersects(&self, other: &AABB) -> (r: bool) {
        crate::separated_axis::intersects_aabb_aabb(&self.min, &self.max, &other.min, &other.max)
    }
}

/// The box overlap relation is symmetric.
///
/// This is the axis-aligned case of the intersection-symmetry law: for all
/// boxes `a` and `b`, `a.intersects(b) == b.intersects(a)`.
pub proof fn lemma_aabb_overlap_symm(a: AABB, b: AABB)
    ensures
        aabb_overlap(a, b) == aabb_overlap(b, a),
{
}

/// Overlap is monotone in box containment: an intersector overlapping a box
/// inside `outer` also overlaps `outer`.
pub proof fn lemma_aabb_overlap_monotone(q: AABB, inner: AABB, outer: AABB)
    requires
        aabb_contains(outer, inner),
        aabb_overlap(q, inner),
    ensures
        aabb_overlap(q, outer),
{
}

/// Containment is transitive.
pub proof fn lemma_aabb_contains_trans(a: AABB, b: AABB, c: AABB)
    requires
        aabb_contains(a, b),
        aabb_contains(b, c),
    ensures
        aabb_contains(a, c),
{
}

/// A union contains both operands, and is the least such box.
pub proof fn lemma_aabb_union_bounds(a: AABB, b: AABB)
    ensures
        aabb_contains(aabb_union(a, b), a),
        aabb_contains(aabb_union(a, b), b),
{
}

/// The surface-area proxy of a bounded box has a bounded magnitude.
pub proof fn lemma_area_bound(a: AABB)
    requires
        a.bounded(),
    ensures
        iabs(aabb_area_s(a)) <= 3 * (0x200_0000_0000 * 0x200_0000_0000),
{
    let sx = a.max.x - a.min.x;
    let sy = a.max.y - a.min.y;
    let sz = a.max.z - a.min.z;
    crate::fx::lemma_mul_bounds(sx, sy, 0x200_0000_0000);
    crate::fx::lemma_mul_bounds(sy, sz, 0x200_0000_0000);
    crate::fx::lemma_mul_bounds(sz, sx, 0x200_0000_0000);
}

/// The area proxy of a well-formed box is never negative.
pub proof fn lemma_area_nonneg(a: AABB)
    requires
        a.wf(),
    ensures
        aabb_area_s(a) >= 0,
{
    let sx = a.max.x - a.min.x;
    let sy = a.max.y - a.min.y;
    let sz = a.max.z - a.min.z;
    if a.is_valid() {
        assert(sx * sy >= 0 && sy * sz >= 0 && sz * sx >= 0) by (nonlinear_arith)
            requires
                sx >= 0,
                sy >= 0,
                sz >= 0,
        ;
    } else {
        assert(sx * sy >= 0 && sy * sz >= 0 && sz * sx >= 0) by (nonlinear_arith)
            requires
                sx < 0,
                sy < 0,
                sz < 0,
        ;
    }
}

/// The union of boxes does not depend on their order.
pub proof fn lemma_aabb_union_comm(a: AABB, b: AABB)
    ensures
        aabb_union(a, b) == aabb_union(b, a),
{
}

/// The union of well-formed boxes is well-formed.
pub proof fn lemma_aabb_union_wf(a: AABB, b: AABB)
    requires
        a.wf(),
        b.wf(),
    ensures
        aabb_union(a, b).wf(),
{
}

} // verus!
