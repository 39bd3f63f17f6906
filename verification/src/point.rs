//! Points as bounding volumes.
//!
//! A bare vector takes part in the pairwise intersection protocol: it hits a
//! box when it lies inside it, delegates the oriented test to the oriented
//! box, and never hits another point.

use vstd::prelude::*;
use crate::aabb::{AABB, aabb_contains_pt};
use crate::oriented::OBB;
use crate::vec3::V3;
use crate::volume::BVIntersector;

verus! {

impl BVIntersector<AABB> for V3 {
    open spec fn req(&self, other: &AABB) -> bool {
        true
    }

    /// The point lies inside the closed box.
    open spec fn hits(&self, other: &AABB) -> bool {
        aabb_contains_pt(*other, *self)
    }

    fn intersects(&self, other: &AABB) -> (r: bool) {
        if self.x < other.min.x || self.x > other.max.x {
            return false;
        }
        if self.y < other.min.y || self.y > other.max.y {
            return false;
        }
        if self.z < other.min.z || self.z > other.max.z {
            return false;
        }
        true
    }
}

impl BVIntersector<OBB> for V3 {
    open spec fn req(&self, other: &OBB) -> bool {
        other.wf() && self.in_lim(0x10_0000_0000)
    }

    /// Delegates to the oriented box's point test, keeping the pairing
    /// symmetric by construction.
    open spec fn hits(&self, other: &OBB) -> bool {
        <OBB as BVIntersector<V3>>::hits(other, self)
    }

    fn intersects(&self, other: &OBB) -> (r: bool) {
        other.intersects(self)
    }
}

impl BVIntersector<V3> for V3 {
    open spec fn req(&self, other: &V3) -> bool {
        true
    }

    /// A point never overlaps another point.
    open spec fn hits(&self, other: &V3) -> bool {
        false
    }

    fn intersects(&self, other: &V3) -> (r: bool) {
        false
    }
}

impl BVIntersector<V3> for AABB {
    open spec fn req(&self, other: &V3) -> bool {
        true
    }

    /// Delegates to the point's box test, keeping the pairing symmetric by
    /// construction.
    open spec fn hits(&self, other: &V3) -> bool {
        <V3 as BVIntersector<AABB>>::hits(other, self)
    }

    fn intersects(&self, other: &V3) -> (r: bool) {
        other.intersects(self)
    }
}

/// The point pairings are symmetric by construction: each side delegates to
/// one canonical test, and the point-point pairing is false both ways.
pub proof fn lemma_point_pairs_symm(p: V3, q: V3, a: AABB, o: OBB)
    ensures
        <V3 as BVIntersector<AABB>>::hits(&p, &a) == <AABB as BVIntersector<V3>>::hits(&a, &p),
        <V3 as BVIntersector<OBB>>::hits(&p, &o) == <OBB as BVIntersector<V3>>::hits(&o, &p),
        <V3 as BVIntersector<V3>>::hits(&p, &q) == <V3 as BVIntersector<V3>>::hits(&q, &p),
{
}

} // verus!
