//! The physics engine: the world acceleration structure over all bodies.
//!
//! The engine owns every body; callers keep only entity identities and reach
//! bodies by index. Per tick, the intended discipline is: query the potential
//! colliders of a body, integrate and sync it when it is free, refit the
//! world, and rebuild once the pass is over.

use vstd::prelude::*;
use crate::aabb::AABB;
use crate::bvh::VecPool;
use crate::object::{PhyEntity, PhyEntityID};
use crate::oriented::OBB;
use crate::tlas::{TLAS, TLASElement, TLASNode, tlas_hits_grows, tlas_reported, TLAS_MAX_NODES};
use crate::volume::BVIntersector;

verus! {

/// The physics engine: the world tree over all bodies.
pub struct PhysicsEngine {
    pub world: TLAS<PhyEntity>,
}

impl PhysicsEngine {
    /// An empty engine with an empty world.
    pub fn new() -> (r: PhysicsEngine)
        ensures
            r.world.els().len() == 0,
            r.world.nds().len() == 1,
    {
        PhysicsEngine { world: TLAS::new(64) }
    }

    /// Adds a body to the world's pool. The body takes the next index; the
    /// tree must be rebuilt before the body is visible to queries.
    pub fn push_entity(&mut self, e: PhyEntity)
        ensures
            final(self).world.els() == old(self).world.els().push(e),
            final(self).world.nodes == old(self).world.nodes,
    {
        self.world.blas.push(e);
    }

    /// Rebuilds the world tree over the current bodies.
    pub fn build(&mut self)
        requires
            old(self).world.elems_wf(),
            1 <= old(self).world.els().len(),
            2 * old(self).world.els().len() <= TLAS_MAX_NODES,
            old(self).world.nds().len() >= 1,
        ensures
            final(self).world.tlas_wf(),
            final(self).world.blas == old(self).world.blas,
            final(self).world.subtree_blas(0) == crate::tlas::blas_indices(
                old(self).world.els().len() as int,
            ),
    {
        self.world.build();
    }

    /// Refits the world tree's boxes to the current bodies.
    pub fn refit(&mut self)
        requires
            old(self).world.struct_wf(),
        ensures
            final(self).world.tlas_wf(),
            final(self).world.blas == old(self).world.blas,
    {
        self.world.refit();
    }

    /// Returns references to every body whose bounding volume may overlap
    /// body `id`'s: the world tree is traversed with the body's own oriented
    /// box, so the body always finds at least itself among the results and
    /// callers filter by identity.
    ///
    /// Every returned body passes the exact separating-axis test against the
    /// query body's box (soundness). Every body under the root whose wrapping
    /// box and volume the query hits is among the results (completeness: the
    /// query's box test grows with containment by construction), the querying
    /// body itself in particular, and no body is reported more often than its
    /// index appears at the tree's leaves.
    pub fn query_colliders(&self, id: PhyEntityID) -> (res: Vec<&PhyEntity>)
        requires
            self.world.tlas_wf(),
            id.entity_id < self.world.els().len(),
        ensures
            forall|k: int|
                0 <= k < res@.len() ==> <OBB as BVIntersector<OBB>>::hits(
                    &self.world.els()[id.entity_id as int].bv_s(),
                    &(#[trigger] res@[k]).bv_s(),
                ),
            forall|k: int|
                0 <= k < res@.len() ==> self.world.from_tree(0, #[trigger] res@[k]),
            forall|b: int|
                0 <= b < self.world.els().len() && self.world.subtree_blas(0).count(b) > 0 && <
                    OBB as BVIntersector<AABB>>::hits(
                    &self.world.els()[id.entity_id as int].bv_s(),
                    &(#[trigger] self.world.els()[b]).wrap_s(),
                ) && <OBB as BVIntersector<OBB>>::hits(
                    &self.world.els()[id.entity_id as int].bv_s(),
                    &(#[trigger] self.world.els()[b]).bv_s(),
                ) ==> tlas_reported(res@, self.world.els()[b]),
            self.world.subtree_blas(0).count(id.entity_id as int) > 0 ==> tlas_reported(
                res@,
                self.world.els()[id.entity_id as int],
            ),
            exists|bs: Seq<int>|
                #![trigger bs.len()]
                bs.len() == res@.len() && (forall|k: int|
                    0 <= k < bs.len() ==> 0 <= #[trigger] bs[k] < self.world.els().len() && *res@[k]
                        == self.world.els()[bs[k]]) && (forall|b: int|
                    #[trigger] bs.to_multiset().count(b) <= self.world.subtree_blas(0).count(b)),
    {
        proof {
            assert(self.world.els()[id.entity_id as int].el_wf());
            assert forall|k: int| 1 <= k < self.world.nds().len() implies <OBB as BVIntersector<
                AABB,
            >>::req(
                &self.world.els()[id.entity_id as int].bv_s(),
                &(#[trigger] self.world.nds()[k]).aabb,
            ) by {
                self.world.lemma_box_bounds(k);
            }
            assert forall|j: int| 0 <= j < self.world.els().len() implies <OBB as BVIntersector<
                OBB,
            >>::req(
                &self.world.els()[id.entity_id as int].bv_s(),
                &(#[trigger] self.world.els()[j]).bv_s(),
            ) by {
                assert(self.world.els()[j].el_wf());
            }
        }
        let header = self.world.blas.at(id.entity_id);
        let res = self.world.intersect(header.bounding_volume(), 0);
        proof {
            let q = self.world.els()[id.entity_id as int].bv_s();
            crate::oriented::lemma_obb_box_hits_grows(&q);
            crate::oriented::lemma_obb_hits_own_wrap(&q);
            crate::oriented::lemma_obb_hits_itself(q);
            if self.world.subtree_blas(0).count(id.entity_id as int) > 0 {
                assert(<OBB as BVIntersector<AABB>>::hits(
                    &q,
                    &self.world.els()[id.entity_id as int].wrap_s(),
                ));
                assert(tlas_reported(res@, self.world.els()[id.entity_id as int]));
            }
        }
        res
    }

    /// Returns a shared reference to the body with the given identity.
    pub fn entity(&self, index: PhyEntityID) -> (r: &PhyEntity)
        requires
            index.entity_id < self.world.els().len(),
        ensures
            *r == self.world.els()[index.entity_id as int],
    {
        self.world.blas.at(index.entity_id)
    }

    /// Returns an exclusive reference to the body with the given identity.
    pub fn entity_mut(&mut self, index: PhyEntityID) -> (r: &mut PhyEntity)
        requires
            index.entity_id < old(self).world.els().len(),
        ensures
            *r == old(self).world.els()[index.entity_id as int],
            final(self).world.els() == old(self).world.els().update(
                index.entity_id as int,
                *final(r),
            ),
            final(self).world.nodes == old(self).world.nodes,
    {
        &mut self.world.blas.vec[index.entity_id]
    }
}

} // verus!
