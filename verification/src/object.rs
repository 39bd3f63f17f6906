//! Physics entities: a body's identity, inertial state and cached oriented
//! bounding box.

use vstd::prelude::*;
use crate::aabb::AABB;
use crate::fx::{half64, tdiv, FX_ONE};
use crate::inertia::{IS, MassDistribution, Transformer};
use crate::oriented::{OBB, OBB_HALF_LIM};
use crate::tlas::TLASElement;
use crate::vec3::V3;

verus! {

/// Identity of a physics entity: world, chunk and entity number. Equality
/// compares all three; the engine indexes by the entity number.
#[derive(Clone, Copy, PartialEq, Eq, Structural, Debug)]
pub struct PhyEntityID {
    pub world_id: u8,
    pub chunk_id: usize,
    pub entity_id: usize,
}

/// A rigid body: its identity, its inertial system, an optional collider
/// reference, and the cached world-space oriented box.
pub struct PhyEntity {
    pub id: PhyEntityID,
    pub is: IS,
    pub collider_id: usize,
    pub obb: OBB,
}

impl PhyEntity {
    /// The cached box carries the inertial state's transformer and is inside
    /// the working ranges.
    pub open spec fn wf(self) -> bool {
        self.obb.wf()
    }

    /// The box is in sync with the inertial state.
    pub open spec fn synced(self) -> bool {
        self.obb.transform == self.is.state
    }

    /// A box-shaped body of the given world size at rest at the origin, with
    /// unit mass and the identity inertia tensor.
    pub fn cube(id: PhyEntityID, size: V3) -> (r: PhyEntity)
        requires
            0 <= size.x <= 2 * OBB_HALF_LIM,
            0 <= size.y <= 2 * OBB_HALF_LIM,
            0 <= size.z <= 2 * OBB_HALF_LIM,
        ensures
            r.id == id,
            r.is.momentum == (V3 { x: 0i64, y: 0i64, z: 0i64 }),
            r.is.angular_mom == (V3 { x: 0i64, y: 0i64, z: 0i64 }),
            r.obb.half_size.x == tdiv(size.x as int, 2),
            r.obb.half_size.y == tdiv(size.y as int, 2),
            r.obb.half_size.z == tdiv(size.z as int, 2),
            r.wf(),
            r.synced(),
            r.is.state.wf(),
            r.is.mass.mass == FX_ONE,
    {
        proof {
            crate::fx::lemma_tdiv_abs(size.x as int, 2);
            crate::fx::lemma_tdiv_abs(size.y as int, 2);
            crate::fx::lemma_tdiv_abs(size.z as int, 2);
        }
        let half = V3 { x: half64(size.x), y: half64(size.y), z: half64(size.z) };
        let state = Transformer::default();
        PhyEntity {
            id,
            is: IS::new(
                V3 { x: 0, y: 0, z: 0 },
                V3 { x: 0, y: 0, z: 0 },
                state,
                MassDistribution::default(),
            ),
            collider_id: 0,
            obb: OBB { half_size: half, transform: state },
        }
    }

    /// Re-syncs the cached state: the transformer's matrices are refreshed
    /// and the box adopts the inertial state's transformer.
    pub fn sync(&mut self)
        requires
            old(self).is.state.params_wf(),
            0 <= old(self).obb.half_size.x <= OBB_HALF_LIM,
            0 <= old(self).obb.half_size.y <= OBB_HALF_LIM,
            0 <= old(self).obb.half_size.z <= OBB_HALF_LIM,
        ensures
            final(self).id == old(self).id,
            final(self).is.momentum == old(self).is.momentum,
            final(self).is.angular_mom == old(self).is.angular_mom,
            final(self).is.mass == old(self).is.mass,
            final(self).is.state.pos == old(self).is.state.pos,
            final(self).is.state.rot == old(self).is.state.rot,
            final(self).obb.half_size == old(self).obb.half_size,
            final(self).wf(),
            final(self).synced(),
    {
        self.is.sync();
        self.obb.transform = self.is.state;
    }
}

impl TLASElement for PhyEntity {
    type BV = OBB;

    open spec fn el_wf(&self) -> bool {
        self.wf()
    }

    open spec fn wrap_s(&self) -> AABB {
        AABB { min: self.obb.min_spec(), max: self.obb.max_spec() }
    }

    open spec fn bv_s(&self) -> OBB {
        self.obb
    }

    proof fn lemma_el_wf(&self) {
        crate::oriented::lemma_wrap_bounds(self.obb);
    }

    fn wrap(&self) -> (a: AABB) {
        self.obb.wrap()
    }

    fn bounding_volume(&self) -> (r: &OBB) {
        &self.obb
    }
}

} // verus!
