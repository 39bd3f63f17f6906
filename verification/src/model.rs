//! Mesh data.
//!
//! A vertex buffer holds mesh points and can carry them through a
//! transformer; an index buffer maps element slots to vertex indices; a mesh
//! resolves a vertex through both.

use vstd::prelude::*;
use vstd::pervasive::VecAdditionalExecFns;
use crate::inertia::Transformer;
use crate::mat::{mat4_point_x_s, mat4_point_y_s, mat4_point_z_s};
use crate::vec3::V3;

verus! {

/// A buffer of mesh vertices.
pub struct VertexBuffer {
    pub vertices: Vec<V3>,
}

impl VertexBuffer {
    /// Every vertex is inside the transformable working range.
    pub open spec fn wf(self) -> bool {
        forall|i: int|
            0 <= i < self.vertices@.len() ==> (#[trigger] self.vertices@[i]).in_lim(0x10_0000_0000)
    }

    /// A buffer over the given vertices.
    pub fn new(vertices: Vec<V3>) -> (r: VertexBuffer)
        ensures
            r.vertices@ == vertices@,
    {
        VertexBuffer { vertices }
    }

    /// The number of vertices in the buffer.
    pub fn len(&self) -> (r: usize)
        ensures
            r == self.vertices@.len(),
    {
        self.vertices.len()
    }

    /// The vertex stored at slot `idx`.
    pub fn at(&self, idx: usize) -> (r: &V3)
        requires
            idx < self.vertices@.len(),
        ensures
            *r == self.vertices@[idx as int],
    {
        &self.vertices[idx]
    }

    /// A copy of the buffer with every vertex carried into the world frame
    /// of the given transformer.
    pub fn transformed(&self, transform: &Transformer) -> (r: VertexBuffer)
        requires
            transform.wf(),
            self.wf(),
        ensures
            r.vertices@.len() == self.vertices@.len(),
            forall|i: int|
                0 <= i < self.vertices@.len() ==> (#[trigger] r.vertices@[i]).x
                    == mat4_point_x_s(transform.mat, self.vertices@[i]) && r.vertices@[i].y
                    == mat4_point_y_s(transform.mat, self.vertices@[i]) && r.vertices@[i].z
                    == mat4_point_z_s(transform.mat, self.vertices@[i]),
    {
        let mut out: Vec<V3> = Vec::with_capacity(self.vertices.len());
        let mut i: usize = 0;
        while i < self.vertices.len()
            invariant
                transform.wf(),
                self.wf(),
                i <= self.vertices@.len(),
                out@.len() == i,
                forall|k: int|
                    0 <= k < i ==> (#[trigger] out@[k]).x == mat4_point_x_s(
                        transform.mat,
                        self.vertices@[k],
                    ) && out@[k].y == mat4_point_y_s(transform.mat, self.vertices@[k]) && out@[k].z
                        == mat4_point_z_s(transform.mat, self.vertices@[k]),
            decreases self.vertices@.len() - i,
        {
            assert(self.vertices@[i as int].in_lim(0x10_0000_0000));
            let p = transform.trafo_point(&self.vertices[i]);
            out.push(p);
            i += 1;
        }
        VertexBuffer { vertices: out }
    }

    /// Carries every vertex of the buffer into the world frame in place.
    pub fn transform_mut(&mut self, transform: &Transformer)
        requires
            transform.wf(),
            old(self).wf(),
        ensures
            final(self).vertices@.len() == old(self).vertices@.len(),
            forall|i: int|
                0 <= i < old(self).vertices@.len() ==> (#[trigger] final(self).vertices@[i]).x
                    == mat4_point_x_s(transform.mat, old(self).vertices@[i]) && final(self).vertices@[i].y
                    == mat4_point_y_s(transform.mat, old(self).vertices@[i]) && final(self).vertices@[i].z
                    == mat4_point_z_s(transform.mat, old(self).vertices@[i]),
    {
        let n = self.vertices.len();
        let mut i: usize = 0;
        while i < n
            invariant
                transform.wf(),
                old(self).wf(),
                n == old(self).vertices@.len(),
                self.vertices@.len() == n,
                i <= n,
                forall|k: int| i <= k < n ==> self.vertices@[k] == old(self).vertices@[k],
                forall|k: int|
                    0 <= k < i ==> (#[trigger] self.vertices@[k]).x == mat4_point_x_s(
                        transform.mat,
                        old(self).vertices@[k],
                    ) && self.vertices@[k].y == mat4_point_y_s(
                        transform.mat,
                        old(self).vertices@[k],
                    ) && self.vertices@[k].z == mat4_point_z_s(
                        transform.mat,
                        old(self).vertices@[k],
                    ),
            decreases n - i,
        {
            assert(self.vertices@[i as int] == old(self).vertices@[i as int]);
            assert(old(self).vertices@[i as int].in_lim(0x10_0000_0000));
            let p = transform.trafo_point(&self.vertices[i]);
            self.vertices.set(i, p);
            i += 1;
        }
    }
}

/// A buffer of vertex indices.
pub struct IndexBuffer {
    pub indices: Vec<usize>,
}

impl IndexBuffer {
    /// A buffer over the given indices.
    pub fn new(indices: Vec<usize>) -> (r: IndexBuffer)
        ensures
            r.indices@ == indices@,
    {
        IndexBuffer { indices }
    }

    /// The number of indices in the buffer.
    pub fn len(&self) -> (r: usize)
        ensures
            r == self.indices@.len(),
    {
        self.indices.len()
    }

    /// The index stored at slot `idx`.
    pub fn at(&self, idx: usize) -> (r: usize)
        requires
            idx < self.indices@.len(),
        ensures
            r == self.indices@[idx as int],
    {
        self.indices[idx]
    }
}

/// A mesh: its vertices and the index buffer that resolves element slots to
/// them.
pub struct PhysicsMesh {
    pub vbo: VertexBuffer,
    pub ibo: IndexBuffer,
}

impl PhysicsMesh {
    /// Every index points into the vertex buffer.
    pub open spec fn wf(self) -> bool {
        forall|i: int|
            0 <= i < self.ibo.indices@.len() ==> (#[trigger] self.ibo.indices@[i])
                < self.vbo.vertices@.len()
    }

    /// Returns the vertex the index at slot `idx` points at: `vbo[ibo[idx]]`.
    pub fn vertex(&self, idx: usize) -> (r: &V3)
        requires
            self.wf(),
            idx < self.ibo.indices@.len(),
        ensures
            *r == self.vbo.vertices@[self.ibo.indices@[idx as int] as int],
    {
        let vi = self.ibo.at(idx);
        self.vbo.at(vi)
    }
}

} // verus!
