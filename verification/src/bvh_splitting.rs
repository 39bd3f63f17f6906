//! Split strategies for the BVH build.
//!
//! All four strategies score candidate planes with the surface-area heuristic
//! (`BVH::eval_sah`) and propose the cheapest one; they differ in which
//! candidates they try. A strategy that finds no usable plane reports
//! `COST_MAX`, which makes the build keep the node as a leaf.

use vstd::prelude::*;
use crate::aabb::{AABB, AABB_INF, aabb_union, aabb_area_s};
use crate::bvh::{BVH, BVHElement, BVHSplit, BVHSplitting, COST_MAX, eval_sah_s, v3_axis, v3_axis_s};

verus! {

/// The least centroid coordinate along `axis` over `count` elements from
/// `first`.
pub open spec fn range_axis_min<E: BVHElement>(els: Seq<E>, first: int, count: int, axis: int) -> i64
    decreases count,
{
    let last = v3_axis_s(els[first + count - 1].centroid_s(), axis);
    if count <= 1 {
        last
    } else {
        let prev = range_axis_min(els, first, count - 1, axis);
        if last < prev {
            last
        } else {
            prev
        }
    }
}

/// The greatest centroid coordinate along `axis` over `count` elements from
/// `first`.
pub open spec fn range_axis_max<E: BVHElement>(els: Seq<E>, first: int, count: int, axis: int) -> i64
    decreases count,
{
    let last = v3_axis_s(els[first + count - 1].centroid_s(), axis);
    if count <= 1 {
        last
    } else {
        let prev = range_axis_max(els, first, count - 1, axis);
        if last > prev {
            last
        } else {
            prev
        }
    }
}

/// The least and greatest centroid coordinate along `axis` over the leaf's
/// range, which must not be empty.
fn axis_bounds<E: BVHElement>(bvh: &BVH<E>, node_id: usize, axis: usize) -> (r: (i64, i64))
    requires
        bvh.storage_wf(),
        bvh.elems_wf(),
        node_id < bvh.num_nodes_in_use(),
        bvh.nodes()[node_id as int].num_prims > 0,
        bvh.node_ok(node_id as int),
        axis < 3,
    ensures
        r.0 == range_axis_min(
            bvh.els(),
            bvh.rng(node_id as int).0,
            bvh.rng(node_id as int).1,
            axis as int,
        ),
        r.1 == range_axis_max(
            bvh.els(),
            bvh.rng(node_id as int).0,
            bvh.rng(node_id as int).1,
            axis as int,
        ),
        r.0 <= r.1,
        -AABB_INF <= r.0,
        r.1 <= AABB_INF,
        forall|j: int|
            bvh.in_rng(node_id as int, j) ==> r.0 <= v3_axis_s(
                (#[trigger] bvh.els()[j]).centroid_s(),
                axis as int,
            ) <= r.1,
{
    let first = bvh.pool.at(node_id).left_first;
    let count = bvh.pool.at(node_id).num_prims;
    assert(bvh.els()[first as int].el_wf());
    proof {
        bvh.els()[first as int].lemma_el_wf();
    }
    let c0 = bvh.elements.at(first).centroid();
    let v0 = v3_axis(&c0, axis);
    let mut bounds_min = v0;
    let mut bounds_max = v0;
    let mut i: usize = 1;
    while i < count
        invariant
            bvh.storage_wf(),
            bvh.elems_wf(),
            node_id < bvh.num_nodes_in_use(),
            bvh.node_ok(node_id as int),
            axis < 3,
            first == bvh.rng(node_id as int).0,
            count == bvh.rng(node_id as int).1,
            first + count <= bvh.els().len(),
            1 <= i <= count,
            bounds_min <= bounds_max,
            -AABB_INF <= bounds_min,
            bounds_max <= AABB_INF,
            bounds_min == range_axis_min(bvh.els(), first as int, i as int, axis as int),
            bounds_max == range_axis_max(bvh.els(), first as int, i as int, axis as int),
            forall|j: int|
                first <= j < first + i ==> bounds_min <= v3_axis_s(
                    (#[trigger] bvh.els()[j]).centroid_s(),
                    axis as int,
                ) <= bounds_max,
        decreases count - i,
    {
        assert(bvh.els()[first + i].el_wf());
        proof {
            bvh.els()[first + i].lemma_el_wf();
        }
        let c = bvh.elements.at(first + i).centroid();
        let v = v3_axis(&c, axis);
        if v < bounds_min {
            bounds_min = v;
        }
        if v > bounds_max {
            bounds_max = v;
        }
        i += 1;
    }
    (bounds_min, bounds_max)
}

/// Exhaustive strategy: every element centroid on every axis is a candidate
/// plane.
pub struct FullSAHSplit {}

impl<E: BVHElement> BVHSplitting<E> for FullSAHSplit {
    /// No element-centroid plane of the range scores below `s.cost`, and a
    /// cost under the ceiling is attained at `s`'s own axis and position.
    open spec fn proposal_ok(els: Seq<E>, first: int, count: int, s: BVHSplit) -> bool {
        &&& (forall|i: int, ax: int|
            0 <= i < count && 0 <= ax < 3 ==> s.cost as int <= eval_sah_s(
                els,
                first,
                count,
                ax,
                #[trigger] v3_axis_s(els[first + i].centroid_s(), ax),
            ))
        &&& ((s.cost as int) < COST_MAX as int ==> exists|i: int, ax: int|
            0 <= i < count && 0 <= ax < 3 && s.pos == #[trigger] v3_axis_s(
                els[first + i].centroid_s(),
                ax,
            ) && s.axis == ax && s.cost as int == eval_sah_s(els, first, count, ax, s.pos))
    }

    /// Scores every element centroid on every axis and returns the cheapest
    /// candidate: no candidate plane scores below the returned cost, and a
    /// returned cost under the ceiling is attained by some candidate.
    fn find(bvh: &BVH<E>, node_id: usize) -> (s: BVHSplit)
        ensures
            forall|i: int, ax: int|
                0 <= i < bvh.rng(node_id as int).1 && 0 <= ax < 3 ==> s.cost as int <= eval_sah_s(
                    bvh.els(),
                    bvh.rng(node_id as int).0,
                    bvh.rng(node_id as int).1,
                    ax,
                    #[trigger] v3_axis_s(bvh.els()[bvh.rng(node_id as int).0 + i].centroid_s(), ax),
                ),
            (s.cost as int) < COST_MAX as int ==> exists|i: int, ax: int|
                0 <= i < bvh.rng(node_id as int).1 && 0 <= ax < 3 && s.pos == #[trigger] v3_axis_s(
                    bvh.els()[bvh.rng(node_id as int).0 + i].centroid_s(),
                    ax,
                ) && s.axis == ax && s.cost as int == eval_sah_s(
                    bvh.els(),
                    bvh.rng(node_id as int).0,
                    bvh.rng(node_id as int).1,
                    ax,
                    s.pos,
                ),
    {
        let first = bvh.pool.at(node_id).left_first;
        let count = bvh.pool.at(node_id).num_prims;
        let mut best_cost: i128 = COST_MAX;
        let mut split_pos: i64 = 0;
        let mut best_axis: usize = 0;
        let mut i: usize = 0;
        while i < count
            invariant
                bvh.storage_wf(),
                bvh.elems_wf(),
                node_id < bvh.num_nodes_in_use(),
                bvh.nodes()[node_id as int].num_prims > 0,
                bvh.node_ok(node_id as int),
                first == bvh.rng(node_id as int).0,
                count == bvh.rng(node_id as int).1,
                first + count <= bvh.els().len(),
                i <= count,
                best_axis < 3,
                best_cost <= COST_MAX,
                forall|j: int, ax: int|
                    0 <= j < i && 0 <= ax < 3 ==> best_cost as int <= eval_sah_s(
                        bvh.els(),
                        first as int,
                        count as int,
                        ax,
                        #[trigger] v3_axis_s(bvh.els()[first + j].centroid_s(), ax),
                    ),
                (best_cost as int) < COST_MAX as int ==> exists|j: int, ax: int|
                    0 <= j < count && 0 <= ax < 3 && split_pos == #[trigger] v3_axis_s(
                        bvh.els()[first + j].centroid_s(),
                        ax,
                    ) && best_axis == ax && best_cost as int == eval_sah_s(
                        bvh.els(),
                        first as int,
                        count as int,
                        ax,
                        split_pos,
                    ),
            decreases count - i,
        {
            assert(bvh.els()[first + i].el_wf());
            let c = bvh.elements.at(first + i).centroid();
            let mut axis: usize = 0;
            while axis < 3
                invariant
                    bvh.storage_wf(),
                    bvh.elems_wf(),
                    node_id < bvh.num_nodes_in_use(),
                    bvh.nodes()[node_id as int].num_prims > 0,
                    bvh.node_ok(node_id as int),
                    first == bvh.rng(node_id as int).0,
                    count == bvh.rng(node_id as int).1,
                    first + count <= bvh.els().len(),
                    i < count,
                    c == bvh.els()[first + i].centroid_s(),
                    axis <= 3,
                    best_axis < 3,
                    best_cost <= COST_MAX,
                    forall|j: int, ax: int|
                        0 <= j < i && 0 <= ax < 3 ==> best_cost as int <= eval_sah_s(
                            bvh.els(),
                            first as int,
                            count as int,
                            ax,
                            #[trigger] v3_axis_s(bvh.els()[first + j].centroid_s(), ax),
                        ),
                    forall|ax: int|
                        0 <= ax < axis ==> best_cost as int <= eval_sah_s(
                            bvh.els(),
                            first as int,
                            count as int,
                            ax,
                            #[trigger] v3_axis_s(bvh.els()[first + i].centroid_s(), ax),
                        ),
                    (best_cost as int) < COST_MAX as int ==> exists|j: int, ax: int|
                        0 <= j < count && 0 <= ax < 3 && split_pos == #[trigger] v3_axis_s(
                            bvh.els()[first + j].centroid_s(),
                            ax,
                        ) && best_axis == ax && best_cost as int == eval_sah_s(
                            bvh.els(),
                            first as int,
                            count as int,
                            ax,
                            split_pos,
                        ),
                decreases 3 - axis,
            {
                let candidate_pos = v3_axis(&c, axis);
                let cost = bvh.eval_sah(node_id, axis, candidate_pos);
                if cost < best_cost {
                    split_pos = candidate_pos;
                    best_axis = axis;
                    best_cost = cost;
                }
                axis += 1;
            }
            i += 1;
        }
        BVHSplit { cost: best_cost, pos: split_pos, axis: best_axis }
    }
}

/// One candidate per axis: the midpoint of the centroid bounds.
pub struct MidpointSAHSplit {}

impl<E: BVHElement> BVHSplitting<E> for MidpointSAHSplit {
    /// No centroid-bounds midpoint plane of a non-degenerate axis scores
    /// below `s.cost`, and a cost under the ceiling is attained at `s`'s own
    /// axis and position.
    open spec fn proposal_ok(els: Seq<E>, first: int, count: int, s: BVHSplit) -> bool {
        &&& (forall|ax: int|
            0 <= ax < 3 && #[trigger] range_axis_min(els, first, count, ax) != range_axis_max(
                els,
                first,
                count,
                ax,
            ) ==> s.cost as int <= eval_sah_s(
                els,
                first,
                count,
                ax,
                crate::fx::tdiv(
                    range_axis_min(els, first, count, ax) + range_axis_max(els, first, count, ax),
                    2,
                ) as i64,
            ))
        &&& ((s.cost as int) < COST_MAX as int ==> exists|ax: int|
            0 <= ax < 3 && s.axis == ax && #[trigger] range_axis_min(els, first, count, ax)
                != range_axis_max(els, first, count, ax) && s.pos as int == crate::fx::tdiv(
                range_axis_min(els, first, count, ax) + range_axis_max(els, first, count, ax),
                2,
            ) && s.cost as int == eval_sah_s(els, first, count, ax, s.pos))
    }

    /// Scores one candidate per axis — the midpoint of the centroid bounds —
    /// skipping degenerate axes, and returns the cheapest: no candidate
    /// scores below the returned cost.
    fn find(bvh: &BVH<E>, node_id: usize) -> (s: BVHSplit)
        ensures
            forall|ax: int|
                0 <= ax < 3 && #[trigger] range_axis_min(
                    bvh.els(),
                    bvh.rng(node_id as int).0,
                    bvh.rng(node_id as int).1,
                    ax,
                ) != range_axis_max(
                    bvh.els(),
                    bvh.rng(node_id as int).0,
                    bvh.rng(node_id as int).1,
                    ax,
                ) ==> s.cost as int <= eval_sah_s(
                    bvh.els(),
                    bvh.rng(node_id as int).0,
                    bvh.rng(node_id as int).1,
                    ax,
                    crate::fx::tdiv(
                        range_axis_min(
                            bvh.els(),
                            bvh.rng(node_id as int).0,
                            bvh.rng(node_id as int).1,
                            ax,
                        ) + range_axis_max(
                            bvh.els(),
                            bvh.rng(node_id as int).0,
                            bvh.rng(node_id as int).1,
                            ax,
                        ),
                        2,
                    ) as i64,
                ),
            (s.cost as int) < COST_MAX as int ==> exists|ax: int|
                0 <= ax < 3 && s.axis == ax && #[trigger] range_axis_min(
                    bvh.els(),
                    bvh.rng(node_id as int).0,
                    bvh.rng(node_id as int).1,
                    ax,
                ) != range_axis_max(
                    bvh.els(),
                    bvh.rng(node_id as int).0,
                    bvh.rng(node_id as int).1,
                    ax,
                ) && s.pos as int == crate::fx::tdiv(
                    range_axis_min(
                        bvh.els(),
                        bvh.rng(node_id as int).0,
                        bvh.rng(node_id as int).1,
                        ax,
                    ) + range_axis_max(
                        bvh.els(),
                        bvh.rng(node_id as int).0,
                        bvh.rng(node_id as int).1,
                        ax,
                    ),
                    2,
                ) && s.cost as int == eval_sah_s(
                    bvh.els(),
                    bvh.rng(node_id as int).0,
                    bvh.rng(node_id as int).1,
                    ax,
                    s.pos,
                ),
    {
        let mut best_cost: i128 = COST_MAX;
        let mut split_pos: i64 = 0;
        let mut best_axis: usize = 0;
        let mut axis: usize = 0;
        while axis < 3
            invariant
                bvh.storage_wf(),
                bvh.elems_wf(),
                node_id < bvh.num_nodes_in_use(),
                bvh.nodes()[node_id as int].num_prims > 0,
                bvh.node_ok(node_id as int),
                axis <= 3,
                best_axis < 3,
                forall|ax: int|
                    0 <= ax < axis && #[trigger] range_axis_min(
                        bvh.els(),
                        bvh.rng(node_id as int).0,
                        bvh.rng(node_id as int).1,
                        ax,
                    ) != range_axis_max(
                        bvh.els(),
                        bvh.rng(node_id as int).0,
                        bvh.rng(node_id as int).1,
                        ax,
                    ) ==> best_cost as int <= eval_sah_s(
                        bvh.els(),
                        bvh.rng(node_id as int).0,
                        bvh.rng(node_id as int).1,
                        ax,
                        crate::fx::tdiv(
                            range_axis_min(
                                bvh.els(),
                                bvh.rng(node_id as int).0,
                                bvh.rng(node_id as int).1,
                                ax,
                            ) + range_axis_max(
                                bvh.els(),
                                bvh.rng(node_id as int).0,
                                bvh.rng(node_id as int).1,
                                ax,
                            ),
                            2,
                        ) as i64,
                    ),
                (best_cost as int) < COST_MAX as int ==> exists|ax: int|
                    0 <= ax < 3 && best_axis as int == ax && #[trigger] range_axis_min(
                        bvh.els(),
                        bvh.rng(node_id as int).0,
                        bvh.rng(node_id as int).1,
                        ax,
                    ) != range_axis_max(
                        bvh.els(),
                        bvh.rng(node_id as int).0,
                        bvh.rng(node_id as int).1,
                        ax,
                    ) && split_pos as int == crate::fx::tdiv(
                        range_axis_min(
                            bvh.els(),
                            bvh.rng(node_id as int).0,
                            bvh.rng(node_id as int).1,
                            ax,
                        ) + range_axis_max(
                            bvh.els(),
                            bvh.rng(node_id as int).0,
                            bvh.rng(node_id as int).1,
                            ax,
                        ),
                        2,
                    ) && best_cost as int == eval_sah_s(
                        bvh.els(),
                        bvh.rng(node_id as int).0,
                        bvh.rng(node_id as int).1,
                        ax,
                        split_pos,
                    ),
            decreases 3 - axis,
        {
            let (bounds_min, bounds_max) = axis_bounds(bvh, node_id, axis);
            if bounds_min != bounds_max {
                let candidate_pos = crate::fx::half64(bounds_min + bounds_max);
                let cost = bvh.eval_sah(node_id, axis, candidate_pos);
                if cost < best_cost {
                    split_pos = candidate_pos;
                    best_axis = axis;
                    best_cost = cost;
                }
            }
            axis += 1;
        }
        BVHSplit { cost: best_cost, pos: split_pos, axis: best_axis }
    }
}

/// `NUM_PLANES - 1` equispaced candidate planes per axis between the centroid
/// bounds.
pub struct PartialSAHSplit<const NUM_PLANES: usize> {}

impl<E: BVHElement, const NUM_PLANES: usize> BVHSplitting<E> for PartialSAHSplit<NUM_PLANES> {
    /// With a usable plane count, no equispaced plane of a non-degenerate
    /// axis scores below `s.cost`, and a cost under the ceiling is attained
    /// at `s`'s own axis and position.
    open spec fn proposal_ok(els: Seq<E>, first: int, count: int, s: BVHSplit) -> bool {
        &&& (2 <= NUM_PLANES <= 0x10000 ==> forall|ax: int, i: int|
            0 <= ax < 3 && 1 <= i < NUM_PLANES && #[trigger] range_axis_min(els, first, count, ax)
                != range_axis_max(els, first, count, ax) ==> s.cost as int <= eval_sah_s(
                els,
                first,
                count,
                ax,
                plane_pos(
                    range_axis_min(els, first, count, ax),
                    range_axis_max(els, first, count, ax),
                    NUM_PLANES as int,
                    #[trigger] (i + 0),
                ),
            ))
        &&& (2 <= NUM_PLANES <= 0x10000 && (s.cost as int) < COST_MAX as int ==> exists|
            ax: int,
            i: int,
        |
            0 <= ax < 3 && 1 <= i < NUM_PLANES && s.axis == ax && #[trigger] range_axis_min(
                els,
                first,
                count,
                ax,
            ) != range_axis_max(els, first, count, ax) && s.pos == plane_pos(
                range_axis_min(els, first, count, ax),
                range_axis_max(els, first, count, ax),
                NUM_PLANES as int,
                #[trigger] (i + 0),
            ) && s.cost as int == eval_sah_s(els, first, count, ax, s.pos))
    }

    /// Scores the equispaced planes between the centroid bounds of every
    /// non-degenerate axis and returns the cheapest: no candidate plane
    /// scores below the returned cost.
    fn find(bvh: &BVH<E>, node_id: usize) -> (s: BVHSplit)
        ensures
            2 <= NUM_PLANES <= 0x10000 ==> forall|ax: int, i: int|
                0 <= ax < 3 && 1 <= i < NUM_PLANES && #[trigger] range_axis_min(
                    bvh.els(),
                    bvh.rng(node_id as int).0,
                    bvh.rng(node_id as int).1,
                    ax,
                ) != range_axis_max(
                    bvh.els(),
                    bvh.rng(node_id as int).0,
                    bvh.rng(node_id as int).1,
                    ax,
                ) ==> s.cost as int <= eval_sah_s(
                    bvh.els(),
                    bvh.rng(node_id as int).0,
                    bvh.rng(node_id as int).1,
                    ax,
                    plane_pos(
                        range_axis_min(
                            bvh.els(),
                            bvh.rng(node_id as int).0,
                            bvh.rng(node_id as int).1,
                            ax,
                        ),
                        range_axis_max(
                            bvh.els(),
                            bvh.rng(node_id as int).0,
                            bvh.rng(node_id as int).1,
                            ax,
                        ),
                        NUM_PLANES as int,
                        #[trigger] (i + 0),
                    ),
                ),
            2 <= NUM_PLANES <= 0x10000 && (s.cost as int) < COST_MAX as int ==> exists|
                ax: int,
                i: int,
            |
                0 <= ax < 3 && 1 <= i < NUM_PLANES && s.axis == ax && #[trigger] range_axis_min(
                    bvh.els(),
                    bvh.rng(node_id as int).0,
                    bvh.rng(node_id as int).1,
                    ax,
                ) != range_axis_max(
                    bvh.els(),
                    bvh.rng(node_id as int).0,
                    bvh.rng(node_id as int).1,
                    ax,
                ) && s.pos == plane_pos(
                    range_axis_min(
                        bvh.els(),
                        bvh.rng(node_id as int).0,
                        bvh.rng(node_id as int).1,
                        ax,
                    ),
                    range_axis_max(
                        bvh.els(),
                        bvh.rng(node_id as int).0,
                        bvh.rng(node_id as int).1,
                        ax,
                    ),
                    NUM_PLANES as int,
                    #[trigger] (i + 0),
                ) && s.cost as int == eval_sah_s(
                    bvh.els(),
                    bvh.rng(node_id as int).0,
                    bvh.rng(node_id as int).1,
                    ax,
                    s.pos,
                ),
    {
        let mut best_cost: i128 = COST_MAX;
        let mut split_pos: i64 = 0;
        let mut best_axis: usize = 0;
        if NUM_PLANES < 2 || NUM_PLANES > 0x10000 {
            return BVHSplit { cost: best_cost, pos: split_pos, axis: best_axis };
        }
        let mut axis: usize = 0;
        while axis < 3
            invariant
                bvh.storage_wf(),
                bvh.elems_wf(),
                node_id < bvh.num_nodes_in_use(),
                bvh.nodes()[node_id as int].num_prims > 0,
                bvh.node_ok(node_id as int),
                2 <= NUM_PLANES <= 0x10000,
                axis <= 3,
                best_axis < 3,
                forall|ax: int, i: int|
                    0 <= ax < axis && 1 <= i < NUM_PLANES && #[trigger] range_axis_min(
                        bvh.els(),
                        bvh.rng(node_id as int).0,
                        bvh.rng(node_id as int).1,
                        ax,
                    ) != range_axis_max(
                        bvh.els(),
                        bvh.rng(node_id as int).0,
                        bvh.rng(node_id as int).1,
                        ax,
                    ) ==> best_cost as int <= eval_sah_s(
                        bvh.els(),
                        bvh.rng(node_id as int).0,
                        bvh.rng(node_id as int).1,
                        ax,
                        plane_pos(
                            range_axis_min(
                                bvh.els(),
                                bvh.rng(node_id as int).0,
                                bvh.rng(node_id as int).1,
                                ax,
                            ),
                            range_axis_max(
                                bvh.els(),
                                bvh.rng(node_id as int).0,
                                bvh.rng(node_id as int).1,
                                ax,
                            ),
                            NUM_PLANES as int,
                            #[trigger] (i + 0),
                        ),
                    ),
                2 <= NUM_PLANES <= 0x10000 && (best_cost as int) < COST_MAX as int ==> exists|
                    ax: int,
                    i: int,
                |
                    0 <= ax < 3 && 1 <= i < NUM_PLANES && best_axis as int == ax && #[trigger] range_axis_min(
                        bvh.els(),
                        bvh.rng(node_id as int).0,
                        bvh.rng(node_id as int).1,
                        ax,
                    ) != range_axis_max(
                        bvh.els(),
                        bvh.rng(node_id as int).0,
                        bvh.rng(node_id as int).1,
                        ax,
                    ) && split_pos == plane_pos(
                        range_axis_min(
                            bvh.els(),
                            bvh.rng(node_id as int).0,
                            bvh.rng(node_id as int).1,
                            ax,
                        ),
                        range_axis_max(
                            bvh.els(),
                            bvh.rng(node_id as int).0,
                            bvh.rng(node_id as int).1,
                            ax,
                        ),
                        NUM_PLANES as int,
                        #[trigger] (i + 0),
                    ) && best_cost as int == eval_sah_s(
                        bvh.els(),
                        bvh.rng(node_id as int).0,
                        bvh.rng(node_id as int).1,
                        ax,
                        split_pos,
                    ),
            decreases 3 - axis,
        {
            let (bounds_min, bounds_max) = axis_bounds(bvh, node_id, axis);
            if bounds_min != bounds_max {
                let range = bounds_max - bounds_min;
                let scale = range / (NUM_PLANES as i64);
                let mut i: usize = 1;
                while i < NUM_PLANES
                    invariant
                        bvh.storage_wf(),
                        bvh.elems_wf(),
                        node_id < bvh.num_nodes_in_use(),
                        bvh.nodes()[node_id as int].num_prims > 0,
                        bvh.node_ok(node_id as int),
                        2 <= NUM_PLANES <= 0x10000,
                        axis < 3,
                        best_axis < 3,
                        1 <= i <= NUM_PLANES,
                        0 <= range <= 2 * AABB_INF,
                        range == bounds_max - bounds_min,
                        scale == range / (NUM_PLANES as i64),
                        bounds_min == range_axis_min(
                            bvh.els(),
                            bvh.rng(node_id as int).0,
                            bvh.rng(node_id as int).1,
                            axis as int,
                        ),
                        bounds_max == range_axis_max(
                            bvh.els(),
                            bvh.rng(node_id as int).0,
                            bvh.rng(node_id as int).1,
                            axis as int,
                        ),
                        bounds_min < bounds_max,
                        -AABB_INF <= bounds_min,
                        bounds_min + range <= AABB_INF,
                        forall|ax: int, k: int|
                            0 <= ax < axis && 1 <= k < NUM_PLANES && #[trigger] range_axis_min(
                                bvh.els(),
                                bvh.rng(node_id as int).0,
                                bvh.rng(node_id as int).1,
                                ax,
                            ) != range_axis_max(
                                bvh.els(),
                                bvh.rng(node_id as int).0,
                                bvh.rng(node_id as int).1,
                                ax,
                            ) ==> best_cost as int <= eval_sah_s(
                                bvh.els(),
                                bvh.rng(node_id as int).0,
                                bvh.rng(node_id as int).1,
                                ax,
                                plane_pos(
                                    range_axis_min(
                                        bvh.els(),
                                        bvh.rng(node_id as int).0,
                                        bvh.rng(node_id as int).1,
                                        ax,
                                    ),
                                    range_axis_max(
                                        bvh.els(),
                                        bvh.rng(node_id as int).0,
                                        bvh.rng(node_id as int).1,
                                        ax,
                                    ),
                                    NUM_PLANES as int,
                                    #[trigger] (k + 0),
                                ),
                            ),
                        forall|k: int|
                            1 <= k < i ==> best_cost as int <= eval_sah_s(
                                bvh.els(),
                                bvh.rng(node_id as int).0,
                                bvh.rng(node_id as int).1,
                                axis as int,
                                plane_pos(
                                    bounds_min,
                                    bounds_max,
                                    NUM_PLANES as int,
                                    #[trigger] (k + 0),
                                ),
                            ),
                    2 <= NUM_PLANES <= 0x10000 && (best_cost as int) < COST_MAX as int ==> exists|
                        ax: int,
                        kk: int,
                    |
                        0 <= ax < 3 && 1 <= kk < NUM_PLANES && best_axis as int == ax && #[trigger] range_axis_min(
                            bvh.els(),
                            bvh.rng(node_id as int).0,
                            bvh.rng(node_id as int).1,
                            ax,
                        ) != range_axis_max(
                            bvh.els(),
                            bvh.rng(node_id as int).0,
                            bvh.rng(node_id as int).1,
                            ax,
                        ) && split_pos == plane_pos(
                            range_axis_min(
                                bvh.els(),
                                bvh.rng(node_id as int).0,
                                bvh.rng(node_id as int).1,
                                ax,
                            ),
                            range_axis_max(
                                bvh.els(),
                                bvh.rng(node_id as int).0,
                                bvh.rng(node_id as int).1,
                                ax,
                            ),
                            NUM_PLANES as int,
                            #[trigger] (kk + 0),
                        ) && best_cost as int == eval_sah_s(
                            bvh.els(),
                            bvh.rng(node_id as int).0,
                            bvh.rng(node_id as int).1,
                            ax,
                            split_pos,
                        ),
                    decreases NUM_PLANES - i,
                {
                    proof {
                        crate::fx::lemma_step_bound(range as int, NUM_PLANES as int, i as int);
                    }
                    let candidate_pos = bounds_min + (i as i64) * scale;
                    proof {
                        assert(candidate_pos == plane_pos(
                            bounds_min,
                            bounds_max,
                            NUM_PLANES as int,
                            i as int,
                        ));
                    }
                    let cost = bvh.eval_sah(node_id, axis, candidate_pos);
                    if cost < best_cost {
                        split_pos = candidate_pos;
                        best_axis = axis;
                        best_cost = cost;
                    }
                    proof {
                        assert(best_cost as int <= eval_sah_s(
                            bvh.els(),
                            bvh.rng(node_id as int).0,
                            bvh.rng(node_id as int).1,
                            axis as int,
                            plane_pos(bounds_min, bounds_max, NUM_PLANES as int, (i as int) + 0),
                        ));
                    }
                    i += 1;
                }
            }
            axis += 1;
        }
        BVHSplit { pos: split_pos, axis: best_axis, cost: best_cost }
    }
}

/// The `i`-th of the equispaced candidate planes between two bounds.
pub open spec fn plane_pos(bmin: i64, bmax: i64, planes: int, i: int) -> i64 {
    (bmin + i * ((bmax - bmin) as int / planes)) as i64
}

/// The empty box value the bin accumulators start from.
pub open spec fn bin_empty_box() -> AABB {
    crate::bvh::empty_aabb()
}

/// The bin an element coordinate falls into: its offset from the lower bound
/// scaled by the bin count, clamped into the bin range.
pub open spec fn bin_of(c: i64, bmin: i64, bmax: i64, nbins: int) -> int {
    let raw = ((c - bmin) * nbins) / ((bmax - bmin) as int);
    if raw < 0 {
        0
    } else if raw >= nbins {
        nbins - 1
    } else {
        raw
    }
}

/// How many of the first `upto` elements of the range land in bin `b`.
pub open spec fn bin_count_eq<E: BVHElement>(
    els: Seq<E>,
    first: int,
    upto: int,
    axis: int,
    bmin: i64,
    bmax: i64,
    nbins: int,
    b: int,
) -> int
    decreases upto,
{
    if upto <= 0 {
        0
    } else {
        bin_count_eq(els, first, upto - 1, axis, bmin, bmax, nbins, b) + if bin_of(
            v3_axis_s(els[first + upto - 1].centroid_s(), axis),
            bmin,
            bmax,
            nbins,
        ) == b {
            1int
        } else {
            0int
        }
    }
}

/// The box grown around the wraps of the first `upto` elements landing in
/// bin `b`.
pub open spec fn bin_box_eq<E: BVHElement>(
    els: Seq<E>,
    first: int,
    upto: int,
    axis: int,
    bmin: i64,
    bmax: i64,
    nbins: int,
    b: int,
) -> AABB
    decreases upto,
{
    if upto <= 0 {
        bin_empty_box()
    } else {
        let prev = bin_box_eq(els, first, upto - 1, axis, bmin, bmax, nbins, b);
        if bin_of(v3_axis_s(els[first + upto - 1].centroid_s(), axis), bmin, bmax, nbins) == b {
            aabb_union(prev, els[first + upto - 1].wrap_s())
        } else {
            prev
        }
    }
}

/// How many elements land in the bins up to and including plane `q`.
pub open spec fn plane_count_left<E: BVHElement>(
    els: Seq<E>,
    first: int,
    count: int,
    axis: int,
    bmin: i64,
    bmax: i64,
    nbins: int,
    q: int,
) -> int
    decreases q + 1,
{
    if q < 0 {
        0
    } else {
        plane_count_left(els, first, count, axis, bmin, bmax, nbins, q - 1) + bin_count_eq(
            els,
            first,
            count,
            axis,
            bmin,
            bmax,
            nbins,
            q,
        )
    }
}

/// The box around the bins up to and including plane `q`, accumulated in bin
/// order.
pub open spec fn plane_box_left<E: BVHElement>(
    els: Seq<E>,
    first: int,
    count: int,
    axis: int,
    bmin: i64,
    bmax: i64,
    nbins: int,
    q: int,
) -> AABB
    decreases q + 1,
{
    if q < 0 {
        bin_empty_box()
    } else {
        aabb_union(
            plane_box_left(els, first, count, axis, bmin, bmax, nbins, q - 1),
            bin_box_eq(els, first, count, axis, bmin, bmax, nbins, q),
        )
    }
}

/// How many elements land in the bins past plane `q`.
pub open spec fn plane_count_right<E: BVHElement>(
    els: Seq<E>,
    first: int,
    count: int,
    axis: int,
    bmin: i64,
    bmax: i64,
    nbins: int,
    q: int,
) -> int
    decreases nbins - q,
{
    if q >= nbins - 1 {
        0
    } else {
        plane_count_right(els, first, count, axis, bmin, bmax, nbins, q + 1) + bin_count_eq(
            els,
            first,
            count,
            axis,
            bmin,
            bmax,
            nbins,
            q + 1,
        )
    }
}

/// The box around the bins past plane `q`, accumulated from the last bin
/// down.
pub open spec fn plane_box_right<E: BVHElement>(
    els: Seq<E>,
    first: int,
    count: int,
    axis: int,
    bmin: i64,
    bmax: i64,
    nbins: int,
    q: int,
) -> AABB
    decreases nbins - q,
{
    if q >= nbins - 1 {
        bin_empty_box()
    } else {
        aabb_union(
            plane_box_right(els, first, count, axis, bmin, bmax, nbins, q + 1),
            bin_box_eq(els, first, count, axis, bmin, bmax, nbins, q + 1),
        )
    }
}

/// The surface-area-heuristic score of splitting at plane `q`: the elements
/// of each side weighted with the side's box area.
pub open spec fn binned_plane_cost<E: BVHElement>(
    els: Seq<E>,
    first: int,
    count: int,
    axis: int,
    bmin: i64,
    bmax: i64,
    nbins: int,
    q: int,
) -> int {
    plane_count_left(els, first, count, axis, bmin, bmax, nbins, q) * aabb_area_s(
        plane_box_left(els, first, count, axis, bmin, bmax, nbins, q),
    ) + plane_count_right(els, first, count, axis, bmin, bmax, nbins, q) * aabb_area_s(
        plane_box_right(els, first, count, axis, bmin, bmax, nbins, q),
    )
}

/// A bucket of the binned strategy: the box around its members' wraps and
/// their count.
struct Bin {
    aabb: AABB,
    prime_count: usize,
}

/// Buckets the elements into `NUM_BINS` bins per axis and scores the
/// `NUM_BINS - 1` planes between them from prefix and suffix sweeps; the
/// canonical real-time build.
pub struct BinnedSAHSplit<const NUM_BINS: usize> {}

impl<E: BVHElement, const NUM_BINS: usize> BVHSplitting<E> for BinnedSAHSplit<NUM_BINS> {
    /// With a usable bin count, no scored bin plane of a non-degenerate axis
    /// costs below `s.cost`, and a cost under the ceiling is attained at
    /// `s`'s own axis and plane position.
    open spec fn proposal_ok(els: Seq<E>, first: int, count: int, s: BVHSplit) -> bool {
        &&& (2 <= NUM_BINS <= 0x1000 ==> forall|ax: int, q: int|
            0 <= ax < 3 && 0 <= q < NUM_BINS - 1 && #[trigger] range_axis_min(els, first, count, ax)
                != range_axis_max(els, first, count, ax) ==> s.cost as int <= binned_plane_cost(
                els,
                first,
                count,
                ax,
                range_axis_min(els, first, count, ax),
                range_axis_max(els, first, count, ax),
                NUM_BINS as int,
                #[trigger] (q + 0),
            ))
        &&& (2 <= NUM_BINS <= 0x1000 && (s.cost as int) < COST_MAX as int ==> exists|
            ax: int,
            q: int,
        |
            0 <= ax < 3 && 0 <= q < NUM_BINS - 1 && s.axis == ax && #[trigger] range_axis_min(
                els,
                first,
                count,
                ax,
            ) != range_axis_max(els, first, count, ax) && s.pos == plane_pos(
                range_axis_min(els, first, count, ax),
                range_axis_max(els, first, count, ax),
                NUM_BINS as int,
                q + 1,
            ) && s.cost as int == binned_plane_cost(
                els,
                first,
                count,
                ax,
                range_axis_min(els, first, count, ax),
                range_axis_max(els, first, count, ax),
                NUM_BINS as int,
                #[trigger] (q + 0),
            ))
    }

    /// Buckets the elements into `NUM_BINS` bins per non-degenerate axis and
    /// scores the planes between them from prefix and suffix sweeps,
    /// returning the cheapest: no scored plane is cheaper than the returned
    /// cost, and a returned cost under the ceiling is attained at the
    /// returned axis and plane position.
    #[verifier::rlimit(100)]
    #[verifier::spinoff_prover]
    fn find(bvh: &BVH<E>, node_id: usize) -> (s: BVHSplit)
        ensures
            2 <= NUM_BINS <= 0x1000 ==> forall|ax: int, q: int|
                0 <= ax < 3 && 0 <= q < NUM_BINS - 1 && #[trigger] range_axis_min(
                    bvh.els(),
                    bvh.rng(node_id as int).0,
                    bvh.rng(node_id as int).1,
                    ax,
                ) != range_axis_max(
                    bvh.els(),
                    bvh.rng(node_id as int).0,
                    bvh.rng(node_id as int).1,
                    ax,
                ) ==> s.cost as int <= binned_plane_cost(
                    bvh.els(),
                    bvh.rng(node_id as int).0,
                    bvh.rng(node_id as int).1,
                    ax,
                    range_axis_min(
                        bvh.els(),
                        bvh.rng(node_id as int).0,
                        bvh.rng(node_id as int).1,
                        ax,
                    ),
                    range_axis_max(
                        bvh.els(),
                        bvh.rng(node_id as int).0,
                        bvh.rng(node_id as int).1,
                        ax,
                    ),
                    NUM_BINS as int,
                    #[trigger] (q + 0),
                ),
            2 <= NUM_BINS <= 0x1000 && (s.cost as int) < COST_MAX as int ==> exists|
                ax: int,
                q: int,
            |
                0 <= ax < 3 && 0 <= q < NUM_BINS - 1 && s.axis == ax && #[trigger] range_axis_min(
                    bvh.els(),
                    bvh.rng(node_id as int).0,
                    bvh.rng(node_id as int).1,
                    ax,
                ) != range_axis_max(
                    bvh.els(),
                    bvh.rng(node_id as int).0,
                    bvh.rng(node_id as int).1,
                    ax,
                ) && s.pos == plane_pos(
                    range_axis_min(
                        bvh.els(),
                        bvh.rng(node_id as int).0,
                        bvh.rng(node_id as int).1,
                        ax,
                    ),
                    range_axis_max(
                        bvh.els(),
                        bvh.rng(node_id as int).0,
                        bvh.rng(node_id as int).1,
                        ax,
                    ),
                    NUM_BINS as int,
                    q + 1,
                ) && s.cost as int == binned_plane_cost(
                    bvh.els(),
                    bvh.rng(node_id as int).0,
                    bvh.rng(node_id as int).1,
                    ax,
                    range_axis_min(
                        bvh.els(),
                        bvh.rng(node_id as int).0,
                        bvh.rng(node_id as int).1,
                        ax,
                    ),
                    range_axis_max(
                        bvh.els(),
                        bvh.rng(node_id as int).0,
                        bvh.rng(node_id as int).1,
                        ax,
                    ),
                    NUM_BINS as int,
                    #[trigger] (q + 0),
                ),
    {
        let mut best_cost: i128 = COST_MAX;
        let mut split_pos: i64 = 0;
        let mut best_axis: usize = 0;
        if NUM_BINS < 2 || NUM_BINS > 0x1000 {
            return BVHSplit { cost: best_cost, pos: split_pos, axis: best_axis };
        }
        let first = bvh.pool.at(node_id).left_first;
        let count = bvh.pool.at(node_id).num_prims;
        let mut axis: usize = 0;
        while axis < 3
            invariant
                bvh.storage_wf(),
                bvh.elems_wf(),
                node_id < bvh.num_nodes_in_use(),
                bvh.nodes()[node_id as int].num_prims > 0,
                bvh.node_ok(node_id as int),
                first == bvh.rng(node_id as int).0,
                count == bvh.rng(node_id as int).1,
                first + count <= bvh.els().len(),
                count <= crate::bvh::BVH_MAX_ELEMS,
                2 <= NUM_BINS <= 0x1000,
                axis <= 3,
                best_axis < 3,
                best_cost <= COST_MAX,
                forall|ax: int, q: int|
                    0 <= ax < axis && 0 <= q < NUM_BINS - 1 && #[trigger] range_axis_min(
                        bvh.els(),
                        bvh.rng(node_id as int).0,
                        bvh.rng(node_id as int).1,
                        ax,
                    ) != range_axis_max(
                        bvh.els(),
                        bvh.rng(node_id as int).0,
                        bvh.rng(node_id as int).1,
                        ax,
                    ) ==> best_cost as int <= binned_plane_cost(
                        bvh.els(),
                    bvh.rng(node_id as int).0,
                    bvh.rng(node_id as int).1,
                    ax,
                    range_axis_min(
                        bvh.els(),
                        bvh.rng(node_id as int).0,
                        bvh.rng(node_id as int).1,
                        ax,
                    ),
                    range_axis_max(
                        bvh.els(),
                        bvh.rng(node_id as int).0,
                        bvh.rng(node_id as int).1,
                        ax,
                    ),
                    NUM_BINS as int,
                        #[trigger] (q + 0),
                    ),
                (best_cost as int) < COST_MAX as int ==> exists|ax: int, q: int|
                    0 <= ax < 3 && 0 <= q < NUM_BINS - 1 && best_axis as int == ax
                        && #[trigger] range_axis_min(
                        bvh.els(),
                        bvh.rng(node_id as int).0,
                        bvh.rng(node_id as int).1,
                        ax,
                    ) != range_axis_max(
                        bvh.els(),
                        bvh.rng(node_id as int).0,
                        bvh.rng(node_id as int).1,
                        ax,
                    ) && split_pos == plane_pos(
                        range_axis_min(
                            bvh.els(),
                            bvh.rng(node_id as int).0,
                            bvh.rng(node_id as int).1,
                            ax,
                        ),
                        range_axis_max(
                            bvh.els(),
                            bvh.rng(node_id as int).0,
                            bvh.rng(node_id as int).1,
                            ax,
                        ),
                        NUM_BINS as int,
                        q + 1,
                    ) && best_cost as int == binned_plane_cost(
                        bvh.els(),
                    bvh.rng(node_id as int).0,
                    bvh.rng(node_id as int).1,
                    ax,
                    range_axis_min(
                        bvh.els(),
                        bvh.rng(node_id as int).0,
                        bvh.rng(node_id as int).1,
                        ax,
                    ),
                    range_axis_max(
                        bvh.els(),
                        bvh.rng(node_id as int).0,
                        bvh.rng(node_id as int).1,
                        ax,
                    ),
                    NUM_BINS as int,
                        #[trigger] (q + 0),
                    ),
            decreases 3 - axis,
        {
            let (bounds_min, bounds_max) = axis_bounds(bvh, node_id, axis);
            if bounds_min != bounds_max {
                let ghost f = first as int;
                let ghost c = count as int;
                let ghost ax = axis as int;
                let ghost nb = NUM_BINS as int;
                let range = bounds_max - bounds_min;
                // populate the bins
                let mut bins: Vec<Bin> = Vec::with_capacity(NUM_BINS);
                let mut b: usize = 0;
                while b < NUM_BINS
                    invariant
                        bins@.len() == b,
                        b <= NUM_BINS,
                        forall|q: int| 0 <= q < b ==> (#[trigger] bins@[q]).aabb == bin_empty_box(),
                        forall|q: int| 0 <= q < b ==> (#[trigger] bins@[q]).prime_count == 0,
                    decreases NUM_BINS - b,
                {
                    bins.push(Bin { aabb: AABB::new(), prime_count: 0 });
                    b += 1;
                }
                let mut i: usize = 0;
                while i < count
                    invariant
                        bvh.storage_wf(),
                        bvh.elems_wf(),
                        node_id < bvh.num_nodes_in_use(),
                        bvh.node_ok(node_id as int),
                        axis < 3,
                        first == bvh.rng(node_id as int).0,
                        count == bvh.rng(node_id as int).1,
                        first + count <= bvh.els().len(),
                        count <= crate::bvh::BVH_MAX_ELEMS,
                        2 <= NUM_BINS <= 0x1000,
                        i <= count,
                        bins@.len() == NUM_BINS,
                        f == first as int,
                        c == count as int,
                        ax == axis as int,
                        nb == NUM_BINS as int,
                        0 < range <= 2 * AABB_INF,
                        range == bounds_max - bounds_min,
                        bounds_min == range_axis_min(bvh.els(), f, c, ax),
                        bounds_max == range_axis_max(bvh.els(), f, c, ax),
                        -AABB_INF <= bounds_min,
                        bounds_max <= AABB_INF,
                        forall|j: int|
                            bvh.in_rng(node_id as int, j) ==> bounds_min <= v3_axis_s(
                                (#[trigger] bvh.els()[j]).centroid_s(),
                                ax,
                            ) <= bounds_max,
                        forall|q: int| 0 <= q < NUM_BINS ==> (#[trigger] bins@[q]).aabb.wf(),
                        forall|q: int|
                            0 <= q < NUM_BINS ==> (#[trigger] bins@[q]).aabb == bin_box_eq(
                                bvh.els(),
                                f,
                                i as int,
                                ax,
                                bounds_min,
                                bounds_max,
                                nb,
                                q,
                            ),
                        forall|q: int|
                            0 <= q < NUM_BINS ==> 0 <= (#[trigger] bins@[q]).prime_count <= i
                                && bins@[q].prime_count as int == bin_count_eq(
                                bvh.els(),
                                f,
                                i as int,
                                ax,
                                bounds_min,
                                bounds_max,
                                nb,
                                q,
                            ),
                    decreases count - i,
                {
                    assert(bvh.in_rng(node_id as int, first + i));
                    assert(bounds_min <= v3_axis_s(bvh.els()[first + i].centroid_s(), ax)
                        <= bounds_max);
                    assert(bvh.els()[first + i].el_wf());
                    proof {
                        bvh.els()[first + i].lemma_el_wf();
                    }
                    let el = bvh.elements.at(first + i);
                    let cen = el.centroid();
                    let w = el.wrap();
                    let v = v3_axis(&cen, axis);
                    let off: i128 = (v as i128) - (bounds_min as i128);
                    proof {
                        crate::fx::lemma_mul_bounds2(
                            off as int,
                            (2 * AABB_INF) as int,
                            NUM_BINS as int,
                            0x1000,
                        );
                    }
                    proof {
                        assert(off >= 0);
                        assert(off as int == v - bounds_min);
                    }
                    let raw: i128 = (off * (NUM_BINS as i128)) / (range as i128);
                    let bin_idx: usize = if raw < 0 {
                        0
                    } else if raw >= NUM_BINS as i128 {
                        NUM_BINS - 1
                    } else {
                        raw as usize
                    };
                    proof {
                        assert(raw as int == ((v - bounds_min) * nb) / (range as int));
                        assert(bin_idx as int == bin_of(v, bounds_min, bounds_max, nb));
                    }
                    let old_box = bins[bin_idx].aabb;
                    let old_cnt = bins[bin_idx].prime_count;
                    let mut bx = AABB::new();
                    bx.grow_other(&old_box);
                    bx.grow_other(&w);
                    proof {
                        crate::aabb::lemma_aabb_union_wf(old_box, w);
                        assert(aabb_union(crate::bvh::empty_aabb(), old_box) == old_box);
                        assert(bx == aabb_union(old_box, w));
                    }
                    bins.set(bin_idx, Bin { aabb: bx, prime_count: old_cnt + 1 });
                    i += 1;
                }
                // prefix and suffix sweeps over the planes
                let mut left_area: Vec<i128> = Vec::new();
                let mut left_count: Vec<u64> = Vec::new();
                let mut leftbox = AABB::new();
                let mut left_sum: u64 = 0;
                let mut p: usize = 0;
                while p < NUM_BINS - 1
                    invariant
                        2 <= NUM_BINS <= 0x1000,
                        bins@.len() == NUM_BINS,
                        p <= NUM_BINS - 1,
                        f == first as int,
                        c == count as int,
                        ax == axis as int,
                        nb == NUM_BINS as int,
                        left_area@.len() == p,
                        left_count@.len() == p,
                        leftbox == plane_box_left(
                            bvh.els(),
                            f,
                            c,
                            ax,
                            bounds_min,
                            bounds_max,
                            nb,
                            p as int - 1,
                        ),
                        left_sum as int == plane_count_left(
                            bvh.els(),
                            f,
                            c,
                            ax,
                            bounds_min,
                            bounds_max,
                            nb,
                            p as int - 1,
                        ),
                        leftbox.wf(),
                        count <= crate::bvh::BVH_MAX_ELEMS,
                        0 <= left_sum <= p * 0x1000_0000,
                        forall|q: int| 0 <= q < NUM_BINS ==> (#[trigger] bins@[q]).aabb.wf(),
                        forall|q: int|
                            0 <= q < NUM_BINS ==> (#[trigger] bins@[q]).aabb == bin_box_eq(
                                bvh.els(),
                                f,
                                c,
                                ax,
                                bounds_min,
                                bounds_max,
                                nb,
                                q,
                            ),
                        forall|q: int|
                            0 <= q < NUM_BINS ==> 0 <= (#[trigger] bins@[q]).prime_count
                                <= 0x1000_0000 && bins@[q].prime_count as int == bin_count_eq(
                                bvh.els(),
                                f,
                                c,
                                ax,
                                bounds_min,
                                bounds_max,
                                nb,
                                q,
                            ),
                        forall|q: int|
                            0 <= q < p ==> 0 <= #[trigger] left_count@[q] <= (q + 1) * 0x1000_0000
                                && left_count@[q] as int == plane_count_left(
                                bvh.els(),
                                f,
                                c,
                                ax,
                                bounds_min,
                                bounds_max,
                                nb,
                                q,
                            ),
                        forall|q: int|
                            0 <= q < p ==> crate::fx::iabs(#[trigger] left_area@[q] as int) <= 3
                                * (0x200_0000_0000 * 0x200_0000_0000) && left_area@[q] as int
                                == aabb_area_s(
                                plane_box_left(
                                    bvh.els(),
                                    f,
                                    c,
                                    ax,
                                    bounds_min,
                                    bounds_max,
                                    nb,
                                    q,
                                ),
                            ),
                    decreases NUM_BINS - 1 - p,
                {
                    proof {
                        crate::aabb::lemma_aabb_union_wf(leftbox, bins@[p as int].aabb);
                    }
                    left_sum = left_sum + (bins[p].prime_count as u64);
                    leftbox.grow_other(&bins[p].aabb);
                    left_count.push(left_sum);
                    proof {
                        crate::aabb::lemma_area_bound(leftbox);
                    }
                    left_area.push(leftbox.area());
                    p += 1;
                }
                let mut right_area: Vec<i128> = Vec::new();
                let mut right_count: Vec<u64> = Vec::new();
                let mut rightbox = AABB::new();
                let mut right_sum: u64 = 0;
                let mut q: usize = 0;
                // walk the bins from the back; entry `s` of the suffix
                // vectors describes the bins past plane `NUM_BINS - 2 - s`
                while q < NUM_BINS - 1
                    invariant
                        2 <= NUM_BINS <= 0x1000,
                        bins@.len() == NUM_BINS,
                        q <= NUM_BINS - 1,
                        f == first as int,
                        c == count as int,
                        ax == axis as int,
                        nb == NUM_BINS as int,
                        right_area@.len() == q,
                        right_count@.len() == q,
                        rightbox == plane_box_right(
                            bvh.els(),
                            f,
                            c,
                            ax,
                            bounds_min,
                            bounds_max,
                            nb,
                            nb - 1 - q,
                        ),
                        right_sum as int == plane_count_right(
                            bvh.els(),
                            f,
                            c,
                            ax,
                            bounds_min,
                            bounds_max,
                            nb,
                            nb - 1 - q,
                        ),
                        rightbox.wf(),
                        count <= crate::bvh::BVH_MAX_ELEMS,
                        0 <= right_sum <= q * 0x1000_0000,
                        forall|s2: int| 0 <= s2 < NUM_BINS ==> (#[trigger] bins@[s2]).aabb.wf(),
                        forall|s2: int|
                            0 <= s2 < NUM_BINS ==> (#[trigger] bins@[s2]).aabb == bin_box_eq(
                                bvh.els(),
                                f,
                                c,
                                ax,
                                bounds_min,
                                bounds_max,
                                nb,
                                s2,
                            ),
                        forall|s2: int|
                            0 <= s2 < NUM_BINS ==> 0 <= (#[trigger] bins@[s2]).prime_count
                                <= 0x1000_0000 && bins@[s2].prime_count as int == bin_count_eq(
                                bvh.els(),
                                f,
                                c,
                                ax,
                                bounds_min,
                                bounds_max,
                                nb,
                                s2,
                            ),
                        forall|s2: int|
                            0 <= s2 < q ==> 0 <= #[trigger] right_count@[s2] <= (s2 + 1)
                                * 0x1000_0000 && right_count@[s2] as int == plane_count_right(
                                bvh.els(),
                                f,
                                c,
                                ax,
                                bounds_min,
                                bounds_max,
                                nb,
                                nb - 2 - s2,
                            ),
                        forall|s2: int|
                            0 <= s2 < q ==> crate::fx::iabs(#[trigger] right_area@[s2] as int)
                                <= 3 * (0x200_0000_0000 * 0x200_0000_0000) && right_area@[s2] as int
                                == aabb_area_s(
                                plane_box_right(
                                    bvh.els(),
                                    f,
                                    c,
                                    ax,
                                    bounds_min,
                                    bounds_max,
                                    nb,
                                    nb - 2 - s2,
                                ),
                            ),
                    decreases NUM_BINS - 1 - q,
                {
                    proof {
                        crate::aabb::lemma_aabb_union_wf(
                            rightbox,
                            bins@[(NUM_BINS - 1 - q) as int].aabb,
                        );
                    }
                    proof {
                        assert(plane_box_right(
                            bvh.els(),
                            f,
                            c,
                            ax,
                            bounds_min,
                            bounds_max,
                            nb,
                            nb - 2 - q,
                        ) == aabb_union(
                            plane_box_right(
                                bvh.els(),
                                f,
                                c,
                                ax,
                                bounds_min,
                                bounds_max,
                                nb,
                                nb - 1 - q,
                            ),
                            bin_box_eq(bvh.els(), f, c, ax, bounds_min, bounds_max, nb, nb - 1 - q),
                        ));
                        assert(plane_count_right(
                            bvh.els(),
                            f,
                            c,
                            ax,
                            bounds_min,
                            bounds_max,
                            nb,
                            nb - 2 - q,
                        ) == plane_count_right(
                            bvh.els(),
                            f,
                            c,
                            ax,
                            bounds_min,
                            bounds_max,
                            nb,
                            nb - 1 - q,
                        ) + bin_count_eq(
                            bvh.els(),
                            f,
                            c,
                            ax,
                            bounds_min,
                            bounds_max,
                            nb,
                            nb - 1 - q,
                        ));
                    }
                    right_sum = right_sum + (bins[NUM_BINS - 1 - q].prime_count as u64);
                    rightbox.grow_other(&bins[NUM_BINS - 1 - q].aabb);
                    right_count.push(right_sum);
                    proof {
                        crate::aabb::lemma_area_bound(rightbox);
                    }
                    right_area.push(rightbox.area());
                    q += 1;
                }
                // score the planes
                let scale = range / (NUM_BINS as i64);
                let mut pl: usize = 0;
                while pl < NUM_BINS - 1
                    invariant
                        bvh.storage_wf(),
                        bvh.elems_wf(),
                        node_id < bvh.num_nodes_in_use(),
                        bvh.nodes()[node_id as int].num_prims > 0,
                        bvh.node_ok(node_id as int),
                        first == bvh.rng(node_id as int).0,
                        count == bvh.rng(node_id as int).1,
                        count <= crate::bvh::BVH_MAX_ELEMS,
                        axis < 3,
                        best_axis < 3,
                        best_cost <= COST_MAX,
                        2 <= NUM_BINS <= 0x1000,
                        pl <= NUM_BINS - 1,
                        f == first as int,
                        c == count as int,
                        ax == axis as int,
                        nb == NUM_BINS as int,
                        left_area@.len() == NUM_BINS - 1,
                        left_count@.len() == NUM_BINS - 1,
                        right_area@.len() == NUM_BINS - 1,
                        right_count@.len() == NUM_BINS - 1,
                        0 < range <= 2 * AABB_INF,
                        range == bounds_max - bounds_min,
                        bounds_min == range_axis_min(bvh.els(), f, c, ax),
                        bounds_max == range_axis_max(bvh.els(), f, c, ax),
                        scale == range / (NUM_BINS as i64),
                        -AABB_INF <= bounds_min,
                        bounds_min + range <= AABB_INF,
                        forall|s2: int|
                            0 <= s2 < NUM_BINS - 1 ==> 0 <= #[trigger] left_count@[s2]
                                <= 0x100_0000_0000 && left_count@[s2] as int == plane_count_left(
                                bvh.els(),
                                f,
                                c,
                                ax,
                                bounds_min,
                                bounds_max,
                                nb,
                                s2,
                            ),
                        forall|s2: int|
                            0 <= s2 < NUM_BINS - 1 ==> #[trigger] left_area@[s2] as int
                                == aabb_area_s(
                                plane_box_left(
                                    bvh.els(),
                                    f,
                                    c,
                                    ax,
                                    bounds_min,
                                    bounds_max,
                                    nb,
                                    s2,
                                ),
                            ) && crate::fx::iabs(left_area@[s2] as int) <= 3 * (0x200_0000_0000
                                * 0x200_0000_0000),
                        forall|s2: int|
                            0 <= s2 < NUM_BINS - 1 ==> 0 <= #[trigger] right_count@[s2]
                                <= 0x100_0000_0000 && right_count@[s2] as int
                                == plane_count_right(
                                bvh.els(),
                                f,
                                c,
                                ax,
                                bounds_min,
                                bounds_max,
                                nb,
                                nb - 2 - s2,
                            ),
                        forall|s2: int|
                            0 <= s2 < NUM_BINS - 1 ==> #[trigger] right_area@[s2] as int
                                == aabb_area_s(
                                plane_box_right(
                                    bvh.els(),
                                    f,
                                    c,
                                    ax,
                                    bounds_min,
                                    bounds_max,
                                    nb,
                                    nb - 2 - s2,
                                ),
                            ) && crate::fx::iabs(right_area@[s2] as int) <= 3 * (0x200_0000_0000
                                * 0x200_0000_0000),
                        forall|ax2: int, q2: int|
                            0 <= ax2 < axis && 0 <= q2 < NUM_BINS - 1 && #[trigger] range_axis_min(
                                bvh.els(),
                                f,
                                c,
                                ax2,
                            ) != range_axis_max(bvh.els(), f, c, ax2)
                                ==> best_cost as int <= binned_plane_cost(
                                bvh.els(),
                                f,
                                c,
                                ax2,
                                range_axis_min(bvh.els(), f, c, ax2),
                                range_axis_max(bvh.els(), f, c, ax2),
                                nb,
                                #[trigger] (q2 + 0),
                            ),
                        forall|q2: int|
                            0 <= q2 < pl ==> best_cost as int <= binned_plane_cost(
                                bvh.els(),
                                f,
                                c,
                                ax,
                                bounds_min,
                                bounds_max,
                                nb,
                                #[trigger] (q2 + 0),
                            ),
                        (best_cost as int) < COST_MAX as int ==> exists|ax2: int, q2: int|
                            0 <= ax2 < 3 && 0 <= q2 < NUM_BINS - 1 && best_axis as int == ax2
                                && #[trigger] range_axis_min(bvh.els(), f, c, ax2)
                                != range_axis_max(bvh.els(), f, c, ax2) && split_pos == plane_pos(
                                range_axis_min(bvh.els(), f, c, ax2),
                                range_axis_max(bvh.els(), f, c, ax2),
                                nb,
                                q2 + 1,
                            ) && best_cost as int == binned_plane_cost(
                                bvh.els(),
                                f,
                                c,
                                ax2,
                                range_axis_min(bvh.els(), f, c, ax2),
                                range_axis_max(bvh.els(), f, c, ax2),
                                nb,
                                #[trigger] (q2 + 0),
                            ),
                    decreases NUM_BINS - 1 - pl,
                {
                    proof {
                        crate::fx::lemma_mul_bounds2(
                            left_count@[pl as int] as int,
                            0x100_0000_0000,
                            left_area@[pl as int] as int,
                            (3 * (0x200_0000_0000 * 0x200_0000_0000)) as int,
                        );
                        crate::fx::lemma_mul_bounds2(
                            right_count@[(NUM_BINS - 2 - pl) as int] as int,
                            0x100_0000_0000,
                            right_area@[(NUM_BINS - 2 - pl) as int] as int,
                            (3 * (0x200_0000_0000 * 0x200_0000_0000)) as int,
                        );
                    }
                    let plane_cost: i128 = (left_count[pl] as i128) * left_area[pl] + (
                    right_count[NUM_BINS - 2 - pl] as i128) * right_area[NUM_BINS - 2 - pl];
                    proof {
                        assert(plane_cost as int == binned_plane_cost(
                            bvh.els(),
                            f,
                            c,
                            ax,
                            bounds_min,
                            bounds_max,
                            nb,
                            pl as int,
                        ));
                    }
                    if plane_cost < best_cost {
                        proof {
                            crate::fx::lemma_step_bound(
                                range as int,
                                NUM_BINS as int,
                                pl as int + 1,
                            );
                        }
                        best_axis = axis;
                        split_pos = bounds_min + ((pl + 1) as i64) * scale;
                        best_cost = plane_cost;
                        proof {
                            assert(split_pos == plane_pos(bounds_min, bounds_max, nb, pl as int + 1));
                        }
                    }
                    proof {
                        assert(best_cost as int <= binned_plane_cost(
                            bvh.els(),
                            f,
                            c,
                            ax,
                            bounds_min,
                            bounds_max,
                            nb,
                            (pl as int) + 0,
                        ));
                    }
                    pl += 1;
                }
                proof {
                    assert forall|ax2: int, q2: int|
                        0 <= ax2 < axis + 1 && 0 <= q2 < NUM_BINS - 1 && #[trigger] range_axis_min(
                            bvh.els(),
                            f,
                            c,
                            ax2,
                        ) != range_axis_max(bvh.els(), f, c, ax2) implies best_cost as int
                        <= binned_plane_cost(
                        bvh.els(),
                        f,
                        c,
                        ax2,
                        range_axis_min(bvh.els(), f, c, ax2),
                        range_axis_max(bvh.els(), f, c, ax2),
                        nb,
                        #[trigger] (q2 + 0),
                    ) by {
                        if ax2 == ax {
                            assert(best_cost as int <= binned_plane_cost(
                                bvh.els(),
                                f,
                                c,
                                ax,
                                bounds_min,
                                bounds_max,
                                nb,
                                (q2 as int) + 0,
                            ));
                        }
                    }
                }
            }
            axis += 1;
        }
        BVHSplit { axis: best_axis, cost: best_cost, pos: split_pos }
    }
}

} // verus!
