use corrosive_physics::aabb::AABB;
use corrosive_physics::bvh::{BVH, BVHNode, VecPool};
use corrosive_physics::bvh_splitting::{BinnedSAHSplit, FullSAHSplit, MidpointSAHSplit,
    PartialSAHSplit};
use corrosive_physics::engine::PhysicsEngine;
use corrosive_physics::object::{PhyEntity, PhyEntityID};
use corrosive_physics::tlas::TLASNode;
use corrosive_physics::vec3::V3;
use corrosive_physics::volume::BVIntersector;

fn fx(v: f64) -> i64 {
    (v * 65536.0).round() as i64
}

fn v(x: f64, y: f64, z: f64) -> V3 {
    V3 { x: fx(x), y: fx(y), z: fx(z) }
}

fn boxed(min: V3, size: f64) -> AABB {
    let mut a = AABB::new();
    a.grow(&min);
    a.grow(&V3 { x: min.x + fx(size), y: min.y + fx(size), z: min.z + fx(size) });
    a
}

/// A tiny deterministic generator so runs repeat exactly.
struct Lcg(u64);

impl Lcg {
    fn next(&mut self) -> u64 {
        self.0 = self.0.wrapping_mul(6364136223846793005).wrapping_add(1442695040888963407);
        self.0 >> 16
    }

    fn coord(&mut self, range: u64) -> i64 {
        ((self.next() % (range * 65536)) & !0xf) as i64
    }
}

#[test]
fn test() {
    let elements = VecPool::<AABB>::with_capacity(10);
    let mut bvh = BVH::<AABB>::new(elements);
    bvh.rebuild::<BinnedSAHSplit<8>>();
}

fn brute_force<'a>(elements: &'a [AABB], q: &AABB) -> Vec<&'a AABB> {
    elements.iter().filter(|e| q.intersects(*e)).collect()
}

fn as_keys(found: &[&AABB]) -> Vec<(i64, i64, i64)> {
    let mut keys: Vec<(i64, i64, i64)> = found.iter().map(|a| (a.min.x, a.min.y, a.min.z)).collect();
    keys.sort();
    keys
}

fn check_build_against_brute_force<S>(seed: u64)
where
    S: corrosive_physics::bvh::BVHSplitting<AABB>,
{
    let mut rng = Lcg(seed);
    let mut pool = VecPool::<AABB>::new();
    let mut raw = Vec::new();
    for _ in 0..1000 {
        let b = boxed(
            V3 { x: rng.coord(99), y: rng.coord(99), z: rng.coord(99) },
            1.0,
        );
        raw.push(b);
        pool.push(b);
    }
    let mut bvh = BVH::<AABB>::new(pool);
    bvh.rebuild::<S>();
    let q = boxed(v(0.0, 0.0, 0.0), 1.0);
    let hits = bvh.intersect(&q, 0);
    let expect = brute_force(&raw, &q);
    assert_eq!(as_keys(&hits), as_keys(&expect));

    // a larger probe sees plenty of elements and still matches exactly
    let big = boxed(v(10.0, 10.0, 10.0), 30.0);
    let hits = bvh.intersect(&big, 0);
    let expect = brute_force(&raw, &big);
    assert!(!expect.is_empty());
    assert_eq!(as_keys(&hits), as_keys(&expect));
}

#[test]
fn binned_build_matches_brute_force() {
    check_build_against_brute_force::<BinnedSAHSplit<8>>(7);
}

#[test]
fn full_build_matches_brute_force() {
    // the exhaustive strategy is quadratic; a smaller scene keeps it quick
    let mut rng = Lcg(11);
    let mut pool = VecPool::<AABB>::new();
    let mut raw = Vec::new();
    for _ in 0..60 {
        let b = boxed(V3 { x: rng.coord(20), y: rng.coord(20), z: rng.coord(20) }, 1.0);
        raw.push(b);
        pool.push(b);
    }
    let mut bvh = BVH::<AABB>::new(pool);
    bvh.rebuild::<FullSAHSplit>();
    let q = boxed(v(5.0, 5.0, 5.0), 6.0);
    assert_eq!(as_keys(&bvh.intersect(&q, 0)), as_keys(&brute_force(&raw, &q)));
}

#[test]
fn midpoint_build_matches_brute_force() {
    check_build_against_brute_force::<MidpointSAHSplit>(23);
}

#[test]
fn partial_build_matches_brute_force() {
    check_build_against_brute_force::<PartialSAHSplit<4>>(41);
}

#[test]
fn rebuilt_tree_has_union_boxes() {
    let mut rng = Lcg(3);
    let mut pool = VecPool::<AABB>::new();
    for _ in 0..64 {
        pool.push(boxed(V3 { x: rng.coord(50), y: rng.coord(50), z: rng.coord(50) }, 1.0));
    }
    let mut bvh = BVH::<AABB>::new(pool);
    bvh.rebuild::<BinnedSAHSplit<8>>();
    // every internal node's box is the union of its children's; every leaf
    // box encloses the wraps of its range
    for i in 0..bvh.nodes_in_use {
        let n = &bvh.pool.vec[i];
        if n.num_prims == 0 {
            let l = &bvh.pool.vec[n.left_first];
            let r = &bvh.pool.vec[n.left_first + 1];
            let mut u = AABB::new();
            u.adjust(&l.aabb, &r.aabb);
            assert_eq!(u, n.aabb);
        } else {
            for j in 0..n.num_prims {
                let e = &bvh.elements.vec[n.left_first + j];
                assert!(n.aabb.min.x <= e.min.x && e.max.x <= n.aabb.max.x);
                assert!(n.aabb.min.y <= e.min.y && e.max.y <= n.aabb.max.y);
                assert!(n.aabb.min.z <= e.min.z && e.max.z <= n.aabb.max.z);
            }
        }
    }
    // refitting after nothing moved keeps the same boxes at the root
    let root_before = bvh.pool.vec[0].aabb;
    bvh.refit();
    assert_eq!(bvh.pool.vec[0].aabb, root_before);
}

#[test]
fn pool_operations() {
    let mut p = VecPool::<i64>::new();
    p.push(1);
    p.push(2);
    p.push(3);
    assert_eq!(p.vec, vec![1, 2, 3]);
    let removed = p.remove(1);
    assert_eq!(removed, 2);
    assert_eq!(p.vec, vec![1, 3]);
    p.clear();
    assert!(p.vec.is_empty());
    let q = VecPool::<BVHNode>::with_capacity(4);
    assert_eq!(q.vec.len(), 0);
}

#[test]
fn tlas_node_packs_children() {
    let mut n = TLASNode::new();
    assert!(n.is_leaf());
    n.left_right = 3 + 7 * 0x10000;
    assert!(!n.is_leaf());
    assert_eq!(n.get_left_child(), 7);
    assert_eq!(n.get_right_child(), 3);
    let mut m = TLASNode::new();
    m.copy_from(&n);
    assert_eq!(m.left_right, n.left_right);
}

fn grid_engine() -> PhysicsEngine {
    // one hundred unit boxes spaced two units apart in a five by five by
    // four grid: none touches a neighbor
    let mut engine = PhysicsEngine::new();
    let mut count = 0usize;
    for x in 0..5 {
        for y in 0..5 {
            for z in 0..4 {
                let id = PhyEntityID { world_id: 0, chunk_id: 0, entity_id: count };
                count += 1;
                let mut e = PhyEntity::cube(id, v(1.0, 1.0, 1.0));
                e.is.state.pos = v(x as f64 * 2.0, y as f64 * 2.0, z as f64 * 2.0);
                e.sync();
                engine.push_entity(e);
            }
        }
    }
    engine.build();
    engine
}

#[test]
fn grid_bodies_only_find_themselves() {
    let engine = grid_engine();
    for idx in 0..100 {
        let id = PhyEntityID { world_id: 0, chunk_id: 0, entity_id: idx };
        let found = engine.query_colliders(id);
        assert_eq!(found.len(), 1, "body {idx} found {} bodies", found.len());
        assert_eq!(found[0].id, id);
    }
}

#[test]
fn touching_neighbors_are_found_after_refit() {
    let mut engine = grid_engine();
    // move one body next to its neighbor so they touch, re-sync and refit
    let id = PhyEntityID { world_id: 0, chunk_id: 0, entity_id: 0 };
    {
        let e = engine.entity_mut(id);
        e.is.state.pos = v(1.0, 0.0, 0.0);
        e.sync();
    }
    engine.refit();
    let found = engine.query_colliders(id);
    let mut ids: Vec<usize> = found.iter().map(|e| e.id.entity_id).collect();
    ids.sort();
    // itself and the neighbor at (2, 0, 0), which body number 20 occupies
    assert!(ids.contains(&0));
    assert!(ids.contains(&20));
    let own = &engine.entity(id).obb;
    for other in &found {
        assert!(own.intersects(&other.obb));
    }
}
