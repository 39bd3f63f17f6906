//! Bottom-level bounding-volume hierarchy.
//!
//! An index-packed binary tree over a pool of elements. Node 0 is the root; an
//! internal node stores the index of its left child (the right child follows
//! it), a leaf stores the first element index of its contiguous range and the
//! number of elements in it. Rebuilding partitions the element pool in place
//! under a pluggable split strategy; refitting recomputes the boxes for the
//! existing topology; traversal reports the elements hit by an intersector.

use vstd::prelude::*;
use vstd::pervasive::VecAdditionalExecFns;
use crate::aabb::{AABB, aabb_contains, aabb_union, AABB_INF};
use crate::vec3::V3;
use crate::volume::BVIntersector;

verus! {

/// Upper bound on the number of elements a tree is built over; keeps the
/// surface-area cost arithmetic inside `i128`.
pub const BVH_MAX_ELEMS: usize = 0x1000_0000;

/// Negated sentinel, usable in spec literals.
pub const NEG_AABB_INF: i64 = -0x100_0000_0000;

/// The empty sentinel box as a value.
pub open spec fn empty_aabb() -> AABB {
    AABB {
        min: V3 { x: AABB_INF, y: AABB_INF, z: AABB_INF },
        max: V3 { x: NEG_AABB_INF, y: NEG_AABB_INF, z: NEG_AABB_INF },
    }
}

/// Component `axis` of `v` (0 is x, 1 is y, 2 is z).
pub open spec fn v3_axis_s(v: V3, axis: int) -> i64 {
    if axis == 0 {
        v.x
    } else if axis == 1 {
        v.y
    } else {
        v.z
    }
}

/// Component `axis` of `v`.
pub fn v3_axis(v: &V3, axis: usize) -> (r: i64)
    requires
        axis < 3,
    ensures
        r == v3_axis_s(*v, axis as int),
{
    if axis == 0 {
        v.x
    } else if axis == 1 {
        v.y
    } else {
        v.z
    }
}

/// An element a BVH can be built over: it has a centroid (for split
/// decisions) and a wrapping box (for the tree bounds).
pub trait BVHElement: Sized {
    /// The element's geometry is inside the fixed-point working range.
    spec fn el_wf(&self) -> bool;

    /// The mathematical centroid.
    spec fn centroid_s(&self) -> V3;

    /// The mathematical wrapping box.
    spec fn wrap_s(&self) -> AABB;

    /// A well-formed element has a well-formed wrap and a bounded centroid.
    proof fn lemma_el_wf(&self)
        requires
            self.el_wf(),
        ensures
            self.wrap_s().wf(),
            self.centroid_s().in_lim(AABB_INF as int),
    ;

    /// Returns the geometric centroid of the element.
    fn centroid(&self) -> (c: V3)
        requires
            self.el_wf(),
        ensures
            c == self.centroid_s(),
    ;

    /// Wraps an AABB box around the element.
    fn wrap(&self) -> (a: AABB)
        requires
            self.el_wf(),
        ensures
            a == self.wrap_s(),
    ;
}

/// Basic data structure for a BVH node.
pub struct BVHNode {
    pub aabb: AABB,
    pub left_first: usize,
    pub num_prims: usize,
}

impl BVHNode {
    pub fn new() -> (r: BVHNode)
        ensures
            r.aabb.is_empty(),
            r.left_first == 0,
            r.num_prims == 0,
    {
        BVHNode { aabb: AABB::new(), left_first: 0, num_prims: 0 }
    }

    /// The pool index of the left child (meaningful for internal nodes).
    pub fn left_child(&self) -> (r: usize)
        ensures
            r == self.left_first,
    {
        self.left_first
    }

    /// The pool index of the right child, one past the left child.
    pub fn right_child(&self) -> (r: usize)
        requires
            self.left_first < usize::MAX,
        ensures
            r == self.left_first + 1,
    {
        self.left_first + 1
    }

    /// True if the node is a leaf.
    pub fn is_leaf(&self) -> (r: bool)
        ensures
            r == (self.num_prims > 0),
    {
        self.num_prims > 0
    }

    pub fn num_prims(&self) -> (r: &usize)
        ensures
            r == self.num_prims,
    {
        &self.num_prims
    }

    pub fn aabb(&self) -> (r: &AABB)
        ensures
            r == self.aabb,
    {
        &self.aabb
    }
}

/// A memory pool backed by a growable contiguous array.
pub struct VecPool<T: Sized> {
    pub vec: Vec<T>,
}

impl<T: Sized> VecPool<T> {
    /// A pool whose backing store pre-reserves room for `n` items.
    pub fn with_capacity(n: usize) -> (r: VecPool<T>)
        ensures
            r.vec@.len() == 0,
    {
        VecPool { vec: Vec::with_capacity(n) }
    }

    pub fn new() -> (r: VecPool<T>)
        ensures
            r.vec@.len() == 0,
    {
        VecPool { vec: Vec::new() }
    }

    pub fn push(&mut self, item: T)
        ensures
            final(self).vec@ == old(self).vec@.push(item),
    {
        self.vec.push(item);
    }

    pub fn remove(&mut self, idx: usize) -> (r: T)
        requires
            idx < old(self).vec@.len(),
        ensures
            r == old(self).vec@[idx as int],
            final(self).vec@ == old(self).vec@.remove(idx as int),
    {
        self.vec.remove(idx)
    }

    pub fn clear(&mut self)
        ensures
            final(self).vec@.len() == 0,
    {
        self.vec.clear();
    }

    /// Returns a shared reference to the item at `idx`.
    pub fn at(&self, idx: usize) -> (r: &T)
        requires
            idx < self.vec@.len(),
        ensures
            *r == self.vec@[idx as int],
    {
        &self.vec[idx]
    }
}

/// A pool that can hold the nodes of a BVH.
pub trait BVHPool {
    /// The number of node slots the pool holds.
    spec fn cap_s(&self) -> int;

    /// Returns the number of node slots of the pool.
    fn capacity(&self) -> (r: usize)
        ensures
            r == self.cap_s(),
    ;
}

impl BVHPool for VecPool<BVHNode> {
    open spec fn cap_s(&self) -> int {
        self.vec@.len() as int
    }

    fn capacity(&self) -> (r: usize) {
        self.vec.len()
    }
}

/// A pool that can hold the elements of a BVH.
pub trait BVHElementPool<E: BVHElement> {
    /// The elements as a sequence.
    spec fn els(&self) -> Seq<E>;

    /// Returns the number of element slots of the pool.
    fn capacity(&self) -> (r: usize)
        ensures
            r == self.els().len(),
    ;

    /// Returns the number of elements in the pool.
    fn len(&self) -> (r: usize)
        ensures
            r == self.els().len(),
    ;

    /// Swaps the elements at indices `i` and `j`.
    fn swap(&mut self, i: usize, j: usize)
        requires
            i < old(self).els().len(),
            j < old(self).els().len(),
        ensures
            final(self).els() == old(self).els().update(i as int, old(self).els()[j as int]).update(
                j as int,
                old(self).els()[i as int],
            ),
    ;
}

impl<E: BVHElement> BVHElementPool<E> for VecPool<E> {
    open spec fn els(&self) -> Seq<E> {
        self.vec@
    }

    fn capacity(&self) -> (r: usize) {
        self.vec.len()
    }

    fn len(&self) -> (r: usize) {
        self.vec.len()
    }

    fn swap(&mut self, i: usize, j: usize) {
        swap_in_vec(&mut self.vec, i, j);
    }
}

/// Swaps two positions of a vector.
pub fn swap_in_vec<T>(v: &mut Vec<T>, i: usize, j: usize)
    requires
        i < old(v)@.len(),
        j < old(v)@.len(),
    ensures
        final(v)@ == old(v)@.update(i as int, old(v)@[j as int]).update(j as int, old(v)@[i as int]),
{
    if i == j {
        proof {
            assert(final(v)@ =~= old(v)@.update(i as int, old(v)@[j as int]).update(
                j as int,
                old(v)@[i as int],
            ));
        }
        return ;
    }
    let (lo, hi) = if i < j {
        (i, j)
    } else {
        (j, i)
    };
    let a = v.remove(hi);
    let b = v.remove(lo);
    v.insert(lo, a);
    v.insert(hi, b);
    proof {
        assert(final(v)@ =~= old(v)@.update(i as int, old(v)@[j as int]).update(
            j as int,
            old(v)@[i as int],
        ));
    }
}


/// The box grown around the wraps of `els[first .. first + count]`.
pub open spec fn grow_range<E: BVHElement>(els: Seq<E>, first: int, count: int) -> AABB
    decreases count,
{
    if count <= 0 {
        empty_aabb()
    } else {
        aabb_union(grow_range(els, first, count - 1), els[first + count - 1].wrap_s())
    }
}

/// The grown box contains the wrap of every element of the range.
pub proof fn lemma_grow_range_contains<E: BVHElement>(els: Seq<E>, first: int, count: int, j: int)
    requires
        first <= j < first + count,
        first + count <= els.len(),
    ensures
        aabb_contains(grow_range(els, first, count), els[j].wrap_s()),
    decreases count,
{
    crate::aabb::lemma_aabb_union_bounds(
        grow_range(els, first, count - 1),
        els[first + count - 1].wrap_s(),
    );
    if j < first + count - 1 {
        lemma_grow_range_contains(els, first, count - 1, j);
        crate::aabb::lemma_aabb_contains_trans(
            grow_range(els, first, count),
            grow_range(els, first, count - 1),
            els[j].wrap_s(),
        );
    }
}

/// The grown box of well-formed elements is well-formed.
pub proof fn lemma_grow_range_wf<E: BVHElement>(els: Seq<E>, first: int, count: int)
    requires
        forall|j: int| first <= j < first + count ==> #[trigger] els[j].el_wf(),
        0 <= first,
        first + count <= els.len(),
    ensures
        grow_range(els, first, count).wf(),
    decreases count,
{
    if count <= 0 {
    } else {
        lemma_grow_range_wf(els, first, count - 1);
        assert(els[first + count - 1].el_wf());
        els[first + count - 1].lemma_el_wf();
        crate::aabb::lemma_aabb_union_wf(
            grow_range(els, first, count - 1),
            els[first + count - 1].wrap_s(),
        );
    }
}

/// The grown box depends only on the elements of the range.
pub proof fn lemma_grow_range_same<E: BVHElement>(a: Seq<E>, b: Seq<E>, first: int, count: int)
    requires
        forall|j: int| first <= j < first + count ==> a[j] == b[j],
    ensures
        grow_range(a, first, count) == grow_range(b, first, count),
    decreases count,
{
    if count > 0 {
        lemma_grow_range_same(a, b, first, count - 1);
    }
}

/// Bottom-level bounding-volume hierarchy over elements of type `E`.
pub struct BVH<E: BVHElement> {
    pub pool: VecPool<BVHNode>,
    pub elements: VecPool<E>,
    pub root: usize,
    pub nodes_in_use: usize,
    pub ranges: Ghost<Map<int, (int, int)>>,
}

impl<E: BVHElement> BVH<E> {
    /// The node pool as a sequence.
    pub open spec fn nodes(self) -> Seq<BVHNode> {
        self.pool.vec@
    }

    /// The element pool as a sequence.
    pub open spec fn els(self) -> Seq<E> {
        self.elements.vec@
    }

    /// The element range (first index, count) a node is responsible for.
    pub open spec fn rng(self, i: int) -> (int, int) {
        self.ranges@[i]
    }

    /// Element index `j` belongs to node `i`'s range.
    pub open spec fn in_rng(self, i: int, j: int) -> bool {
        self.rng(i).0 <= j < self.rng(i).0 + self.rng(i).1
    }

    pub open spec fn num_nodes_in_use(self) -> int {
        self.nodes_in_use as int
    }

    pub open spec fn root_s(self) -> int {
        self.root as int
    }

    /// Bookkeeping state of the tree storage.
    pub open spec fn storage_wf(self) -> bool {
        &&& self.root == 0
        &&& 1 <= self.nodes_in_use <= self.nodes().len()
        &&& self.els().len() <= BVH_MAX_ELEMS
        &&& forall|i: int| 0 <= i < self.nodes_in_use ==> self.ranges@.dom().contains(i)
        &&& self.rng(0) == (0int, self.els().len() as int)
    }

    /// Every element of the pool is well-formed.
    pub open spec fn elems_wf(self) -> bool {
        forall|j: int| 0 <= j < self.els().len() ==> #[trigger] self.els()[j].el_wf()
    }

    /// Structural consistency of node `i`: a leaf's stored range is its ghost
    /// range; an internal node's children follow it in the pool and split its
    /// range in two.
    pub open spec fn node_ok(self, i: int) -> bool {
        let n = self.nodes()[i];
        let f = self.rng(i).0;
        let c = self.rng(i).1;
        &&& 0 <= f
        &&& 0 <= c
        &&& f + c <= self.els().len()
        &&& if n.num_prims > 0 {
            f == n.left_first && c == n.num_prims
        } else {
            let l = n.left_first as int;
            &&& i < l
            &&& l + 1 < self.nodes_in_use
            &&& self.rng(l).0 == f
            &&& 0 <= self.rng(l).1
            &&& 0 <= self.rng(l + 1).1
            &&& self.rng(l + 1).0 == f + self.rng(l).1
            &&& self.rng(l).1 + self.rng(l + 1).1 == c
        }
    }

    /// The ranges of two distinct leaves never overlap.
    pub open spec fn leaves_disjoint(self) -> bool {
        forall|i: int, k: int|
            0 <= i < self.nodes_in_use && 0 <= k < self.nodes_in_use && i != k
                && self.nodes()[i].num_prims > 0 && self.nodes()[k].num_prims > 0 ==> (self.rng(
                i,
            ).0 + self.rng(i).1 <= self.rng(k).0 || self.rng(k).0 + self.rng(k).1 <= self.rng(i).0)
    }

    /// Structural well-formedness of the whole tree.
    pub open spec fn struct_wf(self) -> bool {
        &&& self.storage_wf()
        &&& self.elems_wf()
        &&& forall|i: int| 0 <= i < self.nodes_in_use ==> self.node_ok(i)
        &&& self.leaves_disjoint()
    }

    /// The bounding boxes are consistent at node `i`: a leaf's box encloses
    /// the wrap of every element of its range; an internal node's box is the
    /// union of its children's boxes.
    pub open spec fn box_ok(self, i: int) -> bool {
        let n = self.nodes()[i];
        &&& n.aabb.wf()
        &&& if n.num_prims > 0 {
            forall|j: int| self.in_rng(i, j) ==> aabb_contains(n.aabb, #[trigger] self.els()[j].wrap_s())
        } else {
            n.aabb == aabb_union(
                self.nodes()[n.left_first as int].aabb,
                self.nodes()[n.left_first as int + 1].aabb,
            )
        }
    }

    /// Full well-formedness: structure and boxes.
    pub open spec fn tree_wf(self) -> bool {
        &&& self.struct_wf()
        &&& forall|i: int| 0 <= i < self.nodes_in_use ==> self.box_ok(i)
    }

    /// Creates a BVH over the given element pool. The node pool is sized for
    /// a full binary tree over the elements; the tree is not built yet.
    pub fn new(elements: VecPool<E>) -> (r: BVH<E>)
        requires
            elements.vec@.len() <= BVH_MAX_ELEMS,
            forall|j: int|
                0 <= j < elements.vec@.len() ==> #[trigger] elements.vec@[j].el_wf(),
        ensures
            r.els() == elements.vec@,
            r.storage_wf(),
            r.elems_wf(),
            r.root == 0,
            r.nodes_in_use == 1,
            r.pool.vec@.len() == (if elements.vec@.len() == 0 {
                1int
            } else {
                2 * elements.vec@.len() - 1
            }),
    {
        let n = elements.len();
        let target: usize = if n == 0 {
            1
        } else {
            2 * n - 1
        };
        let mut pool: VecPool<BVHNode> = VecPool::with_capacity(target);
        let mut i: usize = 0;
        while i < target
            invariant
                pool.vec@.len() == i,
                i <= target,
            decreases target - i,
        {
            pool.push(BVHNode::new());
            i += 1;
        }
        let ghost m = Map::<int, (int, int)>::empty().insert(
            0int,
            (0int, elements.vec@.len() as int),
        );
        BVH { pool, elements, root: 0, nodes_in_use: 1, ranges: Ghost(m) }
    }
}


impl<E: BVHElement> BVH<E> {
    /// Resets the box of the leaf `node_id` and grows it around the wraps of
    /// the elements of the node's range.
    pub fn update_bounds(&mut self, node_id: usize)
        requires
            old(self).storage_wf(),
            old(self).elems_wf(),
            node_id < old(self).nodes_in_use,
            old(self).rng(node_id as int).0 == old(self).nodes()[node_id as int].left_first,
            old(self).rng(node_id as int).1 == old(self).nodes()[node_id as int].num_prims,
            old(self).rng(node_id as int).0 + old(self).rng(node_id as int).1 <= old(self).els().len(),
        ensures
            final(self).pool.vec@ == old(self).pool.vec@.update(
                node_id as int,
                (BVHNode {
                    aabb: grow_range(
                        old(self).els(),
                        old(self).rng(node_id as int).0,
                        old(self).rng(node_id as int).1,
                    ),
                    left_first: old(self).nodes()[node_id as int].left_first,
                    num_prims: old(self).nodes()[node_id as int].num_prims,
                }),
            ),
            final(self).elements == old(self).elements,
            final(self).root == old(self).root,
            final(self).nodes_in_use == old(self).nodes_in_use,
            final(self).ranges == old(self).ranges,
    {
        let first = self.pool.at(node_id).left_first;
        let count = self.pool.at(node_id).num_prims;
        let mut bx = AABB::new();
        assert(bx == empty_aabb());
        let mut i: usize = 0;
        while i < count
            invariant
                *self == *old(self),
                old(self).storage_wf(),
                node_id < old(self).nodes_in_use,
                self.els().len() <= BVH_MAX_ELEMS,
                i <= count,
                first == old(self).nodes()[node_id as int].left_first,
                count == old(self).nodes()[node_id as int].num_prims,
                first + count <= self.els().len(),
                self.elems_wf(),
                bx == grow_range(old(self).els(), first as int, i as int),
            decreases count - i,
        {
            assert(first + i < self.els().len());
            assert(self.els()[first + i as int].el_wf());
            let w = self.elements.at(first + i).wrap();
            bx.grow_other(&w);
            i += 1;
        }
        let n = BVHNode { aabb: bx, left_first: first, num_prims: count };
        self.pool.vec.set(node_id, n);
    }

    /// Refits every box of the tree to the current elements: leaves are
    /// regrown from the element wraps, internal boxes become the union of
    /// their children's. The topology is untouched, and afterwards the whole
    /// tree is well-formed again.
    pub fn refit(&mut self)
        requires
            old(self).struct_wf(),
        ensures
            final(self).tree_wf(),
            final(self).elements == old(self).elements,
            final(self).root == old(self).root,
            final(self).nodes_in_use == old(self).nodes_in_use,
            final(self).ranges == old(self).ranges,
            final(self).pool.vec@.len() == old(self).pool.vec@.len(),
            forall|k: int|
                0 <= k < old(self).pool.vec@.len() ==> final(self).nodes()[k].left_first == old(self).nodes()[k].left_first && final(self).nodes()[k].num_prims == old(self).nodes()[k].num_prims,
            forall|k: int|
                0 <= k < final(self).nodes_in_use && final(self).nodes()[k].num_prims
                    > 0 ==> (#[trigger] final(self).nodes()[k]).aabb == grow_range(
                    final(self).els(),
                    final(self).rng(k).0,
                    final(self).rng(k).1,
                ),
    {
        let n_use = self.nodes_in_use;
        let mut i: usize = 0;
        while i < n_use
            invariant
                i <= n_use,
                n_use == self.nodes_in_use,
                self.struct_wf(),
                self.elements == old(self).elements,
                self.root == old(self).root,
                self.nodes_in_use == old(self).nodes_in_use,
                self.ranges == old(self).ranges,
                self.pool.vec@.len() == old(self).pool.vec@.len(),
                forall|k: int|
                    0 <= k < old(self).pool.vec@.len() ==> self.nodes()[k].left_first == old(self).nodes()[k].left_first && self.nodes()[k].num_prims == old(self).nodes()[k].num_prims,
                forall|k: int| n_use - i <= k < n_use ==> self.box_ok(k),
                forall|k: int|
                    n_use - i <= k < n_use && self.nodes()[k].num_prims > 0 ==> (
                    #[trigger] self.nodes()[k]).aabb == grow_range(
                        self.els(),
                        self.rng(k).0,
                        self.rng(k).1,
                    ),
            decreases n_use - i,
        {
            let id = n_use - i - 1;
            let ghost pre = *self;
            if self.pool.at(id).num_prims > 0 {
                assert(pre.node_ok(id as int));
                self.update_bounds(id);
                assert forall|j: int| self.in_rng(id as int, j) implies aabb_contains(
                    self.nodes()[id as int].aabb,
                    #[trigger] self.els()[j].wrap_s(),
                ) by {
                    lemma_grow_range_contains(
                        self.els(),
                        self.rng(id as int).0,
                        self.rng(id as int).1,
                        j,
                    );
                }
                proof {
                    lemma_grow_range_wf(self.els(), self.rng(id as int).0, self.rng(id as int).1);
                }
                assert(self.box_ok(id as int));
            } else {
                assert(pre.node_ok(id as int));
                let l = self.pool.at(id).left_first;
                assert(pre.box_ok(l as int));
                assert(pre.box_ok(l as int + 1));
                let left_box = self.pool.at(l).aabb;
                let right_box = self.pool.at(l + 1).aabb;
                let mut bx = AABB::new();
                bx.adjust(&left_box, &right_box);
                let np = self.pool.at(id).num_prims;
                self.pool.vec.set(id, BVHNode { aabb: bx, left_first: l, num_prims: np });
                assert(self.box_ok(id as int));
            }
            assert forall|k: int| 0 <= k < n_use implies self.node_ok(k) by {
                assert(pre.node_ok(k));
                assert(self.nodes()[k].left_first == pre.nodes()[k].left_first);
                assert(self.nodes()[k].num_prims == pre.nodes()[k].num_prims);
            }
            assert(self.leaves_disjoint()) by {
                assert forall|a: int, b: int|
                    0 <= a < self.nodes_in_use && 0 <= b < self.nodes_in_use && a != b
                        && self.nodes()[a].num_prims > 0 && self.nodes()[b].num_prims
                        > 0 implies (self.rng(a).0 + self.rng(a).1 <= self.rng(b).0 || self.rng(
                    b,
                ).0 + self.rng(b).1 <= self.rng(a).0) by {
                    assert(pre.nodes()[a].num_prims == self.nodes()[a].num_prims);
                    assert(pre.nodes()[b].num_prims == self.nodes()[b].num_prims);
                    assert(self.rng(a) == pre.rng(a));
                    assert(self.rng(b) == pre.rng(b));
                    assert(pre.leaves_disjoint());
                    assert(pre.rng(a).0 + pre.rng(a).1 <= pre.rng(b).0 || pre.rng(b).0 + pre.rng(
                        b,
                    ).1 <= pre.rng(a).0);
                }
            }
            assert forall|k: int| n_use - i - 1 <= k < n_use implies self.box_ok(k) by {
                if k != id {
                    assert(pre.box_ok(k));
                    assert(pre.node_ok(k));
                    assert(self.nodes()[k] == pre.nodes()[k]);
                    if pre.nodes()[k].num_prims == 0 {
                        let l = pre.nodes()[k].left_first as int;
                        assert(self.nodes()[l] == pre.nodes()[l]);
                        assert(self.nodes()[l + 1] == pre.nodes()[l + 1]);
                    }
                }
            }
            i += 1;
        }
    }
}


/// Swapping two positions of a sequence keeps its multiset of values.
pub proof fn lemma_swap_multiset<T>(s: Seq<T>, i: int, j: int)
    requires
        0 <= i <= j < s.len(),
    ensures
        s.update(i, s[j]).update(j, s[i]).to_multiset() == s.to_multiset(),
{
    broadcast use vstd::multiset::group_multiset_axioms;

    if i == j {
        assert(s.update(i, s[j]).update(j, s[i]) =~= s);
    } else {
        let b = s.update(i, s[j]).update(j, s[i]);
        let s0 = s.subrange(0, i);
        let s1 = s.subrange(i + 1, j);
        let s2 = s.subrange(j + 1, s.len() as int);
        let si = seq![s[i]];
        let sj = seq![s[j]];
        assert(s =~= s0 + si + s1 + sj + s2);
        assert(b =~= s0 + sj + s1 + si + s2);
        vstd::seq_lib::lemma_multiset_commutative(s0 + si + s1 + sj, s2);
        vstd::seq_lib::lemma_multiset_commutative(s0 + si + s1, sj);
        vstd::seq_lib::lemma_multiset_commutative(s0 + si, s1);
        vstd::seq_lib::lemma_multiset_commutative(s0, si);
        vstd::seq_lib::lemma_multiset_commutative(s0 + sj + s1 + si, s2);
        vstd::seq_lib::lemma_multiset_commutative(s0 + sj + s1, si);
        vstd::seq_lib::lemma_multiset_commutative(s0 + sj, s1);
        vstd::seq_lib::lemma_multiset_commutative(s0, sj);
        assert(b.to_multiset() =~= s.to_multiset());
    }
}


/// Two sequences of equal length that agree outside a range and hold the
/// same multiset of values also hold the same multiset on the range itself.
pub proof fn lemma_range_multiset<T>(s1: Seq<T>, s2: Seq<T>, f: int, c: int)
    requires
        s1.len() == s2.len(),
        0 <= f,
        0 <= c,
        f + c <= s1.len(),
        s1.to_multiset() == s2.to_multiset(),
        forall|j: int| 0 <= j < s1.len() && !(f <= j < f + c) ==> s1[j] == s2[j],
    ensures
        s1.subrange(f, f + c).to_multiset() == s2.subrange(f, f + c).to_multiset(),
{
    broadcast use vstd::multiset::group_multiset_axioms;

    let n = s1.len() as int;
    let p1 = s1.subrange(0, f);
    let m1 = s1.subrange(f, f + c);
    let q1 = s1.subrange(f + c, n);
    let p2 = s2.subrange(0, f);
    let m2 = s2.subrange(f, f + c);
    let q2 = s2.subrange(f + c, n);
    assert(p1 =~= p2);
    assert(q1 =~= q2);
    assert(s1 =~= p1 + m1 + q1);
    assert(s2 =~= p1 + m2 + q1);
    vstd::seq_lib::lemma_multiset_commutative(p1 + m1, q1);
    vstd::seq_lib::lemma_multiset_commutative(p1, m1);
    vstd::seq_lib::lemma_multiset_commutative(p1 + m2, q1);
    vstd::seq_lib::lemma_multiset_commutative(p1, m2);
    assert forall|x: T| m1.to_multiset().count(x) == m2.to_multiset().count(x) by {
        assert(s1.to_multiset().count(x) == p1.to_multiset().count(x) + m1.to_multiset().count(x)
            + q1.to_multiset().count(x));
        assert(s2.to_multiset().count(x) == p1.to_multiset().count(x) + m2.to_multiset().count(x)
            + q1.to_multiset().count(x));
    }
    assert(m1.to_multiset() =~= m2.to_multiset());
}

/// A pointwise property of every value of a range survives any
/// rearrangement that keeps the range's multiset of values.
pub proof fn lemma_range_prop_transport<T>(
    s1: Seq<T>,
    s2: Seq<T>,
    f: int,
    c: int,
    p: spec_fn(T) -> bool,
)
    requires
        s1.len() == s2.len(),
        0 <= f,
        0 <= c,
        f + c <= s1.len(),
        s1.to_multiset() == s2.to_multiset(),
        forall|j: int| 0 <= j < s1.len() && !(f <= j < f + c) ==> s1[j] == s2[j],
        forall|j: int| f <= j < f + c ==> p(#[trigger] s1[j]),
    ensures
        forall|j: int| f <= j < f + c ==> p(#[trigger] s2[j]),
{
    broadcast use vstd::seq_lib::group_to_multiset_ensures;

    lemma_range_multiset(s1, s2, f, c);
    let m1 = s1.subrange(f, f + c);
    let m2 = s2.subrange(f, f + c);
    assert forall|j: int| f <= j < f + c implies p(#[trigger] s2[j]) by {
        assert(m2[j - f] == s2[j]);
        assert(m2.contains(s2[j]));
        assert(m2.to_multiset().count(s2[j]) > 0);
        assert(m1.to_multiset().count(s2[j]) > 0);
        assert(m1.contains(s2[j]));
        let k = choose|k: int| 0 <= k < m1.len() && m1[k] == s2[j];
        assert(p(s1[f + k]));
    }
}

/// A value of a range satisfying a property keeps a witness under any
/// rearrangement that keeps the range's multiset of values.
pub proof fn lemma_range_exists_transport<T>(
    s1: Seq<T>,
    s2: Seq<T>,
    f: int,
    c: int,
    p: spec_fn(T) -> bool,
)
    requires
        s1.len() == s2.len(),
        0 <= f,
        0 <= c,
        f + c <= s1.len(),
        s1.to_multiset() == s2.to_multiset(),
        forall|j: int| 0 <= j < s1.len() && !(f <= j < f + c) ==> s1[j] == s2[j],
        exists|j: int| f <= j < f + c && p(#[trigger] s1[j]),
    ensures
        exists|j: int| f <= j < f + c && p(#[trigger] s2[j]),
{
    broadcast use vstd::seq_lib::group_to_multiset_ensures;

    lemma_range_multiset(s1, s2, f, c);
    let m1 = s1.subrange(f, f + c);
    let m2 = s2.subrange(f, f + c);
    let j0 = choose|j: int| f <= j < f + c && p(#[trigger] s1[j]);
    assert(m1[j0 - f] == s1[j0]);
    assert(m1.contains(s1[j0]));
    assert(m1.to_multiset().count(s1[j0]) > 0);
    assert(m2.to_multiset().count(s1[j0]) > 0);
    assert(m2.contains(s1[j0]));
    let k = choose|k: int| 0 <= k < m2.len() && m2[k] == s1[j0];
    assert(m2[k] == s2[f + k]);
    assert(p(s2[f + k]));
}


/// Node- and box-consistency carry over from one tree state to another that
/// agrees on the node, its range, its children and the elements of its range.
proof fn lemma_node_transport<E: BVHElement>(a: BVH<E>, b: BVH<E>, k: int)
    requires
        a.node_ok(k),
        a.box_ok(k),
        b.nodes()[k] == a.nodes()[k],
        b.ranges@[k] == a.ranges@[k],
        b.nodes_in_use >= a.nodes_in_use,
        b.els().len() == a.els().len(),
        a.nodes()[k].num_prims > 0 ==> forall|j: int|
            a.in_rng(k, j) ==> b.els()[j] == a.els()[j],
        a.nodes()[k].num_prims == 0 ==> b.nodes()[a.nodes()[k].left_first as int] == a.nodes()[a.nodes()[k].left_first as int]
            && b.nodes()[a.nodes()[k].left_first as int + 1] == a.nodes()[a.nodes()[k].left_first as int + 1]
            && b.ranges@[a.nodes()[k].left_first as int] == a.ranges@[a.nodes()[k].left_first as int]
            && b.ranges@[a.nodes()[k].left_first as int + 1] == a.ranges@[a.nodes()[k].left_first as int + 1],
    ensures
        b.node_ok(k),
        b.box_ok(k),
{
    if a.nodes()[k].num_prims > 0 {
        assert forall|j: int| b.in_rng(k, j) implies aabb_contains(
            b.nodes()[k].aabb,
            #[trigger] b.els()[j].wrap_s(),
        ) by {
            assert(a.in_rng(k, j));
            assert(b.els()[j] == a.els()[j]);
            assert(aabb_contains(a.nodes()[k].aabb, a.els()[j].wrap_s()));
        }
    }
}

/// A split candidate: the axis and plane position to partition at, and the
/// estimated traversal cost of the split.
pub struct BVHSplit {
    pub cost: i128,
    pub pos: i64,
    pub axis: usize,
}

/// A strategy that proposes a split plane for a leaf node of a BVH.
pub trait BVHSplitting<E: BVHElement> {
    /// What the strategy stands behind for a proposal over the elements
    /// `els[first .. first + count]`: each strategy pins here how good its
    /// proposal is (which candidate planes it beats, and that a finite cost
    /// is attained at the returned plane), and `find` returns nothing weaker.
    spec fn proposal_ok(els: Seq<E>, first: int, count: int, s: BVHSplit) -> bool;

    /// Finds a split for the given tree and node.
    fn find(bvh: &BVH<E>, node_id: usize) -> (s: BVHSplit)
        requires
            bvh.storage_wf(),
            bvh.elems_wf(),
            node_id < bvh.num_nodes_in_use(),
            bvh.nodes()[node_id as int].num_prims > 0,
            bvh.node_ok(node_id as int),
        ensures
            s.axis < 3,
            Self::proposal_ok(
                bvh.els(),
                bvh.rng(node_id as int).0,
                bvh.rng(node_id as int).1,
                s,
            ),
    ;
}

/// The proposal `s` is accepted at a leaf over `els[first .. first + count]`
/// with box `aabb` and `room` free node slots: it beats the cost of leaving
/// the leaf alone, there is room for two children, and each side of its
/// plane holds at least one element of the range.
pub open spec fn split_accepted<E: BVHElement>(
    els: Seq<E>,
    first: int,
    count: int,
    aabb: AABB,
    room: int,
    s: BVHSplit,
) -> bool {
    &&& (s.cost as int) < count * crate::aabb::aabb_area_s(aabb)
    &&& room >= 2
    &&& exists|j: int|
        first <= j < first + count && v3_axis_s((#[trigger] els[j]).centroid_s(), s.axis as int)
            < s.pos
    &&& exists|j: int|
        first <= j < first + count && !(v3_axis_s((#[trigger] els[j]).centroid_s(), s.axis as int)
            < s.pos)
}

/// What one call that subdivides `node_id` decides, through one proposal `s`
/// that the strategy `SF` stands behind: the node becomes internal exactly
/// when the proposal is accepted (it beats the leaf cost and separates the
/// range), and the fresh children then split the range at the proposal's
/// plane, the elements with the smaller centroid coordinate on the left;
/// otherwise the node stays the leaf it was.
pub open spec fn subdivide_outcome<E: BVHElement, SF: BVHSplitting<E>>(
    pre: BVH<E>,
    post: BVH<E>,
    node_id: int,
    s: BVHSplit,
) -> bool {
    let f = pre.rng(node_id).0;
    let c = pre.rng(node_id).1;
    let li = pre.nodes_in_use as int;
    let acc = split_accepted(
        pre.els(),
        f,
        c,
        pre.nodes()[node_id].aabb,
        pre.nodes().len() - pre.nodes_in_use,
        s,
    );
    &&& SF::proposal_ok(pre.els(), f, c, s)
    &&& s.axis < 3
    &&& (acc ==> {
        let lc = post.rng(li).1;
        &&& post.nodes()[node_id].num_prims == 0
        &&& post.nodes()[node_id].left_first as int == li
        &&& post.rng(li).0 == f
        &&& 1 <= lc
        &&& 1 <= post.rng(li + 1).1
        &&& lc + post.rng(li + 1).1 == c
        &&& post.rng(li + 1).0 == f + lc
        &&& (forall|j: int|
            f <= j < f + lc ==> v3_axis_s((#[trigger] post.els()[j]).centroid_s(), s.axis as int)
                < s.pos)
        &&& (forall|j: int|
            f + lc <= j < f + c ==> !(v3_axis_s(
                (#[trigger] post.els()[j]).centroid_s(),
                s.axis as int,
            ) < s.pos))
    })
    &&& (!acc ==> post.nodes()[node_id] == pre.nodes()[node_id] && post.nodes_in_use
        == pre.nodes_in_use)
}

/// The estimated cost of leaving a node with `count` elements unsplit: the
/// element count times the node box's surface-area proxy.
fn leaf_cost(count: usize, aabb: &AABB) -> (r: i128)
    requires
        aabb.bounded(),
        count <= BVH_MAX_ELEMS,
    ensures
        r == count * crate::aabb::aabb_area_s(*aabb),
{
    proof {
        crate::aabb::lemma_area_bound(*aabb);
        crate::fx::lemma_mul_bounds2(
            count as int,
            BVH_MAX_ELEMS as int,
            crate::aabb::aabb_area_s(*aabb),
            (3 * (0x200_0000_0000 * 0x200_0000_0000)) as int,
        );
    }
    (count as i128) * aabb.area()
}

impl<E: BVHElement> BVH<E> {
    /// The indices a call that subdivides `node_id` is responsible for:
    /// the node itself and everything allocated after `lo`.
    pub open spec fn in_region(self, node_id: int, lo: int, k: int) -> bool {
        k == node_id || lo <= k < self.nodes_in_use
    }

    /// Subdivides the leaf `node_id` under the split strategy `SF`: partitions
    /// its element range around the proposed plane, makes the node internal
    /// with two fresh children covering the halves, and recurses. A node whose
    /// split would cost more than leaving it alone stays a leaf.
    #[verifier::rlimit(100)]
    #[verifier::spinoff_prover]
    pub fn subdivide<SF: BVHSplitting<E>>(&mut self, node_id: usize)
        requires
            old(self).storage_wf(),
            old(self).elems_wf(),
            node_id < old(self).nodes_in_use,
            old(self).nodes()[node_id as int].num_prims > 0,
            old(self).node_ok(node_id as int),
            old(self).box_ok(node_id as int),
        ensures
            final(self).storage_wf(),
            final(self).elems_wf(),
            final(self).root == old(self).root,
            final(self).pool.vec@.len() == old(self).pool.vec@.len(),
            old(self).nodes_in_use <= final(self).nodes_in_use,
            final(self).els().len() == old(self).els().len(),
            final(self).els().to_multiset() == old(self).els().to_multiset(),
            forall|j: int|
                0 <= j < old(self).els().len() && !old(self).in_rng(node_id as int, j) ==> final(self).els()[j] == old(self).els()[j],
            forall|k: int|
                0 <= k < old(self).nodes_in_use && k != node_id ==> final(self).nodes()[k] == old(self).nodes()[k],
            forall|k: int|
                0 <= k < old(self).nodes_in_use ==> final(self).ranges@.dom().contains(k) && final(self).ranges@[k] == old(self).ranges@[k],
            forall|k: int|
                final(self).in_region(node_id as int, old(self).nodes_in_use as int, k) ==> final(self).node_ok(k) && final(self).box_ok(k),
            forall|k: int|
                final(self).in_region(node_id as int, old(self).nodes_in_use as int, k) && final(self).nodes()[k].num_prims > 0 ==> old(self).rng(node_id as int).0 <= final(self).rng(
                    k,
                ).0 && final(self).rng(k).0 + final(self).rng(k).1 <= old(self).rng(
                    node_id as int,
                ).0 + old(self).rng(node_id as int).1,
            forall|k1: int, k2: int|
                final(self).in_region(node_id as int, old(self).nodes_in_use as int, k1) && final(self).in_region(node_id as int, old(self).nodes_in_use as int, k2) && k1 != k2 && final(self).nodes()[k1].num_prims > 0 && final(self).nodes()[k2].num_prims > 0 ==> (final(self).rng(k1).0 + final(self).rng(k1).1 <= final(self).rng(k2).0 || final(self).rng(
                    k2,
                ).0 + final(self).rng(k2).1 <= final(self).rng(k1).0),
            // the node either stays a leaf over a permutation of its range,
            // or becomes internal with two fresh children that split the
            // range into two nonempty halves
            final(self).nodes()[node_id as int] == old(self).nodes()[node_id as int] || (final(self).nodes()[node_id as int].num_prims == 0 && final(self).nodes()[node_id as int].left_first == old(self).nodes_in_use && old(self).nodes_in_use + 1 < final(self).nodes_in_use && final(self).rng(old(self).nodes_in_use as int).0 == old(self).rng(node_id as int).0 && 1 <= final(self).rng(old(self).nodes_in_use as int).1 && 1 <= final(self).rng(old(self).nodes_in_use as int + 1).1 && final(self).rng(old(self).nodes_in_use as int).1 + final(self).rng(old(self).nodes_in_use as int + 1).1 == old(self).rng(node_id as int).1 && final(self).rng(old(self).nodes_in_use as int + 1).0 == old(self).rng(node_id as int).0 + final(self).rng(old(self).nodes_in_use as int).1),
            // a subtree over `c` elements allocates at most `2 * (c - 1)`
            // nodes
            final(self).nodes_in_use - old(self).nodes_in_use <= 2 * (old(self).rng(
                node_id as int,
            ).1 - 1),
            // a node with fewer than two elements is left entirely alone
            old(self).rng(node_id as int).1 < 2 ==> *final(self) == *old(self),
            // otherwise the strategy's proposal decides: split exactly when
            // it is accepted, and then partition at its plane
            old(self).rng(node_id as int).1 >= 2 ==> (exists|s: BVHSplit|
                #[trigger] subdivide_outcome::<E, SF>(
                    *old(self),
                    *final(self),
                    node_id as int,
                    s,
                )),
        decreases self.nodes()[node_id as int].num_prims,
    {
        let first = self.pool.at(node_id).left_first;
        let count = self.pool.at(node_id).num_prims;
        if count < 2 {
            return ;
        }
        let split = SF::find(self, node_id);
        let node_aabb = self.pool.at(node_id).aabb;
        let node_cost = leaf_cost(count, &node_aabb);
        let ghost f0 = self.rng(node_id as int).0;
        let ghost c0 = self.rng(node_id as int).1;
        let ghost room0: int = self.nodes().len() - self.nodes_in_use;
        if split.cost >= node_cost {
            proof {
                // the proposal does not beat the leaf cost: not accepted
                assert(!split_accepted(old(self).els(), f0, c0, old(self).nodes()[node_id as int].aabb, room0, split));
                assert(subdivide_outcome::<E, SF>(*old(self), *self, node_id as int, split));
            }
            return ;
        }
        if self.pool.vec.len() - self.nodes_in_use < 2 {
            proof {
                // no room for two children: not accepted
                assert(!split_accepted(old(self).els(), f0, c0, old(self).nodes()[node_id as int].aabb, room0, split));
                assert(subdivide_outcome::<E, SF>(*old(self), *self, node_id as int, split));
            }
            return ;
        }
        let ghost pre = *self;
        // partition the range around the split plane
        let mut i = first;
        let mut jp = first + count;
        while i < jp
            invariant
                pre.storage_wf(),
                pre.elems_wf(),
                node_id < pre.nodes_in_use,
                pre.node_ok(node_id as int),
                first == pre.nodes()[node_id as int].left_first,
                count == pre.nodes()[node_id as int].num_prims,
                first == pre.rng(node_id as int).0,
                count == pre.rng(node_id as int).1,
                first + count <= pre.els().len(),
                split.axis < 3,
                first <= i <= jp <= first + count,
                self.pool == pre.pool,
                self.root == pre.root,
                self.nodes_in_use == pre.nodes_in_use,
                self.ranges == pre.ranges,
                self.els().len() == pre.els().len(),
                self.els().to_multiset() == pre.els().to_multiset(),
                self.elems_wf(),
                forall|j: int|
                    0 <= j < pre.els().len() && !(first <= j < first + count) ==> self.els()[j]
                        == pre.els()[j],
                forall|k: int|
                    first <= k < i ==> v3_axis_s(#[trigger] self.els()[k].centroid_s(), split.axis as int)
                        < split.pos,
                forall|k: int|
                    jp <= k < first + count ==> !(v3_axis_s(
                        #[trigger] self.els()[k].centroid_s(),
                        split.axis as int,
                    ) < split.pos),
                forall|j: int|
                    first <= j < first + count ==> aabb_contains(
                        node_aabb,
                        #[trigger] self.els()[j].wrap_s(),
                    ),
                node_aabb.wf(),
            decreases jp - i,
        {
            assert(self.els()[i as int].el_wf());
            let c = self.elements.at(i).centroid();
            if v3_axis(&c, split.axis) < split.pos {
                i += 1;
            } else {
                jp -= 1;
                let ghost before = self.els();
                swap_in_vec(&mut self.elements.vec, i, jp);
                proof {
                    lemma_swap_multiset(before, i as int, jp as int);
                }
            }
        }
        let left_count = i - first;
        if left_count == 0 || left_count == count {
            // the plane failed to separate the elements; stay a leaf
            assert(self.box_ok(node_id as int));
            proof {
                let below = |e: E| v3_axis_s(e.centroid_s(), split.axis as int) < split.pos;
                let not_below = |e: E| !(v3_axis_s(e.centroid_s(), split.axis as int) < split.pos);
                if left_count == 0 {
                    // everything landed at or right of the plane
                    assert(forall|j: int|
                        f0 <= j < f0 + c0 ==> not_below(#[trigger] self.els()[j]));
                    lemma_range_prop_transport(self.els(), pre.els(), f0, c0, not_below);
                    assert(!split_accepted(pre.els(), f0, c0, pre.nodes()[node_id as int].aabb, room0, split)) by {
                        if exists|j: int|
                            f0 <= j < f0 + c0 && v3_axis_s(
                                (#[trigger] pre.els()[j]).centroid_s(),
                                split.axis as int,
                            ) < split.pos {
                            let j = choose|j: int|
                                f0 <= j < f0 + c0 && v3_axis_s(
                                    (#[trigger] pre.els()[j]).centroid_s(),
                                    split.axis as int,
                                ) < split.pos;
                            assert(not_below(pre.els()[j]));
                        }
                    }
                } else {
                    // everything landed strictly left of the plane
                    assert(forall|j: int| f0 <= j < f0 + c0 ==> below(#[trigger] self.els()[j]));
                    lemma_range_prop_transport(self.els(), pre.els(), f0, c0, below);
                    assert(!split_accepted(pre.els(), f0, c0, pre.nodes()[node_id as int].aabb, room0, split)) by {
                        if exists|j: int|
                            f0 <= j < f0 + c0 && !(v3_axis_s(
                                (#[trigger] pre.els()[j]).centroid_s(),
                                split.axis as int,
                            ) < split.pos) {
                            let j = choose|j: int|
                                f0 <= j < f0 + c0 && !(v3_axis_s(
                                    (#[trigger] pre.els()[j]).centroid_s(),
                                    split.axis as int,
                                ) < split.pos);
                            assert(below(pre.els()[j]));
                        }
                    }
                }
                assert(subdivide_outcome::<E, SF>(*old(self), *self, node_id as int, split));
            }
            return ;
        }
        proof {
            // both sides of the plane are inhabited, in the original
            // arrangement too: the proposal is accepted
            let below = |e: E| v3_axis_s(e.centroid_s(), split.axis as int) < split.pos;
            let not_below = |e: E| !(v3_axis_s(e.centroid_s(), split.axis as int) < split.pos);
            assert(below(self.els()[f0]));
            lemma_range_exists_transport(self.els(), pre.els(), f0, c0, below);
            assert(not_below(self.els()[f0 + left_count]));
            lemma_range_exists_transport(self.els(), pre.els(), f0, c0, not_below);
            let jb = choose|j: int| f0 <= j < f0 + c0 && below(#[trigger] pre.els()[j]);
            assert(v3_axis_s(pre.els()[jb].centroid_s(), split.axis as int) < split.pos);
            let jn = choose|j: int| f0 <= j < f0 + c0 && not_below(#[trigger] pre.els()[j]);
            assert(!(v3_axis_s(pre.els()[jn].centroid_s(), split.axis as int) < split.pos));
            assert(split_accepted(
                pre.els(),
                f0,
                c0,
                pre.nodes()[node_id as int].aabb,
                room0,
                split,
            ));
        }
        // allocate the two children
        let l = self.nodes_in_use;
        let r = l + 1;
        self.nodes_in_use = l + 2;
        proof {
            self.ranges@ = self.ranges@.insert(l as int, (first as int, left_count as int)).insert(
                r as int,
                ((first + left_count) as int, (count - left_count) as int),
            );
        }
        self.pool.vec.set(
            l,
            BVHNode { aabb: AABB::new(), left_first: first, num_prims: left_count },
        );
        self.pool.vec.set(
            r,
            BVHNode { aabb: AABB::new(), left_first: i, num_prims: count - left_count },
        );
        self.pool.vec.set(node_id, BVHNode { aabb: node_aabb, left_first: l, num_prims: 0 });
        let ghost mid = *self;
        // grow the child bounds
        self.update_bounds(l);
        self.update_bounds(r);
        proof {
            assert forall|j: int| self.in_rng(l as int, j) implies aabb_contains(
                self.nodes()[l as int].aabb,
                #[trigger] self.els()[j].wrap_s(),
            ) by {
                lemma_grow_range_contains(self.els(), self.rng(l as int).0, self.rng(l as int).1, j);
            }
            assert forall|j: int| self.in_rng(r as int, j) implies aabb_contains(
                self.nodes()[r as int].aabb,
                #[trigger] self.els()[j].wrap_s(),
            ) by {
                lemma_grow_range_contains(self.els(), self.rng(r as int).0, self.rng(r as int).1, j);
            }
            lemma_grow_range_wf(self.els(), self.rng(l as int).0, self.rng(l as int).1);
            lemma_grow_range_wf(self.els(), self.rng(r as int).0, self.rng(r as int).1);
            assert(self.box_ok(l as int));
            assert(self.box_ok(r as int));
        }
        let ghost pre_l = *self;
        self.subdivide::<SF>(l);
        let ghost pre_r = *self;
        assert(self.nodes()[r as int] == pre_l.nodes()[r as int]);
        assert(self.box_ok(r as int)) by {
            assert forall|j: int| self.in_rng(r as int, j) implies aabb_contains(
                self.nodes()[r as int].aabb,
                #[trigger] self.els()[j].wrap_s(),
            ) by {
                assert(!pre_l.in_rng(l as int, j));
                assert(self.els()[j] == pre_l.els()[j]);
            }
        }
        self.subdivide::<SF>(r);
        let ghost post_r = *self;
        proof {
            // the left child and its region survive the right recursion
            assert forall|k: int| pre_r.in_region(l as int, pre_l.nodes_in_use as int, k) implies post_r.node_ok(
                k,
            ) && post_r.box_ok(k) by {
                assert(pre_r.node_ok(k) && pre_r.box_ok(k));
                assert(post_r.nodes()[k] == pre_r.nodes()[k]);
                assert(post_r.ranges@[k] == pre_r.ranges@[k]);
                if pre_r.nodes()[k].num_prims > 0 {
                    assert forall|j: int| pre_r.in_rng(k, j) implies post_r.els()[j] == pre_r.els()[j] by {
                        assert(pre_r.rng(k).0 >= first as int && pre_r.rng(k).0 + pre_r.rng(k).1
                            <= first + left_count);
                        assert(!pre_r.in_rng(r as int, j));
                    }
                } else {
                    let ch = pre_r.nodes()[k].left_first as int;
                    assert(post_r.nodes()[ch] == pre_r.nodes()[ch]);
                    assert(post_r.nodes()[ch + 1] == pre_r.nodes()[ch + 1]);
                    assert(post_r.ranges@[ch] == pre_r.ranges@[ch]);
                    assert(post_r.ranges@[ch + 1] == pre_r.ranges@[ch + 1]);
                }
                lemma_node_transport(pre_r, post_r, k);
            }
        }
        // the node's box becomes the union of its children's final boxes
        let lb = self.pool.at(l).aabb;
        let rb = self.pool.at(r).aabb;
        let mut bx = AABB::new();
        bx.adjust(&lb, &rb);
        self.pool.vec.set(node_id, BVHNode { aabb: bx, left_first: l, num_prims: 0 });
        proof {
            let ghost fin = *self;
            let ghost f = first as int;
            let ghost c = count as int;
            let ghost lc = left_count as int;
            let ghost li = l as int;
            let ghost ri = r as int;
            let ghost on = pre.nodes_in_use as int;
            let ghost n1 = pre_l.nodes_in_use as int;
            let ghost n2 = pre_r.nodes_in_use as int;
            assert(n1 == on + 2);
            assert(fin.rng(node_id as int) == pre.rng(node_id as int));
            assert(fin.ranges@[li] == (f, lc));
            assert(fin.ranges@[ri] == ((f + lc), (c - lc)));
            // elements: the multiset survives, values outside the range survive
            assert(fin.els().to_multiset() == pre.els().to_multiset());
            assert forall|j: int|
                0 <= j < pre.els().len() && !pre.in_rng(node_id as int, j) implies fin.els()[j]
                == pre.els()[j] by {
                assert(!pre_l.in_rng(li, j));
                assert(!pre_r.in_rng(ri, j));
            }
            // nodes below the old watermark other than the split node survive
            assert forall|k: int| 0 <= k < on && k != node_id implies fin.nodes()[k] == pre.nodes()[
                k
            ] by {
                assert(pre_l.nodes()[k] == mid.nodes()[k]);
                assert(pre_r.nodes()[k] == pre_l.nodes()[k]);
                assert(post_r.nodes()[k] == pre_r.nodes()[k]);
            }
            // every region node is consistent in the final state
            assert forall|k: int| fin.in_region(node_id as int, on, k) implies fin.node_ok(k)
                && fin.box_ok(k) by {
                if k == node_id {
                    assert(fin.nodes()[li] == post_r.nodes()[li]);
                    assert(fin.nodes()[ri] == post_r.nodes()[ri]);
                    assert(post_r.box_ok(li));
                    assert(post_r.box_ok(ri));
                    assert(fin.nodes()[k].aabb == aabb_union(fin.nodes()[li].aabb, fin.nodes()[ri].aabb));
                    crate::aabb::lemma_aabb_union_wf(fin.nodes()[li].aabb, fin.nodes()[ri].aabb);
                    assert(fin.node_ok(k));
                    assert(fin.box_ok(k));
                } else {
                    // the node carries over from the state after the right
                    // recursion: the final write touches only the split node
                    if k == li || n1 <= k < n2 {
                        assert(pre_r.in_region(li, n1, k));
                    } else {
                        assert(post_r.in_region(ri, n2, k));
                    }
                    assert(post_r.node_ok(k) && post_r.box_ok(k));
                    assert(fin.nodes()[k] == post_r.nodes()[k]);
                    assert(fin.ranges@[k] == post_r.ranges@[k]);
                    if post_r.nodes()[k].num_prims == 0 {
                        let ch = post_r.nodes()[k].left_first as int;
                        assert(ch > k);
                        assert(fin.nodes()[ch] == post_r.nodes()[ch]);
                        assert(fin.nodes()[ch + 1] == post_r.nodes()[ch + 1]);
                        assert(fin.ranges@[ch] == post_r.ranges@[ch]);
                        assert(fin.ranges@[ch + 1] == post_r.ranges@[ch + 1]);
                    }
                    lemma_node_transport(post_r, fin, k);
                }
            }
            // leaves of the region stay inside the split node's range
            assert forall|k: int|
                fin.in_region(node_id as int, on, k) && fin.nodes()[k].num_prims > 0 implies pre.rng(
                node_id as int,
            ).0 <= fin.rng(k).0 && fin.rng(k).0 + fin.rng(k).1 <= pre.rng(node_id as int).0
                + pre.rng(node_id as int).1 by {
                if k == li || n1 <= k < n2 {
                    assert(pre_r.in_region(li, n1, k));
                    assert(pre_r.rng(k) == fin.rng(k));
                    assert(pre_r.nodes()[k].num_prims == fin.nodes()[k].num_prims);
                } else if k == ri || n2 <= k < fin.nodes_in_use {
                    assert(post_r.in_region(ri, n2, k));
                    assert(post_r.rng(k) == fin.rng(k));
                }
            }
            // leaves of the region are pairwise disjoint
            assert forall|k1: int, k2: int|
                fin.in_region(node_id as int, on, k1) && fin.in_region(node_id as int, on, k2)
                    && k1 != k2 && fin.nodes()[k1].num_prims > 0 && fin.nodes()[k2].num_prims
                    > 0 implies (fin.rng(k1).0 + fin.rng(k1).1 <= fin.rng(k2).0 || fin.rng(k2).0
                + fin.rng(k2).1 <= fin.rng(k1).0) by {
                let left1 = k1 == li || n1 <= k1 < n2;
                let left2 = k2 == li || n1 <= k2 < n2;
                if left1 {
                    assert(pre_r.in_region(li, n1, k1));
                    assert(pre_r.rng(k1) == fin.rng(k1));
                    assert(f <= fin.rng(k1).0 && fin.rng(k1).0 + fin.rng(k1).1 <= f + lc);
                } else {
                    assert(post_r.in_region(ri, n2, k1));
                    assert(f + lc <= fin.rng(k1).0 && fin.rng(k1).0 + fin.rng(k1).1 <= f + c);
                }
                if left2 {
                    assert(pre_r.in_region(li, n1, k2));
                    assert(pre_r.rng(k2) == fin.rng(k2));
                    assert(f <= fin.rng(k2).0 && fin.rng(k2).0 + fin.rng(k2).1 <= f + lc);
                } else {
                    assert(post_r.in_region(ri, n2, k2));
                    assert(f + lc <= fin.rng(k2).0 && fin.rng(k2).0 + fin.rng(k2).1 <= f + c);
                }
                if left1 == left2 {
                    if left1 {
                        assert(pre_r.in_region(li, n1, k1) && pre_r.in_region(li, n1, k2));
                    } else {
                        assert(post_r.in_region(ri, n2, k1) && post_r.in_region(ri, n2, k2));
                    }
                }
            }
            // the accepted plane partitions the final arrangement: the left
            // child's range keeps the strictly-left elements through both
            // recursions, the right child's range the others
            let below = |e: E| v3_axis_s(e.centroid_s(), split.axis as int) < split.pos;
            let not_below = |e: E| !(v3_axis_s(e.centroid_s(), split.axis as int) < split.pos);
            assert(pre_l.els() == mid.els());
            assert(forall|j: int| f <= j < f + lc ==> below(#[trigger] pre_l.els()[j]));
            assert(forall|j: int| f + lc <= j < f + c ==> not_below(#[trigger] pre_l.els()[j]));
            assert(pre_l.rng(li) == (f, lc));
            assert forall|j: int|
                0 <= j < pre_l.els().len() && !(f <= j < f + lc) implies pre_l.els()[j]
                == pre_r.els()[j] by {
                assert(!pre_l.in_rng(li, j));
            }
            lemma_range_prop_transport(pre_l.els(), pre_r.els(), f, lc, below);
            assert forall|j: int| f + lc <= j < f + c implies not_below(
                #[trigger] pre_r.els()[j],
            ) by {
                assert(!pre_l.in_rng(li, j));
                assert(pre_r.els()[j] == pre_l.els()[j]);
            }
            assert(pre_r.rng(ri) == ((f + lc), (c - lc)));
            assert forall|j: int|
                0 <= j < pre_r.els().len() && !(f + lc <= j < f + c) implies pre_r.els()[j]
                == post_r.els()[j] by {
                assert(!pre_r.in_rng(ri, j));
            }
            lemma_range_prop_transport(pre_r.els(), post_r.els(), f + lc, c - lc, not_below);
            assert forall|j: int| f <= j < f + lc implies below(#[trigger] post_r.els()[j]) by {
                assert(!pre_r.in_rng(ri, j));
                assert(post_r.els()[j] == pre_r.els()[j]);
            }
            assert(fin.els() == post_r.els());
            assert(fin.rng(li).1 == lc);
            assert forall|j: int| f <= j < f + lc implies v3_axis_s(
                (#[trigger] fin.els()[j]).centroid_s(),
                split.axis as int,
            ) < split.pos by {
                assert(below(fin.els()[j]));
            }
            assert forall|j: int| f + lc <= j < f + c implies !(v3_axis_s(
                (#[trigger] fin.els()[j]).centroid_s(),
                split.axis as int,
            ) < split.pos) by {
                assert(not_below(fin.els()[j]));
            }
            assert(subdivide_outcome::<E, SF>(*old(self), fin, node_id as int, split));
        }
    }
}


impl<E: BVHElement> BVH<E> {
    /// Rebuilds the whole tree under the split strategy `SF`. The element
    /// pool is permuted in place; afterwards the root covers every element
    /// and the tree is well-formed (when there is anything to build over).
    pub fn rebuild<SF: BVHSplitting<E>>(&mut self)
        requires
            old(self).elems_wf(),
            old(self).els().len() <= BVH_MAX_ELEMS,
        ensures
            final(self).storage_wf(),
            final(self).elems_wf(),
            final(self).els().len() == old(self).els().len(),
            final(self).els().to_multiset() == old(self).els().to_multiset(),
            old(self).els().len() >= 1 ==> final(self).tree_wf(),
            old(self).els().len() >= 1 ==> final(self).nodes_in_use <= 2 * old(self).els().len()
                - 1,
            old(self).els().len() >= 1 ==> forall|j: int|
                0 <= j < final(self).els().len() ==> #[trigger] final(self).covered_by_leaf(j),
            // the strategy's proposal for the whole pool decides the root:
            // it splits exactly when accepted against the root box, and the
            // first two children then partition the pool at its plane
            old(self).els().len() >= 2 ==> (exists|s: BVHSplit|
                {
                    let acc = split_accepted(
                        old(self).els(),
                        0,
                        old(self).els().len() as int,
                        grow_range(old(self).els(), 0, old(self).els().len() as int),
                        2,
                        s,
                    );
                    &&& #[trigger] SF::proposal_ok(
                        old(self).els(),
                        0,
                        old(self).els().len() as int,
                        s,
                    )
                    &&& s.axis < 3
                    &&& (acc ==> {
                        let lc = final(self).rng(1).1;
                        &&& final(self).nodes()[0].num_prims == 0
                        &&& final(self).nodes()[0].left_first == 1
                        &&& final(self).rng(1).0 == 0
                        &&& 1 <= lc
                        &&& 1 <= final(self).rng(2).1
                        &&& lc + final(self).rng(2).1 == old(self).els().len()
                        &&& final(self).rng(2).0 == lc
                        &&& (forall|j: int|
                            0 <= j < lc ==> v3_axis_s(
                                (#[trigger] final(self).els()[j]).centroid_s(),
                                s.axis as int,
                            ) < s.pos)
                        &&& (forall|j: int|
                            lc <= j < old(self).els().len() ==> !(v3_axis_s(
                                (#[trigger] final(self).els()[j]).centroid_s(),
                                s.axis as int,
                            ) < s.pos))
                    })
                    &&& (!acc ==> final(self).nodes()[0].num_prims == old(self).els().len()
                        && final(self).nodes_in_use == 1)
                }),
    {
        let n = self.elements.vec.len();
        let target: usize = if n == 0 {
            1
        } else {
            2 * n - 1
        };
        while self.pool.vec.len() < target
            invariant
                self.elements == old(self).elements,
                self.ranges == old(self).ranges,
            decreases target - self.pool.vec.len(),
        {
            self.pool.push(BVHNode::new());
        }
        self.root = 0;
        self.nodes_in_use = 1;
        proof {
            self.ranges@ = self.ranges@.insert(0int, (0int, self.els().len() as int));
        }
        self.pool.vec.set(0, BVHNode { aabb: AABB::new(), left_first: 0, num_prims: n });
        self.update_bounds(0);
        if n > 0 {
            proof {
                assert forall|j: int| self.in_rng(0, j) implies aabb_contains(
                    self.nodes()[0].aabb,
                    #[trigger] self.els()[j].wrap_s(),
                ) by {
                    lemma_grow_range_contains(self.els(), 0, self.els().len() as int, j);
                }
                lemma_grow_range_wf(self.els(), 0, self.els().len() as int);
                assert(self.box_ok(0));
            }
            let ghost pre = *self;
            self.subdivide::<SF>(0);
            proof {
                assert forall|i: int| 0 <= i < self.nodes_in_use implies self.node_ok(i)
                    && self.box_ok(i) by {
                    assert(self.in_region(0, 1, i));
                }
                assert forall|i: int, k: int|
                    0 <= i < self.nodes_in_use && 0 <= k < self.nodes_in_use && i != k
                        && self.nodes()[i].num_prims > 0 && self.nodes()[k].num_prims
                        > 0 implies (self.rng(i).0 + self.rng(i).1 <= self.rng(k).0 || self.rng(
                    k,
                ).0 + self.rng(k).1 <= self.rng(i).0) by {
                    assert(self.in_region(0, 1, i));
                    assert(self.in_region(0, 1, k));
                }
                assert(self.leaves_disjoint());
                assert(self.tree_wf());
                assert forall|j: int| 0 <= j < self.els().len() implies #[trigger] self.covered_by_leaf(
                    j,
                ) by {
                    assert(self.rng(0) == (0int, self.els().len() as int));
                    assert(self.in_rng(0, j));
                    self.lemma_leaf_cover(0, j);
                }
                if old(self).els().len() >= 2 {
                    let nn = old(self).els().len() as int;
                    assert(pre.rng(0) == (0int, nn));
                    let s = choose|s: BVHSplit|
                        #[trigger] subdivide_outcome::<E, SF>(pre, *self, 0, s);
                    assert(pre.els() == old(self).els());
                    assert(pre.nodes()[0].aabb == grow_range(old(self).els(), 0, nn));
                    // the root state always has room for two children, so the
                    // acceptance test reduces to the cost and the plane
                    assert(pre.nodes().len() - pre.nodes_in_use >= 2);
                    assert(split_accepted(
                        old(self).els(),
                        0,
                        nn,
                        grow_range(old(self).els(), 0, nn),
                        2,
                        s,
                    ) == split_accepted(
                        pre.els(),
                        0,
                        nn,
                        pre.nodes()[0].aabb,
                        pre.nodes().len() - pre.nodes_in_use,
                        s,
                    ));
                    assert(SF::proposal_ok(old(self).els(), 0, nn, s));
                }
            }
        }
    }

    /// Element index `j` lies in the range of some leaf of the tree.
    pub open spec fn covered_by_leaf(self, j: int) -> bool {
        exists|k: int|
            0 <= k < self.nodes_in_use && self.nodes()[k].num_prims > 0 && #[trigger] self.in_rng(
                k,
                j,
            )
    }

    /// Every element index of a node's range lies in the range of some leaf
    /// below it.
    pub proof fn lemma_leaf_cover(self, i: int, j: int)
        requires
            self.storage_wf(),
            forall|k: int| 0 <= k < self.nodes_in_use ==> self.node_ok(k),
            0 <= i < self.nodes_in_use,
            self.in_rng(i, j),
        ensures
            self.covered_by_leaf(j),
        decreases self.nodes_in_use - i,
    {
        let n = self.nodes()[i];
        assert(self.node_ok(i));
        if n.num_prims > 0 {
            assert(self.nodes()[i].num_prims > 0 && self.in_rng(i, j));
        } else {
            let l = n.left_first as int;
            if self.in_rng(l, j) {
                self.lemma_leaf_cover(l, j);
            } else {
                assert(self.in_rng(l + 1, j));
                self.lemma_leaf_cover(l + 1, j);
            }
        }
    }

    /// The wrap of every element of a node's range lies inside the node's box.
    pub proof fn lemma_node_contains(self, i: int, j: int)
        requires
            self.tree_wf(),
            0 <= i < self.nodes_in_use,
            self.in_rng(i, j),
        ensures
            aabb_contains(self.nodes()[i].aabb, self.els()[j].wrap_s()),
        decreases self.nodes_in_use - i,
    {
        let n = self.nodes()[i];
        assert(self.node_ok(i));
        assert(self.box_ok(i));
        if n.num_prims > 0 {
        } else {
            let l = n.left_first as int;
            assert(self.node_ok(l));
            assert(self.node_ok(l + 1));
            crate::aabb::lemma_aabb_union_bounds(self.nodes()[l].aabb, self.nodes()[l + 1].aabb);
            if self.in_rng(l, j) {
                self.lemma_node_contains(l, j);
                crate::aabb::lemma_aabb_contains_trans(
                    n.aabb,
                    self.nodes()[l].aabb,
                    self.els()[j].wrap_s(),
                );
            } else {
                assert(self.in_rng(l + 1, j));
                self.lemma_node_contains(l + 1, j);
                crate::aabb::lemma_aabb_contains_trans(
                    n.aabb,
                    self.nodes()[l + 1].aabb,
                    self.els()[j].wrap_s(),
                );
            }
        }
    }

    /// The number of nodes of the subtree rooted at `i`.
    pub open spec fn weight(self, i: int) -> nat
        decreases self.nodes_in_use - i,
    {
        let n = self.nodes()[i];
        if 0 <= i < self.nodes_in_use && n.num_prims == 0 && i < n.left_first && n.left_first + 1
            < self.nodes_in_use {
            (1 + self.weight(n.left_first as int) + self.weight(n.left_first as int + 1)) as nat
        } else {
            1
        }
    }

    /// The number of nodes below all stacked subtrees.
    pub open spec fn stack_weight(self, st: Seq<usize>) -> nat
        decreases st.len(),
    {
        if st.len() == 0 {
            0
        } else {
            self.weight(st.last() as int) + self.stack_weight(st.drop_last())
        }
    }

    /// Pushing a node adds its subtree weight to the stack weight.
    pub proof fn lemma_stack_weight_push(self, st: Seq<usize>, x: usize)
        ensures
            self.stack_weight(st.push(x)) == self.stack_weight(st) + self.weight(x as int),
    {
        assert(st.push(x).last() == x);
        assert(st.push(x).drop_last() =~= st);
    }
}

/// The intersector's box test respects containment: whatever hits a box also
/// hits every enclosing box.
pub open spec fn hits_grows<I: BVIntersector<AABB>>(i: &I) -> bool {
    forall|inner: AABB, outer: AABB|
        #[trigger] aabb_contains(outer, inner) && i.hits(&inner) ==> i.hits(&outer)
}

impl<E: BVHElement> BVH<E> {
    /// Some element index of node `i`'s range is still waiting on the stack.
    pub open spec fn pending(self, st: Seq<usize>, j: int) -> bool {
        exists|s: int| 0 <= s < st.len() && self.in_rng(#[trigger] st[s] as int, j)
    }

    /// `r` refers to an element of node `node_idx`'s range.
    pub open spec fn from_range(self, node_idx: int, r: &E) -> bool {
        exists|j: int| 0 <= j < self.els().len() && self.in_rng(node_idx, j) && *r == self.els()[j]
    }
}

/// A sequence of pairwise-distinct integers drawn from a range is no longer
/// than the range.
pub proof fn lemma_distinct_in_range_len(s: Seq<int>, lo: int, hi: int)
    requires
        lo <= hi,
        forall|k: int| 0 <= k < s.len() ==> lo <= #[trigger] s[k] < hi,
        forall|k1: int, k2: int|
            #![trigger s[k1], s[k2]]
            0 <= k1 < k2 < s.len() ==> s[k1] != s[k2],
    ensures
        s.len() <= hi - lo,
{
    broadcast use vstd::set::group_set_axioms;

    assert(s.no_duplicates()) by {
        assert forall|i: int, j: int|
            0 <= i < s.len() && 0 <= j < s.len() && i != j implies s[i] != s[j] by {
            if i < j {
            } else {
                assert(s[j] != s[i]);
            }
        }
    }
    s.unique_seq_to_set();
    vstd::seq_lib::seq_to_set_is_finite(s);
    vstd::set_lib::lemma_int_range(lo, hi);
    assert(s.to_set().subset_of(vstd::set_lib::set_int_range(lo, hi))) by {
        assert forall|x: int| s.to_set().contains(x) implies vstd::set_lib::set_int_range(
            lo,
            hi,
        ).contains(x) by {
            assert(s.contains(x));
            let k = choose|k: int| 0 <= k < s.len() && s[k] == x;
            assert(lo <= s[k] < hi);
        }
    }
    vstd::set_lib::lemma_len_subset(s.to_set(), vstd::set_lib::set_int_range(lo, hi));
}

/// The value `v` occurs among the referenced results.
pub open spec fn reported<E>(res: Seq<&E>, v: E) -> bool {
    exists|k: int| 0 <= k < res.len() && *(#[trigger] res[k]) == v
}

/// A result that was reported stays reported when the result list only grows.
proof fn lemma_reported_grow<E>(r1: Seq<&E>, r2: Seq<&E>, v: E)
    requires
        r1.len() <= r2.len(),
        forall|k: int| 0 <= k < r1.len() ==> r2[k] == r1[k],
        reported(r1, v),
    ensures
        reported(r2, v),
{
    let k = choose|k: int| 0 <= k < r1.len() && *(#[trigger] r1[k]) == v;
    assert(0 <= k < r2.len() && *r2[k] == v);
}

impl<E: BVHElement> BVH<E> {
    /// Returns references to the elements under `node_idx` that intersect the
    /// given intersector.
    ///
    /// Every returned element is hit and comes from the node's range
    /// (soundness). When the intersector's box test grows with containment
    /// and covers its element test on wraps, every element of the range whose
    /// wrap is hit is reported (completeness).
    pub fn intersect<'a, I: BVIntersector<E> + BVIntersector<AABB>>(
        &'a self,
        intersector: &I,
        node_idx: usize,
    ) -> (res: Vec<&'a E>)
        requires
            self.tree_wf(),
            node_idx < self.num_nodes_in_use(),
            forall|k: int|
                0 <= k < self.num_nodes_in_use() ==> <I as BVIntersector<AABB>>::req(
                    intersector,
                    &(#[trigger] self.nodes()[k]).aabb,
                ),
            forall|j: int|
                0 <= j < self.els().len() ==> <I as BVIntersector<E>>::req(
                    intersector,
                    &(#[trigger] self.els()[j]),
                ),
        ensures
            forall|k: int|
                0 <= k < res@.len() ==> <I as BVIntersector<E>>::hits(
                    intersector,
                    #[trigger] res@[k],
                ),
            forall|k: int|
                0 <= k < res@.len() ==> self.from_range(node_idx as int, #[trigger] res@[k]),
            hits_grows::<I>(intersector) ==> forall|j: int|
                self.in_rng(node_idx as int, j) && 0 <= j < self.els().len() && <I as BVIntersector<
                    AABB,
                >>::hits(intersector, &(#[trigger] self.els()[j]).wrap_s()) && <I as BVIntersector<
                    E,
                >>::hits(intersector, &self.els()[j]) ==> reported(res@, self.els()[j]),
            // each result comes from an element slot of its own: nothing is
            // reported twice
            exists|ix: Seq<int>|
                #![trigger ix.len()]
                ix.len() == res@.len() && (forall|k: int|
                    0 <= k < ix.len() ==> 0 <= #[trigger] ix[k] < self.els().len() && self.in_rng(
                        node_idx as int,
                        ix[k],
                    ) && *res@[k] == self.els()[ix[k]]) && (forall|k1: int, k2: int|
                    #![trigger ix[k1], ix[k2]]
                    0 <= k1 < k2 < ix.len() ==> ix[k1] != ix[k2]),
            res@.len() <= self.rng(node_idx as int).1,
    {
        let mut res: Vec<&E> = Vec::with_capacity(64);
        let mut stack: Vec<usize> = Vec::with_capacity(64);
        let ghost mut ix: Seq<int> = Seq::empty();
        stack.push(node_idx);
        proof {
            assert(stack@[0] == node_idx);
            assert forall|j: int| self.in_rng(node_idx as int, j) implies self.pending(
                stack@,
                j,
            ) by {
                assert(self.in_rng(stack@[0] as int, j));
            }
        }
        while stack.len() > 0
            invariant
                self.tree_wf(),
                node_idx < self.num_nodes_in_use(),
                forall|k: int|
                    0 <= k < self.num_nodes_in_use() ==> <I as BVIntersector<AABB>>::req(
                        intersector,
                        &(#[trigger] self.nodes()[k]).aabb,
                    ),
                forall|j: int|
                    0 <= j < self.els().len() ==> <I as BVIntersector<E>>::req(
                        intersector,
                        &(#[trigger] self.els()[j]),
                    ),
                forall|s: int|
                    0 <= s < stack@.len() ==> (#[trigger] stack@[s]) < self.num_nodes_in_use(),
                forall|s: int|
                    0 <= s < stack@.len() ==> self.rng(node_idx as int).0 <= self.rng(
                        #[trigger] stack@[s] as int,
                    ).0 && self.rng(stack@[s] as int).0 + self.rng(stack@[s] as int).1 <= self.rng(
                        node_idx as int,
                    ).0 + self.rng(node_idx as int).1,
                forall|k: int|
                    0 <= k < res@.len() ==> <I as BVIntersector<E>>::hits(
                        intersector,
                        #[trigger] res@[k],
                    ),
                forall|k: int|
                    0 <= k < res@.len() ==> self.from_range(node_idx as int, #[trigger] res@[k]),
                hits_grows::<I>(intersector) ==> forall|j: int|
                    self.in_rng(node_idx as int, j) && 0 <= j < self.els().len() && !self.pending(
                        stack@,
                        j,
                    ) && <I as BVIntersector<AABB>>::hits(
                        intersector,
                        &(#[trigger] self.els()[j]).wrap_s(),
                    ) && <I as BVIntersector<E>>::hits(intersector, &self.els()[j]) ==> reported(
                        res@,
                        self.els()[j],
                    ),
                ix.len() == res@.len(),
                forall|k: int|
                    0 <= k < ix.len() ==> 0 <= #[trigger] ix[k] < self.els().len() && self.in_rng(
                        node_idx as int,
                        ix[k],
                    ) && *res@[k] == self.els()[ix[k]],
                forall|k1: int, k2: int|
                    #![trigger ix[k1], ix[k2]]
                    0 <= k1 < k2 < ix.len() ==> ix[k1] != ix[k2],
                forall|k: int, si: int|
                    #![trigger ix[k], stack@[si]]
                    0 <= k < ix.len() && 0 <= si < stack@.len() ==> !self.in_rng(
                        stack@[si] as int,
                        ix[k],
                    ),
                forall|s1: int, s2: int|
                    #![trigger stack@[s1], stack@[s2]]
                    0 <= s1 < s2 < stack@.len() ==> (self.rng(stack@[s1] as int).0 + self.rng(
                        stack@[s1] as int,
                    ).1 <= self.rng(stack@[s2] as int).0 || self.rng(stack@[s2] as int).0
                        + self.rng(stack@[s2] as int).1 <= self.rng(stack@[s1] as int).0),
            decreases self.stack_weight(stack@),
        {
            let ghost st0 = stack@;
            let ghost res0 = res@;
            let node_id = stack.pop().unwrap();
            assert(st0.last() == node_id && stack@ == st0.drop_last());
            proof {
                assert(self.stack_weight(st0) == self.stack_weight(st0.drop_last()) + self.weight(
                    node_id as int,
                ));
                assert(self.weight(node_id as int) >= 1);
            }
            let nd = self.pool.at(node_id);
            assert(self.node_ok(node_id as int) && self.box_ok(node_id as int));
            if nd.num_prims > 0 {
                let first = nd.left_first;
                let cnt = nd.num_prims;
                proof {
                    // the popped leaf's range is disjoint from what remains
                    // on the stack, and from everything reported so far
                    assert forall|si: int| 0 <= si < stack@.len() implies (self.rng(
                        stack@[si] as int,
                    ).0 + self.rng(stack@[si] as int).1 <= first || first + cnt <= self.rng(
                        stack@[si] as int,
                    ).0) by {
                        assert(st0[si] == stack@[si]);
                        assert(st0[st0.len() - 1] == node_id);
                    }
                    assert forall|k: int| #![trigger ix[k]] 0 <= k < ix.len() implies !(first
                        <= ix[k] < first + cnt) by {
                        assert(!self.in_rng(st0[st0.len() - 1] as int, ix[k]));
                    }
                }
                let mut t: usize = 0;
                while t < cnt
                    invariant
                        self.tree_wf(),
                        node_idx < self.num_nodes_in_use(),
                        t <= cnt,
                        (node_id as int) < self.num_nodes_in_use(),
                        first == self.rng(node_id as int).0,
                        cnt == self.rng(node_id as int).1,
                        first + cnt <= self.els().len(),
                        self.rng(node_idx as int).0 <= first,
                        first + cnt <= self.rng(node_idx as int).0 + self.rng(node_idx as int).1,
                        forall|j: int|
                            0 <= j < self.els().len() ==> <I as BVIntersector<E>>::req(
                                intersector,
                                &(#[trigger] self.els()[j]),
                            ),
                        forall|k: int|
                            0 <= k < res@.len() ==> <I as BVIntersector<E>>::hits(
                                intersector,
                                #[trigger] res@[k],
                            ),
                        forall|k: int|
                            0 <= k < res@.len() ==> self.from_range(
                                node_idx as int,
                                #[trigger] res@[k],
                            ),
                        forall|j: int|
                            first <= j < first + t && <I as BVIntersector<E>>::hits(
                                intersector,
                                &(#[trigger] self.els()[j]),
                            ) ==> reported(res@, self.els()[j]),
                        res0.len() <= res@.len(),
                        forall|k: int| 0 <= k < res0.len() ==> res@[k] == res0[k],
                        ix.len() == res@.len(),
                        forall|k: int|
                            0 <= k < ix.len() ==> 0 <= #[trigger] ix[k] < self.els().len()
                                && self.in_rng(node_idx as int, ix[k]) && *res@[k]
                                == self.els()[ix[k]],
                        forall|k1: int, k2: int|
                            #![trigger ix[k1], ix[k2]]
                            0 <= k1 < k2 < ix.len() ==> ix[k1] != ix[k2],
                        forall|k: int, si: int|
                            #![trigger ix[k], stack@[si]]
                            0 <= k < ix.len() && 0 <= si < stack@.len() ==> !self.in_rng(
                                stack@[si] as int,
                                ix[k],
                            ),
                        forall|si: int|
                            0 <= si < stack@.len() ==> (self.rng(#[trigger] stack@[si] as int).0
                                + self.rng(stack@[si] as int).1 <= first || first + cnt <= self.rng(
                                stack@[si] as int,
                            ).0),
                        forall|k: int|
                            #![trigger ix[k]]
                            0 <= k < ix.len() ==> !(first + t <= ix[k] < first + cnt),
                    decreases cnt - t,
                {
                    let ghost res_before = res@;
                    let ghost ix_before = ix;
                    let e = self.elements.at(first + t);
                    if intersector.intersects(e) {
                        res.push(e);
                        proof {
                            ix = ix.push(first as int + t as int);
                            assert(self.in_rng(node_idx as int, first + t));
                            assert(*res@[res@.len() - 1] == self.els()[first + t]);
                            assert(self.from_range(node_idx as int, res@[res@.len() - 1]));
                            assert forall|k: int, si: int|
                                #![trigger ix[k], stack@[si]]
                                0 <= k < ix.len() && 0 <= si < stack@.len() implies !self.in_rng(
                                stack@[si] as int,
                                ix[k],
                            ) by {
                                if k < ix.len() - 1 {
                                    assert(ix[k] == ix_before[k]);
                                } else {
                                    assert(ix[k] == first + t);
                                }
                            }
                        }
                    }
                    proof {
                        assert forall|j: int|
                            first <= j < first + t + 1 && <I as BVIntersector<E>>::hits(
                                intersector,
                                &(#[trigger] self.els()[j]),
                            ) implies reported(res@, self.els()[j]) by {
                            if j < first + t {
                                lemma_reported_grow(res_before, res@, self.els()[j]);
                            } else {
                                assert(*res@[res@.len() - 1] == self.els()[j]);
                            }
                        }
                    }
                    t += 1;
                }
                proof {
                    if hits_grows::<I>(intersector) {
                        assert forall|j: int|
                            self.in_rng(node_idx as int, j) && 0 <= j < self.els().len()
                                && !self.pending(stack@, j) && <I as BVIntersector<AABB>>::hits(
                                intersector,
                                &(#[trigger] self.els()[j]).wrap_s(),
                            ) && <I as BVIntersector<E>>::hits(
                                intersector,
                                &self.els()[j],
                            ) implies reported(res@, self.els()[j]) by {
                            if !self.pending(st0, j) {
                                lemma_reported_grow(res0, res@, self.els()[j]);
                            } else {
                                let s = choose|s: int|
                                    0 <= s < st0.len() && self.in_rng(#[trigger] st0[s] as int, j);
                                if s < st0.len() - 1 {
                                    assert(stack@[s] == st0[s]);
                                    assert(self.pending(stack@, j));
                                } else {
                                    assert(self.in_rng(node_id as int, j));
                                }
                            }
                        }
                    }
                }
            } else {
                let c1 = nd.left_first;
                let c2 = c1 + 1;
                let i1 = intersector.intersects(self.pool.at(c1).aabb());
                let i2 = intersector.intersects(self.pool.at(c2).aabb());
                if i2 {
                    stack.push(c2);
                }
                if i1 {
                    stack.push(c1);
                }
                proof {
                    assert(self.node_ok(c1 as int));
                    assert(self.node_ok(c2 as int));
                    assert(self.weight(node_id as int) == 1 + self.weight(c1 as int) + self.weight(
                        c2 as int,
                    ));
                    if i1 && i2 {
                        assert(stack@ == st0.drop_last().push(c2).push(c1));
                        self.lemma_stack_weight_push(st0.drop_last(), c2);
                        self.lemma_stack_weight_push(st0.drop_last().push(c2), c1);
                    } else if i2 {
                        assert(stack@ == st0.drop_last().push(c2));
                        self.lemma_stack_weight_push(st0.drop_last(), c2);
                    } else if i1 {
                        assert(stack@ == st0.drop_last().push(c1));
                        self.lemma_stack_weight_push(st0.drop_last(), c1);
                    }
                    // the children's ranges stay inside the popped node's, so
                    // the stack's ranges stay pairwise disjoint and away from
                    // everything reported
                    let m0 = st0.len() - 1;
                    assert(st0[m0] == node_id);
                    assert(self.rng(c1 as int).0 == self.rng(node_id as int).0);
                    assert(self.rng(c2 as int).0 == self.rng(node_id as int).0 + self.rng(
                        c1 as int,
                    ).1);
                    assert(self.rng(c1 as int).1 + self.rng(c2 as int).1 == self.rng(
                        node_id as int,
                    ).1);
                    assert forall|s1: int, s2: int|
                        #![trigger stack@[s1], stack@[s2]]
                        0 <= s1 < s2 < stack@.len() implies (self.rng(stack@[s1] as int).0
                        + self.rng(stack@[s1] as int).1 <= self.rng(stack@[s2] as int).0
                        || self.rng(stack@[s2] as int).0 + self.rng(stack@[s2] as int).1
                        <= self.rng(stack@[s1] as int).0) by {
                        if s2 < m0 {
                            assert(stack@[s1] == st0[s1] && stack@[s2] == st0[s2]);
                        } else {
                            assert(stack@[s2] == c1 || stack@[s2] == c2);
                            if s1 < m0 {
                                assert(stack@[s1] == st0[s1]);
                                assert(self.rng(st0[s1] as int).0 + self.rng(st0[s1] as int).1
                                    <= self.rng(node_id as int).0 || self.rng(node_id as int).0
                                    + self.rng(node_id as int).1 <= self.rng(st0[s1] as int).0);
                            } else {
                                assert(i1 && i2);
                                assert(stack@[s1] == c2 && stack@[s2] == c1);
                            }
                        }
                    }
                    assert forall|k: int, si: int|
                        #![trigger ix[k], stack@[si]]
                        0 <= k < ix.len() && 0 <= si < stack@.len() implies !self.in_rng(
                        stack@[si] as int,
                        ix[k],
                    ) by {
                        if si < m0 {
                            assert(stack@[si] == st0[si]);
                            assert(!self.in_rng(st0[si] as int, ix[k]));
                        } else {
                            assert(stack@[si] == c1 || stack@[si] == c2);
                            assert(!self.in_rng(st0[m0] as int, ix[k]));
                        }
                    }
                    if hits_grows::<I>(intersector) {
                        assert forall|j: int|
                            self.in_rng(node_idx as int, j) && 0 <= j < self.els().len()
                                && !self.pending(stack@, j) && <I as BVIntersector<AABB>>::hits(
                                intersector,
                                &(#[trigger] self.els()[j]).wrap_s(),
                            ) && <I as BVIntersector<E>>::hits(
                                intersector,
                                &self.els()[j],
                            ) implies reported(res@, self.els()[j]) by {
                            if !self.pending(st0, j) {
                            } else {
                                let s = choose|s: int|
                                    0 <= s < st0.len() && self.in_rng(#[trigger] st0[s] as int, j);
                                if s < st0.len() - 1 {
                                    assert(stack@[s] == st0[s]);
                                    assert(self.pending(stack@, j));
                                } else {
                                    // j lies under the popped internal node,
                                    // hence under one of its children
                                    assert(self.in_rng(node_id as int, j));
                                    let cz: int = if self.in_rng(c1 as int, j) {
                                        c1 as int
                                    } else {
                                        c2 as int
                                    };
                                    assert(self.in_rng(cz, j));
                                    self.lemma_node_contains(cz, j);
                                    assert(aabb_contains(
                                        self.nodes()[cz].aabb,
                                        self.els()[j].wrap_s(),
                                    ));
                                    assert(<I as BVIntersector<AABB>>::hits(
                                        intersector,
                                        &self.nodes()[cz].aabb,
                                    ));
                                    if cz == c1 as int {
                                        assert(i1);
                                        assert(stack@.last() == c1);
                                        assert(self.pending(stack@, j));
                                    } else {
                                        assert(i2);
                                        if i1 {
                                            assert(stack@[stack@.len() - 2] == c2);
                                        } else {
                                            assert(stack@.last() == c2);
                                        }
                                        assert(self.pending(stack@, j));
                                    }
                                }
                            }
                        }
                    }
                }
            }
        }
        proof {
            assert(ix.len() == res@.len() && (forall|k: int|
                0 <= k < ix.len() ==> 0 <= #[trigger] ix[k] < self.els().len() && self.in_rng(
                    node_idx as int,
                    ix[k],
                ) && *res@[k] == self.els()[ix[k]]) && (forall|k1: int, k2: int|
                #![trigger ix[k1], ix[k2]]
                0 <= k1 < k2 < ix.len() ==> ix[k1] != ix[k2]));
            assert(self.node_ok(node_idx as int));
            lemma_distinct_in_range_len(
                ix,
                self.rng(node_idx as int).0,
                self.rng(node_idx as int).0 + self.rng(node_idx as int).1,
            );
        }
        res
    }
}


/// Largest cost value; stands for "no worthwhile split".
pub const COST_MAX: i128 = i128::MAX;

/// How many elements of the range fall strictly left of the plane.
pub open spec fn sah_left_count<E: BVHElement>(
    els: Seq<E>,
    first: int,
    count: int,
    axis: int,
    pos: i64,
) -> int
    decreases count,
{
    if count <= 0 {
        0
    } else {
        sah_left_count(els, first, count - 1, axis, pos) + if v3_axis_s(
            els[first + count - 1].centroid_s(),
            axis,
        ) < pos {
            1int
        } else {
            0int
        }
    }
}

/// The box grown around the wraps of the elements strictly left of the plane.
pub open spec fn sah_left_box<E: BVHElement>(
    els: Seq<E>,
    first: int,
    count: int,
    axis: int,
    pos: i64,
) -> AABB
    decreases count,
{
    if count <= 0 {
        empty_aabb()
    } else {
        let prev = sah_left_box(els, first, count - 1, axis, pos);
        if v3_axis_s(els[first + count - 1].centroid_s(), axis) < pos {
            aabb_union(prev, els[first + count - 1].wrap_s())
        } else {
            prev
        }
    }
}

/// The box grown around the wraps of the elements at or right of the plane.
pub open spec fn sah_right_box<E: BVHElement>(
    els: Seq<E>,
    first: int,
    count: int,
    axis: int,
    pos: i64,
) -> AABB
    decreases count,
{
    if count <= 0 {
        empty_aabb()
    } else {
        let prev = sah_right_box(els, first, count - 1, axis, pos);
        if v3_axis_s(els[first + count - 1].centroid_s(), axis) < pos {
            prev
        } else {
            aabb_union(prev, els[first + count - 1].wrap_s())
        }
    }
}

/// The surface-area-heuristic score of splitting the range at `pos` on
/// `axis`: each side's element count weighted with its box's area proxy. A
/// non-positive score means a degenerate split and scores as `COST_MAX`.
pub open spec fn eval_sah_s<E: BVHElement>(
    els: Seq<E>,
    first: int,
    count: int,
    axis: int,
    pos: i64,
) -> int {
    let lc = sah_left_count(els, first, count, axis, pos);
    let cost = lc * crate::aabb::aabb_area_s(sah_left_box(els, first, count, axis, pos)) + (count
        - lc) * crate::aabb::aabb_area_s(sah_right_box(els, first, count, axis, pos));
    if cost > 0 {
        cost
    } else {
        COST_MAX as int
    }
}

impl<E: BVHElement> BVH<E> {
    /// Scores the split of leaf `node_id`'s range at position `pos` along
    /// `axis` under the surface-area heuristic.
    pub fn eval_sah(&self, node_id: usize, axis: usize, pos: i64) -> (r: i128)
        requires
            self.storage_wf(),
            self.elems_wf(),
            node_id < self.num_nodes_in_use(),
            self.nodes()[node_id as int].num_prims > 0,
            self.node_ok(node_id as int),
            axis < 3,
        ensures
            r == eval_sah_s(
                self.els(),
                self.rng(node_id as int).0,
                self.rng(node_id as int).1,
                axis as int,
                pos,
            ),
    {
        let first = self.pool.at(node_id).left_first;
        let count = self.pool.at(node_id).num_prims;
        let mut leftbox = AABB::new();
        let mut rightbox = AABB::new();
        let mut left_count: usize = 0;
        let mut right_count: usize = 0;
        let mut i: usize = 0;
        while i < count
            invariant
                self.storage_wf(),
                self.elems_wf(),
                node_id < self.num_nodes_in_use(),
                self.node_ok(node_id as int),
                axis < 3,
                first == self.rng(node_id as int).0,
                count == self.rng(node_id as int).1,
                first + count <= self.els().len(),
                i <= count,
                left_count + right_count == i,
                left_count == sah_left_count(self.els(), first as int, i as int, axis as int, pos),
                leftbox == sah_left_box(self.els(), first as int, i as int, axis as int, pos),
                rightbox == sah_right_box(self.els(), first as int, i as int, axis as int, pos),
                leftbox.wf(),
                rightbox.wf(),
            decreases count - i,
        {
            assert(self.els()[first + i].el_wf());
            proof {
                self.els()[first + i].lemma_el_wf();
            }
            let el = self.elements.at(first + i);
            let c = el.centroid();
            let w = el.wrap();
            proof {
                crate::aabb::lemma_aabb_union_wf(leftbox, w);
                crate::aabb::lemma_aabb_union_wf(rightbox, w);
            }
            if v3_axis(&c, axis) < pos {
                left_count += 1;
                leftbox.grow_other(&w);
            } else {
                right_count += 1;
                rightbox.grow_other(&w);
            }
            i += 1;
        }
        let la = leftbox.area();
        let ra = rightbox.area();
        proof {
            crate::aabb::lemma_area_bound(leftbox);
            crate::aabb::lemma_area_bound(rightbox);
            crate::fx::lemma_mul_bounds2(
                left_count as int,
                BVH_MAX_ELEMS as int,
                la as int,
                (3 * (0x200_0000_0000 * 0x200_0000_0000)) as int,
            );
            crate::fx::lemma_mul_bounds2(
                right_count as int,
                BVH_MAX_ELEMS as int,
                ra as int,
                (3 * (0x200_0000_0000 * 0x200_0000_0000)) as int,
            );
        }
        let cost: i128 = (left_count as i128) * la + (right_count as i128) * ra;
        if cost > 0 {
            cost
        } else {
            COST_MAX
        }
    }
}


impl BVHElement for AABB {
    open spec fn el_wf(&self) -> bool {
        self.wf()
    }

    open spec fn centroid_s(&self) -> V3 {
        V3 {
            x: crate::fx::tdiv(self.min.x + self.max.x, 2) as i64,
            y: crate::fx::tdiv(self.min.y + self.max.y, 2) as i64,
            z: crate::fx::tdiv(self.min.z + self.max.z, 2) as i64,
        }
    }

    open spec fn wrap_s(&self) -> AABB {
        *self
    }

    proof fn lemma_el_wf(&self) {
        vstd::arithmetic::div_mod::lemma_div_is_ordered(
            crate::fx::iabs(self.min.x + self.max.x),
            2 * (AABB_INF as int),
            2,
        );
        vstd::arithmetic::div_mod::lemma_div_is_ordered(
            crate::fx::iabs(self.min.y + self.max.y),
            2 * (AABB_INF as int),
            2,
        );
        vstd::arithmetic::div_mod::lemma_div_is_ordered(
            crate::fx::iabs(self.min.z + self.max.z),
            2 * (AABB_INF as int),
            2,
        );
    }

    fn centroid(&self) -> (c: V3) {
        let c = self.center();
        proof {
            vstd::arithmetic::div_mod::lemma_div_is_ordered(
                crate::fx::iabs(self.min.x + self.max.x),
                2 * (AABB_INF as int),
                2,
            );
            vstd::arithmetic::div_mod::lemma_div_is_ordered(
                crate::fx::iabs(self.min.y + self.max.y),
                2 * (AABB_INF as int),
                2,
            );
            vstd::arithmetic::div_mod::lemma_div_is_ordered(
                crate::fx::iabs(self.min.z + self.max.z),
                2 * (AABB_INF as int),
                2,
            );
        }
        c
    }

    fn wrap(&self) -> (a: AABB) {
        *self
    }
}

/// A box query's test grows with containment, so a BVH traversal with a box
/// never misses a hit behind a pruned node.
pub proof fn lemma_aabb_hits_grows(q: &AABB)
    ensures
        hits_grows::<AABB>(q),
{
    assert forall|inner: AABB, outer: AABB|
        #[trigger] aabb_contains(outer, inner) && q.hits(&inner) implies q.hits(&outer) by {
        crate::aabb::lemma_aabb_overlap_monotone(*q, inner, outer);
    }
}

} // verus!
