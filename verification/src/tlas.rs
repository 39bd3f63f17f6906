//! Top-level acceleration structure.
//!
//! A binary tree whose leaves are whole bodies. Child indices are packed into
//! 16 bits each, so a TLAS holds at most 65535 nodes. `build` clusters the
//! leaves bottom-up by smallest union surface area; `refit` recomputes the
//! boxes front-to-back (children always sit at lower indices than their
//! parent); traversal tests internal boxes and, at the leaves, the element's
//! tighter bounding volume.

use vstd::prelude::*;
use vstd::pervasive::VecAdditionalExecFns;
use vstd::multiset::Multiset;
use crate::aabb::{AABB, aabb_contains, aabb_union, aabb_area_s};
use crate::bvh::VecPool;
use crate::volume::BVIntersector;

verus! {

/// Largest node count the 16-bit child indices can address.
pub const TLAS_MAX_NODES: usize = 0x1_0000;

/// A TLAS node: its box, the packed child indices (zero marks a leaf), and
/// the element index for leaves.
pub struct TLASNode {
    pub aabb: AABB,
    pub left_right: u32,
    pub blas: u32,
}

impl TLASNode {
    /// A node with every field zeroed.
    pub fn new() -> (r: TLASNode)
        ensures
            r.aabb.is_empty(),
            r.left_right == 0,
            r.blas == 0,
    {
        TLASNode { aabb: AABB::new(), left_right: 0, blas: 0 }
    }

    /// Copies all values from `other`.
    pub fn copy_from(&mut self, other: &TLASNode)
        ensures
            final(self).aabb == other.aabb,
            final(self).left_right == other.left_right,
            final(self).blas == other.blas,
    {
        self.aabb = other.aabb;
        self.left_right = other.left_right;
        self.blas = other.blas;
    }

    pub fn aabb(&self) -> (r: &AABB)
        ensures
            r == self.aabb,
    {
        &self.aabb
    }

    /// True only for leaf nodes.
    pub fn is_leaf(&self) -> (r: bool)
        ensures
            r == (self.left_right == 0),
    {
        self.left_right == 0
    }

    /// The pool index of the left child.
    pub fn get_left_child(&self) -> (r: u16)
        ensures
            r == self.left_right as int / 0x10000,
    {
        (self.left_right / 0x10000) as u16
    }

    /// The pool index of the right child.
    pub fn get_right_child(&self) -> (r: u16)
        ensures
            r == self.left_right as int % 0x10000,
    {
        (self.left_right % 0x10000) as u16
    }
}

/// A pool that can hold TLAS nodes or elements.
pub trait TLASPool<T: Sized> {
    /// The pool's contents as a sequence.
    spec fn view_s(&self) -> Seq<T>;

    /// Appends `el` to the back of the pool.
    fn push(&mut self, el: T)
        ensures
            final(self).view_s() == old(self).view_s().push(el),
    ;

    /// Pops and returns the last element, or nothing if the pool is empty.
    fn pop(&mut self) -> (r: Option<T>)
        ensures
            old(self).view_s().len() == 0 ==> r is None && final(self).view_s() == old(self).view_s(),
            old(self).view_s().len() > 0 ==> r == Some(old(self).view_s().last()) && final(self).view_s() == old(self).view_s().drop_last(),
    ;

    /// Returns how many elements the pool holds.
    fn size(&self) -> (r: usize)
        ensures
            r == self.view_s().len(),
    ;

    /// Returns how many element slots the pool holds.
    fn capacity(&self) -> (r: usize)
        ensures
            r == self.view_s().len(),
    ;

    /// Trims the pool down to its first element; only a target length of one
    /// is meaningful.
    fn trim(&mut self, target_len: usize)
        requires
            target_len == 1,
            old(self).view_s().len() >= 1,
        ensures
            final(self).view_s() == seq![old(self).view_s()[0]],
    ;

    /// A shared reference to the first element, if any.
    fn front(&self) -> (r: Option<&T>)
        ensures
            self.view_s().len() == 0 ==> r is None,
            self.view_s().len() > 0 ==> r is Some && *r.unwrap() == self.view_s()[0],
    ;

    /// A shared reference to the last element, if any.
    fn back(&self) -> (r: Option<&T>)
        ensures
            self.view_s().len() == 0 ==> r is None,
            self.view_s().len() > 0 ==> r is Some && *r.unwrap() == self.view_s().last(),
    ;
}

impl<T: Sized> TLASPool<T> for VecPool<T> {
    open spec fn view_s(&self) -> Seq<T> {
        self.vec@
    }

    fn push(&mut self, el: T) {
        self.vec.push(el);
    }

    fn pop(&mut self) -> (r: Option<T>) {
        self.vec.pop()
    }

    fn size(&self) -> (r: usize) {
        self.vec.len()
    }

    fn capacity(&self) -> (r: usize) {
        self.vec.len()
    }

    fn trim(&mut self, target_len: usize) {
        let first = self.vec.remove(0);
        self.vec.clear();
        self.vec.push(first);
    }

    fn front(&self) -> (r: Option<&T>) {
        if self.vec.len() == 0 {
            None
        } else {
            Some(&self.vec[0])
        }
    }

    fn back(&self) -> (r: Option<&T>) {
        if self.vec.len() == 0 {
            None
        } else {
            Some(&self.vec[self.vec.len() - 1])
        }
    }
}

/// A body a TLAS can be built over: it has a wrapping box for the tree and a
/// tighter bounding volume of type `BV` for the leaf tests.
pub trait TLASElement: Sized {
    /// The tighter bounding volume's type.
    type BV;

    /// The element's geometry is inside the fixed-point working range.
    spec fn el_wf(&self) -> bool;

    /// The mathematical wrapping box.
    spec fn wrap_s(&self) -> AABB;

    /// The mathematical bounding volume.
    spec fn bv_s(&self) -> Self::BV;

    /// A well-formed element has a well-formed wrap inside the query range.
    proof fn lemma_el_wf(&self)
        requires
            self.el_wf(),
        ensures
            self.wrap_s().wf(),
            self.wrap_s().min.in_lim(0x10_0000_0000),
            self.wrap_s().max.in_lim(0x10_0000_0000),
    ;

    /// Returns an AABB that fully wraps the element.
    fn wrap(&self) -> (a: AABB)
        requires
            self.el_wf(),
        ensures
            a == self.wrap_s(),
    ;

    /// Returns the element's tighter bounding volume.
    fn bounding_volume(&self) -> (r: &Self::BV)
        ensures
            *r == self.bv_s(),
    ;
}

/// The multiset `{0, 1, ..., n - 1}`.
pub open spec fn blas_indices(n: int) -> Multiset<int>
    decreases n,
{
    if n <= 0 {
        Multiset::empty()
    } else {
        blas_indices(n - 1).insert(n - 1)
    }
}

/// Each index below `n` appears exactly once in `{0, ..., n - 1}` and no
/// other value appears at all: over a tree built over `n` bodies, a
/// traversal's per-index report bound therefore reads "at most once".
pub proof fn lemma_blas_indices_count(n: int, b: int)
    ensures
        blas_indices(n).count(b) == if 0 <= b < n {
            1int
        } else {
            0int
        },
    decreases n,
{
    broadcast use vstd::multiset::group_multiset_axioms;

    if n > 0 {
        lemma_blas_indices_count(n - 1, b);
    }
}

/// Top-level acceleration structure over bodies of type `B`.
pub struct TLAS<B: TLASElement> {
    pub nodes: VecPool<TLASNode>,
    pub blas: VecPool<B>,
}

impl<B: TLASElement> TLAS<B> {
    /// The nodes as a sequence.
    pub open spec fn nds(self) -> Seq<TLASNode> {
        self.nodes.vec@
    }

    /// The elements as a sequence.
    pub open spec fn els(self) -> Seq<B> {
        self.blas.vec@
    }

    /// Every element of the pool is well-formed.
    pub open spec fn elems_wf(self) -> bool {
        forall|j: int| 0 <= j < self.els().len() ==> (#[trigger] self.els()[j]).el_wf()
    }

    /// The packed left-child index of node `i`.
    pub open spec fn lc(self, i: int) -> int {
        self.nds()[i].left_right as int / 0x10000
    }

    /// The packed right-child index of node `i`.
    pub open spec fn rc(self, i: int) -> int {
        self.nds()[i].left_right as int % 0x10000
    }

    /// Structural consistency of node `i`: a leaf points at an element, an
    /// internal node's children sit at lower, nonzero indices (except under
    /// the root copy at slot zero, whose children only need to be valid).
    pub open spec fn node_struct_ok(self, i: int) -> bool {
        let n = self.nds()[i];
        if n.left_right == 0 {
            n.blas < self.els().len()
        } else {
            &&& 1 <= self.lc(i) < self.nds().len()
            &&& 1 <= self.rc(i) < self.nds().len()
            &&& (i >= 1 ==> self.lc(i) < i && self.rc(i) < i)
        }
    }

    /// Box consistency of node `i`: a leaf's box is its element's wrap, an
    /// internal node's box is the union of its children's boxes.
    pub open spec fn node_box_ok(self, i: int) -> bool {
        let n = self.nds()[i];
        &&& n.aabb.wf()
        &&& if n.left_right == 0 {
            n.aabb == self.els()[n.blas as int].wrap_s()
        } else {
            n.aabb == aabb_union(self.nds()[self.lc(i)].aabb, self.nds()[self.rc(i)].aabb)
        }
    }

    /// Structural well-formedness of the whole tree. The root copy at slot
    /// zero carries no box guarantee: traversal never tests it.
    pub open spec fn struct_wf(self) -> bool {
        &&& 1 <= self.nds().len() <= TLAS_MAX_NODES
        &&& self.elems_wf()
        &&& forall|i: int| 0 <= i < self.nds().len() ==> self.node_struct_ok(i)
    }

    /// Full well-formedness: structure everywhere, boxes everywhere but the
    /// root copy.
    pub open spec fn tlas_wf(self) -> bool {
        &&& self.struct_wf()
        &&& forall|i: int| 1 <= i < self.nds().len() ==> self.node_box_ok(i)
    }

    /// The multiset of element indices at the leaves under node `i`.
    pub open spec fn subtree_blas(self, i: int) -> Multiset<int>
        decreases (if i == 0 { self.nds().len() as int } else { i }),
    {
        let n = self.nds()[i];
        if n.left_right == 0 {
            Multiset::empty().insert(n.blas as int)
        } else if i == 0 && 1 <= self.lc(0) < self.nds().len() && 1 <= self.rc(0)
            < self.nds().len() {
            self.subtree_blas(self.lc(0)).add(self.subtree_blas(self.rc(0)))
        } else if i >= 1 && 1 <= self.lc(i) < i && 1 <= self.rc(i) < i {
            self.subtree_blas(self.lc(i)).add(self.subtree_blas(self.rc(i)))
        } else {
            Multiset::empty()
        }
    }

    /// Creates an empty TLAS with room reserved for `cap` bodies; slot zero
    /// holds the zeroed root copy.
    pub fn new(cap: usize) -> (r: TLAS<B>)
        ensures
            r.nds().len() == 1,
            r.els().len() == 0,
            r.nds()[0].left_right == 0,
    {
        let mut nodes: VecPool<TLASNode> = VecPool::with_capacity(
            if cap < 0x7fff_ffff {
                2 * cap
            } else {
                cap
            },
        );
        nodes.push(TLASNode::new());
        TLAS { nodes, blas: VecPool::with_capacity(cap) }
    }

    /// Returns a shared reference to the node pool.
    pub fn nodes(&self) -> (r: &VecPool<TLASNode>)
        ensures
            r == &self.nodes,
    {
        &self.nodes
    }

    /// Returns a shared reference to the element pool.
    pub fn blas(&self) -> (r: &VecPool<B>)
        ensures
            r == &self.blas,
    {
        &self.blas
    }

    /// Returns an exclusive reference to the element pool.
    pub fn blas_mut(&mut self) -> (r: &mut VecPool<B>)
        ensures
            *r == old(self).blas,
            final(self).blas == *final(r),
            final(self).nodes == old(self).nodes,
    {
        &mut self.blas
    }

    /// Refits every box (except the root copy's) to the current elements:
    /// leaves take their element's wrap, internal boxes the union of their
    /// children's. Children sit at lower indices, so one front-to-back pass
    /// suffices.
    pub fn refit(&mut self)
        requires
            old(self).struct_wf(),
        ensures
            final(self).tlas_wf(),
            final(self).blas == old(self).blas,
            final(self).nds().len() == old(self).nds().len(),
            forall|i: int|
                0 <= i < old(self).nds().len() ==> final(self).nds()[i].left_right == old(self).nds()[i].left_right && final(self).nds()[i].blas == old(self).nds()[i].blas,
            // the root copy at slot zero keeps its previous box; traversal
            // never tests the start node's own box
            final(self).nds()[0] == old(self).nds()[0],
    {
        let n = self.nodes.vec.len();
        let mut i: usize = 1;
        while i <= n - 1
            invariant
                1 <= i <= n,
                n == self.nds().len(),
                n == old(self).nds().len(),
                self.struct_wf(),
                self.blas == old(self).blas,
                forall|k: int|
                    0 <= k < old(self).nds().len() ==> self.nds()[k].left_right == old(self).nds()[k].left_right && self.nds()[k].blas == old(self).nds()[k].blas,
                self.nds()[0] == old(self).nds()[0],
                forall|k: int| 1 <= k < i ==> self.node_box_ok(k),
            decreases n - i,
        {
            let ghost pre = *self;
            assert(pre.node_struct_ok(i as int));
            let node_lr = self.nodes.at(i).left_right;
            let node_blas = self.nodes.at(i).blas;
            if node_lr == 0 {
                assert(self.els()[node_blas as int].el_wf());
                proof {
                    self.els()[node_blas as int].lemma_el_wf();
                }
                let w = self.blas.at(node_blas as usize).wrap();
                self.nodes.vec.set(i, TLASNode { aabb: w, left_right: node_lr, blas: node_blas });
            } else {
                let lcu = (node_lr / 0x10000) as usize;
                let rcu = (node_lr % 0x10000) as usize;
                assert(pre.node_box_ok(lcu as int));
                assert(pre.node_box_ok(rcu as int));
                let lb = self.nodes.at(lcu).aabb;
                let rb = self.nodes.at(rcu).aabb;
                let mut bx = AABB::new();
                bx.adjust(&lb, &rb);
                self.nodes.vec.set(i, TLASNode { aabb: bx, left_right: node_lr, blas: node_blas });
            }
            proof {
                assert(self.els() == pre.els());
                assert forall|j: int| 0 <= j < self.els().len() implies (
                #[trigger] self.els()[j]).el_wf() by {
                    assert(pre.els()[j].el_wf());
                }
                assert forall|k: int| 0 <= k < self.nds().len() implies self.node_struct_ok(k) by {
                    assert(pre.node_struct_ok(k));
                    assert(self.nds()[k].left_right == pre.nds()[k].left_right);
                    assert(self.nds()[k].blas == pre.nds()[k].blas);
                }
                assert(self.struct_wf());
                assert forall|k: int| 1 <= k < i + 1 implies self.node_box_ok(k) by {
                    if k < i {
                        assert(pre.node_box_ok(k));
                        assert(pre.node_struct_ok(k));
                    }
                }
            }
            i += 1;
        }
    }
}


impl<B: TLASElement> TLAS<B> {
    /// The cost of clustering the nodes at pool indices `x` and `y`: the
    /// surface-area proxy of their boxes' union.
    pub open spec fn pair_cost(self, x: int, y: int) -> int {
        aabb_area_s(aabb_union(self.nds()[x].aabb, self.nds()[y].aabb))
    }

    /// `b` is the lowest-indexed entry among the first `n` entries of `list`
    /// (other than `a`) whose cluster with `a` is cheapest.
    pub open spec fn is_best(self, list: Seq<usize>, n: int, a: int, b: int) -> bool {
        &&& 0 <= b < n
        &&& b != a
        &&& forall|x: int|
            0 <= x < n && x != a ==> self.pair_cost(list[a] as int, list[b] as int)
                < self.pair_cost(list[a] as int, #[trigger] list[x] as int) || (self.pair_cost(
                list[a] as int,
                list[b] as int,
            ) == self.pair_cost(list[a] as int, list[x] as int) && b <= x)
    }

    /// Scans the first `n` entries of `list` for the most cost-effective
    /// clustering partner of entry `a`: the one minimizing the union's
    /// surface-area proxy, ties broken by the lowest index. Returns no match
    /// (a negative value) only when `a` is the sole active entry.
    pub fn find_best_match(&self, list: &Vec<usize>, n: usize, a: usize) -> (r: i32)
        requires
            n <= list@.len(),
            a < n,
            n < 0x8000_0000,
            forall|t: int|
                0 <= t < n ==> (#[trigger] list@[t] as int) < self.nds().len() && self.nds()[list@[t] as int].aabb.wf(),
        ensures
            n >= 2 ==> 0 <= r < n && self.is_best(list@, n as int, a as int, r as int),
            n < 2 ==> r == -1,
    {
        let mut smallest: i128 = i128::MAX;
        let mut best_b: i32 = -1;
        let mut b: usize = 0;
        while b < n
            invariant
                n <= list@.len(),
                a < n,
                n < 0x8000_0000,
                b <= n,
                forall|t: int|
                    0 <= t < n ==> (#[trigger] list@[t] as int) < self.nds().len()
                        && self.nds()[list@[t] as int].aabb.wf(),
                best_b == -1 ==> ((b == 0 || (a == 0 && b <= 1)) && smallest == i128::MAX),
                best_b != -1 ==> 0 <= best_b < b && best_b != a && smallest == self.pair_cost(
                    list@[a as int] as int,
                    list@[best_b as int] as int,
                ),
                best_b != -1 ==> forall|x: int|
                    0 <= x < b && x != a ==> smallest < self.pair_cost(
                        list@[a as int] as int,
                        #[trigger] list@[x] as int,
                    ) || (smallest == self.pair_cost(list@[a as int] as int, list@[x] as int)
                        && best_b <= x),
                
            decreases n - b,
        {
            if b != a {
                let a_node = self.nodes.at(list[a]);
                let b_node = self.nodes.at(list[b]);
                let mut bx = AABB::new();
                bx.adjust(&a_node.aabb, &b_node.aabb);
                proof {
                    crate::aabb::lemma_aabb_union_wf(a_node.aabb, b_node.aabb);
                    crate::aabb::lemma_area_bound(bx);
                }
                let surface_area = bx.area();
                proof {
                    assert(surface_area == self.pair_cost(
                        list@[a as int] as int,
                        list@[b as int] as int,
                    ));
                    assert(surface_area < i128::MAX);
                }
                let ghost old_small = smallest;
                let ghost old_best = best_b;
                if surface_area < smallest {
                    smallest = surface_area;
                    best_b = b as i32;
                }
                proof {
                    assert forall|x: int| 0 <= x < b + 1 && x != a implies smallest
                        < self.pair_cost(list@[a as int] as int, #[trigger] list@[x] as int) || (
                    smallest == self.pair_cost(list@[a as int] as int, list@[x] as int) && best_b
                        <= x) by {
                        if x == b {
                        } else {
                            assert(x < b);
                            assert(old_best != -1);
                            assert(old_small < self.pair_cost(
                                list@[a as int] as int,
                                list@[x] as int,
                            ) || (old_small == self.pair_cost(
                                list@[a as int] as int,
                                list@[x] as int,
                            ) && old_best <= x));
                        }
                    }
                }
            }
            b += 1;
        }
        best_b
    }
}


impl<B: TLASElement> TLAS<B> {
    /// The element indices below the first `n` active roots of `list`.
    pub open spec fn active_blas(self, list: Seq<usize>, n: int) -> Multiset<int>
        decreases n,
    {
        if n <= 0 {
            Multiset::empty()
        } else {
            self.active_blas(list, n - 1).add(self.subtree_blas(list[n - 1] as int))
        }
    }

    /// The clustering cost is symmetric.
    pub proof fn lemma_pair_cost_symm(self, x: int, y: int)
        ensures
            self.pair_cost(x, y) == self.pair_cost(y, x),
    {
        crate::aabb::lemma_aabb_union_comm(self.nds()[x].aabb, self.nds()[y].aabb);
    }

    /// A subtree's element indices only depend on the nodes below it, so
    /// appending nodes or rewriting slot zero leaves them unchanged.
    pub proof fn lemma_subtree_stable(self, post: TLAS<B>, i: int)
        requires
            1 <= i < self.nds().len(),
            self.nds().len() <= post.nds().len(),
            forall|k: int| 1 <= k < self.nds().len() ==> post.nds()[k] == self.nds()[k],
        ensures
            post.subtree_blas(i) == self.subtree_blas(i),
        decreases i,
    {
        let n = self.nds()[i];
        if n.left_right == 0 {
        } else if 1 <= self.lc(i) < i && 1 <= self.rc(i) < i {
            self.lemma_subtree_stable(post, self.lc(i));
            self.lemma_subtree_stable(post, self.rc(i));
        }
    }

    /// The active multiset only depends on the nodes below the listed roots.
    pub proof fn lemma_active_stable(self, post: TLAS<B>, list: Seq<usize>, n: int)
        requires
            n <= list.len(),
            self.nds().len() <= post.nds().len(),
            forall|k: int| 1 <= k < self.nds().len() ==> post.nds()[k] == self.nds()[k],
            forall|t: int| 0 <= t < n ==> 1 <= (#[trigger] list[t] as int) < self.nds().len(),
        ensures
            post.active_blas(list, n) == self.active_blas(list, n),
        decreases n,
    {
        if n > 0 {
            self.lemma_active_stable(post, list, n - 1);
            self.lemma_subtree_stable(post, list[n - 1] as int);
        }
    }

    /// The active multiset only depends on the first `n` entries.
    pub proof fn lemma_active_congruent(self, l1: Seq<usize>, l2: Seq<usize>, n: int)
        requires
            n <= l1.len(),
            n <= l2.len(),
            forall|t: int| 0 <= t < n ==> l1[t] == l2[t],
        ensures
            self.active_blas(l1, n) == self.active_blas(l2, n),
        decreases n,
    {
        if n > 0 {
            self.lemma_active_congruent(l1, l2, n - 1);
        }
    }

    /// Replacing the root at slot `p` exchanges its subtree for the new one
    /// in the active multiset.
    pub proof fn lemma_active_update(self, l: Seq<usize>, n: int, p: int, v: usize)
        requires
            0 <= p < n <= l.len(),
        ensures
            self.active_blas(l.update(p, v), n).add(self.subtree_blas(l[p] as int))
                =~= self.active_blas(l, n).add(self.subtree_blas(v as int)),
        decreases n,
    {
        broadcast use vstd::multiset::group_multiset_axioms;

        let l2 = l.update(p, v);
        let lhs = self.active_blas(l2, n).add(self.subtree_blas(l[p] as int));
        let rhs = self.active_blas(l, n).add(self.subtree_blas(v as int));
        if p == n - 1 {
            self.lemma_active_congruent(l, l2, n - 1);
            assert(l2[n - 1] == v);
            assert(self.active_blas(l2, n) == self.active_blas(l2, n - 1).add(
                self.subtree_blas(v as int),
            ));
            assert(self.active_blas(l, n) == self.active_blas(l, n - 1).add(
                self.subtree_blas(l[n - 1] as int),
            ));
            assert forall|e: int| lhs.count(e) == rhs.count(e) by {}
            assert(lhs =~= rhs);
        } else {
            self.lemma_active_update(l, n - 1, p, v);
            assert(l2[n - 1] == l[n - 1]);
            assert(self.active_blas(l2, n) == self.active_blas(l2, n - 1).add(
                self.subtree_blas(l[n - 1] as int),
            ));
            assert(self.active_blas(l, n) == self.active_blas(l, n - 1).add(
                self.subtree_blas(l[n - 1] as int),
            ));
            assert forall|e: int| lhs.count(e) == rhs.count(e) by {
                assert(self.active_blas(l2, n - 1).add(
                    self.subtree_blas(l[p] as int),
                ).count(e) == self.active_blas(l, n - 1).add(
                    self.subtree_blas(v as int),
                ).count(e));
            }
            assert(lhs =~= rhs);
        }
    }
}


impl<B: TLASElement> TLAS<B> {
    /// Rebuilds the tree bottom-up by agglomerative clustering: one leaf per
    /// body, then repeatedly merge a mutual best pair under the union-area
    /// cost until one root remains, which is copied into slot zero.
    ///
    /// Afterwards the tree is well-formed, and the leaves carry every body
    /// index exactly once: the root's index multiset is `{0, ..., n - 1}`.
    pub fn build(&mut self)
        requires
            old(self).elems_wf(),
            1 <= old(self).els().len(),
            2 * old(self).els().len() <= TLAS_MAX_NODES,
            old(self).nds().len() >= 1,
        ensures
            final(self).tlas_wf(),
            final(self).blas == old(self).blas,
            final(self).subtree_blas(0) == blas_indices(old(self).els().len() as int),
            // one reserved root copy, one leaf per body and one internal
            // node per merge
            final(self).nds().len() == 2 * old(self).els().len(),
            // slot zero holds a copy of the clustering root
            exists|r: int|
                1 <= r < final(self).nds().len() && final(self).nds()[0] == #[trigger] final(self).nds()[r],
    {
        let n_blas = self.blas.vec.len();
        let mut node_idx: Vec<usize> = Vec::with_capacity(n_blas);
        let mut node_indices: usize = n_blas;
        TLASPool::trim(&mut self.nodes, 1);
        // one leaf node per body
        let mut i: usize = 0;
        while i < n_blas
            invariant
                self.blas == old(self).blas,
                self.elems_wf(),
                n_blas == self.els().len(),
                2 * n_blas <= TLAS_MAX_NODES,
                i <= n_blas,
                self.nds().len() == 1 + i,
                node_idx@.len() == i,
                forall|t: int| 0 <= t < i ==> #[trigger] node_idx@[t] as int == t + 1,
                forall|k: int|
                    1 <= k < self.nds().len() ==> (#[trigger] self.nds()[k]).left_right == 0
                        && self.nds()[k].blas == k - 1 && self.nds()[k].aabb == self.els()[k
                        - 1].wrap_s() && self.nds()[k].aabb.wf(),
                self.active_blas(node_idx@, i as int) == blas_indices(i as int),
            decreases n_blas - i,
        {
            let ghost pre = *self;
            let ghost l0 = node_idx@;
            node_idx.push(self.nodes.vec.len());
            assert(self.els()[i as int].el_wf());
            proof {
                self.els()[i as int].lemma_el_wf();
            }
            let w = self.blas.at(i).wrap();
            self.nodes.push(TLASNode { aabb: w, blas: i as u32, left_right: 0 });
            proof {
                pre.lemma_active_stable(*self, l0, i as int);
                self.lemma_active_congruent(l0, node_idx@, i as int);
                assert(self.subtree_blas((i + 1) as int) == Multiset::empty().insert(i as int));
                assert(self.active_blas(node_idx@, i as int + 1) == self.active_blas(
                    node_idx@,
                    i as int,
                ).add(self.subtree_blas((i + 1) as int)));
                assert(self.active_blas(node_idx@, i as int + 1) =~= blas_indices(i as int).insert(
                    i as int,
                ));
            }
            i += 1;
        }
        // agglomerative clustering
        let mut a: usize = 0;
        proof {
            assert forall|t: int| 0 <= t < node_indices implies (
            #[trigger] node_idx@[t] as int) < self.nds().len() && self.nds()[node_idx@[t] as int].aabb.wf() by {
                assert(self.nds()[node_idx@[t] as int].aabb.wf());
            }
        }
        let mut b: i32 = self.find_best_match(&node_idx, node_indices, a);
        while node_indices > 1
            invariant
                self.blas == old(self).blas,
                self.elems_wf(),
                n_blas == self.els().len(),
                1 <= n_blas,
                2 * n_blas <= TLAS_MAX_NODES,
                1 <= node_indices <= n_blas,
                self.nds().len() == 1 + n_blas + (n_blas - node_indices),
                node_idx@.len() == n_blas,
                forall|t: int|
                    0 <= t < node_indices ==> 1 <= (#[trigger] node_idx@[t] as int)
                        < self.nds().len(),
                forall|k: int|
                    1 <= k < self.nds().len() ==> self.node_struct_ok(k) && self.node_box_ok(k),
                self.active_blas(node_idx@, node_indices as int) == blas_indices(n_blas as int),
                a < node_indices,
                node_indices >= 2 ==> 0 <= b < node_indices && self.is_best(
                    node_idx@,
                    node_indices as int,
                    a as int,
                    b as int,
                ),
            decreases node_indices, self.pair_cost(
                node_idx@[a as int] as int,
                node_idx@[b as int] as int,
            ), (if a as int <= b as int {
                a as int
            } else {
                b as int
            }), (if a as int <= b as int {
                b as int
            } else {
                a as int
            }),
        {
            proof {
                assert forall|t: int| 0 <= t < node_indices implies (
                #[trigger] node_idx@[t] as int) < self.nds().len() && self.nds()[node_idx@[t] as int].aabb.wf() by {
                    assert(self.node_box_ok(node_idx@[t] as int));
                }
            }
            let c = self.find_best_match(&node_idx, node_indices, b as usize);
            if a == c as usize {
                // mutual best pair: merge them under a fresh internal node
                let ghost pre = *self;
                let ghost l = node_idx@;
                let ghost n0 = node_indices as int;
                let ghost orig_a = a as int;
                let ghost orig_b = b as int;
                let node_idx_a = node_idx[a];
                let node_idx_b = node_idx[b as usize];
                proof {
                    assert(pre.node_box_ok(node_idx_a as int));
                    assert(pre.node_box_ok(node_idx_b as int));
                }
                let a_box = self.nodes.at(node_idx_a).aabb;
                let b_box = self.nodes.at(node_idx_b).aabb;
                let new_idx = self.nodes.vec.len();
                node_idx.set(a, new_idx);
                let last = node_idx[node_indices - 1];
                node_idx.set(b as usize, last);
                let mut bx = AABB::new();
                bx.adjust(&a_box, &b_box);
                proof {
                    crate::aabb::lemma_aabb_union_wf(a_box, b_box);
                }
                self.nodes.push(
                    TLASNode {
                        left_right: (node_idx_a as u32) + (node_idx_b as u32) * 0x10000,
                        aabb: bx,
                        blas: 0,
                    },
                );
                node_indices -= 1;
                proof {
                    broadcast use vstd::multiset::group_multiset_axioms;

                    let post = *self;
                    let l_mid = l.update(orig_a, new_idx);
                    let l2 = l_mid.update(orig_b, l_mid[n0 - 1]);
                    assert(node_idx@ == l2);
                    // structural and box consistency of the new node
                    assert(post.lc(new_idx as int) == node_idx_b as int && post.rc(new_idx as int)
                        == node_idx_a as int) by {
                        assert((node_idx_a + node_idx_b * 0x10000) / 0x10000 == node_idx_b
                            && (node_idx_a + node_idx_b * 0x10000) % 0x10000
                            == node_idx_a) by (nonlinear_arith)
                            requires
                                0 <= node_idx_a < 0x10000,
                                0 <= node_idx_b < 0x10000,
                        ;
                    }
                    assert(post.nds()[new_idx as int].left_right != 0);
                    assert forall|k: int| 1 <= k < post.nds().len() implies post.node_struct_ok(k)
                        && post.node_box_ok(k) by {
                        if k < new_idx {
                            assert(pre.node_struct_ok(k) && pre.node_box_ok(k));
                            assert(post.nds()[k] == pre.nds()[k]);
                        }
                    }
                    // the multiset of covered bodies is preserved
                    pre.lemma_active_stable(post, l, n0);
                    assert(post.active_blas(l, n0) == blas_indices(n_blas as int));
                    assert(post.subtree_blas(new_idx as int) == post.subtree_blas(
                        node_idx_b as int,
                    ).add(post.subtree_blas(node_idx_a as int)));
                    post.lemma_active_update(l, n0, orig_a, new_idx);
                    post.lemma_active_update(l_mid, n0, orig_b, l_mid[n0 - 1] as usize);
                    assert(l_mid[orig_b] == l[orig_b]);
                    assert(post.active_blas(l2, n0) == post.active_blas(l2, n0 - 1).add(
                        post.subtree_blas(l2[n0 - 1] as int),
                    ));
                    assert(l2[n0 - 1] == l_mid[n0 - 1]);
                    assert forall|e: int| post.active_blas(l2, n0 - 1).count(e) == blas_indices(
                        n_blas as int,
                    ).count(e) by {
                        assert(post.active_blas(l_mid, n0).add(
                            post.subtree_blas(l[orig_a] as int),
                        ).count(e) == post.active_blas(l, n0).add(
                            post.subtree_blas(new_idx as int),
                        ).count(e));
                        assert(post.active_blas(l2, n0).add(
                            post.subtree_blas(l_mid[orig_b] as int),
                        ).count(e) == post.active_blas(l_mid, n0).add(
                            post.subtree_blas(l_mid[n0 - 1] as int),
                        ).count(e));
                        assert(post.subtree_blas(new_idx as int).count(e) == post.subtree_blas(
                            node_idx_b as int,
                        ).add(post.subtree_blas(node_idx_a as int)).count(e));
                        assert(post.active_blas(l2, n0).count(e) == post.active_blas(
                            l2,
                            n0 - 1,
                        ).add(post.subtree_blas(l2[n0 - 1] as int)).count(e));
                    }
                    assert(post.active_blas(l2, n0 - 1) =~= blas_indices(n_blas as int));
                    // the surviving active entries are live node indices
                    assert forall|t: int| 0 <= t < node_indices implies 1 <= (
                    #[trigger] node_idx@[t] as int) < post.nds().len() by {
                        assert(l2[t] == new_idx as usize || l2[t] == l_mid[n0 - 1] || l2[t] == l[t]);
                    }
                }
                if a == node_indices {
                    a = b as usize;
                }
                proof {
                    assert forall|t: int| 0 <= t < node_indices implies (
                    #[trigger] node_idx@[t] as int) < self.nds().len() && self.nds()[node_idx@[t] as int].aabb.wf() by {
                        assert(self.node_box_ok(node_idx@[t] as int));
                    }
                }
                b = self.find_best_match(&node_idx, node_indices, a);
            } else {
                // walk the best-match chain
                proof {
                    let l = node_idx@;
                    let n = node_indices as int;
                    let ca = a as int;
                    let cb = b as int;
                    let cc = c as int;
                    assert(0 <= cc < n && self.is_best(l, n, cb, cc));
                    assert(self.pair_cost(l[cb] as int, l[cc] as int) < self.pair_cost(
                        l[cb] as int,
                        l[ca] as int,
                    ) || (self.pair_cost(l[cb] as int, l[cc] as int) == self.pair_cost(
                        l[cb] as int,
                        l[ca] as int,
                    ) && cc <= ca));
                    self.lemma_pair_cost_symm(l[ca] as int, l[cb] as int);
                    self.lemma_pair_cost_symm(l[cb] as int, l[cc] as int);
                    assert(self.node_box_ok(l[ca] as int));
                    assert(self.node_box_ok(l[cb] as int));
                    assert(self.node_box_ok(l[cc] as int));
                    crate::aabb::lemma_aabb_union_wf(
                        self.nds()[l[ca] as int].aabb,
                        self.nds()[l[cb] as int].aabb,
                    );
                    crate::aabb::lemma_aabb_union_wf(
                        self.nds()[l[cb] as int].aabb,
                        self.nds()[l[cc] as int].aabb,
                    );
                    crate::aabb::lemma_area_nonneg(
                        aabb_union(self.nds()[l[ca] as int].aabb, self.nds()[l[cb] as int].aabb),
                    );
                    crate::aabb::lemma_area_nonneg(
                        aabb_union(self.nds()[l[cb] as int].aabb, self.nds()[l[cc] as int].aabb),
                    );
                    let old_cost = self.pair_cost(l[ca] as int, l[cb] as int);
                    let new_cost = self.pair_cost(l[cb] as int, l[cc] as int);
                    assert(new_cost < old_cost || (new_cost == old_cost && cc < ca));
                    if new_cost == old_cost && cc < ca {
                        let omin = if ca <= cb { ca } else { cb };
                        let omax = if ca <= cb { cb } else { ca };
                        let nmin = if cb <= cc { cb } else { cc };
                        let nmax = if cb <= cc { cc } else { cb };
                        assert(nmin < omin || (nmin == omin && nmax < omax));
                    }
                }
                a = b as usize;
                b = c;
            }
        }
        // copy the final root into slot zero
        let root_idx = node_idx[0];
        let ghost pre_copy = *self;
        let rn_aabb = self.nodes.at(root_idx).aabb;
        let rn_lr = self.nodes.at(root_idx).left_right;
        let rn_blas = self.nodes.at(root_idx).blas;
        self.nodes.vec.set(0, TLASNode { aabb: rn_aabb, left_right: rn_lr, blas: rn_blas });
        proof {
            let post = *self;
            assert forall|k: int| 1 <= k < post.nds().len() implies post.node_struct_ok(k)
                && post.node_box_ok(k) by {
                assert(pre_copy.node_struct_ok(k) && pre_copy.node_box_ok(k));
                assert(post.nds()[k] == pre_copy.nds()[k]);
            }
            assert(post.node_struct_ok(0)) by {
                assert(pre_copy.node_struct_ok(root_idx as int));
            }
            assert(post.tlas_wf());
            // the root covers all bodies exactly once
            broadcast use vstd::multiset::group_multiset_axioms;

            pre_copy.lemma_active_stable(post, node_idx@, 1);
            assert(pre_copy.active_blas(node_idx@, 1) == pre_copy.active_blas(node_idx@, 0).add(
                pre_copy.subtree_blas(root_idx as int),
            ));
            assert(pre_copy.active_blas(node_idx@, 0) == Multiset::<int>::empty());
            assert(pre_copy.subtree_blas(root_idx as int) =~= blas_indices(n_blas as int));
            assert(post.subtree_blas(root_idx as int) == pre_copy.subtree_blas(root_idx as int))
                by {
                pre_copy.lemma_subtree_stable(post, root_idx as int);
            }
            assert(post.subtree_blas(0) == post.subtree_blas(root_idx as int)) by {
                assert(post.nds()[0].left_right == post.nds()[root_idx as int].left_right);
                assert(post.nds()[0].blas == post.nds()[root_idx as int].blas);
                if rn_lr != 0 {
                    assert(pre_copy.node_struct_ok(root_idx as int));
                    post.lemma_subtree_stable_from_root(root_idx as int);
                }
            }
            assert(post.subtree_blas(0) =~= blas_indices(n_blas as int));
            assert(post.nds()[0] == post.nds()[root_idx as int]);
            assert(1 <= (root_idx as int) && (root_idx as int) < post.nds().len());
        }
    }

    /// The subtree of the root copy at slot zero equals the subtree of the
    /// node it copies.
    proof fn lemma_subtree_stable_from_root(self, r: int)
        requires
            1 <= r < self.nds().len(),
            self.nds()[0].left_right == self.nds()[r].left_right,
            self.nds()[0].blas == self.nds()[r].blas,
            self.nds()[r].left_right != 0,
            1 <= self.lc(r) < r,
            1 <= self.rc(r) < r,
        ensures
            self.subtree_blas(0) == self.subtree_blas(r),
    {
        assert(self.lc(0) == self.lc(r));
        assert(self.rc(0) == self.rc(r));
    }
}


/// The box test respects containment: whatever hits a box hits every
/// enclosing box.
pub open spec fn tlas_hits_grows<I: BVIntersector<AABB>>(i: &I) -> bool {
    forall|inner: AABB, outer: AABB|
        #[trigger] aabb_contains(outer, inner) && i.hits(&inner) ==> i.hits(&outer)
}

/// The value `v` occurs among the referenced results.
pub open spec fn tlas_reported<B>(res: Seq<&B>, v: B) -> bool {
    exists|k: int| 0 <= k < res.len() && *(#[trigger] res[k]) == v
}

impl<B: TLASElement> TLAS<B> {
    /// The number of nodes of the subtree rooted at `i`.
    pub open spec fn weight(self, i: int) -> nat
        decreases (if i == 0 { self.nds().len() as int } else { i }),
    {
        let n = self.nds()[i];
        if n.left_right == 0 {
            1
        } else if i == 0 && 1 <= self.lc(0) < self.nds().len() && 1 <= self.rc(0)
            < self.nds().len() {
            (1 + self.weight(self.lc(0)) + self.weight(self.rc(0))) as nat
        } else if i >= 1 && 1 <= self.lc(i) < i && 1 <= self.rc(i) < i {
            (1 + self.weight(self.lc(i)) + self.weight(self.rc(i))) as nat
        } else {
            1
        }
    }

    /// The number of nodes below all stacked subtrees.
    pub open spec fn stack_weight(self, st: Seq<usize>) -> nat
        decreases st.len(),
    {
        if st.len() == 0 {
            0
        } else {
            self.weight(st.last() as int) + self.stack_weight(st.drop_last())
        }
    }

    /// Pushing a node adds its subtree weight to the stack weight.
    pub proof fn lemma_stack_weight_push(self, st: Seq<usize>, x: usize)
        ensures
            self.stack_weight(st.push(x)) == self.stack_weight(st) + self.weight(x as int),
    {
        assert(st.push(x).last() == x);
        assert(st.push(x).drop_last() =~= st);
    }

    /// The element indices below all stacked subtrees, with multiplicity.
    pub open spec fn stack_blas(self, st: Seq<usize>) -> Multiset<int>
        decreases st.len(),
    {
        if st.len() == 0 {
            Multiset::empty()
        } else {
            self.subtree_blas(st.last() as int).add(self.stack_blas(st.drop_last()))
        }
    }

    /// Pushing a node adds its subtree's element indices to the stack's.
    pub proof fn lemma_stack_blas_push(self, st: Seq<usize>, x: usize)
        ensures
            self.stack_blas(st.push(x)) == self.stack_blas(st).add(self.subtree_blas(x as int)),
    {
        broadcast use vstd::multiset::group_multiset_axioms;

        assert(st.push(x).last() == x);
        assert(st.push(x).drop_last() =~= st);
        assert(self.subtree_blas(x as int).add(self.stack_blas(st)) =~= self.stack_blas(st).add(
            self.subtree_blas(x as int),
        ));
    }

    /// Body index `b` waits under some stacked subtree.
    pub open spec fn pending(self, st: Seq<usize>, b: int) -> bool {
        exists|s: int| 0 <= s < st.len() && self.subtree_blas(#[trigger] st[s] as int).count(b) > 0
    }

    /// `r` refers to a body below node `node_idx`.
    pub open spec fn from_tree(self, node_idx: int, r: &B) -> bool {
        exists|b: int|
            0 <= b < self.els().len() && self.subtree_blas(node_idx).count(b) > 0 && *r
                == self.els()[b]
    }

    /// The wrap of every body below node `i` lies inside node `i`'s box (for
    /// every node but the untested root copy).
    pub proof fn lemma_node_contains(self, i: int, b: int)
        requires
            self.tlas_wf(),
            1 <= i < self.nds().len(),
            self.subtree_blas(i).count(b) > 0,
        ensures
            0 <= b < self.els().len(),
            aabb_contains(self.nds()[i].aabb, self.els()[b].wrap_s()),
        decreases i,
    {
        broadcast use vstd::multiset::group_multiset_axioms;

        let n = self.nds()[i];
        assert(self.node_struct_ok(i));
        assert(self.node_box_ok(i));
        if n.left_right == 0 {
            assert(b == n.blas as int);
        } else {
            let l = self.lc(i);
            let r = self.rc(i);
            crate::aabb::lemma_aabb_union_bounds(self.nds()[l].aabb, self.nds()[r].aabb);
            if self.subtree_blas(l).count(b) > 0 {
                self.lemma_node_contains(l, b);
                crate::aabb::lemma_aabb_contains_trans(
                    n.aabb,
                    self.nds()[l].aabb,
                    self.els()[b].wrap_s(),
                );
            } else {
                assert(self.subtree_blas(r).count(b) > 0);
                self.lemma_node_contains(r, b);
                crate::aabb::lemma_aabb_contains_trans(
                    n.aabb,
                    self.nds()[r].aabb,
                    self.els()[b].wrap_s(),
                );
            }
        }
    }

    /// Returns references to the bodies under `node_idx` whose bounding
    /// volumes intersect the given intersector.
    ///
    /// Every returned body is hit on its bounding volume and comes from the
    /// subtree (soundness). When the intersector's box test grows with
    /// containment and covers the volume test on wraps, every body whose
    /// wrapping box is hit is reported (completeness).
    pub fn intersect<'a, I: BVIntersector<<B as TLASElement>::BV> + BVIntersector<AABB>>(
        &'a self,
        intersector: &I,
        node_idx: usize,
    ) -> (res: Vec<&'a B>)
        requires
            self.tlas_wf(),
            node_idx < self.nds().len(),
            forall|k: int|
                1 <= k < self.nds().len() ==> <I as BVIntersector<AABB>>::req(
                    intersector,
                    &(#[trigger] self.nds()[k]).aabb,
                ),
            forall|j: int|
                0 <= j < self.els().len() ==> <I as BVIntersector<<B as TLASElement>::BV>>::req(
                    intersector,
                    &(#[trigger] self.els()[j]).bv_s(),
                ),
        ensures
            forall|k: int|
                0 <= k < res@.len() ==> <I as BVIntersector<<B as TLASElement>::BV>>::hits(
                    intersector,
                    &(#[trigger] res@[k]).bv_s(),
                ),
            forall|k: int| 0 <= k < res@.len() ==> self.from_tree(node_idx as int, #[trigger] res@[k]),
            tlas_hits_grows::<I>(intersector) ==> forall|b: int|
                0 <= b < self.els().len() && self.subtree_blas(node_idx as int).count(b) > 0 && <I as
                    BVIntersector<AABB>>::hits(
                    intersector,
                    &(#[trigger] self.els()[b]).wrap_s(),
                ) && <I as BVIntersector<<B as TLASElement>::BV>>::hits(
                    intersector,
                    &self.els()[b].bv_s(),
                ) ==> tlas_reported(res@, self.els()[b]),
            // each body is reported no more often than its index appears at
            // the subtree's leaves: over a tree whose leaves carry every
            // index once, nothing is reported twice
            exists|bs: Seq<int>|
                #![trigger bs.len()]
                bs.len() == res@.len() && (forall|k: int|
                    0 <= k < bs.len() ==> 0 <= #[trigger] bs[k] < self.els().len() && *res@[k]
                        == self.els()[bs[k]]) && (forall|b: int|
                    #[trigger] bs.to_multiset().count(b) <= self.subtree_blas(
                        node_idx as int,
                    ).count(b)),
    {
        let mut res: Vec<&B> = Vec::with_capacity(64);
        let mut stack: Vec<usize> = Vec::with_capacity(64);
        let ghost mut bs: Seq<int> = Seq::empty();
        stack.push(node_idx);
        proof {
            broadcast use vstd::multiset::group_multiset_axioms;
            broadcast use vstd::seq_lib::group_to_multiset_ensures;

            assert(stack@[0] == node_idx);
            assert forall|b: int|
                self.subtree_blas(node_idx as int).count(b) > 0 implies self.pending(
                stack@,
                b,
            ) by {
                assert(self.subtree_blas(stack@[0] as int).count(b) > 0);
            }
            assert(stack@.drop_last() =~= Seq::<usize>::empty());
            assert(stack@.len() == 1 && stack@.last() == node_idx);
            assert(self.stack_blas(Seq::<usize>::empty()) == Multiset::<int>::empty());
            assert(self.stack_blas(stack@) == self.subtree_blas(node_idx as int).add(
                Multiset::<int>::empty(),
            ));
            assert forall|b: int| #[trigger] bs.to_multiset().count(b) + self.stack_blas(
                stack@,
            ).count(b) <= self.subtree_blas(node_idx as int).count(b) by {
                assert(!bs.contains(b));
                assert(bs.to_multiset().count(b) == 0);
                assert(self.stack_blas(stack@).count(b) == self.subtree_blas(
                    node_idx as int,
                ).count(b) + Multiset::<int>::empty().count(b));
            }
        }
        while stack.len() > 0
            invariant
                self.tlas_wf(),
                node_idx < self.nds().len(),
                forall|k: int|
                    1 <= k < self.nds().len() ==> <I as BVIntersector<AABB>>::req(
                        intersector,
                        &(#[trigger] self.nds()[k]).aabb,
                    ),
                forall|j: int|
                    0 <= j < self.els().len() ==> <I as BVIntersector<
                        <B as TLASElement>::BV,
                    >>::req(intersector, &(#[trigger] self.els()[j]).bv_s()),
                forall|s: int|
                    0 <= s < stack@.len() ==> (#[trigger] stack@[s]) < self.nds().len(),
                forall|s: int, b: int|
                    0 <= s < stack@.len() && (#[trigger] self.subtree_blas(stack@[s] as int).count(
                        b,
                    )) > 0 ==> self.subtree_blas(node_idx as int).count(b) > 0,
                forall|k: int|
                    0 <= k < res@.len() ==> <I as BVIntersector<<B as TLASElement>::BV>>::hits(
                        intersector,
                        &(#[trigger] res@[k]).bv_s(),
                    ),
                forall|k: int|
                    0 <= k < res@.len() ==> self.from_tree(node_idx as int, #[trigger] res@[k]),
                tlas_hits_grows::<I>(intersector) ==> forall|b: int|
                    0 <= b < self.els().len() && self.subtree_blas(node_idx as int).count(b) > 0
                        && !self.pending(stack@, b) && <I as BVIntersector<AABB>>::hits(
                        intersector,
                        &(#[trigger] self.els()[b]).wrap_s(),
                    ) && <I as BVIntersector<<B as TLASElement>::BV>>::hits(
                        intersector,
                        &self.els()[b].bv_s(),
                    ) ==> tlas_reported(res@, self.els()[b]),
                bs.len() == res@.len(),
                forall|k: int|
                    0 <= k < bs.len() ==> 0 <= #[trigger] bs[k] < self.els().len() && *res@[k]
                        == self.els()[bs[k]],
                forall|b: int|
                    #[trigger] bs.to_multiset().count(b) + self.stack_blas(stack@).count(b)
                        <= self.subtree_blas(node_idx as int).count(b),
            decreases self.stack_weight(stack@),
        {
            let ghost st0 = stack@;
            let ghost res0 = res@;
            let ghost bs0 = bs;
            let node_id = stack.pop().unwrap();
            assert(st0.last() == node_id && stack@ == st0.drop_last());
            proof {
                assert(self.stack_weight(st0) == self.stack_weight(st0.drop_last()) + self.weight(
                    node_id as int,
                ));
                assert(self.weight(node_id as int) >= 1);
                assert(self.stack_blas(st0) == self.subtree_blas(node_id as int).add(
                    self.stack_blas(stack@),
                ));
            }
            let nd_lr = self.nodes.at(node_id).left_right;
            assert(self.node_struct_ok(node_id as int));
            if nd_lr == 0 {
                let bidx = self.nodes.at(node_id).blas as usize;
                let e = self.blas.at(bidx);
                let hit = intersector.intersects(e.bounding_volume());
                if hit {
                    res.push(e);
                    proof {
                        broadcast use vstd::multiset::group_multiset_axioms;

                        bs = bs.push(bidx as int);
                        assert(self.subtree_blas(node_id as int).count(bidx as int) > 0);
                        assert(self.from_tree(node_idx as int, res@[res@.len() - 1]));
                    }
                }
                proof {
                    broadcast use vstd::multiset::group_multiset_axioms;
                    broadcast use vstd::seq_lib::group_to_multiset_ensures;

                    // the popped leaf hands its one index from the stack's
                    // account to the reported ones (or drops it on a miss)
                    assert(self.subtree_blas(node_id as int) == Multiset::empty().insert(
                        bidx as int,
                    ));
                    assert forall|b: int| #[trigger] bs.to_multiset().count(b) + self.stack_blas(
                        stack@,
                    ).count(b) <= self.subtree_blas(node_idx as int).count(b) by {
                        assert(bs0.to_multiset().count(b) + self.stack_blas(st0).count(b)
                            <= self.subtree_blas(node_idx as int).count(b));
                        assert(self.stack_blas(st0).count(b) == self.subtree_blas(
                            node_id as int,
                        ).count(b) + self.stack_blas(stack@).count(b));
                        if hit {
                            assert(bs == bs0.push(bidx as int));
                            assert(bs.to_multiset() =~= bs0.to_multiset().insert(bidx as int));
                        }
                    }
                    if tlas_hits_grows::<I>(intersector) {
                        assert forall|b: int|
                            0 <= b < self.els().len() && self.subtree_blas(node_idx as int).count(b)
                                > 0 && !self.pending(stack@, b) && <I as BVIntersector<AABB>>::hits(
                                intersector,
                                &(#[trigger] self.els()[b]).wrap_s(),
                            ) && <I as BVIntersector<<B as TLASElement>::BV>>::hits(
                                intersector,
                                &self.els()[b].bv_s(),
                            ) implies tlas_reported(res@, self.els()[b]) by {
                            if !self.pending(st0, b) {
                                assert(tlas_reported(res0, self.els()[b]));
                                let k = choose|k: int|
                                    0 <= k < res0.len() && *(#[trigger] res0[k]) == self.els()[b];
                                assert(0 <= k < res@.len() && *res@[k] == self.els()[b]);
                            } else {
                                let s = choose|s: int|
                                    0 <= s < st0.len() && self.subtree_blas(
                                        #[trigger] st0[s] as int,
                                    ).count(b) > 0;
                                if s < st0.len() - 1 {
                                    assert(stack@[s] == st0[s]);
                                    assert(self.pending(stack@, b));
                                } else {
                                    assert(self.subtree_blas(node_id as int).count(b) > 0);
                                    assert(b == bidx as int);
                                    assert(hit);
                                    assert(tlas_reported(res@, self.els()[b]));
                                }
                            }
                        }
                    }
                }
            } else {
                let c1 = (nd_lr / 0x10000) as usize;
                let c2 = (nd_lr % 0x10000) as usize;
                let i1 = intersector.intersects(self.nodes.at(c1).aabb());
                let i2 = intersector.intersects(self.nodes.at(c2).aabb());
                if i2 {
                    stack.push(c2);
                }
                if i1 {
                    stack.push(c1);
                }
                proof {
                    broadcast use vstd::multiset::group_multiset_axioms;

                    assert(self.node_struct_ok(c1 as int));
                    assert(self.node_struct_ok(c2 as int));
                    assert(self.weight(node_id as int) == 1 + self.weight(c1 as int) + self.weight(
                        c2 as int,
                    ));
                    assert(self.subtree_blas(node_id as int) == self.subtree_blas(c1 as int).add(
                        self.subtree_blas(c2 as int),
                    ));
                    if i1 && i2 {
                        assert(stack@ == st0.drop_last().push(c2).push(c1));
                        self.lemma_stack_weight_push(st0.drop_last(), c2);
                        self.lemma_stack_weight_push(st0.drop_last().push(c2), c1);
                        self.lemma_stack_blas_push(st0.drop_last(), c2);
                        self.lemma_stack_blas_push(st0.drop_last().push(c2), c1);
                    } else if i2 {
                        assert(stack@ == st0.drop_last().push(c2));
                        self.lemma_stack_weight_push(st0.drop_last(), c2);
                        self.lemma_stack_blas_push(st0.drop_last(), c2);
                    } else if i1 {
                        assert(stack@ == st0.drop_last().push(c1));
                        self.lemma_stack_weight_push(st0.drop_last(), c1);
                        self.lemma_stack_blas_push(st0.drop_last(), c1);
                    }
                    // a pruned child's indices leave the stack's account, a
                    // pushed child's stay: the account never grows
                    assert forall|b: int| #[trigger] bs.to_multiset().count(b) + self.stack_blas(
                        stack@,
                    ).count(b) <= self.subtree_blas(node_idx as int).count(b) by {
                        assert(bs.to_multiset().count(b) + self.stack_blas(st0).count(b)
                            <= self.subtree_blas(node_idx as int).count(b));
                        assert(self.stack_blas(st0).count(b) == self.subtree_blas(
                            node_id as int,
                        ).count(b) + self.stack_blas(st0.drop_last()).count(b));
                        assert(self.subtree_blas(node_id as int).count(b) == self.subtree_blas(
                            c1 as int,
                        ).count(b) + self.subtree_blas(c2 as int).count(b));
                    }
                    assert forall|s: int, b: int|
                        0 <= s < stack@.len() && (#[trigger] self.subtree_blas(
                            stack@[s] as int,
                        ).count(b)) > 0 implies self.subtree_blas(node_idx as int).count(b) > 0 by {
                        if stack@[s] == c1 || stack@[s] == c2 {
                            assert(self.subtree_blas(node_id as int).count(b) > 0);
                        } else {
                            assert(st0[s] == stack@[s]);
                        }
                    }
                    if tlas_hits_grows::<I>(intersector) {
                        assert forall|b: int|
                            0 <= b < self.els().len() && self.subtree_blas(node_idx as int).count(b)
                                > 0 && !self.pending(stack@, b) && <I as BVIntersector<AABB>>::hits(
                                intersector,
                                &(#[trigger] self.els()[b]).wrap_s(),
                            ) && <I as BVIntersector<<B as TLASElement>::BV>>::hits(
                                intersector,
                                &self.els()[b].bv_s(),
                            ) implies tlas_reported(res@, self.els()[b]) by {
                            if !self.pending(st0, b) {
                            } else {
                                let s = choose|s: int|
                                    0 <= s < st0.len() && self.subtree_blas(
                                        #[trigger] st0[s] as int,
                                    ).count(b) > 0;
                                if s < st0.len() - 1 {
                                    assert(stack@[s] == st0[s]);
                                    assert(self.pending(stack@, b));
                                } else {
                                    assert(self.subtree_blas(node_id as int).count(b) > 0);
                                    let cz: int = if self.subtree_blas(c1 as int).count(b) > 0 {
                                        c1 as int
                                    } else {
                                        c2 as int
                                    };
                                    assert(self.subtree_blas(cz).count(b) > 0);
                                    self.lemma_node_contains(cz, b);
                                    assert(<I as BVIntersector<AABB>>::hits(
                                        intersector,
                                        &self.nds()[cz].aabb,
                                    ));
                                    if cz == c1 as int {
                                        assert(i1);
                                        assert(stack@.last() == c1);
                                        assert(self.pending(stack@, b));
                                    } else {
                                        assert(i2);
                                        if i1 {
                                            assert(stack@[stack@.len() - 2] == c2);
                                        } else {
                                            assert(stack@.last() == c2);
                                        }
                                        assert(self.pending(stack@, b));
                                    }
                                }
                            }
                        }
                    }
                }
            }
        }
        proof {
            broadcast use vstd::multiset::group_multiset_axioms;

            assert forall|b: int| #[trigger] bs.to_multiset().count(b) <= self.subtree_blas(
                node_idx as int,
            ).count(b) by {
                assert(self.stack_blas(stack@).count(b) >= 0);
            }
            assert(bs.len() == res@.len() && (forall|k: int|
                0 <= k < bs.len() ==> 0 <= #[trigger] bs[k] < self.els().len() && *res@[k]
                    == self.els()[bs[k]]) && (forall|b: int|
                #[trigger] bs.to_multiset().count(b) <= self.subtree_blas(
                    node_idx as int,
                ).count(b)));
        }
        res
    }
}


impl<B: TLASElement> TLAS<B> {
    /// Every box of a well-formed tree (but the untested root copy) stays
    /// inside the query working range: leaves carry element wraps, and
    /// unions of bounded boxes stay bounded.
    pub proof fn lemma_box_bounds(self, i: int)
        requires
            self.tlas_wf(),
            1 <= i < self.nds().len(),
        ensures
            self.nds()[i].aabb.min.in_lim(0x10_0000_0000),
            self.nds()[i].aabb.max.in_lim(0x10_0000_0000),
        decreases i,
    {
        let n = self.nds()[i];
        assert(self.node_struct_ok(i));
        assert(self.node_box_ok(i));
        if n.left_right == 0 {
            assert(self.els()[n.blas as int].el_wf());
            self.els()[n.blas as int].lemma_el_wf();
        } else {
            self.lemma_box_bounds(self.lc(i));
            self.lemma_box_bounds(self.rc(i));
        }
    }
}

} // verus!
