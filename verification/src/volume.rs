//! The uniform intersection protocol of the bounding volumes.
//!
//! A `BVIntersector<O>` can decide whether it overlaps a volume of type `O`;
//! `hits` is the mathematical meaning of that decision, and `intersects` is
//! the executable test, proved to agree with it.

use vstd::prelude::*;

verus! {

/// An intersection test against volumes of type `O`.
pub trait BVIntersector<O> {
    /// What the executable test needs of its operands (bounds that keep the
    /// fixed-point arithmetic exact).
    spec fn req(&self, other: &O) -> bool;

    /// What it means for this intersector to overlap `other`.
    spec fn hits(&self, other: &O) -> bool;

    /// Returns true if and only if this intersector overlaps `other`.
    fn intersects(&self, other: &O) -> (r: bool)
        requires
            self.req(other),
        ensures
            r == self.hits(other),
    ;
}

} // verus!
