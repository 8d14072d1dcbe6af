//! The result of evaluating a distance field at one point.

use vstd::prelude::*;
use vstd::std_specs::cmp::PartialEqSpecImpl;
use vstd::std_specs::cmp::PartialOrdSpecImpl;
use core::cmp::Ordering;
use crate::scalar::{agree, equal, is_nan, less, lt, nan, rank, rank_of, same};

verus! {

/// A signed distance: negative inside a surface, zero on it, positive outside.
///
/// `dist` is the bit pattern of a single-precision number.
#[derive(Copy, Clone)]
pub struct SdfCalc {
    pub dist: u32,
}

impl SdfCalc {
    /// Whether two results say the same: the same number, bit for bit, or no
    /// number at all. Two NaN agree whatever their bits, since a computation
    /// that gives a NaN does not fix its sign or payload.
    pub open spec fn agrees(self, other: SdfCalc) -> bool {
        agree(self.dist, other.dist)
    }

    /// The result with the smaller distance. `other` wins unless `self` is
    /// strictly below it, so it also wins whenever either distance is a NaN.
    pub open spec fn smaller(self, other: SdfCalc) -> SdfCalc {
        if lt(self.dist, other.dist) {
            self
        } else {
            other
        }
    }

    /// The result with the larger distance. `other` wins unless `self` is
    /// strictly above it, so it also wins whenever either distance is a NaN.
    pub open spec fn larger(self, other: SdfCalc) -> SdfCalc {
        if lt(other.dist, self.dist) {
            self
        } else {
            other
        }
    }

    /// How two distances are ordered; `None` where either is a NaN.
    pub open spec fn order(self, other: SdfCalc) -> Option<Ordering> {
        if is_nan(self.dist) || is_nan(other.dist) {
            None
        } else if rank(self.dist) < rank(other.dist) {
            Some(Ordering::Less)
        } else if rank(self.dist) == rank(other.dist) {
            Some(Ordering::Equal)
        } else {
            Some(Ordering::Greater)
        }
    }

    /// The result with the smaller distance.
    pub fn min(self, other: SdfCalc) -> (r: SdfCalc)
        ensures
            r == self.smaller(other),
    {
        if less(self.dist, other.dist) {
            self
        } else {
            other
        }
    }

    /// The result with the larger distance.
    pub fn max(self, other: SdfCalc) -> (r: SdfCalc)
        ensures
            r == self.larger(other),
    {
        if less(other.dist, self.dist) {
            self
        } else {
            other
        }
    }
}

/// Two results are equal when their distances are equal numbers: the two
/// zeros are equal, and a NaN equals nothing.
impl PartialEq for SdfCalc {
    fn eq(&self, other: &Self) -> (r: bool) {
        equal(self.dist, other.dist)
    }
}

/// The marker that goes with the equality above. It adds nothing to it: a
/// result whose distance is a NaN still equals nothing.
impl Eq for SdfCalc {

}

impl PartialEqSpecImpl for SdfCalc {
    open spec fn obeys_eq_spec() -> bool {
        true
    }

    open spec fn eq_spec(&self, other: &Self) -> bool {
        same(self.dist, other.dist)
    }
}

/// Results are ordered as their distances are; a NaN is not ordered.
impl PartialOrd for SdfCalc {
    fn partial_cmp(&self, other: &Self) -> (r: Option<Ordering>) {
        if nan(self.dist) || nan(other.dist) {
            None
        } else {
            let a: i64 = rank_of(self.dist);
            let b: i64 = rank_of(other.dist);
            if a < b {
                Some(Ordering::Less)
            } else if a == b {
                Some(Ordering::Equal)
            } else {
                Some(Ordering::Greater)
            }
        }
    }
}

impl PartialOrdSpecImpl for SdfCalc {
    open spec fn obeys_partial_cmp_spec() -> bool {
        true
    }

    open spec fn partial_cmp_spec(&self, other: &Self) -> Option<Ordering> {
        self.order(*other)
    }
}

} // verus!
