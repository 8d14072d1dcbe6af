//! The one capability that every node of a scene has.

use vstd::prelude::*;
use glam::Vec3A;
use crate::calc::SdfCalc;

verus! {

/// A distance field: a pure map from a position to a signed distance.
///
/// A node is immutable once built and may be asked any number of times, from
/// any number of threads. What it answers depends on the position, read as
/// the numbers it holds, and on nothing else. `eval` names that dependence,
/// and `run` computes it, up to
/// the one thing that floating point leaves open: which of the NaN patterns
/// stands for a result that is no number.
///
/// The nodes of this library define `eval` from the `eval` of their children
/// and prove that `run` computes it. A primitive computes with floating
/// point, which the verifier does not follow: by implementing this trait it
/// promises that its `run` is such a pure map. Its `eval` is then only a name
/// for that map. Nothing ever calls `eval`, and a primitive may give it any
/// body.
pub trait Sdf: Sync {
    /// The distance that this field gives to the position `at`.
    spec fn eval(&self, at: Vec3A) -> SdfCalc;

    /// Evaluates the field at `pos`. The result is `eval` at `pos`: the same
    /// number, or a NaN where that is a NaN.
    fn run(&self, pos: &Vec3A) -> (calc: SdfCalc)
        ensures
            calc.agrees(self.eval(*pos)),
    ;
}

} // verus!
