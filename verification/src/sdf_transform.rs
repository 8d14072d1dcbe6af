//! A field seen through a rigid transform.

use vstd::prelude::*;
use glam::Affine3A;
use glam::Vec3A;
use crate::calc::SdfCalc;
use crate::field::Sdf;
use crate::space::{inverse_of, moved_point};

verus! {

/// A child field placed in the world by a rigid transform.
///
/// A rigid transform keeps distances, so the distance itself needs no
/// correction: the query point is taken into the child's frame and the child
/// is asked there. `invx` takes a point of the world into that frame; `new`
/// computes it once, as the inverse of the transform that places the child.
pub struct SdfTransform {
    pub invx: Affine3A,
    pub elem: Box<dyn Sdf>,
}

impl Sdf for SdfTransform {
    open spec fn eval(&self, at: Vec3A) -> SdfCalc {
        self.elem.eval(moved_point(self.invx, at))
    }

    fn run(&self, pos: &Vec3A) -> (calc: SdfCalc) {
        let xfpos = self.invx.transform_point3a(*pos);
        self.elem.run(&xfpos)
    }
}

impl SdfTransform {
    /// Places `elem` by `xform`, which takes a point of the child's frame into
    /// the world. The node holds the inverse of `xform` and `elem`.
    pub fn new(xform: Affine3A, elem: Box<dyn Sdf>) -> (node: Self)
        ensures
            node.invx == inverse_of(xform),
    {
        let invx = xform.inverse();
        SdfTransform { invx, elem }
    }
}

/// A node that holds the inverse of a transform answers, at every point,
/// exactly what its child answers at the point that the inverse makes of it:
/// the child is asked once, there, and its distance is handed back as it
/// came. This holds of every transform glam can hold: a rotation, a
/// translation, their composition, and any other.
pub proof fn transform_asks_child_in_its_frame(node: &SdfTransform, xform: Affine3A, at: Vec3A)
    requires
        node.invx == inverse_of(xform),
    ensures
        node.eval(at) == node.elem.eval(moved_point(inverse_of(xform), at)),
{
}

} // verus!
