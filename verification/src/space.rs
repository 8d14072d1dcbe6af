//! Positions and transforms, which glam holds and computes.
//!
//! The library never reads or writes a coordinate, and never computes with
//! one. It hands a position on to the fields that are asked, and it asks glam
//! to invert a transform and to apply one.
//!
//! Nothing in this file is proved. The two types are declared so that they can
//! be named, and the two functions without a body name what two of glam's
//! methods return. Specifications read a position, and a transform, as the
//! numbers it holds: a component that is no number is a NaN, whichever its
//! sign and payload.

use vstd::prelude::*;
use glam::Affine3A;
use glam::Vec3A;

verus! {

/// `glam::Vec3A`: three single-precision components, opaque here.
#[verifier::external_type_specification]
#[verifier::external_body]
pub struct ExVec3A(glam::Vec3A);

/// `glam::Affine3A`: a linear part of three columns and a translation, twelve
/// single-precision components in all, opaque here.
#[verifier::external_type_specification]
#[verifier::external_body]
pub struct ExAffine3A(glam::Affine3A);

/// The point that `Affine3A::transform_point3a` returns for the transform `x`
/// and the point `p`.
pub uninterp spec fn moved_point(x: Affine3A, p: Vec3A) -> Vec3A;

/// The transform that `Affine3A::inverse` returns for the transform `x`, in
/// glam as it is compiled into this crate.
pub uninterp spec fn inverse_of(x: Affine3A) -> Affine3A;

/// `Affine3A::transform_point3a` is the linear part applied to the point, plus
/// the translation: three multiplications and three additions for each
/// component, in one order on every target that glam is written for, and none
/// of them fused. It reads nothing but its two arguments, and it does not
/// panic.
pub assume_specification[ Affine3A::transform_point3a ](x: &Affine3A, p: Vec3A) -> (q: Vec3A)
    ensures
        q == moved_point(*x, p),
;

/// `Affine3A::inverse` inverts the linear part by cross products and a
/// division, and applies the negated result to the translation. It reads
/// nothing but its argument. Whether its multiplications and subtractions are
/// fused is fixed when glam is compiled, by the target: one build gives one
/// inverse for one transform, and two builds may differ in the last bit.
///
/// It does not panic as this crate builds glam, without the `glam-assert`
/// feature: a transform that cannot be inverted gives components that are not
/// finite.
pub assume_specification[ Affine3A::inverse ](x: &Affine3A) -> (inv: Affine3A)
    ensures
        inv == inverse_of(*x),
;

} // verus!
