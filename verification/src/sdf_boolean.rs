//! Sharp booleans: union, subtraction and intersection of two fields.

use vstd::prelude::*;
use glam::Vec3A;
use crate::calc::SdfCalc;
use crate::field::Sdf;
use crate::scalar::{ge, gt, is_nan, lt, max_num, max_of, negate, negated, rank, ZERO};

verus! {

/// The points that are in `a` or in `b`.
pub struct SdfUnion {
    pub a: Box<dyn Sdf>,
    pub b: Box<dyn Sdf>,
}

/// The points of `from` that are not in `remove`. The two are not
/// interchangeable.
pub struct SdfSubtraction {
    pub remove: Box<dyn Sdf>,
    pub from: Box<dyn Sdf>,
}

/// The points that are in `a` and in `b`.
pub struct SdfIntersection {
    pub a: Box<dyn Sdf>,
    pub b: Box<dyn Sdf>,
}

/// The distance to `from` with `remove` cut out of it, given the distances to
/// the two: the larger of the negated distance to `remove` and the distance to
/// `from`. Negating turns the inside of `remove` into an outside. Where one of
/// the two is a NaN the other decides.
pub open spec fn cut(remove: SdfCalc, from: SdfCalc) -> SdfCalc {
    SdfCalc { dist: max_of(negated(remove.dist), from.dist) }
}

/// Combines the distances to `remove` and to `from` into the distance to
/// their difference.
pub fn subtract(remove: SdfCalc, from: SdfCalc) -> (r: SdfCalc)
    ensures
        r == cut(remove, from),
{
    SdfCalc { dist: max_num(negate(remove.dist), from.dist) }
}

impl Sdf for SdfUnion {
    open spec fn eval(&self, at: Vec3A) -> SdfCalc {
        self.a.eval(at).smaller(self.b.eval(at))
    }

    fn run(&self, pos: &Vec3A) -> (calc: SdfCalc) {
        let a_calc = self.a.run(pos);
        let b_calc = self.b.run(pos);

        a_calc.min(b_calc)
    }
}

impl Sdf for SdfSubtraction {
    open spec fn eval(&self, at: Vec3A) -> SdfCalc {
        cut(self.remove.eval(at), self.from.eval(at))
    }

    fn run(&self, pos: &Vec3A) -> (calc: SdfCalc) {
        let remove_calc = self.remove.run(pos);
        let keep_calc = self.from.run(pos);

        subtract(remove_calc, keep_calc)
    }
}

impl Sdf for SdfIntersection {
    open spec fn eval(&self, at: Vec3A) -> SdfCalc {
        self.a.eval(at).larger(self.b.eval(at))
    }

    fn run(&self, pos: &Vec3A) -> (calc: SdfCalc) {
        let a_dist = self.a.run(pos);
        let b_dist = self.b.run(pos);
        a_dist.max(b_dist)
    }
}

/// A union is, at every point, exactly the minimum of its two operands: it
/// gives the distance of one of them, and neither operand is below it. Where
/// both are numbers its rank is the smaller of their ranks.
pub proof fn union_is_minimum(u: &SdfUnion, at: Vec3A)
    ensures
        u.eval(at) == u.a.eval(at).smaller(u.b.eval(at)),
        u.eval(at) == u.a.eval(at) || u.eval(at) == u.b.eval(at),
        !lt(u.a.eval(at).dist, u.eval(at).dist),
        !lt(u.b.eval(at).dist, u.eval(at).dist),
        !is_nan(u.a.eval(at).dist) && !is_nan(u.b.eval(at).dist) ==> rank(u.eval(at).dist)
            == vstd::math::min(rank(u.a.eval(at).dist), rank(u.b.eval(at).dist)),
{
}

/// An intersection is, at every point, exactly the maximum of its two
/// operands: it gives the distance of one of them, and neither operand is
/// above it. Where both are numbers its rank is the larger of their ranks.
pub proof fn intersection_is_maximum(i: &SdfIntersection, at: Vec3A)
    ensures
        i.eval(at) == i.a.eval(at).larger(i.b.eval(at)),
        i.eval(at) == i.a.eval(at) || i.eval(at) == i.b.eval(at),
        !gt(i.a.eval(at).dist, i.eval(at).dist),
        !gt(i.b.eval(at).dist, i.eval(at).dist),
        !is_nan(i.a.eval(at).dist) && !is_nan(i.b.eval(at).dist) ==> rank(i.eval(at).dist)
            == vstd::math::max(rank(i.a.eval(at).dist), rank(i.b.eval(at).dist)),
{
}

/// Union and intersection do not depend on the order of their operands, nor
/// on how three operands are grouped. What may depend on it is which of two
/// equal distances is kept, so the law speaks of ranks. A NaN is left out: it
/// makes the second operand win on either side.
pub proof fn union_and_intersection_commute_and_associate(a: SdfCalc, b: SdfCalc, c: SdfCalc)
    requires
        !is_nan(a.dist),
        !is_nan(b.dist),
        !is_nan(c.dist),
    ensures
        rank(a.smaller(b).dist) == rank(b.smaller(a).dist),
        rank(a.larger(b).dist) == rank(b.larger(a).dist),
        rank(a.smaller(b).smaller(c).dist) == rank(a.smaller(b.smaller(c)).dist),
        rank(a.larger(b).larger(c).dist) == rank(a.larger(b.larger(c)).dist),
{
}

/// The sign of a difference. A point inside `from` and outside `remove` is
/// inside the difference. A point inside `remove` is not inside the
/// difference, whatever `from` says of it, even where `from` gives a NaN: the
/// distance there is positive, and so at least zero.
pub proof fn subtraction_sign(s: &SdfSubtraction, at: Vec3A)
    ensures
        lt(s.from.eval(at).dist, ZERO) && gt(s.remove.eval(at).dist, ZERO) ==> lt(
            s.eval(at).dist,
            ZERO,
        ),
        lt(s.remove.eval(at).dist, ZERO) ==> gt(s.eval(at).dist, ZERO),
        lt(s.remove.eval(at).dist, ZERO) ==> ge(s.eval(at).dist, ZERO),
{
}

} // verus!
