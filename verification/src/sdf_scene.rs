//! A scene: a flat list of fields, reduced to the nearest of them.

use vstd::prelude::*;
use glam::Vec3A;
use crate::calc::SdfCalc;
use crate::field::Sdf;
use crate::scalar::{agree, is_nan, lt, min_num, min_of, nan, rank, LARGEST_FINITE, QUIET_NAN};

verus! {

/// An ordered collection of top-level fields, which gives to each point the
/// least of their distances. Only the order of construction can be observed;
/// the distance does not depend on it.
pub struct SdfScene {
    elements: Vec<Box<dyn Sdf>>,
}

/// The least number in a list of distances, and a NaN where the list holds
/// no number. A NaN in the list is passed over; of equal numbers the first
/// is kept.
pub open spec fn least(dists: Seq<u32>) -> u32
    decreases dists.len(),
{
    if dists.len() == 0 {
        QUIET_NAN
    } else {
        min_of(least(dists.drop_last()), dists.last())
    }
}

/// The nearest of a list of distances: the least number in it. A list that
/// holds no number, the empty list first of all, gives the largest finite
/// number, read as "nothing here".
pub open spec fn nearest(dists: Seq<u32>) -> u32 {
    if is_nan(least(dists)) {
        LARGEST_FINITE
    } else {
        least(dists)
    }
}

impl SdfScene {
    /// The fields of the scene, in the order in which they were given.
    pub closed spec fn elements(&self) -> Seq<Box<dyn Sdf>> {
        self.elements@
    }

    /// The distances that the fields of the scene give to one point, in the
    /// order of the fields.
    pub open spec fn distances(&self, at: Vec3A) -> Seq<u32> {
        Seq::new(self.elements().len(), |i: int| self.elements()[i].eval(at).dist)
    }

    /// A scene of the given fields, in the given order.
    pub fn from_vec(elems: Vec<Box<dyn Sdf>>) -> (scene: Self)
        ensures
            scene.elements() == elems@,
    {
        SdfScene { elements: elems }
    }
}

impl Sdf for SdfScene {
    open spec fn eval(&self, at: Vec3A) -> SdfCalc {
        SdfCalc { dist: nearest(self.distances(at)) }
    }

    /// A scene never gives a NaN, so its result is `eval` bit for bit.
    fn run(&self, pos: &Vec3A) -> (calc: SdfCalc)
        ensures
            calc == self.eval(*pos),
    {
        let mut smallest: u32 = QUIET_NAN;
        let mut i: usize = 0;
        while i < self.elements.len()
            invariant
                i <= self.elements.len(),
                agree(smallest, least(self.distances(*pos).take(i as int))),
            decreases self.elements.len() - i,
        {
            let calc = self.elements[i].run(pos);
            proof {
                let ds = self.distances(*pos);
                assert(ds.take(i + 1).drop_last() =~= ds.take(i as int));
                assert(ds.take(i + 1).last() == ds[i as int]);
                assert(calc.agrees(self.elements()[i as int].eval(*pos)));
            }
            smallest = min_num(smallest, calc.dist);
            i = i + 1;
        }
        proof {
            let ds = self.distances(*pos);
            assert(ds.take(i as int) =~= ds);
        }

        if nan(smallest) {
            SdfCalc { dist: LARGEST_FINITE }
        } else {
            SdfCalc { dist: smallest }
        }
    }
}

/// What the least of a list is. Where the list holds a number, it is one of
/// the numbers in the list and nothing in the list is below it. Where the
/// list holds none, it is a NaN.
pub proof fn least_is_the_minimum(dists: Seq<u32>)
    ensures
        is_nan(least(dists)) <==> forall|i: int| 0 <= i < dists.len() ==> is_nan(#[trigger] dists[i]),
        !is_nan(least(dists)) ==> exists|i: int| 0 <= i < dists.len() && dists[i] == least(dists),
        forall|i: int| 0 <= i < dists.len() ==> !lt(#[trigger] dists[i], least(dists)),
    decreases dists.len(),
{
    if dists.len() > 0 {
        let rest = dists.drop_last();
        least_is_the_minimum(rest);
        let r = least(dists);
        assert forall|i: int| 0 <= i < dists.len() implies !lt(#[trigger] dists[i], r) by {
            if i < rest.len() {
                assert(rest[i] == dists[i]);
            }
        }
        if is_nan(r) {
            assert forall|i: int| 0 <= i < dists.len() implies is_nan(#[trigger] dists[i]) by {
                if i < rest.len() {
                    assert(rest[i] == dists[i]);
                }
            }
        } else {
            if r == dists.last() {
                assert(dists[dists.len() - 1] == r);
            } else {
                let j = choose|j: int| 0 <= j < rest.len() && rest[j] == least(rest);
                assert(dists[j] == r);
            }
            if forall|i: int| 0 <= i < dists.len() ==> is_nan(#[trigger] dists[i]) {
                let k = choose|k: int| 0 <= k < dists.len() && dists[k] == r;
                assert(is_nan(dists[k]));
            }
        }
    }
}

/// What the nearest of a list is. It is a number, never a NaN. Where the list
/// holds a number, it is the minimum of the list: one of its numbers, with
/// nothing in the list below it. Where the list holds none, and so where the
/// list is empty, it is the largest finite number.
pub proof fn nearest_is_the_minimum(dists: Seq<u32>)
    ensures
        !is_nan(nearest(dists)),
        (exists|i: int| 0 <= i < dists.len() && !is_nan(dists[i])) ==> (exists|i: int|
            0 <= i < dists.len() && dists[i] == nearest(dists)),
        (exists|i: int| 0 <= i < dists.len() && !is_nan(dists[i])) ==> (forall|i: int|
            0 <= i < dists.len() ==> !lt(#[trigger] dists[i], nearest(dists))),
        (forall|i: int| 0 <= i < dists.len() ==> is_nan(#[trigger] dists[i])) ==> nearest(dists)
            == LARGEST_FINITE,
        dists.len() == 0 ==> nearest(dists) == LARGEST_FINITE,
{
    least_is_the_minimum(dists);
}

/// The order of the fields does not affect the distance: two lists that hold
/// the same distances, each as often as the other, have nearest distances of
/// the same rank. (Of two equal distances with different bits, such as the
/// two zeros, the order decides which is kept.)
pub proof fn nearest_ignores_order(first: Seq<u32>, second: Seq<u32>)
    requires
        first.to_multiset() == second.to_multiset(),
    ensures
        rank(nearest(first)) == rank(nearest(second)),
{
    least_not_above(first, second);
    least_not_above(second, first);
}

/// Of two lists that hold the same distances, the second holds a number
/// where the first does, and its least is then not above the least of the
/// first.
proof fn least_not_above(first: Seq<u32>, second: Seq<u32>)
    requires
        first.to_multiset() == second.to_multiset(),
    ensures
        !is_nan(least(first)) ==> !is_nan(least(second)) && rank(least(second)) <= rank(
            least(first),
        ),
{
    least_is_the_minimum(first);
    least_is_the_minimum(second);
    if !is_nan(least(first)) {
        let i = choose|i: int| 0 <= i < first.len() && first[i] == least(first);
        first.to_multiset_ensures();
        second.to_multiset_ensures();
        assert(first.contains(first[i]));
        assert(first.to_multiset().count(first[i]) > 0);
        assert(second.to_multiset().count(first[i]) > 0);
        assert(second.contains(first[i]));
        let j = choose|j: int| 0 <= j < second.len() && second[j] == first[i];
        assert(!is_nan(second[j]));
        assert(!lt(second[j], least(second)));
    }
}

} // verus!
