//! The decisions of sphere tracing.
//!
//! A ray is marched by asking the scene for the distance at the current
//! position and moving on by that distance, which cannot overshoot a surface
//! as long as the field never overstates a distance. This module holds what is
//! decided at each sample: whether the ray has arrived, has left, is stuck, or
//! goes on. Taking the sample and moving the position is the caller's part;
//! the caller owns the position and feeds each distance to `RayState::step`.
//!
//! There is no cap on the number of samples. A march ends because a sample is
//! below the contact threshold, above the miss distance, or repeats the one
//! before it often enough.

use vstd::prelude::*;
use crate::calc::SdfCalc;
use vstd::arithmetic::power::pow;
use crate::scalar::{equal, gt, is_finite, is_nan, less, lt, rank_orders_as_value, same, value};

verus! {

/// The three numbers that steer a march.
#[derive(Copy, Clone)]
pub struct MarchConfig {
    /// The contact threshold: a sample below it is a hit.
    pub contact: u32,
    /// The miss distance: a sample above it means the ray has left the scene.
    pub nothing: u32,
    /// How many samples in a row may repeat the one before them.
    pub max_same: u32,
}

/// What a sample decides. All but `Marching` end the march.
#[derive(Copy, Clone, PartialEq, Eq, Structural, Debug)]
pub enum Verdict {
    /// Move on along the ray by the sampled distance and sample again.
    Marching,
    /// The current position is on a surface.
    Hit,
    /// The ray has left the region of interest.
    Miss,
    /// The field has stopped changing along the ray. To be treated as a miss.
    Stalled,
}

/// What a march remembers from one sample to the next, besides the position.
#[derive(Copy, Clone)]
pub struct RayState {
    /// The distance last seen that differed from the one before it; `None`
    /// before the first sample.
    pub last_dist: Option<u32>,
    /// How many samples in a row have repeated `last_dist`.
    pub same_count: u32,
}

impl Default for MarchConfig {
    /// A contact threshold of 0.001, a miss distance of 1000 and three repeats.
    fn default() -> (cfg: Self)
        ensures
            cfg.contact == 0x3a83_126fu32,
            cfg.nothing == 0x447a_0000u32,
            cfg.max_same == 3,
    {
        MarchConfig { contact: 0x3a83_126f, nothing: 0x447a_0000, max_same: 3 }
    }
}

impl RayState {
    /// The state before the first sample: no distance seen, nothing repeated.
    pub open spec fn initial() -> RayState {
        RayState { last_dist: None, same_count: 0 }
    }

    /// Whether a sample repeats the distance last seen. The first sample
    /// repeats nothing, and neither does a NaN, nor anything after a NaN.
    pub open spec fn repeats(self, dist: u32) -> bool {
        match self.last_dist {
            Some(last) => same(dist, last),
            None => false,
        }
    }

    /// The state after a sample. A repeat is counted; anything else becomes
    /// the distance last seen and clears the count. The count stops at the
    /// largest value it can hold.
    pub open spec fn after(self, dist: u32) -> RayState {
        if self.repeats(dist) {
            RayState {
                last_dist: self.last_dist,
                same_count: if self.same_count < u32::MAX {
                    (self.same_count + 1) as u32
                } else {
                    self.same_count
                },
            }
        } else {
            RayState { last_dist: Some(dist), same_count: 0 }
        }
    }

    /// What a sample decides in this state. The tests are made in this order:
    /// a repeat that fills the allowance stalls the march; else a distance
    /// below the contact threshold is a hit; else a distance above the miss
    /// distance is a miss; else the march goes on.
    pub open spec fn verdict(self, cfg: MarchConfig, dist: u32) -> Verdict {
        if self.repeats(dist) && self.same_count + 1 >= cfg.max_same {
            Verdict::Stalled
        } else if lt(dist, cfg.contact) {
            Verdict::Hit
        } else if gt(dist, cfg.nothing) {
            Verdict::Miss
        } else {
            Verdict::Marching
        }
    }

    /// The state after a run of samples, taken one after the other.
    pub open spec fn after_all(self, dists: Seq<u32>) -> RayState
        decreases dists.len(),
    {
        if dists.len() == 0 {
            self
        } else {
            self.after_all(dists.drop_last()).after(dists.last())
        }
    }

    /// The state in which a march begins.
    pub fn start() -> (state: RayState)
        ensures
            state == RayState::initial(),
    {
        RayState { last_dist: None, same_count: 0 }
    }

    /// Takes in the distance sampled at the current position and decides how
    /// the march goes on. On `Marching` the caller moves the position along
    /// the ray by `calc.dist` and samples again; the distance is then neither
    /// below the contact threshold nor above the miss distance.
    pub fn step(&mut self, cfg: &MarchConfig, calc: SdfCalc) -> (verdict: Verdict)
        ensures
            *final(self) == old(self).after(calc.dist),
            verdict == old(self).verdict(*cfg, calc.dist),
            verdict == Verdict::Hit ==> lt(calc.dist, cfg.contact),
            verdict == Verdict::Miss ==> gt(calc.dist, cfg.nothing),
            verdict == Verdict::Marching ==> !lt(calc.dist, cfg.contact) && !gt(
                calc.dist,
                cfg.nothing,
            ),
    {
        let repeat = match self.last_dist {
            Some(last) => equal(calc.dist, last),
            None => false,
        };
        if repeat {
            if self.same_count < u32::MAX {
                self.same_count = self.same_count + 1;
            }
            if self.same_count >= cfg.max_same {
                return Verdict::Stalled;
            }
        } else {
            self.last_dist = Some(calc.dist);
            self.same_count = 0;
        }

        if less(calc.dist, cfg.contact) {
            return Verdict::Hit;
        }
        if less(cfg.nothing, calc.dist) {
            return Verdict::Miss;
        }
        Verdict::Marching
    }
}

/// How the distance alone bears on the verdict. A distance below the contact
/// threshold never lets the march go on, and one above the miss distance
/// never does either. Only a repeat can stall. A NaN decides nothing: it is
/// no repeat, and it is neither below nor above anything, so the march goes
/// on.
pub proof fn verdict_follows_the_distance(state: RayState, cfg: MarchConfig, dist: u32)
    ensures
        lt(dist, cfg.contact) ==> state.verdict(cfg, dist) == Verdict::Hit || state.verdict(
            cfg,
            dist,
        ) == Verdict::Stalled,
        gt(dist, cfg.nothing) && !lt(dist, cfg.contact) ==> state.verdict(cfg, dist)
            == Verdict::Miss || state.verdict(cfg, dist) == Verdict::Stalled,
        state.verdict(cfg, dist) == Verdict::Stalled ==> state.repeats(dist),
        is_nan(dist) ==> state.verdict(cfg, dist) == Verdict::Marching && state.after(
            dist,
        ).same_count == 0,
{
}

/// What the sample of index `k` decides in a march that has taken the samples
/// `dists`, in their order, from its beginning.
pub open spec fn verdict_at(cfg: MarchConfig, dists: Seq<u32>, k: int) -> Verdict {
    RayState::initial().after_all(dists.take(k)).verdict(cfg, dists[k])
}

/// Whether each distance of a run is strictly above the one before it.
pub open spec fn grows(dists: Seq<u32>) -> bool {
    forall|i: int| 0 <= i && i + 1 < dists.len() ==> lt(#[trigger] dists[i], dists[i + 1])
}

/// Whether each distance of a run is finite and positive, and at least
/// `num / den` times the one before it.
pub open spec fn grows_by(dists: Seq<u32>, num: int, den: int) -> bool {
    &&& forall|i: int| 0 <= i < dists.len() ==> is_finite(#[trigger] dists[i])
    &&& dists.len() > 0 ==> value(dists[0]) > 0
    &&& forall|i: int|
        0 <= i && i + 1 < dists.len() ==> den * value(dists[i + 1]) >= num * value(
            #[trigger] dists[i],
        )
}

/// In a run that grows from a first number, every sample is a number that is
/// not below the first, and the state before each sample but the first holds
/// the sample before it, with no repeat counted.
proof fn state_in_a_growing_run(dists: Seq<u32>, k: int)
    requires
        grows(dists),
        dists.len() > 0,
        !is_nan(dists[0]),
        0 <= k < dists.len(),
    ensures
        !is_nan(dists[k]),
        !lt(dists[k], dists[0]),
        k >= 1 ==> RayState::initial().after_all(dists.take(k)) == (RayState {
            last_dist: Some(dists[k - 1]),
            same_count: 0,
        }),
        k == 0 ==> RayState::initial().after_all(dists.take(k)) == RayState::initial(),
    decreases k,
{
    if k >= 1 {
        state_in_a_growing_run(dists, k - 1);
        assert(lt(dists[k - 1], dists[k]));
        assert(dists.take(k).drop_last() =~= dists.take(k - 1));
        assert(dists.take(k).last() == dists[k - 1]);
        if k >= 2 {
            assert(lt(dists[k - 2], dists[k - 1]));
        }
    }
}

/// A ray along which the distance keeps growing ends in a miss, never in a
/// hit and never in a stall. Where the first sample is a number not below the
/// contact threshold and every later one is above the one before it, each
/// sample up to the miss distance says `Marching`, and the first beyond it
/// says `Miss`.
pub proof fn growing_distances_end_in_a_miss(cfg: MarchConfig, dists: Seq<u32>)
    requires
        grows(dists),
        dists.len() > 0,
        !is_nan(dists[0]),
        !lt(dists[0], cfg.contact),
    ensures
        forall|k: int|
            0 <= k < dists.len() ==> #[trigger] verdict_at(cfg, dists, k) == (if gt(
                dists[k],
                cfg.nothing,
            ) {
                Verdict::Miss
            } else {
                Verdict::Marching
            }),
{
    assert forall|k: int| 0 <= k < dists.len() implies #[trigger] verdict_at(cfg, dists, k) == (if gt(
        dists[k],
        cfg.nothing,
    ) {
        Verdict::Miss
    } else {
        Verdict::Marching
    }) by {
        state_in_a_growing_run(dists, k);
        if k >= 1 {
            assert(lt(dists[k - 1], dists[k]));
        }
    }
}

/// In a run that grows by `num / den`, the sample of index `k` is positive
/// and at least `(num / den)^k` times the first.
proof fn growth_compounds(dists: Seq<u32>, num: int, den: int, k: int)
    requires
        grows_by(dists, num, den),
        num > den >= 1,
        0 <= k < dists.len(),
    ensures
        pow(den, k as nat) * value(dists[k]) >= pow(num, k as nat) * value(dists[0]),
        value(dists[k]) > 0,
        pow(den, k as nat) > 0,
    decreases k,
{
    reveal(pow);
    if k > 0 {
        growth_compounds(dists, num, den, k - 1);
        let dp = pow(den, (k - 1) as nat);
        let np = pow(num, (k - 1) as nat);
        let v0 = value(dists[0]);
        let v1 = value(dists[k - 1]);
        let v2 = value(dists[k]);
        assert(den * v2 >= num * v1);
        assert(pow(den, k as nat) == den * dp);
        assert(pow(num, k as nat) == num * np);
        assert(v2 > 0) by (nonlinear_arith)
            requires
                den * v2 >= num * v1,
                num > den >= 1,
                v1 > 0,
        ;
        assert((den * dp) * v2 >= (num * np) * v0) by (nonlinear_arith)
            requires
                den * v2 >= num * v1,
                dp * v1 >= np * v0,
                dp > 0,
                num > 0,
        ;
        assert(den * dp > 0) by (nonlinear_arith)
            requires
                den >= 1,
                dp > 0,
        ;
    }
}

/// How soon a ray that leaves the scene is known to have left. Where the
/// distance grows from each sample to the next by a factor of `num / den` or
/// more, a factor above one, and the first sample is not below the contact
/// threshold, the march ends in a miss, and a sample of index `k` that still
/// says `Marching` has `(num / den)^k` times the first distance within the
/// miss distance. With a first distance `d`, a miss distance `M` and a factor
/// `g`, that leaves room for no more than `log(M / d) / log(g) + 1` moves
/// before the miss. A ray that points straight away from a sphere doubles its
/// distance with every move.
pub proof fn growing_distances_miss_soon(cfg: MarchConfig, dists: Seq<u32>, num: int, den: int)
    requires
        grows_by(dists, num, den),
        num > den >= 1,
        dists.len() > 0,
        !lt(dists[0], cfg.contact),
        is_finite(cfg.nothing),
    ensures
        forall|k: int|
            0 <= k < dists.len() ==> #[trigger] verdict_at(cfg, dists, k) == Verdict::Marching
                || verdict_at(cfg, dists, k) == Verdict::Miss,
        forall|k: int|
            0 <= k < dists.len() && #[trigger] verdict_at(cfg, dists, k) == Verdict::Marching
                ==> pow(num, k as nat) * value(dists[0]) <= pow(den, k as nat) * value(
                cfg.nothing,
            ),
{
    assert(grows(dists)) by {
        assert forall|i: int| 0 <= i && i + 1 < dists.len() implies lt(
            #[trigger] dists[i],
            dists[i + 1],
        ) by {
            growth_compounds(dists, num, den, i);
            let v1 = value(dists[i]);
            let v2 = value(dists[i + 1]);
            assert(v2 > v1) by (nonlinear_arith)
                requires
                    den * v2 >= num * v1,
                    num > den >= 1,
                    v1 > 0,
            ;
            rank_orders_as_value(dists[i], dists[i + 1]);
        }
    }
    growing_distances_end_in_a_miss(cfg, dists);
    assert forall|k: int|
        0 <= k < dists.len() && #[trigger] verdict_at(cfg, dists, k)
            == Verdict::Marching implies pow(num, k as nat) * value(dists[0]) <= pow(
        den,
        k as nat,
    ) * value(cfg.nothing) by {
        growth_compounds(dists, num, den, k);
        rank_orders_as_value(dists[k], cfg.nothing);
        let dp = pow(den, k as nat);
        let vk = value(dists[k]);
        let vm = value(cfg.nothing);
        assert(dp * vk <= dp * vm) by (nonlinear_arith)
            requires
                vk <= vm,
                dp > 0,
        ;
    }
}

/// A run of `n` samples that all give the distance `dist`.
pub open spec fn flat(dist: u32, n: nat) -> Seq<u32> {
    Seq::new(n, |i: int| dist)
}

/// A field that gives the same distance everywhere stalls the march after
/// exactly as many moves as repeats are allowed: with an allowance of `S`,
/// each of the first `S` samples says `Marching`, and the sample after them
/// says `Stalled`.
///
/// The distance is one on which a march can go on at all: a number, not below
/// the contact threshold and not above the miss distance. The allowance is at
/// least one: without any, the first repeat stalls the march, after one move.
pub proof fn constant_field_stalls(cfg: MarchConfig, dist: u32)
    requires
        cfg.max_same >= 1,
        !is_nan(dist),
        !lt(dist, cfg.contact),
        !gt(dist, cfg.nothing),
    ensures
        forall|n: nat|
            n < cfg.max_same ==> RayState::initial().after_all(#[trigger] flat(dist, n)).verdict(
                cfg,
                dist,
            ) == Verdict::Marching,
        RayState::initial().after_all(flat(dist, cfg.max_same as nat)).verdict(cfg, dist)
            == Verdict::Stalled,
{
    assert forall|n: nat| n < cfg.max_same implies RayState::initial().after_all(
        #[trigger] flat(dist, n),
    ).verdict(cfg, dist) == Verdict::Marching by {
        state_in_a_flat_stretch(dist, n);
    }
    state_in_a_flat_stretch(dist, cfg.max_same as nat);
}

/// After `n` samples of one number, the first of them included, the state
/// holds that number and has counted `n - 1` repeats.
proof fn state_in_a_flat_stretch(dist: u32, n: nat)
    requires
        !is_nan(dist),
        n <= u32::MAX,
    ensures
        n >= 1 ==> RayState::initial().after_all(flat(dist, n)) == (RayState {
            last_dist: Some(dist),
            same_count: (n - 1) as u32,
        }),
        n == 0 ==> RayState::initial().after_all(flat(dist, n)) == RayState::initial(),
    decreases n,
{
    if n >= 1 {
        state_in_a_flat_stretch(dist, (n - 1) as nat);
        assert(flat(dist, n).drop_last() =~= flat(dist, (n - 1) as nat));
        assert(flat(dist, n).last() == dist);
    }
}

/// No march goes on through a flat stretch for ever. From any state, once
/// a number has been sampled, the samples that repeat it are counted, and the
/// repeat that fills the allowance stalls the march: a state that has counted
/// `S - 1` repeats, or more, answers a further repeat with `Stalled`.
pub proof fn repeats_are_counted(state: RayState, cfg: MarchConfig, dist: u32)
    requires
        state.repeats(dist),
    ensures
        state.after(dist).last_dist == state.last_dist,
        state.after(dist).repeats(dist),
        state.same_count < u32::MAX ==> state.after(dist).same_count == state.same_count + 1,
        state.same_count + 1 >= cfg.max_same <==> state.verdict(cfg, dist) == Verdict::Stalled,
{
}

} // verus!
