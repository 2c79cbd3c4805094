use vstd::prelude::*;
use rand::rngs::StdRng;
use rand::{Rng, SeedableRng};
use crate::bandit::arms::{ArmEstimates, is_lowest_argmax, no_bonus, floor_value};
use crate::bandit::{BanditError, UNIT};

verus! {

#[verifier::external_type_specification]
#[verifier::external_body]
pub struct ExStdRng(StdRng);

/// Relies on rand's `SeedableRng::seed_from_u64` for `StdRng`: a generator whose
/// stream is fixed by `seed`.
#[verifier::external_body]
fn seeded_rng(seed: u64) -> (r: StdRng) {
    StdRng::seed_from_u64(seed)
}

/// Relies on rand's `Rng::gen_range` over `0..bound`: a uniform draw below
/// `bound` (it panics on an empty range).
#[verifier::external_body]
fn draw_below(rng: &mut StdRng, bound: u64) -> (r: u64)
    requires
        bound > 0,
    ensures
        r < bound,
{
    rng.gen_range(0..bound)
}

/// The seed used when none is given, so that runs are reproducible.
pub const DEFAULT_SEED: u64 = 42;

/// Epsilon-greedy bandit: with probability `epsilon / UNIT` a uniformly random
/// arm, otherwise the first arm of greatest mean.
pub struct EpsilonGreedy {
    epsilon: i64,
    arms: ArmEstimates,
    rng: StdRng,
}

impl EpsilonGreedy {
    pub closed spec fn spec_epsilon(&self) -> int {
        self.epsilon as int
    }

    pub closed spec fn estimates(&self) -> ArmEstimates {
        self.arms
    }

    pub open spec fn wf(&self) -> bool {
        &&& self.estimates().wf()
        &&& 0 <= self.spec_epsilon() <= UNIT
    }

    /// A strategy over `num_arms` arms with exploration probability
    /// `epsilon / UNIT`, seeded with `DEFAULT_SEED`.
    pub fn new(num_arms: usize, epsilon: i64) -> (r: Result<Self, BanditError>)
        ensures
            match r {
                Ok(g) => g.wf() && g.spec_epsilon() == epsilon && g.is_fresh(num_arms as nat),
                Err(e) => e == Self::rejection(num_arms, epsilon),
            },
            r.is_ok() == Self::accepts(num_arms, epsilon),
    {
        Self::with_seed(num_arms, epsilon, DEFAULT_SEED)
    }

    pub open spec fn accepts(num_arms: usize, epsilon: i64) -> bool {
        num_arms > 0 && 0 <= epsilon <= UNIT
    }

    pub open spec fn rejection(num_arms: usize, epsilon: i64) -> BanditError {
        if num_arms == 0 {
            BanditError::ZeroArms
        } else {
            BanditError::EpsilonOutOfRange
        }
    }

    /// No arm pulled yet: every count and every sum is zero.
    pub open spec fn is_fresh(&self, num_arms: nat) -> bool {
        &&& self.estimates().spec_counts() == Seq::new(num_arms, |i: int| 0u64)
        &&& self.estimates().spec_sums() == Seq::new(num_arms, |i: int| 0i128)
    }

    /// As `new`, with the random source seeded by `seed`.
    pub fn with_seed(num_arms: usize, epsilon: i64, seed: u64) -> (r: Result<Self, BanditError>)
        ensures
            match r {
                Ok(g) => g.wf() && g.spec_epsilon() == epsilon && g.is_fresh(num_arms as nat),
                Err(e) => e == Self::rejection(num_arms, epsilon),
            },
            r.is_ok() == Self::accepts(num_arms, epsilon),
    {
        if num_arms == 0 {
            return Err(BanditError::ZeroArms);
        }
        if epsilon < 0 || epsilon > UNIT {
            return Err(BanditError::EpsilonOutOfRange);
        }
        Ok(EpsilonGreedy { epsilon, arms: ArmEstimates::new(num_arms), rng: seeded_rng(seed) })
    }

    /// Draws `p` below `UNIT`; when `p < epsilon` returns a uniformly drawn arm,
    /// otherwise the first arm of greatest mean. Only the random source changes.
    pub fn select_arm(&mut self) -> (r: usize)
        requires
            old(self).wf(),
        ensures
            final(self).wf(),
            final(self).estimates() == old(self).estimates(),
            final(self).spec_epsilon() == old(self).spec_epsilon(),
            r < old(self).estimates().num_arms(),
            old(self).spec_epsilon() == 0 ==> is_lowest_argmax(
                old(self).estimates().spec_sums(),
                old(self).estimates().spec_counts(),
                no_bonus(old(self).estimates().num_arms()),
                r as int,
            ),
            exists|p: u64, e: usize|
                #![trigger Self::decided(old(self), p, e, r)]
                p < UNIT && e < old(self).estimates().num_arms() && Self::decided(old(self), p, e, r),
    {
        let n = self.arms.len();
        let p = draw_below(&mut self.rng, UNIT as u64);
        let explore = if p < self.epsilon as u64 {
            draw_below(&mut self.rng, n as u64) as usize
        } else {
            0
        };
        let r = self.choose_arm(p, explore);
        assert(Self::decided(old(self), p, explore, r));
        r
    }

    /// `r` is what `choose_arm` gives for the draws `p` and `e`.
    pub open spec fn decided(g: &Self, p: u64, e: usize, r: usize) -> bool {
        &&& p < g.spec_epsilon() ==> r == e
        &&& p >= g.spec_epsilon() ==> is_lowest_argmax(
            g.estimates().spec_sums(),
            g.estimates().spec_counts(),
            no_bonus(g.estimates().num_arms()),
            r as int,
        )
    }

    /// The decision behind `select_arm`, for a draw `p` below `UNIT` and an
    /// arm `explore` drawn uniformly: `explore` when `p < epsilon`, else the
    /// first arm of greatest mean.
    pub fn choose_arm(&self, p: u64, explore: usize) -> (r: usize)
        requires
            self.wf(),
            explore < self.estimates().num_arms(),
        ensures
            p < self.spec_epsilon() ==> r == explore,
            p >= self.spec_epsilon() ==> is_lowest_argmax(
                self.estimates().spec_sums(),
                self.estimates().spec_counts(),
                no_bonus(self.estimates().num_arms()),
                r as int,
            ),
    {
        if p < self.epsilon as u64 {
            explore
        } else {
            self.arms.best_arm()
        }
    }

    /// The first arm of greatest mean, the arm chosen when not exploring.
    pub fn exploit_arm(&self) -> (r: usize)
        requires
            self.wf(),
        ensures
            is_lowest_argmax(
                self.estimates().spec_sums(),
                self.estimates().spec_counts(),
                no_bonus(self.estimates().num_arms()),
                r as int,
            ),
    {
        self.arms.best_arm()
    }

    /// Records `reward` for `arm`: the incremental-mean update, kept exact as a
    /// count and a sum.
    pub fn update(&mut self, arm: usize, reward: i64)
        requires
            old(self).wf(),
            arm < old(self).estimates().num_arms(),
            old(self).estimates().spec_counts()[arm as int] < u64::MAX,
        ensures
            final(self).wf(),
            final(self).spec_epsilon() == old(self).spec_epsilon(),
            final(self).estimates().spec_counts() == old(self).estimates().spec_counts().update(
                arm as int,
                (old(self).estimates().spec_counts()[arm as int] + 1) as u64,
            ),
            final(self).estimates().spec_sums() == old(self).estimates().spec_sums().update(
                arm as int,
                (old(self).estimates().spec_sums()[arm as int] + reward) as i128,
            ),
    {
        self.arms.update(arm, reward);
    }

    pub fn num_arms(&self) -> (r: usize)
        requires
            self.wf(),
        ensures
            r == self.estimates().num_arms(),
    {
        self.arms.len()
    }

    pub fn epsilon(&self) -> (r: i64)
        ensures
            r == self.spec_epsilon(),
    {
        self.epsilon
    }

    /// How often each arm has been pulled.
    pub fn counts(&self) -> (r: &[u64])
        ensures
            r@ == self.estimates().spec_counts(),
    {
        self.arms.counts()
    }

    /// The exact reward sum of each arm.
    pub fn sums(&self) -> (r: &[i128])
        ensures
            r@ == self.estimates().spec_sums(),
    {
        self.arms.sums()
    }

    /// Each arm's mean reward, rounded down to a whole unit.
    pub fn values(&self) -> (r: Vec<i64>)
        requires
            self.wf(),
        ensures
            r@.len() == self.estimates().num_arms(),
            forall|i: int|
                0 <= i < r@.len() ==> #[trigger] r@[i] == floor_value(
                    self.estimates().spec_sums()[i] as int,
                    self.estimates().spec_counts()[i] as int,
                ),
    {
        self.arms.floor_values()
    }
}

} // verus!
