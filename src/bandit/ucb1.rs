use vstd::prelude::*;
use crate::bandit::arms::{ArmEstimates, is_lowest_argmax, floor_value, total_of, lemma_lowest_argmax_unique};
use crate::bandit::BanditError;

verus! {

/// `k` is the first arm that has never been pulled.
pub open spec fn is_lowest_untried(counts: Seq<u64>, k: int) -> bool {
    &&& 0 <= k < counts.len()
    &&& counts[k] == 0
    &&& forall|j: int| 0 <= j < k ==> counts[j] != 0
}

pub open spec fn all_tried(counts: Seq<u64>) -> bool {
    forall|j: int| 0 <= j < counts.len() ==> counts[j] != 0
}

/// The UCB1 choice: while some arm is untried, the first such arm; afterwards
/// the first arm of greatest mean plus exploration bonus.
pub open spec fn is_ucb_choice(sums: Seq<i128>, counts: Seq<u64>, bonus: Seq<i64>, k: int) -> bool {
    if all_tried(counts) {
        is_lowest_argmax(sums, counts, bonus, k)
    } else {
        is_lowest_untried(counts, k)
    }
}

/// Upper-confidence-bound bandit. Once every arm has been pulled, arm `i` scores
/// its mean plus an exploration bonus `c * sqrt(2 ln(total) / counts[i])` in
/// reward units, which the caller supplies per arm.
pub struct Ucb1 {
    c: i64,
    arms: ArmEstimates,
}

impl Ucb1 {
    pub closed spec fn spec_c(&self) -> int {
        self.c as int
    }

    pub closed spec fn estimates(&self) -> ArmEstimates {
        self.arms
    }

    pub open spec fn wf(&self) -> bool {
        &&& self.estimates().wf()
        &&& self.spec_c() >= 0
    }

    pub open spec fn accepts(num_arms: usize, c: i64) -> bool {
        num_arms > 0 && c >= 0
    }

    pub open spec fn rejection(num_arms: usize, c: i64) -> BanditError {
        if num_arms == 0 {
            BanditError::ZeroArms
        } else {
            BanditError::NegativeExploration
        }
    }

    /// No arm pulled yet: every count and every sum is zero.
    pub open spec fn is_fresh(&self, num_arms: nat) -> bool {
        &&& self.estimates().spec_counts() == Seq::new(num_arms, |i: int| 0u64)
        &&& self.estimates().spec_sums() == Seq::new(num_arms, |i: int| 0i128)
    }

    /// A strategy over `num_arms` arms with exploration coefficient `c` (in
    /// reward units).
    pub fn new(num_arms: usize, c: i64) -> (r: Result<Self, BanditError>)
        ensures
            match r {
                Ok(u) => u.wf() && u.spec_c() == c && u.is_fresh(num_arms as nat),
                Err(e) => e == Self::rejection(num_arms, c),
            },
            r.is_ok() == Self::accepts(num_arms, c),
    {
        if num_arms == 0 {
            return Err(BanditError::ZeroArms);
        }
        if c < 0 {
            return Err(BanditError::NegativeExploration);
        }
        Ok(Ucb1 { c, arms: ArmEstimates::new(num_arms) })
    }

    /// The next arm to pull, given each arm's exploration bonus: the first
    /// untried arm if there is one, else the first arm of greatest
    /// `mean + bonus`. The bonuses are read only once every arm was tried.
    pub fn select_arm(&self, bonus: &[i64]) -> (r: usize)
        requires
            self.wf(),
            bonus@.len() == self.estimates().num_arms(),
        ensures
            is_ucb_choice(self.estimates().spec_sums(), self.estimates().spec_counts(), bonus@, r as int),
    {
        match self.arms.first_untried() {
            Some(k) => k,
            None => self.arms.lowest_argmax(bonus),
        }
    }

    /// The first untried arm, if any: the choice that needs no bonus.
    pub fn cold_start_arm(&self) -> (r: Option<usize>)
        requires
            self.wf(),
        ensures
            match r {
                Some(k) => is_lowest_untried(self.estimates().spec_counts(), k as int),
                None => all_tried(self.estimates().spec_counts()),
            },
    {
        self.arms.first_untried()
    }

    /// Records `reward` for `arm`: the incremental-mean update, kept exact as a
    /// count and a sum.
    pub fn update(&mut self, arm: usize, reward: i64)
        requires
            old(self).wf(),
            arm < old(self).estimates().num_arms(),
            old(self).estimates().spec_counts()[arm as int] < u64::MAX,
        ensures
            final(self).wf(),
            final(self).spec_c() == old(self).spec_c(),
            final(self).estimates().spec_counts() == old(self).estimates().spec_counts().update(
                arm as int,
                (old(self).estimates().spec_counts()[arm as int] + 1) as u64,
            ),
            final(self).estimates().spec_sums() == old(self).estimates().spec_sums().update(
                arm as int,
                (old(self).estimates().spec_sums()[arm as int] + reward) as i128,
            ),
    {
        self.arms.update(arm, reward);
    }

    pub fn num_arms(&self) -> (r: usize)
        requires
            self.wf(),
        ensures
            r == self.estimates().num_arms(),
    {
        self.arms.len()
    }

    /// The exploration coefficient, in reward units.
    pub fn c(&self) -> (r: i64)
        ensures
            r == self.spec_c(),
    {
        self.c
    }

    /// The number of pulls over all arms.
    pub fn total_pulls(&self) -> (r: u128)
        requires
            self.wf(),
        ensures
            r == total_of(self.estimates().spec_counts()),
    {
        self.arms.total_pulls()
    }

    /// How often each arm has been pulled.
    pub fn counts(&self) -> (r: &[u64])
        ensures
            r@ == self.estimates().spec_counts(),
    {
        self.arms.counts()
    }

    /// The exact reward sum of each arm.
    pub fn sums(&self) -> (r: &[i128])
        ensures
            r@ == self.estimates().spec_sums(),
    {
        self.arms.sums()
    }

    /// Each arm's mean reward, rounded down to a whole unit.
    pub fn values(&self) -> (r: Vec<i64>)
        requires
            self.wf(),
        ensures
            r@.len() == self.estimates().num_arms(),
            forall|i: int|
                0 <= i < r@.len() ==> #[trigger] r@[i] == floor_value(
                    self.estimates().spec_sums()[i] as int,
                    self.estimates().spec_counts()[i] as int,
                ),
    {
        self.arms.floor_values()
    }
}

/// UCB1 is deterministic: on equal counts, sums and bonuses there is exactly
/// one arm it may choose, so two strategies built alike and fed alike choose alike.
pub proof fn lemma_ucb_choice_unique(sums: Seq<i128>, counts: Seq<u64>, bonus: Seq<i64>, k1: int, k2: int)
    requires
        is_ucb_choice(sums, counts, bonus, k1),
        is_ucb_choice(sums, counts, bonus, k2),
    ensures
        k1 == k2,
{
    if all_tried(counts) {
        lemma_lowest_argmax_unique(sums, counts, bonus, k1, k2);
    } else {
        if k1 < k2 {
            assert(counts[k1] != 0);
        } else if k2 < k1 {
            assert(counts[k2] != 0);
        }
    }
}

/// Cold start: while arms `0..k` have each been pulled and arms `k..` have
/// not, UCB1 picks arm `k`, whatever the bonuses; so from a fresh strategy the
/// first pulls visit the arms in index order.
pub proof fn lemma_cold_start_order(sums: Seq<i128>, counts: Seq<u64>, bonus: Seq<i64>, k: int)
    requires
        0 <= k < counts.len(),
        forall|j: int| 0 <= j < k ==> counts[j] != 0,
        forall|j: int| k <= j < counts.len() ==> counts[j] == 0,
    ensures
        forall|r: int| is_ucb_choice(sums, counts, bonus, r) <==> r == k,
{
    assert(counts[k] == 0);
    assert(!all_tried(counts));
    assert forall|r: int| is_ucb_choice(sums, counts, bonus, r) <==> r == k by {
        if r != k && is_lowest_untried(counts, r) {
            if r < k {
                assert(counts[r] != 0);
            } else {
                assert(counts[k] == 0);
            }
        }
    }
}

} // verus!
