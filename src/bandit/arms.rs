use vstd::prelude::*;
use crate::stats::{lemma_div_between, sum_of};

verus! {

/// The denominator of an arm's mean: its pull count, or 1 for an arm never pulled.
pub open spec fn den(c: int) -> int {
    if c == 0 {
        1
    } else {
        c
    }
}

/// Whether the score `s1 / den(c1) + b1` is strictly greater than `s2 / den(c2) + b2`,
/// compared exactly.
pub open spec fn score_gt(s1: int, c1: int, b1: int, s2: int, c2: int, b2: int) -> bool {
    (s1 + b1 * den(c1)) * den(c2) > (s2 + b2 * den(c2)) * den(c1)
}

/// Whether arm `i`'s score is strictly greater than arm `j`'s.
pub open spec fn arm_gt(sums: Seq<i128>, counts: Seq<u64>, bonus: Seq<i64>, i: int, j: int) -> bool {
    score_gt(
        sums[i] as int,
        counts[i] as int,
        bonus[i] as int,
        sums[j] as int,
        counts[j] as int,
        bonus[j] as int,
    )
}

/// `k` is the first arm of greatest score: no arm scores above it, and every
/// earlier arm scores strictly below it.
pub open spec fn is_lowest_argmax(sums: Seq<i128>, counts: Seq<u64>, bonus: Seq<i64>, k: int) -> bool {
    &&& 0 <= k < sums.len()
    &&& forall|j: int| 0 <= j < sums.len() ==> !arm_gt(sums, counts, bonus, j, k)
    &&& forall|j: int| 0 <= j < k ==> arm_gt(sums, counts, bonus, k, j)
}

/// A bonus of zero for each of `n` arms: scores are then the plain means.
pub open spec fn no_bonus(n: nat) -> Seq<i64> {
    Seq::new(n, |i: int| 0i64)
}

/// The mean of an arm rounded down to a whole unit (0 for an arm never pulled).
pub open spec fn floor_value(s: int, c: int) -> int {
    s / den(c)
}

/// Total of a sequence of pull counts.
pub open spec fn total_of(s: Seq<u64>) -> int
    decreases s.len(),
{
    if s.len() == 0 {
        0
    } else {
        total_of(s.drop_last()) + s.last()
    }
}

/// Per-arm pull counts and reward sums; the mean of arm `i` is `sums[i] / counts[i]`.
pub struct ArmEstimates {
    counts: Vec<u64>,
    sums: Vec<i128>,
}

impl ArmEstimates {
    pub closed spec fn spec_counts(&self) -> Seq<u64> {
        self.counts@
    }

    pub closed spec fn spec_sums(&self) -> Seq<i128> {
        self.sums@
    }

    pub open spec fn num_arms(&self) -> nat {
        self.spec_counts().len()
    }

    pub open spec fn wf(&self) -> bool {
        &&& self.spec_counts().len() == self.spec_sums().len()
        &&& self.spec_counts().len() > 0
        &&& forall|i: int|
            0 <= i < self.spec_counts().len() ==> (#[trigger] self.spec_counts()[i]) * (i64::MIN as int)
                <= self.spec_sums()[i] <= self.spec_counts()[i] * (i64::MAX as int)
    }

    pub fn new(num_arms: usize) -> (r: Self)
        requires
            num_arms > 0,
        ensures
            r.wf(),
            r.spec_counts() == Seq::new(num_arms as nat, |i: int| 0u64),
            r.spec_sums() == Seq::new(num_arms as nat, |i: int| 0i128),
    {
        let mut counts: Vec<u64> = Vec::new();
        let mut sums: Vec<i128> = Vec::new();
        let mut i: usize = 0;
        while i < num_arms
            invariant
                i <= num_arms,
                counts@ == Seq::new(i as nat, |k: int| 0u64),
                sums@ == Seq::new(i as nat, |k: int| 0i128),
            decreases num_arms - i,
        {
            counts.push(0);
            sums.push(0);
            i = i + 1;
            assert(counts@ =~= Seq::new(i as nat, |k: int| 0u64));
            assert(sums@ =~= Seq::new(i as nat, |k: int| 0i128));
        }
        ArmEstimates { counts, sums }
    }

    pub fn len(&self) -> (r: usize)
        requires
            self.wf(),
        ensures
            r == self.num_arms(),
    {
        self.counts.len()
    }

    /// Records one reward for `arm`: its count grows by one and its sum by `reward`.
    pub fn update(&mut self, arm: usize, reward: i64)
        requires
            old(self).wf(),
            arm < old(self).num_arms(),
            old(self).spec_counts()[arm as int] < u64::MAX,
        ensures
            final(self).wf(),
            final(self).spec_counts() == old(self).spec_counts().update(
                arm as int,
                (old(self).spec_counts()[arm as int] + 1) as u64,
            ),
            final(self).spec_sums() == old(self).spec_sums().update(
                arm as int,
                (old(self).spec_sums()[arm as int] + reward) as i128,
            ),
    {
        let n = self.counts[arm] + 1;
        let s = self.sums[arm];
        proof {
            assert(self.counts@[arm as int] * (i64::MIN as int) <= s <= self.counts@[arm as int] * (i64::MAX as int));
            assert(n * (i64::MIN as int) <= s + reward <= n * (i64::MAX as int)) by (nonlinear_arith)
                requires
                    n == self.counts@[arm as int] + 1,
                    self.counts@[arm as int] * (i64::MIN as int) <= s <= self.counts@[arm as int] * (i64::MAX as int),
                    i64::MIN <= reward <= i64::MAX,
            ;
            assert(n <= u64::MAX);
            assert(n * (i64::MIN as int) >= u64::MAX * (i64::MIN as int)) by (nonlinear_arith)
                requires n <= u64::MAX, n >= 0;
            assert(n * (i64::MAX as int) <= u64::MAX * (i64::MAX as int)) by (nonlinear_arith)
                requires n <= u64::MAX, n >= 0;
        }
        self.counts.set(arm, n);
        self.sums.set(arm, s + reward as i128);
        proof {
            assert forall|i: int| 0 <= i < self.counts@.len() implies (#[trigger] self.counts@[i]) * (i64::MIN as int)
                <= self.sums@[i] <= self.counts@[i] * (i64::MAX as int) by {
                if i != arm {
                    assert(old(self).counts@[i] == self.counts@[i]);
                }
            }
        }
    }

    pub fn counts(&self) -> (r: &[u64])
        ensures
            r@ == self.spec_counts(),
    {
        self.counts.as_slice()
    }

    pub fn sums(&self) -> (r: &[i128])
        ensures
            r@ == self.spec_sums(),
    {
        self.sums.as_slice()
    }

    /// The floor and the remainder of arm `i`'s mean, with a bonus added to the floor.
    fn split_score(&self, i: usize, b: i64) -> (r: (i128, u128))
        requires
            self.wf(),
            i < self.num_arms(),
        ensures
            r.0 == floor_value(self.spec_sums()[i as int] as int, self.spec_counts()[i as int] as int) + b,
            r.1 == (self.spec_sums()[i as int] as int) % den(self.spec_counts()[i as int] as int),
    {
        let c = self.counts[i];
        let s = self.sums[i];
        let d: u64 = if c == 0 { 1 } else { c };
        proof {
            assert(c * (i64::MIN as int) <= s <= c * (i64::MAX as int));
            if c == 0 {
                assert(s == 0);
            }
            assert(d * (i64::MIN as int) <= s <= d * (i64::MAX as int)) by (nonlinear_arith)
                requires
                    c * (i64::MIN as int) <= s <= c * (i64::MAX as int),
                    c == 0 ==> s == 0,
                    d == (if c == 0 { 1 } else { c as int }),
            ;
            lemma_div_between(s as int, d as int, i64::MIN as int, i64::MAX as int);
            vstd::arithmetic::div_mod::lemma_mod_bound(s as int, d as int);
        }
        let q = match s.checked_div_euclid(d as i128) {
            Some(q) => q,
            None => 0,
        };
        let m = match s.checked_rem_euclid(d as i128) {
            Some(m) => m,
            None => 0,
        };
        (q + b as i128, m as u128)
    }

    /// Whether arm `i`'s score is strictly greater than arm `j`'s.
    fn greater(&self, i: usize, bi: i64, j: usize, bj: i64) -> (r: bool)
        requires
            self.wf(),
            i < self.num_arms(),
            j < self.num_arms(),
        ensures
            r == score_gt(
                self.spec_sums()[i as int] as int,
                self.spec_counts()[i as int] as int,
                bi as int,
                self.spec_sums()[j as int] as int,
                self.spec_counts()[j as int] as int,
                bj as int,
            ),
    {
        let (qi, ri) = self.split_score(i, bi);
        let (qj, rj) = self.split_score(j, bj);
        let ci = self.counts[i];
        let cj = self.counts[j];
        let di: u64 = if ci == 0 { 1 } else { ci };
        let dj: u64 = if cj == 0 { 1 } else { cj };
        proof {
            let si = self.sums@[i as int] as int;
            let sj = self.sums@[j as int] as int;
            let di_ = di as int;
            let dj_ = dj as int;
            let bi_ = bi as int;
            let bj_ = bj as int;
            let qi_ = qi as int;
            let qj_ = qj as int;
            let ri_ = ri as int;
            let rj_ = rj as int;
            vstd::arithmetic::div_mod::lemma_fundamental_div_mod(si, di_);
            vstd::arithmetic::div_mod::lemma_fundamental_div_mod(sj, dj_);
            vstd::arithmetic::div_mod::lemma_mod_bound(si, di_);
            vstd::arithmetic::div_mod::lemma_mod_bound(sj, dj_);
            assert(si + bi_ * di_ == qi_ * di_ + ri_) by (nonlinear_arith)
                requires
                    si == di_ * (si / di_) + si % di_,
                    qi_ == si / di_ + bi_,
                    ri_ == si % di_,
            ;
            assert(sj + bj_ * dj_ == qj_ * dj_ + rj_) by (nonlinear_arith)
                requires
                    sj == dj_ * (sj / dj_) + sj % dj_,
                    qj_ == sj / dj_ + bj_,
                    rj_ == sj % dj_,
            ;
            lemma_frac_cmp(qi_, ri_, di_, qj_, rj_, dj_);
            assert(ri_ * dj_ < u128::MAX) by (nonlinear_arith)
                requires 0 <= ri_ < di_, di_ <= u64::MAX, 0 < dj_ <= u64::MAX;
            assert(rj_ * di_ < u128::MAX) by (nonlinear_arith)
                requires 0 <= rj_ < dj_, dj_ <= u64::MAX, 0 < di_ <= u64::MAX;
        }
        if qi != qj {
            qi > qj
        } else {
            ri * (dj as u128) > rj * (di as u128)
        }
    }

    /// The first arm of greatest score, where arm `i` scores its mean plus `bonus[i]`.
    pub fn lowest_argmax(&self, bonus: &[i64]) -> (r: usize)
        requires
            self.wf(),
            bonus@.len() == self.num_arms(),
        ensures
            is_lowest_argmax(self.spec_sums(), self.spec_counts(), bonus@, r as int),
    {
        let n = self.counts.len();
        let mut best: usize = 0;
        let mut i: usize = 1;
        while i < n
            invariant
                self.wf(),
                n == self.num_arms(),
                bonus@.len() == n,
                1 <= i <= n,
                best < i,
                forall|j: int| 0 <= j < i ==> !arm_gt(self.spec_sums(), self.spec_counts(), bonus@, j, best as int),
                forall|j: int| 0 <= j < best ==> arm_gt(self.spec_sums(), self.spec_counts(), bonus@, best as int, j),
            decreases n - i,
        {
            if self.greater(i, bonus[i], best, bonus[best]) {
                proof {
                    let ss = self.spec_sums();
                    let cc = self.spec_counts();
                    assert forall|j: int| 0 <= j <= i implies !arm_gt(ss, cc, bonus@, j, i as int) by {
                        if j < i {
                            lemma_score_gt_trans(ss, cc, bonus@, j, i as int, best as int);
                        } else {
                            lemma_score_gt_irrefl(ss, cc, bonus@, j);
                        }
                    }
                    assert forall|j: int| 0 <= j < i implies arm_gt(ss, cc, bonus@, i as int, j) by {
                        lemma_score_gt_total(ss, cc, bonus@, i as int, best as int, j);
                    }
                }
                best = i;
            }
            i = i + 1;
        }
        best
    }

    /// The first arm never pulled, if any.
    pub fn first_untried(&self) -> (r: Option<usize>)
        requires
            self.wf(),
        ensures
            match r {
                Some(k) => k < self.num_arms() && self.spec_counts()[k as int] == 0 && forall|j: int|
                    0 <= j < k ==> self.spec_counts()[j] != 0,
                None => forall|j: int| 0 <= j < self.num_arms() ==> self.spec_counts()[j] != 0,
            },
    {
        let mut i: usize = 0;
        while i < self.counts.len()
            invariant
                i <= self.counts@.len(),
                forall|j: int| 0 <= j < i ==> self.counts@[j] != 0,
            decreases self.counts@.len() - i,
        {
            if self.counts[i] == 0 {
                return Some(i);
            }
            i = i + 1;
        }
        None
    }

    /// The number of pulls over all arms.
    pub fn total_pulls(&self) -> (r: u128)
        requires
            self.wf(),
        ensures
            r == total_of(self.spec_counts()),
    {
        let n = self.counts.len();
        let mut acc: u128 = 0;
        let mut i: usize = 0;
        while i < n
            invariant
                n == self.counts@.len(),
                i <= n,
                acc == total_of(self.counts@.subrange(0, i as int)),
                acc <= i * (u64::MAX as int),
            decreases self.counts@.len() - i,
        {
            assert(self.counts@.subrange(0, (i + 1) as int).drop_last() =~= self.counts@.subrange(0, i as int));
            assert((i + 1) * (u64::MAX as int) <= u128::MAX) by (nonlinear_arith)
                requires i < usize::MAX;
            acc = acc + self.counts[i] as u128;
            i = i + 1;
        }
        assert(self.counts@.subrange(0, self.counts@.len() as int) =~= self.counts@);
        acc
    }

    /// Each arm's mean rounded down to a whole unit (0 for an arm never pulled).
    pub fn floor_values(&self) -> (r: Vec<i64>)
        requires
            self.wf(),
        ensures
            r@.len() == self.num_arms(),
            forall|i: int|
                0 <= i < self.num_arms() ==> #[trigger] r@[i] == floor_value(
                    self.spec_sums()[i] as int,
                    self.spec_counts()[i] as int,
                ),
    {
        let mut out: Vec<i64> = Vec::new();
        let mut i: usize = 0;
        while i < self.counts.len()
            invariant
                self.wf(),
                i <= self.num_arms(),
                out@.len() == i,
                forall|k: int|
                    0 <= k < i ==> #[trigger] out@[k] == floor_value(
                        self.spec_sums()[k] as int,
                        self.spec_counts()[k] as int,
                    ),
            decreases self.num_arms() - i,
        {
            let (q, _) = self.split_score(i, 0);
            proof {
                let c = self.counts@[i as int] as int;
                let sv = self.sums@[i as int] as int;
                assert(c * (i64::MIN as int) <= sv <= c * (i64::MAX as int));
                assert(den(c) * (i64::MIN as int) <= sv <= den(c) * (i64::MAX as int)) by (nonlinear_arith)
                    requires
                        c * (i64::MIN as int) <= sv <= c * (i64::MAX as int),
                        c == 0 ==> sv == 0,
                        den(c) == (if c == 0 { 1 } else { c }),
                ;
                lemma_div_between(sv, den(c), i64::MIN as int, i64::MAX as int);
            }
            out.push(q as i64);
            i = i + 1;
        }
        out
    }

    /// The first arm of greatest mean.
    pub fn best_arm(&self) -> (r: usize)
        requires
            self.wf(),
        ensures
            is_lowest_argmax(self.spec_sums(), self.spec_counts(), no_bonus(self.num_arms()), r as int),
    {
        let n = self.counts.len();
        let mut zeros: Vec<i64> = Vec::new();
        let mut i: usize = 0;
        while i < n
            invariant
                i <= n,
                zeros@ == Seq::new(i as nat, |k: int| 0i64),
            decreases n - i,
        {
            zeros.push(0);
            i = i + 1;
            assert(zeros@ =~= Seq::new(i as nat, |k: int| 0i64));
        }
        self.lowest_argmax(zeros.as_slice())
    }
}

/// Comparing `q1 + r1 / d1` with `q2 + r2 / d2` for remainders below their
/// denominators: the whole parts decide unless they are equal.
pub proof fn lemma_frac_cmp(q1: int, r1: int, d1: int, q2: int, r2: int, d2: int)
    requires
        d1 > 0,
        d2 > 0,
        0 <= r1 < d1,
        0 <= r2 < d2,
    ensures
        ((q1 * d1 + r1) * d2 > (q2 * d2 + r2) * d1) == (q1 > q2 || (q1 == q2 && r1 * d2 > r2 * d1)),
{
    let dd = d1 * d2;
    assert((q1 * d1 + r1) * d2 - (q2 * d2 + r2) * d1 == (q1 - q2) * dd + (r1 * d2 - r2 * d1)) by (nonlinear_arith)
        requires dd == d1 * d2;
    assert(r1 * d2 - r2 * d1 < dd) by (nonlinear_arith)
        requires dd == d1 * d2, 0 <= r1 < d1, 0 <= r2, d2 > 0;
    assert(r1 * d2 - r2 * d1 > -dd) by (nonlinear_arith)
        requires dd == d1 * d2, 0 <= r2 < d2, 0 <= r1, d1 > 0;
    assert(dd > 0) by (nonlinear_arith)
        requires dd == d1 * d2, d1 > 0, d2 > 0;
    if q1 > q2 {
        assert((q1 - q2) * dd >= dd) by (nonlinear_arith)
            requires q1 - q2 >= 1, dd > 0;
    } else if q1 < q2 {
        assert((q1 - q2) * dd <= -dd) by (nonlinear_arith)
            requires q1 - q2 <= -1, dd > 0;
    } else {
        assert((q1 - q2) * dd == 0) by (nonlinear_arith)
            requires q1 == q2;
    }
}

/// Scores compare as fractions with positive denominators: rewrite them over one.
proof fn lemma_cross(a: int, da: int, b: int, db: int, c: int, dc: int)
    requires
        da > 0,
        db > 0,
        dc > 0,
    ensures
        (a * db > b * da && b * dc >= c * db) ==> a * dc > c * da,
        (a * db >= b * da && b * dc > c * db) ==> a * dc > c * da,
        (a * db >= b * da && b * dc >= c * db) ==> a * dc >= c * da,
        !(a * db > b * da) ==> b * da >= a * db,
{
    if a * db > b * da && b * dc >= c * db {
        assert(a * db * dc > b * da * dc) by (nonlinear_arith)
            requires a * db > b * da, dc > 0;
        assert(b * dc * da >= c * db * da) by (nonlinear_arith)
            requires b * dc >= c * db, da > 0;
        assert(a * dc * db > c * da * db) by (nonlinear_arith)
            requires a * db * dc > b * da * dc, b * dc * da >= c * db * da;
        assert(a * dc > c * da) by (nonlinear_arith)
            requires a * dc * db > c * da * db, db > 0;
    }
    if a * db >= b * da && b * dc > c * db {
        assert(a * db * dc >= b * da * dc) by (nonlinear_arith)
            requires a * db >= b * da, dc > 0;
        assert(b * dc * da > c * db * da) by (nonlinear_arith)
            requires b * dc > c * db, da > 0;
        assert(a * dc * db > c * da * db) by (nonlinear_arith)
            requires a * db * dc >= b * da * dc, b * dc * da > c * db * da;
        assert(a * dc > c * da) by (nonlinear_arith)
            requires a * dc * db > c * da * db, db > 0;
    }
    if a * db >= b * da && b * dc >= c * db {
        assert(a * db * dc >= b * da * dc) by (nonlinear_arith)
            requires a * db >= b * da, dc > 0;
        assert(b * dc * da >= c * db * da) by (nonlinear_arith)
            requires b * dc >= c * db, da > 0;
        assert(a * dc * db >= c * da * db) by (nonlinear_arith)
            requires a * db * dc >= b * da * dc, b * dc * da >= c * db * da;
        assert(a * dc >= c * da) by (nonlinear_arith)
            requires a * dc * db >= c * da * db, db > 0;
    }
}

proof fn lemma_score_gt_irrefl(sums: Seq<i128>, counts: Seq<u64>, bonus: Seq<i64>, i: int)
    ensures
        !arm_gt(sums, counts, bonus, i, i),
{
}

/// If `k` beats `best` and nothing beats `best`, nothing beats `k`.
proof fn lemma_score_gt_trans(sums: Seq<i128>, counts: Seq<u64>, bonus: Seq<i64>, j: int, k: int, best: int)
    requires
        arm_gt(sums, counts, bonus, k, best),
        !arm_gt(sums, counts, bonus, j, best),
    ensures
        !arm_gt(sums, counts, bonus, j, k),
{
    let a = sums[j] + bonus[j] * den(counts[j] as int);
    let b = sums[best] + bonus[best] * den(counts[best] as int);
    let c = sums[k] + bonus[k] * den(counts[k] as int);
    lemma_cross(c, den(counts[k] as int), b, den(counts[best] as int), a, den(counts[j] as int));
    lemma_cross(b, den(counts[best] as int), a, den(counts[j] as int), c, den(counts[k] as int));
}

/// If `k` beats `best` and `best` beats or ties every earlier arm `j`, `k` beats `j`.
proof fn lemma_score_gt_total(sums: Seq<i128>, counts: Seq<u64>, bonus: Seq<i64>, k: int, best: int, j: int)
    requires
        arm_gt(sums, counts, bonus, k, best),
        !arm_gt(sums, counts, bonus, j, best),
    ensures
        arm_gt(sums, counts, bonus, k, j),
{
    let a = sums[j] + bonus[j] * den(counts[j] as int);
    let b = sums[best] + bonus[best] * den(counts[best] as int);
    let c = sums[k] + bonus[k] * den(counts[k] as int);
    lemma_cross(b, den(counts[best] as int), a, den(counts[j] as int), c, den(counts[k] as int));
    lemma_cross(c, den(counts[k] as int), b, den(counts[best] as int), a, den(counts[j] as int));
}

} // verus!

verus! {

/// The incremental-mean identity: for an arm with reward sum `s` over `c > 0`
/// pulls, the mean after one more reward `r`, `(s + r) / (c + 1)`, equals
/// `m + (r - m) / (c + 1)` with `m = s / c`. Both sides are written as
/// fractions and compared by cross-multiplication.
pub proof fn lemma_incremental_mean(s: int, c: int, r: int)
    requires
        c > 0,
    ensures
        (s + r) * (c * (c + 1)) == (s * (c + 1) + (r * c - s)) * (c + 1),
{
    assert((s + r) * (c * (c + 1)) == (s * (c + 1) + (r * c - s)) * (c + 1)) by (nonlinear_arith);
}

/// An arm fed only the reward `r`, `n > 0` times, from no pulls: its sum is
/// `n * r`, its mean is exactly `r`, and so is its mean rounded down.
pub proof fn lemma_constant_reward_mean(rewards: Seq<i64>, r: i64)
    requires
        rewards.len() > 0,
        forall|i: int| 0 <= i < rewards.len() ==> rewards[i] == r,
    ensures
        sum_of(rewards) == rewards.len() * r,
        !score_gt(sum_of(rewards), rewards.len() as int, 0, r as int, 1, 0),
        !score_gt(r as int, 1, 0, sum_of(rewards), rewards.len() as int, 0),
        floor_value(sum_of(rewards), rewards.len() as int) == r,
{
    lemma_constant_sum(rewards, r);
    let n = rewards.len() as int;
    assert(den(n) == n);
    assert(0 * n == 0 && 0 * 1 == 0);
    assert((n * r) * 1 == r * n) by (nonlinear_arith);
    assert((r as int) * 1 == r);
    assert((n * r) / n == r) by {
        vstd::arithmetic::div_mod::lemma_div_multiples_vanish(r as int, n);
    }
}

proof fn lemma_constant_sum(rewards: Seq<i64>, r: i64)
    requires
        forall|i: int| 0 <= i < rewards.len() ==> rewards[i] == r,
    ensures
        sum_of(rewards) == rewards.len() * r,
    decreases rewards.len(),
{
    if rewards.len() > 0 {
        lemma_constant_sum(rewards.drop_last(), r);
        assert(sum_of(rewards) == (rewards.len() - 1) * r + r);
        assert((rewards.len() - 1) * r + r == rewards.len() * r) by (nonlinear_arith);
    }
}

/// One update step of the constant-reward case: an arm whose sum is `c * r`
/// over `c` pulls, given the reward `r` again, has sum `(c + 1) * r` over
/// `c + 1` pulls, so its mean is exactly `r`.
pub proof fn lemma_constant_reward_step(s: int, c: int, r: int)
    requires
        c >= 0,
        s == c * r,
    ensures
        s + r == (c + 1) * r,
        !score_gt(s + r, c + 1, 0, r, 1, 0),
        !score_gt(r, 1, 0, s + r, c + 1, 0),
        floor_value(s + r, c + 1) == r,
{
    assert(s + r == (c + 1) * r) by (nonlinear_arith)
        requires s == c * r;
    assert(den(c + 1) == c + 1);
    assert((s + r) * 1 == r * (c + 1)) by (nonlinear_arith)
        requires s + r == (c + 1) * r;
    assert(0 * (c + 1) == 0 && 0 * 1 == 0);
    vstd::arithmetic::div_mod::lemma_div_multiples_vanish(r, c + 1);
}

/// The arm an update touches holds, afterwards, the sum and the count of the
/// rewards fed to it so far with the new one appended.
pub proof fn lemma_update_feeds(rewards: Seq<i64>, reward: i64)
    ensures
        sum_of(rewards.push(reward)) == sum_of(rewards) + reward,
        rewards.push(reward).len() == rewards.len() + 1,
{
    assert(rewards.push(reward).drop_last() =~= rewards);
}

/// The first arm of greatest score is unique: the choice is a function of the
/// counts, the sums and the bonuses.
pub proof fn lemma_lowest_argmax_unique(sums: Seq<i128>, counts: Seq<u64>, bonus: Seq<i64>, k1: int, k2: int)
    requires
        is_lowest_argmax(sums, counts, bonus, k1),
        is_lowest_argmax(sums, counts, bonus, k2),
    ensures
        k1 == k2,
{
    if k1 < k2 {
        assert(arm_gt(sums, counts, bonus, k2, k1));
    } else if k2 < k1 {
        assert(arm_gt(sums, counts, bonus, k1, k2));
    }
}

} // verus!
