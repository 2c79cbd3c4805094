use vstd::prelude::*;
use crate::bandit::UNIT;

verus! {

/// Iterative optimization of a single parameter: `suggest` and `observe`
/// alternate, each observation reporting the reward of the latest suggestion.
pub trait Optimizer {
    /// The next parameter value to evaluate.
    fn suggest(&mut self) -> i64;

    /// The reward obtained for the latest suggestion.
    fn observe(&mut self, reward: i64);

    /// The best parameter known so far.
    fn param(&self) -> i64;

    /// Starts afresh from `x0`.
    fn reset(&mut self, x0: i64);
}

/// `v` clamped to the range of `i64`.
pub open spec fn sat(v: int) -> int {
    if v > i64::MAX {
        i64::MAX as int
    } else if v < i64::MIN {
        i64::MIN as int
    } else {
        v
    }
}

/// The step scaled by a factor written in millionths, rounded down, clamped.
pub open spec fn scaled(step: int, factor: int) -> int {
    sat((step * factor) / (UNIT as int))
}

/// The step after a regression: shrunk, but never below `min_step`.
pub open spec fn shrunk(step: int, shrink: int, min_step: int) -> int {
    let s = scaled(step, shrink);
    if s < min_step {
        min_step
    } else {
        s
    }
}

/// Deterministic one-dimensional hill climber with an adaptive step. All
/// quantities are fixed-point; `grow` and `shrink` are factors in millionths.
pub struct HillClimber1D {
    x: i64,
    up: bool,
    step: i64,
    min_step: i64,
    grow: i64,
    shrink: i64,
    last_reward: Option<i64>,
    last_suggested: Option<i64>,
}

impl HillClimber1D {
    pub closed spec fn spec_x(&self) -> int {
        self.x as int
    }

    /// The search direction, `1` or `-1`.
    pub closed spec fn spec_dir(&self) -> int {
        if self.up {
            1
        } else {
            -1
        }
    }

    pub closed spec fn spec_step(&self) -> int {
        self.step as int
    }

    pub closed spec fn spec_min_step(&self) -> int {
        self.min_step as int
    }

    pub closed spec fn spec_grow(&self) -> int {
        self.grow as int
    }

    pub closed spec fn spec_shrink(&self) -> int {
        self.shrink as int
    }

    pub closed spec fn spec_last_reward(&self) -> Option<i64> {
        self.last_reward
    }

    pub closed spec fn spec_last_suggested(&self) -> Option<i64> {
        self.last_suggested
    }

    /// The fixed parameters agree.
    pub open spec fn same_params(a: &Self, b: &Self) -> bool {
        &&& a.spec_min_step() == b.spec_min_step()
        &&& a.spec_grow() == b.spec_grow()
        &&& a.spec_shrink() == b.spec_shrink()
    }

    /// Two climbers in the same state.
    pub open spec fn same_state(a: &Self, b: &Self) -> bool {
        &&& Self::same_params(a, b)
        &&& a.spec_x() == b.spec_x()
        &&& a.spec_dir() == b.spec_dir()
        &&& a.spec_step() == b.spec_step()
        &&& a.spec_last_reward() == b.spec_last_reward()
        &&& a.spec_last_suggested() == b.spec_last_suggested()
    }

    pub open spec fn wf(&self) -> bool {
        &&& self.spec_dir() == 1 || self.spec_dir() == -1
        &&& i64::MIN <= self.spec_x() <= i64::MAX
        &&& self.spec_step() <= i64::MAX
        &&& self.spec_min_step() > 0
        &&& self.spec_step() > 0
        &&& self.spec_grow() > UNIT
        &&& 0 < self.spec_shrink() < UNIT
    }

    /// What `suggest` returns in state `s`: `x` at first, then `x + dir * step`.
    pub open spec fn suggestion(s: &Self) -> int {
        match s.spec_last_suggested() {
            None => s.spec_x(),
            Some(_) => sat(s.spec_x() + s.spec_dir() * s.spec_step()),
        }
    }

    /// `b` is `a` after a `suggest` that returned `r`.
    pub open spec fn suggested(a: &Self, b: &Self, r: i64) -> bool {
        &&& r == Self::suggestion(a)
        &&& Self::same_params(a, b)
        &&& b.spec_x() == a.spec_x()
        &&& b.spec_dir() == a.spec_dir()
        &&& b.spec_step() == a.spec_step()
        &&& b.spec_last_reward() == a.spec_last_reward()
        &&& b.spec_last_suggested() == Some(r)
    }

    /// `b` is `a` after `observe(reward)`: the first observation adopts the
    /// suggestion as the baseline; later ones adopt it and grow the step when
    /// the reward does not drop, and otherwise reverse the direction and shrink
    /// the step, keeping `x`.
    pub open spec fn observed(a: &Self, b: &Self, reward: i64) -> bool {
        &&& Self::same_params(a, b)
        &&& b.spec_last_suggested() == a.spec_last_suggested()
        &&& match (a.spec_last_reward(), a.spec_last_suggested()) {
            (None, Some(s)) => {
                &&& b.spec_x() == s
                &&& b.spec_dir() == a.spec_dir()
                &&& b.spec_step() == a.spec_step()
                &&& b.spec_last_reward() == Some(reward)
            },
            (Some(prev), Some(s)) => if reward >= prev {
                &&& b.spec_x() == s
                &&& b.spec_dir() == a.spec_dir()
                &&& b.spec_step() == scaled(a.spec_step(), a.spec_grow())
                &&& b.spec_last_reward() == Some(reward)
            } else {
                &&& b.spec_x() == a.spec_x()
                &&& b.spec_dir() == -a.spec_dir()
                &&& b.spec_step() == shrunk(a.spec_step(), a.spec_shrink(), a.spec_min_step())
                &&& b.spec_last_reward() == a.spec_last_reward()
            },
            _ => {
                &&& b.spec_x() == a.spec_x()
                &&& b.spec_dir() == a.spec_dir()
                &&& b.spec_step() == a.spec_step()
                &&& b.spec_last_reward() == a.spec_last_reward()
            },
        }
    }

    /// A climber at `x0` with step `UNIT / 2`, minimum step `UNIT / 10`,
    /// growth 1.1 and shrinkage 0.5.
    pub fn new(x0: i64) -> (r: Self)
        ensures
            r.wf(),
            r.spec_x() == x0,
            r.spec_dir() == 1,
            r.spec_step() == 500_000,
            r.spec_min_step() == 100_000,
            r.spec_grow() == 1_100_000,
            r.spec_shrink() == 500_000,
            r.spec_last_reward() is None,
            r.spec_last_suggested() is None,
    {
        Self::with_params(x0, 500_000, 100_000, 1_100_000, 500_000)
    }

    /// A climber at `x0` with the given step, minimum step, growth factor
    /// (above `UNIT`) and shrink factor (strictly between 0 and `UNIT`).
    pub fn with_params(x0: i64, step: i64, min_step: i64, grow: i64, shrink: i64) -> (r: Self)
        requires
            step > 0,
            min_step > 0,
            grow > UNIT,
            0 < shrink < UNIT,
        ensures
            r.wf(),
            r.spec_x() == x0,
            r.spec_dir() == 1,
            r.spec_step() == step,
            r.spec_min_step() == min_step,
            r.spec_grow() == grow,
            r.spec_shrink() == shrink,
            r.spec_last_reward() is None,
            r.spec_last_suggested() is None,
    {
        HillClimber1D { x: x0, up: true, step, min_step, grow, shrink, last_reward: None, last_suggested: None }
    }

    fn clamp(v: i128) -> (r: i64)
        ensures
            r == sat(v as int),
    {
        if v > i64::MAX as i128 {
            i64::MAX
        } else if v < i64::MIN as i128 {
            i64::MIN
        } else {
            v as i64
        }
    }

    fn scale(step: i64, factor: i64) -> (r: i64)
        ensures
            r == scaled(step as int, factor as int),
    {
        assert(-0x4000_0000_0000_0000_0000_0000_0000_0000 <= step as int * factor as int
            <= 0x4000_0000_0000_0000_0000_0000_0000_0000) by (nonlinear_arith)
            requires
                i64::MIN <= step <= i64::MAX,
                i64::MIN <= factor <= i64::MAX,
        ;
        let p = step as i128 * factor as i128;
        let q = match p.checked_div_euclid(UNIT as i128) {
            Some(q) => q,
            None => 0,
        };
        proof {
            crate::stats::lemma_div_between(p as int, UNIT as int, -0x4000_0000_0000_0000_0000_0000_0000_0000, 0x4000_0000_0000_0000_0000_0000_0000_0000);
        }
        Self::clamp(q)
    }

    /// Proposes the next parameter: `x` first, then `x + dir * step`.
    pub fn suggest(&mut self) -> (r: i64)
        ensures
            Self::suggested(old(self), final(self), r),
            old(self).wf() ==> final(self).wf(),
    {
        let s = match self.last_suggested {
            None => self.x,
            Some(_) => {
                if self.up {
                    assert(self.spec_dir() * self.spec_step() == self.step as int);
                    Self::clamp(self.x as i128 + self.step as i128)
                } else {
                    assert(self.spec_dir() * self.spec_step() == -(self.step as int));
                    Self::clamp(self.x as i128 - self.step as i128)
                }
            },
        };
        self.last_suggested = Some(s);
        s
    }

    /// Reports the reward of the latest suggestion.
    pub fn observe(&mut self, reward: i64)
        ensures
            Self::observed(old(self), final(self), reward),
            old(self).wf() ==> final(self).wf(),
    {
        match (self.last_reward, self.last_suggested) {
            (None, Some(s)) => {
                self.x = s;
                self.last_reward = Some(reward);
            },
            (Some(prev), Some(s)) => {
                if reward >= prev {
                    self.x = s;
                    let g = Self::scale(self.step, self.grow);
                    proof {
                        if self.step > 0 && self.grow > UNIT {
                            let st = self.step as int;
                            let gr = self.grow as int;
                            assert(st * gr >= st * (UNIT as int)) by (nonlinear_arith)
                                requires st > 0, gr > UNIT as int;
                            vstd::arithmetic::div_mod::lemma_div_multiples_vanish(st, UNIT as int);
                            vstd::arithmetic::div_mod::lemma_div_is_ordered(st * (UNIT as int), st * gr, UNIT as int);
                            assert((UNIT as int) * st == st * (UNIT as int)) by (nonlinear_arith);
                        }
                    }
                    self.step = g;
                    self.last_reward = Some(reward);
                } else {
                    self.up = !self.up;
                    let s2 = Self::scale(self.step, self.shrink);
                    self.step = if s2 < self.min_step { self.min_step } else { s2 };
                }
            },
            _ => {},
        }
    }

    /// The best parameter known so far.
    pub fn param(&self) -> (r: i64)
        ensures
            r == self.spec_x(),
    {
        self.x
    }

    /// Starts afresh from `x0`: direction up, history cleared, and the step
    /// raised to `min_step` if it fell below.
    pub fn reset(&mut self, x0: i64)
        ensures
            Self::same_params(old(self), final(self)),
            final(self).spec_x() == x0,
            final(self).spec_dir() == 1,
            final(self).spec_step() == if old(self).spec_step() < old(self).spec_min_step() {
                old(self).spec_min_step()
            } else {
                old(self).spec_step()
            },
            final(self).spec_last_reward() is None,
            final(self).spec_last_suggested() is None,
            old(self).wf() ==> final(self).wf(),
    {
        self.x = x0;
        self.up = true;
        if self.step < self.min_step {
            self.step = self.min_step;
        }
        self.last_reward = None;
        self.last_suggested = None;
    }
}

impl Optimizer for HillClimber1D {
    fn suggest(&mut self) -> i64 {
        HillClimber1D::suggest(self)
    }

    fn observe(&mut self, reward: i64) {
        HillClimber1D::observe(self, reward)
    }

    fn param(&self) -> i64 {
        HillClimber1D::param(self)
    }

    fn reset(&mut self, x0: i64) {
        HillClimber1D::reset(self, x0)
    }
}

/// Determinism: two climbers in the same state that receive the same call
/// (a `suggest`, or an `observe` of the same reward) return the same value and
/// end in the same state, so climbers built alike and fed alike in lockstep
/// follow the same trajectory.
pub proof fn lemma_lockstep(a0: HillClimber1D, a1: HillClimber1D, b0: HillClimber1D, b1: HillClimber1D, ra: i64, rb: i64, reward: i64)
    requires
        HillClimber1D::same_state(&a0, &b0),
    ensures
        (HillClimber1D::suggested(&a0, &a1, ra) && HillClimber1D::suggested(&b0, &b1, rb)) ==> (ra == rb
            && HillClimber1D::same_state(&a1, &b1)),
        (HillClimber1D::observed(&a0, &a1, reward) && HillClimber1D::observed(&b0, &b1, reward))
            ==> HillClimber1D::same_state(&a1, &b1),
{
}

} // verus!
