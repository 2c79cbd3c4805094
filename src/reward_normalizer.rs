use vstd::prelude::*;
use crate::window::{pushed, RollingWindow};

verus! {

/// All entries of `s` are equal.
pub open spec fn all_same(s: Seq<i64>) -> bool {
    forall|i: int, j: int| 0 <= i < s.len() && 0 <= j < s.len() ==> s[i] == s[j]
}

/// A window carries no information for a z-score when it is empty or its
/// standard deviation is zero, that is, when all its entries are equal.
pub open spec fn is_degenerate(s: Seq<i64>) -> bool {
    s.len() == 0 || all_same(s)
}

/// Rolling window of recent rewards, against which a reward is normalized by
/// the sigmoid of its z-score. Only the degenerate windows have a fixed answer,
/// the neutral midpoint.
pub struct RewardNormalizer {
    window: RollingWindow<i64>,
}

impl View for RewardNormalizer {
    type V = Seq<i64>;

    closed spec fn view(&self) -> Seq<i64> {
        self.window@
    }
}

impl RewardNormalizer {
    pub closed spec fn window_size(&self) -> nat {
        self.window.cap()
    }

    /// The window size is positive and never exceeded.
    pub open spec fn wf(&self) -> bool {
        &&& self.window_size() > 0
        &&& self@.len() <= self.window_size()
    }

    pub fn new(window: usize) -> (r: Self)
        requires
            window > 0,
        ensures
            r.wf(),
            r.window_size() == window,
            r@ == Seq::<i64>::empty(),
    {
        RewardNormalizer { window: RollingWindow::new(window) }
    }

    /// Adds a reward, evicting the oldest one when the window is full.
    pub fn update(&mut self, reward: i64)
        requires
            old(self).wf(),
        ensures
            final(self).wf(),
            final(self).window_size() == old(self).window_size(),
            final(self)@ == pushed(old(self)@, old(self).window_size(), reward),
    {
        self.window.push(reward);
    }

    /// Whether every reward normalizes to the neutral midpoint: the window is
    /// empty, or all its rewards are equal.
    pub fn is_neutral(&self) -> (r: bool)
        ensures
            r == is_degenerate(self@),
    {
        let s = self.window.as_slice();
        if s.len() == 0 {
            return true;
        }
        let first = s[0];
        let mut i: usize = 1;
        while i < s.len()
            invariant
                1 <= i <= s@.len(),
                s@ == self@,
                first == s@[0],
                forall|k: int| 0 <= k < i ==> s@[k] == first,
            decreases s@.len() - i,
        {
            if s[i] != first {
                assert(!all_same(s@)) by {
                    let a = i as int;
                    assert(0 <= a < s@.len() && 0 <= 0 < s@.len() && s@[a] != s@[0]);
                }
                assert(!is_degenerate(s@));
                return false;
            }
            i = i + 1;
        }
        true
    }

    /// How many rewards are stored.
    pub fn count(&self) -> (r: usize)
        requires
            self.wf(),
        ensures
            r == self@.len(),
    {
        self.window.len()
    }

    /// The stored rewards, oldest first.
    pub fn values(&self) -> (r: &[i64])
        ensures
            r@ == self@,
    {
        self.window.as_slice()
    }
}

} // verus!
