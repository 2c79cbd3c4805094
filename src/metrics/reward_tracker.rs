use vstd::prelude::*;
use crate::stats::{floor_mean_i64, floor_mean_of, max_i64, max_of, min_i64, min_of};
use crate::window::{pushed, RollingWindow};

verus! {

/// Mean, minimum, maximum and count over the most recent rewards.
pub struct RewardTracker {
    window: RollingWindow<i64>,
}

impl View for RewardTracker {
    type V = Seq<i64>;

    closed spec fn view(&self) -> Seq<i64> {
        self.window@
    }
}

impl RewardTracker {
    /// The number of rewards the tracker keeps.
    pub closed spec fn window_size(&self) -> nat {
        self.window.cap()
    }

    /// The window size is positive and never exceeded.
    pub open spec fn wf(&self) -> bool {
        &&& self.window_size() > 0
        &&& self@.len() <= self.window_size()
    }

    pub fn new(window: usize) -> (r: Self)
        requires
            window > 0,
        ensures
            r.wf(),
            r.window_size() == window,
            r@ == Seq::<i64>::empty(),
    {
        RewardTracker { window: RollingWindow::new(window) }
    }

    /// Adds a reward, evicting the oldest one when the window is full.
    pub fn update(&mut self, reward: i64)
        requires
            old(self).wf(),
        ensures
            final(self).wf(),
            final(self).window_size() == old(self).window_size(),
            final(self)@ == pushed(old(self)@, old(self).window_size(), reward),
            final(self)@.len() <= final(self).window_size(),
    {
        self.window.push(reward);
    }

    /// The mean of the stored rewards rounded down (0 when there is none).
    pub fn mean(&self) -> (r: i64)
        ensures
            r == floor_mean_of(self@),
    {
        floor_mean_i64(self.window.as_slice())
    }

    /// The smallest stored reward (0 when there is none).
    pub fn min(&self) -> (r: i64)
        ensures
            r == min_of(self@),
    {
        min_i64(self.window.as_slice())
    }

    /// The largest stored reward (0 when there is none).
    pub fn max(&self) -> (r: i64)
        ensures
            r == max_of(self@),
    {
        max_i64(self.window.as_slice())
    }

    /// How many rewards are stored.
    pub fn count(&self) -> (r: usize)
        requires
            self.wf(),
        ensures
            r == self@.len(),
            r <= self.window_size(),
    {
        self.window.len()
    }

    /// The stored rewards, oldest first.
    pub fn values(&self) -> (r: &[i64])
        ensures
            r@ == self@,
    {
        self.window.as_slice()
    }
}

} // verus!
