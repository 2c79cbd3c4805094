use vstd::prelude::*;
use uuid::Uuid;
use crate::bandit::arms::{is_lowest_argmax, no_bonus, floor_value, total_of};
use crate::bandit::epsilon_greedy::EpsilonGreedy;
use crate::bandit::ucb1::{Ucb1, is_ucb_choice, is_lowest_untried, all_tried};
use crate::metrics::reward_tracker::RewardTracker;
use crate::stats::{floor_mean_i64, floor_mean_of, max_i64, max_of, min_i64, min_of};
use crate::window::pushed;

verus! {

/// Relies on uuid's `Uuid::new_v4` and its `Display`, which writes the
/// hyphenated lower-case form: a random identifier of 36 characters.
#[verifier::external_body]
fn fresh_id() -> (r: String)
    ensures
        r@.len() == 36,
{
    Uuid::new_v4().to_string()
}

/// How many recent rewards an epsilon-greedy entry tracks.
pub const TRACKER_WINDOW: usize = 50;

/// Why a registry operation failed.
#[derive(Debug, Clone, Copy, PartialEq, Eq, Structural)]
pub enum RegistryError {
    /// Unsupported kind, bad construction parameters, an arm out of range, or
    /// missing exploration bonuses.
    InvalidArgument,
    /// No entry has the given id.
    NotFound,
    /// The id is already taken.
    DuplicateId,
    /// The arm's pull count cannot grow further.
    CountOverflow,
}

/// The strategy variants the registry can hold.
#[derive(Debug, Clone, Copy, PartialEq, Eq, Structural)]
pub enum StrategyKind {
    EpsilonGreedy,
    Ucb1,
}

pub open spec fn kind_named(name: Seq<char>) -> Option<StrategyKind> {
    if name == "epsilon_greedy"@ {
        Some(StrategyKind::EpsilonGreedy)
    } else if name == "ucb1"@ {
        Some(StrategyKind::Ucb1)
    } else {
        None
    }
}

impl StrategyKind {
    /// The kind called `name`: `"epsilon_greedy"` or `"ucb1"`.
    pub fn parse(name: &str) -> (r: Option<StrategyKind>)
        ensures
            r == kind_named(name@),
    {
        let s = name.to_owned();
        let eg = "epsilon_greedy".to_owned();
        let ucb = "ucb1".to_owned();
        if s == eg {
            Some(StrategyKind::EpsilonGreedy)
        } else if s == ucb {
            Some(StrategyKind::Ucb1)
        } else {
            None
        }
    }
}

/// Whether `param` and `num_arms` are valid for `kind`: at least one arm, and an
/// epsilon in `[0, UNIT]` or a non-negative exploration coefficient.
pub open spec fn accepts(kind: StrategyKind, param: i64, num_arms: usize) -> bool {
    match kind {
        StrategyKind::EpsilonGreedy => EpsilonGreedy::accepts(num_arms, param),
        StrategyKind::Ucb1 => Ucb1::accepts(num_arms, param),
    }
}

/// A strategy instance; the epsilon-greedy variant carries a tracker of its
/// recent rewards.
pub enum Strategy {
    EpsilonGreedy(EpsilonGreedy, RewardTracker),
    Ucb1(Ucb1),
}

/// Summary statistics of an entry.
#[derive(Debug, Clone, Copy, PartialEq, Eq, Structural)]
pub struct Stats {
    pub mean: i64,
    pub min: i64,
    pub max: i64,
    pub count: u128,
}

impl Strategy {
    pub open spec fn wf(&self) -> bool {
        match self {
            Strategy::EpsilonGreedy(g, t) => g.wf() && t.wf() && t.window_size() == TRACKER_WINDOW,
            Strategy::Ucb1(u) => u.wf(),
        }
    }

    pub open spec fn num_arms(&self) -> nat {
        match self {
            Strategy::EpsilonGreedy(g, _) => g.estimates().num_arms(),
            Strategy::Ucb1(u) => u.estimates().num_arms(),
        }
    }

    pub open spec fn counts(&self) -> Seq<u64> {
        match self {
            Strategy::EpsilonGreedy(g, _) => g.estimates().spec_counts(),
            Strategy::Ucb1(u) => u.estimates().spec_counts(),
        }
    }

    /// A strategy of `kind` as built: no pulls yet, and for epsilon-greedy an
    /// empty tracker of `TRACKER_WINDOW` rewards.
    pub open spec fn is_fresh(&self, kind: StrategyKind, param: i64, num_arms: usize) -> bool {
        &&& self.wf()
        &&& match (kind, self) {
            (StrategyKind::EpsilonGreedy, Strategy::EpsilonGreedy(g, t)) => {
                &&& g.spec_epsilon() == param
                &&& g.is_fresh(num_arms as nat)
                &&& t@ == Seq::<i64>::empty()
            },
            (StrategyKind::Ucb1, Strategy::Ucb1(u)) => u.spec_c() == param && u.is_fresh(num_arms as nat),
            _ => false,
        }
    }

    /// `b` is `a` after a selection that gave `r`. Epsilon-greedy only advances
    /// its random source and picks an arm in range, the greedy one when epsilon
    /// is zero. UCB1 changes nothing; with a bonus per arm it makes the UCB1
    /// choice, and without, it can only pick an untried arm.
    pub open spec fn selected(a: Strategy, b: Strategy, bonus: Seq<i64>, r: Result<usize, RegistryError>) -> bool {
        match (a, b) {
            (Strategy::EpsilonGreedy(g0, t0), Strategy::EpsilonGreedy(g1, t1)) => {
                &&& t1 == t0
                &&& g1.wf()
                &&& g1.estimates() == g0.estimates()
                &&& g1.spec_epsilon() == g0.spec_epsilon()
                &&& r is Ok
                &&& r->Ok_0 < g0.estimates().num_arms()
                &&& g0.spec_epsilon() == 0 ==> is_lowest_argmax(
                    g0.estimates().spec_sums(),
                    g0.estimates().spec_counts(),
                    no_bonus(g0.estimates().num_arms()),
                    r->Ok_0 as int,
                )
            },
            (Strategy::Ucb1(u0), Strategy::Ucb1(u1)) => {
                &&& u1 == u0
                &&& if bonus.len() == u0.estimates().num_arms() {
                    r is Ok && is_ucb_choice(
                        u0.estimates().spec_sums(),
                        u0.estimates().spec_counts(),
                        bonus,
                        r->Ok_0 as int,
                    )
                } else if all_tried(u0.estimates().spec_counts()) {
                    r == Err::<usize, RegistryError>(RegistryError::InvalidArgument)
                } else {
                    r is Ok && is_lowest_untried(u0.estimates().spec_counts(), r->Ok_0 as int)
                }
            },
            _ => false,
        }
    }

    /// `b` is `a` after recording `reward` for `arm`; epsilon-greedy also feeds
    /// the reward to its tracker.
    pub open spec fn updated(a: Strategy, b: Strategy, arm: usize, reward: i64) -> bool {
        match (a, b) {
            (Strategy::EpsilonGreedy(g0, t0), Strategy::EpsilonGreedy(g1, t1)) => {
                &&& g1.wf() && t1.wf()
                &&& g1.spec_epsilon() == g0.spec_epsilon()
                &&& g1.estimates().spec_counts() == g0.estimates().spec_counts().update(
                    arm as int,
                    (g0.estimates().spec_counts()[arm as int] + 1) as u64,
                )
                &&& g1.estimates().spec_sums() == g0.estimates().spec_sums().update(
                    arm as int,
                    (g0.estimates().spec_sums()[arm as int] + reward) as i128,
                )
                &&& t1.window_size() == t0.window_size()
                &&& t1@ == pushed(t0@, t0.window_size(), reward)
            },
            (Strategy::Ucb1(u0), Strategy::Ucb1(u1)) => {
                &&& u1.wf()
                &&& u1.spec_c() == u0.spec_c()
                &&& u1.estimates().spec_counts() == u0.estimates().spec_counts().update(
                    arm as int,
                    (u0.estimates().spec_counts()[arm as int] + 1) as u64,
                )
                &&& u1.estimates().spec_sums() == u0.estimates().spec_sums().update(
                    arm as int,
                    (u0.estimates().spec_sums()[arm as int] + reward) as i128,
                )
            },
            _ => false,
        }
    }

    /// Epsilon-greedy reports its tracker's recent window; UCB1 reports, over
    /// the arms' all-time means rounded down, their mean, least and greatest,
    /// and the total number of pulls.
    pub open spec fn stats_match(s: Strategy, st: Stats) -> bool {
        match s {
            Strategy::EpsilonGreedy(_, t) => {
                &&& st.mean == floor_mean_of(t@)
                &&& st.min == min_of(t@)
                &&& st.max == max_of(t@)
                &&& st.count == t@.len()
                &&& st.count <= TRACKER_WINDOW
            },
            Strategy::Ucb1(u) => {
                let means = Seq::new(
                    u.estimates().num_arms(),
                    |i: int| floor_value(u.estimates().spec_sums()[i] as int, u.estimates().spec_counts()[i] as int) as i64,
                );
                &&& st.mean == floor_mean_of(means)
                &&& st.min == min_of(means)
                &&& st.max == max_of(means)
                &&& st.count == total_of(u.estimates().spec_counts())
            },
        }
    }
}

pub open spec fn has_id(entries: Seq<(String, Strategy)>, id: Seq<char>) -> bool {
    exists|i: int| 0 <= i < entries.len() && (#[trigger] entries[i]).0@ == id
}

/// The position of the entry with `id`, when there is one.
pub open spec fn index_of(entries: Seq<(String, Strategy)>, id: Seq<char>) -> int {
    choose|i: int| 0 <= i < entries.len() && (#[trigger] entries[i]).0@ == id
}

/// Strategy instances by opaque id. Every operation takes `&mut self` or
/// `&self`, so a caller that shares the registry behind one lock serializes
/// all of them.
pub struct StrategyRegistry {
    entries: Vec<(String, Strategy)>,
}

impl StrategyRegistry {
    pub closed spec fn spec_entries(&self) -> Seq<(String, Strategy)> {
        self.entries@
    }

    /// Ids are unique and every strategy is well formed.
    pub open spec fn wf(&self) -> bool {
        &&& forall|i: int| 0 <= i < self.spec_entries().len() ==> (#[trigger] self.spec_entries()[i]).1.wf()
        &&& forall|i: int, j: int|
            0 <= i < self.spec_entries().len() && 0 <= j < self.spec_entries().len() && i != j
                ==> (#[trigger] self.spec_entries()[i]).0@ != (#[trigger] self.spec_entries()[j]).0@
    }

    /// The other entries are untouched and the one at `i` keeps its id.
    pub open spec fn only_changed_at(a: Seq<(String, Strategy)>, b: Seq<(String, Strategy)>, i: int) -> bool {
        &&& b.len() == a.len()
        &&& b[i].0 == a[i].0
        &&& forall|j: int| 0 <= j < a.len() && j != i ==> b[j] == a[j]
    }

    pub fn new() -> (r: Self)
        ensures
            r.wf(),
            r.spec_entries().len() == 0,
    {
        StrategyRegistry { entries: Vec::new() }
    }

    pub fn len(&self) -> (r: usize)
        ensures
            r == self.spec_entries().len(),
    {
        self.entries.len()
    }

    /// Where the entry with `id` is.
    fn lookup(&self, id: &String) -> (r: Option<usize>)
        requires
            self.wf(),
        ensures
            match r {
                Some(i) => i < self.spec_entries().len() && has_id(self.spec_entries(), id@) && i
                    == index_of(self.spec_entries(), id@),
                None => !has_id(self.spec_entries(), id@),
            },
    {
        let mut i: usize = 0;
        while i < self.entries.len()
            invariant
                self.wf(),
                i <= self.entries@.len(),
                forall|j: int| 0 <= j < i ==> (#[trigger] self.entries@[j]).0@ != id@,
            decreases self.entries@.len() - i,
        {
            if self.entries[i].0 == *id {
                proof {
                    assert(has_id(self.entries@, id@));
                    let k = index_of(self.entries@, id@);
                    if k != i {
                        assert(self.spec_entries()[k].0@ != self.spec_entries()[i as int].0@);
                    }
                }
                return Some(i);
            }
            i = i + 1;
        }
        None
    }

    /// Whether an entry has `id`.
    pub fn contains(&self, id: &String) -> (r: bool)
        requires
            self.wf(),
        ensures
            r == has_id(self.spec_entries(), id@),
    {
        self.lookup(id).is_some()
    }

    /// Adds a fresh strategy of kind `kind` under `id`. Fails with
    /// `InvalidArgument` on an unsupported kind or parameters that kind
    /// rejects, and with `DuplicateId` when `id` is taken; the registry is then
    /// unchanged.
    pub fn create_with_id(&mut self, id: String, kind: &str, param: i64, num_arms: usize) -> (r: Result<String, RegistryError>)
        requires
            old(self).wf(),
        ensures
            final(self).wf(),
            match kind_named(kind@) {
                None => r == Err::<String, RegistryError>(RegistryError::InvalidArgument),
                Some(k) => if !accepts(k, param, num_arms) {
                    r == Err::<String, RegistryError>(RegistryError::InvalidArgument)
                } else if has_id(old(self).spec_entries(), id@) {
                    r == Err::<String, RegistryError>(RegistryError::DuplicateId)
                } else {
                    &&& r is Ok
                    &&& r->Ok_0@ == id@
                    &&& final(self).spec_entries().len() == old(self).spec_entries().len() + 1
                    &&& final(self).spec_entries().subrange(0, old(self).spec_entries().len() as int)
                        == old(self).spec_entries()
                    &&& final(self).spec_entries().last().0@ == id@
                    &&& final(self).spec_entries().last().1.is_fresh(k, param, num_arms)
                },
            },
            r is Err ==> final(self).spec_entries() == old(self).spec_entries(),
    {
        let k = match StrategyKind::parse(kind) {
            Some(k) => k,
            None => return Err(RegistryError::InvalidArgument),
        };
        let strategy = match k {
            StrategyKind::EpsilonGreedy => match EpsilonGreedy::new(num_arms, param) {
                Ok(g) => Strategy::EpsilonGreedy(g, RewardTracker::new(TRACKER_WINDOW)),
                Err(_) => return Err(RegistryError::InvalidArgument),
            },
            StrategyKind::Ucb1 => match Ucb1::new(num_arms, param) {
                Ok(u) => Strategy::Ucb1(u),
                Err(_) => return Err(RegistryError::InvalidArgument),
            },
        };
        if self.lookup(&id).is_some() {
            return Err(RegistryError::DuplicateId);
        }
        let out = id.clone();
        let ghost before = self.entries@;
        self.entries.push((id, strategy));
        proof {
            assert(self.entries@.subrange(0, before.len() as int) =~= before);
            assert forall|i: int, j: int|
                0 <= i < self.entries@.len() && 0 <= j < self.entries@.len() && i != j
                    implies (#[trigger] self.entries@[i]).0@ != (#[trigger] self.entries@[j]).0@ by {
                if i == before.len() {
                    assert(before[j] == self.entries@[j]);
                } else if j == before.len() {
                    assert(before[i] == self.entries@[i]);
                } else {
                    assert(before[i] == self.entries@[i]);
                    assert(before[j] == self.entries@[j]);
                }
            }
            assert forall|i: int| 0 <= i < self.entries@.len() implies (#[trigger] self.entries@[i]).1.wf() by {
                if i < before.len() {
                    assert(before[i] == self.entries@[i]);
                }
            }
        }
        Ok(out)
    }

    /// Adds a fresh strategy under a newly drawn random id and returns the id.
    /// Fails with `InvalidArgument` exactly when `create_with_id` would; when
    /// the arguments are valid it fails only if the drawn id is already taken.
    pub fn create(&mut self, kind: &str, param: i64, num_arms: usize) -> (r: Result<String, RegistryError>)
        requires
            old(self).wf(),
        ensures
            final(self).wf(),
            match kind_named(kind@) {
                None => r == Err::<String, RegistryError>(RegistryError::InvalidArgument),
                Some(k) => if !accepts(k, param, num_arms) {
                    r == Err::<String, RegistryError>(RegistryError::InvalidArgument)
                } else {
                    match r {
                        Ok(id) => {
                            &&& id@.len() == 36
                            &&& !has_id(old(self).spec_entries(), id@)
                            &&& final(self).spec_entries().len() == old(self).spec_entries().len() + 1
                            &&& final(self).spec_entries().subrange(0, old(self).spec_entries().len() as int)
                                == old(self).spec_entries()
                            &&& final(self).spec_entries().last().0@ == id@
                            &&& final(self).spec_entries().last().1.is_fresh(k, param, num_arms)
                        },
                        Err(e) => e == RegistryError::DuplicateId,
                    }
                },
            },
            r is Err ==> final(self).spec_entries() == old(self).spec_entries(),
            r == Err::<String, RegistryError>(RegistryError::DuplicateId) ==> exists|i: int|
                0 <= i < old(self).spec_entries().len() && (#[trigger] old(self).spec_entries()[i]).0@.len() == 36,
    {
        let id = fresh_id();
        self.create_with_id(id, kind, param, num_arms)
    }

    /// Chooses an arm for the entry `id`, advancing an epsilon-greedy entry's
    /// random source. `bonus` holds UCB1's exploration bonus per arm (reward
    /// units); other entries ignore it. Fails with `NotFound` for an unknown id,
    /// changing nothing.
    pub fn select(&mut self, id: &String, bonus: &[i64]) -> (r: Result<usize, RegistryError>)
        requires
            old(self).wf(),
        ensures
            final(self).wf(),
            !has_id(old(self).spec_entries(), id@) ==> r == Err::<usize, RegistryError>(RegistryError::NotFound)
                && final(self).spec_entries() == old(self).spec_entries(),
            has_id(old(self).spec_entries(), id@) ==> {
                let i = index_of(old(self).spec_entries(), id@);
                &&& Self::only_changed_at(old(self).spec_entries(), final(self).spec_entries(), i)
                &&& Strategy::selected(old(self).spec_entries()[i].1, final(self).spec_entries()[i].1, bonus@, r)
            },
    {
        let i = match self.lookup(id) {
            Some(i) => i,
            None => return Err(RegistryError::NotFound),
        };
        let ghost before = self.entries@;
        let (key, strategy) = self.entries.remove(i);
        let (r, strategy) = match strategy {
            Strategy::EpsilonGreedy(g, t) => {
                let mut g = g;
                let k = g.select_arm();
                (Ok(k), Strategy::EpsilonGreedy(g, t))
            },
            Strategy::Ucb1(u) => {
                let r = if bonus.len() == u.num_arms() {
                    Ok(u.select_arm(bonus))
                } else {
                    match u.cold_start_arm() {
                        Some(k) => Ok(k),
                        None => Err(RegistryError::InvalidArgument),
                    }
                };
                (r, Strategy::Ucb1(u))
            },
        };
        self.entries.insert(i, (key, strategy));
        proof {
            Self::lemma_replaced(before, self.entries@, i as int);
        }
        r
    }

    /// Records `reward` for `arm` of the entry `id`; epsilon-greedy entries also
    /// feed it to their tracker. Fails, changing nothing, with `NotFound` for
    /// an unknown id, `InvalidArgument` for an arm out of range, and
    /// `CountOverflow` when the arm's count is at its maximum.
    pub fn update(&mut self, id: &String, arm: usize, reward: i64) -> (r: Result<(), RegistryError>)
        requires
            old(self).wf(),
        ensures
            final(self).wf(),
            !has_id(old(self).spec_entries(), id@) ==> r == Err::<(), RegistryError>(RegistryError::NotFound)
                && final(self).spec_entries() == old(self).spec_entries(),
            has_id(old(self).spec_entries(), id@) ==> {
                let i = index_of(old(self).spec_entries(), id@);
                let s = old(self).spec_entries()[i].1;
                if arm >= s.num_arms() {
                    r == Err::<(), RegistryError>(RegistryError::InvalidArgument)
                } else if s.counts()[arm as int] == u64::MAX {
                    r == Err::<(), RegistryError>(RegistryError::CountOverflow)
                } else {
                    &&& r is Ok
                    &&& Self::only_changed_at(old(self).spec_entries(), final(self).spec_entries(), i)
                    &&& Strategy::updated(s, final(self).spec_entries()[i].1, arm, reward)
                }
            },
            r is Err ==> final(self).spec_entries() == old(self).spec_entries(),
    {
        let i = match self.lookup(id) {
            Some(i) => i,
            None => return Err(RegistryError::NotFound),
        };
        let n = match &self.entries[i].1 {
            Strategy::EpsilonGreedy(g, _) => g.num_arms(),
            Strategy::Ucb1(u) => u.num_arms(),
        };
        if arm >= n {
            return Err(RegistryError::InvalidArgument);
        }
        let c = match &self.entries[i].1 {
            Strategy::EpsilonGreedy(g, _) => g.counts()[arm],
            Strategy::Ucb1(u) => u.counts()[arm],
        };
        if c == u64::MAX {
            return Err(RegistryError::CountOverflow);
        }
        let ghost before = self.entries@;
        let (key, strategy) = self.entries.remove(i);
        let strategy = match strategy {
            Strategy::EpsilonGreedy(g, t) => {
                let mut g = g;
                let mut t = t;
                g.update(arm, reward);
                t.update(reward);
                Strategy::EpsilonGreedy(g, t)
            },
            Strategy::Ucb1(u) => {
                let mut u = u;
                u.update(arm, reward);
                Strategy::Ucb1(u)
            },
        };
        self.entries.insert(i, (key, strategy));
        proof {
            Self::lemma_replaced(before, self.entries@, i as int);
        }
        Ok(())
    }

    /// The statistics of the entry `id` (see `Strategy::stats_match`). Fails
    /// with `NotFound` for an unknown id.
    pub fn stats(&self, id: &String) -> (r: Result<Stats, RegistryError>)
        requires
            self.wf(),
        ensures
            !has_id(self.spec_entries(), id@) ==> r == Err::<Stats, RegistryError>(RegistryError::NotFound),
            has_id(self.spec_entries(), id@) ==> r is Ok && Strategy::stats_match(
                self.spec_entries()[index_of(self.spec_entries(), id@)].1,
                r->Ok_0,
            ),
    {
        let i = match self.lookup(id) {
            Some(i) => i,
            None => return Err(RegistryError::NotFound),
        };
        match &self.entries[i].1 {
            Strategy::EpsilonGreedy(_, t) => {
                let n = t.count();
                Ok(Stats { mean: t.mean(), min: t.min(), max: t.max(), count: n as u128 })
            },
            Strategy::Ucb1(u) => {
                let means = u.values();
                proof {
                    let ghost spec_means = Seq::new(
                        u.estimates().num_arms(),
                        |k: int| floor_value(u.estimates().spec_sums()[k] as int, u.estimates().spec_counts()[k] as int) as i64,
                    );
                    assert(means@ =~= spec_means);
                }
                let s = means.as_slice();
                Ok(Stats { mean: floor_mean_i64(s), min: min_i64(s), max: max_i64(s), count: u.total_pulls() })
            },
        }
    }

    /// The UCB1 strategy under `id`, to read what its exploration bonuses
    /// depend on; `None` for an epsilon-greedy entry. Fails with `NotFound` for
    /// an unknown id.
    pub fn ucb1_of(&self, id: &String) -> (r: Result<Option<&Ucb1>, RegistryError>)
        requires
            self.wf(),
        ensures
            !has_id(self.spec_entries(), id@) ==> r == Err::<Option<&Ucb1>, RegistryError>(RegistryError::NotFound),
            has_id(self.spec_entries(), id@) ==> match self.spec_entries()[index_of(self.spec_entries(), id@)].1 {
                Strategy::Ucb1(u) => r == Ok::<Option<&Ucb1>, RegistryError>(Some(&u)),
                Strategy::EpsilonGreedy(_, _) => r == Ok::<Option<&Ucb1>, RegistryError>(None),
            },
    {
        let i = match self.lookup(id) {
            Some(i) => i,
            None => return Err(RegistryError::NotFound),
        };
        match &self.entries[i].1 {
            Strategy::Ucb1(u) => Ok(Some(u)),
            Strategy::EpsilonGreedy(_, _) => Ok(None),
        }
    }

    /// After removing entry `i` and inserting its replacement at the same
    /// place, the ids are unchanged.
    proof fn lemma_replaced(before: Seq<(String, Strategy)>, after: Seq<(String, Strategy)>, i: int)
        requires
            0 <= i < before.len(),
            after == before.remove(i).insert(i, after[i]),
        ensures
            after.len() == before.len(),
            forall|j: int| 0 <= j < before.len() && j != i ==> after[j] == before[j],
    {
        assert forall|j: int| 0 <= j < before.len() && j != i implies after[j] == before[j] by {
            if j < i {
                assert(before.remove(i)[j] == before[j]);
            } else {
                assert(before.remove(i)[j - 1] == before[j]);
            }
        }
    }
}

} // verus!
