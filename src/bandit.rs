use vstd::prelude::*;

pub mod arms;
pub mod epsilon_greedy;
pub mod ucb1;

verus! {

/// Fixed-point scale: a real quantity `v` (a reward, a probability, an
/// exploration coefficient) is written as the integer `v * UNIT`.
pub const UNIT: i64 = 1_000_000;

/// Why a bandit could not be constructed.
#[derive(Debug, Clone, Copy, PartialEq, Eq, Structural)]
pub enum BanditError {
    /// The strategy was asked for no arms at all.
    ZeroArms,
    /// An exploration probability outside `[0, UNIT]`.
    EpsilonOutOfRange,
    /// A negative exploration coefficient.
    NegativeExploration,
}

} // verus!
