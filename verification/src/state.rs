//! The persistent form of a stake account's data.

use vstd::prelude::*;
use crate::stake::Stake;

verus! {

/// What a stake account holds: nothing yet, a delegation, or the marker of
/// a rewards pool.
#[derive(Clone, Copy, Debug, PartialEq, Eq, Structural)]
pub enum StakeState {
    /// The account exists but holds no delegation.
    Uninitialized,
    /// An active delegation record.
    Stake(Stake),
    /// The account is a source of reward lamports; never itself a stake.
    RewardsPool,
}

impl StakeState {
    /// The delegation record, if this state holds one.
    pub fn stake(&self) -> (r: Option<Stake>)
        ensures
            r == match *self {
                StakeState::Stake(s) => Some(s),
                _ => None::<Stake>,
            },
    {
        match self {
            StakeState::Stake(stake) => Some(*stake),
            _ => None,
        }
    }
}

impl Default for StakeState {
    fn default() -> (r: StakeState)
        ensures
            r == StakeState::Uninitialized,
    {
        StakeState::Uninitialized
    }
}

} // verus!
