//! The sysvars the engine consumes: the clock and the reward point value.

use vstd::prelude::*;
use crate::config::MAX_RATE_DENOMINATOR;

verus! {

/// The current epoch, as provided by the runtime.
#[derive(Clone, Copy, Debug, PartialEq, Eq, Structural, Hash)]
pub struct Clock {
    pub epoch: u64,
}

impl Default for Clock {
    fn default() -> (r: Clock)
        ensures
            r == (Clock { epoch: 0u64 }),
    {
        Clock { epoch: 0 }
    }
}

/// Lamports paid per point of `stake * credit`, held exactly as
/// `numerator / denominator`.
#[derive(Clone, Copy, Debug, PartialEq, Eq, Structural, Hash)]
pub struct PointValue {
    pub numerator: u64,
    pub denominator: u64,
}

impl PointValue {
    /// A usable point value: nonnegative with a positive, bounded
    /// denominator.
    pub open spec fn wf(self) -> bool {
        1 <= self.denominator <= MAX_RATE_DENOMINATOR
    }

    /// Builds `numerator / denominator`.
    pub fn new(numerator: u64, denominator: u64) -> (r: PointValue)
        requires
            1 <= denominator <= MAX_RATE_DENOMINATOR,
        ensures
            r == (PointValue { numerator, denominator }),
            r.wf(),
    {
        PointValue { numerator, denominator }
    }

    /// A whole number of lamports per point.
    pub fn from_integer(numerator: u64) -> (r: PointValue)
        ensures
            r == (PointValue { numerator, denominator: 1u64 }),
            r.wf(),
    {
        PointValue { numerator, denominator: 1 }
    }
}

impl Default for PointValue {
    fn default() -> (r: PointValue)
        ensures
            r == (PointValue { numerator: 0u64, denominator: 1u64 }),
            r.wf(),
    {
        PointValue { numerator: 0, denominator: 1 }
    }
}

/// The rewards sysvar: the epoch-global point value.
#[derive(Clone, Copy, Debug, PartialEq, Eq, Structural, Hash)]
pub struct Rewards {
    pub validator_point_value: PointValue,
}

impl Default for Rewards {
    fn default() -> (r: Rewards)
        ensures
            r == (Rewards { validator_point_value: PointValue { numerator: 0u64, denominator: 1u64 } }),
            r.validator_point_value.wf(),
    {
        Rewards { validator_point_value: PointValue { numerator: 0, denominator: 1 } }
    }
}

} // verus!
