//! Warmup/cooldown configuration, snapshotted into every delegation.

use vstd::prelude::*;

verus! {

/// Largest denominator a rate may carry; keeps all rate arithmetic inside
/// 128-bit intermediates.
pub const MAX_RATE_DENOMINATOR: u64 = 1_000_000_000;

/// A rate in the interval (0, 1], held exactly as `numerator / denominator`.
#[derive(Clone, Copy, Debug, PartialEq, Eq, Structural, Hash)]
pub struct Rate {
    pub numerator: u64,
    pub denominator: u64,
}

impl Rate {
    /// A well-formed rate: positive, at most one, with a bounded denominator.
    pub open spec fn wf(self) -> bool {
        &&& 1 <= self.denominator <= MAX_RATE_DENOMINATOR
        &&& 1 <= self.numerator <= self.denominator
    }

    /// Builds `numerator / denominator`.
    pub fn new(numerator: u64, denominator: u64) -> (r: Rate)
        requires
            1 <= denominator <= MAX_RATE_DENOMINATOR,
            1 <= numerator <= denominator,
        ensures
            r == (Rate { numerator, denominator }),
            r.wf(),
    {
        Rate { numerator, denominator }
    }
}

/// Immutable warmup/cooldown rates and the reserved slash penalty.
///
/// Each new delegation copies the config it was made under, so later rate
/// changes never touch stakes already in flight.
#[derive(Clone, Copy, Debug, PartialEq, Eq, Structural, Hash)]
pub struct Config {
    /// Fraction of the total effective stake that may move from activating
    /// to effective per epoch.
    pub warmup_rate: Rate,
    /// Symmetric counterpart for deactivation.
    pub cooldown_rate: Rate,
    /// Reserved for slashing; unused by the engine.
    pub slash_penalty: u8,
}

impl Config {
    /// Both rates are well-formed.
    pub open spec fn wf(self) -> bool {
        &&& self.warmup_rate.wf()
        &&& self.cooldown_rate.wf()
    }
}

impl Default for Config {
    /// A quarter percent of the effective pool may warm up or cool down per
    /// epoch.
    fn default() -> (r: Config)
        ensures
            r == (Config {
                warmup_rate: Rate { numerator: 1u64, denominator: 400u64 },
                cooldown_rate: Rate { numerator: 1u64, denominator: 400u64 },
                slash_penalty: 12u8,
            }),
            r.wf(),
    {
        Config {
            warmup_rate: Rate { numerator: 1, denominator: 400 },
            cooldown_rate: Rate { numerator: 1, denominator: 400 },
            slash_penalty: 12,
        }
    }
}

} // verus!
