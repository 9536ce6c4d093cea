//! A single delegation and its warmup/cooldown arithmetic.

use vstd::prelude::*;
use crate::config::Config;
use crate::config::Rate;
use crate::history::StakeHistory;
use crate::history::StakeHistoryEntry;
use crate::math::portion;
use crate::math::portion_spec;
use crate::pubkey::Pubkey;
use crate::vote::VoteState;

verus! {

/// One delegation: the committed amount, the vote account it backs, the
/// epochs at which it starts warming and cooling, the reward watermark,
/// and the rate config it was made under.
#[derive(Clone, Copy, Debug, PartialEq, Eq, Structural, Hash)]
pub struct Stake {
    /// Vote account this stake is delegated to.
    pub voter_pubkey: Pubkey,
    /// Watermark of the voter's lifetime credits already redeemed.
    pub credits_observed: u64,
    /// Lamports committed; never mutated after creation.
    pub stake: u64,
    /// Epoch the delegation begins warming up; `u64::MAX` marks a bootstrap
    /// stake that is effective immediately and never warms.
    pub activation_epoch: u64,
    /// Epoch cooldown begins; `u64::MAX` while still active.
    pub deactivation_epoch: u64,
    /// Rate config snapshotted at delegation time.
    pub config: Config,
}

/// The history a query sees: the map carried by the sysvar, or nothing.
pub open spec fn opt_history(history: Option<&StakeHistory>) -> Map<u64, StakeHistoryEntry> {
    match history {
        Some(h) => h@,
        None => Map::empty(),
    }
}

/// Effective stake accumulated by walking the history from epoch `cur`
/// (whose aggregate totals are `entry`) up to, but not including, `target`.
///
/// Each epoch the stake claims `portion_spec` of the pool's allowed growth;
/// the walk stops when the pool has nothing activating, when the stake is
/// fully warmed, when `target` is reached, or when the history runs out.
pub open spec fn warmup_from(
    stake: u64,
    rate: Rate,
    hist: Map<u64, StakeHistoryEntry>,
    target: u64,
    cur: u64,
    eff: u64,
    entry: StakeHistoryEntry,
) -> u64
    decreases target - cur,
{
    if entry.activating == 0 {
        eff
    } else {
        let incr = portion_spec(
            stake - eff,
            entry.effective as int,
            entry.activating as int,
            rate.numerator as int,
            rate.denominator as int,
        );
        if eff + incr >= stake {
            stake
        } else {
            let eff2 = (eff + incr) as u64;
            if cur + 1 >= target {
                eff2
            } else if hist.contains_key((cur + 1) as u64) {
                warmup_from(stake, rate, hist, target, (cur + 1) as u64, eff2, hist[(cur + 1) as u64])
            } else {
                eff2
            }
        }
    }
}

/// Effective stake remaining after cooling from epoch `cur` (aggregate
/// totals `entry`) up to, but not including, `target`; the symmetric
/// counterpart of `warmup_from`, saturating at zero.
pub open spec fn cooldown_from(
    rate: Rate,
    hist: Map<u64, StakeHistoryEntry>,
    target: u64,
    cur: u64,
    eff: u64,
    entry: StakeHistoryEntry,
) -> u64
    decreases target - cur,
{
    if entry.deactivating == 0 {
        eff
    } else {
        let decr = portion_spec(
            eff as int,
            entry.effective as int,
            entry.deactivating as int,
            rate.numerator as int,
            rate.denominator as int,
        );
        let eff2: u64 = if decr >= eff {
            0u64
        } else {
            (eff - decr) as u64
        };
        if eff2 == 0 {
            0u64
        } else if cur + 1 >= target {
            eff2
        } else if hist.contains_key((cur + 1) as u64) {
            cooldown_from(rate, hist, target, (cur + 1) as u64, eff2, hist[(cur + 1) as u64])
        } else {
            eff2
        }
    }
}

/// Phase one of the schedule: `(effective, activating)` at `epoch`,
/// ignoring deactivation.
pub open spec fn stake_and_activating_spec(
    s: Stake,
    epoch: u64,
    hist: Map<u64, StakeHistoryEntry>,
) -> (u64, u64) {
    if s.activation_epoch == u64::MAX {
        (s.stake, 0u64)
    } else if epoch == s.activation_epoch {
        (0u64, s.stake)
    } else if epoch < s.activation_epoch {
        (0u64, 0u64)
    } else if hist.contains_key(s.activation_epoch) {
        let eff = warmup_from(
            s.stake,
            s.config.warmup_rate,
            hist,
            epoch,
            s.activation_epoch,
            0u64,
            hist[s.activation_epoch],
        );
        (eff, (s.stake - eff) as u64)
    } else {
        // dropped out of the retention window: treated as fully warmed
        (s.stake, 0u64)
    }
}

/// The full schedule: `(effective, activating, deactivating)` at `epoch`.
pub open spec fn stake_activating_and_deactivating_spec(
    s: Stake,
    epoch: u64,
    hist: Map<u64, StakeHistoryEntry>,
) -> (u64, u64, u64) {
    let pair = stake_and_activating_spec(s, epoch, hist);
    let se = pair.0;
    let act = pair.1;
    if epoch < s.deactivation_epoch {
        (se, act, 0u64)
    } else if epoch == s.deactivation_epoch {
        (se, 0u64, if se <= s.stake { se } else { s.stake })
    } else if hist.contains_key(s.deactivation_epoch) {
        let eff = cooldown_from(
            s.config.cooldown_rate,
            hist,
            epoch,
            s.deactivation_epoch,
            se,
            hist[s.deactivation_epoch],
        );
        (eff, 0u64, eff)
    } else {
        // dropped out of the retention window: fully deactivated
        (0u64, 0u64, 0u64)
    }
}

/// The warmup walk never exceeds the committed amount.
pub proof fn lemma_warmup_from_le(
    stake: u64,
    rate: Rate,
    hist: Map<u64, StakeHistoryEntry>,
    target: u64,
    cur: u64,
    eff: u64,
    entry: StakeHistoryEntry,
)
    requires
        eff <= stake,
    ensures
        warmup_from(stake, rate, hist, target, cur, eff, entry) <= stake,
    decreases target - cur,
{
    if entry.activating == 0 {
    } else {
        let incr = portion_spec(
            stake - eff,
            entry.effective as int,
            entry.activating as int,
            rate.numerator as int,
            rate.denominator as int,
        );
        if eff + incr >= stake {
        } else {
            let eff2 = (eff + incr) as u64;
            if cur + 1 >= target {
            } else if hist.contains_key((cur + 1) as u64) {
                lemma_warmup_from_le(
                    stake,
                    rate,
                    hist,
                    target,
                    (cur + 1) as u64,
                    eff2,
                    hist[(cur + 1) as u64],
                );
            } else {
            }
        }
    }
}

/// The cooldown walk never grows the effective amount.
pub proof fn lemma_cooldown_from_le(
    rate: Rate,
    hist: Map<u64, StakeHistoryEntry>,
    target: u64,
    cur: u64,
    eff: u64,
    entry: StakeHistoryEntry,
)
    ensures
        cooldown_from(rate, hist, target, cur, eff, entry) <= eff,
    decreases target - cur,
{
    if entry.deactivating == 0 {
    } else {
        let decr = portion_spec(
            eff as int,
            entry.effective as int,
            entry.deactivating as int,
            rate.numerator as int,
            rate.denominator as int,
        );
        let eff2: u64 = if decr >= eff {
            0u64
        } else {
            (eff - decr) as u64
        };
        if eff2 == 0 {
        } else if cur + 1 >= target {
        } else if hist.contains_key((cur + 1) as u64) {
            lemma_cooldown_from_le(rate, hist, target, (cur + 1) as u64, eff2, hist[(cur + 1) as u64]);
        } else {
        }
    }
}

/// The warmup walk never shrinks the effective amount: warming is monotone.
pub proof fn lemma_warmup_from_ge(
    stake: u64,
    rate: Rate,
    hist: Map<u64, StakeHistoryEntry>,
    target: u64,
    cur: u64,
    eff: u64,
    entry: StakeHistoryEntry,
)
    requires
        eff <= stake,
    ensures
        warmup_from(stake, rate, hist, target, cur, eff, entry) >= eff,
    decreases target - cur,
{
    if entry.activating == 0 {
    } else {
        let incr = portion_spec(
            stake - eff,
            entry.effective as int,
            entry.activating as int,
            rate.numerator as int,
            rate.denominator as int,
        );
        if eff + incr >= stake {
        } else {
            let eff2 = (eff + incr) as u64;
            if cur + 1 >= target {
            } else if hist.contains_key((cur + 1) as u64) {
                lemma_warmup_from_ge(
                    stake,
                    rate,
                    hist,
                    target,
                    (cur + 1) as u64,
                    eff2,
                    hist[(cur + 1) as u64],
                );
            } else {
            }
        }
    }
}

/// Walking toward a later target epoch never yields less effective stake:
/// every extra epoch only adds increments.
pub proof fn lemma_warmup_from_monotone_target(
    stake: u64,
    rate: Rate,
    hist: Map<u64, StakeHistoryEntry>,
    target1: u64,
    target2: u64,
    cur: u64,
    eff: u64,
    entry: StakeHistoryEntry,
)
    requires
        eff <= stake,
        target1 <= target2,
    ensures
        warmup_from(stake, rate, hist, target1, cur, eff, entry) <= warmup_from(
            stake,
            rate,
            hist,
            target2,
            cur,
            eff,
            entry,
        ),
    decreases target2 - cur,
{
    if entry.activating == 0 {
    } else {
        let incr = portion_spec(
            stake - eff,
            entry.effective as int,
            entry.activating as int,
            rate.numerator as int,
            rate.denominator as int,
        );
        if eff + incr >= stake {
        } else {
            let eff2 = (eff + incr) as u64;
            if cur + 1 >= target2 {
            } else if cur + 1 >= target1 {
                if hist.contains_key((cur + 1) as u64) {
                    lemma_warmup_from_ge(
                        stake,
                        rate,
                        hist,
                        target2,
                        (cur + 1) as u64,
                        eff2,
                        hist[(cur + 1) as u64],
                    );
                }
            } else if hist.contains_key((cur + 1) as u64) {
                lemma_warmup_from_monotone_target(
                    stake,
                    rate,
                    hist,
                    target1,
                    target2,
                    (cur + 1) as u64,
                    eff2,
                    hist[(cur + 1) as u64],
                );
            }
        }
    }
}

/// Warmup law: against any one history, the effective amount of a stake
/// that has not reached deactivation grows monotonically with the epoch and
/// never exceeds the committed amount.
pub proof fn lemma_effective_monotone_before_deactivation(
    s: Stake,
    epoch1: u64,
    epoch2: u64,
    hist: Map<u64, StakeHistoryEntry>,
)
    requires
        epoch1 <= epoch2,
        epoch2 < s.deactivation_epoch,
    ensures
        stake_activating_and_deactivating_spec(s, epoch1, hist).0
            <= stake_activating_and_deactivating_spec(s, epoch2, hist).0,
        stake_activating_and_deactivating_spec(s, epoch2, hist).0 <= s.stake,
{
    lemma_stake_and_activating_bounded(s, epoch1, hist);
    lemma_stake_and_activating_bounded(s, epoch2, hist);
    if s.activation_epoch != u64::MAX && epoch1 > s.activation_epoch && epoch2
        > s.activation_epoch && hist.contains_key(s.activation_epoch) {
        lemma_warmup_from_monotone_target(
            s.stake,
            s.config.warmup_rate,
            hist,
            epoch1,
            epoch2,
            s.activation_epoch,
            0u64,
            hist[s.activation_epoch],
        );
    }
}

/// Phase one never hands out more than the committed amount: the effective
/// part is at most `stake`, and effective plus activating is exactly the
/// committed amount or less.
pub proof fn lemma_stake_and_activating_bounded(
    s: Stake,
    epoch: u64,
    hist: Map<u64, StakeHistoryEntry>,
)
    ensures
        stake_and_activating_spec(s, epoch, hist).0 <= s.stake,
        stake_and_activating_spec(s, epoch, hist).0 + stake_and_activating_spec(s, epoch, hist).1
            <= s.stake,
{
    if s.activation_epoch != u64::MAX && epoch > s.activation_epoch && hist.contains_key(
        s.activation_epoch,
    ) {
        lemma_warmup_from_le(
            s.stake,
            s.config.warmup_rate,
            hist,
            epoch,
            s.activation_epoch,
            0u64,
            hist[s.activation_epoch],
        );
    }
}

/// Effective plus activating never exceeds the committed amount while the
/// stake has not reached its deactivation epoch.
pub proof fn lemma_warmup_sum_bounded(s: Stake, epoch: u64, hist: Map<u64, StakeHistoryEntry>)
    requires
        epoch < s.deactivation_epoch,
    ensures
        ({
            let t = stake_activating_and_deactivating_spec(s, epoch, hist);
            t.0 + t.1 <= s.stake
        }),
{
    lemma_stake_and_activating_bounded(s, epoch, hist);
}

/// The effective part of the schedule never exceeds the committed amount.
pub proof fn lemma_effective_bounded(s: Stake, epoch: u64, hist: Map<u64, StakeHistoryEntry>)
    ensures
        stake_activating_and_deactivating_spec(s, epoch, hist).0 <= s.stake,
    decreases 0int,
{
    lemma_stake_and_activating_bounded(s, epoch, hist);
    let se = stake_and_activating_spec(s, epoch, hist).0;
    if epoch > s.deactivation_epoch && hist.contains_key(s.deactivation_epoch) {
        lemma_cooldown_from_le(
            s.config.cooldown_rate,
            hist,
            epoch,
            s.deactivation_epoch,
            se,
            hist[s.deactivation_epoch],
        );
    }
}

/// Effective, activating and deactivating together never exceed twice the
/// committed amount, whatever the epoch and history.
pub proof fn lemma_triple_bounded(s: Stake, epoch: u64, hist: Map<u64, StakeHistoryEntry>)
    ensures
        ({
            let t = stake_activating_and_deactivating_spec(s, epoch, hist);
            t.0 + t.1 + t.2 <= 2 * s.stake
        }),
{
    lemma_stake_and_activating_bounded(s, epoch, hist);
    lemma_effective_bounded(s, epoch, hist);
}

/// A bootstrap stake that has not been deactivated is effective at its full
/// amount at every epoch, with nothing activating or deactivating.
pub proof fn lemma_bootstrap_triple(s: Stake, epoch: u64, hist: Map<u64, StakeHistoryEntry>)
    requires
        s.activation_epoch == u64::MAX,
        epoch < s.deactivation_epoch,
    ensures
        stake_activating_and_deactivating_spec(s, epoch, hist) == (s.stake, 0u64, 0u64),
{
}

/// Before its activation epoch a delegation contributes nothing.
pub proof fn lemma_before_activation_triple(
    s: Stake,
    epoch: u64,
    hist: Map<u64, StakeHistoryEntry>,
)
    requires
        s.activation_epoch != u64::MAX,
        epoch < s.activation_epoch,
        s.activation_epoch <= s.deactivation_epoch,
    ensures
        stake_activating_and_deactivating_spec(s, epoch, hist) == (0u64, 0u64, 0u64),
{
}

/// At its activation epoch the whole delegation is activating and none of
/// it is effective yet.
pub proof fn lemma_at_activation_triple(s: Stake, epoch: u64, hist: Map<u64, StakeHistoryEntry>)
    requires
        s.activation_epoch != u64::MAX,
        epoch == s.activation_epoch,
        epoch < s.deactivation_epoch,
    ensures
        stake_activating_and_deactivating_spec(s, epoch, hist) == (0u64, s.stake, 0u64),
{
}

impl Stake {
    /// A valid stake carries a well-formed rate config.
    pub open spec fn wf(self) -> bool {
        self.config.wf()
    }

    /// A bootstrap stake was assigned at genesis: effective immediately at
    /// full amount, never warming.
    pub fn is_bootstrap(&self) -> (r: bool)
        ensures
            r == (self.activation_epoch == u64::MAX),
    {
        self.activation_epoch == u64::MAX
    }

    /// Phase one: how much of this stake is effective and how much is still
    /// activating at `epoch`, ignoring deactivation.
    pub fn stake_and_activating(&self, epoch: u64, history: Option<&StakeHistory>) -> (r: (
        u64,
        u64,
    ))
        requires
            self.wf(),
        ensures
            r == stake_and_activating_spec(*self, epoch, opt_history(history)),
            r.0 <= self.stake,
    {
        proof {
            if !(self.activation_epoch == u64::MAX) && epoch > self.activation_epoch
                && opt_history(history).contains_key(self.activation_epoch) {
                lemma_warmup_from_le(
                    self.stake,
                    self.config.warmup_rate,
                    opt_history(history),
                    epoch,
                    self.activation_epoch,
                    0u64,
                    opt_history(history)[self.activation_epoch],
                );
            }
        }
        if self.activation_epoch == u64::MAX {
            return (self.stake, 0);
        }
        if epoch == self.activation_epoch {
            return (0, self.stake);
        }
        if epoch < self.activation_epoch {
            return (0, 0);
        }
        match history {
            None => (self.stake, 0),
            Some(h) => {
                match h.get(self.activation_epoch) {
                    None => (self.stake, 0),
                    Some(first) => {
                        let ghost hmap = h@;
                        let ghost goal = warmup_from(
                            self.stake,
                            self.config.warmup_rate,
                            hmap,
                            epoch,
                            self.activation_epoch,
                            0u64,
                            first,
                        );
                        let mut effective: u64 = 0;
                        let mut next_epoch: u64 = self.activation_epoch;
                        let mut entry: StakeHistoryEntry = first;
                        loop
                            invariant_except_break
                                self.wf(),
                                effective <= self.stake,
                                self.activation_epoch <= next_epoch < epoch,
                                hmap == h@,
                                goal == warmup_from(
                                    self.stake,
                                    self.config.warmup_rate,
                                    hmap,
                                    epoch,
                                    next_epoch,
                                    effective,
                                    entry,
                                ),
                            ensures
                                effective == goal,
                                effective <= self.stake,
                            decreases epoch - next_epoch,
                        {
                            if entry.activating == 0 {
                                break;
                            }
                            let incr = portion(
                                self.stake - effective,
                                entry.effective,
                                entry.activating,
                                self.config.warmup_rate.numerator,
                                self.config.warmup_rate.denominator,
                            );
                            if incr >= self.stake - effective {
                                effective = self.stake;
                                break;
                            }
                            effective = effective + incr;
                            next_epoch = next_epoch + 1;
                            if next_epoch >= epoch {
                                break;
                            }
                            match h.get(next_epoch) {
                                Some(e) => {
                                    entry = e;
                                }
                                None => {
                                    break;
                                }
                            }
                        }
                        (effective, self.stake - effective)
                    }
                }
            }
        }
    }

    /// The full schedule at `epoch`: `(effective, activating, deactivating)`.
    pub fn stake_activating_and_deactivating(
        &self,
        epoch: u64,
        history: Option<&StakeHistory>,
    ) -> (r: (u64, u64, u64))
        requires
            self.wf(),
        ensures
            r == stake_activating_and_deactivating_spec(*self, epoch, opt_history(history)),
    {
        let (stake_amt, activating) = self.stake_and_activating(epoch, history);

        if epoch < self.deactivation_epoch {
            (stake_amt, activating, 0)
        } else if epoch == self.deactivation_epoch {
            let capped = if stake_amt <= self.stake {
                stake_amt
            } else {
                self.stake
            };
            (stake_amt, 0, capped)
        } else {
            match history {
                None => (0, 0, 0),
                Some(h) => {
                    match h.get(self.deactivation_epoch) {
                        None => (0, 0, 0),
                        Some(first) => {
                            let ghost hmap = h@;
                            let ghost goal = cooldown_from(
                                self.config.cooldown_rate,
                                hmap,
                                epoch,
                                self.deactivation_epoch,
                                stake_amt,
                                first,
                            );
                            let mut effective: u64 = stake_amt;
                            let mut next_epoch: u64 = self.deactivation_epoch;
                            let mut entry: StakeHistoryEntry = first;
                            loop
                                invariant_except_break
                                    self.wf(),
                                    self.deactivation_epoch <= next_epoch < epoch,
                                    hmap == h@,
                                    goal == cooldown_from(
                                        self.config.cooldown_rate,
                                        hmap,
                                        epoch,
                                        next_epoch,
                                        effective,
                                        entry,
                                    ),
                                ensures
                                    effective == goal,
                                decreases epoch - next_epoch,
                            {
                                if entry.deactivating == 0 {
                                    break;
                                }
                                let decr = portion(
                                    effective,
                                    entry.effective,
                                    entry.deactivating,
                                    self.config.cooldown_rate.numerator,
                                    self.config.cooldown_rate.denominator,
                                );
                                if decr >= effective {
                                    effective = 0;
                                    break;
                                }
                                effective = effective - decr;
                                next_epoch = next_epoch + 1;
                                if next_epoch >= epoch {
                                    break;
                                }
                                match h.get(next_epoch) {
                                    Some(e) => {
                                        entry = e;
                                    }
                                    None => {
                                        break;
                                    }
                                }
                            }
                            (effective, 0, effective)
                        }
                    }
                }
            }
        }
    }

    /// Effective stake at `epoch`: the first component of the schedule.
    pub fn stake(&self, epoch: u64, history: Option<&StakeHistory>) -> (r: u64)
        requires
            self.wf(),
        ensures
            r == stake_activating_and_deactivating_spec(*self, epoch, opt_history(history)).0,
    {
        let (effective, _activating, _deactivating) = self.stake_activating_and_deactivating(
            epoch,
            history,
        );
        effective
    }

    /// A fresh delegation to `voter_pubkey`, warming up from
    /// `activation_epoch`, with the voter's current credits as the redeemed
    /// watermark.
    pub fn new(
        stake: u64,
        voter_pubkey: &Pubkey,
        vote_state: &VoteState,
        activation_epoch: u64,
        config: &Config,
    ) -> (r: Stake)
        ensures
            r == (Stake {
                voter_pubkey: *voter_pubkey,
                credits_observed: vote_state.spec_credits(),
                stake,
                activation_epoch,
                deactivation_epoch: u64::MAX,
                config: *config,
            }),
    {
        Stake {
            voter_pubkey: *voter_pubkey,
            credits_observed: vote_state.credits(),
            stake,
            activation_epoch,
            deactivation_epoch: u64::MAX,
            config: *config,
        }
    }

    /// A genesis delegation: effective immediately, never warming, under
    /// the default config.
    pub fn new_bootstrap(stake: u64, voter_pubkey: &Pubkey, vote_state: &VoteState) -> (r: Stake)
        ensures
            r == (Stake {
                voter_pubkey: *voter_pubkey,
                credits_observed: vote_state.spec_credits(),
                stake,
                activation_epoch: u64::MAX,
                deactivation_epoch: u64::MAX,
                config: Config {
                    warmup_rate: Rate { numerator: 1u64, denominator: 400u64 },
                    cooldown_rate: Rate { numerator: 1u64, denominator: 400u64 },
                    slash_penalty: 12u8,
                },
            }),
            r.wf(),
    {
        let config = Config::default();
        Stake::new(stake, voter_pubkey, vote_state, u64::MAX, &config)
    }

    /// Begins cooldown at `epoch`.
    pub fn deactivate(&mut self, epoch: u64)
        ensures
            *final(self) == (Stake { deactivation_epoch: epoch, ..*old(self) }),
    {
        self.deactivation_epoch = epoch;
    }
}

impl Default for Stake {
    /// An empty, never-deactivated delegation under the default config.
    fn default() -> (r: Stake)
        ensures
            r == (Stake {
                voter_pubkey: Pubkey { w0: 0u64, w1: 0u64, w2: 0u64, w3: 0u64 },
                credits_observed: 0u64,
                stake: 0u64,
                activation_epoch: 0u64,
                deactivation_epoch: u64::MAX,
                config: Config {
                    warmup_rate: Rate { numerator: 1u64, denominator: 400u64 },
                    cooldown_rate: Rate { numerator: 1u64, denominator: 400u64 },
                    slash_penalty: 12u8,
                },
            }),
            r.wf(),
    {
        Stake {
            voter_pubkey: Pubkey::default(),
            credits_observed: 0,
            stake: 0,
            activation_epoch: 0,
            deactivation_epoch: u64::MAX,
            config: Config::default(),
        }
    }
}

} // verus!
