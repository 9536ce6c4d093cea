//! The externally invoked stake-account transitions: delegate, deactivate,
//! redeem, withdraw, and the per-epoch history builder.

use vstd::prelude::*;
use crate::account::Account;
use crate::account::InstructionError;
use crate::account::KeyedAccount;
use crate::codec::spec_deserialize_stake_state;
use crate::codec::spec_serialize_stake_state;
use crate::codec::vote_blob_entries;
use crate::codec::vote_blob_ok;
use crate::history::StakeHistory;
use crate::history::StakeHistoryEntry;
use crate::rewards::calculate_rewards_spec;
use crate::rewards::point_term;
use crate::rewards::reward_points_upto;
use crate::rewards::walk_len;
use crate::stake::opt_history;
use crate::stake::stake_activating_and_deactivating_spec;
use crate::stake::Stake;
use crate::pubkey::Pubkey;
use crate::state::StakeState;
use crate::sysvar::Clock;
use crate::sysvar::Rewards;
use crate::vote::credits_of;
use crate::vote::VoteState;

verus! {

/// What `delegate_stake` decides: the fresh delegation record on success,
/// the exact error otherwise.
pub open spec fn delegate_result(
    a: KeyedAccount,
    vote: KeyedAccount,
    new_stake: u64,
    clock: Clock,
    config: crate::config::Config,
) -> Result<Stake, InstructionError> {
    if !a.is_signer {
        Err(InstructionError::MissingRequiredSignature)
    } else if new_stake > a.account.lamports {
        Err(InstructionError::InsufficientFunds)
    } else {
        match spec_deserialize_stake_state(a.account.data@) {
            Some(StakeState::Uninitialized) => {
                if vote_blob_ok(vote.account.data@) {
                    Ok(
                        Stake {
                            voter_pubkey: vote.key,
                            credits_observed: credits_of(vote_blob_entries(vote.account.data@)),
                            stake: new_stake,
                            activation_epoch: clock.epoch,
                            deactivation_epoch: u64::MAX,
                            config,
                        },
                    )
                } else {
                    Err(InstructionError::InvalidAccountData)
                }
            },
            _ => Err(InstructionError::InvalidAccountData),
        }
    }
}

/// What `deactivate_stake` decides: the updated record on success.
pub open spec fn deactivate_result(a: KeyedAccount, clock: Clock) -> Result<
    Stake,
    InstructionError,
> {
    if !a.is_signer {
        Err(InstructionError::MissingRequiredSignature)
    } else {
        match spec_deserialize_stake_state(a.account.data@) {
            Some(StakeState::Stake(st)) => Ok(
                Stake { deactivation_epoch: clock.epoch, ..st },
            ),
            _ => Err(InstructionError::InvalidAccountData),
        }
    }
}

/// Lamports a stake account cannot release at `clock`: the still-cooling
/// effective amount once deactivation has begun, the full committed amount
/// before that.
pub open spec fn locked_lamports(
    st: Stake,
    clock: Clock,
    hist: Map<u64, StakeHistoryEntry>,
) -> u64 {
    if clock.epoch >= st.deactivation_epoch {
        stake_activating_and_deactivating_spec(st, clock.epoch, hist).0
    } else {
        st.stake
    }
}

/// Whether `withdraw` succeeds, and with which error it fails.
pub open spec fn withdraw_result(
    a: KeyedAccount,
    lamports: u64,
    clock: Clock,
    hist: Map<u64, StakeHistoryEntry>,
) -> Result<(), InstructionError> {
    if !a.is_signer {
        Err(InstructionError::MissingRequiredSignature)
    } else {
        match spec_deserialize_stake_state(a.account.data@) {
            Some(StakeState::Stake(st)) => {
                let staked = locked_lamports(st, clock, hist);
                let available = if a.account.lamports >= staked {
                    (a.account.lamports - staked) as u64
                } else {
                    0u64
                };
                if lamports > available {
                    Err(InstructionError::InsufficientFunds)
                } else {
                    Ok(())
                }
            },
            Some(StakeState::Uninitialized) => {
                if lamports > a.account.lamports {
                    Err(InstructionError::InsufficientFunds)
                } else {
                    Ok(())
                }
            },
            _ => Err(InstructionError::InvalidAccountData),
        }
    }
}

/// The stake, rewards-pool and vote accounts are in the shape redemption
/// needs: a delegation, a pool, a parseable voter history delegated to.
pub open spec fn redeem_reached(a: KeyedAccount, vote: KeyedAccount, pool: KeyedAccount) -> bool {
    &&& spec_deserialize_stake_state(a.account.data@) matches Some(StakeState::Stake(st))
    &&& spec_deserialize_stake_state(pool.account.data@) == Some(StakeState::RewardsPool)
    &&& vote_blob_ok(vote.account.data@)
}

/// The delegation record a redeeming stake account holds.
pub open spec fn redeem_stake(a: KeyedAccount) -> Stake {
    spec_deserialize_stake_state(a.account.data@)->Some_0->Stake_0
}

/// What `redeem_vote_credits` decides: on success, the delegation record,
/// the voter's payout, the staker's payout, and the new credits watermark.
pub open spec fn redeem_result(
    a: KeyedAccount,
    vote: KeyedAccount,
    pool: KeyedAccount,
    rewards: Rewards,
    hist: Map<u64, StakeHistoryEntry>,
) -> Result<(Stake, u64, u64, u64), InstructionError> {
    if !(spec_deserialize_stake_state(a.account.data@) matches Some(StakeState::Stake(st)))
        || spec_deserialize_stake_state(pool.account.data@) != Some(StakeState::RewardsPool) {
        Err(InstructionError::InvalidAccountData)
    } else if !vote_blob_ok(vote.account.data@) {
        Err(InstructionError::InvalidAccountData)
    } else {
        let st = redeem_stake(a);
        if st.voter_pubkey != vote.key {
            Err(InstructionError::InvalidArgument)
        } else {
            match calculate_rewards_spec(
                st,
                rewards.validator_point_value,
                vote.account.data@[0],
                vote_blob_entries(vote.account.data@),
                hist,
            ) {
                None => Err(InstructionError::CustomError(1)),
                Some(payout) => {
                    if pool.account.lamports < payout.0 + payout.1 {
                        Err(InstructionError::UnbalancedInstruction)
                    } else {
                        Ok((st, payout.0, payout.1, payout.2))
                    }
                },
            }
        }
    }
}

impl KeyedAccount {
    /// Turns an uninitialized, signed account into a delegation to the vote
    /// account, committing `new_stake` of its lamports from the current
    /// epoch on, under a snapshot of `config`.
    pub fn delegate_stake(
        &mut self,
        vote_account: &KeyedAccount,
        new_stake: u64,
        clock: &Clock,
        config: &crate::config::Config,
    ) -> (r: Result<(), InstructionError>)
        ensures
            ({
                let dr = delegate_result(*old(self), *vote_account, new_stake, *clock, *config);
                match dr {
                    Ok(st) => r == Ok::<(), InstructionError>(()) && final(self).account.data@
                        == spec_serialize_stake_state(StakeState::Stake(st)) && final(self).account.lamports == old(self).account.lamports && final(self).key == old(self).key && final(self).is_signer == old(self).is_signer,
                    Err(e) => r == Err::<(), InstructionError>(e) && *final(self) == *old(self),
                }
            }),
    {
        if self.signer_key().is_none() {
            return Err(InstructionError::MissingRequiredSignature);
        }
        if new_stake > self.account.lamports {
            return Err(InstructionError::InsufficientFunds);
        }
        let state = self.state()?;
        if let StakeState::Uninitialized = state {
            match VoteState::from(&vote_account.account) {
                None => Err(InstructionError::InvalidAccountData),
                Some(vote_state) => {
                    let stake = Stake::new(
                        new_stake,
                        vote_account.unsigned_key(),
                        &vote_state,
                        clock.epoch,
                        config,
                    );
                    self.set_state(&StakeState::Stake(stake));
                    Ok(())
                },
            }
        } else {
            Err(InstructionError::InvalidAccountData)
        }
    }

    /// Begins cooldown for a signed, delegated account at the current
    /// epoch. The vote account is reserved for future slashing and is not
    /// read.
    pub fn deactivate_stake(&mut self, _vote_account: &KeyedAccount, clock: &Clock) -> (r: Result<
        (),
        InstructionError,
    >)
        ensures
            ({
                let dr = deactivate_result(*old(self), *clock);
                match dr {
                    Ok(st) => r == Ok::<(), InstructionError>(()) && final(self).account.data@
                        == spec_serialize_stake_state(StakeState::Stake(st)) && final(self).account.lamports == old(self).account.lamports && final(self).key == old(self).key && final(self).is_signer == old(self).is_signer,
                    Err(e) => r == Err::<(), InstructionError>(e) && *final(self) == *old(self),
                }
            }),
    {
        if self.signer_key().is_none() {
            return Err(InstructionError::MissingRequiredSignature);
        }
        let state = self.state()?;
        if let StakeState::Stake(mut stake) = state {
            stake.deactivate(clock.epoch);
            self.set_state(&StakeState::Stake(stake));
            Ok(())
        } else {
            Err(InstructionError::InvalidAccountData)
        }
    }

    /// Pays the rewards the delegation has earned: the pool is debited by
    /// both payouts, this account is credited with the staker's share, the
    /// vote account with the voter's commission share, and the delegation's
    /// watermark advances.
    #[verifier::rlimit(100)]
    #[verifier::spinoff_prover]
    pub fn redeem_vote_credits(
        &mut self,
        vote_account: &mut KeyedAccount,
        rewards_account: &mut KeyedAccount,
        rewards: &Rewards,
        stake_history: &StakeHistory,
    ) -> (r: Result<(), InstructionError>)
        requires
            rewards.validator_point_value.wf(),
            redeem_reached(*old(self), *old(vote_account), *old(rewards_account)) ==> ({
                let st = redeem_stake(*old(self));
                let ec = vote_blob_entries(old(vote_account).account.data@);
                let hist = stake_history@;
                &&& (forall|i: int|
                    0 <= i < walk_len(ec) ==> point_term(st, ec, hist, i) <= u64::MAX)
                &&& (reward_points_upto(st, ec, hist, walk_len(ec))
                    * rewards.validator_point_value.numerator as int)
                    / rewards.validator_point_value.denominator as int <= u64::MAX
            }),
            ({
                let rr = redeem_result(
                    *old(self),
                    *old(vote_account),
                    *old(rewards_account),
                    *rewards,
                    stake_history@,
                );
                rr matches Ok((st, voter_reward, staker_reward, w)) ==> old(
                    self,
                ).account.lamports + staker_reward <= u64::MAX && old(
                    vote_account,
                ).account.lamports + voter_reward <= u64::MAX
            }),
        ensures
            ({
                let rr = redeem_result(
                    *old(self),
                    *old(vote_account),
                    *old(rewards_account),
                    *rewards,
                    stake_history@,
                );
                match rr {
                    Ok((st, voter_reward, staker_reward, w)) => {
                        &&& r == Ok::<(), InstructionError>(())
                        &&& final(self).account.lamports == old(self).account.lamports
                            + staker_reward
                        &&& final(self).account.data@ == spec_serialize_stake_state(
                            StakeState::Stake(Stake { credits_observed: w, ..st }),
                        )
                        &&& final(vote_account).account.lamports == old(vote_account).account.lamports + voter_reward
                        &&& final(vote_account).account.data == old(vote_account).account.data
                        &&& final(rewards_account).account.lamports == old(rewards_account).account.lamports - (voter_reward + staker_reward)
                        &&& final(rewards_account).account.data == old(rewards_account).account.data
                        &&& final(self).key == old(self).key && final(self).is_signer == old(self).is_signer
                        &&& final(vote_account).key == old(vote_account).key && final(vote_account).is_signer == old(vote_account).is_signer
                        &&& final(rewards_account).key == old(rewards_account).key && final(rewards_account).is_signer == old(rewards_account).is_signer
                    },
                    Err(e) => r == Err::<(), InstructionError>(e) && *final(self) == *old(self)
                        && *final(vote_account) == *old(vote_account) && *final(rewards_account)
                        == *old(rewards_account),
                }
            }),
    {
        let self_state = self.state()?;
        let pool_state = rewards_account.state()?;
        match (self_state, pool_state) {
            (StakeState::Stake(mut stake), StakeState::RewardsPool) => {
                let vote_state = match VoteState::from(&vote_account.account) {
                    Some(v) => v,
                    None => {
                        return Err(InstructionError::InvalidAccountData);
                    },
                };
                if !(stake.voter_pubkey == *vote_account.unsigned_key()) {
                    return Err(InstructionError::InvalidArgument);
                }
                proof {
                    assert(stake.wf());
                }
                match stake.calculate_rewards(
                    &rewards.validator_point_value,
                    &vote_state,
                    Some(stake_history),
                ) {
                    Some((voters_reward, stakers_reward, credits_observed)) => {
                        let total: u128 = voters_reward as u128 + stakers_reward as u128;
                        if (rewards_account.account.lamports as u128) < total {
                            return Err(InstructionError::UnbalancedInstruction);
                        }
                        rewards_account.account.lamports = rewards_account.account.lamports - (
                        total as u64);
                        self.account.lamports = self.account.lamports + stakers_reward;
                        vote_account.account.lamports = vote_account.account.lamports
                            + voters_reward;
                        stake.credits_observed = credits_observed;
                        self.set_state(&StakeState::Stake(stake));
                        Ok(())
                    },
                    None => {
                        // nothing worth a lamport to collect
                        Err(InstructionError::CustomError(1))
                    },
                }
            },
            _ => Err(InstructionError::InvalidAccountData),
        }
    }

    /// Moves `lamports` to `to`, refusing to release anything still locked
    /// by the warmup/cooldown schedule.
    pub fn withdraw(
        &mut self,
        lamports: u64,
        to: &mut KeyedAccount,
        clock: &Clock,
        stake_history: &StakeHistory,
    ) -> (r: Result<(), InstructionError>)
        requires
            withdraw_result(*old(self), lamports, *clock, stake_history@) is Ok ==> old(to).account.lamports + lamports <= u64::MAX,
        ensures
            r == withdraw_result(*old(self), lamports, *clock, stake_history@),
            r is Ok ==> final(self).account.lamports == old(self).account.lamports - lamports
                && final(to).account.lamports == old(to).account.lamports + lamports && final(self).account.data == old(self).account.data && final(to).account.data == old(to).account.data && final(self).key == old(self).key && final(self).is_signer == old(self).is_signer && final(to).key == old(to).key && final(to).is_signer == old(to).is_signer,
            r is Err ==> *final(self) == *old(self) && *final(to) == *old(to),
    {
        if self.signer_key().is_none() {
            return Err(InstructionError::MissingRequiredSignature);
        }
        let state = self.state()?;
        match state {
            StakeState::Stake(stake) => {
                proof {
                    assert(stake.wf());
                }
                let staked = if clock.epoch >= stake.deactivation_epoch {
                    stake.stake(clock.epoch, Some(stake_history))
                } else {
                    // nothing may leave while the delegation is still active
                    stake.stake
                };
                let available = if self.account.lamports >= staked {
                    self.account.lamports - staked
                } else {
                    0
                };
                if lamports > available {
                    return Err(InstructionError::InsufficientFunds);
                }
                self.account.lamports = self.account.lamports - lamports;
                to.account.lamports = to.account.lamports + lamports;
                Ok(())
            },
            StakeState::Uninitialized => {
                if lamports > self.account.lamports {
                    return Err(InstructionError::InsufficientFunds);
                }
                self.account.lamports = self.account.lamports - lamports;
                to.account.lamports = to.account.lamports + lamports;
                Ok(())
            },
            _ => Err(InstructionError::InvalidAccountData),
        }
    }
}

/// Reward-watermark law at the operation: a redemption that succeeds moves
/// the delegation's credits watermark strictly forward, and never past the
/// voter's lifetime credits.
pub proof fn lemma_redeem_advances_watermark(
    a: KeyedAccount,
    vote: KeyedAccount,
    pool: KeyedAccount,
    rewards: Rewards,
    hist: Map<u64, StakeHistoryEntry>,
)
    requires
        rewards.validator_point_value.wf(),
        redeem_result(a, vote, pool, rewards, hist) is Ok,
    ensures
        ({
            let out = redeem_result(a, vote, pool, rewards, hist)->Ok_0;
            out.0.credits_observed < out.3 <= credits_of(vote_blob_entries(vote.account.data@))
        }),
{
    let st = redeem_stake(a);
    crate::rewards::lemma_rewards_watermark(
        st,
        rewards.validator_point_value,
        vote.account.data@[0],
        vote_blob_entries(vote.account.data@),
        hist,
    );
}

/// Withdraw-bound law: a successful withdrawal from a delegated account
/// that held at least its locked amount leaves at least the locked amount
/// behind.
pub proof fn lemma_withdraw_keeps_locked(
    a: KeyedAccount,
    lamports: u64,
    clock: Clock,
    hist: Map<u64, StakeHistoryEntry>,
)
    requires
        withdraw_result(a, lamports, clock, hist) is Ok,
    ensures
        (match spec_deserialize_stake_state(a.account.data@) {
            Some(StakeState::Stake(st)) => a.account.lamports >= locked_lamports(st, clock, hist)
                ==> a.account.lamports - lamports >= locked_lamports(st, clock, hist),
            _ => true,
        }),
{
}

/// Pointwise sums of the schedule triples of the first `i` stakes.
pub open spec fn triple_sums(
    stakes: Seq<Stake>,
    epoch: u64,
    hist: Map<u64, StakeHistoryEntry>,
    i: int,
) -> (int, int, int)
    decreases i,
{
    if i <= 0 {
        (0, 0, 0)
    } else {
        let prev = triple_sums(stakes, epoch, hist, i - 1);
        let t = stake_activating_and_deactivating_spec(stakes[i - 1], epoch, hist);
        (prev.0 + t.0, prev.1 + t.1, prev.2 + t.2)
    }
}

/// Partial sums never exceed the full sum: every term is nonnegative.
proof fn lemma_triple_sums_monotone(
    stakes: Seq<Stake>,
    epoch: u64,
    hist: Map<u64, StakeHistoryEntry>,
    i: int,
    j: int,
)
    requires
        0 <= i <= j,
    ensures
        triple_sums(stakes, epoch, hist, i).0 <= triple_sums(stakes, epoch, hist, j).0,
        triple_sums(stakes, epoch, hist, i).1 <= triple_sums(stakes, epoch, hist, j).1,
        triple_sums(stakes, epoch, hist, i).2 <= triple_sums(stakes, epoch, hist, j).2,
    decreases j - i,
{
    if i < j {
        lemma_triple_sums_monotone(stakes, epoch, hist, i, j - 1);
    }
}

/// Builds the aggregate history entry for `epoch`: the pointwise sum of
/// every live stake's schedule triple against the prior history. The sums
/// must fit the entry's 64-bit fields.
pub fn new_stake_history_entry(
    epoch: u64,
    stakes: &Vec<Stake>,
    history: Option<&StakeHistory>,
) -> (r: StakeHistoryEntry)
    requires
        forall|i: int| 0 <= i < stakes@.len() ==> (#[trigger] stakes@[i]).wf(),
        triple_sums(stakes@, epoch, opt_history(history), stakes@.len() as int).0 <= u64::MAX,
        triple_sums(stakes@, epoch, opt_history(history), stakes@.len() as int).1 <= u64::MAX,
        triple_sums(stakes@, epoch, opt_history(history), stakes@.len() as int).2 <= u64::MAX,
    ensures
        r.effective == triple_sums(stakes@, epoch, opt_history(history), stakes@.len() as int).0,
        r.activating == triple_sums(stakes@, epoch, opt_history(history), stakes@.len() as int).1,
        r.deactivating == triple_sums(stakes@, epoch, opt_history(history), stakes@.len() as int).2,
{
    let ghost hist = opt_history(history);
    let n = stakes.len();
    let mut effective: u64 = 0;
    let mut activating: u64 = 0;
    let mut deactivating: u64 = 0;
    let mut i: usize = 0;
    while i < n
        invariant
            0 <= i <= n,
            n == stakes@.len(),
            hist == opt_history(history),
            forall|k: int| 0 <= k < stakes@.len() ==> (#[trigger] stakes@[k]).wf(),
            triple_sums(stakes@, epoch, hist, n as int).0 <= u64::MAX,
            triple_sums(stakes@, epoch, hist, n as int).1 <= u64::MAX,
            triple_sums(stakes@, epoch, hist, n as int).2 <= u64::MAX,
            effective == triple_sums(stakes@, epoch, hist, i as int).0,
            activating == triple_sums(stakes@, epoch, hist, i as int).1,
            deactivating == triple_sums(stakes@, epoch, hist, i as int).2,
        decreases n - i,
    {
        let (e, a, d) = stakes[i].stake_activating_and_deactivating(epoch, history);
        proof {
            lemma_triple_sums_monotone(stakes@, epoch, hist, i as int + 1, n as int);
        }
        effective = effective + e;
        activating = activating + a;
        deactivating = deactivating + d;
        i = i + 1;
    }
    StakeHistoryEntry { effective, activating, deactivating }
}

/// A genesis stake account: `lamports` delegated as a bootstrap stake to
/// `voter_pubkey`, with the voter's current credits already observed.
pub fn create_account(voter_pubkey: &Pubkey, vote_account: &Account, lamports: u64) -> (r: Account)
    requires
        vote_blob_ok(vote_account.data@),
    ensures
        ({
            let stake = Stake {
                voter_pubkey: *voter_pubkey,
                credits_observed: credits_of(vote_blob_entries(vote_account.data@)),
                stake: lamports,
                activation_epoch: u64::MAX,
                deactivation_epoch: u64::MAX,
                config: crate::config::Config {
                    warmup_rate: crate::config::Rate { numerator: 1u64, denominator: 400u64 },
                    cooldown_rate: crate::config::Rate { numerator: 1u64, denominator: 400u64 },
                    slash_penalty: 12u8,
                },
            };
            &&& r.lamports == lamports
            &&& r.data@ == spec_serialize_stake_state(StakeState::Stake(stake))
            &&& spec_deserialize_stake_state(r.data@) == Some(StakeState::Stake(stake))
        }),
{
    let vote_state = match VoteState::from(vote_account) {
        Some(v) => v,
        None => {
            // unreachable: the blob parses by the precondition
            proof {
                assert(false);
            }
            VoteState::new(0)
        },
    };
    let stake = Stake::new_bootstrap(lamports, voter_pubkey, &vote_state);
    let state = StakeState::Stake(stake);
    let account = Account::new_data(lamports, &state);
    proof {
        crate::codec::lemma_stake_state_round_trip(state);
    }
    account
}

} // verus!
