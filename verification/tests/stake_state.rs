use stake_api::config::Rate;
use stake_api::config::Config;
use stake_api::history::StakeHistory;
use stake_api::history::StakeHistoryEntry;
use stake_api::account::Account;
use stake_api::account::InstructionError;
use stake_api::account::KeyedAccount;
use stake_api::ops::create_account;
use stake_api::ops::new_stake_history_entry;
use stake_api::pubkey::Pubkey;
use stake_api::stake::Stake;
use stake_api::state::StakeState;
use stake_api::sysvar::Clock;
use stake_api::sysvar::PointValue;
use stake_api::sysvar::Rewards;
use stake_api::vote::VoteState;

const STAKE_STATE_SPACE: usize = 101;

fn default_stake() -> Stake {
    Stake::default()
}

fn warmup_increment(amount: u64, config: &Config) -> u64 {
    amount * config.warmup_rate.numerator / config.warmup_rate.denominator
}

fn create_vote_account(commission: u8, lamports: u64) -> Account {
    let vote_state = VoteState::new(commission);
    let mut account = Account::new(lamports, 0);
    vote_state.to(&mut account);
    account
}

fn create_stake_history_from_stakes(
    bootstrap: Option<u64>,
    epochs: std::ops::Range<u64>,
    stakes: &[Stake],
) -> StakeHistory {
    let mut stake_history = StakeHistory::default();

    let bootstrap_stake = if let Some(bootstrap) = bootstrap {
        vec![Stake {
            activation_epoch: u64::MAX,
            stake: bootstrap,
            ..default_stake()
        }]
    } else {
        vec![]
    };

    for epoch in epochs {
        let mut all: Vec<Stake> = stakes.to_vec();
        all.extend(bootstrap_stake.iter().cloned());
        let entry = new_stake_history_entry(epoch, &all, Some(&stake_history));
        stake_history.add(epoch, entry);
    }

    stake_history
}

#[test]
fn test_stake_state_stake_from_fail() {
    let mut stake_account = Account::new(0, STAKE_STATE_SPACE);

    stake_account.set_state(&StakeState::default());

    assert_eq!(StakeState::stake_from(&stake_account), None);
}

#[test]
fn test_stake_is_bootstrap() {
    assert_eq!(
        Stake {
            activation_epoch: u64::MAX,
            ..default_stake()
        }
        .is_bootstrap(),
        true
    );
    assert_eq!(
        Stake {
            activation_epoch: 0,
            ..default_stake()
        }
        .is_bootstrap(),
        false
    );
}

#[test]
fn test_stake_delegate_stake() {
    let clock = Clock { epoch: 1 };

    let mut vote_state = VoteState::default();
    for epoch in 0..4 {
        for _ in 0..250 {
            vote_state.increment_credits(epoch);
        }
    }

    let vote_pubkey = Pubkey::new(11, 0, 0, 0);
    let mut vote_account = create_vote_account(0, 100);
    vote_state.to(&mut vote_account);
    let vote_keyed_account = KeyedAccount::new(&vote_pubkey, false, vote_account);

    let stake_pubkey = Pubkey::default();
    let stake_lamports = 42;
    let stake_account = Account::new(stake_lamports, STAKE_STATE_SPACE);

    // unsigned keyed account
    let mut stake_keyed_account = KeyedAccount::new(&stake_pubkey, false, stake_account);

    {
        let stake_state: StakeState = stake_keyed_account.state().unwrap();
        assert_eq!(stake_state, StakeState::default());
    }

    assert_eq!(
        stake_keyed_account.delegate_stake(&vote_keyed_account, 0, &clock, &Config::default()),
        Err(InstructionError::MissingRequiredSignature)
    );

    // signed keyed account
    stake_keyed_account.is_signer = true;
    assert!(stake_keyed_account
        .delegate_stake(&vote_keyed_account, stake_lamports, &clock, &Config::default())
        .is_ok());

    // verify that delegate_stake() looks right, compare against hand-rolled
    let stake_state: StakeState = stake_keyed_account.state().unwrap();
    assert_eq!(
        stake_state,
        StakeState::Stake(Stake {
            voter_pubkey: vote_pubkey,
            credits_observed: vote_state.credits(),
            stake: stake_lamports,
            activation_epoch: clock.epoch,
            deactivation_epoch: u64::MAX,
            config: Config::default()
        })
    );

    // verify that delegate_stake can't be called twice
    assert_eq!(
        stake_keyed_account.delegate_stake(
            &vote_keyed_account,
            stake_lamports,
            &clock,
            &Config::default()
        ),
        Err(InstructionError::InvalidAccountData)
    );

    // verify can only stake up to account lamports
    assert_eq!(
        stake_keyed_account.delegate_stake(
            &vote_keyed_account,
            stake_lamports + 1,
            &clock,
            &Config::default()
        ),
        Err(InstructionError::InsufficientFunds)
    );

    let stake_state = StakeState::RewardsPool;

    stake_keyed_account.set_state(&stake_state);
    assert!(stake_keyed_account
        .delegate_stake(&vote_keyed_account, 0, &clock, &Config::default())
        .is_err());
}

#[test]
fn test_stake_activating_and_deactivating() {
    let stake = Stake {
        stake: 1_000,
        activation_epoch: 0,
        deactivation_epoch: 5,
        ..default_stake()
    };

    // save this off so stake.config.warmup_rate changes don't break this test
    let increment = warmup_increment(1_000, &stake.config);

    let mut stake_history = StakeHistory::default();
    // assert that this stake follows step function if there's no history
    assert_eq!(
        stake.stake_activating_and_deactivating(stake.activation_epoch, Some(&stake_history)),
        (0, stake.stake, 0)
    );
    for epoch in stake.activation_epoch + 1..stake.deactivation_epoch {
        assert_eq!(
            stake.stake_activating_and_deactivating(epoch, Some(&stake_history)),
            (stake.stake, 0, 0)
        );
    }
    // assert that this stake is full deactivating
    assert_eq!(
        stake.stake_activating_and_deactivating(stake.deactivation_epoch, Some(&stake_history)),
        (stake.stake, 0, stake.stake)
    );
    // assert that this stake is fully deactivated if there's no history
    assert_eq!(
        stake.stake_activating_and_deactivating(stake.deactivation_epoch + 1, Some(&stake_history)),
        (0, 0, 0)
    );

    stake_history.add(
        0, // entry for zero doesn't have my activating amount
        StakeHistoryEntry {
            effective: 1_000,
            activating: 0,
            ..StakeHistoryEntry::default()
        },
    );
    // assert that this stake is broken, because above setup is broken
    assert_eq!(
        stake.stake_activating_and_deactivating(1, Some(&stake_history)),
        (0, stake.stake, 0)
    );

    stake_history.add(
        0, // entry for zero has my activating amount
        StakeHistoryEntry {
            effective: 1_000,
            activating: 1_000,
            ..StakeHistoryEntry::default()
        },
        // no entry for 1, so this stake gets shorted
    );
    // assert that this stake is broken, because above setup is broken
    assert_eq!(
        stake.stake_activating_and_deactivating(2, Some(&stake_history)),
        (increment, stake.stake - increment, 0)
    );

    // start over, test deactivation edge cases
    let mut stake_history = StakeHistory::default();

    stake_history.add(
        stake.deactivation_epoch, // entry for zero doesn't have my de-activating amount
        StakeHistoryEntry {
            effective: 1_000,
            activating: 0,
            ..StakeHistoryEntry::default()
        },
    );
    // assert that this stake is broken, because above setup is broken
    assert_eq!(
        stake.stake_activating_and_deactivating(stake.deactivation_epoch + 1, Some(&stake_history)),
        (stake.stake, 0, stake.stake) // says "I'm still waiting for deactivation"
    );

    // put in my initial deactivating amount, but don't put in an entry for next
    stake_history.add(
        stake.deactivation_epoch, // entry for zero has my de-activating amount
        StakeHistoryEntry {
            effective: 1_000,
            deactivating: 1_000,
            ..StakeHistoryEntry::default()
        },
    );
    // assert that this stake is broken, because above setup is broken
    assert_eq!(
        stake.stake_activating_and_deactivating(stake.deactivation_epoch + 2, Some(&stake_history)),
        (stake.stake - increment, 0, stake.stake - increment) // hung, should be lower
    );
}

#[test]
fn test_stake_warmup_cooldown_sub_integer_moves() {
    let stakes = [Stake {
        stake: 2,
        activation_epoch: 0, // activating at zero
        deactivation_epoch: 5,
        ..default_stake()
    }];
    // give 2 epochs of cooldown
    let epochs = 7;
    // make boostrap stake smaller than warmup so warmup/cooldown
    //  increment is always smaller than 1
    let config = Config::default();
    let bootstrap = warmup_increment(100, &config) / 2;
    let stake_history = create_stake_history_from_stakes(Some(bootstrap), 0..epochs, &stakes);
    let mut max_stake = 0;
    let mut min_stake = 2;

    for epoch in 0..epochs {
        let stake = stakes
            .iter()
            .map(|stake| stake.stake(epoch, Some(&stake_history)))
            .sum::<u64>();
        max_stake = max_stake.max(stake);
        min_stake = min_stake.min(stake);
    }
    assert_eq!(max_stake, 2);
    assert_eq!(min_stake, 0);
}

#[test]
fn test_stake_warmup_cooldown() {
    // a quarter of the pool per epoch, so each stake's one-lamport
    // forward-progress clamp stays inside the pool-wide allowance that the
    // delta bound below asserts
    let config = Config {
        warmup_rate: Rate {
            numerator: 1,
            denominator: 4,
        },
        cooldown_rate: Rate {
            numerator: 1,
            denominator: 4,
        },
        ..Config::default()
    };
    let stakes = [
        Stake {
            // never deactivates
            stake: 1_000,
            activation_epoch: u64::MAX,
            config,
            ..default_stake()
        },
        Stake {
            stake: 1_000,
            activation_epoch: 0,
            deactivation_epoch: 9,
            config,
            ..default_stake()
        },
        Stake {
            stake: 1_000,
            activation_epoch: 1,
            deactivation_epoch: 6,
            config,
            ..default_stake()
        },
        Stake {
            stake: 1_000,
            activation_epoch: 2,
            deactivation_epoch: 5,
            config,
            ..default_stake()
        },
        Stake {
            stake: 1_000,
            activation_epoch: 2,
            deactivation_epoch: 4,
            config,
            ..default_stake()
        },
        Stake {
            stake: 1_000,
            activation_epoch: 4,
            deactivation_epoch: 4,
            config,
            ..default_stake()
        },
    ];
    // chosen to ensure that the last activated stake (at 4) finishes
    //  warming up and cooling down; a stake takes a few epochs to warm up or
    //  cool down when all alone, but the above overlap a lot
    let epochs = 20;

    let stake_history = create_stake_history_from_stakes(None, 0..epochs, &stakes);

    let mut prev_total_effective_stake = stakes
        .iter()
        .map(|stake| stake.stake(0, Some(&stake_history)))
        .sum::<u64>();

    for epoch in 1..epochs {
        let total_effective_stake = stakes
            .iter()
            .map(|stake| stake.stake(epoch, Some(&stake_history)))
            .sum::<u64>();

        let delta = if total_effective_stake > prev_total_effective_stake {
            total_effective_stake - prev_total_effective_stake
        } else {
            prev_total_effective_stake - total_effective_stake
        };

        assert!(delta <= warmup_increment(prev_total_effective_stake, &config).max(1));

        prev_total_effective_stake = total_effective_stake;
    }
}

#[test]
fn test_deactivate_stake() {
    let stake_pubkey = Pubkey::new(21, 0, 0, 0);
    let stake_lamports = 42;
    let stake_account = Account::new(stake_lamports, STAKE_STATE_SPACE);

    let clock = Clock { epoch: 1 };

    let vote_pubkey = Pubkey::new(22, 0, 0, 0);
    let vote_account = create_vote_account(0, 100);
    let vote_keyed_account = KeyedAccount::new(&vote_pubkey, false, vote_account);

    // unsigned keyed account
    let mut stake_keyed_account = KeyedAccount::new(&stake_pubkey, false, stake_account);
    assert_eq!(
        stake_keyed_account.deactivate_stake(&vote_keyed_account, &clock),
        Err(InstructionError::MissingRequiredSignature)
    );

    // signed keyed account but not staked yet
    stake_keyed_account.is_signer = true;
    assert_eq!(
        stake_keyed_account.deactivate_stake(&vote_keyed_account, &clock),
        Err(InstructionError::InvalidAccountData)
    );

    // Staking
    let vote_pubkey = Pubkey::new(23, 0, 0, 0);
    let mut vote_account = create_vote_account(0, 100);
    VoteState::default().to(&mut vote_account);
    let vote_keyed_account = KeyedAccount::new(&vote_pubkey, false, vote_account);
    assert_eq!(
        stake_keyed_account.delegate_stake(
            &vote_keyed_account,
            stake_lamports,
            &clock,
            &Config::default()
        ),
        Ok(())
    );

    // Deactivate after staking
    assert_eq!(
        stake_keyed_account.deactivate_stake(&vote_keyed_account, &clock),
        Ok(())
    );
}

#[test]
fn test_withdraw_stake() {
    let stake_pubkey = Pubkey::new(31, 0, 0, 0);
    let total_lamports = 100;
    let stake_lamports = 42;
    let stake_account = Account::new(total_lamports, STAKE_STATE_SPACE);

    let mut clock = Clock::default();

    let to = Pubkey::new(32, 0, 0, 0);
    let to_account = Account::new(1, 0);
    let mut to_keyed_account = KeyedAccount::new(&to, false, to_account);

    // unsigned keyed account should fail
    let mut stake_keyed_account = KeyedAccount::new(&stake_pubkey, false, stake_account);
    assert_eq!(
        stake_keyed_account.withdraw(
            total_lamports,
            &mut to_keyed_account,
            &clock,
            &StakeHistory::default()
        ),
        Err(InstructionError::MissingRequiredSignature)
    );

    // signed keyed account and uninitialized should work
    stake_keyed_account.is_signer = true;
    assert_eq!(
        stake_keyed_account.withdraw(
            total_lamports,
            &mut to_keyed_account,
            &clock,
            &StakeHistory::default()
        ),
        Ok(())
    );
    assert_eq!(stake_keyed_account.account.lamports, 0);

    // reset balance
    stake_keyed_account.account.lamports = total_lamports;

    // signed keyed account and uninitialized, more than available should fail
    assert_eq!(
        stake_keyed_account.withdraw(
            total_lamports + 1,
            &mut to_keyed_account,
            &clock,
            &StakeHistory::default()
        ),
        Err(InstructionError::InsufficientFunds)
    );

    // Stake some lamports (available lamports for withdrawals will reduce)
    let vote_pubkey = Pubkey::new(33, 0, 0, 0);
    let mut vote_account = create_vote_account(0, 100);
    VoteState::default().to(&mut vote_account);
    let vote_keyed_account = KeyedAccount::new(&vote_pubkey, false, vote_account);
    assert_eq!(
        stake_keyed_account.delegate_stake(
            &vote_keyed_account,
            stake_lamports,
            &clock,
            &Config::default()
        ),
        Ok(())
    );

    // withdrawal before deactivate works for some portion
    assert_eq!(
        stake_keyed_account.withdraw(
            total_lamports - stake_lamports,
            &mut to_keyed_account,
            &clock,
            &StakeHistory::default()
        ),
        Ok(())
    );
    // reset balance
    stake_keyed_account.account.lamports = total_lamports;

    // withdrawal before deactivate fails if not in excess of stake
    assert_eq!(
        stake_keyed_account.withdraw(
            total_lamports - stake_lamports + 1,
            &mut to_keyed_account,
            &clock,
            &StakeHistory::default()
        ),
        Err(InstructionError::InsufficientFunds)
    );

    // deactivate the stake before withdrawal
    assert_eq!(
        stake_keyed_account.deactivate_stake(&vote_keyed_account, &clock),
        Ok(())
    );
    // simulate time passing
    clock.epoch += 100;

    // Try to withdraw more than what's available
    assert_eq!(
        stake_keyed_account.withdraw(
            total_lamports + 1,
            &mut to_keyed_account,
            &clock,
            &StakeHistory::default()
        ),
        Err(InstructionError::InsufficientFunds)
    );

    // Try to withdraw all lamports
    assert_eq!(
        stake_keyed_account.withdraw(
            total_lamports,
            &mut to_keyed_account,
            &clock,
            &StakeHistory::default()
        ),
        Ok(())
    );
    assert_eq!(stake_keyed_account.account.lamports, 0);
}

#[test]
fn test_withdraw_stake_before_warmup() {
    let stake_pubkey = Pubkey::new(41, 0, 0, 0);
    let total_lamports = 100;
    let stake_lamports = 42;
    let stake_account = Account::new(total_lamports, STAKE_STATE_SPACE);

    let clock = Clock::default();
    let mut future = Clock::default();
    future.epoch += 16;

    let to = Pubkey::new(42, 0, 0, 0);
    let to_account = Account::new(1, 0);
    let mut to_keyed_account = KeyedAccount::new(&to, false, to_account);

    let mut stake_keyed_account = KeyedAccount::new(&stake_pubkey, true, stake_account);

    // Stake some lamports (available lamports for withdrawals will reduce)
    let vote_pubkey = Pubkey::new(43, 0, 0, 0);
    let mut vote_account = create_vote_account(0, 100);
    VoteState::default().to(&mut vote_account);
    let vote_keyed_account = KeyedAccount::new(&vote_pubkey, false, vote_account);
    assert_eq!(
        stake_keyed_account.delegate_stake(
            &vote_keyed_account,
            stake_lamports,
            &future,
            &Config::default()
        ),
        Ok(())
    );

    let stake_history = create_stake_history_from_stakes(
        None,
        0..future.epoch,
        &[StakeState::stake_from(&stake_keyed_account.account).unwrap()],
    );

    // Try to withdraw stake
    assert_eq!(
        stake_keyed_account.withdraw(
            total_lamports - stake_lamports + 1,
            &mut to_keyed_account,
            &clock,
            &stake_history
        ),
        Err(InstructionError::InsufficientFunds)
    );
}

#[test]
fn test_withdraw_stake_invalid_state() {
    let stake_pubkey = Pubkey::new(51, 0, 0, 0);
    let total_lamports = 100;
    let mut stake_account = Account::new(total_lamports, STAKE_STATE_SPACE);

    let clock = Clock::default();

    let to = Pubkey::new(52, 0, 0, 0);
    let to_account = Account::new(1, 0);
    let mut to_keyed_account = KeyedAccount::new(&to, false, to_account);

    let stake_state = StakeState::RewardsPool;
    stake_account.set_state(&stake_state);
    let mut stake_keyed_account = KeyedAccount::new(&stake_pubkey, true, stake_account);

    assert_eq!(
        stake_keyed_account.withdraw(
            total_lamports,
            &mut to_keyed_account,
            &clock,
            &StakeHistory::default()
        ),
        Err(InstructionError::InvalidAccountData)
    );
}

#[test]
fn test_stake_state_calculate_rewards() {
    let mut vote_state = VoteState::default();
    // assume stake.stake() is right
    // bootstrap means fully-vested stake at epoch 0
    let mut stake = Stake::new_bootstrap(1, &Pubkey::default(), &vote_state);

    // this one can't collect now, credits_observed == vote_state.credits()
    assert_eq!(
        None,
        stake.calculate_rewards(&PointValue::from_integer(1_000_000_000), &vote_state, None)
    );

    // put 2 credits in at epoch 0
    vote_state.increment_credits(0);
    vote_state.increment_credits(0);

    // this one can't collect now, no epoch credits have been saved off
    //   even though point value is huuge
    assert_eq!(
        None,
        stake.calculate_rewards(&PointValue::from_integer(1_000_000_000_000), &vote_state, None)
    );

    // put 1 credit in epoch 1, pushes the 2 above into a redeemable state
    vote_state.increment_credits(1);

    // this one should be able to collect exactly 2
    assert_eq!(
        Some((0, stake.stake * 2, 2)),
        stake.calculate_rewards(&PointValue::from_integer(1), &vote_state, None)
    );

    stake.credits_observed = 1;
    // this one should be able to collect exactly 1 (only observed one)
    assert_eq!(
        Some((0, stake.stake * 1, 2)),
        stake.calculate_rewards(&PointValue::from_integer(1), &vote_state, None)
    );

    stake.credits_observed = 2;
    // this one should be able to collect none because credits_observed >= credits in a
    //  redeemable state (the 2 credits in epoch 0)
    assert_eq!(
        None,
        stake.calculate_rewards(&PointValue::from_integer(1), &vote_state, None)
    );

    // put 1 credit in epoch 2, pushes the 1 for epoch 1 to redeemable
    vote_state.increment_credits(2);
    // this one should be able to collect 1 now, one credit by a stake of 1
    assert_eq!(
        Some((0, stake.stake * 1, 3)),
        stake.calculate_rewards(&PointValue::from_integer(1), &vote_state, None)
    );

    stake.credits_observed = 0;
    // this one should be able to collect everything from t=0 a warmed up stake of 2
    // (2 credits at stake of 1) + (1 credit at a stake of 2)
    assert_eq!(
        Some((0, stake.stake * 1 + stake.stake * 2, 3)),
        stake.calculate_rewards(&PointValue::from_integer(1), &vote_state, None)
    );

    // same as above, but is a really small commission out of 32 bits,
    //  verify that None comes back on small redemptions where no one gets paid
    vote_state.commission = 1;
    assert_eq!(
        None, // would be Some((0, 2 * 1 + 1 * 2, 3)),
        stake.calculate_rewards(&PointValue::from_integer(1), &vote_state, None)
    );
    vote_state.commission = u8::MAX - 1;
    assert_eq!(
        None, // would be Some((0, 2 * 1 + 1 * 2, 3)),
        stake.calculate_rewards(&PointValue::from_integer(1), &vote_state, None)
    );
}

#[test]
fn test_stake_redeem_vote_credits() {
    let clock = Clock::default();
    let mut rewards = Rewards::default();
    rewards.validator_point_value = PointValue::from_integer(100);

    let rewards_pool_pubkey = Pubkey::new(61, 0, 0, 0);
    let rewards_pool_account = Account::new_data(u64::MAX, &StakeState::RewardsPool);
    let mut rewards_pool_keyed_account =
        KeyedAccount::new(&rewards_pool_pubkey, false, rewards_pool_account);

    let pubkey = Pubkey::default();
    let stake_lamports = 100;
    let stake_account = Account::new(stake_lamports, STAKE_STATE_SPACE);
    let mut stake_keyed_account = KeyedAccount::new(&pubkey, true, stake_account);

    let vote_pubkey = Pubkey::new(62, 0, 0, 0);
    let vote_account = create_vote_account(0, 100);
    let mut vote_keyed_account = KeyedAccount::new(&vote_pubkey, false, vote_account);

    // not delegated yet, deserialization fails
    assert_eq!(
        stake_keyed_account.redeem_vote_credits(
            &mut vote_keyed_account,
            &mut rewards_pool_keyed_account,
            &rewards,
            &StakeHistory::default(),
        ),
        Err(InstructionError::InvalidAccountData)
    );

    // delegate the stake
    assert!(stake_keyed_account
        .delegate_stake(&vote_keyed_account, stake_lamports, &clock, &Config::default())
        .is_ok());

    let stake_history = create_stake_history_from_stakes(
        Some(100),
        0..10,
        &[StakeState::stake_from(&stake_keyed_account.account).unwrap()],
    );

    // no credits to claim
    assert_eq!(
        stake_keyed_account.redeem_vote_credits(
            &mut vote_keyed_account,
            &mut rewards_pool_keyed_account,
            &rewards,
            &stake_history,
        ),
        Err(InstructionError::CustomError(1))
    );

    // in this call, we've swapped rewards and vote, deserialization of rewards_pool fails
    assert_eq!(
        stake_keyed_account.redeem_vote_credits(
            &mut rewards_pool_keyed_account,
            &mut vote_keyed_account,
            &rewards,
            &StakeHistory::default(),
        ),
        Err(InstructionError::InvalidAccountData)
    );

    let mut vote_account = create_vote_account(0, 100);

    let mut vote_state = VoteState::from(&vote_account).unwrap();
    // put in some credits in epoch 1 for which we should have a non-zero stake
    for _i in 0..100 {
        vote_state.increment_credits(1);
    }
    vote_state.increment_credits(2);

    vote_state.to(&mut vote_account);
    let mut vote_keyed_account = KeyedAccount::new(&vote_pubkey, false, vote_account);

    // some credits to claim, but rewards pool empty (shouldn't ever happen)
    rewards_pool_keyed_account.account.lamports = 1;
    assert_eq!(
        stake_keyed_account.redeem_vote_credits(
            &mut vote_keyed_account,
            &mut rewards_pool_keyed_account,
            &rewards,
            &StakeHistory::default(),
        ),
        Err(InstructionError::UnbalancedInstruction)
    );
    rewards_pool_keyed_account.account.lamports = u64::MAX;

    // finally! some credits to claim
    assert_eq!(
        stake_keyed_account.redeem_vote_credits(
            &mut vote_keyed_account,
            &mut rewards_pool_keyed_account,
            &rewards,
            &stake_history,
        ),
        Ok(())
    );

    let wrong_vote_pubkey = Pubkey::new(63, 0, 0, 0);
    let mut wrong_vote_keyed_account = KeyedAccount::new(
        &wrong_vote_pubkey,
        false,
        vote_keyed_account.account.clone(),
    );

    // wrong voter_pubkey...
    assert_eq!(
        stake_keyed_account.redeem_vote_credits(
            &mut wrong_vote_keyed_account,
            &mut rewards_pool_keyed_account,
            &rewards,
            &stake_history,
        ),
        Err(InstructionError::InvalidArgument)
    );
}

#[test]
fn test_create_account_bootstrap() {
    let voter_pubkey = Pubkey::new(71, 0, 0, 0);
    let vote_account = create_vote_account(0, 100);

    let stake_account = create_account(&voter_pubkey, &vote_account, 5_000);
    assert_eq!(stake_account.lamports, 5_000);

    let stake = StakeState::stake_from(&stake_account).unwrap();
    assert_eq!(stake.stake, 5_000);
    assert_eq!(stake.voter_pubkey, voter_pubkey);
    assert_eq!(stake.activation_epoch, u64::MAX);
    assert!(stake.is_bootstrap());
    // a bootstrap stake is effective at full amount at any epoch
    assert_eq!(stake.stake(7, None), 5_000);
}
