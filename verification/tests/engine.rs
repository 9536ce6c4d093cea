use stake_api::account::Account;
use stake_api::account::InstructionError;
use stake_api::account::KeyedAccount;
use stake_api::codec::deserialize_stake_state;
use stake_api::codec::serialize_stake_state;
use stake_api::config::Config;
use stake_api::config::Rate;
use stake_api::history::StakeHistory;
use stake_api::history::StakeHistoryEntry;
use stake_api::ops::new_stake_history_entry;
use stake_api::pubkey::Pubkey;
use stake_api::stake::Stake;
use stake_api::state::StakeState;
use stake_api::sysvar::Clock;
use stake_api::vote::VoteState;

fn vote_account_with(vote_state: &VoteState, lamports: u64) -> Account {
    let mut account = Account::new(lamports, 0);
    vote_state.to(&mut account);
    account
}

#[test]
fn test_serialize_round_trip_all_variants() {
    let states = vec![
        StakeState::Uninitialized,
        StakeState::RewardsPool,
        StakeState::Stake(Stake {
            voter_pubkey: Pubkey::new(1, 2, 3, 4),
            credits_observed: 9,
            stake: 77,
            activation_epoch: 3,
            deactivation_epoch: u64::MAX,
            config: Config {
                warmup_rate: Rate {
                    numerator: 3,
                    denominator: 1000,
                },
                cooldown_rate: Rate {
                    numerator: 1,
                    denominator: 7,
                },
                slash_penalty: 200,
            },
        }),
    ];
    for state in states {
        let bytes = serialize_stake_state(&state);
        assert_eq!(deserialize_stake_state(&bytes), Some(state));
    }
}

#[test]
fn test_deserialize_rejects_garbage() {
    // too short for a tag
    assert_eq!(deserialize_stake_state(&vec![1, 0, 0]), None);
    // unknown tag
    assert_eq!(deserialize_stake_state(&vec![9, 0, 0, 0]), None);
    // delegation tag with a truncated body
    assert_eq!(deserialize_stake_state(&vec![1, 0, 0, 0, 5, 5]), None);
    // a zero rate denominator is not a delegation the engine writes
    let mut bytes = serialize_stake_state(&StakeState::Stake(Stake::default()));
    for i in 76..84 {
        bytes[i] = 0;
    }
    assert_eq!(deserialize_stake_state(&bytes), None);
}

#[test]
fn test_vote_state_round_trip() {
    let mut vote_state = VoteState::new(42);
    vote_state.increment_credits(0);
    vote_state.increment_credits(0);
    vote_state.increment_credits(5);

    let account = vote_account_with(&vote_state, 10);
    let parsed = VoteState::from(&account).unwrap();
    assert_eq!(parsed.commission, 42);
    assert_eq!(parsed.credits(), vote_state.credits());
    assert_eq!(parsed.epoch_credits, vote_state.epoch_credits);
}

#[test]
fn test_vote_state_credits_bookkeeping() {
    let mut vote_state = VoteState::default();
    assert_eq!(vote_state.credits(), 0);
    vote_state.increment_credits(0);
    vote_state.increment_credits(0);
    assert_eq!(vote_state.credits(), 2);
    assert_eq!(vote_state.epoch_credits, vec![(0, 2, 0)]);
    vote_state.increment_credits(1);
    assert_eq!(vote_state.credits(), 3);
    assert_eq!(vote_state.epoch_credits, vec![(0, 2, 0), (1, 3, 2)]);
}

#[test]
fn test_history_add_get_overwrite() {
    let mut history = StakeHistory::default();
    assert_eq!(history.get(0), None);

    let entry1 = StakeHistoryEntry {
        effective: 10,
        activating: 5,
        deactivating: 0,
    };
    let entry2 = StakeHistoryEntry {
        effective: 20,
        activating: 0,
        deactivating: 3,
    };
    history.add(4, entry1);
    history.add(2, entry1);
    history.add(9, entry2);
    assert_eq!(history.get(4), Some(entry1));
    assert_eq!(history.get(2), Some(entry1));
    assert_eq!(history.get(9), Some(entry2));
    assert_eq!(history.get(3), None);

    // overwrite
    history.add(4, entry2);
    assert_eq!(history.get(4), Some(entry2));
}

#[test]
fn test_warmup_sum_never_exceeds_stake() {
    // effective + activating stays at or under the committed amount while
    // the stake has not reached deactivation
    let stake = Stake {
        stake: 1_000,
        activation_epoch: 0,
        deactivation_epoch: 50,
        ..Stake::default()
    };
    let mut history = StakeHistory::default();
    history.add(
        0,
        StakeHistoryEntry {
            effective: 1_000,
            activating: 1_000,
            deactivating: 0,
        },
    );
    for epoch in 0..50 {
        let (effective, activating, deactivating) =
            stake.stake_activating_and_deactivating(epoch, Some(&history));
        assert!(effective + activating <= stake.stake);
        assert_eq!(deactivating, 0);
        assert!(effective + activating + deactivating <= 2 * stake.stake);
    }
}

#[test]
fn test_warmup_monotone_growth_to_full() {
    // a single stake against a complete self-consistent history warms
    // monotonically up to its full amount
    let stakes = [Stake {
        stake: 1_000,
        activation_epoch: 0,
        deactivation_epoch: u64::MAX,
        ..Stake::default()
    }];
    let bootstrap = vec![
        Stake {
            stake: 1_000,
            activation_epoch: u64::MAX,
            ..Stake::default()
        },
        stakes[0],
    ];
    let mut history = StakeHistory::default();
    for epoch in 0..400 {
        let entry = new_stake_history_entry(epoch, &bootstrap, Some(&history));
        history.add(epoch, entry);
    }

    let mut prev = stakes[0].stake(0, Some(&history));
    assert_eq!(prev, 0);
    for epoch in 1..400 {
        let effective = stakes[0].stake(epoch, Some(&history));
        assert!(effective >= prev);
        assert!(effective <= stakes[0].stake);
        prev = effective;
    }
    // at a quarter percent per epoch, doubling the pool's effective amount
    // takes roughly 400 * ln 2, under 300 epochs
    assert_eq!(stakes[0].stake(399, Some(&history)), stakes[0].stake);
}

#[test]
fn test_warmup_with_rate_partial_entry() {
    // history has the activating amount at epoch 0 but no entry for epoch 1,
    // so at epoch 2 exactly one increment has vested
    let stake = Stake {
        stake: 1_000,
        activation_epoch: 0,
        deactivation_epoch: 5,
        ..Stake::default()
    };
    let mut history = StakeHistory::default();
    history.add(
        0,
        StakeHistoryEntry {
            effective: 1_000,
            activating: 1_000,
            deactivating: 0,
        },
    );
    let increment =
        1_000 * stake.config.warmup_rate.numerator / stake.config.warmup_rate.denominator;
    assert_eq!(increment, 2);
    assert_eq!(
        stake.stake_activating_and_deactivating(2, Some(&history)),
        (increment, 1_000 - increment, 0)
    );
}

#[test]
fn test_history_entry_is_pointwise_sum() {
    let stakes = vec![
        Stake {
            stake: 500,
            activation_epoch: u64::MAX,
            ..Stake::default()
        },
        Stake {
            stake: 300,
            activation_epoch: 1,
            deactivation_epoch: u64::MAX,
            ..Stake::default()
        },
        Stake {
            stake: 200,
            activation_epoch: 0,
            deactivation_epoch: 1,
            ..Stake::default()
        },
    ];
    let history = StakeHistory::default();
    let epoch = 1;
    let entry = new_stake_history_entry(epoch, &stakes, Some(&history));
    let mut effective = 0;
    let mut activating = 0;
    let mut deactivating = 0;
    for stake in &stakes {
        let (e, a, d) = stake.stake_activating_and_deactivating(epoch, Some(&history));
        effective += e;
        activating += a;
        deactivating += d;
    }
    assert_eq!(entry.effective, effective);
    assert_eq!(entry.activating, activating);
    assert_eq!(entry.deactivating, deactivating);
}

#[test]
fn test_withdraw_keeps_locked_amount() {
    // after a successful withdraw the account still covers what is locked
    let stake_pubkey = Pubkey::new(81, 0, 0, 0);
    let stake_lamports = 42;
    let total_lamports = 100;
    let stake_account = Account::new(total_lamports, 101);
    let mut stake_keyed_account = KeyedAccount::new(&stake_pubkey, true, stake_account);

    let vote_pubkey = Pubkey::new(82, 0, 0, 0);
    let vote_account = vote_account_with(&VoteState::default(), 1);
    let vote_keyed_account = KeyedAccount::new(&vote_pubkey, false, vote_account);
    let clock = Clock::default();
    stake_keyed_account
        .delegate_stake(&vote_keyed_account, stake_lamports, &clock, &Config::default())
        .unwrap();

    let to = Pubkey::new(83, 0, 0, 0);
    let mut to_keyed_account = KeyedAccount::new(&to, false, Account::new(0, 0));
    assert_eq!(
        stake_keyed_account.withdraw(
            total_lamports - stake_lamports,
            &mut to_keyed_account,
            &clock,
            &StakeHistory::default()
        ),
        Ok(())
    );
    // everything still committed stays behind
    assert!(stake_keyed_account.account.lamports >= stake_lamports);
    assert_eq!(to_keyed_account.account.lamports, total_lamports - stake_lamports);
}

#[test]
fn test_delegate_error_leaves_state_unchanged() {
    let stake_pubkey = Pubkey::new(91, 0, 0, 0);
    let stake_account = Account::new(42, 101);
    let mut stake_keyed_account = KeyedAccount::new(&stake_pubkey, false, stake_account);

    let vote_pubkey = Pubkey::new(92, 0, 0, 0);
    let vote_account = vote_account_with(&VoteState::default(), 1);
    let vote_keyed_account = KeyedAccount::new(&vote_pubkey, false, vote_account);
    let clock = Clock { epoch: 1 };

    let before = stake_keyed_account.clone();
    assert_eq!(
        stake_keyed_account.delegate_stake(&vote_keyed_account, 0, &clock, &Config::default()),
        Err(InstructionError::MissingRequiredSignature)
    );
    assert_eq!(stake_keyed_account, before);
}
