//! Delegated-stake accounting engine.
//!
//! Tracks validator stake over time: the lifecycle of stake accounts, the
//! epoch-indexed warmup/cooldown schedule that determines how much stake is
//! effective in each epoch, and the reward-redemption arithmetic that turns
//! observed voting credits into lamport payouts.
//!
//! All rate arithmetic is exact rational arithmetic over unsigned integers,
//! so every result is deterministic and fully specified.

pub mod account;
pub mod codec;
pub mod config;
pub mod math;
pub mod ops;
pub mod history;
pub mod pubkey;
pub mod rewards;
pub mod stake;
pub mod state;
pub mod sysvar;
pub mod vote;

pub use account::Account;
pub use account::InstructionError;
pub use account::KeyedAccount;
pub use config::Config;
pub use config::Rate;
pub use history::StakeHistory;
pub use history::StakeHistoryEntry;
pub use ops::create_account;
pub use ops::new_stake_history_entry;
pub use pubkey::Pubkey;
pub use stake::Stake;
pub use state::StakeState;
pub use sysvar::Clock;
pub use sysvar::PointValue;
pub use sysvar::Rewards;
pub use vote::VoteState;
