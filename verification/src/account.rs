//! Accounts as the engine sees them: a lamport balance, a data blob, and
//! the signer flag the runtime verified.

use vstd::prelude::*;
use crate::codec::deserialize_stake_state;
use crate::codec::serialize_stake_state;
use crate::codec::spec_deserialize_stake_state;
use crate::codec::spec_serialize_stake_state;
use crate::pubkey::Pubkey;
use crate::stake::Stake;
use crate::state::StakeState;

verus! {

/// Typed failures surfaced to the caller; a failed operation leaves every
/// account exactly as it was.
#[derive(Clone, Copy, Debug, PartialEq, Eq, Structural)]
pub enum InstructionError {
    /// The operation needs the account's signature and it was not given.
    MissingRequiredSignature,
    /// The balance cannot cover the request.
    InsufficientFunds,
    /// The account's data does not hold the state the operation needs.
    InvalidAccountData,
    /// An argument does not refer to the expected account.
    InvalidArgument,
    /// Moving the lamports would not balance the instruction.
    UnbalancedInstruction,
    /// An operation-specific failure; redemption uses code 1 for "nothing
    /// to collect yet".
    CustomError(u32),
}

/// A stored account: a balance and a data blob.
#[derive(Clone, Debug, PartialEq, Eq)]
pub struct Account {
    pub lamports: u64,
    pub data: Vec<u8>,
}

impl Account {
    /// An account with a zeroed data blob of `space` bytes, which parses as
    /// `Uninitialized` when `space` covers the variant tag.
    pub fn new(lamports: u64, space: usize) -> (r: Account)
        ensures
            r.lamports == lamports,
            r.data@ == Seq::new(space as nat, |i: int| 0u8),
    {
        let mut data: Vec<u8> = Vec::new();
        let mut i: usize = 0;
        while i < space
            invariant
                0 <= i <= space,
                data@ == Seq::new(i as nat, |k: int| 0u8),
            decreases space - i,
        {
            data.push(0);
            proof {
                assert(data@ =~= Seq::new(i as nat + 1, |k: int| 0u8));
            }
            i = i + 1;
        }
        Account { lamports, data }
    }

    /// An account whose data is the serialized `state`.
    pub fn new_data(lamports: u64, state: &StakeState) -> (r: Account)
        ensures
            r.lamports == lamports,
            r.data@ == spec_serialize_stake_state(*state),
    {
        Account { lamports, data: serialize_stake_state(state) }
    }

    /// The stake state the data blob holds.
    pub fn state(&self) -> (r: Result<StakeState, InstructionError>)
        ensures
            r == match spec_deserialize_stake_state(self.data@) {
                Some(s) => Ok::<StakeState, InstructionError>(s),
                None => Err::<StakeState, InstructionError>(InstructionError::InvalidAccountData),
            },
    {
        match deserialize_stake_state(&self.data) {
            Some(s) => Ok(s),
            None => Err(InstructionError::InvalidAccountData),
        }
    }

    /// Replaces the data blob with the serialized `state`.
    pub fn set_state(&mut self, state: &StakeState)
        ensures
            final(self).lamports == old(self).lamports,
            final(self).data@ == spec_serialize_stake_state(*state),
    {
        self.data = serialize_stake_state(state);
    }
}

impl StakeState {
    /// The state an account holds, if its data parses.
    pub fn from(account: &Account) -> (r: Option<StakeState>)
        ensures
            r == spec_deserialize_stake_state(account.data@),
    {
        match account.state() {
            Ok(s) => Some(s),
            Err(_) => None,
        }
    }

    /// The delegation an account holds, if any.
    pub fn stake_from(account: &Account) -> (r: Option<Stake>)
        ensures
            r == match spec_deserialize_stake_state(account.data@) {
                Some(StakeState::Stake(s)) => Some(s),
                _ => None::<Stake>,
            },
    {
        match StakeState::from(account) {
            Some(state) => state.stake(),
            None => None,
        }
    }
}

/// An account handle as an operation receives it: the account's key, whether
/// its owner signed the transaction, and the account itself.
#[derive(Clone, Debug, PartialEq, Eq)]
pub struct KeyedAccount {
    pub key: Pubkey,
    pub is_signer: bool,
    pub account: Account,
}

impl KeyedAccount {
    /// Wraps an account under its key.
    pub fn new(key: &Pubkey, is_signer: bool, account: Account) -> (r: KeyedAccount)
        ensures
            r.key == *key,
            r.is_signer == is_signer,
            r.account == account,
    {
        KeyedAccount { key: *key, is_signer, account }
    }

    /// The key, only when its owner signed.
    pub fn signer_key(&self) -> (r: Option<&Pubkey>)
        ensures
            r is Some <==> self.is_signer,
            r is Some ==> *r->Some_0 == self.key,
    {
        if self.is_signer {
            Some(&self.key)
        } else {
            None
        }
    }

    /// The key, regardless of signing.
    pub fn unsigned_key(&self) -> (r: &Pubkey)
        ensures
            *r == self.key,
    {
        &self.key
    }

    /// The stake state the wrapped account holds.
    pub fn state(&self) -> (r: Result<StakeState, InstructionError>)
        ensures
            r == match spec_deserialize_stake_state(self.account.data@) {
                Some(s) => Ok::<StakeState, InstructionError>(s),
                None => Err::<StakeState, InstructionError>(InstructionError::InvalidAccountData),
            },
    {
        self.account.state()
    }

    /// Replaces the wrapped account's data with the serialized `state`.
    pub fn set_state(&mut self, state: &StakeState)
        ensures
            final(self).key == old(self).key,
            final(self).is_signer == old(self).is_signer,
            final(self).account.lamports == old(self).account.lamports,
            final(self).account.data@ == spec_serialize_stake_state(*state),
    {
        self.account.set_state(state);
    }
}

} // verus!
