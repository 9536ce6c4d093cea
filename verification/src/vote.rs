//! The voter interface the engine consumes: lifetime credits, per-epoch
//! credit history, and the commission that splits rewards.

use vstd::prelude::*;
use crate::account::Account;
use crate::codec::deserialize_vote_state;
use crate::codec::serialize_vote_state;
use crate::codec::spec_serialize_vote;
use crate::codec::vote_blob_entries;
use crate::codec::vote_blob_ok;

verus! {

/// The slice of a vote account's state that reward redemption reads.
///
/// `epoch_credits` records, per epoch and in ascending epoch order,
/// `(epoch, credits_at_end, credits_at_start)` of the voter's lifetime
/// credit counter; the last entry is the epoch still in progress. Entries
/// chain: one entry's end count is the next entry's start count.
#[derive(Clone, Debug, PartialEq, Eq)]
pub struct VoteState {
    /// Voter's share of gross rewards, in 255ths: 0 pays everything to the
    /// staker, 255 everything to the voter.
    pub commission: u8,
    /// `(epoch, credits, prev_credits)` per epoch, ascending.
    pub epoch_credits: Vec<(u64, u64, u64)>,
}

/// Lifetime credit count of a credit history: the running counter at the
/// newest entry.
pub open spec fn credits_of(ec: Seq<(u64, u64, u64)>) -> u64 {
    if ec.len() == 0 {
        0u64
    } else {
        ec.last().1
    }
}

/// Well-formed credit history: within an entry the counter does not run
/// backwards, entries chain, and epochs strictly ascend.
pub open spec fn wf_epoch_credits(ec: Seq<(u64, u64, u64)>) -> bool {
    &&& forall|i: int| 0 <= i < ec.len() ==> #[trigger] ec[i].2 <= ec[i].1
    &&& forall|i: int| 0 <= i < ec.len() - 1 ==> #[trigger] ec[i].1 == ec[i + 1].2
    &&& forall|i: int| 0 <= i < ec.len() - 1 ==> #[trigger] ec[i].0 < ec[i + 1].0
}

impl VoteState {
    /// The credit history is well formed.
    pub open spec fn wf(self) -> bool {
        wf_epoch_credits(self.epoch_credits@)
    }

    /// Lifetime credit count: the running counter at the newest entry.
    pub open spec fn spec_credits(self) -> u64 {
        credits_of(self.epoch_credits@)
    }

    /// Builds a voter with no credits and the given commission.
    pub fn new(commission: u8) -> (r: VoteState)
        ensures
            r.commission == commission,
            r.epoch_credits@ == Seq::<(u64, u64, u64)>::empty(),
            r.wf(),
            r.spec_credits() == 0,
    {
        VoteState { commission, epoch_credits: Vec::new() }
    }

    /// Lifetime credit count.
    pub fn credits(&self) -> (r: u64)
        ensures
            r == self.spec_credits(),
    {
        if self.epoch_credits.len() == 0 {
            0
        } else {
            self.epoch_credits[self.epoch_credits.len() - 1].1
        }
    }

    /// Awards one credit in `epoch`, opening a new history entry when the
    /// epoch changes.
    pub fn increment_credits(&mut self, epoch: u64)
        requires
            old(self).wf(),
            old(self).spec_credits() < u64::MAX,
            old(self).epoch_credits@.len() > 0 ==> epoch >= old(self).epoch_credits@.last().0,
        ensures
            final(self).wf(),
            final(self).commission == old(self).commission,
            final(self).spec_credits() == old(self).spec_credits() + 1,
            ({
                let ec = old(self).epoch_credits@;
                let c = old(self).spec_credits();
                if ec.len() == 0 || ec.last().0 != epoch {
                    final(self).epoch_credits@ == ec.push((epoch, (c + 1) as u64, c))
                } else {
                    final(self).epoch_credits@ == ec.update(
                        ec.len() - 1,
                        (epoch, (ec.last().1 + 1) as u64, ec.last().2),
                    )
                }
            }),
    {
        let n = self.epoch_credits.len();
        if n == 0 || self.epoch_credits[n - 1].0 != epoch {
            let c = self.credits();
            self.epoch_credits.push((epoch, c + 1, c));
            proof {
                let ec = self.epoch_credits@;
                assert forall|i: int| 0 <= i < ec.len() - 1 implies #[trigger] ec[i].1 == ec[i
                    + 1].2 by {
                    if i < ec.len() - 2 {
                        assert(old(self).epoch_credits@[i].1 == old(self).epoch_credits@[i + 1].2);
                    }
                }
            }
        } else {
            let (e, c, p) = self.epoch_credits[n - 1];
            self.epoch_credits[n - 1] = (e, c + 1, p);
            proof {
                let ec = self.epoch_credits@;
                let old_ec = old(self).epoch_credits@;
                assert forall|i: int| 0 <= i < ec.len() - 1 implies #[trigger] ec[i].1 == ec[i
                    + 1].2 by {
                    assert(old_ec[i].1 == old_ec[i + 1].2);
                }
            }
        }
    }
}

impl VoteState {
    /// The voter state an account holds, if its data parses to a
    /// well-formed history.
    pub fn from(account: &Account) -> (r: Option<VoteState>)
        ensures
            r is Some <==> vote_blob_ok(account.data@),
            r is Some ==> r->Some_0.commission == account.data@[0],
            r is Some ==> r->Some_0.epoch_credits@ == vote_blob_entries(account.data@),
            r is Some ==> r->Some_0.wf(),
    {
        deserialize_vote_state(&account.data)
    }

    /// Writes this voter state into the account's data blob.
    pub fn to(&self, account: &mut Account)
        ensures
            final(account).lamports == old(account).lamports,
            final(account).data@ == spec_serialize_vote(self.commission, self.epoch_credits@),
    {
        account.data = serialize_vote_state(self);
    }
}

impl Default for VoteState {
    /// A voter with no credits and zero commission.
    fn default() -> (r: VoteState)
        ensures
            r.commission == 0u8,
            r.epoch_credits@ == Seq::<(u64, u64, u64)>::empty(),
            r.wf(),
            r.spec_credits() == 0,
    {
        VoteState { commission: 0, epoch_credits: Vec::new() }
    }
}

} // verus!
