//! The persisted byte form of account data: a little-endian tagged-union
//! format with a fixed size per variant.

use vstd::prelude::*;
use vstd::bytes::lemma_auto_spec_u32_to_from_le_bytes;
use vstd::bytes::lemma_auto_spec_u64_to_from_le_bytes;
use vstd::bytes::spec_u32_from_le_bytes;
use vstd::bytes::spec_u32_to_le_bytes;
use vstd::bytes::spec_u64_from_le_bytes;
use vstd::bytes::spec_u64_to_le_bytes;
use vstd::bytes::u32_from_le_bytes;
use vstd::bytes::u32_to_le_bytes;
use vstd::bytes::u64_from_le_bytes;
use vstd::bytes::u64_to_le_bytes;
use vstd::slice::slice_subrange;
use vstd::arithmetic::div_mod::lemma_fundamental_div_mod;
use vstd::arithmetic::div_mod::lemma_mod_bound;
use crate::config::Config;
use crate::config::Rate;
use crate::pubkey::Pubkey;
use crate::stake::Stake;
use crate::state::StakeState;
use crate::vote::wf_epoch_credits;
use crate::vote::VoteState;

verus! {

/// Serialized size of the `Stake` variant; the other variants are the
/// four-byte tag alone.
pub const STAKE_STATE_SIZE: u64 = 101;

/// The eight bytes at `off`, read as a little-endian word.
pub open spec fn read_u64(b: Seq<u8>, off: int) -> u64 {
    spec_u64_from_le_bytes(b.subrange(off, off + 8))
}

/// Reads the little-endian word at `off`.
fn read_u64_at(data: &Vec<u8>, off: usize) -> (r: u64)
    requires
        off + 8 <= data@.len(),
    ensures
        r == read_u64(data@, off as int),
{
    let _len = data.len();
    u64_from_le_bytes(slice_subrange(data.as_slice(), off, off + 8))
}

/// Appends the little-endian bytes of `x`.
fn push_u64(out: &mut Vec<u8>, x: u64)
    ensures
        final(out)@ == old(out)@ + spec_u64_to_le_bytes(x),
{
    let mut piece = u64_to_le_bytes(x);
    out.append(&mut piece);
}

/// A state the engine will persist: the rate config of a delegation is
/// well formed.
pub open spec fn stake_state_valid(s: StakeState) -> bool {
    match s {
        StakeState::Stake(st) => st.config.wf(),
        _ => true,
    }
}

/// Byte form of the `Stake` variant's body.
pub open spec fn spec_serialize_stake(st: Stake) -> Seq<u8> {
    spec_u64_to_le_bytes(st.voter_pubkey.w0) + spec_u64_to_le_bytes(st.voter_pubkey.w1)
        + spec_u64_to_le_bytes(st.voter_pubkey.w2) + spec_u64_to_le_bytes(st.voter_pubkey.w3)
        + spec_u64_to_le_bytes(st.credits_observed) + spec_u64_to_le_bytes(st.stake)
        + spec_u64_to_le_bytes(st.activation_epoch) + spec_u64_to_le_bytes(st.deactivation_epoch)
        + spec_u64_to_le_bytes(st.config.warmup_rate.numerator) + spec_u64_to_le_bytes(
        st.config.warmup_rate.denominator,
    ) + spec_u64_to_le_bytes(st.config.cooldown_rate.numerator) + spec_u64_to_le_bytes(
        st.config.cooldown_rate.denominator,
    ) + seq![st.config.slash_penalty]
}

/// Byte form of a stake state: a four-byte variant tag, then the body.
pub open spec fn spec_serialize_stake_state(s: StakeState) -> Seq<u8> {
    match s {
        StakeState::Uninitialized => spec_u32_to_le_bytes(0u32),
        StakeState::Stake(st) => spec_u32_to_le_bytes(1u32) + spec_serialize_stake(st),
        StakeState::RewardsPool => spec_u32_to_le_bytes(2u32),
    }
}

/// What a byte blob holds: parsing reads a prefix and ignores what follows,
/// and rejects a delegation whose rate config is malformed.
pub open spec fn spec_deserialize_stake_state(b: Seq<u8>) -> Option<StakeState> {
    if b.len() < 4 {
        None
    } else {
        let tag = spec_u32_from_le_bytes(b.subrange(0, 4));
        if tag == 0 {
            Some(StakeState::Uninitialized)
        } else if tag == 2 {
            Some(StakeState::RewardsPool)
        } else if tag == 1 {
            if b.len() < STAKE_STATE_SIZE {
                None
            } else {
                let st = Stake {
                    voter_pubkey: Pubkey {
                        w0: read_u64(b, 4),
                        w1: read_u64(b, 12),
                        w2: read_u64(b, 20),
                        w3: read_u64(b, 28),
                    },
                    credits_observed: read_u64(b, 36),
                    stake: read_u64(b, 44),
                    activation_epoch: read_u64(b, 52),
                    deactivation_epoch: read_u64(b, 60),
                    config: Config {
                        warmup_rate: Rate {
                            numerator: read_u64(b, 68),
                            denominator: read_u64(b, 76),
                        },
                        cooldown_rate: Rate {
                            numerator: read_u64(b, 84),
                            denominator: read_u64(b, 92),
                        },
                        slash_penalty: b[100],
                    },
                };
                if st.config.wf() {
                    Some(StakeState::Stake(st))
                } else {
                    None
                }
            }
        } else {
            None
        }
    }
}

/// Serializes a stake state.
pub fn serialize_stake_state(s: &StakeState) -> (out: Vec<u8>)
    ensures
        out@ == spec_serialize_stake_state(*s),
    decreases 0int,
{
    match s {
        StakeState::Uninitialized => u32_to_le_bytes(0),
        StakeState::RewardsPool => u32_to_le_bytes(2),
        StakeState::Stake(st) => {
            let mut out = u32_to_le_bytes(1);
            push_u64(&mut out, st.voter_pubkey.w0);
            push_u64(&mut out, st.voter_pubkey.w1);
            push_u64(&mut out, st.voter_pubkey.w2);
            push_u64(&mut out, st.voter_pubkey.w3);
            push_u64(&mut out, st.credits_observed);
            push_u64(&mut out, st.stake);
            push_u64(&mut out, st.activation_epoch);
            push_u64(&mut out, st.deactivation_epoch);
            push_u64(&mut out, st.config.warmup_rate.numerator);
            push_u64(&mut out, st.config.warmup_rate.denominator);
            push_u64(&mut out, st.config.cooldown_rate.numerator);
            push_u64(&mut out, st.config.cooldown_rate.denominator);
            out.push(st.config.slash_penalty);
            proof {
                assert(out@ =~= spec_serialize_stake_state(*s));
            }
            out
        },
    }
}

/// Parses the stake state at the front of `data`.
pub fn deserialize_stake_state(data: &Vec<u8>) -> (r: Option<StakeState>)
    ensures
        r == spec_deserialize_stake_state(data@),
{
    if data.len() < 4 {
        return None;
    }
    let tag = u32_from_le_bytes(slice_subrange(data.as_slice(), 0, 4));
    if tag == 0 {
        Some(StakeState::Uninitialized)
    } else if tag == 2 {
        Some(StakeState::RewardsPool)
    } else if tag == 1 {
        if data.len() < 101 {
            return None;
        }
        let st = Stake {
            voter_pubkey: Pubkey {
                w0: read_u64_at(data, 4),
                w1: read_u64_at(data, 12),
                w2: read_u64_at(data, 20),
                w3: read_u64_at(data, 28),
            },
            credits_observed: read_u64_at(data, 36),
            stake: read_u64_at(data, 44),
            activation_epoch: read_u64_at(data, 52),
            deactivation_epoch: read_u64_at(data, 60),
            config: Config {
                warmup_rate: Rate {
                    numerator: read_u64_at(data, 68),
                    denominator: read_u64_at(data, 76),
                },
                cooldown_rate: Rate {
                    numerator: read_u64_at(data, 84),
                    denominator: read_u64_at(data, 92),
                },
                slash_penalty: data[100],
            },
        };
        let ok = {
            let w = &st.config.warmup_rate;
            let c = &st.config.cooldown_rate;
            1 <= w.denominator && w.denominator <= crate::config::MAX_RATE_DENOMINATOR
                && 1 <= w.numerator && w.numerator <= w.denominator && 1 <= c.denominator
                && c.denominator <= crate::config::MAX_RATE_DENOMINATOR && 1 <= c.numerator
                && c.numerator <= c.denominator
        };
        if ok {
            Some(StakeState::Stake(st))
        } else {
            None
        }
    } else {
        None
    }
}

/// Round-trip law: parsing a serialized state gives the state back, for
/// every variant the engine persists.
pub proof fn lemma_stake_state_round_trip(s: StakeState)
    requires
        stake_state_valid(s),
    ensures
        spec_deserialize_stake_state(spec_serialize_stake_state(s)) == Some(s),
{
    lemma_auto_spec_u32_to_from_le_bytes();
    lemma_auto_spec_u64_to_from_le_bytes();
    let b = spec_serialize_stake_state(s);
    match s {
        StakeState::Uninitialized => {
            assert(b.subrange(0, 4) =~= spec_u32_to_le_bytes(0u32));
        },
        StakeState::RewardsPool => {
            assert(b.subrange(0, 4) =~= spec_u32_to_le_bytes(2u32));
        },
        StakeState::Stake(st) => {
            assert(b.subrange(0, 4) =~= spec_u32_to_le_bytes(1u32));
            assert(b.subrange(4, 12) =~= spec_u64_to_le_bytes(st.voter_pubkey.w0));
            assert(b.subrange(12, 20) =~= spec_u64_to_le_bytes(st.voter_pubkey.w1));
            assert(b.subrange(20, 28) =~= spec_u64_to_le_bytes(st.voter_pubkey.w2));
            assert(b.subrange(28, 36) =~= spec_u64_to_le_bytes(st.voter_pubkey.w3));
            assert(b.subrange(36, 44) =~= spec_u64_to_le_bytes(st.credits_observed));
            assert(b.subrange(44, 52) =~= spec_u64_to_le_bytes(st.stake));
            assert(b.subrange(52, 60) =~= spec_u64_to_le_bytes(st.activation_epoch));
            assert(b.subrange(60, 68) =~= spec_u64_to_le_bytes(st.deactivation_epoch));
            assert(b.subrange(68, 76) =~= spec_u64_to_le_bytes(st.config.warmup_rate.numerator));
            assert(b.subrange(76, 84) =~= spec_u64_to_le_bytes(st.config.warmup_rate.denominator));
            assert(b.subrange(84, 92) =~= spec_u64_to_le_bytes(st.config.cooldown_rate.numerator));
            assert(b.subrange(92, 100) =~= spec_u64_to_le_bytes(
                st.config.cooldown_rate.denominator,
            ));
            assert(b[100] == st.config.slash_penalty);
            let parsed = spec_deserialize_stake_state(b)->Some_0;
            assert(parsed->Stake_0 == st);
        },
    }
}

/// Byte form of a voter's state: the commission byte, the entry count, then
/// each `(epoch, credits, prev_credits)` triple in order.
pub open spec fn spec_serialize_vote(commission: u8, ec: Seq<(u64, u64, u64)>) -> Seq<u8> {
    seq![commission] + spec_u64_to_le_bytes(ec.len() as u64) + vote_entries_bytes(ec)
}

/// Byte form of the credit entries alone.
pub open spec fn vote_entries_bytes(ec: Seq<(u64, u64, u64)>) -> Seq<u8>
    decreases ec.len(),
{
    if ec.len() == 0 {
        Seq::empty()
    } else {
        vote_entries_bytes(ec.drop_last()) + spec_u64_to_le_bytes(ec.last().0)
            + spec_u64_to_le_bytes(ec.last().1) + spec_u64_to_le_bytes(ec.last().2)
    }
}

/// The declared entry count of a vote blob.
pub open spec fn vote_blob_count(b: Seq<u8>) -> int {
    spec_u64_from_le_bytes(b.subrange(1, 9)) as int
}

/// The blob is long enough for its declared entries.
pub open spec fn vote_blob_len_ok(b: Seq<u8>) -> bool {
    b.len() >= 9 && b.len() >= 9 + 24 * vote_blob_count(b)
}

/// The credit entries a vote blob holds.
pub open spec fn vote_blob_entries(b: Seq<u8>) -> Seq<(u64, u64, u64)> {
    Seq::new(
        vote_blob_count(b) as nat,
        |i: int|
            (
                read_u64(b, 9 + 24 * i),
                read_u64(b, 9 + 24 * i + 8),
                read_u64(b, 9 + 24 * i + 16),
            ),
    )
}

/// A parseable vote blob: long enough and carrying a well-formed history.
pub open spec fn vote_blob_ok(b: Seq<u8>) -> bool {
    vote_blob_len_ok(b) && wf_epoch_credits(vote_blob_entries(b))
}

/// The entry bytes are exactly 24 bytes per entry.
proof fn lemma_vote_entries_bytes_len(ec: Seq<(u64, u64, u64)>)
    ensures
        vote_entries_bytes(ec).len() == 24 * ec.len(),
    decreases ec.len(),
{
    lemma_auto_spec_u64_to_from_le_bytes();
    if ec.len() > 0 {
        lemma_vote_entries_bytes_len(ec.drop_last());
    }
}

/// Each entry's three words sit at their 24-byte slot.
proof fn lemma_vote_entries_bytes_index(ec: Seq<(u64, u64, u64)>, i: int)
    requires
        0 <= i < ec.len(),
    ensures
        vote_entries_bytes(ec).subrange(24 * i, 24 * i + 8) == spec_u64_to_le_bytes(ec[i].0),
        vote_entries_bytes(ec).subrange(24 * i + 8, 24 * i + 16) == spec_u64_to_le_bytes(ec[i].1),
        vote_entries_bytes(ec).subrange(24 * i + 16, 24 * i + 24) == spec_u64_to_le_bytes(ec[i].2),
    decreases ec.len(),
{
    lemma_auto_spec_u64_to_from_le_bytes();
    lemma_vote_entries_bytes_len(ec);
    lemma_vote_entries_bytes_len(ec.drop_last());
    if i == ec.len() - 1 {
        assert(vote_entries_bytes(ec).subrange(24 * i, 24 * i + 8) =~= spec_u64_to_le_bytes(
            ec[i].0,
        ));
        assert(vote_entries_bytes(ec).subrange(24 * i + 8, 24 * i + 16) =~= spec_u64_to_le_bytes(
            ec[i].1,
        ));
        assert(vote_entries_bytes(ec).subrange(24 * i + 16, 24 * i + 24) =~= spec_u64_to_le_bytes(
            ec[i].2,
        ));
    } else {
        lemma_vote_entries_bytes_index(ec.drop_last(), i);
        assert(ec.drop_last()[i] == ec[i]);
        assert(vote_entries_bytes(ec).subrange(24 * i, 24 * i + 8) =~= vote_entries_bytes(
            ec.drop_last(),
        ).subrange(24 * i, 24 * i + 8));
        assert(vote_entries_bytes(ec).subrange(24 * i + 8, 24 * i + 16) =~= vote_entries_bytes(
            ec.drop_last(),
        ).subrange(24 * i + 8, 24 * i + 16));
        assert(vote_entries_bytes(ec).subrange(24 * i + 16, 24 * i + 24) =~= vote_entries_bytes(
            ec.drop_last(),
        ).subrange(24 * i + 16, 24 * i + 24));
    }
}

/// Round-trip law for voter state: a serialized well-formed history parses
/// back to exactly the commission and entries it was written from.
pub proof fn lemma_vote_blob_round_trip(commission: u8, ec: Seq<(u64, u64, u64)>)
    requires
        wf_epoch_credits(ec),
        ec.len() <= u64::MAX,
    ensures
        vote_blob_ok(spec_serialize_vote(commission, ec)),
        spec_serialize_vote(commission, ec)[0] == commission,
        vote_blob_entries(spec_serialize_vote(commission, ec)) == ec,
{
    let b = spec_serialize_vote(commission, ec);
    lemma_auto_spec_u64_to_from_le_bytes();
    lemma_vote_entries_bytes_len(ec);
    assert(b.subrange(1, 9) =~= spec_u64_to_le_bytes(ec.len() as u64));
    assert(vote_blob_count(b) == ec.len());
    assert forall|i: int| 0 <= i < ec.len() implies vote_blob_entries(b)[i] == ec[i] by {
        lemma_vote_entries_bytes_index(ec, i);
        assert(b.subrange(9 + 24 * i, 9 + 24 * i + 8) =~= vote_entries_bytes(ec).subrange(
            24 * i,
            24 * i + 8,
        ));
        assert(b.subrange(9 + 24 * i + 8, 9 + 24 * i + 16) =~= vote_entries_bytes(ec).subrange(
            24 * i + 8,
            24 * i + 16,
        ));
        assert(b.subrange(9 + 24 * i + 16, 9 + 24 * i + 24) =~= vote_entries_bytes(ec).subrange(
            24 * i + 16,
            24 * i + 24,
        ));
    }
    assert(vote_blob_entries(b) =~= ec);
}

/// Serializes a voter's state.
pub fn serialize_vote_state(v: &VoteState) -> (out: Vec<u8>)
    ensures
        out@ == spec_serialize_vote(v.commission, v.epoch_credits@),
{
    let mut out: Vec<u8> = Vec::new();
    out.push(v.commission);
    push_u64(&mut out, v.epoch_credits.len() as u64);
    let n = v.epoch_credits.len();
    let mut i: usize = 0;
    proof {
        assert(v.epoch_credits@.take(0) =~= Seq::<(u64, u64, u64)>::empty());
        assert(out@ =~= seq![v.commission] + spec_u64_to_le_bytes(n as u64) + vote_entries_bytes(
            v.epoch_credits@.take(0),
        ));
    }
    while i < n
        invariant
            0 <= i <= n,
            n == v.epoch_credits@.len(),
            out@ == seq![v.commission] + spec_u64_to_le_bytes(n as u64) + vote_entries_bytes(
                v.epoch_credits@.take(i as int),
            ),
        decreases n - i,
    {
        let (e, c, p) = v.epoch_credits[i];
        push_u64(&mut out, e);
        push_u64(&mut out, c);
        push_u64(&mut out, p);
        proof {
            let taken = v.epoch_credits@.take(i as int + 1);
            assert(taken.drop_last() =~= v.epoch_credits@.take(i as int));
            assert(taken.last() == v.epoch_credits@[i as int]);
            assert(out@ =~= seq![v.commission] + spec_u64_to_le_bytes(n as u64)
                + vote_entries_bytes(taken));
        }
        i = i + 1;
    }
    proof {
        assert(v.epoch_credits@.take(n as int) =~= v.epoch_credits@);
    }
    out
}

/// Parses the voter state at the front of `data`, rejecting a blob whose
/// credit history is not well formed.
pub fn deserialize_vote_state(data: &Vec<u8>) -> (r: Option<VoteState>)
    ensures
        r is Some <==> vote_blob_ok(data@),
        r is Some ==> r->Some_0.commission == data@[0],
        r is Some ==> r->Some_0.epoch_credits@ == vote_blob_entries(data@),
        r is Some ==> r->Some_0.wf(),
{
    if data.len() < 9 {
        return None;
    }
    let commission = data[0];
    let n64 = read_u64_at(data, 1);
    let avail = (data.len() - 9) / 24;
    proof {
        lemma_fundamental_div_mod(data@.len() - 9, 24);
        lemma_mod_bound(data@.len() - 9, 24);
    }
    if n64 > avail as u64 {
        // a count the blob cannot hold
        assert(!vote_blob_len_ok(data@));
        return None;
    }
    let n = n64 as usize;
    let mut ec: Vec<(u64, u64, u64)> = Vec::new();
    let mut i: usize = 0;
    proof {
        assert(ec@ =~= vote_blob_entries(data@).take(0));
    }
    while i < n
        invariant
            0 <= i <= n,
            n == vote_blob_count(data@),
            9 + 24 * n <= data@.len(),
            data@.len() <= usize::MAX,
            ec@ == vote_blob_entries(data@).take(i as int),
        decreases n - i,
    {
        let off = 9 + 24 * i;
        let a = read_u64_at(data, off);
        let b = read_u64_at(data, off + 8);
        let c = read_u64_at(data, off + 16);
        ec.push((a, b, c));
        proof {
            assert(ec@ =~= vote_blob_entries(data@).take(i as int + 1));
        }
        i = i + 1;
    }
    proof {
        assert(vote_blob_entries(data@).take(n as int) =~= vote_blob_entries(data@));
    }
    if !check_epoch_credits(&ec) {
        return None;
    }
    Some(VoteState { commission, epoch_credits: ec })
}

/// Checks the well-formedness of a credit history at run time.
fn check_epoch_credits(ec: &Vec<(u64, u64, u64)>) -> (r: bool)
    ensures
        r == wf_epoch_credits(ec@),
{
    let n = ec.len();
    let mut i: usize = 0;
    while i < n
        invariant
            0 <= i <= n,
            n == ec@.len(),
            forall|k: int| 0 <= k < i ==> #[trigger] ec@[k].2 <= ec@[k].1,
            forall|k: int| 0 <= k < i && k < n - 1 ==> #[trigger] ec@[k].1 == ec@[k + 1].2,
            forall|k: int| 0 <= k < i && k < n - 1 ==> #[trigger] ec@[k].0 < ec@[k + 1].0,
        decreases n - i,
    {
        let (e, c, p) = ec[i];
        if p > c {
            return false;
        }
        if i + 1 < n {
            let (e2, _c2, p2) = ec[i + 1];
            if c != p2 {
                return false;
            }
            if e >= e2 {
                return false;
            }
        }
        i = i + 1;
    }
    true
}

} // verus!
