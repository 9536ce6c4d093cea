//! Reward redemption arithmetic: walking a voter's credit history against a
//! stake's effective amounts and splitting the payout by commission.

use vstd::prelude::*;
use vstd::arithmetic::div_mod::lemma_div_denominator;
use vstd::arithmetic::div_mod::lemma_div_is_ordered;
use vstd::arithmetic::div_mod::lemma_div_multiples_vanish;
use vstd::arithmetic::div_mod::lemma_fundamental_div_mod;
use vstd::arithmetic::div_mod::lemma_mod_bound;
use vstd::arithmetic::mul::lemma_mul_inequality;
use vstd::arithmetic::mul::lemma_mul_is_commutative;
use vstd::arithmetic::mul::lemma_mul_upper_bound;
use crate::history::StakeHistory;
use crate::history::StakeHistoryEntry;
use crate::stake::opt_history;
use crate::stake::stake_activating_and_deactivating_spec;
use crate::stake::Stake;
use crate::sysvar::PointValue;
use crate::vote::credits_of;
use crate::vote::wf_epoch_credits;
use crate::vote::VoteState;

verus! {

/// Credits a stake may claim from one history entry: the whole entry if the
/// stake observed the counter before the entry began, the part above the
/// running watermark if it observed the counter mid-entry, nothing if it
/// has already redeemed past the entry.
pub open spec fn credits_delta(observed: u64, watermark: u64, credits: u64, prev: u64) -> int {
    if observed < prev {
        credits - prev
    } else if observed < credits {
        credits - watermark
    } else {
        0
    }
}

/// Running watermark after walking the first `i` history entries: the
/// stake's observation point, raised to every end-count seen so far.
pub open spec fn watermark_upto(observed: u64, ec: Seq<(u64, u64, u64)>, i: int) -> u64
    decreases i,
{
    if i <= 0 {
        observed
    } else {
        let w = watermark_upto(observed, ec, i - 1);
        let c = ec[i - 1].1;
        if w >= c {
            w
        } else {
            c
        }
    }
}

/// Points earned from history entry `i`: the stake's effective amount in
/// that entry's epoch times the credits claimed from the entry.
pub open spec fn point_term(
    s: Stake,
    ec: Seq<(u64, u64, u64)>,
    hist: Map<u64, StakeHistoryEntry>,
    i: int,
) -> int {
    stake_activating_and_deactivating_spec(s, ec[i].0, hist).0 * credits_delta(
        s.credits_observed,
        watermark_upto(s.credits_observed, ec, i),
        ec[i].1,
        ec[i].2,
    )
}

/// Total points earned from the first `i` history entries.
pub open spec fn reward_points_upto(
    s: Stake,
    ec: Seq<(u64, u64, u64)>,
    hist: Map<u64, StakeHistoryEntry>,
    i: int,
) -> int
    decreases i,
{
    if i <= 0 {
        0
    } else {
        reward_points_upto(s, ec, hist, i - 1) + point_term(s, ec, hist, i - 1)
    }
}

/// How many history entries a reward walk visits: every entry but the one
/// for the epoch still in progress.
pub open spec fn walk_len(ec: Seq<(u64, u64, u64)>) -> int {
    if ec.len() == 0 {
        0
    } else {
        ec.len() - 1
    }
}

/// What `calculate_rewards` returns: `None` when there is nothing worth a
/// whole lamport to collect, otherwise the voter's payout, the staker's
/// payout, and the new credits watermark.
pub open spec fn calculate_rewards_spec(
    s: Stake,
    pv: PointValue,
    commission: u8,
    ec: Seq<(u64, u64, u64)>,
    hist: Map<u64, StakeHistoryEntry>,
) -> Option<(u64, u64, u64)> {
    if s.credits_observed >= credits_of(ec) {
        None
    } else {
        let pts = reward_points_upto(s, ec, hist, walk_len(ec));
        let w = watermark_upto(s.credits_observed, ec, walk_len(ec));
        let num = pv.numerator as int;
        let den = pv.denominator as int;
        let c = commission as int;
        if pts * num < den {
            // under one lamport in total: not worth collecting
            None
        } else if c == 0 {
            Some((0u64, ((pts * num) / den) as u64, w))
        } else if c == 255 {
            Some((((pts * num) / den) as u64, 0u64, w))
        } else if pts * num * c < den * 255 || pts * num * (255 - c) < den * 255 {
            // a split that shorts either side a whole lamport is not made
            None
        } else {
            Some(
                (
                    ((pts * num * c) / (den * 255)) as u64,
                    ((pts * num * (255 - c)) / (den * 255)) as u64,
                    w,
                ),
            )
        }
    }
}

/// With a monotone credit history the running watermark is just the larger
/// of the observation point and the last end-count seen.
pub proof fn lemma_watermark_exact(observed: u64, ec: Seq<(u64, u64, u64)>, i: int)
    requires
        0 <= i <= ec.len(),
        forall|j: int| 0 <= j < i - 1 ==> #[trigger] ec[j].1 <= ec[j + 1].1,
    ensures
        i == 0 ==> watermark_upto(observed, ec, i) == observed,
        i > 0 ==> watermark_upto(observed, ec, i) == if observed >= ec[i - 1].1 {
            observed
        } else {
            ec[i - 1].1
        },
    decreases i,
{
    if i > 0 {
        lemma_watermark_exact(observed, ec, i - 1);
    }
}

/// In a well-formed history every reward term is nonnegative.
pub proof fn lemma_point_term_nonneg(
    s: Stake,
    ec: Seq<(u64, u64, u64)>,
    hist: Map<u64, StakeHistoryEntry>,
    i: int,
)
    requires
        wf_epoch_credits(ec),
        0 <= i < walk_len(ec),
    ensures
        credits_delta(
            s.credits_observed,
            watermark_upto(s.credits_observed, ec, i),
            ec[i].1,
            ec[i].2,
        ) >= 0,
        point_term(s, ec, hist, i) >= 0,
{
    let observed = s.credits_observed;
    assert forall|j: int| 0 <= j < i - 1 implies #[trigger] ec[j].1 <= ec[j + 1].1 by {
        assert(ec[j].1 == ec[j + 1].2);
        assert(ec[j + 1].2 <= ec[j + 1].1);
    }
    lemma_watermark_exact(observed, ec, i);
    let w = watermark_upto(observed, ec, i);
    if observed < ec[i].2 {
    } else if observed < ec[i].1 {
        if i > 0 {
            assert(ec[i - 1].1 == ec[i].2);
        }
        assert(w <= ec[i].1);
    }
    let d = credits_delta(observed, w, ec[i].1, ec[i].2);
    let e = stake_activating_and_deactivating_spec(s, ec[i].0, hist).0;
    assert(e * d >= 0) by {
        lemma_mul_inequality(0, d, e as int);
        lemma_mul_is_commutative(d, e as int);
    }
}

/// A walk that earned points has raised the watermark above the stake's
/// observation point.
pub proof fn lemma_positive_points_raise_watermark(
    s: Stake,
    ec: Seq<(u64, u64, u64)>,
    hist: Map<u64, StakeHistoryEntry>,
    i: int,
)
    requires
        wf_epoch_credits(ec),
        0 <= i <= walk_len(ec),
        reward_points_upto(s, ec, hist, i) > 0,
    ensures
        watermark_upto(s.credits_observed, ec, i) > s.credits_observed,
    decreases i,
{
    let observed = s.credits_observed;
    if i > 0 {
        lemma_point_term_nonneg(s, ec, hist, i - 1);
        if reward_points_upto(s, ec, hist, i - 1) > 0 {
            lemma_positive_points_raise_watermark(s, ec, hist, i - 1);
        } else {
            // the last term is positive, so its delta is positive
            let w = watermark_upto(observed, ec, i - 1);
            let d = credits_delta(observed, w, ec[i - 1].1, ec[i - 1].2);
            let e = stake_activating_and_deactivating_spec(s, ec[i - 1].0, hist).0;
            assert(e * d > 0);
            assert(d > 0) by {
                if d <= 0 {
                    lemma_mul_inequality(d, 0, e as int);
                    lemma_mul_is_commutative(d, e as int);
                    lemma_mul_is_commutative(0, e as int);
                }
            }
            assert(ec[i - 1].1 > observed);
        }
    }
}

/// The watermark never falls below the observation point.
pub proof fn lemma_watermark_ge(observed: u64, ec: Seq<(u64, u64, u64)>, i: int)
    ensures
        watermark_upto(observed, ec, i) >= observed,
    decreases i,
{
    if i > 0 {
        lemma_watermark_ge(observed, ec, i - 1);
    }
}

/// Reward-watermark law: a successful reward calculation returns a
/// watermark strictly above the stake's old observation point and no higher
/// than the voter's lifetime credits.
pub proof fn lemma_rewards_watermark(
    s: Stake,
    pv: PointValue,
    commission: u8,
    ec: Seq<(u64, u64, u64)>,
    hist: Map<u64, StakeHistoryEntry>,
)
    requires
        wf_epoch_credits(ec),
        pv.wf(),
        calculate_rewards_spec(s, pv, commission, ec, hist) is Some,
    ensures
        ({
            let w = calculate_rewards_spec(s, pv, commission, ec, hist)->Some_0.2;
            s.credits_observed < w <= credits_of(ec)
        }),
{
    let observed = s.credits_observed;
    let n = walk_len(ec);
    let pts = reward_points_upto(s, ec, hist, n);
    let w = watermark_upto(observed, ec, n);
    // a successful calculation earned at least one point
    assert(pts * pv.numerator as int >= pv.denominator as int);
    assert(pts > 0) by {
        if pts <= 0 {
            lemma_mul_inequality(pts, 0, pv.numerator as int);
            lemma_mul_is_commutative(pts, pv.numerator as int);
            lemma_mul_is_commutative(0, pv.numerator as int);
        }
    }
    lemma_positive_points_raise_watermark(s, ec, hist, n);
    // the watermark stays within the credits the voter has recorded
    assert(observed < credits_of(ec));
    assert forall|j: int| 0 <= j < n - 1 implies #[trigger] ec[j].1 <= ec[j + 1].1 by {
        assert(ec[j].1 == ec[j + 1].2);
        assert(ec[j + 1].2 <= ec[j + 1].1);
    }
    lemma_watermark_exact(observed, ec, n);
    if n > 0 {
        assert(ec[n - 1].1 == ec[n].2);
        assert(ec[n].2 <= ec[n].1);
        assert(w <= credits_of(ec));
    }
}

impl Stake {
    /// What redemption would distribute and record: `Some((voter payout,
    /// staker payout, new credits watermark))`, or `None` when no whole
    /// lamport is owed.
    ///
    /// The per-entry point products and the final payouts must fit the
    /// 64-bit lamport arithmetic they are paid in.
    pub fn calculate_rewards(
        &self,
        point_value: &PointValue,
        vote_state: &VoteState,
        stake_history: Option<&StakeHistory>,
    ) -> (r: Option<(u64, u64, u64)>)
        requires
            self.wf(),
            vote_state.wf(),
            point_value.wf(),
            forall|i: int|
                0 <= i < walk_len(vote_state.epoch_credits@) ==> point_term(
                    *self,
                    vote_state.epoch_credits@,
                    opt_history(stake_history),
                    i,
                ) <= u64::MAX,
            (reward_points_upto(
                *self,
                vote_state.epoch_credits@,
                opt_history(stake_history),
                walk_len(vote_state.epoch_credits@),
            ) * point_value.numerator as int) / point_value.denominator as int <= u64::MAX,
        ensures
            r == calculate_rewards_spec(
                *self,
                *point_value,
                vote_state.commission,
                vote_state.epoch_credits@,
                opt_history(stake_history),
            ),
    {
        let ghost ec = vote_state.epoch_credits@;
        let ghost hist = opt_history(stake_history);
        let credits = vote_state.credits();
        if self.credits_observed >= credits {
            return None;
        }
        let n = vote_state.epoch_credits.len();
        let walk: usize = if n == 0 {
            0
        } else {
            n - 1
        };
        let mut points: u128 = 0;
        let mut watermark: u64 = self.credits_observed;
        let mut i: usize = 0;
        while i < walk
            invariant
                self.wf(),
                vote_state.wf(),
                point_value.wf(),
                ec == vote_state.epoch_credits@,
                hist == opt_history(stake_history),
                n == ec.len(),
                walk == walk_len(ec),
                0 <= i <= walk,
                forall|k: int|
                    0 <= k < walk_len(ec) ==> point_term(*self, ec, hist, k) <= u64::MAX,
                points == reward_points_upto(*self, ec, hist, i as int),
                points <= (i as int) * (u64::MAX as int),
                watermark == watermark_upto(self.credits_observed, ec, i as int),
            decreases walk - i,
        {
            let (epoch, cr, prev) = vote_state.epoch_credits[i];
            let eff = self.stake(epoch, stake_history);
            proof {
                lemma_point_term_nonneg(*self, ec, hist, i as int);
            }
            let delta: u64 = if self.credits_observed < prev {
                cr - prev
            } else if self.credits_observed < cr {
                cr - watermark
            } else {
                0
            };
            proof {
                assert(delta == credits_delta(
                    self.credits_observed,
                    watermark_upto(self.credits_observed, ec, i as int),
                    ec[i as int].1,
                    ec[i as int].2,
                ));
                assert(eff as int * delta as int == point_term(*self, ec, hist, i as int));
            }
            let term: u64 = eff * delta;
            points = points + (term as u128);
            if cr > watermark {
                watermark = cr;
            }
            i = i + 1;
        }
        let num = point_value.numerator;
        let den = point_value.denominator;
        let ghost pts = reward_points_upto(*self, ec, hist, walk_len(ec));
        proof {
            // the requires bounds the scaled total, so the product fits
            assert(0 <= pts * num as int) by {
                lemma_mul_inequality(0, pts, num as int);
            }
            assert(0 <= (pts * num as int) / den as int) by {
                lemma_div_is_ordered(0, pts * num as int, den as int);
                assert(0int / den as int == 0) by (nonlinear_arith)
                    requires
                        den >= 1,
                ;
            }
            lemma_fundamental_div_mod(pts * num as int, den as int);
            lemma_mod_bound(pts * num as int, den as int);
            lemma_mul_upper_bound(
                den as int,
                crate::config::MAX_RATE_DENOMINATOR as int,
                (pts * num as int) / den as int,
                u64::MAX as int,
            );
            assert(pts * num as int <= den as int * ((pts * num as int) / den as int) + den as int
                - 1);
        }
        let total_num: u128 = points * (num as u128);
        if total_num < den as u128 {
            return None;
        }
        let total_floor: u64 = (total_num / (den as u128)) as u64;
        let c = vote_state.commission;
        if c == 0 {
            return Some((0, total_floor, watermark));
        }
        if c == 255 {
            return Some((total_floor, 0, watermark));
        }
        let d2: u128 = (den as u128) * 255;
        proof {
            lemma_mul_inequality(c as int, 255, total_num as int);
            lemma_mul_is_commutative(c as int, total_num as int);
            lemma_mul_is_commutative(255, total_num as int);
            lemma_mul_inequality(255 - c as int, 255, total_num as int);
            lemma_mul_is_commutative(255 - c as int, total_num as int);
        }
        let voter_num: u128 = total_num * (c as u128);
        let staker_num: u128 = total_num * ((255 - c) as u128);
        if voter_num < d2 || staker_num < d2 {
            return None;
        }
        proof {
            // each share's floor is at most the total's floor
            lemma_shares_bounded(pts, num as int, den as int, c as int);
        }
        Some((((voter_num / d2) as u64), ((staker_num / d2) as u64), watermark))
    }
}

/// Both commission shares floor to at most the whole payout's floor.
proof fn lemma_shares_bounded(pts: int, num: int, den: int, c: int)
    requires
        0 <= pts,
        0 <= num,
        1 <= den,
        0 < c < 255,
    ensures
        (pts * num * c) / (den * 255) <= (pts * num) / den,
        (pts * num * (255 - c)) / (den * 255) <= (pts * num) / den,
        0 <= (pts * num * c) / (den * 255),
        0 <= (pts * num * (255 - c)) / (den * 255),
    decreases 0int,
{
    let t = pts * num;
    assert(t >= 0) by {
        lemma_mul_inequality(0, pts, num);
        lemma_mul_is_commutative(pts, num);
        lemma_mul_is_commutative(0, num);
    }
    assert(den * 255 >= 1);
    assert(t * c <= t * 255 && t * (255 - c) <= t * 255 && t * c >= 0 && t * (255 - c) >= 0) by {
        lemma_mul_inequality(c, 255, t);
        lemma_mul_is_commutative(c, t);
        lemma_mul_is_commutative(255, t);
        lemma_mul_inequality(255 - c, 255, t);
        lemma_mul_is_commutative(255 - c, t);
        lemma_mul_inequality(0, c, t);
        lemma_mul_is_commutative(0, t);
        lemma_mul_inequality(0, 255 - c, t);
    }
    lemma_div_is_ordered(t * c, t * 255, den * 255);
    lemma_div_is_ordered(t * (255 - c), t * 255, den * 255);
    lemma_div_is_ordered(0, t * c, den * 255);
    lemma_div_is_ordered(0, t * (255 - c), den * 255);
    assert(0int / (den * 255) == 0) by (nonlinear_arith)
        requires
            den >= 1,
    ;
    // (t * 255) / (den * 255) == t / den
    lemma_mul_is_commutative(t, 255);
    lemma_div_denominator(t * 255, 255, den);
    assert((t * 255) / (255 * den) == ((t * 255) / 255) / den);
    lemma_div_multiples_vanish(t, 255);
    assert((255 * t) / 255 == t);
    assert((t * 255) / 255 == t);
    lemma_mul_is_commutative(den, 255);
    assert((t * 255) / (den * 255) == t / den);
}

} // verus!
