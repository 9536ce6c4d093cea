//! Exact rational share arithmetic for the warmup/cooldown schedule.

use vstd::prelude::*;
use vstd::arithmetic::div_mod::lemma_div_denominator;
use vstd::arithmetic::div_mod::lemma_div_is_ordered;
use vstd::arithmetic::div_mod::lemma_div_is_ordered_by_denominator;
use vstd::arithmetic::div_mod::lemma_div_nonincreasing;
use vstd::arithmetic::div_mod::lemma_div_multiples_vanish;
use vstd::arithmetic::div_mod::lemma_fundamental_div_mod;
use vstd::arithmetic::div_mod::lemma_hoist_over_denominator;
use vstd::arithmetic::div_mod::lemma_mod_bound;
use vstd::arithmetic::mul::lemma_mul_inequality;
use vstd::arithmetic::mul::lemma_mul_is_associative;
use vstd::arithmetic::mul::lemma_mul_is_commutative;
use vstd::arithmetic::mul::lemma_mul_is_distributive_add_other_way;
use vstd::arithmetic::mul::lemma_mul_upper_bound;
use crate::config::MAX_RATE_DENOMINATOR;

verus! {

/// The share of one epoch's allowed movement that a single stake claims:
/// `rem / pool_divisor` of `pool_effective * (num / den)`, truncated toward
/// zero, saturated at `u64::MAX`, and then clamped up to at least one so a
/// stake always makes forward progress.
pub open spec fn portion_spec(
    rem: int,
    pool_effective: int,
    pool_divisor: int,
    num: int,
    den: int,
) -> int
    recommends
        1 <= pool_divisor,
        1 <= den,
{
    let v = (rem * pool_effective * num) / (pool_divisor * den);
    let sat = if v > u64::MAX as int {
        u64::MAX as int
    } else {
        v
    };
    if sat < 1 {
        1
    } else {
        sat
    }
}

/// `floor(p * num / d)` equals `(p / d) * num + ((p % d) * num) / d`, and is
/// at most `p` whenever `num <= den` and `d == pool_divisor * den`.
proof fn lemma_scaled_quotient(p: int, divisor: int, num: int, den: int)
    requires
        0 <= p,
        1 <= divisor,
        1 <= num <= den,
    ensures
        (p * num) / (divisor * den) == (p / (divisor * den)) * num + ((p % (divisor * den)) * num)
            / (divisor * den),
        (p * num) / (divisor * den) <= p,
        (p / (divisor * den)) * num <= p,
        0 <= (p / (divisor * den)) * num,
        0 <= (p % (divisor * den)) * num,
        0 <= ((p % (divisor * den)) * num) / (divisor * den),
    decreases 0int,
{
    assert(divisor * den >= 1 && divisor * den >= den) by (nonlinear_arith)
        requires
            1 <= divisor,
            1 <= den,
    ;
    let d = divisor * den;
    let q = p / d;
    let m = p % d;
    lemma_fundamental_div_mod(p, d);
    lemma_mod_bound(p, d);
    assert(q >= 0) by {
        lemma_div_is_ordered(0, p, d);
        assert(0int / d == 0) by (nonlinear_arith)
            requires
                d >= 1,
        ;
    }
    // p * num == (q * num) * d + m * num
    assert(p * num == (d * q + m) * num);
    lemma_mul_is_distributive_add_other_way(num, d * q, m);
    assert(p * num == (d * q) * num + m * num);
    lemma_mul_is_associative(d, q, num);
    lemma_mul_is_commutative(d, q * num);
    assert(p * num == (q * num) * d + m * num);
    // hence floor(p * num / d) == q * num + floor(m * num / d)
    lemma_hoist_over_denominator(m * num, q * num, d as nat);
    assert((m * num) / d + q * num == (m * num + (q * num) * d) / d);
    assert((p * num) / d == q * num + (m * num) / d);
    // q * num <= p: q <= p / den, so q * num <= (p / den) * den <= p
    lemma_div_is_ordered_by_denominator(p, den, d);
    assert(q <= p / den);
    lemma_mul_inequality(q, p / den, num);
    lemma_mul_inequality(num, den, p / den);
    lemma_mul_is_commutative(num, p / den);
    lemma_mul_is_commutative(den, p / den);
    assert(q * num <= (p / den) * den);
    lemma_fundamental_div_mod(p, den);
    lemma_mod_bound(p, den);
    lemma_mul_is_commutative(den, p / den);
    assert((p / den) * den <= p);
    // (p * num) / d <= p: p * num <= p * den, and (p * den) / d == p / divisor <= p
    lemma_mul_inequality(num, den, p);
    lemma_mul_is_commutative(num, p);
    lemma_mul_is_commutative(den, p);
    assert(p * num <= p * den);
    lemma_div_is_ordered(p * num, p * den, d);
    lemma_mul_is_commutative(p, den);
    lemma_div_denominator(p * den, den, divisor);
    assert((p * den) / (den * divisor) == ((p * den) / den) / divisor);
    lemma_mul_is_commutative(den, p);
    lemma_div_multiples_vanish(p, den);
    assert((den * p) / den == p);
    assert((p * den) / den == p);
    lemma_mul_is_commutative(den, divisor);
    assert((p * den) / d == p / divisor);
    lemma_div_nonincreasing(p, divisor);
    assert((p * num) / d <= p);
    // nonnegativity of the parts
    assert(0 <= q * num) by {
        lemma_mul_inequality(0, q, num);
    }
    assert(0 <= m * num) by {
        lemma_mul_inequality(0, m, num);
    }
    assert(0 <= (m * num) / d) by {
        lemma_div_is_ordered(0, m * num, d);
        assert(0int / d == 0) by (nonlinear_arith)
            requires
                d >= 1,
        ;
    }
}

/// Computes `portion_spec` exactly over 128-bit intermediates.
pub fn portion(rem: u64, pool_effective: u64, pool_divisor: u64, num: u64, den: u64) -> (r: u64)
    requires
        1 <= pool_divisor,
        1 <= den <= MAX_RATE_DENOMINATOR,
        1 <= num <= den,
    ensures
        r == portion_spec(
            rem as int,
            pool_effective as int,
            pool_divisor as int,
            num as int,
            den as int,
        ),
{
    proof {
        lemma_mul_upper_bound(rem as int, u64::MAX as int, pool_effective as int, u64::MAX as int);
        lemma_mul_upper_bound(
            pool_divisor as int,
            u64::MAX as int,
            den as int,
            MAX_RATE_DENOMINATOR as int,
        );
    }
    let p: u128 = (rem as u128) * (pool_effective as u128);
    let d: u128 = (pool_divisor as u128) * (den as u128);
    proof {
        assert(pool_divisor as int * den as int >= 1) by (nonlinear_arith)
            requires
                1 <= pool_divisor,
                1 <= den,
        ;
        lemma_scaled_quotient(p as int, pool_divisor as int, num as int, den as int);
        lemma_mod_bound(p as int, d as int);
        lemma_mul_upper_bound(
            (p as int) % (d as int),
            d as int - 1,
            num as int,
            MAX_RATE_DENOMINATOR as int,
        );
    }
    let q: u128 = p / d;
    let m: u128 = p % d;
    let t1: u128 = q * (num as u128);
    let t2: u128 = (m * (num as u128)) / d;
    let v: u128 = t1 + t2;
    proof {
        lemma_mul_is_associative(rem as int, pool_effective as int, num as int);
        assert(v == (p as int * num as int) / (d as int));
        assert(v == (rem as int * pool_effective as int * num as int) / (pool_divisor as int
            * den as int));
    }
    let sat: u64 = if v > u64::MAX as u128 {
        u64::MAX
    } else {
        v as u64
    };
    if sat < 1 {
        1
    } else {
        sat
    }
}

} // verus!
