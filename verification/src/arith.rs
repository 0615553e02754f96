use vstd::arithmetic::div_mod::{
    lemma_div_is_ordered, lemma_div_pos_is_pos, lemma_fundamental_div_mod,
    lemma_fundamental_div_mod_converse_div, lemma_mod_division_less_than_divisor,
};
use vstd::arithmetic::mul::{
    lemma_mul_inequality, lemma_mul_is_commutative, lemma_mul_is_distributive_add_other_way,
};
use vstd::prelude::*;

verus! {

/// Fixed-point percentage basis with two implied decimal digits:
/// `10000` stands for 100.00% of the total supply.
pub const MAX_SUPPLY_PERCENT: u64 = 10000;

/// Largest total supply the engine accepts.  The bound keeps every
/// percent-to-token conversion (`percent * supply / basis`) within `u128`.
pub const MAX_TOTAL_SUPPLY: u128 = u128::MAX / 10000;

/// Number of tokens a fixed-point percentage of the supply stands for,
/// truncated toward zero.
pub open spec fn spec_tokens_from_percent(percent: int, total_supply: int) -> int {
    percent * total_supply / (MAX_SUPPLY_PERCENT as int)
}

/// Fixed-point percentage of the supply a number of tokens stands for,
/// truncated toward zero.
pub open spec fn spec_tokens_to_percent(amount: int, total_supply: int) -> int
    recommends
        total_supply >= 1,
{
    amount * (MAX_SUPPLY_PERCENT as int) / total_supply
}

/// The product `percent * total_supply` stays within `u128` and the
/// resulting token amount never exceeds the supply itself.
pub proof fn lemma_tokens_from_percent_bounds(percent: int, total_supply: int)
    requires
        0 <= percent <= MAX_SUPPLY_PERCENT as int,
        0 <= total_supply <= MAX_TOTAL_SUPPLY as int,
    ensures
        0 <= percent * total_supply <= u128::MAX,
        0 <= spec_tokens_from_percent(percent, total_supply) <= total_supply,
{
    let b = MAX_SUPPLY_PERCENT as int;
    let m = u128::MAX as int;
    lemma_mul_inequality(percent, b, total_supply);
    lemma_mul_is_commutative(b, total_supply);
    lemma_mul_inequality(total_supply, m / b, b);
    lemma_fundamental_div_mod(m, b);
    lemma_mod_division_less_than_divisor(m, b);
    lemma_mul_is_commutative(m / b, b);
    assert(percent * total_supply <= u128::MAX);
    if total_supply == 0 {
        assert(percent * total_supply == 0);
        assert(spec_tokens_from_percent(percent, 0) == 0);
    } else {
        lemma_mul_inequality(0, percent, total_supply);
        lemma_div_pos_is_pos(percent * total_supply, b);
        lemma_div_is_ordered(percent * total_supply, b * total_supply, b);
        lemma_mul_is_commutative(b, total_supply);
        vstd::arithmetic::div_mod::lemma_div_by_multiple(total_supply, b);
        assert(total_supply * b / b == total_supply);
    }
}

/// Converting a larger percentage never yields fewer tokens.
pub proof fn lemma_tokens_from_percent_monotonic(p1: int, p2: int, total_supply: int)
    requires
        0 <= p1 <= p2,
        0 <= total_supply,
    ensures
        spec_tokens_from_percent(p1, total_supply) <= spec_tokens_from_percent(p2, total_supply),
{
    lemma_mul_inequality(p1, p2, total_supply);
    lemma_div_is_ordered(p1 * total_supply, p2 * total_supply, MAX_SUPPLY_PERCENT as int);
}

/// Converting a percentage to tokens and back never yields more than the
/// original percentage: truncation can only lose, never gain.
pub proof fn lemma_percent_round_trip(p: int, total_supply: int)
    requires
        0 <= p,
        1 <= total_supply,
    ensures
        0 <= spec_tokens_to_percent(spec_tokens_from_percent(p, total_supply), total_supply) <= p,
{
    let b = MAX_SUPPLY_PERCENT as int;
    let t = p * total_supply / b;
    lemma_mul_inequality(0, p, total_supply);
    lemma_div_pos_is_pos(p * total_supply, b);
    lemma_fundamental_div_mod(p * total_supply, b);
    lemma_mod_division_less_than_divisor(p * total_supply, b);
    assert(b * t <= p * total_supply);
    lemma_mul_is_commutative(b, t);
    lemma_mul_is_commutative(t, b);
    lemma_div_is_ordered(t * b, p * total_supply, total_supply);
    lemma_mul_is_commutative(p, total_supply);
    vstd::arithmetic::div_mod::lemma_div_multiples_vanish(p, total_supply);
    assert(p * total_supply / total_supply == p);
    lemma_div_pos_is_pos(t * b, total_supply);
}

/// When the two remainders do not carry past the basis, converting the sum
/// of two percentages equals the sum of the two conversions.
pub proof fn lemma_tokens_from_percent_split(p1: int, p2: int, total_supply: int)
    requires
        0 <= p1,
        0 <= p2,
        0 <= total_supply,
        (p1 * total_supply) % (MAX_SUPPLY_PERCENT as int) + (p2 * total_supply) % (
        MAX_SUPPLY_PERCENT as int) < MAX_SUPPLY_PERCENT as int,
    ensures
        spec_tokens_from_percent(p1 + p2, total_supply) == spec_tokens_from_percent(
            p1,
            total_supply,
        ) + spec_tokens_from_percent(p2, total_supply),
{
    let b = MAX_SUPPLY_PERCENT as int;
    let a1 = p1 * total_supply;
    let a2 = p2 * total_supply;
    lemma_mul_is_distributive_add_other_way(total_supply, p1, p2);
    assert((p1 + p2) * total_supply == a1 + a2);
    lemma_fundamental_div_mod(a1, b);
    lemma_fundamental_div_mod(a2, b);
    lemma_mod_division_less_than_divisor(a1, b);
    lemma_mod_division_less_than_divisor(a2, b);
    let q1 = a1 / b;
    let q2 = a2 / b;
    let r1 = a1 % b;
    let r2 = a2 % b;
    assert(a1 + a2 == (q1 + q2) * b + (r1 + r2)) by {
        lemma_mul_is_distributive_add_other_way(b, q1, q2);
        lemma_mul_is_commutative(b, q1);
        lemma_mul_is_commutative(b, q2);
        lemma_mul_is_commutative(b, q1 + q2);
    }
    lemma_fundamental_div_mod_converse_div(a1 + a2, b, q1 + q2, r1 + r2);
}

/// Decomposition of the token-to-percent conversion by the division
/// `amount == (amount / s) * s + amount % s`.
pub proof fn lemma_tokens_to_percent_decompose(amount: int, total_supply: int)
    requires
        0 <= amount,
        1 <= total_supply,
    ensures
        spec_tokens_to_percent(amount, total_supply) == (amount / total_supply) * (
        MAX_SUPPLY_PERCENT as int) + ((amount % total_supply) * (MAX_SUPPLY_PERCENT as int))
            / total_supply,
        0 <= spec_tokens_to_percent(amount, total_supply),
{
    let b = MAX_SUPPLY_PERCENT as int;
    let s = total_supply;
    let q = amount / s;
    let r = amount % s;
    lemma_fundamental_div_mod(amount, s);
    lemma_mod_division_less_than_divisor(amount, s);
    assert(amount == s * q + r);
    lemma_fundamental_div_mod(r * b, s);
    lemma_mod_division_less_than_divisor(r * b, s);
    let q2 = (r * b) / s;
    let r2 = (r * b) % s;
    assert(amount * b == (q * b + q2) * s + r2) by {
        assert(amount * b == (s * q + r) * b);
        lemma_mul_is_distributive_add_other_way(b, s * q, r);
        assert((s * q + r) * b == (s * q) * b + r * b);
        assert(r * b == s * q2 + r2);
        lemma_mul_is_distributive_add_other_way(s, q * b, q2);
        assert((q * b + q2) * s == (q * b) * s + q2 * s);
        assert((s * q) * b == (q * b) * s) by {
            vstd::arithmetic::mul::lemma_mul_is_associative(s, q, b);
            vstd::arithmetic::mul::lemma_mul_is_associative(q, b, s);
            lemma_mul_is_commutative(s, q * b);
            lemma_mul_is_commutative(q, b);
            lemma_mul_is_commutative(s, q);
        }
        lemma_mul_is_commutative(s, q2);
    }
    lemma_fundamental_div_mod_converse_div(amount * b, s, q * b + q2, r2);
    lemma_div_pos_is_pos(amount, s);
    lemma_mul_inequality(0, q, b);
    lemma_mul_inequality(0, r, b);
    lemma_div_pos_is_pos(r * b, s);
    lemma_mul_is_commutative(q, b);
    lemma_mul_is_commutative(r, b);
}

/// Computes `floor(percent * total_supply / basis)`: the number of tokens a
/// fixed-point percentage of the supply stands for.
pub fn tokens_from_percent(percent: u64, total_supply: u128) -> (r: u128)
    requires
        percent <= MAX_SUPPLY_PERCENT,
        total_supply <= MAX_TOTAL_SUPPLY,
    ensures
        r == spec_tokens_from_percent(percent as int, total_supply as int),
        r <= total_supply,
{
    proof {
        lemma_tokens_from_percent_bounds(percent as int, total_supply as int);
    }
    percent as u128 * total_supply / (MAX_SUPPLY_PERCENT as u128)
}

/// Computes `floor(amount * basis / total_supply)`: the fixed-point
/// percentage of the supply a number of tokens stands for.  Returns `None`
/// when the mathematical result does not fit in `u64`.
pub fn tokens_to_percent(amount: u128, total_supply: u128) -> (r: Option<u64>)
    requires
        1 <= total_supply <= MAX_TOTAL_SUPPLY,
    ensures
        match r {
            Some(p) => p == spec_tokens_to_percent(amount as int, total_supply as int),
            None => spec_tokens_to_percent(amount as int, total_supply as int) > u64::MAX,
        },
{
    proof {
        lemma_tokens_to_percent_decompose(amount as int, total_supply as int);
    }
    let q = amount / total_supply;
    let rem = amount % total_supply;
    proof {
        lemma_mod_division_less_than_divisor(amount as int, total_supply as int);
        lemma_div_pos_is_pos(amount as int, total_supply as int);
    }
    let part = rem * (MAX_SUPPLY_PERCENT as u128) / total_supply;
    proof {
        let b = MAX_SUPPLY_PERCENT as int;
        let s = total_supply as int;
        lemma_div_pos_is_pos(rem as int * b, s);
        vstd::arithmetic::mul::lemma_mul_is_distributive_sub_other_way(b, s, 1);
        assert((s - 1) * b == s * b - b);
        lemma_fundamental_div_mod_converse_div(s * b - 1, s, b - 1, s - 1);
        lemma_mul_inequality(rem as int, s - 1, b);
        lemma_div_is_ordered(rem as int * b, s * b - 1, s);
        assert(part as int <= b - 1);
    }
    if q > u64::MAX as u128 / (MAX_SUPPLY_PERCENT as u128) {
        None
    } else {
        let full = q * (MAX_SUPPLY_PERCENT as u128) + part;
        if full > u64::MAX as u128 {
            None
        } else {
            Some(full as u64)
        }
    }
}

} // verus!
