use crate::arith::{
    lemma_tokens_from_percent_bounds, lemma_tokens_from_percent_monotonic,
    lemma_tokens_from_percent_split, spec_tokens_from_percent, tokens_from_percent,
    MAX_SUPPLY_PERCENT, MAX_TOTAL_SUPPLY,
};
use crate::errors::VestingError;
use vstd::arithmetic::div_mod::{
    lemma_basic_div, lemma_div_by_multiple, lemma_div_by_self, lemma_div_is_ordered,
    lemma_div_pos_is_pos,
};
use vstd::arithmetic::mul::lemma_mul_inequality;
use vstd::prelude::*;

verus! {

/// One account's share of the supply and its vesting schedule.
///
/// All percentages use the fixed-point basis of
/// [`MAX_SUPPLY_PERCENT`](crate::arith::MAX_SUPPLY_PERCENT); timestamps and
/// durations are nanosecond-resolution epoch integers.
#[derive(Clone, Copy, Debug, PartialEq, Eq, Structural)]
pub struct TokenAllocation {
    /// Share of the total supply this account may ever claim.
    pub allocated_percent: u64,
    /// Portion of `allocated_percent` claimable already at vesting start.
    pub initial_release: u64,
    /// When vesting begins.
    pub vesting_start_time: u64,
    /// When the full allocation is vested; must be later than the start.
    pub vesting_end_time: u64,
    /// Granularity of vesting; claimable grows once per elapsed interval.
    pub vesting_interval: u64,
    /// Share already claimed, in percent units; grows only on confirmation.
    pub claimed: u64,
}

impl Default for TokenAllocation {
    /// The sentinel record handed out for missing entries; deliberately
    /// invalid (`claimed > allocated_percent`) so it can never pass the
    /// schedule checks.
    fn default() -> (r: Self)
        ensures
            r == (TokenAllocation {
                allocated_percent: 0,
                initial_release: 0,
                vesting_start_time: 0,
                vesting_end_time: 0,
                vesting_interval: 0,
                claimed: 1,
            }),
    {
        TokenAllocation {
            allocated_percent: 0,
            initial_release: 0,
            vesting_start_time: 0,
            vesting_end_time: 0,
            vesting_interval: 0,
            claimed: 1,
        }
    }
}

impl TokenAllocation {
    /// The schedule invariants every stored allocation must satisfy: the
    /// allocated share covers the initial release plus what was claimed,
    /// the schedule is a non-empty window, and the interval is a positive
    /// duration no longer than the window.
    pub open spec fn valid(&self) -> bool {
        &&& self.allocated_percent >= self.initial_release + self.claimed
        &&& self.vesting_end_time > 0
        &&& self.vesting_end_time > self.vesting_start_time
        &&& 1 <= self.vesting_interval
        &&& self.vesting_interval <= self.vesting_end_time - self.vesting_start_time
    }

    /// Runtime re-check of [`Self::valid`], safe against overflow.
    pub fn check_valid(&self) -> (r: bool)
        ensures
            r == self.valid(),
    {
        self.initial_release <= self.allocated_percent
            && self.allocated_percent - self.initial_release >= self.claimed
            && self.vesting_end_time > self.vesting_start_time && self.vesting_interval >= 1
            && self.vesting_interval <= self.vesting_end_time - self.vesting_start_time
    }

    /// The vested portion of `allocated_percent - initial_release` at
    /// `at_time`: zero before the start, everything from the end onward,
    /// and in between proportional to fully elapsed vesting intervals.
    pub open spec fn spec_vested_percent(&self, at_time: u64) -> int
        recommends
            self.valid(),
    {
        if at_time < self.vesting_start_time {
            0
        } else if at_time >= self.vesting_end_time {
            self.allocated_percent - self.initial_release
        } else {
            let elapsed = (at_time - self.vesting_start_time) / (self.vesting_interval as int);
            let total = (self.vesting_end_time - self.vesting_start_time) / (
            self.vesting_interval as int);
            (self.allocated_percent - self.initial_release) * elapsed / total
        }
    }

    /// Token amount still claimable at `at_time`: vested plus initial
    /// release, minus what was already claimed, each converted to tokens
    /// separately (truncation happens per conversion, exactly as recorded).
    pub open spec fn spec_claimable(&self, total_supply: int, at_time: u64) -> int
        recommends
            self.valid(),
            total_supply >= 1,
    {
        spec_tokens_from_percent(self.spec_vested_percent(at_time), total_supply)
            + spec_tokens_from_percent(self.initial_release as int, total_supply)
            - spec_tokens_from_percent(self.claimed as int, total_supply)
    }

    /// The vested percentage always lies between zero and the vesting part
    /// of the allocated share.
    pub proof fn lemma_vested_percent_bounds(&self, at_time: u64)
        requires
            self.valid(),
        ensures
            0 <= self.spec_vested_percent(at_time),
            self.spec_vested_percent(at_time) <= self.allocated_percent - self.initial_release,
    {
        let span = self.vesting_end_time - self.vesting_start_time;
        let iv = self.vesting_interval as int;
        let part = self.allocated_percent - self.initial_release;
        if at_time < self.vesting_start_time {
        } else if at_time >= self.vesting_end_time {
        } else {
            let elapsed = (at_time - self.vesting_start_time) / iv;
            let total = span / iv;
            lemma_div_is_ordered(iv, span, iv);
            lemma_div_by_self(iv);
            assert(total >= 1);
            lemma_div_pos_is_pos(at_time - self.vesting_start_time, iv);
            lemma_div_is_ordered(at_time - self.vesting_start_time, span, iv);
            assert(elapsed <= total);
            lemma_mul_inequality(0, part, elapsed);
            lemma_div_pos_is_pos(part * elapsed, total);
            lemma_mul_inequality(elapsed, total, part);
            vstd::arithmetic::mul::lemma_mul_is_commutative(elapsed, part);
            vstd::arithmetic::mul::lemma_mul_is_commutative(total, part);
            lemma_div_is_ordered(part * elapsed, part * total, total);
            lemma_div_by_multiple(part, total);
            vstd::arithmetic::mul::lemma_mul_is_commutative(part, total);
            assert(part * total / total == part);
        }
    }

    /// The vested percentage never shrinks as time advances.
    pub proof fn lemma_vested_percent_monotonic(&self, t1: u64, t2: u64)
        requires
            self.valid(),
            t1 <= t2,
        ensures
            self.spec_vested_percent(t1) <= self.spec_vested_percent(t2),
    {
        let span = self.vesting_end_time - self.vesting_start_time;
        let iv = self.vesting_interval as int;
        let part = self.allocated_percent - self.initial_release;
        self.lemma_vested_percent_bounds(t1);
        self.lemma_vested_percent_bounds(t2);
        if t1 < self.vesting_start_time {
        } else if t1 >= self.vesting_end_time {
        } else if t2 >= self.vesting_end_time {
        } else {
            let e1 = (t1 - self.vesting_start_time) / iv;
            let e2 = (t2 - self.vesting_start_time) / iv;
            let total = span / iv;
            lemma_div_is_ordered(iv, span, iv);
            lemma_div_by_self(iv);
            assert(total >= 1);
            lemma_div_is_ordered(t1 - self.vesting_start_time, t2 - self.vesting_start_time, iv);
            assert(e1 <= e2);
            lemma_mul_inequality(e1, e2, part);
            vstd::arithmetic::mul::lemma_mul_is_commutative(e1, part);
            vstd::arithmetic::mul::lemma_mul_is_commutative(e2, part);
            lemma_div_is_ordered(part * e1, part * e2, total);
        }
    }

    /// Holding `claimed` fixed, the claimable token amount never shrinks
    /// as time advances.
    pub proof fn lemma_claimable_monotonic(&self, total_supply: int, t1: u64, t2: u64)
        requires
            self.valid(),
            0 <= total_supply,
            t1 <= t2,
        ensures
            self.spec_claimable(total_supply, t1) <= self.spec_claimable(total_supply, t2),
    {
        self.lemma_vested_percent_bounds(t1);
        self.lemma_vested_percent_monotonic(t1, t2);
        lemma_tokens_from_percent_monotonic(
            self.spec_vested_percent(t1),
            self.spec_vested_percent(t2),
            total_supply,
        );
    }

    /// Before the vesting start, nothing beyond the initial release is
    /// vested, so the claimable amount is exactly the initial release minus
    /// what was claimed; it is zero whenever those two shares convert to
    /// the same token amount.
    pub proof fn lemma_claimable_before_start(&self, total_supply: int, at_time: u64)
        requires
            self.valid(),
            1 <= total_supply,
            at_time < self.vesting_start_time,
            spec_tokens_from_percent(self.initial_release as int, total_supply)
                == spec_tokens_from_percent(self.claimed as int, total_supply),
        ensures
            self.spec_claimable(total_supply, at_time) == 0,
    {
        assert(self.spec_vested_percent(at_time) == 0);
        assert(spec_tokens_from_percent(0, total_supply) == 0) by {
            assert(0 * total_supply == 0);
            lemma_basic_div(0, MAX_SUPPLY_PERCENT as int);
        }
    }

    /// From the vesting end onward the claimable amount equals the whole
    /// allocated share minus the claimed share, both in tokens, provided
    /// the two conversions of the split share do not lose a carry.
    pub proof fn lemma_claimable_after_end(&self, total_supply: int, at_time: u64)
        requires
            self.valid(),
            1 <= total_supply,
            at_time >= self.vesting_end_time,
            ((self.allocated_percent - self.initial_release) * total_supply) % (
            MAX_SUPPLY_PERCENT as int) + (self.initial_release * total_supply) % (
            MAX_SUPPLY_PERCENT as int) < MAX_SUPPLY_PERCENT as int,
        ensures
            self.spec_claimable(total_supply, at_time) == spec_tokens_from_percent(
                self.allocated_percent as int,
                total_supply,
            ) - spec_tokens_from_percent(self.claimed as int, total_supply),
    {
        lemma_tokens_from_percent_split(
            self.allocated_percent - self.initial_release,
            self.initial_release as int,
            total_supply,
        );
    }

    /// Computes the claimable token amount at `at_time`, re-checking the
    /// schedule invariants first.  Fails with `InvalidAllocation` when the
    /// stored record violates them, or when the recorded `claimed` share
    /// already outweighs what the schedule has released so far.
    pub fn claimable_tokens(&self, total_supply: u128, at_time: u64) -> (r: Result<
        u128,
        VestingError,
    >)
        requires
            1 <= total_supply <= MAX_TOTAL_SUPPLY,
            self.allocated_percent <= MAX_SUPPLY_PERCENT,
        ensures
            match r {
                Ok(v) => self.valid() && 0 <= self.spec_claimable(total_supply as int, at_time)
                    && v == self.spec_claimable(total_supply as int, at_time),
                Err(e) => e == VestingError::InvalidAllocation && (!self.valid()
                    || self.spec_claimable(total_supply as int, at_time) < 0),
            },
    {
        if !self.check_valid() {
            return Err(VestingError::InvalidAllocation);
        }
        let vested: u64 = if at_time < self.vesting_start_time {
            0u64
        } else if at_time >= self.vesting_end_time {
            self.allocated_percent - self.initial_release
        } else {
            let elapsed = (at_time - self.vesting_start_time) / self.vesting_interval;
            let total = (self.vesting_end_time - self.vesting_start_time) / self.vesting_interval;
            proof {
                self.lemma_vested_percent_bounds(at_time);
                lemma_div_is_ordered(
                    self.vesting_interval as int,
                    self.vesting_end_time - self.vesting_start_time,
                    self.vesting_interval as int,
                );
                lemma_div_by_self(self.vesting_interval as int);
                lemma_mul_inequality(
                    self.allocated_percent - self.initial_release,
                    MAX_SUPPLY_PERCENT as int,
                    elapsed as int,
                );
            }
            let wide = (self.allocated_percent - self.initial_release) as u128 * elapsed as u128
                / total as u128;
            proof {
                assert(wide == self.spec_vested_percent(at_time));
                assert(wide <= MAX_SUPPLY_PERCENT);
            }
            wide as u64
        };
        proof {
            self.lemma_vested_percent_bounds(at_time);
            assert(vested == self.spec_vested_percent(at_time));
            lemma_tokens_from_percent_bounds(vested as int, total_supply as int);
            lemma_tokens_from_percent_bounds(self.initial_release as int, total_supply as int);
            lemma_tokens_from_percent_bounds(self.claimed as int, total_supply as int);
            assert(2 * (MAX_TOTAL_SUPPLY as int) <= u128::MAX) by {
                lemma_mul_inequality(2, MAX_SUPPLY_PERCENT as int, MAX_TOTAL_SUPPLY as int);
                vstd::arithmetic::div_mod::lemma_fundamental_div_mod(u128::MAX as int, 10000);
                vstd::arithmetic::div_mod::lemma_mod_division_less_than_divisor(
                    u128::MAX as int,
                    10000,
                );
                vstd::arithmetic::mul::lemma_mul_is_commutative(
                    MAX_SUPPLY_PERCENT as int,
                    MAX_TOTAL_SUPPLY as int,
                );
            }
        }
        let released = tokens_from_percent(vested, total_supply) + tokens_from_percent(
            self.initial_release,
            total_supply,
        );
        let already = tokens_from_percent(self.claimed, total_supply);
        if released < already {
            Err(VestingError::InvalidAllocation)
        } else {
            Ok(released - already)
        }
    }
}

} // verus!
