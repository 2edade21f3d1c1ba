//! Linear vesting: how much of an allocation has vested at a given time, and
//! how much of that is still unclaimed.
use vstd::prelude::*;
use vstd::arithmetic::div_mod::{
    lemma_div_is_ordered, lemma_div_is_ordered_by_denominator, lemma_div_multiples_vanish,
};

use crate::errors::BackfillError;

verus! {

/// Integer division as the machine performs it: the quotient is rounded
/// toward zero. (For a non-negative dividend this is the floor.)
pub open spec fn div_toward_zero(a: int, d: int) -> int {
    if a >= 0 {
        a / d
    } else {
        -((-a) / d)
    }
}

/// The value fits in an `i128`.
pub open spec fn fits_i128(v: int) -> bool {
    i128::MIN <= v <= i128::MAX
}

/// Cumulative amount of `allocation` vested at time `now` for a schedule that
/// starts at `start` and ends at `end`: nothing up to the start, everything
/// from the end on, and `allocation * (now - start) / (end - start)` in
/// between.
pub open spec fn vested(allocation: int, start: int, end: int, now: int) -> int {
    if now <= start {
        0
    } else if now >= end {
        allocation
    } else {
        div_toward_zero(allocation * (now - start), end - start)
    }
}

/// Computing the vested amount overflows: the schedule is running and the
/// product `allocation * (now - start)` leaves the `i128` range.
pub open spec fn vesting_overflows(allocation: int, start: int, end: int, now: int) -> bool {
    start < now < end && !fits_i128(allocation * (now - start))
}

/// The amount of `allocation` vested at `now` under the schedule from
/// `vesting_start` to `vesting_end`.
pub fn vested_amount(allocation: i128, vesting_start: u64, vesting_end: u64, now: u64) -> (r: Result<
    i128,
    BackfillError,
>)
    ensures
        r is Err <==> vesting_overflows(allocation as int, vesting_start as int, vesting_end as int, now as int),
        match r {
            Ok(v) => v == vested(allocation as int, vesting_start as int, vesting_end as int, now as int),
            Err(e) => e == BackfillError::Overflow,
        },
{
    if now <= vesting_start {
        return Ok(0);
    }
    if now >= vesting_end {
        return Ok(allocation);
    }
    let duration = vesting_end - vesting_start;
    let elapsed = now - vesting_start;
    match allocation.checked_mul(elapsed as i128) {
        None => Err(BackfillError::Overflow),
        Some(product) => {
            match product.checked_div(duration as i128) {
                Some(v) => Ok(v),
                None => {
                    // A positive divisor never makes the quotient leave the range.
                    proof {
                        let x = product as int;
                        let d = duration as int;
                        if x > 0 {
                            lemma_div_is_ordered_by_denominator(x, 1, d);
                            lemma_div_is_ordered(0, x, d);
                        } else if x < 0 {
                            lemma_div_is_ordered_by_denominator(-x, 1, d);
                            lemma_div_is_ordered(0, -x, d);
                        }
                    }
                    Err(BackfillError::Overflow)
                },
            }
        },
    }
}

/// Vested but not yet claimed, given that `claimed` has already been paid.
pub open spec fn unclaimed(allocation: int, claimed: int, start: int, end: int, now: int) -> int {
    vested(allocation, start, end, now) - claimed
}

/// The unclaimed amount cannot be computed: vesting overflows, or the result
/// is negative or leaves the `i128` range.
pub open spec fn claimable_fails(allocation: int, claimed: int, start: int, end: int, now: int) -> bool {
    ||| vesting_overflows(allocation, start, end, now)
    ||| unclaimed(allocation, claimed, start, end, now) < 0
    ||| !fits_i128(unclaimed(allocation, claimed, start, end, now))
}

/// The vested amount of `allocation` at `now` less the `claimed` part; an
/// `Overflow` error when that cannot be computed or is negative.
pub fn claimable_amount(allocation: i128, claimed: i128, vesting_start: u64, vesting_end: u64, now: u64) -> (r:
    Result<i128, BackfillError>)
    ensures
        r is Err <==> claimable_fails(
            allocation as int,
            claimed as int,
            vesting_start as int,
            vesting_end as int,
            now as int,
        ),
        match r {
            Ok(v) => v == unclaimed(
                allocation as int,
                claimed as int,
                vesting_start as int,
                vesting_end as int,
                now as int,
            ),
            Err(e) => e == BackfillError::Overflow,
        },
{
    let vested = vested_amount(allocation, vesting_start, vesting_end, now)?;
    match vested.checked_sub(claimed) {
        Some(amount) => {
            if amount >= 0 {
                Ok(amount)
            } else {
                Err(BackfillError::Overflow)
            }
        },
        None => Err(BackfillError::Overflow),
    }
}

/// Vesting never goes backwards and never exceeds the allocation: for a
/// non-negative allocation, the vested amount lies between zero and the
/// allocation and does not decrease as time passes.
pub proof fn lemma_vested_monotone(allocation: int, start: int, end: int, t1: int, t2: int)
    requires
        allocation >= 0,
        t1 <= t2,
    ensures
        0 <= vested(allocation, start, end, t1) <= vested(allocation, start, end, t2) <= allocation,
{
    lemma_vested_bounds(allocation, start, end, t1);
    lemma_vested_bounds(allocation, start, end, t2);
    if start < t1 && t2 < end {
        let d = end - start;
        assert(allocation * (t1 - start) <= allocation * (t2 - start)) by (nonlinear_arith)
            requires
                t1 - start <= t2 - start,
                allocation >= 0,
        ;
        lemma_div_is_ordered(allocation * (t1 - start), allocation * (t2 - start), d);
    }
}

/// For a non-negative allocation the vested amount lies between zero and the
/// allocation.
pub proof fn lemma_vested_bounds(allocation: int, start: int, end: int, now: int)
    requires
        allocation >= 0,
    ensures
        0 <= vested(allocation, start, end, now) <= allocation,
{
    if start < now && now < end {
        let d = end - start;
        let p = allocation * (now - start);
        assert(0 <= p <= allocation * d) by (nonlinear_arith)
            requires
                allocation >= 0,
                0 < now - start < d,
                p == allocation * (now - start),
        ;
        lemma_div_is_ordered(0, p, d);
        lemma_div_is_ordered(p, allocation * d, d);
        assert(allocation * d == d * allocation) by (nonlinear_arith);
        lemma_div_multiples_vanish(allocation, d);
    }
}

} // verus!
