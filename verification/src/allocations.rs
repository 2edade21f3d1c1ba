//! Validation of the immutable allocation lists supplied at construction.
use vstd::prelude::*;

use crate::accounting::sum_amounts;
use crate::address::Addr;
use crate::errors::BackfillError;
use crate::table::{AllocationTable, entries_map, has_key, keys_distinct, lemma_entries_map_push};

verus! {

/// The two vesting lanes. Each has its own allocations, progress, totals and
/// schedule, and reports its own errors.
#[derive(Clone, Copy, Debug, PartialEq, Eq, Structural)]
pub enum ClaimLane {
    Backfill,
    Grant,
}

/// The error reported for an identity listed twice in a lane's list.
pub open spec fn duplicate_error(lane: ClaimLane) -> BackfillError {
    match lane {
        ClaimLane::Backfill => BackfillError::DuplicateClaimant,
        ClaimLane::Grant => BackfillError::DuplicateGrantee,
    }
}

/// The error reported when a lane's list sums above its cap.
pub open spec fn cap_error(lane: ClaimLane) -> BackfillError {
    match lane {
        ClaimLane::Backfill => BackfillError::ClaimCapExceeded,
        ClaimLane::Grant => BackfillError::GrantCapExceeded,
    }
}

/// The outcome of checking the first `n` entries of an allocation list in
/// order: the running total while every entry so far is acceptable, or the
/// error of the first entry that is not. An entry is refused when it names
/// `contract` or has a non-positive amount, when its identity occurred
/// earlier in the list, when the running total leaves the `i128` range, and
/// when the running total exceeds `cap`, checked in that order.
pub open spec fn scan_allocations(
    list: Seq<(Addr, i128)>,
    contract: Seq<u8>,
    cap: int,
    lane: ClaimLane,
    n: nat,
) -> Result<int, BackfillError>
    decreases n,
{
    if n == 0 {
        Ok(0)
    } else {
        match scan_allocations(list, contract, cap, lane, (n - 1) as nat) {
            Err(e) => Err(e),
            Ok(total) => {
                let who = list[n - 1].0@;
                let amount = list[n - 1].1 as int;
                if who == contract || amount <= 0 {
                    Err(BackfillError::InvalidClaimAmount)
                } else if has_key(list.take(n - 1), who) {
                    Err(duplicate_error(lane))
                } else if total + amount > i128::MAX {
                    Err(BackfillError::Overflow)
                } else if total + amount > cap {
                    Err(cap_error(lane))
                } else {
                    Ok(total + amount)
                }
            },
        }
    }
}

/// Once an entry is refused, the outcome of the whole list is that refusal.
pub proof fn lemma_scan_error_persists(
    list: Seq<(Addr, i128)>,
    contract: Seq<u8>,
    cap: int,
    lane: ClaimLane,
    n: nat,
    m: nat,
)
    requires
        n <= m,
        scan_allocations(list, contract, cap, lane, n) is Err,
    ensures
        scan_allocations(list, contract, cap, lane, m) == scan_allocations(list, contract, cap, lane, n),
    decreases m - n,
{
    if n < m {
        lemma_scan_error_persists(list, contract, cap, lane, n, (m - 1) as nat);
    }
}

/// Checks an allocation list entry by entry, as [`scan_allocations`]
/// describes, and on success returns the allocations as a table together
/// with their sum.
pub fn build_allocations(list: &Vec<(Addr, i128)>, contract: &Addr, cap: i128, lane: ClaimLane) -> (r:
    Result<(AllocationTable, i128), BackfillError>)
    requires
        cap >= 0,
    ensures
        match scan_allocations(list@, contract@, cap as int, lane, list@.len()) {
            Ok(total) => r matches Ok((table, t)) && {
                &&& t == total
                &&& 0 <= t <= cap
                &&& table@ == entries_map(list@)
                &&& table.well_formed()
                &&& sum_amounts(table.entry_seq()) == t
                &&& forall|k: Seq<u8>| #[trigger] table@.dom().contains(k) ==> 0 < table@[k] <= t
                &&& !table@.dom().contains(contract@)
            },
            Err(e) => r == Err::<(AllocationTable, i128), BackfillError>(e),
        },
{
    let n = list.len();
    let mut table = AllocationTable::new();
    let mut total: i128 = 0;
    let mut i: usize = 0;
    assert(list@.take(0) =~= Seq::<(Addr, i128)>::empty());
    while i < n
        invariant
            n == list@.len(),
            i <= n,
            0 <= total <= cap,
            scan_allocations(list@, contract@, cap as int, lane, i as nat) == Ok::<int, BackfillError>(
                total as int,
            ),
            keys_distinct(list@.take(i as int)),
            table@ == entries_map(list@.take(i as int)),
            table.well_formed(),
            sum_amounts(table.entry_seq()) == total,
            forall|k: Seq<u8>| #[trigger] table@.dom().contains(k) ==> 0 < table@[k] <= total,
            !table@.dom().contains(contract@),
        decreases n - i,
    {
        let who = &list[i].0;
        let amount = list[i].1;
        let ghost prefix = list@.take(i as int);
        assert(list@.take(i + 1) =~= prefix.push(list@[i as int]));
        if who.same(contract) || amount <= 0 {
            proof {
                lemma_scan_error_persists(list@, contract@, cap as int, lane, (i + 1) as nat, n as nat);
            }
            return Err(BackfillError::InvalidClaimAmount);
        }
        if table.contains(who) {
            proof {
                lemma_scan_error_persists(list@, contract@, cap as int, lane, (i + 1) as nat, n as nat);
            }
            return match lane {
                ClaimLane::Backfill => Err(BackfillError::DuplicateClaimant),
                ClaimLane::Grant => Err(BackfillError::DuplicateGrantee),
            };
        }
        let next = match total.checked_add(amount) {
            Some(t) => t,
            None => {
                proof {
                    lemma_scan_error_persists(list@, contract@, cap as int, lane, (i + 1) as nat, n as nat);
                }
                return Err(BackfillError::Overflow);
            },
        };
        if next > cap {
            proof {
                lemma_scan_error_persists(list@, contract@, cap as int, lane, (i + 1) as nat, n as nat);
            }
            return match lane {
                ClaimLane::Backfill => Err(BackfillError::ClaimCapExceeded),
                ClaimLane::Grant => Err(BackfillError::GrantCapExceeded),
            };
        }
        table.set(who, amount);
        proof {
            lemma_entries_map_push(prefix, list@[i as int]);
        }
        total = next;
        i = i + 1;
    }
    assert(list@.take(n as int) =~= list@);
    Ok((table, total))
}

} // verus!
