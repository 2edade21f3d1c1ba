//! The contract's state and every operation on it: construction, the two
//! vesting claims, the BLND-to-BLNT conversion, the burn of the expired
//! conversion reserve, and the views.
use vstd::prelude::*;

use crate::accounting::{
    lemma_outstanding_nonnegative, lemma_outstanding_no_progress, lemma_outstanding_remove,
    lemma_outstanding_same_progress, outstanding, prior_progress, remaining_of,
};
use crate::address::Addr;
use crate::allocations::{build_allocations, scan_allocations, ClaimLane};
use crate::errors::BackfillError;
use crate::table::{entries_map, lemma_entries_map_at, AllocationTable};
use crate::vesting::{claimable_amount, claimable_fails, fits_i128, unclaimed};
use crate::{
    BACKFILL_CAP, BLND_PER_BLNT, CLAIM_CAP, GRANT_CAP, GRANT_VESTING_DURATION_SECONDS,
    MAX_CLAIMANTS, MAX_GRANTEES, SWAP_CAP, SWAP_DURATION_SECONDS, VESTING_DURATION_SECONDS,
};

verus! {

/// A token contract offered for binding at construction, with the facts the
/// contract checks about it.
#[derive(Clone, Debug)]
pub struct TokenBinding {
    /// The token contract's identity.
    pub address: Addr,
    /// Whether the token contract is a Stellar Asset Contract.
    pub is_stellar_asset: bool,
    /// The number of decimals the token reports.
    pub decimals: u32,
}

/// What one successful conversion moved.
#[derive(Clone, Copy, Debug, PartialEq, Eq, Structural)]
pub struct Conversion {
    /// Legacy BLND taken from the user and burned.
    pub blnd_burned: i128,
    /// BLNT paid to the user.
    pub blnt_received: i128,
    /// Cumulative BLNT paid by all conversions, this one included.
    pub total_blnt_swapped: i128,
}

/// Everything the contract records.
#[derive(Clone, Debug)]
pub struct BlntBackfillContract {
    /// The contract's own identity, which may never receive a payout.
    pub contract: Addr,
    /// The legacy BLND token contract.
    pub legacy_blnd: Addr,
    /// The BLNT token contract.
    pub blnt: Addr,
    /// Sum of the backfill and grant allocations.
    pub total_allocated: i128,
    /// Sum of the backfill allocations.
    pub backfill_allocated: i128,
    /// Sum of the grant allocations.
    pub grant_allocated: i128,
    /// BLNT paid by all claims of either lane.
    pub total_claimed: i128,
    /// BLNT paid by backfill claims.
    pub backfill_claimed: i128,
    /// BLNT paid by grant claims.
    pub grant_claimed: i128,
    /// BLNT paid by conversions.
    pub total_swapped: i128,
    /// Unused conversion reserve destroyed after the deadline.
    pub expired_blnt_burned: i128,
    /// Construction time, at which both schedules start.
    pub vesting_start: u64,
    /// End of the backfill schedule.
    pub vesting_end: u64,
    /// End of the grant schedule.
    pub grant_vesting_end: u64,
    /// First instant at which conversions are refused.
    pub swap_deadline: u64,
    /// Set while a token-moving operation is in progress.
    pub locked: bool,
    /// Backfill allocations not yet fully claimed.
    pub backfill_claims: AllocationTable,
    /// Amount already claimed by each backfill recipient with an open allocation.
    pub backfill_progress: AllocationTable,
    /// Grant allocations not yet fully claimed.
    pub grant_claims: AllocationTable,
    /// Amount already claimed by each grant recipient with an open allocation.
    pub grant_progress: AllocationTable,
}

/// The lane that is not `lane`.
pub open spec fn other_lane(lane: ClaimLane) -> ClaimLane {
    match lane {
        ClaimLane::Backfill => ClaimLane::Grant,
        ClaimLane::Grant => ClaimLane::Backfill,
    }
}

/// The error for a claim by an identity without an open allocation.
pub open spec fn no_allocation_error(lane: ClaimLane) -> BackfillError {
    match lane {
        ClaimLane::Backfill => BackfillError::NoClaim,
        ClaimLane::Grant => BackfillError::NoGrant,
    }
}

/// The error for a claim when nothing is currently claimable.
pub open spec fn nothing_claimable_error(lane: ClaimLane) -> BackfillError {
    match lane {
        ClaimLane::Backfill => BackfillError::NothingClaimable,
        ClaimLane::Grant => BackfillError::NothingGrantClaimable,
    }
}

/// The token bindings are acceptable: two distinct Stellar Asset Contracts
/// with seven decimals each.
pub open spec fn tokens_valid(legacy: TokenBinding, blnt: TokenBinding) -> bool {
    &&& legacy.address@ != blnt.address@
    &&& legacy.is_stellar_asset
    &&& blnt.is_stellar_asset
    &&& legacy.decimals == 7
    &&& blnt.decimals == 7
}

/// The first reason, in the order the constructor checks them, to refuse the
/// given construction arguments; `None` when construction succeeds.
pub open spec fn constructor_error(
    contract: Seq<u8>,
    legacy: TokenBinding,
    blnt: TokenBinding,
    claim_list: Seq<(Addr, i128)>,
    grant_list: Seq<(Addr, i128)>,
    now: u64,
) -> Option<BackfillError> {
    let claims = scan_allocations(claim_list, contract, BACKFILL_CAP as int, ClaimLane::Backfill, claim_list.len());
    let grants = scan_allocations(grant_list, contract, GRANT_CAP as int, ClaimLane::Grant, grant_list.len());
    if !tokens_valid(legacy, blnt) {
        Some(BackfillError::InvalidToken)
    } else if claim_list.len() > MAX_CLAIMANTS {
        Some(BackfillError::TooManyClaimants)
    } else if grant_list.len() > MAX_GRANTEES {
        Some(BackfillError::TooManyGrantees)
    } else if claims is Err {
        Some(claims->Err_0)
    } else if grants is Err {
        Some(grants->Err_0)
    } else if claims->Ok_0 + grants->Ok_0 > CLAIM_CAP {
        Some(BackfillError::ClaimCapExceeded)
    } else if now + VESTING_DURATION_SECONDS > u64::MAX || now + GRANT_VESTING_DURATION_SECONDS > u64::MAX
        || now + SWAP_DURATION_SECONDS > u64::MAX {
        Some(BackfillError::Overflow)
    } else {
        None
    }
}

impl BlntBackfillContract {
    /// The open allocations of a lane.
    pub open spec fn claims_of(self, lane: ClaimLane) -> AllocationTable {
        match lane {
            ClaimLane::Backfill => self.backfill_claims,
            ClaimLane::Grant => self.grant_claims,
        }
    }

    /// The claim progress of a lane.
    pub open spec fn progress_of(self, lane: ClaimLane) -> AllocationTable {
        match lane {
            ClaimLane::Backfill => self.backfill_progress,
            ClaimLane::Grant => self.grant_progress,
        }
    }

    /// BLNT paid by a lane's claims.
    pub open spec fn claimed_of(self, lane: ClaimLane) -> int {
        match lane {
            ClaimLane::Backfill => self.backfill_claimed as int,
            ClaimLane::Grant => self.grant_claimed as int,
        }
    }

    /// Sum of a lane's allocations.
    pub open spec fn allocated_of(self, lane: ClaimLane) -> int {
        match lane {
            ClaimLane::Backfill => self.backfill_allocated as int,
            ClaimLane::Grant => self.grant_allocated as int,
        }
    }

    /// End of a lane's vesting schedule.
    pub open spec fn vesting_end_of(self, lane: ClaimLane) -> u64 {
        match lane {
            ClaimLane::Backfill => self.vesting_end,
            ClaimLane::Grant => self.grant_vesting_end,
        }
    }

    /// The fields that no operation after construction changes.
    pub open spec fn same_configuration(self, other: Self) -> bool {
        &&& self.contract@ == other.contract@
        &&& self.legacy_blnd@ == other.legacy_blnd@
        &&& self.blnt@ == other.blnt@
        &&& self.total_allocated == other.total_allocated
        &&& self.backfill_allocated == other.backfill_allocated
        &&& self.grant_allocated == other.grant_allocated
        &&& self.vesting_start == other.vesting_start
        &&& self.vesting_end == other.vesting_end
        &&& self.grant_vesting_end == other.grant_vesting_end
        &&& self.swap_deadline == other.swap_deadline
        &&& self.locked == other.locked
    }

    /// The claim bookkeeping of both lanes is the same.
    pub open spec fn same_claims(self, other: Self) -> bool {
        &&& self.backfill_claims@ == other.backfill_claims@
        &&& self.backfill_progress@ == other.backfill_progress@
        &&& self.grant_claims@ == other.grant_claims@
        &&& self.grant_progress@ == other.grant_progress@
        &&& self.total_claimed == other.total_claimed
        &&& self.backfill_claimed == other.backfill_claimed
        &&& self.grant_claimed == other.grant_claimed
    }

    /// One lane's records agree with its totals: the contract itself holds no
    /// allocation, every open allocation is positive and at most the lane's allocated total, progress is recorded only for open allocations and lies
    /// strictly between zero and the allocation, and the lane's allocated
    /// total less what it has paid is exactly what it still owes on its open
    /// allocations.
    pub open spec fn lane_consistent(self, lane: ClaimLane) -> bool {
        let claims = self.claims_of(lane);
        let progress = self.progress_of(lane)@;
        &&& claims.well_formed()
        &&& !claims@.dom().contains(self.contract@)
        &&& forall|k: Seq<u8>| #[trigger] claims@.dom().contains(k) ==> 0 < claims@[k] <= self.allocated_of(lane)
        &&& forall|k: Seq<u8>| #[trigger]
            progress.dom().contains(k) ==> claims@.dom().contains(k) && 0 < progress[k] < claims@[k]
        &&& self.allocated_of(lane) - self.claimed_of(lane) == outstanding(claims.entry_seq(), progress)
    }

    /// The state is one that the contract can reach: both lanes are
    /// consistent, the totals add up and respect their caps, conversions and
    /// expired burns together stay within the conversion reserve, and the
    /// schedules have their fixed lengths.
    pub open spec fn consistent(self) -> bool {
        &&& self.lane_consistent(ClaimLane::Backfill)
        &&& self.lane_consistent(ClaimLane::Grant)
        &&& 0 <= self.backfill_claimed
        &&& 0 <= self.grant_claimed
        &&& 0 <= self.backfill_allocated <= BACKFILL_CAP
        &&& 0 <= self.grant_allocated <= GRANT_CAP
        &&& self.total_allocated == self.backfill_allocated + self.grant_allocated
        &&& self.total_claimed == self.backfill_claimed + self.grant_claimed
        &&& 0 <= self.total_swapped
        &&& 0 <= self.expired_blnt_burned
        &&& self.total_swapped + self.expired_blnt_burned <= SWAP_CAP
        &&& self.vesting_end == self.vesting_start + VESTING_DURATION_SECONDS
        &&& self.grant_vesting_end == self.vesting_start + GRANT_VESTING_DURATION_SECONDS
        &&& self.swap_deadline == self.vesting_start + SWAP_DURATION_SECONDS
    }

    /// In a consistent lane nothing negative is owed, so the lane never pays
    /// more than it allocated.
    pub proof fn lemma_lane_within_allocation(self, lane: ClaimLane)
        requires
            self.lane_consistent(lane),
        ensures
            outstanding(self.claims_of(lane).entry_seq(), self.progress_of(lane)@) >= 0,
            self.claimed_of(lane) <= self.allocated_of(lane),
    {
        let claims = self.claims_of(lane);
        let s = claims.entry_seq();
        let p = self.progress_of(lane)@;
        assert forall|i: int| 0 <= i < s.len() implies remaining_of(#[trigger] s[i], p) >= 0 by {
            lemma_entries_map_at(s, i);
            assert(claims@.dom().contains(s[i].0@));
        }
        lemma_outstanding_nonnegative(s, p);
    }

    /// A successful claim keeps the state consistent.
    proof fn lemma_claim_keeps_consistency(old: Self, new: Self, user: Seq<u8>, lane: ClaimLane, now: u64, amount: int)
        requires
            old.consistent(),
            old.claim_result(user, lane, now) == Ok::<int, BackfillError>(amount),
            Self::claim_applied(old, new, user, lane, amount),
            new.claims_of(other_lane(lane)) == old.claims_of(other_lane(lane)),
            new.progress_of(other_lane(lane)) == old.progress_of(other_lane(lane)),
            new.claims_of(lane).well_formed(),
            prior_progress(old.progress_of(lane)@, user) + amount == old.claims_of(lane)@[user] ==> exists|i: int|
                0 <= i < old.claims_of(lane).entry_seq().len() && #[trigger] old.claims_of(lane).entry_seq()[i].0@
                    == user && new.claims_of(lane).entry_seq() == old.claims_of(lane).entry_seq().remove(i),
            prior_progress(old.progress_of(lane)@, user) + amount != old.claims_of(lane)@[user] ==> new.claims_of(lane)
                == old.claims_of(lane),
        ensures
            new.consistent(),
    {
        let oc = old.claims_of(lane);
        let s = oc.entry_seq();
        let op = old.progress_of(lane)@;
        let np = new.progress_of(lane)@;
        let allocation = oc@[user] as int;
        let prior = prior_progress(op, user);
        assert(prior >= 0);
        let i = if prior + amount == allocation {
            choose|i: int| 0 <= i < s.len() && #[trigger] s[i].0@ == user && new.claims_of(lane).entry_seq() == s.remove(i)
        } else {
            choose|i: int| 0 <= i < s.len() && #[trigger] s[i].0@ == user
        };
        assert(0 <= i < s.len() && s[i].0@ == user);
        lemma_entries_map_at(s, i);
        let rest = s.remove(i);
        s.remove_ensures(i);
        lemma_outstanding_remove(s, op, i);
        assert forall|j: int| 0 <= j < rest.len() implies prior_progress(op, #[trigger] rest[j].0@) == prior_progress(
            np,
            rest[j].0@,
        ) by {
            let sj = if j < i { j } else { j + 1 };
            assert(rest[j] == s[sj]);
            assert(s[sj].0@ != s[i].0@);
        }
        lemma_outstanding_same_progress(rest, op, np);
        if prior + amount == allocation {
            assert(new.claims_of(lane).entry_seq() == rest);
        } else {
            lemma_outstanding_remove(s, np, i);
        }
        assert(new.lane_consistent(lane));
        assert(new.lane_consistent(other_lane(lane)));
        match lane {
            ClaimLane::Backfill => {},
            ClaimLane::Grant => {},
        }
    }

    /// What a claim by `user` in `lane` at `now` yields: the amount paid, or
    /// the error of the first check that fails, in the order the contract
    /// checks them.
    pub open spec fn claim_result(self, user: Seq<u8>, lane: ClaimLane, now: u64) -> Result<int, BackfillError> {
        let claims = self.claims_of(lane)@;
        let allocation = claims[user] as int;
        let prior = prior_progress(self.progress_of(lane)@, user);
        let start = self.vesting_start as int;
        let end = self.vesting_end_of(lane) as int;
        let amount = unclaimed(allocation, prior, start, end, now as int);
        if self.locked {
            Err(BackfillError::ReentrantCall)
        } else if user == self.contract@ {
            Err(BackfillError::InvalidRecipient)
        } else if !claims.dom().contains(user) {
            Err(no_allocation_error(lane))
        } else if claimable_fails(allocation, prior, start, end, now as int) {
            Err(BackfillError::Overflow)
        } else if amount == 0 {
            Err(nothing_claimable_error(lane))
        } else if !fits_i128(prior + amount) || prior + amount > allocation {
            Err(BackfillError::Overflow)
        } else if !fits_i128(self.total_claimed + amount) || !fits_i128(self.claimed_of(lane) + amount) {
            Err(BackfillError::Overflow)
        } else {
            Ok(amount)
        }
    }

    /// `new` is `old` after `user` claimed `amount` in `lane`: the user's
    /// progress grows by `amount`, and once it reaches the allocation both the
    /// allocation and the progress record are closed; the lane's and the
    /// overall claimed totals grow by `amount`; nothing else changes.
    pub open spec fn claim_applied(old: Self, new: Self, user: Seq<u8>, lane: ClaimLane, amount: int) -> bool {
        let allocation = old.claims_of(lane)@[user] as int;
        let progress = prior_progress(old.progress_of(lane)@, user) + amount;
        let other = other_lane(lane);
        &&& new.claims_of(lane)@ == (if progress == allocation {
            old.claims_of(lane)@.remove(user)
        } else {
            old.claims_of(lane)@
        })
        &&& new.progress_of(lane)@ == (if progress == allocation {
            old.progress_of(lane)@.remove(user)
        } else {
            old.progress_of(lane)@.insert(user, progress as i128)
        })
        &&& new.claimed_of(lane) == old.claimed_of(lane) + amount
        &&& new.total_claimed == old.total_claimed + amount
        &&& new.claims_of(other)@ == old.claims_of(other)@
        &&& new.progress_of(other)@ == old.progress_of(other)@
        &&& new.claimed_of(other) == old.claimed_of(other)
        &&& new.same_configuration(old)
        &&& new.total_swapped == old.total_swapped
        &&& new.expired_blnt_burned == old.expired_blnt_burned
    }

    /// Checks that the contract accepts a claim from `user` at all, before
    /// the user's authorization is consulted: no token movement is in
    /// progress and `user` is not the contract itself.
    pub fn precheck_claim(&self, user: &Addr) -> (r: Result<(), BackfillError>)
        ensures
            r == (if self.locked {
                Err(BackfillError::ReentrantCall)
            } else if user@ == self.contract@ {
                Err(BackfillError::InvalidRecipient)
            } else {
                Ok(())
            }),
    {
        if self.locked {
            return Err(BackfillError::ReentrantCall);
        }
        if user.same(&self.contract) {
            return Err(BackfillError::InvalidRecipient);
        }
        Ok(())
    }

    fn claims_ref(&self, lane: ClaimLane) -> (t: &AllocationTable)
        ensures
            *t == self.claims_of(lane),
    {
        match lane {
            ClaimLane::Backfill => &self.backfill_claims,
            ClaimLane::Grant => &self.grant_claims,
        }
    }

    fn progress_ref(&self, lane: ClaimLane) -> (t: &AllocationTable)
        ensures
            *t == self.progress_of(lane),
    {
        match lane {
            ClaimLane::Backfill => &self.backfill_progress,
            ClaimLane::Grant => &self.grant_progress,
        }
    }

    /// Pays `user` everything vested and not yet claimed in `lane` at time
    /// `now`, and returns the amount paid.
    pub fn claim(&mut self, user: &Addr, lane: ClaimLane, now: u64) -> (r: Result<i128, BackfillError>)
        ensures
            match old(self).claim_result(user@, lane, now) {
                Ok(a) => r == Ok::<i128, BackfillError>(a as i128) && Self::claim_applied(
                    *old(self),
                    *final(self),
                    user@,
                    lane,
                    a,
                ),
                Err(e) => r == Err::<i128, BackfillError>(e) && *final(self) == *old(self),
            },
            old(self).consistent() ==> final(self).consistent(),
    {
        let ghost before = *self;
        self.precheck_claim(user)?;
        let allocation = match self.claims_ref(lane).get(user) {
            Some(a) => a,
            None => {
                return match lane {
                    ClaimLane::Backfill => Err(BackfillError::NoClaim),
                    ClaimLane::Grant => Err(BackfillError::NoGrant),
                };
            },
        };
        let previously_claimed = match self.progress_ref(lane).get(user) {
            Some(p) => p,
            None => 0,
        };
        let vesting_end = match lane {
            ClaimLane::Backfill => self.vesting_end,
            ClaimLane::Grant => self.grant_vesting_end,
        };
        let amount = claimable_amount(allocation, previously_claimed, self.vesting_start, vesting_end, now)?;
        if amount == 0 {
            return match lane {
                ClaimLane::Backfill => Err(BackfillError::NothingClaimable),
                ClaimLane::Grant => Err(BackfillError::NothingGrantClaimable),
            };
        }
        let claimant_total = match previously_claimed.checked_add(amount) {
            Some(t) => t,
            None => {
                return Err(BackfillError::Overflow);
            },
        };
        if claimant_total > allocation {
            return Err(BackfillError::Overflow);
        }
        let claimed = match self.total_claimed.checked_add(amount) {
            Some(t) => t,
            None => {
                return Err(BackfillError::Overflow);
            },
        };
        let lane_before = match lane {
            ClaimLane::Backfill => self.backfill_claimed,
            ClaimLane::Grant => self.grant_claimed,
        };
        let lane_claimed = match lane_before.checked_add(amount) {
            Some(t) => t,
            None => {
                return Err(BackfillError::Overflow);
            },
        };
        match lane {
            ClaimLane::Backfill => {
                if claimant_total == allocation {
                    self.backfill_claims.remove(user);
                    self.backfill_progress.remove(user);
                } else {
                    self.backfill_progress.set(user, claimant_total);
                }
                self.backfill_claimed = lane_claimed;
            },
            ClaimLane::Grant => {
                if claimant_total == allocation {
                    self.grant_claims.remove(user);
                    self.grant_progress.remove(user);
                } else {
                    self.grant_progress.set(user, claimant_total);
                }
                self.grant_claimed = lane_claimed;
            },
        }
        self.total_claimed = claimed;
        proof {
            if before.consistent() {
                assert(Self::claim_applied(before, *self, user@, lane, amount as int));
                Self::lemma_claim_keeps_consistency(before, *self, user@, lane, now, amount as int);
            }
        }
        Ok(amount)
    }

    /// Pays `user` the backfill allocation vested and not yet claimed.
    pub fn claim_backfill(&mut self, user: &Addr, now: u64) -> (r: Result<i128, BackfillError>)
        ensures
            match old(self).claim_result(user@, ClaimLane::Backfill, now) {
                Ok(a) => r == Ok::<i128, BackfillError>(a as i128) && Self::claim_applied(
                    *old(self),
                    *final(self),
                    user@,
                    ClaimLane::Backfill,
                    a,
                ),
                Err(e) => r == Err::<i128, BackfillError>(e) && *final(self) == *old(self),
            },
            old(self).consistent() ==> final(self).consistent(),
    {
        self.claim(user, ClaimLane::Backfill, now)
    }

    /// Pays `user` the grant allocation vested and not yet claimed.
    pub fn claim_grant(&mut self, user: &Addr, now: u64) -> (r: Result<i128, BackfillError>)
        ensures
            match old(self).claim_result(user@, ClaimLane::Grant, now) {
                Ok(a) => r == Ok::<i128, BackfillError>(a as i128) && Self::claim_applied(
                    *old(self),
                    *final(self),
                    user@,
                    ClaimLane::Grant,
                    a,
                ),
                Err(e) => r == Err::<i128, BackfillError>(e) && *final(self) == *old(self),
            },
            old(self).consistent() ==> final(self).consistent(),
    {
        self.claim(user, ClaimLane::Grant, now)
    }
}


impl BlntBackfillContract {
    /// Sets up the contract at time `now`: binds the two tokens, records both
    /// allocation lists with empty progress, starts both vesting schedules
    /// and fixes the conversion deadline. `contract` is the contract's own
    /// identity. Refuses, with the first error that
    /// [`constructor_error`] names, token bindings that are not two distinct
    /// seven-decimal Stellar Asset Contracts, overlong lists, list entries
    /// that are unacceptable (see [`scan_allocations`]), allocations above
    /// the combined cap, and schedules that end past the last timestamp.
    pub fn __constructor(
        contract: Addr,
        legacy_blnd_token: TokenBinding,
        blnt_token: TokenBinding,
        claim_list: Vec<(Addr, i128)>,
        grant_list: Vec<(Addr, i128)>,
        now: u64,
    ) -> (r: Result<BlntBackfillContract, BackfillError>)
        ensures
            match constructor_error(contract@, legacy_blnd_token, blnt_token, claim_list@, grant_list@, now) {
                Some(e) => r matches Err(x) && x == e,
                None => r matches Ok(s) && {
                    let backfill = scan_allocations(
                        claim_list@,
                        contract@,
                        BACKFILL_CAP as int,
                        ClaimLane::Backfill,
                        claim_list@.len(),
                    )->Ok_0;
                    let grant = scan_allocations(
                        grant_list@,
                        contract@,
                        GRANT_CAP as int,
                        ClaimLane::Grant,
                        grant_list@.len(),
                    )->Ok_0;
                    &&& s.contract@ == contract@
                    &&& s.legacy_blnd@ == legacy_blnd_token.address@
                    &&& s.blnt@ == blnt_token.address@
                    &&& s.backfill_allocated == backfill
                    &&& s.grant_allocated == grant
                    &&& s.total_allocated == backfill + grant
                    &&& s.total_claimed == 0
                    &&& s.backfill_claimed == 0
                    &&& s.grant_claimed == 0
                    &&& s.total_swapped == 0
                    &&& s.expired_blnt_burned == 0
                    &&& s.vesting_start == now
                    &&& s.vesting_end == now + VESTING_DURATION_SECONDS
                    &&& s.grant_vesting_end == now + GRANT_VESTING_DURATION_SECONDS
                    &&& s.swap_deadline == now + SWAP_DURATION_SECONDS
                    &&& !s.locked
                    &&& s.backfill_claims@ == entries_map(claim_list@)
                    &&& s.grant_claims@ == entries_map(grant_list@)
                    &&& s.backfill_progress@ == Map::<Seq<u8>, i128>::empty()
                    &&& s.grant_progress@ == Map::<Seq<u8>, i128>::empty()
                    &&& s.consistent()
                },
            },
    {
        if legacy_blnd_token.address.same(&blnt_token.address) || !legacy_blnd_token.is_stellar_asset
            || !blnt_token.is_stellar_asset || legacy_blnd_token.decimals != 7 || blnt_token.decimals != 7 {
            return Err(BackfillError::InvalidToken);
        }
        if claim_list.len() > MAX_CLAIMANTS as usize {
            return Err(BackfillError::TooManyClaimants);
        }
        if grant_list.len() > MAX_GRANTEES as usize {
            return Err(BackfillError::TooManyGrantees);
        }
        let (claims, backfill_total) = build_allocations(
            &claim_list,
            &contract,
            BACKFILL_CAP,
            ClaimLane::Backfill,
        )?;
        let (grants, grant_total) = build_allocations(&grant_list, &contract, GRANT_CAP, ClaimLane::Grant)?;
        let total = match backfill_total.checked_add(grant_total) {
            Some(t) => {
                if t <= CLAIM_CAP {
                    t
                } else {
                    return Err(BackfillError::ClaimCapExceeded);
                }
            },
            None => {
                return Err(BackfillError::ClaimCapExceeded);
            },
        };
        let vesting_end = match now.checked_add(VESTING_DURATION_SECONDS) {
            Some(t) => t,
            None => {
                return Err(BackfillError::Overflow);
            },
        };
        let grant_vesting_end = match now.checked_add(GRANT_VESTING_DURATION_SECONDS) {
            Some(t) => t,
            None => {
                return Err(BackfillError::Overflow);
            },
        };
        let swap_deadline = match now.checked_add(SWAP_DURATION_SECONDS) {
            Some(t) => t,
            None => {
                return Err(BackfillError::Overflow);
            },
        };
        proof {
            lemma_outstanding_no_progress(claims.entry_seq());
            lemma_outstanding_no_progress(grants.entry_seq());
        }
        Ok(BlntBackfillContract {
            contract,
            legacy_blnd: legacy_blnd_token.address,
            blnt: blnt_token.address,
            total_allocated: total,
            backfill_allocated: backfill_total,
            grant_allocated: grant_total,
            total_claimed: 0,
            backfill_claimed: 0,
            grant_claimed: 0,
            total_swapped: 0,
            expired_blnt_burned: 0,
            vesting_start: now,
            vesting_end,
            grant_vesting_end,
            swap_deadline,
            locked: false,
            backfill_claims: claims,
            backfill_progress: AllocationTable::new(),
            grant_claims: grants,
            grant_progress: AllocationTable::new(),
        })
    }
}

impl BlntBackfillContract {
    /// What a conversion of `blnt_amount` BLNT by `user` at `now` yields: the
    /// new cumulative BLNT output, or the error of the first check that
    /// fails, in the order the contract checks them.
    pub open spec fn swap_result(self, user: Seq<u8>, blnt_amount: int, now: u64) -> Result<int, BackfillError> {
        let total = self.total_swapped + blnt_amount;
        if self.locked {
            Err(BackfillError::ReentrantCall)
        } else if user == self.contract@ {
            Err(BackfillError::InvalidRecipient)
        } else if blnt_amount <= 0 {
            Err(BackfillError::InvalidSwapAmount)
        } else if now >= self.swap_deadline {
            Err(BackfillError::SwapExpired)
        } else if !fits_i128(total) {
            Err(BackfillError::Overflow)
        } else if total > SWAP_CAP {
            Err(BackfillError::SwapCapExceeded)
        } else if !fits_i128(blnt_amount * BLND_PER_BLNT) {
            Err(BackfillError::Overflow)
        } else {
            Ok(total)
        }
    }

    /// Checks that the contract accepts a conversion request at all, before
    /// the user's authorization is consulted: no token movement is in
    /// progress, `user` is not the contract, the amount is positive and the
    /// deadline has not been reached.
    pub fn precheck_swap(&self, user: &Addr, blnt_amount: i128, now: u64) -> (r: Result<(), BackfillError>)
        ensures
            r == (if self.locked {
                Err(BackfillError::ReentrantCall)
            } else if user@ == self.contract@ {
                Err(BackfillError::InvalidRecipient)
            } else if blnt_amount <= 0 {
                Err(BackfillError::InvalidSwapAmount)
            } else if now >= self.swap_deadline {
                Err(BackfillError::SwapExpired)
            } else {
                Ok(())
            }),
    {
        if self.locked {
            return Err(BackfillError::ReentrantCall);
        }
        if user.same(&self.contract) {
            return Err(BackfillError::InvalidRecipient);
        }
        if blnt_amount <= 0 {
            return Err(BackfillError::InvalidSwapAmount);
        }
        if now >= self.swap_deadline {
            return Err(BackfillError::SwapExpired);
        }
        Ok(())
    }

    /// Converts legacy BLND of `user` into `blnt_amount` pre-funded BLNT at
    /// time `now`: records the larger cumulative output and returns what the
    /// conversion moves (twice `blnt_amount` BLND burned, `blnt_amount` BLNT
    /// paid) together with the new cumulative output.
    pub fn swap_blnd_for_blnt(&mut self, user: &Addr, blnt_amount: i128, now: u64) -> (r: Result<
        Conversion,
        BackfillError,
    >)
        ensures
            match old(self).swap_result(user@, blnt_amount as int, now) {
                Ok(total) => r == Ok::<Conversion, BackfillError>(
                    Conversion {
                        blnd_burned: (blnt_amount * BLND_PER_BLNT) as i128,
                        blnt_received: blnt_amount,
                        total_blnt_swapped: total as i128,
                    },
                ) && final(self).total_swapped == total && final(self).same_configuration(*old(self))
                    && final(self).same_claims(*old(self)) && final(self).expired_blnt_burned
                    == old(self).expired_blnt_burned,
                Err(e) => r == Err::<Conversion, BackfillError>(e) && *final(self) == *old(self),
            },
            old(self).consistent() && (old(self).expired_blnt_burned == 0 || now >= old(self).swap_deadline)
                ==> final(self).consistent(),
    {
        self.precheck_swap(user, blnt_amount, now)?;
        let total = match self.total_swapped.checked_add(blnt_amount) {
            Some(t) => t,
            None => {
                return Err(BackfillError::Overflow);
            },
        };
        if total > SWAP_CAP {
            return Err(BackfillError::SwapCapExceeded);
        }
        let blnd_amount = match blnt_amount.checked_mul(BLND_PER_BLNT) {
            Some(b) => b,
            None => {
                return Err(BackfillError::Overflow);
            },
        };
        self.total_swapped = total;
        Ok(Conversion { blnd_burned: blnd_amount, blnt_received: blnt_amount, total_blnt_swapped: total })
    }

    /// The conversion reserve not used by conversions and not yet burned.
    pub open spec fn expired_reserve(self) -> int {
        SWAP_CAP - self.total_swapped - self.expired_blnt_burned
    }

    /// BLNT promised to recipients and not yet paid to them.
    pub open spec fn outstanding_claims(self) -> int {
        self.total_allocated - self.total_claimed
    }

    /// What burning the expired conversion reserve at `now` yields, when the
    /// contract holds `blnt_balance` BLNT: the amount to burn, or the error
    /// of the first check that fails, in the order the contract checks them.
    /// The burn never touches what is still owed to claimants.
    pub open spec fn burn_result(self, now: u64, blnt_balance: int) -> Result<int, BackfillError> {
        let reserve = self.expired_reserve();
        let outstanding = self.outstanding_claims();
        match self.burn_precheck(now) {
            Err(e) => Err(e),
            Ok(_) => {
                if reserve == 0 {
                    Ok(0)
                } else if !fits_i128(outstanding) || outstanding < 0 || !fits_i128(outstanding + reserve) {
                    Err(BackfillError::Overflow)
                } else if blnt_balance < outstanding + reserve {
                    Err(BackfillError::BalanceMismatch)
                } else if !fits_i128(self.expired_blnt_burned + reserve) {
                    Err(BackfillError::Overflow)
                } else {
                    Ok(reserve)
                }
            },
        }
    }

    /// The part of a burn request at `now` that does not depend on the
    /// contract's balance: the expired reserve, or the error of the first
    /// check that fails, in the order the contract checks them.
    pub open spec fn burn_precheck(self, now: u64) -> Result<int, BackfillError> {
        let capacity = SWAP_CAP - self.total_swapped;
        let reserve = self.expired_reserve();
        if self.locked {
            Err(BackfillError::ReentrantCall)
        } else if now < self.swap_deadline {
            Err(BackfillError::SwapNotExpired)
        } else if !fits_i128(capacity) || capacity < 0 || !fits_i128(reserve) || reserve < 0 {
            Err(BackfillError::Overflow)
        } else {
            Ok(reserve)
        }
    }

    /// Checks a burn request at `now` up to the point where the contract's
    /// balance matters, and returns the expired reserve that a burn would
    /// destroy. When it is zero the burn request returns zero whatever the
    /// balance, so the balance need not be read.
    pub fn precheck_burn(&self, now: u64) -> (r: Result<i128, BackfillError>)
        ensures
            match self.burn_precheck(now) {
                Ok(v) => r == Ok::<i128, BackfillError>(v as i128),
                Err(e) => r == Err::<i128, BackfillError>(e),
            },
            r == Ok::<i128, BackfillError>(0) ==> forall|b: int| #[trigger]
                self.burn_result(now, b) == Ok::<int, BackfillError>(0),
    {
        if self.locked {
            return Err(BackfillError::ReentrantCall);
        }
        if now < self.swap_deadline {
            return Err(BackfillError::SwapNotExpired);
        }
        self.remaining_expired_blnt()
    }

    /// The conversion reserve not taken by conversions: the cap less the
    /// cumulative output; `Overflow` when that is negative or out of range.
    pub fn remaining_swap_capacity(&self) -> (r: Result<i128, BackfillError>)
        ensures
            match r {
                Ok(v) => v == SWAP_CAP - self.total_swapped && v >= 0,
                Err(e) => e == BackfillError::Overflow && (SWAP_CAP - self.total_swapped < 0 || !fits_i128(
                    SWAP_CAP - self.total_swapped,
                )),
            },
    {
        match SWAP_CAP.checked_sub(self.total_swapped) {
            Some(c) => {
                if c >= 0 {
                    Ok(c)
                } else {
                    Err(BackfillError::Overflow)
                }
            },
            None => Err(BackfillError::Overflow),
        }
    }

    /// The conversion reserve neither taken by conversions nor burned yet;
    /// `Overflow` when it, or the remaining capacity, is negative or out of
    /// range.
    pub fn remaining_expired_blnt(&self) -> (r: Result<i128, BackfillError>)
        ensures
            match r {
                Ok(v) => v == self.expired_reserve() && v >= 0 && SWAP_CAP - self.total_swapped >= 0 && fits_i128(
                    SWAP_CAP - self.total_swapped,
                ),
                Err(e) => e == BackfillError::Overflow && {
                    ||| SWAP_CAP - self.total_swapped < 0
                    ||| !fits_i128(SWAP_CAP - self.total_swapped)
                    ||| self.expired_reserve() < 0
                    ||| !fits_i128(self.expired_reserve())
                },
            },
    {
        let capacity = self.remaining_swap_capacity()?;
        match capacity.checked_sub(self.expired_blnt_burned) {
            Some(c) => {
                if c >= 0 {
                    Ok(c)
                } else {
                    Err(BackfillError::Overflow)
                }
            },
            None => Err(BackfillError::Overflow),
        }
    }

    /// Burns, at or after the conversion deadline, the part of the conversion
    /// reserve that conversions did not use and that is not burned yet;
    /// `blnt_balance` is the contract's BLNT balance before the burn. Returns
    /// the amount to burn (zero once everything is burned).
    pub fn burn_expired(&mut self, now: u64, blnt_balance: i128) -> (r: Result<i128, BackfillError>)
        ensures
            match old(self).burn_result(now, blnt_balance as int) {
                Ok(x) => r == Ok::<i128, BackfillError>(x as i128) && final(self).expired_blnt_burned
                    == old(self).expired_blnt_burned + x && final(self).same_configuration(*old(self))
                    && final(self).same_claims(*old(self)) && final(self).total_swapped
                    == old(self).total_swapped,
                Err(e) => r == Err::<i128, BackfillError>(e) && *final(self) == *old(self),
            },
            old(self).consistent() ==> final(self).consistent(),
    {
        let blnt_amount = self.precheck_burn(now)?;
        if blnt_amount == 0 {
            return Ok(0);
        }
        let outstanding = match self.total_allocated.checked_sub(self.total_claimed) {
            Some(c) => {
                if c >= 0 {
                    c
                } else {
                    return Err(BackfillError::Overflow);
                }
            },
            None => {
                return Err(BackfillError::Overflow);
            },
        };
        let required = match outstanding.checked_add(blnt_amount) {
            Some(c) => c,
            None => {
                return Err(BackfillError::Overflow);
            },
        };
        if blnt_balance < required {
            return Err(BackfillError::BalanceMismatch);
        }
        let total_burned = match self.expired_blnt_burned.checked_add(blnt_amount) {
            Some(c) => c,
            None => {
                return Err(BackfillError::Overflow);
            },
        };
        self.expired_blnt_burned = total_burned;
        Ok(blnt_amount)
    }

    /// The currently claimable amount of `user` in `lane` as a view reports
    /// it: zero without an open allocation, else the vested amount less the
    /// progress; `Overflow` when that cannot be computed.
    pub open spec fn claimable_view(self, user: Seq<u8>, lane: ClaimLane, now: u64) -> Result<int, BackfillError> {
        let claims = self.claims_of(lane)@;
        let allocation = claims[user] as int;
        let prior = prior_progress(self.progress_of(lane)@, user);
        let start = self.vesting_start as int;
        let end = self.vesting_end_of(lane) as int;
        if !claims.dom().contains(user) {
            Ok(0)
        } else if claimable_fails(allocation, prior, start, end, now as int) {
            Err(BackfillError::Overflow)
        } else {
            Ok(unclaimed(allocation, prior, start, end, now as int))
        }
    }

    fn lane_claimable(&self, user: &Addr, lane: ClaimLane, now: u64) -> (r: Result<i128, BackfillError>)
        ensures
            match self.claimable_view(user@, lane, now) {
                Ok(v) => r == Ok::<i128, BackfillError>(v as i128),
                Err(e) => r == Err::<i128, BackfillError>(e),
            },
    {
        match self.claims_ref(lane).get(user) {
            Some(allocation) => {
                let previously_claimed = match self.progress_ref(lane).get(user) {
                    Some(p) => p,
                    None => 0,
                };
                let vesting_end = match lane {
                    ClaimLane::Backfill => self.vesting_end,
                    ClaimLane::Grant => self.grant_vesting_end,
                };
                claimable_amount(allocation, previously_claimed, self.vesting_start, vesting_end, now)
            },
            None => Ok(0),
        }
    }

    /// Backfill BLNT of `claimant` vested at `now` and not yet claimed.
    pub fn get_backfill_claimable(&self, claimant: &Addr, now: u64) -> (r: Result<i128, BackfillError>)
        ensures
            match self.claimable_view(claimant@, ClaimLane::Backfill, now) {
                Ok(v) => r == Ok::<i128, BackfillError>(v as i128),
                Err(e) => r == Err::<i128, BackfillError>(e),
            },
    {
        self.lane_claimable(claimant, ClaimLane::Backfill, now)
    }

    /// Grant BLNT of `grantee` vested at `now` and not yet claimed.
    pub fn get_grant_claimable(&self, grantee: &Addr, now: u64) -> (r: Result<i128, BackfillError>)
        ensures
            match self.claimable_view(grantee@, ClaimLane::Grant, now) {
                Ok(v) => r == Ok::<i128, BackfillError>(v as i128),
                Err(e) => r == Err::<i128, BackfillError>(e),
            },
    {
        self.lane_claimable(grantee, ClaimLane::Grant, now)
    }

    /// Legacy BLND burned by all conversions: twice the BLNT they paid.
    pub fn get_total_blnd_burned(&self) -> (r: Result<i128, BackfillError>)
        ensures
            match r {
                Ok(v) => v == self.total_swapped * BLND_PER_BLNT,
                Err(e) => e == BackfillError::Overflow && !fits_i128(self.total_swapped * BLND_PER_BLNT),
            },
    {
        match self.total_swapped.checked_mul(BLND_PER_BLNT) {
            Some(v) => Ok(v),
            None => Err(BackfillError::Overflow),
        }
    }

    /// Conversion capacity left at `now`: the cap less the cumulative output
    /// before the deadline, zero from the deadline on.
    pub fn get_remaining_swap_capacity(&self, now: u64) -> (r: Result<i128, BackfillError>)
        ensures
            now >= self.swap_deadline ==> r == Ok::<i128, BackfillError>(0),
            now < self.swap_deadline ==> match r {
                Ok(v) => v == SWAP_CAP - self.total_swapped && v >= 0,
                Err(e) => e == BackfillError::Overflow && (SWAP_CAP - self.total_swapped < 0 || !fits_i128(
                    SWAP_CAP - self.total_swapped,
                )),
            },
    {
        if now >= self.swap_deadline {
            return Ok(0);
        }
        self.remaining_swap_capacity()
    }

    /// The bound legacy BLND token.
    pub fn get_legacy_blnd_token(&self) -> (r: &Addr)
        ensures
            r@ == self.legacy_blnd@,
    {
        &self.legacy_blnd
    }

    /// The bound BLNT token.
    pub fn get_blnt_token(&self) -> (r: &Addr)
        ensures
            r@ == self.blnt@,
    {
        &self.blnt
    }

    /// Sum of both lanes' allocations.
    pub fn get_total_allocated(&self) -> (r: i128)
        ensures
            r == self.total_allocated,
    {
        self.total_allocated
    }

    /// Sum of the backfill allocations.
    pub fn get_backfill_allocated(&self) -> (r: i128)
        ensures
            r == self.backfill_allocated,
    {
        self.backfill_allocated
    }

    /// Sum of the grant allocations.
    pub fn get_grant_allocated(&self) -> (r: i128)
        ensures
            r == self.grant_allocated,
    {
        self.grant_allocated
    }

    /// BLNT paid by all claims.
    pub fn get_total_claimed(&self) -> (r: i128)
        ensures
            r == self.total_claimed,
    {
        self.total_claimed
    }

    /// BLNT paid by backfill claims.
    pub fn get_backfill_claimed(&self) -> (r: i128)
        ensures
            r == self.backfill_claimed,
    {
        self.backfill_claimed
    }

    /// BLNT paid by grant claims.
    pub fn get_grant_claimed(&self) -> (r: i128)
        ensures
            r == self.grant_claimed,
    {
        self.grant_claimed
    }

    /// Start of backfill vesting.
    pub fn get_vesting_start(&self) -> (r: u64)
        ensures
            r == self.vesting_start,
    {
        self.vesting_start
    }

    /// End of backfill vesting.
    pub fn get_vesting_end(&self) -> (r: u64)
        ensures
            r == self.vesting_end,
    {
        self.vesting_end
    }

    /// Start of grant vesting, which is the start of backfill vesting.
    pub fn get_grant_vesting_start(&self) -> (r: u64)
        ensures
            r == self.vesting_start,
    {
        self.vesting_start
    }

    /// End of grant vesting.
    pub fn get_grant_vesting_end(&self) -> (r: u64)
        ensures
            r == self.grant_vesting_end,
    {
        self.grant_vesting_end
    }

    /// BLNT paid by all conversions.
    pub fn get_total_swapped(&self) -> (r: i128)
        ensures
            r == self.total_swapped,
    {
        self.total_swapped
    }

    /// The conversion deadline.
    pub fn get_swap_deadline(&self) -> (r: u64)
        ensures
            r == self.swap_deadline,
    {
        self.swap_deadline
    }

    /// Unused conversion reserve burned after the deadline.
    pub fn get_expired_blnt_burned(&self) -> (r: i128)
        ensures
            r == self.expired_blnt_burned,
    {
        self.expired_blnt_burned
    }
}

} // verus!
