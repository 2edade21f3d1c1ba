//! Properties of the contract that span its operations, proved over the
//! contracts of the operations themselves.
use vstd::prelude::*;

use crate::accounting::{
    lemma_outstanding_nonnegative, lemma_outstanding_remove, outstanding, prior_progress, remaining_of,
};
use crate::allocations::ClaimLane;
use crate::contract::{no_allocation_error, nothing_claimable_error, other_lane, BlntBackfillContract};
use crate::errors::BackfillError;
use crate::table::lemma_entries_map_at;
use crate::accounting::sum_amounts;
use crate::address::Addr;
use crate::allocations::scan_allocations;
use crate::contract::{constructor_error, TokenBinding};
use crate::table::{has_key, keys_distinct};
use crate::vesting::{fits_i128, lemma_vested_bounds, lemma_vested_monotone, vested};
use crate::{BACKFILL_CAP, BLND_PER_BLNT, CLAIM_CAP, GRANT_CAP, SWAP_CAP, TOTAL_FUNDING};

verus! {

/// In a reachable state every lane has paid at most what it allocated, the
/// claims and conversions stay within their caps, and the initial funding
/// covers everything paid so far together with everything still owed to
/// claimants and the unused conversion reserve.
pub proof fn law_funding_covers_obligations(s: BlntBackfillContract)
    requires
        s.consistent(),
    ensures
        0 <= s.backfill_claimed <= s.backfill_allocated,
        0 <= s.grant_claimed <= s.grant_allocated,
        0 <= s.total_claimed <= s.total_allocated <= CLAIM_CAP,
        s.outstanding_claims() >= 0,
        s.expired_reserve() >= 0,
        s.total_claimed + s.outstanding_claims() + s.total_swapped + s.expired_blnt_burned + s.expired_reserve()
            <= TOTAL_FUNDING,
{
    s.lemma_lane_within_allocation(ClaimLane::Backfill);
    s.lemma_lane_within_allocation(ClaimLane::Grant);
}

/// What a lane still owes is at least what it owes one of its recipients.
proof fn lemma_owed_at_least_one(s: BlntBackfillContract, lane: ClaimLane, user: Seq<u8>)
    requires
        s.lane_consistent(lane),
        s.claims_of(lane)@.dom().contains(user),
    ensures
        s.allocated_of(lane) - s.claimed_of(lane) >= s.claims_of(lane)@[user] - prior_progress(
            s.progress_of(lane)@,
            user,
        ),
{
    let claims = s.claims_of(lane);
    let seq = claims.entry_seq();
    let p = s.progress_of(lane)@;
    let i = choose|i: int| 0 <= i < seq.len() && #[trigger] seq[i].0@ == user;
    lemma_entries_map_at(seq, i);
    lemma_outstanding_remove(seq, p, i);
    let rest = seq.remove(i);
    seq.remove_ensures(i);
    assert forall|j: int| 0 <= j < rest.len() implies remaining_of(#[trigger] rest[j], p) >= 0 by {
        let sj = if j < i { j } else { j + 1 };
        assert(rest[j] == seq[sj]);
        lemma_entries_map_at(seq, sj);
        assert(claims@.dom().contains(seq[sj].0@));
    }
    lemma_outstanding_nonnegative(rest, p);
}

/// In a reachable state a claim fails only for the documented reasons (a
/// token movement in progress, the contract as claimant, no open
/// allocation, nothing claimable yet), never by arithmetic, as long as time
/// has not gone back behind the claimant's earlier claims; and when it
/// succeeds it pays the vested amount less the earlier claims.
pub proof fn law_claims_fail_only_as_documented(s: BlntBackfillContract, user: Seq<u8>, lane: ClaimLane, now: u64)
    requires
        s.consistent(),
        s.claims_of(lane)@.dom().contains(user) ==> vested(
            s.claims_of(lane)@[user] as int,
            s.vesting_start as int,
            s.vesting_end_of(lane) as int,
            now as int,
        ) >= prior_progress(s.progress_of(lane)@, user),
    ensures
        s.claim_result(user, lane, now) is Ok || s.claim_result(user, lane, now) == Err::<int, BackfillError>(
            BackfillError::ReentrantCall,
        ) || s.claim_result(user, lane, now) == Err::<int, BackfillError>(BackfillError::InvalidRecipient)
            || s.claim_result(user, lane, now) == Err::<int, BackfillError>(no_allocation_error(lane))
            || s.claim_result(user, lane, now) == Err::<int, BackfillError>(nothing_claimable_error(lane)),
        s.claim_result(user, lane, now) matches Ok(a) ==> a == vested(
            s.claims_of(lane)@[user] as int,
            s.vesting_start as int,
            s.vesting_end_of(lane) as int,
            now as int,
        ) - prior_progress(s.progress_of(lane)@, user),
{
    s.lemma_lane_within_allocation(ClaimLane::Backfill);
    s.lemma_lane_within_allocation(ClaimLane::Grant);
    if !s.locked && user != s.contract@ && s.claims_of(lane)@.dom().contains(user) {
        let a = s.claims_of(lane)@[user] as int;
        let start = s.vesting_start as int;
        let end = s.vesting_end_of(lane) as int;
        let t = now as int;
        lemma_vested_bounds(a, start, end, t);
        lemma_owed_at_least_one(s, lane, user);
        assert(0 < a <= CLAIM_CAP);
        if start < t && t < end {
            assert(0 <= a * (t - start) <= CLAIM_CAP * 0x1_0000_0000_0000_0000) by (nonlinear_arith)
                requires
                    0 < a <= CLAIM_CAP,
                    0 < t - start <= 0x1_0000_0000_0000_0000,
            ;
        }
    }
}

/// Claims catch up with vesting: after a successful claim the claimant's
/// cumulative payout equals the amount vested at the time of the claim, and
/// an allocation is closed exactly when it has been paid in full.
pub proof fn law_claim_catches_up(
    old: BlntBackfillContract,
    new: BlntBackfillContract,
    user: Seq<u8>,
    lane: ClaimLane,
    now: u64,
    amount: int,
)
    requires
        old.consistent(),
        old.claim_result(user, lane, now) == Ok::<int, BackfillError>(amount),
        BlntBackfillContract::claim_applied(old, new, user, lane, amount),
    ensures
        new.claims_of(lane)@.dom().contains(user) ==> prior_progress(new.progress_of(lane)@, user) == vested(
            old.claims_of(lane)@[user] as int,
            old.vesting_start as int,
            old.vesting_end_of(lane) as int,
            now as int,
        ) < old.claims_of(lane)@[user],
        !new.claims_of(lane)@.dom().contains(user) ==> vested(
            old.claims_of(lane)@[user] as int,
            old.vesting_start as int,
            old.vesting_end_of(lane) as int,
            now as int,
        ) == old.claims_of(lane)@[user],
{
}

/// Claims never expire: from the end of a lane's schedule on, a claim by a
/// recipient with an open allocation pays everything not yet claimed and
/// closes the allocation.
pub proof fn law_claim_after_vesting_pays_the_rest(s: BlntBackfillContract, user: Seq<u8>, lane: ClaimLane, now: u64)
    requires
        s.consistent(),
        !s.locked,
        s.claims_of(lane)@.dom().contains(user),
        now >= s.vesting_end_of(lane),
    ensures
        s.claim_result(user, lane, now) == Ok::<int, BackfillError>(
            s.claims_of(lane)@[user] - prior_progress(s.progress_of(lane)@, user),
        ),
        s.claims_of(lane)@[user] - prior_progress(s.progress_of(lane)@, user) > 0,
{
    law_claims_fail_only_as_documented(s, user, lane, now);
}

/// The lanes are independent: a claim in one lane leaves what anybody can
/// claim in the other lane unchanged, even for the same identity.
pub proof fn law_claims_do_not_cross_lanes(
    old: BlntBackfillContract,
    new: BlntBackfillContract,
    user: Seq<u8>,
    lane: ClaimLane,
    amount: int,
    anyone: Seq<u8>,
    now: u64,
)
    requires
        BlntBackfillContract::claim_applied(old, new, user, lane, amount),
    ensures
        new.claimable_view(anyone, other_lane(lane), now) == old.claimable_view(anyone, other_lane(lane), now),
        new.claims_of(other_lane(lane))@ == old.claims_of(other_lane(lane))@,
        new.claimed_of(other_lane(lane)) == old.claimed_of(other_lane(lane)),
{
    match lane {
        ClaimLane::Backfill => {},
        ClaimLane::Grant => {},
    }
}

/// Cumulative BLND burned by conversions is exactly twice the BLNT they
/// paid, and in a reachable state computing it never overflows.
pub proof fn law_blnd_burned_is_twice_swapped(s: BlntBackfillContract)
    requires
        s.consistent(),
    ensures
        fits_i128(s.total_swapped * BLND_PER_BLNT),
        0 <= s.total_swapped * BLND_PER_BLNT <= SWAP_CAP * BLND_PER_BLNT,
{
}

/// Burning the expired reserve is final: once a burn succeeds, nothing is
/// left of the conversion reserve, and every later burn request (at or after
/// the deadline, with no token movement in progress) returns zero whatever
/// the contract's balance.
pub proof fn law_burn_is_final(
    old: BlntBackfillContract,
    new: BlntBackfillContract,
    now: u64,
    balance: int,
    burned: int,
    later: u64,
    later_balance: int,
)
    requires
        old.consistent(),
        old.burn_result(now, balance) == Ok::<int, BackfillError>(burned),
        new.expired_blnt_burned == old.expired_blnt_burned + burned,
        new.total_swapped == old.total_swapped,
        new.same_configuration(old),
        later >= new.swap_deadline,
    ensures
        new.expired_reserve() == 0,
        new.total_swapped + new.expired_blnt_burned == SWAP_CAP,
        !new.locked ==> new.burn_result(later, later_balance) == Ok::<int, BackfillError>(0),
{
}

/// A burn never eats into what claimants are still owed: it succeeds with a
/// positive amount only when the contract holds at least the outstanding
/// claims plus the amount burned, and it is refused before the deadline.
pub proof fn law_burn_keeps_claim_reserve(s: BlntBackfillContract, now: u64, balance: int)
    requires
        !s.locked,
    ensures
        now < s.swap_deadline ==> s.burn_result(now, balance) == Err::<int, BackfillError>(
            BackfillError::SwapNotExpired,
        ),
        s.burn_result(now, balance) matches Ok(x) ==> (x > 0 ==> balance >= s.outstanding_claims() + x
            && x == s.expired_reserve()),
{
}

/// What a claim pays: the amount on success, nothing on a refusal.
pub open spec fn paid(r: Result<int, BackfillError>) -> int {
    match r {
        Ok(a) => a,
        Err(_) => 0,
    }
}

/// `new` is what a claim by `user` in `lane` at `now` leaves of `old`: the
/// claim's update on success, `old` itself on a refusal.
pub open spec fn after_claim(
    old: BlntBackfillContract,
    new: BlntBackfillContract,
    user: Seq<u8>,
    lane: ClaimLane,
    now: u64,
) -> bool {
    match old.claim_result(user, lane, now) {
        Ok(a) => BlntBackfillContract::claim_applied(old, new, user, lane, a),
        Err(_) => new == old,
    }
}

/// Claiming in steps pays the same as claiming once: from a reachable state,
/// a claim at `t1` followed by a claim at a later `t2` pays together exactly
/// what a single claim at `t2` pays (the vested amount at `t2` less earlier
/// claims), and leaves the same allocation and progress records and the same
/// claimed totals. Each of these claims either pays or is refused because
/// nothing is claimable yet or the allocation is already paid in full. Time
/// must not be behind the claimant's earlier claims at `t1`.
pub proof fn law_claims_are_path_independent(
    x: BlntBackfillContract,
    y: BlntBackfillContract,
    z: BlntBackfillContract,
    w: BlntBackfillContract,
    user: Seq<u8>,
    lane: ClaimLane,
    t1: u64,
    t2: u64,
)
    requires
        x.consistent(),
        !x.locked,
        x.claims_of(lane)@.dom().contains(user),
        t1 <= t2,
        vested(x.claims_of(lane)@[user] as int, x.vesting_start as int, x.vesting_end_of(lane) as int, t1 as int)
            >= prior_progress(x.progress_of(lane)@, user),
        after_claim(x, y, user, lane, t1),
        after_claim(y, z, user, lane, t2),
        after_claim(x, w, user, lane, t2),
    ensures
        paid(x.claim_result(user, lane, t1)) + paid(y.claim_result(user, lane, t2)) == paid(
            x.claim_result(user, lane, t2),
        ),
        paid(x.claim_result(user, lane, t2)) == vested(
            x.claims_of(lane)@[user] as int,
            x.vesting_start as int,
            x.vesting_end_of(lane) as int,
            t2 as int,
        ) - prior_progress(x.progress_of(lane)@, user),
        x.claim_result(user, lane, t1) is Err ==> x.claim_result(user, lane, t1) == Err::<int, BackfillError>(
            nothing_claimable_error(lane),
        ),
        x.claim_result(user, lane, t2) is Err ==> x.claim_result(user, lane, t2) == Err::<int, BackfillError>(
            nothing_claimable_error(lane),
        ),
        y.claim_result(user, lane, t2) is Err ==> y.claim_result(user, lane, t2) == Err::<int, BackfillError>(
            nothing_claimable_error(lane),
        ) || y.claim_result(user, lane, t2) == Err::<int, BackfillError>(no_allocation_error(lane)),
        z.claims_of(lane)@ == w.claims_of(lane)@,
        z.progress_of(lane)@ == w.progress_of(lane)@,
        z.claimed_of(lane) == w.claimed_of(lane),
        z.total_claimed == w.total_claimed,
{
    let a = x.claims_of(lane)@[user] as int;
    let start = x.vesting_start as int;
    let end = x.vesting_end_of(lane) as int;
    let p = prior_progress(x.progress_of(lane)@, user);
    let v1 = vested(a, start, end, t1 as int);
    let v2 = vested(a, start, end, t2 as int);
    assert(a > 0);
    lemma_vested_monotone(a, start, end, t1 as int, t2 as int);
    law_claims_fail_only_as_documented(x, user, lane, t1);
    law_claims_fail_only_as_documented(x, user, lane, t2);
    x.lemma_lane_within_allocation(ClaimLane::Backfill);
    x.lemma_lane_within_allocation(ClaimLane::Grant);
    lemma_owed_at_least_one(x, lane, user);
    assert(0 < a <= CLAIM_CAP);
    assert(0 <= p < a);
    let xp = x.progress_of(lane)@;
    let xc = x.claims_of(lane)@;
    if v1 - p > 0 {
        assert(x.claim_result(user, lane, t1) == Ok::<int, BackfillError>(v1 - p));
        assert(x.claim_result(user, lane, t2) == Ok::<int, BackfillError>(v2 - p));
        if v1 == a {
            // The first claim closed the allocation.
            assert(!y.claims_of(lane)@.dom().contains(user));
            assert(y.claim_result(user, lane, t2) == Err::<int, BackfillError>(no_allocation_error(lane)));
            assert(z == y);
        } else {
            assert(y.claims_of(lane)@ == xc);
            assert(y.progress_of(lane)@ == xp.insert(user, v1 as i128));
            assert(prior_progress(y.progress_of(lane)@, user) == v1);
            assert(y.claims_of(lane)@[user] == a);
            assert(y.vesting_start == x.vesting_start && y.vesting_end_of(lane) == x.vesting_end_of(lane));
            if v2 - v1 == 0 {
                assert(y.claim_result(user, lane, t2) == Err::<int, BackfillError>(nothing_claimable_error(lane)));
                assert(z == y);
            } else {
                // Computing the second claim stays in range.
                if start < t2 && t2 < end {
                    assert(0 <= a * (t2 - start) <= CLAIM_CAP * 0x1_0000_0000_0000_0000) by (nonlinear_arith)
                        requires
                            0 < a <= CLAIM_CAP,
                            0 < t2 - start <= 0x1_0000_0000_0000_0000,
                    ;
                }
                assert(y.claim_result(user, lane, t2) == Ok::<int, BackfillError>(v2 - v1));
                if v2 == a {
                    assert(z.progress_of(lane)@ =~= w.progress_of(lane)@);
                } else {
                    assert(z.progress_of(lane)@ =~= w.progress_of(lane)@);
                }
            }
        }
    } else {
        assert(x.claim_result(user, lane, t1) == Err::<int, BackfillError>(nothing_claimable_error(lane)));
        assert(y == x);
    }
}

/// The BLNT the contract holds, when it received `funding` right after
/// construction and BLNT has since left it only through its own payouts and
/// burns: the funding less everything claimed, converted and burned.
pub open spec fn blnt_held(s: BlntBackfillContract, funding: int) -> int {
    funding - s.total_claimed - s.total_swapped - s.expired_blnt_burned
}

/// A claim lowers the BLNT the contract holds by exactly the amount it pays.
pub proof fn law_claim_pays_out_of_holdings(
    old: BlntBackfillContract,
    new: BlntBackfillContract,
    user: Seq<u8>,
    lane: ClaimLane,
    amount: int,
    funding: int,
)
    requires
        BlntBackfillContract::claim_applied(old, new, user, lane, amount),
    ensures
        blnt_held(new, funding) == blnt_held(old, funding) - amount,
{
}

/// A conversion lowers the BLNT the contract holds by exactly the BLNT it
/// pays the user.
pub proof fn law_swap_pays_out_of_holdings(
    old: BlntBackfillContract,
    new: BlntBackfillContract,
    user: Seq<u8>,
    blnt_amount: int,
    now: u64,
    funding: int,
)
    requires
        old.swap_result(user, blnt_amount, now) is Ok,
        new.total_swapped == old.swap_result(user, blnt_amount, now)->Ok_0,
        new.same_claims(old),
        new.expired_blnt_burned == old.expired_blnt_burned,
    ensures
        blnt_held(new, funding) == blnt_held(old, funding) - blnt_amount,
{
}

/// After a successful burn of the expired reserve the contract, funded with
/// the full initial funding, holds exactly the claim cap less what claims
/// have paid, which covers everything still owed to claimants; the burn
/// itself lowered the holdings by exactly the amount burned.
pub proof fn law_burn_leaves_claim_holdings(
    old: BlntBackfillContract,
    new: BlntBackfillContract,
    now: u64,
    balance: int,
    burned: int,
)
    requires
        old.consistent(),
        old.burn_result(now, balance) == Ok::<int, BackfillError>(burned),
        new.expired_blnt_burned == old.expired_blnt_burned + burned,
        new.total_swapped == old.total_swapped,
        new.same_claims(old),
        new.same_configuration(old),
    ensures
        blnt_held(new, TOTAL_FUNDING as int) == blnt_held(old, TOTAL_FUNDING as int) - burned,
        blnt_held(new, TOTAL_FUNDING as int) == CLAIM_CAP - new.total_claimed,
        blnt_held(new, TOTAL_FUNDING as int) >= new.outstanding_claims(),
{
}

/// What a view reports for a recipient is that recipient's own vested
/// amount less that recipient's own earlier claims: zero without an open
/// allocation, and otherwise, whenever it reports a value, the allocation's
/// vested amount at `now` less the recipient's own progress entry (zero
/// without one). In a reachable state, with time not behind the recipient's
/// earlier claims, the view always reports a value.
pub proof fn law_claimable_is_own_vested_less_own_claims(
    s: BlntBackfillContract,
    user: Seq<u8>,
    lane: ClaimLane,
    now: u64,
)
    ensures
        !s.claims_of(lane)@.dom().contains(user) ==> s.claimable_view(user, lane, now) == Ok::<int, BackfillError>(0),
        s.claims_of(lane)@.dom().contains(user) ==> (s.claimable_view(user, lane, now) matches Ok(v) ==> v == vested(
            s.claims_of(lane)@[user] as int,
            s.vesting_start as int,
            s.vesting_end_of(lane) as int,
            now as int,
        ) - (if s.progress_of(lane)@.dom().contains(user) {
            s.progress_of(lane)@[user] as int
        } else {
            0
        })),
        s.consistent() && s.claims_of(lane)@.dom().contains(user) && vested(
            s.claims_of(lane)@[user] as int,
            s.vesting_start as int,
            s.vesting_end_of(lane) as int,
            now as int,
        ) >= (if s.progress_of(lane)@.dom().contains(user) {
            s.progress_of(lane)@[user] as int
        } else {
            0
        }) ==> s.claimable_view(user, lane, now) is Ok,
{
    if s.consistent() && s.claims_of(lane)@.dom().contains(user) {
        let a = s.claims_of(lane)@[user] as int;
        let start = s.vesting_start as int;
        let end = s.vesting_end_of(lane) as int;
        let t = now as int;
        s.lemma_lane_within_allocation(ClaimLane::Backfill);
        s.lemma_lane_within_allocation(ClaimLane::Grant);
        lemma_owed_at_least_one(s, lane, user);
        lemma_vested_bounds(a, start, end, t);
        if start < t && t < end {
            assert(0 <= a * (t - start) <= CLAIM_CAP * 0x1_0000_0000_0000_0000) by (nonlinear_arith)
                requires
                    0 < a <= CLAIM_CAP,
                    0 < t - start <= 0x1_0000_0000_0000_0000,
            ;
        }
    }
}

/// A claim by one recipient does not change what the view reports for any
/// other recipient of the same lane (nor, by the lane law, of the other lane).
pub proof fn law_claim_leaves_others_claimable(
    old: BlntBackfillContract,
    new: BlntBackfillContract,
    user: Seq<u8>,
    lane: ClaimLane,
    amount: int,
    other: Seq<u8>,
    now: u64,
)
    requires
        BlntBackfillContract::claim_applied(old, new, user, lane, amount),
        other != user,
    ensures
        new.claimable_view(other, lane, now) == old.claimable_view(other, lane, now),
{
    let oc = old.claims_of(lane)@;
    let nc = new.claims_of(lane)@;
    let op = old.progress_of(lane)@;
    let np = new.progress_of(lane)@;
    assert(nc.dom().contains(other) == oc.dom().contains(other));
    if oc.dom().contains(other) {
        assert(nc[other] == oc[other]);
    }
    assert(np.dom().contains(other) == op.dom().contains(other));
    if op.dom().contains(other) {
        assert(np[other] == op[other]);
    }
    assert(prior_progress(np, other) == prior_progress(op, other));
}

/// A conversion within the cumulative cap is granted: before the deadline,
/// with no token movement in progress, by anyone but the contract, for a
/// positive amount whose doubled amount fits, a conversion that keeps the
/// cumulative BLNT output at or below the cap succeeds and reports the new
/// cumulative output — however much was converted before.
pub proof fn law_swap_within_cap_succeeds(s: BlntBackfillContract, user: Seq<u8>, blnt_amount: int, now: u64)
    requires
        !s.locked,
        user != s.contract@,
        blnt_amount > 0,
        now < s.swap_deadline,
        fits_i128(s.total_swapped + blnt_amount),
        s.total_swapped + blnt_amount <= SWAP_CAP,
        fits_i128(blnt_amount * 2),
    ensures
        s.swap_result(user, blnt_amount, now) == Ok::<int, BackfillError>(s.total_swapped + blnt_amount),
{
}

/// A conversion past the cumulative cap is refused with `SwapCapExceeded`
/// when every earlier check passes.
pub proof fn law_swap_past_cap_refused(s: BlntBackfillContract, user: Seq<u8>, blnt_amount: int, now: u64)
    requires
        !s.locked,
        user != s.contract@,
        blnt_amount > 0,
        now < s.swap_deadline,
        fits_i128(s.total_swapped + blnt_amount),
        s.total_swapped + blnt_amount > SWAP_CAP,
    ensures
        s.swap_result(user, blnt_amount, now) == Err::<int, BackfillError>(BackfillError::SwapCapExceeded),
{
}

/// An allocation list is acceptable: no entry is for `contract`, every
/// amount is positive, no identity occurs twice, and the amounts sum to at
/// most `cap`.
pub open spec fn list_acceptable(list: Seq<(Addr, i128)>, contract: Seq<u8>, cap: int) -> bool {
    &&& keys_distinct(list)
    &&& forall|i: int| 0 <= i < list.len() ==> (#[trigger] list[i]).0@ != contract && list[i].1 > 0
    &&& sum_amounts(list) <= cap
}

/// With positive amounts, a prefix sums to at most the whole list.
proof fn lemma_prefix_sum_bounded(list: Seq<(Addr, i128)>, n: int)
    requires
        0 <= n <= list.len(),
        forall|i: int| 0 <= i < list.len() ==> (#[trigger] list[i]).1 > 0,
    ensures
        0 <= sum_amounts(list.take(n)) <= sum_amounts(list),
    decreases list.len() - n,
{
    let prefix = list.take(n);
    assert forall|i: int| 0 <= i < prefix.len() implies (#[trigger] prefix[i]).1 > 0 by {
        assert(prefix[i] == list[i]);
    }
    lemma_sum_nonnegative(prefix);
    if n < list.len() {
        lemma_prefix_sum_bounded(list, n + 1);
        assert(list.take(n + 1).drop_last() =~= list.take(n));
        assert(list.take(n + 1).last() == list[n]);
    } else {
        assert(list.take(n) =~= list);
        lemma_sum_nonnegative(list);
    }
}

proof fn lemma_sum_nonnegative(list: Seq<(Addr, i128)>)
    requires
        forall|i: int| 0 <= i < list.len() ==> (#[trigger] list[i]).1 > 0,
    ensures
        sum_amounts(list) >= 0,
    decreases list.len(),
{
    if list.len() > 0 {
        let init = list.drop_last();
        assert forall|i: int| 0 <= i < init.len() implies (#[trigger] init[i]).1 > 0 by {
            assert(init[i] == list[i]);
        }
        lemma_sum_nonnegative(init);
        assert(list.last() == list[list.len() - 1]);
    }
}

/// An acceptable list is accepted entry by entry, with its sum as total.
proof fn lemma_acceptable_list_scans(list: Seq<(Addr, i128)>, contract: Seq<u8>, cap: int, lane: ClaimLane, n: nat)
    requires
        list_acceptable(list, contract, cap),
        cap <= i128::MAX,
        n <= list.len(),
    ensures
        scan_allocations(list, contract, cap, lane, n) == Ok::<int, BackfillError>(sum_amounts(list.take(n as int))),
    decreases n,
{
    if n == 0 {
        assert(list.take(0) =~= Seq::<(Addr, i128)>::empty());
    } else {
        let m = (n - 1) as nat;
        lemma_acceptable_list_scans(list, contract, cap, lane, m);
        let prefix = list.take(m as int);
        assert(list.take(n as int).drop_last() =~= prefix);
        assert(list.take(n as int).last() == list[m as int]);
        assert(list[m as int].0@ != contract && list[m as int].1 > 0);
        if has_key(prefix, list[m as int].0@) {
            let j = choose|j: int| 0 <= j < prefix.len() && #[trigger] prefix[j].0@ == list[m as int].0@;
            assert(prefix[j] == list[j]);
            assert(list[j].0@ != list[m as int].0@);
        }
        lemma_prefix_sum_bounded(list, n as int);
    }
}

/// Construction succeeds on everything the contract accepts: two distinct
/// Stellar Asset Contracts with seven decimals, at most 434 backfill and at
/// most 100 grant recipients (checked separately, whatever the two add up
/// to), acceptable lists within the backfill and grant caps, and a start
/// time from which every schedule end still fits.
pub proof fn law_acceptable_construction_succeeds(
    contract: Seq<u8>,
    legacy: TokenBinding,
    blnt: TokenBinding,
    claim_list: Seq<(Addr, i128)>,
    grant_list: Seq<(Addr, i128)>,
    now: u64,
)
    requires
        legacy.address@ != blnt.address@,
        legacy.is_stellar_asset,
        blnt.is_stellar_asset,
        legacy.decimals == 7,
        blnt.decimals == 7,
        claim_list.len() <= 434,
        grant_list.len() <= 100,
        list_acceptable(claim_list, contract, BACKFILL_CAP as int),
        list_acceptable(grant_list, contract, GRANT_CAP as int),
        now as int + 720 * 24 * 60 * 60 <= u64::MAX,
    ensures
        constructor_error(contract, legacy, blnt, claim_list, grant_list, now) is None,
{
    lemma_acceptable_list_scans(claim_list, contract, BACKFILL_CAP as int, ClaimLane::Backfill, claim_list.len());
    lemma_acceptable_list_scans(grant_list, contract, GRANT_CAP as int, ClaimLane::Grant, grant_list.len());
    assert(claim_list.take(claim_list.len() as int) =~= claim_list);
    assert(grant_list.take(grant_list.len() as int) =~= grant_list);
}

/// Construction refuses token bindings that are not two distinct Stellar
/// Asset Contracts reporting exactly seven decimals, before anything else.
pub proof fn law_invalid_tokens_refused(
    contract: Seq<u8>,
    legacy: TokenBinding,
    blnt: TokenBinding,
    claim_list: Seq<(Addr, i128)>,
    grant_list: Seq<(Addr, i128)>,
    now: u64,
)
    requires
        legacy.address@ == blnt.address@ || !legacy.is_stellar_asset || !blnt.is_stellar_asset || legacy.decimals
            != 7 || blnt.decimals != 7,
    ensures
        constructor_error(contract, legacy, blnt, claim_list, grant_list, now) == Some(BackfillError::InvalidToken),
{
}

/// The vested amount is the floor of `allocation * elapsed / duration`
/// while the schedule runs: for a non-negative allocation it is the largest
/// `q` with `q * (end - start) <= allocation * (now - start)`, so it is
/// positive as soon as `allocation * (now - start)` reaches the duration.
pub proof fn law_vested_is_floor_of_linear_share(allocation: int, start: int, end: int, now: int)
    requires
        allocation >= 0,
        start < now < end,
    ensures
        vested(allocation, start, end, now) * (end - start) <= allocation * (now - start),
        allocation * (now - start) < (vested(allocation, start, end, now) + 1) * (end - start),
        vested(allocation, start, end, now) == allocation * (now - start) / (end - start),
        allocation * (now - start) >= end - start ==> vested(allocation, start, end, now) > 0,
{
    let d = end - start;
    let p = allocation * (now - start);
    assert(p >= 0) by (nonlinear_arith)
        requires
            allocation >= 0,
            now - start > 0,
            p == allocation * (now - start),
    ;
    let q = p / d;
    assert(q * d <= p && p < (q + 1) * d) by (nonlinear_arith)
        requires
            d > 0,
            p >= 0,
            q == p / d,
    ;
    if p >= d {
        assert(q > 0) by (nonlinear_arith)
            requires
                d > 0,
                p >= d,
                p < (q + 1) * d,
        ;
    }
}

} // verus!
