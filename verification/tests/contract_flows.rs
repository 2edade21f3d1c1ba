//! End-to-end scenarios: the contract's state driven through the same
//! sequence of checks, authorization and token movements that a deployment
//! performs, with a small in-memory token ledger standing in for the tokens.

use std::collections::HashMap;

use blnt_backfill::contract::{BlntBackfillContract, TokenBinding};
use blnt_backfill::settlement::{burn_matches, transfer_matches};
use blnt_backfill::{
    Addr, BackfillError, BACKFILL_CAP, BLND_PER_BLNT, CLAIM_CAP, GRANT_CAP, GRANT_VESTING_DURATION_SECONDS,
    MAX_CLAIMANTS, MAX_GRANTEES, SCALAR_7, SWAP_BLND_CAP, SWAP_CAP, SWAP_DURATION_SECONDS, TOTAL_FUNDING,
    VESTING_DURATION_SECONDS,
};

#[derive(Clone, Default)]
struct Token {
    balances: HashMap<Vec<u8>, i128>,
}

impl Token {
    fn balance(&self, who: &Addr) -> i128 {
        *self.balances.get(who.as_bytes()).unwrap_or(&0)
    }

    fn mint(&mut self, to: &Addr, amount: i128) {
        *self.balances.entry(to.as_bytes().to_vec()).or_insert(0) += amount;
    }

    fn transfer(&mut self, from: &Addr, to: &Addr, amount: i128) -> Result<(), ()> {
        if amount < 0 || self.balance(from) < amount {
            return Err(());
        }
        *self.balances.entry(from.as_bytes().to_vec()).or_insert(0) -= amount;
        *self.balances.entry(to.as_bytes().to_vec()).or_insert(0) += amount;
        Ok(())
    }

    fn burn(&mut self, from: &Addr, amount: i128) -> Result<(), ()> {
        if amount < 0 || self.balance(from) < amount {
            return Err(());
        }
        *self.balances.entry(from.as_bytes().to_vec()).or_insert(0) -= amount;
        Ok(())
    }
}

#[derive(Debug, PartialEq)]
enum Failure {
    Contract(BackfillError),
    Host,
}

fn addr(tag: u8, n: u32) -> Addr {
    let mut bytes = vec![tag];
    bytes.extend_from_slice(&n.to_be_bytes());
    Addr::new(bytes)
}

fn binding(address: &Addr) -> TokenBinding {
    TokenBinding { address: address.clone(), is_stellar_asset: true, decimals: 7 }
}

struct Fixture {
    state: BlntBackfillContract,
    now: u64,
    contract: Addr,
    legacy_addr: Addr,
    blnt_addr: Addr,
    claimant: Addr,
    grantee: Addr,
    user: Addr,
    legacy: Token,
    blnt: Token,
    all_authorized: bool,
    events: usize,
}

fn construct(
    contract: &Addr,
    legacy: &Addr,
    blnt: &Addr,
    claims: Vec<(Addr, i128)>,
    grants: Vec<(Addr, i128)>,
    now: u64,
) -> Result<BlntBackfillContract, BackfillError> {
    BlntBackfillContract::__constructor(contract.clone(), binding(legacy), binding(blnt), claims, grants, now)
}

fn constructor_panics(
    legacy: &Addr,
    blnt: &Addr,
    claims: Vec<(Addr, i128)>,
    grants: Vec<(Addr, i128)>,
) -> bool {
    construct(&addr(9, 0), legacy, blnt, claims, grants, 1_000).is_err()
}

impl Fixture {
    fn create(claim_amount: i128) -> Self {
        Self::create_with_grant(claim_amount, 0)
    }

    fn create_with_grant(claim_amount: i128, grant_amount: i128) -> Self {
        let contract = addr(9, 0);
        let legacy_addr = addr(1, 0);
        let blnt_addr = addr(2, 0);
        let claimant = addr(3, 0);
        let grantee = claimant.clone();
        let user = addr(4, 0);
        let claims = if claim_amount > 0 { vec![(claimant.clone(), claim_amount)] } else { Vec::new() };
        let grants = if grant_amount > 0 { vec![(grantee.clone(), grant_amount)] } else { Vec::new() };
        let state = construct(&contract, &legacy_addr, &blnt_addr, claims, grants, 1_000).unwrap();
        let mut blnt = Token::default();
        let mut legacy = Token::default();
        blnt.mint(&contract, TOTAL_FUNDING);
        legacy.mint(&user, SWAP_BLND_CAP);
        Fixture {
            state,
            now: 1_000,
            contract,
            legacy_addr,
            blnt_addr,
            claimant,
            grantee,
            user,
            legacy,
            blnt,
            all_authorized: true,
            events: 0,
        }
    }

    fn pay(blnt: &mut Token, from: &Addr, to: &Addr, amount: i128) -> Result<(), Failure> {
        let (fb, tb) = (blnt.balance(from), blnt.balance(to));
        blnt.transfer(from, to, amount).map_err(|_| Failure::Host)?;
        if !transfer_matches(fb, blnt.balance(from), tb, blnt.balance(to), amount) {
            return Err(Failure::Contract(BackfillError::BalanceMismatch));
        }
        Ok(())
    }

    fn try_claim(&mut self, user: &Addr, grant: bool) -> Result<i128, Failure> {
        self.state.precheck_claim(user).map_err(Failure::Contract)?;
        if !self.all_authorized {
            return Err(Failure::Host);
        }
        let mut next = self.state.clone();
        let amount = if grant {
            next.claim_grant(user, self.now)
        } else {
            next.claim_backfill(user, self.now)
        }
        .map_err(Failure::Contract)?;
        let mut blnt = self.blnt.clone();
        Self::pay(&mut blnt, &self.contract, user, amount)?;
        self.state = next;
        self.blnt = blnt;
        self.events += 1;
        Ok(amount)
    }

    fn try_claim_backfill(&mut self, user: &Addr) -> Result<i128, Failure> {
        self.try_claim(user, false)
    }

    fn try_claim_grant(&mut self, user: &Addr) -> Result<i128, Failure> {
        self.try_claim(user, true)
    }

    fn claim_backfill(&mut self, user: &Addr) -> i128 {
        self.try_claim_backfill(user).unwrap()
    }

    fn claim_grant(&mut self, user: &Addr) -> i128 {
        self.try_claim_grant(user).unwrap()
    }

    fn try_swap(&mut self, user: &Addr, blnt_amount: i128) -> Result<i128, Failure> {
        self.state.precheck_swap(user, blnt_amount, self.now).map_err(Failure::Contract)?;
        if !self.all_authorized {
            return Err(Failure::Host);
        }
        let mut next = self.state.clone();
        let conversion = next.swap_blnd_for_blnt(user, blnt_amount, self.now).map_err(Failure::Contract)?;
        let mut legacy = self.legacy.clone();
        let mut blnt = self.blnt.clone();
        Self::pay(&mut legacy, user, &self.contract, conversion.blnd_burned)?;
        let before = legacy.balance(&self.contract);
        legacy.burn(&self.contract, conversion.blnd_burned).map_err(|_| Failure::Host)?;
        if !burn_matches(before, legacy.balance(&self.contract), conversion.blnd_burned) {
            return Err(Failure::Contract(BackfillError::BalanceMismatch));
        }
        Self::pay(&mut blnt, &self.contract, user, conversion.blnt_received)?;
        self.state = next;
        self.legacy = legacy;
        self.blnt = blnt;
        self.events += 1;
        Ok(conversion.total_blnt_swapped)
    }

    fn swap_blnd_for_blnt(&mut self, user: &Addr, blnt_amount: i128) -> i128 {
        self.try_swap(user, blnt_amount).unwrap()
    }

    fn try_burn_expired(&mut self) -> Result<i128, Failure> {
        let balance = self.blnt.balance(&self.contract);
        let mut next = self.state.clone();
        let amount = next.burn_expired(self.now, balance).map_err(Failure::Contract)?;
        if amount == 0 {
            return Ok(0);
        }
        let mut blnt = self.blnt.clone();
        blnt.burn(&self.contract, amount).map_err(|_| Failure::Host)?;
        if !burn_matches(balance, blnt.balance(&self.contract), amount) {
            return Err(Failure::Contract(BackfillError::BalanceMismatch));
        }
        self.state = next;
        self.blnt = blnt;
        self.events += 1;
        Ok(amount)
    }

    fn burn_expired(&mut self) -> i128 {
        self.try_burn_expired().unwrap()
    }

    fn backfill_claimable(&self, who: &Addr) -> i128 {
        self.state.get_backfill_claimable(who, self.now).unwrap()
    }

    fn grant_claimable(&self, who: &Addr) -> i128 {
        self.state.get_grant_claimable(who, self.now).unwrap()
    }

    fn remaining_swap_capacity(&self) -> i128 {
        self.state.get_remaining_swap_capacity(self.now).unwrap()
    }

    fn finish_vesting(&mut self) {
        self.now = self.state.get_vesting_end();
    }

    fn finish_grant_vesting(&mut self) {
        self.now = self.state.get_grant_vesting_end();
    }
}

#[test]
fn backfill_claims_only_the_linearly_vested_portion() {
    let allocation = i128::from(VESTING_DURATION_SECONDS);
    let mut fixture = Fixture::create(allocation);
    let claimant = fixture.claimant.clone();
    let start = fixture.state.get_vesting_start();
    let third = VESTING_DURATION_SECONDS / 3;

    assert_eq!(fixture.state.get_vesting_end(), start + VESTING_DURATION_SECONDS);
    assert_eq!(fixture.backfill_claimable(&claimant), 0);
    assert!(fixture.try_claim_backfill(&claimant).is_err());

    fixture.now = start + third;
    assert_eq!(fixture.backfill_claimable(&claimant), i128::from(third));
    assert_eq!(fixture.claim_backfill(&claimant), i128::from(third));
    assert_eq!(fixture.backfill_claimable(&claimant), 0);
    assert!(fixture.try_claim_backfill(&claimant).is_err());

    fixture.now = start + 2 * third;
    assert_eq!(fixture.claim_backfill(&claimant), i128::from(third));

    fixture.now = fixture.state.get_vesting_end();
    assert_eq!(fixture.claim_backfill(&claimant), allocation - 2 * i128::from(third));
    assert_eq!(fixture.backfill_claimable(&claimant), 0);
    assert_eq!(fixture.state.get_total_claimed(), allocation);
    assert_eq!(fixture.blnt.balance(&claimant), allocation);
    assert!(fixture.try_claim_backfill(&claimant).is_err());
}

#[test]
fn grants_vest_linearly_over_two_years_without_backfill_bypass() {
    let allocation = i128::from(GRANT_VESTING_DURATION_SECONDS);
    let mut fixture = Fixture::create_with_grant(0, allocation);
    let grantee = fixture.grantee.clone();
    let start = fixture.state.get_grant_vesting_start();

    assert_eq!(fixture.state.get_grant_vesting_start(), fixture.state.get_vesting_start());
    assert_eq!(fixture.state.get_grant_vesting_end(), start + GRANT_VESTING_DURATION_SECONDS);
    assert_eq!(fixture.state.get_backfill_allocated(), 0);
    assert_eq!(fixture.state.get_grant_allocated(), allocation);
    assert_eq!(fixture.state.get_total_allocated(), allocation);
    assert_eq!(fixture.grant_claimable(&grantee), 0);
    assert!(fixture.try_claim_grant(&grantee).is_err());
    assert!(fixture.try_claim_backfill(&grantee).is_err());

    fixture.now = start + GRANT_VESTING_DURATION_SECONDS / 2;
    assert_eq!(fixture.grant_claimable(&grantee), allocation / 2);
    assert_eq!(fixture.claim_grant(&grantee), allocation / 2);
    assert_eq!(fixture.grant_claimable(&grantee), 0);

    fixture.finish_grant_vesting();
    assert_eq!(fixture.claim_grant(&grantee), allocation / 2);
    assert_eq!(fixture.state.get_grant_claimed(), allocation);
    assert_eq!(fixture.state.get_backfill_claimed(), 0);
    assert_eq!(fixture.state.get_total_claimed(), allocation);
    assert_eq!(fixture.blnt.balance(&grantee), allocation);
    assert!(fixture.try_claim_grant(&grantee).is_err());
}

#[test]
fn swaps_two_blnd_for_one_prefunded_blnt_and_burns_blnd_immediately() {
    let mut fixture = Fixture::create(0);
    let user = fixture.user.clone();
    let contract = fixture.contract.clone();
    let contract_before = fixture.blnt.balance(&contract);
    let blnt_amount = 25 * SCALAR_7;
    let blnd_amount = blnt_amount * BLND_PER_BLNT;

    assert_eq!(fixture.swap_blnd_for_blnt(&user, blnt_amount), blnt_amount);
    assert_eq!(fixture.legacy.balance(&contract), 0);
    assert_eq!(fixture.legacy.balance(&user), SWAP_BLND_CAP - blnd_amount);
    assert_eq!(fixture.blnt.balance(&user), blnt_amount);
    assert_eq!(fixture.blnt.balance(&contract), contract_before - blnt_amount);
    assert_eq!(fixture.state.get_total_swapped(), blnt_amount);
    assert_eq!(fixture.state.get_total_blnd_burned(), Ok(blnd_amount));
    assert_eq!(fixture.remaining_swap_capacity(), SWAP_CAP - blnt_amount);
}

#[test]
fn conversion_stops_at_the_aggregate_cap_before_expiry() {
    let mut fixture = Fixture::create(0);
    let user = fixture.user.clone();
    fixture.swap_blnd_for_blnt(&user, SWAP_CAP);
    assert_eq!(fixture.remaining_swap_capacity(), 0);
    assert!(fixture.try_swap(&user, 1).is_err());
}

#[test]
fn conversion_expires_and_permissionless_burn_removes_unused_blnt() {
    let mut fixture = Fixture::create_with_grant(BACKFILL_CAP, GRANT_CAP);
    let user = fixture.user.clone();
    let contract = fixture.contract.clone();
    let amount = 25 * SCALAR_7;
    let deadline = fixture.state.get_swap_deadline();

    assert_eq!(deadline, fixture.state.get_vesting_start() + SWAP_DURATION_SECONDS);
    assert!(fixture.try_burn_expired().is_err());

    fixture.now = deadline - 1;
    fixture.swap_blnd_for_blnt(&user, amount);
    assert_eq!(fixture.remaining_swap_capacity(), SWAP_CAP - amount);
    assert_eq!(fixture.state.get_total_blnd_burned(), Ok(amount * BLND_PER_BLNT));

    fixture.now = deadline;
    assert!(fixture.try_swap(&user, 1).is_err());
    assert_eq!(fixture.remaining_swap_capacity(), 0);

    let burned = SWAP_CAP - amount;
    assert_eq!(fixture.burn_expired(), burned);
    assert_eq!(fixture.state.get_expired_blnt_burned(), burned);
    assert_eq!(fixture.burn_expired(), 0);
    assert_eq!(fixture.legacy.balance(&contract), 0);
    assert_eq!(fixture.blnt.balance(&contract), CLAIM_CAP);

    fixture.finish_grant_vesting();
    let claimant = fixture.claimant.clone();
    let grantee = fixture.grantee.clone();
    fixture.claim_backfill(&claimant);
    fixture.claim_grant(&grantee);
    assert_eq!(fixture.blnt.balance(&contract), 0);
}

#[test]
fn fully_converted_reserve_has_no_expired_blnt_to_burn() {
    let mut fixture = Fixture::create(0);
    let user = fixture.user.clone();
    let contract = fixture.contract.clone();
    fixture.swap_blnd_for_blnt(&user, SWAP_CAP);
    fixture.now = fixture.state.get_swap_deadline();

    assert_eq!(fixture.burn_expired(), 0);
    assert_eq!(fixture.state.get_expired_blnt_burned(), 0);
    assert_eq!(fixture.legacy.balance(&contract), 0);
    assert_eq!(fixture.state.get_total_blnd_burned(), Ok(SWAP_BLND_CAP));
}

#[test]
fn complete_claim_and_conversion_caps_conserve_full_funding() {
    let mut fixture = Fixture::create_with_grant(BACKFILL_CAP, GRANT_CAP);
    let user = fixture.user.clone();
    let contract = fixture.contract.clone();

    assert_eq!(fixture.swap_blnd_for_blnt(&user, SWAP_CAP), SWAP_CAP);
    fixture.finish_grant_vesting();

    let claimant = fixture.claimant.clone();
    let grantee = fixture.grantee.clone();
    assert_eq!(fixture.claim_backfill(&claimant), BACKFILL_CAP);
    assert_eq!(fixture.claim_grant(&grantee), GRANT_CAP);
    assert_eq!(fixture.state.get_total_claimed(), CLAIM_CAP);
    assert_eq!(fixture.state.get_total_swapped(), SWAP_CAP);
    assert_eq!(fixture.blnt.balance(&contract), 0);
}

/// Authorization is the host's: the scenario's ledger refuses every
/// signature, and the test checks that the contract's accounting is
/// untouched by the refused calls.
#[test]
fn claim_and_swap_require_source_authorization() {
    let contract = addr(9, 0);
    let legacy = addr(1, 0);
    let blnt = addr(2, 0);
    let claimant = addr(3, 0);
    let grantee = addr(5, 0);
    let user = addr(4, 0);
    let state = construct(
        &contract,
        &legacy,
        &blnt,
        vec![(claimant.clone(), SCALAR_7)],
        vec![(grantee.clone(), SCALAR_7)],
        0,
    )
    .unwrap();
    let mut fixture = Fixture {
        now: state.get_vesting_end(),
        state,
        contract,
        legacy_addr: legacy,
        blnt_addr: blnt,
        claimant: claimant.clone(),
        grantee: grantee.clone(),
        user: user.clone(),
        legacy: Token::default(),
        blnt: Token::default(),
        all_authorized: false,
        events: 0,
    };

    assert!(fixture.try_claim_backfill(&claimant).is_err());
    assert!(fixture.try_claim_grant(&grantee).is_err());
    assert!(fixture.try_swap(&user, SCALAR_7).is_err());
    assert_eq!(fixture.backfill_claimable(&claimant), SCALAR_7);
    assert_eq!(fixture.state.get_total_swapped(), 0);
}

/// Rolling back a failed invocation is the host's: the scenario discards
/// the updated state when the token movement fails, and the test checks the
/// accounting that remains.
#[test]
fn failed_payout_rolls_back_claim_and_conversion_accounting() {
    let mut fixture = Fixture::create(SCALAR_7);
    let claimant = fixture.claimant.clone();
    let user = fixture.user.clone();
    let contract = fixture.contract.clone();
    fixture.finish_vesting();
    let everything = fixture.blnt.balance(&contract);
    fixture.blnt.burn(&contract, everything).unwrap();

    assert!(fixture.try_claim_backfill(&claimant).is_err());
    assert_eq!(fixture.backfill_claimable(&claimant), SCALAR_7);
    assert_eq!(fixture.state.get_total_claimed(), 0);

    assert!(fixture.try_swap(&user, SCALAR_7).is_err());
    assert_eq!(fixture.state.get_total_swapped(), 0);
    assert_eq!(fixture.legacy.balance(&user), SWAP_BLND_CAP);
    assert_eq!(fixture.legacy.balance(&contract), 0);
}

#[test]
fn rejects_nonpositive_conversions_and_contract_user() {
    let mut fixture = Fixture::create(0);
    let user = fixture.user.clone();
    let contract = fixture.contract.clone();
    assert!(fixture.try_swap(&user, 0).is_err());
    assert!(fixture.try_swap(&user, -1).is_err());
    assert!(fixture.try_swap(&contract, 1).is_err());
}

#[test]
fn rejects_invalid_claim_lists() {
    let legacy = addr(1, 0);
    let blnt = addr(2, 0);
    let claimant = addr(3, 0);

    assert!(constructor_panics(&legacy, &blnt, vec![(claimant.clone(), 0_i128)], Vec::new()));
    assert!(constructor_panics(
        &legacy,
        &blnt,
        vec![(claimant.clone(), SCALAR_7), (claimant.clone(), SCALAR_7)],
        Vec::new(),
    ));
    assert!(constructor_panics(&legacy, &blnt, vec![(claimant.clone(), BACKFILL_CAP + 1)], Vec::new()));
    assert!(constructor_panics(&legacy, &blnt, Vec::new(), vec![(claimant.clone(), GRANT_CAP + 1)]));
    assert!(constructor_panics(
        &legacy,
        &blnt,
        Vec::new(),
        vec![(claimant.clone(), SCALAR_7), (claimant, SCALAR_7)],
    ));
}

#[test]
fn rejects_too_many_claimants() {
    let legacy = addr(1, 0);
    let blnt = addr(2, 0);
    let mut claims = Vec::new();
    for i in 0..=MAX_CLAIMANTS {
        claims.push((addr(3, i), 1_i128));
    }
    assert!(constructor_panics(&legacy, &blnt, claims, Vec::new()));

    let mut grants = Vec::new();
    for i in 0..=MAX_GRANTEES {
        grants.push((addr(5, i), 1_i128));
    }
    assert!(constructor_panics(&legacy, &blnt, Vec::new(), grants));
}

#[test]
fn accepts_snapshot_bound_with_all_claimants_partially_vested() {
    let contract = addr(9, 0);
    let legacy = addr(1, 0);
    let blnt_addr = addr(2, 0);
    let mut claims = Vec::new();
    let mut claimants = Vec::new();
    for i in 0..MAX_CLAIMANTS {
        let claimant = addr(3, i);
        claims.push((claimant.clone(), 2_i128));
        claimants.push(claimant);
    }
    let state = construct(&contract, &legacy, &blnt_addr, claims, Vec::new(), 0).unwrap();
    assert_eq!(state.get_total_allocated(), 2 * i128::from(MAX_CLAIMANTS));

    let mut blnt = Token::default();
    blnt.mint(&contract, 2 * i128::from(MAX_CLAIMANTS));
    let mut fixture = Fixture {
        now: state.get_vesting_start() + VESTING_DURATION_SECONDS / 2,
        state,
        contract,
        legacy_addr: legacy,
        blnt_addr,
        claimant: claimants[0].clone(),
        grantee: claimants[0].clone(),
        user: addr(4, 0),
        legacy: Token::default(),
        blnt,
        all_authorized: true,
        events: 0,
    };
    for claimant in claimants.iter() {
        assert_eq!(fixture.claim_backfill(claimant), 1);
    }
    assert_eq!(fixture.state.get_total_claimed(), i128::from(MAX_CLAIMANTS));

    let first = claimants[0].clone();
    fixture.now = fixture.state.get_vesting_end();
    assert_eq!(fixture.claim_backfill(&first), 1);
    assert_eq!(fixture.backfill_claimable(&first), 0);
}

#[test]
fn binds_distinct_seven_decimal_sacs() {
    let fixture = Fixture::create(0);
    assert_eq!(fixture.state.get_legacy_blnd_token().as_bytes(), fixture.legacy_addr.as_bytes());
    assert_eq!(fixture.state.get_blnt_token().as_bytes(), fixture.blnt_addr.as_bytes());
    assert_eq!(fixture.state.get_total_allocated(), 0);

    let token = addr(1, 7);
    assert!(constructor_panics(&token, &token, Vec::new(), Vec::new()));
}

/// Publishing is the host's: the scenario records one event per successful
/// token-moving call from the amounts the contract's operations return.
#[test]
fn publishes_claim_conversion_and_expired_burn_events() {
    let mut fixture = Fixture::create_with_grant(SCALAR_7, SCALAR_7);
    let user = fixture.user.clone();
    fixture.swap_blnd_for_blnt(&user, SCALAR_7);
    assert_eq!(fixture.events, 1);

    fixture.finish_grant_vesting();
    let claimant = fixture.claimant.clone();
    let grantee = fixture.grantee.clone();
    fixture.events = 0;
    fixture.claim_backfill(&claimant);
    fixture.events = 0;
    fixture.claim_grant(&grantee);
    assert_eq!(fixture.events, 1);

    fixture.events = 0;
    fixture.burn_expired();
    assert_eq!(fixture.events, 1);
}
