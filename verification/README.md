# blnt_backfill

The accounting core of the BLNT backfill custody contract, verified with Verus.

The contract custodies the BLNT initial allocation and pays it out through
three immutable lanes: backfill allocations vesting linearly over 180 days,
grant allocations vesting linearly over 720 days, and a 2:1 legacy
BLND-to-BLNT conversion that closes 270 days after construction, after which
the unused conversion reserve can be burned by anyone.

## Layout

- `src/` — the verified library.
  - `contract.rs`: the contract state (`BlntBackfillContract`) and every
    operation on it, each with an exact contract: construction, claims in
    both lanes, conversions, the expired-reserve burn and the views; the
    state predicate `consistent`, which construction establishes and every
    operation preserves.
  - `vesting.rs`: the linear vesting formula and the claimable amount.
  - `allocations.rs`: validation of the allocation lists given at
    construction.
  - `table.rs`, `address.rs`: identity-to-amount records keyed by an
    identity's canonical bytes.
  - `accounting.rs`: what each lane still owes on its open allocations.
  - `settlement.rs`: the balance checks around token transfers and burns.
  - `laws.rs`: properties across operations (funding covers all
    obligations, claims fail only for documented reasons, claims catch up
    with vesting and never expire, claiming in steps pays the same as
    claiming once, every payout lowers the contract's holdings by exactly
    what it pays, the expired burn is final and leaves exactly the claim
    reserve).
- `tests/` — scenarios driven through the library with an in-memory token
  ledger, and unit tests of the formulas and error cases.
- `app/` — the Soroban contract: storage, ledger time, authorization, token
  calls and events around the library's decisions.
