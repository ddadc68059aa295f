# grainlify

Verified core of the Grainlify Soroban contracts.

- `src/` — the library, verified with Verus:
  - `address` — identities by their textual key;
  - `migration` — contract versioning: one-time initialisation, migration
    commitments with expiry, replay-protected `migrate` along the supported
    version steps;
  - `multisig` — signer set, upgrade proposals, approvals, timelock and
    execution;
  - `fees` — fee settings (rates capped at 10%) and the fee formula;
  - `circuit_breaker` — failure counting against per-program thresholds;
  - `program_escrow` — programs, locking, batch payouts (at most 100
    recipients), delegates and their audit queries.
- `tests/` — tests of the library on concrete values.
- `app/` — the Soroban contracts: they keep the library state in contract
  storage, check signatures with the host, publish events and move tokens
  as the library's answers say.
