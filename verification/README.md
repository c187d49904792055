# vesting-cliff-drip-stream

A token vesting contract for Soroban whose decision logic is verified with
Verus.

Sponsors lock tokens for a recipient in one of three kinds of stream:

- **fixed-rate cliff streams**: a constant amount per ledger, claimable once
  the cliff ledger is reached, with the whole unpaid rest claimable at the
  end; streams can be paused (paused ledgers never accrue, so the deposit is
  never exceeded), resumed, cancelled or clawed back by their sponsor, moved
  to a new recipient, or drained back to the sponsor long after they expire;
- **variable-rate streams**: a sequence of rate segments;
- **milestone streams**: basis-point shares of the deposit that unlock at
  given ledgers.

An admin configures a protocol fee, a minimum deposit and a token allowlist.

## Layout

- `src/` is the verified library. Every contract call is a method of
  `contract::VestingDrips`, a model of the contract's stored state, that
  takes the current ledger as an argument and returns an `effects::Outcome`:
  the authorisations, token transfers and events the host must carry out, in
  order, and the call's result. Each method's contract states the result,
  the effects and the next state exactly, and its precondition admits every
  input on which the arithmetic does not overflow; `laws.rs`, `allowlist.rs`
  and `milestone.rs` prove properties that span calls (claims add up to the
  deposit, the claimable view matches what a claim pays, cancellation
  conserves the balance, schedules that keep the invariant meet the
  preconditions, and so on).
- `app/` is the Soroban contract itself: it loads ledger entries into the
  model, runs the verified method, performs the effects and stores the
  entries that changed.
- `tests/` exercises the library on concrete scenarios.
