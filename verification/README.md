# silver_consensus

Validator-set management for a proof-of-stake consensus engine, written in
Verus: every operation carries a contract over a mathematical model of its
state, and Verus proves the code against it.

## Layout

- `src/` — the verified library.
  - `types.rs`, `table.rs`, `seqsum.rs`, `text.rs`, `clock.rs`: identifiers
    and errors, an insertion-ordered table keyed by validator, sums over
    sequences, decimal text, and the system clock.
  - `validator.rs`, `staking.rs`, `validator_tiers.rs`,
    `commission_manager.rs`: the validator set and its reconfiguration,
    stake deposits and unbonding, tiers, commissions.
  - `slashing.rs`, `downtime_tracker.rs`, `validator_monitoring.rs`: jailing
    and slashing, downtime and recovery, performance metrics and alerts.
  - `key_rotation.rs`, `validator_activation.rs`: stake-weighted votes on key
    rotations and on (de)activation.
  - `validator_ops.rs`: registration with a stake deposit, participation,
    unstaking and queries across the validator set and the stakes.
  - `snapshot.rs`, `block_creator.rs`: snapshot certificates with a 2/3
    quorum, sequential finalization, blocks made from snapshots.
  - `protocol.rs`, `compatibility.rs`, `activation.rs`: protocol versions,
    feature checks and the activation of upgrades.
  - `persistence/`: node startup checks, structured log events and the
    consensus-storage wiring.
- `app/` — unverified runtime glue: emission of log events through
  `tracing`, the environment, floating-point views of rates, and the
  background task that retires old protocol versions.
- `tests/` — tests of the library's public interface.

Rates that are fractions are kept in basis points (10000 is 100%), and
multipliers as integers (halves or percent), so that every computation is
exact.
