# hush_demo_stark

A verified core for a private-payment demo over the Mersenne-31 field,
written in Verus. Every function in `src/` carries a contract that Verus
checks.

## Layout

- `src/m31.rs`, `src/poseidon2.rs`: field arithmetic and the Poseidon2
  permutation (width 16, `x^5`), with the sponge, commitments and
  nullifiers built on it, each specified against the permutation.
- `src/merkle.rs`: dense and sparse Merkle trees; paths verify against roots.
- `src/poseidon2_air.rs`: the trace columns of one permutation (per round the
  state and the S-box squares and fourth powers), ending in the
  permutation's output.
- `src/payment_tx.rs`, `src/payment_fixtures.rs`: the payment transaction,
  its fee routes and schedule, the binding hash, validation and builders.
- `src/circuit.rs`, `src/fee_sidecar.rs`, `src/time_window.rs`,
  `src/provenance_attestation.rs`: the statements each STARK circuit
  proves, as functions from witness to public data. A payment or fee
  statement refuses amounts beyond four 15-bit limbs and two equal
  nullifiers, so no note is spent twice in one statement; a payment's
  spent notes share one attestation root, which its new notes carry on.
- `src/payment_validation.rs`: whether a bundle belongs to a transaction:
  its proofs verified, and their public data match the transaction.
- `src/accounting.rs`, `src/accounting_laws.rs`: block fee accounting and
  epoch settlement, with the laws that a bucket is shared out in full, what
  accruing one block does to the pools and to each validator, and that an
  epoch's payouts sum to its fee pools.
- `src/ledger.rs`: note, attestation and issuer trees and the spent-nullifier
  set; a nullifier is spent once.
- `src/hush_gas_runtime.rs`: quotes, submission preparation, the whole
  submission (prepare, prove, check, settle) and settlement of the HUSH gas
  wallet flow.
- `src/wasm_support.rs`, `src/error.rs`: base64 and the error type.
- `app/`: the command-line drivers (lifecycle walk-through, benchmarks),
  serde copies of the records, timings, browser bindings, and the stwo AIR
  and prover of the Poseidon2 permutation.
