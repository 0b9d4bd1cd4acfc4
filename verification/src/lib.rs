//! Verified core of the Hush payment demo: Poseidon2 hashing over M31,
//! payment transaction building and validation, fee accounting and the
//! statements that the STARK circuits prove.

pub mod m31;
pub mod poseidon2;
pub mod types;
pub mod merkle;
pub mod error;
pub mod payment_tx;
pub mod circuit;
pub mod fee_sidecar;
pub mod time_window;
pub mod provenance_attestation;
pub mod payment_validation;
pub mod payment_fixtures;
pub mod accounting;
pub mod accounting_laws;
pub mod hush_gas_runtime;
pub mod wasm_support;
pub mod poseidon2_air;
pub mod ledger;
