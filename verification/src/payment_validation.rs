//! Payment bundles: the payment proof's statement and, on Mode B, the HUSH
//! fee sidecar's, checked against the transaction they pay for.
//!
//! A bundle here holds the public data of both proofs. The STARK proofs of
//! those statements are made and checked by the prover backend; what this
//! module decides is whether the statements belong together and to the
//! transaction: the route's sidecar rule, the binding hash, the sender tag
//! and the fee amount.

use vstd::prelude::*;

use crate::circuit::{self, spec_payment_statement, PaymentPublicData};
use crate::error::HushError;
use crate::fee_sidecar::{self, spec_hush_fee_statement, HushFeePublicData};
use crate::merkle::hashout_eq;
use crate::payment_tx::{spec_validate_payment_tx, validate_payment_tx, PaymentRoute, PaymentTxV1};
use crate::types::{HushFeeWitness, PaymentWitness};

verus! {

/// A payment proof as the bundle check reads it: the public data it is
/// bound to, and whether the STARK proof verifies against it.
#[derive(Clone, Copy, Debug, PartialEq, Eq)]
pub struct PaymentProof {
    pub public_data: PaymentPublicData,
    pub verifies: bool,
}

/// A HUSH fee sidecar proof as the bundle check reads it.
#[derive(Clone, Copy, Debug, PartialEq, Eq)]
pub struct HushFeeProof {
    pub public_data: HushFeePublicData,
    pub verifies: bool,
}

/// The proofs of a payment bundle: the payment proof and, on Mode B, the
/// HUSH fee sidecar's.
#[derive(Clone, Copy, Debug, PartialEq, Eq)]
pub struct PaymentBundleProof {
    pub payment: PaymentProof,
    pub fee_sidecar: Option<HushFeeProof>,
}

/// Whether a bundle belongs to a transaction: `Ok` when it does, else the
/// first rule it breaks, in this order: the transaction itself, the payment
/// proof's verification, its binding hash and sender tag, the route's
/// sidecar rule, then on Mode B the sidecar proof's verification, its
/// binding hash, sender tag and fee amount, and its agreement with the
/// payment proof.
pub open spec fn spec_bundle_check(tx: PaymentTxV1, bundle: PaymentBundleProof) -> Result<
    (),
    HushError,
> {
    match spec_validate_payment_tx(tx) {
        Err(e) => Err(e),
        Ok(route) => if !bundle.payment.verifies {
            Err(HushError::PaymentProofVerificationFailed)
        } else if bundle.payment.public_data.tx_binding_hash@ != tx.tx_binding_hash@ {
            Err(
                HushError::PaymentProofTxBindingHashMismatch {
                    proof: bundle.payment.public_data.tx_binding_hash,
                    tx: tx.tx_binding_hash,
                },
            )
        } else if bundle.payment.public_data.sender_binding_tag@ != tx.attachment.sender_binding_tag@ {
            Err(
                HushError::PaymentProofSenderTagMismatch {
                    proof: bundle.payment.public_data.sender_binding_tag,
                    tx: tx.attachment.sender_binding_tag,
                },
            )
        } else {
            match (route, bundle.fee_sidecar) {
                (PaymentRoute::SameAsset, None) => Ok(()),
                (PaymentRoute::SameAsset, Some(_)) => Err(HushError::SidecarProofDisallowed),
                (PaymentRoute::HushSidecar, None) => Err(HushError::MissingSidecarProof),
                (PaymentRoute::HushSidecar, Some(sp)) => {
                    let s = sp.public_data;
                    if !sp.verifies {
                    Err(HushError::HushFeeProofVerificationFailed)
                } else if s.tx_binding_hash@
                    != tx.tx_binding_hash@ {
                    Err(
                        HushError::SidecarTxBindingHashMismatch {
                            proof: s.tx_binding_hash,
                            tx: tx.tx_binding_hash,
                        },
                    )
                } else if s.sender_binding_tag@ != tx.attachment.sender_binding_tag@ {
                    Err(
                        HushError::SidecarSenderTagMismatch {
                            proof: s.sender_binding_tag,
                            tx: tx.attachment.sender_binding_tag,
                        },
                    )
                } else if s.fee_amount != tx.descriptor.fee_amount {
                    Err(
                        HushError::SidecarFeeAmountMismatch {
                            proof: s.fee_amount,
                            tx: tx.descriptor.fee_amount,
                        },
                    )
                } else if bundle.payment.public_data.tx_binding_hash@ != s.tx_binding_hash@ {
                    Err(HushError::ProofTxBindingHashesDiffer)
                } else if bundle.payment.public_data.sender_binding_tag@ != s.sender_binding_tag@ {
                    Err(HushError::ProofSenderTagsDiffer)
                } else {
                    Ok(())
                }},
            }
        },
    }
}

/// Checks that a bundle's statements belong to the transaction.
pub fn validate_payment_bundle(tx: &PaymentTxV1, bundle: &PaymentBundleProof) -> (r: Result<
    (),
    HushError,
>)
    ensures
        r == spec_bundle_check(*tx, *bundle),
{
    let route = validate_payment_tx(tx)?;
    if !bundle.payment.verifies {
        return Err(HushError::PaymentProofVerificationFailed);
    }
    let payment = bundle.payment.public_data;
    if !hashout_eq(&payment.tx_binding_hash, &tx.tx_binding_hash) {
        return Err(
            HushError::PaymentProofTxBindingHashMismatch {
                proof: payment.tx_binding_hash,
                tx: tx.tx_binding_hash,
            },
        );
    }
    if !hashout_eq(&payment.sender_binding_tag, &tx.attachment.sender_binding_tag) {
        return Err(
            HushError::PaymentProofSenderTagMismatch {
                proof: payment.sender_binding_tag,
                tx: tx.attachment.sender_binding_tag,
            },
        );
    }
    match (route, bundle.fee_sidecar) {
        (PaymentRoute::SameAsset, None) => Ok(()),
        (PaymentRoute::SameAsset, Some(_)) => Err(HushError::SidecarProofDisallowed),
        (PaymentRoute::HushSidecar, None) => Err(HushError::MissingSidecarProof),
        (PaymentRoute::HushSidecar, Some(sidecar_proof)) => {
            if !sidecar_proof.verifies {
                return Err(HushError::HushFeeProofVerificationFailed);
            }
            let sidecar = sidecar_proof.public_data;
            if !hashout_eq(&sidecar.tx_binding_hash, &tx.tx_binding_hash) {
                return Err(
                    HushError::SidecarTxBindingHashMismatch {
                        proof: sidecar.tx_binding_hash,
                        tx: tx.tx_binding_hash,
                    },
                );
            }
            if !hashout_eq(&sidecar.sender_binding_tag, &tx.attachment.sender_binding_tag) {
                return Err(
                    HushError::SidecarSenderTagMismatch {
                        proof: sidecar.sender_binding_tag,
                        tx: tx.attachment.sender_binding_tag,
                    },
                );
            }
            if sidecar.fee_amount != tx.descriptor.fee_amount {
                return Err(
                    HushError::SidecarFeeAmountMismatch {
                        proof: sidecar.fee_amount,
                        tx: tx.descriptor.fee_amount,
                    },
                );
            }
            if !hashout_eq(&payment.tx_binding_hash, &sidecar.tx_binding_hash) {
                return Err(HushError::ProofTxBindingHashesDiffer);
            }
            if !hashout_eq(&payment.sender_binding_tag, &sidecar.sender_binding_tag) {
                return Err(HushError::ProofSenderTagsDiffer);
            }
            Ok(())
        },
    }
}

/// What assembling a bundle gives: the statements of the payment witness
/// and, on Mode B, of the sidecar witness, once the transaction validates,
/// the witnesses fit its route and the bundle belongs to it; else the first
/// failure. A proof made of a statement that holds verifies, so both proofs
/// of an assembled bundle are marked as verifying.
pub open spec fn spec_assemble_bundle(
    tx: PaymentTxV1,
    payment_witness: PaymentWitness,
    fee_sidecar_witness: Option<HushFeeWitness>,
) -> Result<PaymentBundleProof, HushError> {
    match spec_validate_payment_tx(tx) {
        Err(e) => Err(e),
        Ok(route) => match spec_payment_statement(payment_witness) {
            Err(e) => Err(e),
            Ok(payment) => {
                let sidecar: Result<Option<HushFeeProof>, HushError> = match (
                    route,
                    fee_sidecar_witness,
                ) {
                    (PaymentRoute::SameAsset, None) => Ok(None),
                    (PaymentRoute::SameAsset, Some(_)) => Err(HushError::SidecarWitnessDisallowed),
                    (PaymentRoute::HushSidecar, None) => Err(HushError::MissingSidecarWitness),
                    (PaymentRoute::HushSidecar, Some(w)) => match spec_hush_fee_statement(w) {
                        Err(e) => Err(e),
                        Ok(s) => Ok(Some(HushFeeProof { public_data: s, verifies: true })),
                    },
                };
                match sidecar {
                    Err(e) => Err(e),
                    Ok(fee_sidecar) => {
                        let bundle = PaymentBundleProof {
                            payment: PaymentProof { public_data: payment, verifies: true },
                            fee_sidecar,
                        };
                        match spec_bundle_check(tx, bundle) {
                            Err(e) => Err(e),
                            Ok(_) => Ok(bundle),
                        }
                    },
                }
            },
        },
    }
}

/// Assembles the statements a payment bundle proves: validates the
/// transaction, checks the payment witness's statement and, on Mode B, the
/// sidecar witness's, and checks that the resulting bundle belongs to the
/// transaction.
pub fn prove_payment_bundle(
    tx: &PaymentTxV1,
    payment_witness: &PaymentWitness,
    fee_sidecar_witness: Option<&HushFeeWitness>,
) -> (r: Result<PaymentBundleProof, HushError>)
    ensures
        r == spec_assemble_bundle(
            *tx,
            *payment_witness,
            match fee_sidecar_witness {
                Some(w) => Some(*w),
                None => None,
            },
        ),
{
    let route = validate_payment_tx(tx)?;
    let payment = circuit::validate_witness(payment_witness)?;
    let fee_sidecar = match (route, fee_sidecar_witness) {
        (PaymentRoute::SameAsset, None) => None,
        (PaymentRoute::SameAsset, Some(_)) => {
            return Err(HushError::SidecarWitnessDisallowed);
        },
        (PaymentRoute::HushSidecar, None) => {
            return Err(HushError::MissingSidecarWitness);
        },
        (PaymentRoute::HushSidecar, Some(witness)) => Some(
            HushFeeProof { public_data: fee_sidecar::validate_witness(witness)?, verifies: true },
        ),
    };
    let bundle = PaymentBundleProof {
        payment: PaymentProof { public_data: payment, verifies: true },
        fee_sidecar,
    };
    validate_payment_bundle(tx, &bundle)?;
    Ok(bundle)
}

} // verus!
