//! The payment circuit's statement: what a payment proof shows about its
//! witness, and the public data the proof is bound to.
//!
//! The statement is checked here before any proving: the two spent notes
//! balance the recipient note, the change note and the fee taken from the
//! payment asset; both spent notes carry one attestation root, which the
//! new notes carry on; both spent notes are leaves of the note tree; the witness
//! carries the transaction's binding hash and the spending key's tag over
//! it. The public data are the nullifiers of the spent notes and the
//! commitments of the new ones.

use vstd::prelude::*;

use crate::error::HushError;
use crate::m31::{freduce, m31_from_u32};
use crate::merkle::{spec_words_path_root, verify_words_path};
use crate::payment_tx::{
    compute_mode_a_tx_binding_hash, derive_sender_binding_tag, spec_hash_array,
    spec_mode_a_binding_hash, spec_sender_binding_tag, lemma_hash_array,
};
use crate::poseidon2::{
    derive_owner, hashout_to_u32_array, note_commitment_u64, nullifier, spec_derive_owner,
    spec_note_commitment_u64, spec_sponge, spec_to_hashout, u32_array_to_hashout,
    DOMAIN_NULLIFIER,
};
use crate::merkle::hashout_eq;
use crate::types::{PaymentWitness, MAX_LIMB_AMOUNT};

verus! {

/// The public data a payment proof is bound to.
#[derive(Clone, Copy, Debug, PartialEq, Eq)]
pub struct PaymentPublicData {
    pub epoch: u32,
    pub note_root: [u32; 4],
    pub accumulator_root: [u32; 4],
    pub tx_binding_hash: [u32; 4],
    pub sender_binding_tag: [u32; 4],
    /// Nullifiers of the spent notes, for the spent set.
    pub null_0: [u32; 4],
    pub null_1: [u32; 4],
    /// Commitments of the recipient note and the change note, for the note tree.
    pub out_cm_0: [u32; 4],
    pub out_cm_1: [u32; 4],
}

/// Commitment of spent note `i` of the witness (its owner is the spending
/// key's owner and it carries its own attestation root).
pub open spec fn spec_input_commitment(w: PaymentWitness, i: int) -> Seq<u32> {
    spec_note_commitment_u64(
        freduce(w.in_asset as int),
        if i == 0 { w.in_amt_0 } else { w.in_amt_1 },
        spec_derive_owner(freduce(w.sk as int)),
        freduce((if i == 0 { w.in_rand_0 } else { w.in_rand_1 }) as int),
        spec_to_hashout((if i == 0 { w.att_root_0 } else { w.att_root_1 })@),
    )
}

/// The binding hash the witness's descriptor, recipient and change give.
pub open spec fn spec_witness_binding_hash(w: PaymentWitness) -> Seq<u32> {
    spec_mode_a_binding_hash(
        w.replay_domain,
        w.in_asset,
        w.binding_fee_asset,
        w.fee_class,
        w.fee_amount,
        w.fee_schedule_version,
        w.out_amt_0,
        w.out_owner_0@,
        w.out_rand_0,
        w.out_amt_1,
        w.out_rand_1,
    )
}

/// The public data of a witness whose statement holds: the nullifiers of
/// the spent notes under the spending key, and the commitments of the
/// recipient note (to the recipient's owner) and the change note (back to
/// the spending key's owner), both in the payment asset and carrying the
/// attestation root of the spent notes.
pub open spec fn spec_payment_public_data(w: PaymentWitness) -> PaymentPublicData {
    let sk = freduce(w.sk as int);
    let asset = freduce(w.in_asset as int);
    PaymentPublicData {
        epoch: w.epoch,
        note_root: w.note_root,
        accumulator_root: w.pub_accumulator_root,
        tx_binding_hash: w.tx_binding_hash,
        sender_binding_tag: w.sender_binding_tag,
        null_0: spec_hash_array(
            spec_sponge(seq![sk] + spec_input_commitment(w, 0), DOMAIN_NULLIFIER),
        ),
        null_1: spec_hash_array(
            spec_sponge(seq![sk] + spec_input_commitment(w, 1), DOMAIN_NULLIFIER),
        ),
        out_cm_0: spec_hash_array(
            spec_note_commitment_u64(
                asset,
                w.out_amt_0,
                spec_to_hashout(w.out_owner_0@),
                freduce(w.out_rand_0 as int),
                spec_to_hashout(w.att_root_0@),
            ),
        ),
        out_cm_1: spec_hash_array(
            spec_note_commitment_u64(
                asset,
                w.out_amt_1,
                spec_derive_owner(sk),
                freduce(w.out_rand_1 as int),
                spec_to_hashout(w.att_root_0@),
            ),
        ),
    }
}

/// The first of the range-checked amounts (inputs, outputs, payment fee)
/// that four 15-bit limbs cannot hold, if any.
pub open spec fn spec_payment_amount_out_of_range(w: PaymentWitness) -> Option<u64> {
    if w.in_amt_0 > MAX_LIMB_AMOUNT {
        Some(w.in_amt_0)
    } else if w.in_amt_1 > MAX_LIMB_AMOUNT {
        Some(w.in_amt_1)
    } else if w.out_amt_0 > MAX_LIMB_AMOUNT {
        Some(w.out_amt_0)
    } else if w.out_amt_1 > MAX_LIMB_AMOUNT {
        Some(w.out_amt_1)
    } else if w.payment_fee_amount > MAX_LIMB_AMOUNT {
        Some(w.payment_fee_amount)
    } else {
        None
    }
}

/// The nullifier of spent note `i` under the spending key.
pub open spec fn spec_payment_nullifier(w: PaymentWitness, i: int) -> Seq<u32> {
    spec_sponge(seq![freduce(w.sk as int)] + spec_input_commitment(w, i), DOMAIN_NULLIFIER)
}

/// The payment statement: the public data, or the first part of the
/// statement the witness breaks, in this order: amount range (four 15-bit
/// limbs), input sum, output sum, balance (inputs = recipient + change +
/// fee taken from the payment asset), one attestation root on both spent
/// notes, the two Merkle paths, the binding
/// hash, the sender tag, distinct nullifiers.
pub open spec fn spec_payment_statement(w: PaymentWitness) -> Result<PaymentPublicData, HushError> {
    let total_in = w.in_amt_0 + w.in_amt_1;
    let total_out = w.out_amt_0 + w.out_amt_1 + w.payment_fee_amount;
    if spec_payment_amount_out_of_range(w) is Some {
        Err(HushError::AmountOutOfRange(spec_payment_amount_out_of_range(w)->Some_0))
    } else if total_in > u64::MAX {
        Err(HushError::PaymentInputOverflow)
    } else if total_out > u64::MAX {
        Err(HushError::PaymentOutputOverflow)
    } else if total_in != total_out {
        Err(HushError::BalanceConservation { inputs: total_in as u64, outputs: total_out as u64 })
    } else if w.att_root_0@ != w.att_root_1@ {
        Err(HushError::AttestationRootsDiffer)
    } else if spec_words_path_root(spec_input_commitment(w, 0), w.note_path_0@) != spec_to_hashout(
        w.note_root@,
    ) {
        Err(HushError::NoteMerklePathInvalid(0))
    } else if spec_words_path_root(spec_input_commitment(w, 1), w.note_path_1@) != spec_to_hashout(
        w.note_root@,
    ) {
        Err(HushError::NoteMerklePathInvalid(1))
    } else if w.tx_binding_hash@ != spec_witness_binding_hash(w) {
        Err(
            HushError::TxBindingHashMismatch {
                got: w.tx_binding_hash,
                expected: spec_hash_array(spec_witness_binding_hash(w)),
            },
        )
    } else if w.sender_binding_tag@ != spec_sender_binding_tag(w.sk, w.tx_binding_hash@) {
        Err(
            HushError::SenderBindingTagMismatch {
                got: w.sender_binding_tag,
                expected: spec_hash_array(spec_sender_binding_tag(w.sk, w.tx_binding_hash@)),
            },
        )
    } else if spec_payment_nullifier(w, 0) == spec_payment_nullifier(w, 1) {
        Err(HushError::NullifiersNotDistinct)
    } else {
        Ok(spec_payment_public_data(w))
    }
}

/// Checks the payment statement on a witness and gives the public data the
/// proof will be bound to.
#[verifier::rlimit(40)]
pub fn validate_witness(witness: &PaymentWitness) -> (r: Result<PaymentPublicData, HushError>)
    ensures
        r == spec_payment_statement(*witness),
        r is Ok ==> r->Ok_0.null_0@ != r->Ok_0.null_1@,
{
    let amounts: [u64; 5] = [
        witness.in_amt_0,
        witness.in_amt_1,
        witness.out_amt_0,
        witness.out_amt_1,
        witness.payment_fee_amount,
    ];
    for i in 0..5
        invariant
            amounts@ == seq![
                witness.in_amt_0,
                witness.in_amt_1,
                witness.out_amt_0,
                witness.out_amt_1,
                witness.payment_fee_amount,
            ],
            forall|k: int| 0 <= k < i ==> amounts@[k] <= MAX_LIMB_AMOUNT,
    {
        if amounts[i] > MAX_LIMB_AMOUNT {
            return Err(HushError::AmountOutOfRange(amounts[i]));
        }
    }
    let total_in = match witness.in_amt_0.checked_add(witness.in_amt_1) {
        Some(t) => t,
        None => {
            return Err(HushError::PaymentInputOverflow);
        },
    };
    let outputs = match witness.out_amt_0.checked_add(witness.out_amt_1) {
        Some(t) => t,
        None => {
            return Err(HushError::PaymentOutputOverflow);
        },
    };
    let total_out = match outputs.checked_add(witness.payment_fee_amount) {
        Some(t) => t,
        None => {
            return Err(HushError::PaymentOutputOverflow);
        },
    };
    if total_in != total_out {
        return Err(HushError::BalanceConservation { inputs: total_in, outputs: total_out });
    }
    if !hashout_eq(&witness.att_root_0, &witness.att_root_1) {
        return Err(HushError::AttestationRootsDiffer);
    }
    let sk = m31_from_u32(witness.sk);
    let owner = derive_owner(sk);
    let asset = m31_from_u32(witness.in_asset);
    let att_root = u32_array_to_hashout(witness.att_root_0);
    let in_cm_0 = note_commitment_u64(
        asset,
        witness.in_amt_0,
        owner,
        m31_from_u32(witness.in_rand_0),
        att_root,
    );
    let in_cm_1 = note_commitment_u64(
        asset,
        witness.in_amt_1,
        owner,
        m31_from_u32(witness.in_rand_1),
        u32_array_to_hashout(witness.att_root_1),
    );
    if !verify_words_path(in_cm_0, &witness.note_path_0, witness.note_root) {
        return Err(HushError::NoteMerklePathInvalid(0));
    }
    if !verify_words_path(in_cm_1, &witness.note_path_1, witness.note_root) {
        return Err(HushError::NoteMerklePathInvalid(1));
    }
    let expected_binding_hash = compute_mode_a_tx_binding_hash(
        witness.replay_domain,
        witness.in_asset,
        witness.binding_fee_asset,
        witness.fee_class,
        witness.fee_amount,
        witness.fee_schedule_version,
        witness.out_amt_0,
        witness.out_owner_0,
        witness.out_rand_0,
        witness.out_amt_1,
        witness.out_rand_1,
    );
    if !hashout_eq(&witness.tx_binding_hash, &expected_binding_hash) {
        proof {
            lemma_hash_array(expected_binding_hash);
        }
        return Err(
            HushError::TxBindingHashMismatch {
                got: witness.tx_binding_hash,
                expected: expected_binding_hash,
            },
        );
    }
    let expected_tag = derive_sender_binding_tag(witness.sk, witness.tx_binding_hash);
    if !hashout_eq(&witness.sender_binding_tag, &expected_tag) {
        proof {
            lemma_hash_array(expected_tag);
        }
        return Err(
            HushError::SenderBindingTagMismatch { got: witness.sender_binding_tag, expected: expected_tag },
        );
    }
    let null_0 = nullifier(sk, in_cm_0);
    let null_1 = nullifier(sk, in_cm_1);
    if hashout_eq(&null_0, &null_1) {
        return Err(HushError::NullifiersNotDistinct);
    }
    let out_cm_0 = note_commitment_u64(
        asset,
        witness.out_amt_0,
        u32_array_to_hashout(witness.out_owner_0),
        m31_from_u32(witness.out_rand_0),
        att_root,
    );
    let out_cm_1 = note_commitment_u64(
        asset,
        witness.out_amt_1,
        owner,
        m31_from_u32(witness.out_rand_1),
        att_root,
    );
    proof {
        lemma_hash_array(null_0);
        lemma_hash_array(null_1);
        lemma_hash_array(out_cm_0);
        lemma_hash_array(out_cm_1);
    }
    Ok(
        PaymentPublicData {
            epoch: witness.epoch,
            note_root: witness.note_root,
            accumulator_root: witness.pub_accumulator_root,
            tx_binding_hash: witness.tx_binding_hash,
            sender_binding_tag: witness.sender_binding_tag,
            null_0: hashout_to_u32_array(null_0),
            null_1: hashout_to_u32_array(null_1),
            out_cm_0: hashout_to_u32_array(out_cm_0),
            out_cm_1: hashout_to_u32_array(out_cm_1),
        },
    )
}

} // verus!
