//! The HUSH fee sidecar's statement: two HUSH notes of the sender pay the
//! fee of a Mode B payment and return the rest as a change note, bound to
//! the payment by its binding hash and sender tag.

use vstd::prelude::*;

use crate::error::HushError;
use crate::m31::{freduce, m31_from_u32};
use crate::merkle::{hashout_eq, spec_words_path_root, verify_words_path};
use crate::payment_tx::{
    derive_sender_binding_tag, lemma_hash_array, spec_hash_array, spec_sender_binding_tag,
    ASSET_HUSH,
};
use crate::poseidon2::{
    derive_owner, hashout_to_u32_array, note_commitment_u64, nullifier, spec_derive_owner,
    spec_note_commitment_u64, spec_sponge, DOMAIN_NULLIFIER,
};
use crate::types::{
    amount_to_limbs, spec_amount_limbs, spec_limbs_value, HushFeeWitness, MAX_LIMB_AMOUNT,
};

verus! {

/// The public data a HUSH fee sidecar proof is bound to.
#[derive(Clone, Copy, Debug, PartialEq, Eq)]
pub struct HushFeePublicData {
    pub note_root: [u32; 4],
    pub tx_binding_hash: [u32; 4],
    pub sender_binding_tag: [u32; 4],
    pub fee_amount: u64,
    pub null_0: [u32; 4],
    pub null_1: [u32; 4],
    pub change_cm: [u32; 4],
}

/// Commitment of an unregulated HUSH note of the spending key's owner.
pub open spec fn spec_hush_note(sk: u32, amount: u64, randomness: u32) -> Seq<u32> {
    spec_note_commitment_u64(
        ASSET_HUSH,
        amount,
        spec_derive_owner(freduce(sk as int)),
        freduce(randomness as int),
        seq![0u32, 0, 0, 0],
    )
}

/// The public data of a sidecar witness whose statement holds.
pub open spec fn spec_hush_fee_public_data(w: HushFeeWitness) -> HushFeePublicData {
    let sk = freduce(w.sk as int);
    HushFeePublicData {
        note_root: w.note_root,
        tx_binding_hash: w.tx_binding_hash,
        sender_binding_tag: w.sender_binding_tag,
        fee_amount: w.fee_amount,
        null_0: spec_hash_array(
            spec_sponge(seq![sk] + spec_hush_note(w.sk, w.in_amt_0, w.in_rand_0), DOMAIN_NULLIFIER),
        ),
        null_1: spec_hash_array(
            spec_sponge(seq![sk] + spec_hush_note(w.sk, w.in_amt_1, w.in_rand_1), DOMAIN_NULLIFIER),
        ),
        change_cm: spec_hash_array(spec_hush_note(w.sk, w.change_amt, w.change_rand)),
    }
}

/// The first of the sidecar's amounts (inputs, change, fee) that four
/// 15-bit limbs cannot hold, if any.
pub open spec fn spec_hush_fee_amount_out_of_range(w: HushFeeWitness) -> Option<u64> {
    if w.in_amt_0 > MAX_LIMB_AMOUNT {
        Some(w.in_amt_0)
    } else if w.in_amt_1 > MAX_LIMB_AMOUNT {
        Some(w.in_amt_1)
    } else if w.change_amt > MAX_LIMB_AMOUNT {
        Some(w.change_amt)
    } else if w.fee_amount > MAX_LIMB_AMOUNT {
        Some(w.fee_amount)
    } else {
        None
    }
}

/// The nullifier of spent HUSH note `i` under the spending key.
pub open spec fn spec_hush_fee_nullifier(w: HushFeeWitness, i: int) -> Seq<u32> {
    spec_sponge(
        seq![freduce(w.sk as int)] + if i == 0 {
            spec_hush_note(w.sk, w.in_amt_0, w.in_rand_0)
        } else {
            spec_hush_note(w.sk, w.in_amt_1, w.in_rand_1)
        },
        DOMAIN_NULLIFIER,
    )
}

/// The sidecar statement: the public data, or the first part of the
/// statement the witness breaks, in this order: amount range (four 15-bit
/// limbs), input sum, output sum, balance (inputs = change + fee), sender
/// tag, the two Merkle paths, distinct nullifiers.
pub open spec fn spec_hush_fee_statement(w: HushFeeWitness) -> Result<HushFeePublicData, HushError> {
    let total_in = w.in_amt_0 + w.in_amt_1;
    let total_out = w.change_amt + w.fee_amount;
    if spec_hush_fee_amount_out_of_range(w) is Some {
        Err(HushError::AmountOutOfRange(spec_hush_fee_amount_out_of_range(w)->Some_0))
    } else if total_in > u64::MAX {
        Err(HushError::HushFeeInputOverflow)
    } else if total_out > u64::MAX {
        Err(HushError::HushFeeOutputOverflow)
    } else if total_in != total_out {
        Err(
            HushError::HushFeeBalanceConservation {
                inputs: total_in as u64,
                outputs: total_out as u64,
            },
        )
    } else if w.sender_binding_tag@ != spec_sender_binding_tag(w.sk, w.tx_binding_hash@) {
        Err(
            HushError::SenderBindingTagMismatch {
                got: w.sender_binding_tag,
                expected: spec_hash_array(spec_sender_binding_tag(w.sk, w.tx_binding_hash@)),
            },
        )
    } else if spec_words_path_root(spec_hush_note(w.sk, w.in_amt_0, w.in_rand_0), w.note_path_0@)
        != crate::poseidon2::spec_to_hashout(w.note_root@) {
        Err(HushError::HushSidecarNotePathInvalid(0))
    } else if spec_words_path_root(spec_hush_note(w.sk, w.in_amt_1, w.in_rand_1), w.note_path_1@)
        != crate::poseidon2::spec_to_hashout(w.note_root@) {
        Err(HushError::HushSidecarNotePathInvalid(1))
    } else if spec_hush_fee_nullifier(w, 0) == spec_hush_fee_nullifier(w, 1) {
        Err(HushError::HushSidecarNullifiersNotDistinct)
    } else {
        Ok(spec_hush_fee_public_data(w))
    }
}

/// Checks the sidecar statement on a witness and gives the public data the
/// proof will be bound to.
pub fn validate_witness(witness: &HushFeeWitness) -> (r: Result<HushFeePublicData, HushError>)
    ensures
        r == spec_hush_fee_statement(*witness),
        r is Ok ==> r->Ok_0.null_0@ != r->Ok_0.null_1@,
{
    let amounts: [u64; 4] = [
        witness.in_amt_0,
        witness.in_amt_1,
        witness.change_amt,
        witness.fee_amount,
    ];
    for i in 0..4
        invariant
            amounts@ == seq![witness.in_amt_0, witness.in_amt_1, witness.change_amt, witness.fee_amount],
            forall|k: int| 0 <= k < i ==> amounts@[k] <= MAX_LIMB_AMOUNT,
    {
        if amounts[i] > MAX_LIMB_AMOUNT {
            return Err(HushError::AmountOutOfRange(amounts[i]));
        }
    }
    let total_in = match witness.in_amt_0.checked_add(witness.in_amt_1) {
        Some(t) => t,
        None => {
            return Err(HushError::HushFeeInputOverflow);
        },
    };
    let total_out = match witness.change_amt.checked_add(witness.fee_amount) {
        Some(t) => t,
        None => {
            return Err(HushError::HushFeeOutputOverflow);
        },
    };
    if total_in != total_out {
        return Err(HushError::HushFeeBalanceConservation { inputs: total_in, outputs: total_out });
    }
    let expected_tag = derive_sender_binding_tag(witness.sk, witness.tx_binding_hash);
    if !hashout_eq(&witness.sender_binding_tag, &expected_tag) {
        proof {
            lemma_hash_array(expected_tag);
        }
        return Err(
            HushError::SenderBindingTagMismatch { got: witness.sender_binding_tag, expected: expected_tag },
        );
    }
    let sk = m31_from_u32(witness.sk);
    let owner = derive_owner(sk);
    let zero_root: [u32; 4] = [0, 0, 0, 0];
    assert(zero_root@ =~= seq![0u32, 0, 0, 0]);
    let in_cm_0 = note_commitment_u64(
        ASSET_HUSH,
        witness.in_amt_0,
        owner,
        m31_from_u32(witness.in_rand_0),
        zero_root,
    );
    let in_cm_1 = note_commitment_u64(
        ASSET_HUSH,
        witness.in_amt_1,
        owner,
        m31_from_u32(witness.in_rand_1),
        zero_root,
    );
    if !verify_words_path(in_cm_0, &witness.note_path_0, witness.note_root) {
        return Err(HushError::HushSidecarNotePathInvalid(0));
    }
    if !verify_words_path(in_cm_1, &witness.note_path_1, witness.note_root) {
        return Err(HushError::HushSidecarNotePathInvalid(1));
    }
    let null_0 = nullifier(sk, in_cm_0);
    let null_1 = nullifier(sk, in_cm_1);
    if hashout_eq(&null_0, &null_1) {
        return Err(HushError::HushSidecarNullifiersNotDistinct);
    }
    let change_cm = note_commitment_u64(
        ASSET_HUSH,
        witness.change_amt,
        owner,
        m31_from_u32(witness.change_rand),
        zero_root,
    );
    proof {
        lemma_hash_array(null_0);
        lemma_hash_array(null_1);
        lemma_hash_array(change_cm);
    }
    Ok(
        HushFeePublicData {
            note_root: witness.note_root,
            tx_binding_hash: witness.tx_binding_hash,
            sender_binding_tag: witness.sender_binding_tag,
            fee_amount: witness.fee_amount,
            null_0: hashout_to_u32_array(null_0),
            null_1: hashout_to_u32_array(null_1),
            change_cm: hashout_to_u32_array(change_cm),
        },
    )
}

/// Limb `k` of the inputs less limb `k` of the change and the fee.
pub open spec fn spec_limb_delta(w: HushFeeWitness, k: int) -> int {
    spec_amount_limbs(w.in_amt_0)[k] + spec_amount_limbs(w.in_amt_1)[k] - spec_amount_limbs(
        w.change_amt,
    )[k] - spec_amount_limbs(w.fee_amount)[k]
}

/// The carries make the limb-by-limb sum exact: each limb's difference plus
/// the carry in is the radix times the carry out, the top limb's is zero,
/// and every carry lies in `[-2, 1]` (two bits once biased).
pub open spec fn spec_carries_balance(w: HushFeeWitness, c: Seq<i32>) -> bool {
    &&& c.len() == 3
    &&& spec_limb_delta(w, 0) == 32768 * c[0]
    &&& spec_limb_delta(w, 1) + c[0] == 32768 * c[1]
    &&& spec_limb_delta(w, 2) + c[1] == 32768 * c[2]
    &&& spec_limb_delta(w, 3) + c[2] == 0
    &&& forall|k: int| 0 <= k < 3 ==> -2 <= #[trigger] c[k] <= 1
}

/// The limbwise sum of the two inputs equals that of the change and the fee.
pub open spec fn spec_limbs_balance(w: HushFeeWitness) -> bool {
    spec_limbs_value(spec_amount_limbs(w.in_amt_0)) + spec_limbs_value(
        spec_amount_limbs(w.in_amt_1),
    ) == spec_limbs_value(spec_amount_limbs(w.change_amt)) + spec_limbs_value(
        spec_amount_limbs(w.fee_amount),
    )
}

/// Exact division of `delta` by the radix, for a multiple of it.
fn div_radix(delta: i64) -> (q: i64)
    requires
        delta % 32768 == 0,
        -4000000 <= delta <= 4000000,
    ensures
        delta == 32768 * q,
{
    if delta >= 0 {
        let u = delta as u64;
        (u / 32768) as i64
    } else {
        let u = (-delta) as u64;
        let q = (u / 32768) as i64;
        -q
    }
}

/// When four limb differences sum to zero in radix `2^15`, each running
/// difference is a multiple of the radix: the carries are
/// `c0 = -(d1 + d2 R + d3 R^2)`, `c1 = -(d2 + d3 R)`, `c2 = -d3`.
proof fn lemma_exact_carries(d0: int, d1: int, d2: int, d3: int)
    requires
        d0 + d1 * 32768 + d2 * 1073741824 + d3 * 35184372088832 == 0,
    ensures
        d0 == 32768 * (-(d1 + d2 * 32768 + d3 * 1073741824)),
        d1 - (d1 + d2 * 32768 + d3 * 1073741824) == 32768 * (-(d2 + d3 * 32768)),
        d2 - (d2 + d3 * 32768) == 32768 * (-d3),
{
}

/// The limb differences of a balanced witness, and the carries they give.
proof fn lemma_carries_of(w: HushFeeWitness, c0: int, c1: int, c2: int)
    requires
        spec_limbs_balance(w),
        c0 == -(spec_limb_delta(w, 1) + spec_limb_delta(w, 2) * 32768 + spec_limb_delta(w, 3)
            * 1073741824),
        c1 == -(spec_limb_delta(w, 2) + spec_limb_delta(w, 3) * 32768),
        c2 == -spec_limb_delta(w, 3),
    ensures
        spec_limb_delta(w, 0) == 32768 * c0,
        spec_limb_delta(w, 1) + c0 == 32768 * c1,
        spec_limb_delta(w, 2) + c1 == 32768 * c2,
        spec_limb_delta(w, 3) + c2 == 0,
{
    let d0 = spec_limb_delta(w, 0);
    let d1 = spec_limb_delta(w, 1);
    let d2 = spec_limb_delta(w, 2);
    let d3 = spec_limb_delta(w, 3);
    assert(d0 + d1 * 32768 + d2 * 1073741824 + d3 * 35184372088832 == 0);
    lemma_exact_carries(d0, d1, d2, d3);
}

/// The four limb differences of a witness.
fn limb_deltas(witness: &HushFeeWitness) -> (d: [i64; 4])
    ensures
        forall|k: int| 0 <= k < 4 ==> #[trigger] d@[k] == spec_limb_delta(*witness, k),
        forall|k: int| 0 <= k < 4 ==> -65534 <= #[trigger] d@[k] <= 65534,
{
    let in0 = amount_to_limbs(witness.in_amt_0);
    let in1 = amount_to_limbs(witness.in_amt_1);
    let ch = amount_to_limbs(witness.change_amt);
    let fee = amount_to_limbs(witness.fee_amount);
    let d: [i64; 4] = [
        in0[0] as i64 + in1[0] as i64 - ch[0] as i64 - fee[0] as i64,
        in0[1] as i64 + in1[1] as i64 - ch[1] as i64 - fee[1] as i64,
        in0[2] as i64 + in1[2] as i64 - ch[2] as i64 - fee[2] as i64,
        in0[3] as i64 + in1[3] as i64 - ch[3] as i64 - fee[3] as i64,
    ];
    d
}

/// The carries of the limb-by-limb balance `in0 + in1 = change + fee`.
pub fn compute_fee_carries(witness: &HushFeeWitness) -> (carries: [i32; 3])
    requires
        spec_limbs_balance(*witness),
    ensures
        spec_carries_balance(*witness, carries@),
{
    let d = limb_deltas(witness);
    let ghost g0: int = -(d[1] + d[2] * 32768 + d[3] * 1073741824);
    let ghost g1: int = -(d[2] + d[3] * 32768);
    let ghost g2: int = -d[3];
    proof {
        assert(d@[0] == spec_limb_delta(*witness, 0));
        assert(d@[1] == spec_limb_delta(*witness, 1));
        assert(d@[2] == spec_limb_delta(*witness, 2));
        assert(d@[3] == spec_limb_delta(*witness, 3));
        lemma_carries_of(*witness, g0, g1, g2);
    }
    let c0 = div_radix(d[0]);
    let c1 = div_radix(d[1] + c0);
    let c2 = div_radix(d[2] + c1);
    let carries: [i32; 3] = [c0 as i32, c1 as i32, c2 as i32];
    assert(carries@[0] == c0 && carries@[1] == c1 && carries@[2] == c2);
    carries
}

} // verus!
