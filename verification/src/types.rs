//! Amount limbs and the witnesses handed to the circuits.

use vstd::prelude::*;

verus! {

pub const MERKLE_DEPTH: usize = 20;

/// Amount encoding: four 15-bit limbs in radix R = 2^15 = 32768.
/// Max representable value: R^4 - 1 = 2^60 - 1.
pub const LIMB_BITS: usize = 15;
pub const NUM_LIMBS: usize = 4;
pub const RADIX: u64 = 32768;
pub const RADIX_U32: u32 = 32768;
pub const LIMB_MAX: u32 = 32767;

/// Carry bias for limb-by-limb conservation. Carries are in [-2, 1].
/// Biased carry = carry + CARRY_BIAS is in [0, 3], representable in 2 bits.
pub const CARRY_BIAS: u32 = 2;
pub const CARRY_BITS: usize = 2;
pub const NUM_CARRIES: usize = 3;

/// Largest amount that four limbs can carry: `2^60 - 1`.
pub const MAX_LIMB_AMOUNT: u64 = 1152921504606846975;

/// The four little-endian radix-`2^15` digits of an amount (the top one
/// keeps every bit above bit 45, reduced mod `2^15`).
pub open spec fn spec_amount_limbs(amount: u64) -> Seq<u32> {
    seq![
        (amount % 32768) as u32,
        ((amount / 32768) % 32768) as u32,
        ((amount / 1073741824) % 32768) as u32,
        ((amount / 35184372088832) % 32768) as u32,
    ]
}

/// The integer that four limbs denote.
pub open spec fn spec_limbs_value(limbs: Seq<u32>) -> int {
    limbs[0] + limbs[1] * 32768 + limbs[2] * 1073741824 + limbs[3] * 35184372088832
}

/// Decompose a u64 amount into four 15-bit limbs (little-endian radix-R).
pub fn amount_to_limbs(amount: u64) -> (limbs: [u32; 4])
    ensures
        limbs@ == spec_amount_limbs(amount),
        forall|i: int| 0 <= i < 4 ==> #[trigger] limbs@[i] <= LIMB_MAX,
{
    let r = [
        (amount % RADIX) as u32,
        ((amount / RADIX) % RADIX) as u32,
        ((amount / (RADIX * RADIX)) % RADIX) as u32,
        ((amount / (RADIX * RADIX * RADIX)) % RADIX) as u32,
    ];
    assert(r@ =~= spec_amount_limbs(amount));
    r
}

/// Reconstruct a u64 amount from four 15-bit limbs.
pub fn limbs_to_amount(limbs: [u32; 4]) -> (amount: u64)
    requires
        spec_limbs_value(limbs@) <= u64::MAX,
    ensures
        amount == spec_limbs_value(limbs@),
{
    limbs[0] as u64 + limbs[1] as u64 * RADIX + limbs[2] as u64 * RADIX * RADIX + limbs[3] as u64
        * RADIX * RADIX * RADIX
}

/// Splitting an amount below `2^60` into limbs and joining them again gives the
/// amount back, and every limb is at most `LIMB_MAX`.
pub proof fn lemma_limbs_roundtrip(amount: u64)
    requires
        amount <= MAX_LIMB_AMOUNT,
    ensures
        spec_limbs_value(spec_amount_limbs(amount)) == amount,
{
    let a = amount;
    assert(a == (a % 32768) + 32768 * ((a / 32768) % 32768) + 1073741824 * ((a / 1073741824)
        % 32768) + 35184372088832 * ((a / 35184372088832) % 32768)) by (bit_vector)
        requires
            a <= 1152921504606846975u64,
    ;
}

/// Joining four limbs below `2^15` and splitting the result again gives the
/// same limbs.
pub proof fn lemma_value_roundtrip(limbs: Seq<u32>)
    requires
        limbs.len() == 4,
        forall|i: int| 0 <= i < 4 ==> #[trigger] limbs[i] <= LIMB_MAX,
    ensures
        spec_limbs_value(limbs) <= MAX_LIMB_AMOUNT,
        spec_amount_limbs(spec_limbs_value(limbs) as u64) == limbs,
{
    let l0 = limbs[0] as u64;
    let l1 = limbs[1] as u64;
    let l2 = limbs[2] as u64;
    let l3 = limbs[3] as u64;
    assert(l0 <= 32767 && l1 <= 32767 && l2 <= 32767 && l3 <= 32767);
    let v: u64 = (l0 + l1 * 32768 + l2 * 1073741824 + l3 * 35184372088832) as u64;
    assert({
        &&& v % 32768 == l0
        &&& (v / 32768) % 32768 == l1
        &&& (v / 1073741824) % 32768 == l2
        &&& (v / 35184372088832) % 32768 == l3
        &&& v <= 1152921504606846975u64
    }) by (bit_vector)
        requires
            l0 <= 32767,
            l1 <= 32767,
            l2 <= 32767,
            l3 <= 32767,
            v == l0 + l1 * 32768 + l2 * 1073741824 + l3 * 35184372088832,
    ;
    assert(spec_amount_limbs(v) =~= limbs);
}

/// Everything the payment circuit proves a statement about: the spent
/// notes and their Merkle paths, the two outputs, the fee binding and the
/// roots the proof is bound to.
#[derive(Clone, Copy, Debug)]
pub struct PaymentWitness {
    pub epoch: u32,
    pub note_root: [u32; 4],
    pub sk: u32,
    pub in_asset: u32,
    pub in_amt_0: u64,
    pub in_rand_0: u32,
    pub in_amt_1: u64,
    pub in_rand_1: u32,
    pub out_amt_0: u64,
    pub out_owner_0: [u32; 4],
    pub out_rand_0: u32,
    pub out_amt_1: u64,
    pub out_rand_1: u32,
    pub payment_fee_amount: u64,
    pub binding_fee_asset: u32,
    pub fee_amount: u64,
    pub fee_class: u32,
    pub fee_schedule_version: u32,
    pub replay_domain: u32,
    pub tx_binding_hash: [u32; 4],
    pub sender_binding_tag: [u32; 4],
    pub att_root_0: [u32; 4],
    pub att_root_1: [u32; 4],
    pub pub_accumulator_root: [u32; 4],
    pub note_path_0: [([u32; 4], u32); MERKLE_DEPTH],
    pub note_path_1: [([u32; 4], u32); MERKLE_DEPTH],
}

/// Everything the HUSH fee sidecar circuit proves a statement about: two
/// HUSH notes that pay the fee and return the change.
#[derive(Clone, Copy, Debug)]
pub struct HushFeeWitness {
    pub note_root: [u32; 4],
    pub sk: u32,
    pub in_amt_0: u64,
    pub in_rand_0: u32,
    pub in_amt_1: u64,
    pub in_rand_1: u32,
    pub change_amt: u64,
    pub change_rand: u32,
    pub fee_amount: u64,
    pub tx_binding_hash: [u32; 4],
    pub sender_binding_tag: [u32; 4],
    pub note_path_0: [([u32; 4], u32); MERKLE_DEPTH],
    pub note_path_1: [([u32; 4], u32); MERKLE_DEPTH],
}

} // verus!
