use hush_demo_stark::circuit::validate_witness as validate_payment_witness;
use hush_demo_stark::fee_sidecar::{compute_fee_carries, validate_witness as validate_fee_witness};
use hush_demo_stark::m31::m31_from_u32;
use hush_demo_stark::ledger::{build_payment_witness, LedgerState};
use hush_demo_stark::merkle::SparseMerkleTree;
use hush_demo_stark::payment_tx::compute_mode_a_tx_binding_hash;
use hush_demo_stark::payment_fixtures::{
    insufficient_hush_fee_coverage_fixture, invalid_hush_change_fixture,
    valid_usdc_hush_fee_fixture, valid_usdc_same_asset_fixture, valid_usdt_hush_fee_fixture,
    valid_usdt_same_asset_fixture, wrong_sender_binding_tag_hush_fee_fixture,
    wrong_tx_binding_hash_hush_fee_fixture,
};
use hush_demo_stark::poseidon2::{
    attestation_commitment, derive_issuer_id, derive_owner, hashout_to_u32_array,
    note_commitment_u64,
};
use hush_demo_stark::provenance_attestation::{self, AttestationWitness};
use hush_demo_stark::time_window::{self, TimeWindowWitness, MAX_TX};
use hush_demo_stark::types::MERKLE_DEPTH;

fn valid_payment_witness() -> hush_demo_stark::types::PaymentWitness {
    valid_usdc_same_asset_fixture().witness
}

#[test]
fn test_receiver_full_amount_and_sender_change_preserved() {
    let fixture = valid_usdc_same_asset_fixture();
    assert_eq!(fixture.witness.out_amt_0, fixture.tx.recipient.amount);
    assert_eq!(fixture.witness.out_amt_1, fixture.tx.sender_change.amount);
    assert_eq!(
        fixture.witness.in_amt_0 + fixture.witness.in_amt_1,
        fixture.witness.out_amt_0 + fixture.witness.out_amt_1 + fixture.witness.payment_fee_amount
    );
}

#[test]
fn test_payment_roundtrip() {
    let witness = valid_payment_witness();
    let public_data = validate_payment_witness(&witness).expect("statement should hold");
    assert_ne!(public_data.null_0, [0; 4]);
    assert_ne!(public_data.null_1, [0; 4]);
    assert_ne!(public_data.out_cm_0, [0; 4]);
    assert_ne!(public_data.out_cm_1, [0; 4]);
    assert_eq!(public_data.tx_binding_hash, witness.tx_binding_hash);
    assert_ne!(public_data.null_0, public_data.null_1);
}

#[test]
fn test_payment_roundtrip_usdt_same_asset() {
    let witness = valid_usdt_same_asset_fixture().witness;
    let public_data = validate_payment_witness(&witness).expect("USDT same-asset statement holds");
    assert_eq!(public_data.tx_binding_hash, witness.tx_binding_hash);
}

#[test]
fn test_balance_mismatch() {
    let mut witness = valid_payment_witness();
    witness.out_amt_0 = 9000;
    match validate_payment_witness(&witness) {
        Err(e) => assert!(e.message().contains("Balance conservation failed"), "Got: {}", e.message()),
        Ok(_) => panic!("Should have rejected bad balance"),
    }
}

#[test]
fn test_wrong_fee_amount_rejected() {
    let mut witness = valid_payment_witness();
    witness.fee_amount += 1;
    match validate_payment_witness(&witness) {
        Err(e) => {
            let m = e.message();
            assert!(m.contains("Balance conservation failed") || m.contains("tx_binding_hash mismatch"))
        }
        Ok(_) => panic!("Should have rejected wrong fee amount"),
    }
}

#[test]
fn circuit_test_wrong_binding_hash_rejected() {
    let mut witness = valid_payment_witness();
    witness.tx_binding_hash[0] = witness.tx_binding_hash[0].wrapping_add(1);
    match validate_payment_witness(&witness) {
        Err(e) => assert!(e.message().contains("tx_binding_hash mismatch"), "Got: {}", e.message()),
        Ok(_) => panic!("Should have rejected wrong tx binding hash"),
    }
}

#[test]
fn test_hush_fee_roundtrip_usdc_hush_gas() {
    let fixture = valid_usdc_hush_fee_fixture();
    let witness = fixture.fee_sidecar_witness.expect("HUSH gas fixture should include sidecar");
    let public_data = validate_fee_witness(&witness).expect("HUSH gas statement should hold");
    assert_eq!(public_data.tx_binding_hash, fixture.tx.tx_binding_hash);
    assert_eq!(public_data.sender_binding_tag, fixture.sender_binding_tag);
}

#[test]
fn test_hush_fee_roundtrip_usdt_hush_gas() {
    let fixture = valid_usdt_hush_fee_fixture();
    let witness = fixture.fee_sidecar_witness.expect("HUSH gas fixture should include sidecar");
    validate_fee_witness(&witness).expect("HUSH gas statement should hold");
}

#[test]
fn test_insufficient_hush_fee_coverage_rejected() {
    let fixture = insufficient_hush_fee_coverage_fixture();
    let witness = fixture.fee_sidecar_witness.expect("invalid fixture should include sidecar");
    assert!(validate_fee_witness(&witness).is_err());
}

#[test]
fn test_invalid_hush_change_rejected() {
    let fixture = invalid_hush_change_fixture();
    let witness = fixture.fee_sidecar_witness.expect("invalid fixture should include sidecar");
    assert!(validate_fee_witness(&witness).is_err());
}

#[test]
fn fee_sidecar_test_wrong_sender_binding_tag_rejected() {
    let fixture = wrong_sender_binding_tag_hush_fee_fixture();
    let witness = fixture.fee_sidecar_witness.expect("invalid fixture should include sidecar");
    assert!(validate_fee_witness(&witness).is_err());
}

#[test]
fn fee_sidecar_test_wrong_tx_binding_hash_rejected() {
    let fixture = wrong_tx_binding_hash_hush_fee_fixture();
    let witness = fixture.fee_sidecar_witness.expect("invalid fixture should include sidecar");
    assert!(validate_fee_witness(&witness).is_err());
}

#[test]
fn fee_carries_balance_the_limbs() {
    let fixture = valid_usdc_hush_fee_fixture();
    let witness = fixture.fee_sidecar_witness.unwrap();
    assert_eq!(compute_fee_carries(&witness), [0, 0, 0]);
    let mut big = witness;
    big.in_amt_0 = 32_767;
    big.in_amt_1 = 1;
    big.change_amt = 32_718;
    big.fee_amount = 50;
    assert_eq!(compute_fee_carries(&big), [0, 0, 0]);
    big.in_amt_0 = 32_768;
    big.in_amt_1 = 32_768;
    big.change_amt = 65_486;
    // limb 0: 0 + 0 - 32718 - 50 = -32768 borrows one from limb 1
    assert_eq!(compute_fee_carries(&big), [-1, 0, 0]);
    big.in_amt_0 = 40_000;
    big.in_amt_1 = 40_000;
    big.change_amt = 79_950;
    // limb 0: 7232 + 7232 - 14414 - 50 = 0; limb 1: 1 + 1 - 2 = 0
    assert_eq!(compute_fee_carries(&big), [0, 0, 0]);
    big.in_amt_0 = 32_767;
    big.in_amt_1 = 32_767;
    big.change_amt = 65_484;
    // limb 0: 32767 + 32767 - 32716 - 50 = 32768 carries one into limb 1
    let d0 = 32_767i64 + 32_767 - (65_484 % 32_768) as i64 - 50;
    assert_eq!(d0, 32_768);
    assert_eq!(compute_fee_carries(&big), [1, 0, 0]);
}

fn attestation_fixture() -> (u32, [u32; 4], [([u32; 4], u32); MERKLE_DEPTH]) {
    let sk = m31_from_u32(12345);
    let owner = derive_owner(sk);
    let issuer_id = derive_issuer_id(1);
    let cm = attestation_commitment(issuer_id, owner, 2000, 777);
    let mut tree = SparseMerkleTree::new(MERKLE_DEPTH);
    tree.set_leaf(0, cm);
    let root = tree.root();
    let path_vec = tree.path(0);
    let mut path = [([0u32; 4], 0u32); MERKLE_DEPTH];
    for i in 0..MERKLE_DEPTH {
        path[i] = (hashout_to_u32_array(path_vec[i].0), path_vec[i].1);
    }
    (12345, hashout_to_u32_array(root), path)
}

fn valid_time_window_witness() -> TimeWindowWitness {
    let (sk, root, path) = attestation_fixture();
    let mut amounts = [0u64; MAX_TX];
    let mut timestamps = [0u32; MAX_TX];
    amounts[0] = 50000;
    timestamps[0] = 100;
    amounts[1] = 30000;
    timestamps[1] = 200;
    amounts[2] = 20000;
    timestamps[2] = 300;
    amounts[3] = 10000;
    timestamps[3] = 400;
    TimeWindowWitness {
        window_start: 50,
        window_end: 500,
        claimed_total: 110000,
        attestation_root: root,
        epoch: 1000,
        tx_amounts: amounts,
        tx_timestamps: timestamps,
        tx_count: 4,
        sk,
        attestation_issuer: 1,
        attestation_expiry: 2000,
        attestation_secret: 777,
        attestation_path: path,
    }
}

#[test]
fn test_time_window_roundtrip() {
    let witness = valid_time_window_witness();
    let public_data = time_window::validate_witness(&witness).expect("statement should hold");
    assert_eq!(public_data.claimed_total, 110000);
    assert_eq!(public_data.attestation_root, witness.attestation_root);
}

#[test]
fn test_mismatched_total() {
    let mut witness = valid_time_window_witness();
    witness.claimed_total = 999999;
    assert!(time_window::validate_witness(&witness).is_err());
}

#[test]
fn test_invalid_window() {
    let mut witness = valid_time_window_witness();
    witness.window_start = witness.window_end + 1;
    assert!(time_window::validate_witness(&witness).is_err());
}

#[test]
fn test_large_u64_amounts() {
    let mut witness = valid_time_window_witness();
    witness.tx_amounts[0] = 5_000_000_000;
    witness.tx_amounts[1] = 3_000_000_000;
    witness.tx_amounts[2] = 2_000_000_000;
    witness.tx_amounts[3] = 500_000_000;
    witness.claimed_total = 10_500_000_000;
    time_window::validate_witness(&witness).expect("statement should hold");
}

#[test]
fn time_window_counts_only_in_window_transactions() {
    let mut witness = valid_time_window_witness();
    witness.window_start = 150;
    witness.window_end = 300;
    witness.claimed_total = 50000;
    time_window::validate_witness(&witness).expect("only 200 and 300 fall inside");
    witness.claimed_total = 110000;
    let err = time_window::validate_witness(&witness).unwrap_err();
    assert_eq!(
        err.message(),
        "Claimed total 110000 does not match actual total 50000 for the window"
    );
}

#[test]
fn time_window_rejects_expired_attestation() {
    let mut witness = valid_time_window_witness();
    witness.epoch = 2000;
    let err = time_window::validate_witness(&witness).unwrap_err();
    assert!(err.message().contains("Attestation"));
}

#[test]
fn attestation_statement_accepts_authorized_issuer() {
    let issuer_id = derive_issuer_id(7);
    let subject = derive_owner(m31_from_u32(4242));
    let cm = attestation_commitment(issuer_id, subject, 3000, 55);
    let mut issuers = SparseMerkleTree::new(MERKLE_DEPTH);
    issuers.set_leaf(3, issuer_id);
    let path_vec = issuers.path(3);
    let mut issuer_path = [([0u32; 4], 0u32); MERKLE_DEPTH];
    for i in 0..MERKLE_DEPTH {
        issuer_path[i] = (hashout_to_u32_array(path_vec[i].0), path_vec[i].1);
    }
    let witness = AttestationWitness {
        issuer_root: hashout_to_u32_array(issuers.root()),
        attestation_commitment: hashout_to_u32_array(cm),
        issuer_key: 7,
        subject: hashout_to_u32_array(subject),
        expiry: 3000,
        secret: 55,
        issuer_path,
    };
    let public_data = provenance_attestation::validate_witness(&witness).expect("authorized");
    assert_eq!(public_data.attestation_commitment, hashout_to_u32_array(cm));

    let mut wrong_key = witness;
    wrong_key.issuer_key = 8;
    assert_eq!(
        provenance_attestation::validate_witness(&wrong_key).unwrap_err().message(),
        "Attestation commitment does not match expected value"
    );
    let mut wrong_root = witness;
    wrong_root.issuer_root[0] = wrong_root.issuer_root[0].wrapping_add(1);
    assert_eq!(
        provenance_attestation::validate_witness(&wrong_root).unwrap_err().message(),
        "Issuer is not in the authorized issuer set"
    );
}

#[test]
fn spending_one_note_twice_is_refused() {
    let mut ledger = LedgerState::new();
    let owner = derive_owner(12_345);
    let note = note_commitment_u64(1, 7_000, owner, 111, [0u32; 4]);
    let idx_0 = ledger.add_note(note);
    let idx_1 = ledger.add_note(note);
    let bob = derive_owner(99_999);
    let witness = build_payment_witness(
        &ledger, 1_000, 12_345, 1, idx_0, 7_000, 111, idx_1, 7_000, 111, 8_000, bob, 333, 6_000,
        444,
    );
    let err = validate_payment_witness(&witness).unwrap_err();
    assert_eq!(err, hush_demo_stark::error::HushError::NullifiersNotDistinct);
    assert_eq!(err.message(), "Nullifiers must differ");
}

#[test]
fn payment_amounts_beyond_four_limbs_are_refused() {
    let mut witness = valid_payment_witness();
    witness.in_amt_0 = 1u64 << 60;
    let err = validate_payment_witness(&witness).unwrap_err();
    assert_eq!(err, hush_demo_stark::error::HushError::AmountOutOfRange(1u64 << 60));
    assert_eq!(err.message(), "amount 1152921504606846976 exceeds the four-limb range (2^60 - 1)");
}

#[test]
fn sidecar_spending_one_note_twice_is_refused() {
    let fixture = valid_usdc_hush_fee_fixture();
    let mut sidecar = fixture.fee_sidecar_witness.expect("Mode B fixture has a sidecar");
    sidecar.in_amt_1 = sidecar.in_amt_0;
    sidecar.in_rand_1 = sidecar.in_rand_0;
    sidecar.note_path_1 = sidecar.note_path_0;
    sidecar.change_amt = 2 * sidecar.in_amt_0 - sidecar.fee_amount;
    let err = validate_fee_witness(&sidecar).unwrap_err();
    assert_eq!(err.message(), "HUSH sidecar nullifiers must differ");
}

#[test]
fn sidecar_amounts_beyond_four_limbs_are_refused() {
    let fixture = valid_usdc_hush_fee_fixture();
    let mut sidecar = fixture.fee_sidecar_witness.expect("Mode B fixture has a sidecar");
    sidecar.change_amt = u64::MAX;
    let err = validate_fee_witness(&sidecar).unwrap_err();
    assert_eq!(err, hush_demo_stark::error::HushError::AmountOutOfRange(u64::MAX));
}

#[test]
fn binding_hash_keeps_amounts_apart() {
    let owner = [1u32, 2, 3, 4];
    let a = compute_mode_a_tx_binding_hash(1, 1, 1, 1, 50, 1, 0, owner, 7, 100, 9);
    let b = compute_mode_a_tx_binding_hash(1, 1, 1, 1, 50, 1, 2_147_483_647, owner, 7, 100, 9);
    let c = compute_mode_a_tx_binding_hash(1, 1, 1, 1, 50, 1, 1u64 << 30, owner, 7, 100, 9);
    let d = compute_mode_a_tx_binding_hash(1, 1, 1, 1, 50, 1, 1u64 << 31, owner, 7, 100, 9);
    let e = compute_mode_a_tx_binding_hash(1, 1, 1, 1, 50, 1, (1u64 << 31) | 1, owner, 7, 100, 9);
    let all = [a, b, c, d, e];
    for i in 0..all.len() {
        for j in (i + 1)..all.len() {
            assert_ne!(all[i], all[j]);
        }
    }
}

#[test]
fn spent_notes_with_different_attestation_roots_are_refused() {
    let mut witness = valid_payment_witness();
    witness.att_root_1 = [1, 0, 0, 0];
    let err = validate_payment_witness(&witness).unwrap_err();
    assert_eq!(err, hush_demo_stark::error::HushError::AttestationRootsDiffer);
    assert_eq!(err.message(), "Input notes must carry the same attestation root");
}

#[test]
fn test_m31_wrapping_attack() {
    let mut witness = valid_payment_witness();
    let p = (1u32 << 31) - 1;
    witness.in_amt_0 = 0;
    witness.in_amt_1 = 0;
    witness.out_amt_0 = u64::from(p - 1);
    witness.out_amt_1 = 1;
    assert!(validate_payment_witness(&witness).is_err());
}

#[test]
fn test_zero_value_transfer() {
    let mut ledger = LedgerState::new();
    let owner = derive_owner(42);
    let idx_0 = ledger.add_note(note_commitment_u64(1, 5, owner, 10, [0u32; 4]));
    let idx_1 = ledger.add_note(note_commitment_u64(1, 0, owner, 20, [0u32; 4]));
    let recipient = derive_owner(99_999);
    let witness =
        build_payment_witness(&ledger, 1_000, 42, 1, idx_0, 5, 10, idx_1, 0, 20, 0, recipient, 1_010, 5, 1_020);
    validate_payment_witness(&witness).expect("zero-value transfer should prove");
}

fn attestation_witness_for(issuer_tree: &SparseMerkleTree, leaf: usize) -> AttestationWitness {
    let issuer_id = derive_issuer_id(42);
    let subject = derive_owner(12345);
    let cm = attestation_commitment(issuer_id, subject, 2000, 777);
    let path_vec = issuer_tree.path(leaf);
    let mut issuer_path = [([0u32; 4], 0u32); MERKLE_DEPTH];
    for i in 0..MERKLE_DEPTH {
        issuer_path[i] = (hashout_to_u32_array(path_vec[i].0), path_vec[i].1);
    }
    AttestationWitness {
        issuer_root: hashout_to_u32_array(issuer_tree.root()),
        attestation_commitment: hashout_to_u32_array(cm),
        issuer_key: 42,
        subject: hashout_to_u32_array(subject),
        expiry: 2000,
        secret: 777,
        issuer_path,
    }
}

#[test]
fn provenance_attestation_test_issuance_roundtrip() {
    let mut issuer_tree = SparseMerkleTree::new(MERKLE_DEPTH);
    issuer_tree.set_leaf(0, derive_issuer_id(42));
    let witness = attestation_witness_for(&issuer_tree, 0);
    provenance_attestation::validate_witness(&witness).expect("Attestation should succeed");
}

#[test]
fn provenance_attestation_test_wrong_issuer_key() {
    let empty_tree = SparseMerkleTree::new(MERKLE_DEPTH);
    let witness = attestation_witness_for(&empty_tree, 0);
    match provenance_attestation::validate_witness(&witness) {
        Err(e) => assert!(e.message().contains("authorized issuer set"), "Got: {}", e.message()),
        Ok(_) => panic!("Should have rejected unauthorized issuer"),
    }
}
