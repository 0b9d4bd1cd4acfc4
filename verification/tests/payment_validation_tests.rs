use hush_demo_stark::circuit;
use hush_demo_stark::fee_sidecar;
use hush_demo_stark::payment_fixtures::{
    malformed_sidecar_hush_fee_fixture, missing_sidecar_hush_fee_fixture,
    valid_usdc_hush_fee_fixture, valid_usdc_same_asset_fixture, valid_usdt_hush_fee_fixture,
    valid_usdt_same_asset_fixture,
};
use hush_demo_stark::payment_tx::{AssetId, FeeAuxProofDescriptor};
use hush_demo_stark::payment_validation::{
    prove_payment_bundle, validate_payment_bundle, HushFeeProof, PaymentBundleProof, PaymentProof,
};

#[test]
fn test_all_four_valid_combinations_accepted() {
    let usdc_same = valid_usdc_same_asset_fixture();
    prove_payment_bundle(&usdc_same.tx, &usdc_same.witness, None)
        .expect("USDC payment with USDC fee should validate");

    let usdt_same = valid_usdt_same_asset_fixture();
    prove_payment_bundle(&usdt_same.tx, &usdt_same.witness, None)
        .expect("USDT payment with USDT fee should validate");

    let usdc_hush = valid_usdc_hush_fee_fixture();
    prove_payment_bundle(&usdc_hush.tx, &usdc_hush.witness, usdc_hush.fee_sidecar_witness.as_ref())
        .expect("USDC payment with HUSH fee should validate");

    let usdt_hush = valid_usdt_hush_fee_fixture();
    prove_payment_bundle(&usdt_hush.tx, &usdt_hush.witness, usdt_hush.fee_sidecar_witness.as_ref())
        .expect("USDT payment with HUSH fee should validate");
}

#[test]
fn test_missing_sidecar_rejected_when_required() {
    let fixture = missing_sidecar_hush_fee_fixture();
    let err = match prove_payment_bundle(&fixture.tx, &fixture.witness, None) {
        Ok(_) => panic!("Mode B bundle should reject missing sidecar"),
        Err(err) => err.message(),
    };
    assert!(err.contains("missing HUSH sidecar"));
}

#[test]
fn payment_validation_test_sidecar_rejected_when_disallowed() {
    let same_asset = valid_usdc_same_asset_fixture();
    let sidecar = valid_usdc_hush_fee_fixture();
    let err = match prove_payment_bundle(
        &same_asset.tx,
        &same_asset.witness,
        sidecar.fee_sidecar_witness.as_ref(),
    ) {
        Ok(_) => panic!("Mode A bundle should reject sidecar proof"),
        Err(err) => err.message(),
    };
    assert!(err.contains("sidecar"));
}

#[test]
fn test_wrong_sidecar_attached_to_payment_proof_rejected() {
    let usdc_hush = valid_usdc_hush_fee_fixture();
    let usdt_hush = valid_usdt_hush_fee_fixture();

    let payment = circuit::validate_witness(&usdc_hush.witness).expect("payment statement should hold");
    let sidecar = fee_sidecar::validate_witness(
        usdt_hush.fee_sidecar_witness.as_ref().expect("Mode B fixture should include sidecar"),
    )
    .expect("sidecar statement should hold");

    let err = match validate_payment_bundle(
        &usdc_hush.tx,
        &PaymentBundleProof {
            payment: PaymentProof { public_data: payment, verifies: true },
            fee_sidecar: Some(HushFeeProof { public_data: sidecar, verifies: true }),
        },
    ) {
        Ok(_) => panic!("wrong sidecar pairing should be rejected"),
        Err(err) => err.message(),
    };
    assert!(err.contains("mismatch") || err.contains("do not match"));
}

#[test]
fn test_cross_stablecoin_mismatch_rejected() {
    let mut fixture = valid_usdc_same_asset_fixture();
    fixture.tx.descriptor.fee_asset = AssetId::Usdt.as_u32();
    let err = match prove_payment_bundle(&fixture.tx, &fixture.witness, None) {
        Ok(_) => panic!("cross-stable mismatch should be rejected"),
        Err(err) => err.message(),
    };
    assert!(err.contains("cross-stablecoin"));
}

#[test]
fn payment_validation_test_malformed_fee_descriptor_rejected() {
    let mut fixture = valid_usdc_same_asset_fixture();
    fixture.tx.descriptor.fee_class = 99;
    let err = match prove_payment_bundle(&fixture.tx, &fixture.witness, None) {
        Ok(_) => panic!("malformed descriptor should be rejected"),
        Err(err) => err.message(),
    };
    assert!(err.contains("fee_class"));
}

#[test]
fn test_malformed_sidecar_rejected() {
    let fixture = malformed_sidecar_hush_fee_fixture();
    let err = match prove_payment_bundle(
        &fixture.tx,
        &fixture.witness,
        fixture.fee_sidecar_witness.as_ref(),
    ) {
        Ok(_) => panic!("malformed sidecar should be rejected"),
        Err(err) => err.message(),
    };
    assert!(err.contains("HUSH sidecar"));
}

#[test]
fn test_proof_route_mismatch_rejected() {
    let mut fixture = valid_usdc_hush_fee_fixture();
    fixture.tx.attachment.fee_aux = Some(FeeAuxProofDescriptor { route: 99 });
    let err = match prove_payment_bundle(
        &fixture.tx,
        &fixture.witness,
        fixture.fee_sidecar_witness.as_ref(),
    ) {
        Ok(_) => panic!("proof-route mismatch should be rejected"),
        Err(err) => err.message(),
    };
    assert!(err.contains("route"));
}

#[test]
fn payment_validation_test_wrong_tx_binding_hash_rejected() {
    let fixture = valid_usdc_hush_fee_fixture();
    let mut tx = fixture.tx.clone();
    tx.tx_binding_hash[0] = tx.tx_binding_hash[0].wrapping_add(1);
    let err = match prove_payment_bundle(&tx, &fixture.witness, fixture.fee_sidecar_witness.as_ref()) {
        Ok(_) => panic!("wrong tx_binding_hash should be rejected"),
        Err(err) => err.message(),
    };
    assert!(err.contains("tx_binding_hash"));
}

#[test]
fn payment_validation_test_wrong_sender_binding_tag_rejected() {
    let fixture = valid_usdc_hush_fee_fixture();
    let mut tx = fixture.tx.clone();
    tx.attachment.sender_binding_tag[0] = tx.attachment.sender_binding_tag[0].wrapping_add(1);
    let err = match prove_payment_bundle(&tx, &fixture.witness, fixture.fee_sidecar_witness.as_ref()) {
        Ok(_) => panic!("wrong sender_binding_tag should be rejected"),
        Err(err) => err.message(),
    };
    assert!(err.contains("sender_binding_tag"));
}

// ---------------------------------------------------------------------------
// Further cases.
// ---------------------------------------------------------------------------

#[test]
fn bundle_statements_carry_the_transaction_binding() {
    let fixture = valid_usdt_hush_fee_fixture();
    let bundle = prove_payment_bundle(
        &fixture.tx,
        &fixture.witness,
        fixture.fee_sidecar_witness.as_ref(),
    )
    .expect("bundle should assemble");
    assert_eq!(bundle.payment.public_data.tx_binding_hash, fixture.tx.tx_binding_hash);
    assert_eq!(bundle.payment.public_data.sender_binding_tag, fixture.sender_binding_tag);
    assert!(bundle.payment.verifies);
    let sidecar = bundle.fee_sidecar.expect("Mode B bundle has a sidecar statement").public_data;
    assert_eq!(sidecar.fee_amount, 50);
    assert_eq!(sidecar.tx_binding_hash, fixture.tx.tx_binding_hash);
    assert_ne!(bundle.payment.public_data.null_0, bundle.payment.public_data.null_1);
    assert_ne!(sidecar.null_0, sidecar.null_1);
    validate_payment_bundle(&fixture.tx, &bundle).expect("assembled bundle validates");
}

#[test]
fn sidecar_fee_amount_must_match_the_transaction() {
    let fixture = valid_usdc_hush_fee_fixture();
    let mut bundle = prove_payment_bundle(
        &fixture.tx,
        &fixture.witness,
        fixture.fee_sidecar_witness.as_ref(),
    )
    .expect("bundle should assemble");
    let mut sidecar = bundle.fee_sidecar.unwrap();
    sidecar.public_data.fee_amount = 49;
    bundle.fee_sidecar = Some(sidecar);
    let err = validate_payment_bundle(&fixture.tx, &bundle).unwrap_err();
    assert_eq!(err.message(), "sidecar fee amount mismatch: proof 49, tx 50");
}

#[test]
fn mode_a_bundle_with_sidecar_statement_is_refused() {
    let fixture = valid_usdc_same_asset_fixture();
    let other = valid_usdc_hush_fee_fixture();
    let mut bundle =
        prove_payment_bundle(&fixture.tx, &fixture.witness, None).expect("bundle should assemble");
    bundle.fee_sidecar = Some(HushFeeProof {
        public_data: fee_sidecar::validate_witness(other.fee_sidecar_witness.as_ref().unwrap())
            .unwrap(),
        verifies: true,
    });
    let err = validate_payment_bundle(&fixture.tx, &bundle).unwrap_err();
    assert_eq!(err.message(), "sidecar proof is disallowed for same-asset Mode A");
}

#[test]
fn bundle_whose_payment_proof_fails_to_verify_is_refused() {
    let fixture = valid_usdc_hush_fee_fixture();
    let mut bundle = prove_payment_bundle(
        &fixture.tx,
        &fixture.witness,
        fixture.fee_sidecar_witness.as_ref(),
    )
    .expect("bundle should assemble");
    bundle.payment.verifies = false;
    assert_eq!(validate_payment_bundle(&fixture.tx, &bundle).unwrap_err().message(), "Verification failed");
    bundle.payment.verifies = true;
    let mut sidecar = bundle.fee_sidecar.unwrap();
    sidecar.verifies = false;
    bundle.fee_sidecar = Some(sidecar);
    assert_eq!(
        validate_payment_bundle(&fixture.tx, &bundle).unwrap_err().message(),
        "HUSH fee verification failed"
    );
}
