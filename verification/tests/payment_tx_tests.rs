use hush_demo_stark::payment_fixtures::build_payment_merkle_context;
use hush_demo_stark::payment_tx::{
    derive_sender_binding_tag, expected_fee_amount, payment_route, validate_payment_tx,
    validate_tx_kind_fee_asset_policy, AssetId, FeeAuxProofDescriptor, NoteInput, PaymentRoute,
    PaymentTxV1, RecipientIntent, FEE_AUX_ROUTE_HUSH_SIDECAR, PAYMENT_FEE_SCHEDULE_BUSY,
    PAYMENT_FEE_SCHEDULE_PEAK, PAYMENT_FEE_SCHEDULE_STANDARD, PAYMENT_TX_V1_REPLAY_DOMAIN,
    TX_KIND_PAYMENT, TX_KIND_VALIDATOR_ACTION,
};

fn sample_same_asset_tx(asset: AssetId) -> PaymentTxV1 {
    PaymentTxV1::build_same_asset(
        asset,
        [
            NoteInput { amount: 7_000, randomness: 111 },
            NoteInput { amount: 3_000, randomness: 222 },
        ],
        RecipientIntent { amount: 8_000, owner: [99_999, 0, 0, 0], randomness: 333 },
        444,
        12_345,
    )
    .expect("sample tx should build")
}

fn sample_hush_fee_tx(asset: AssetId) -> PaymentTxV1 {
    PaymentTxV1::build_with_hush_fee(
        asset,
        [
            NoteInput { amount: 7_000, randomness: 111 },
            NoteInput { amount: 3_000, randomness: 222 },
        ],
        RecipientIntent { amount: 8_000, owner: [99_999, 0, 0, 0], randomness: 333 },
        444,
        12_345,
    )
    .expect("sample tx should build")
}

#[test]
fn test_builder_output_is_canonical_same_asset() {
    let tx = sample_same_asset_tx(AssetId::Usdc);
    assert_eq!(tx.descriptor.payment_asset, AssetId::Usdc.as_u32());
    assert_eq!(tx.descriptor.fee_asset, AssetId::Usdc.as_u32());
    assert_eq!(tx.descriptor.fee_amount, 50);
    assert_eq!(tx.descriptor.fee_schedule_version, PAYMENT_FEE_SCHEDULE_STANDARD);
    assert_eq!(tx.sender_change.amount, 1_950);
    assert!(tx.attachment.fee_aux.is_none());
    validate_payment_tx(&tx).expect("builder output should validate");
}

#[test]
fn test_builder_output_is_canonical_hush_sidecar() {
    let tx = sample_hush_fee_tx(AssetId::Usdc);
    assert_eq!(tx.descriptor.payment_asset, AssetId::Usdc.as_u32());
    assert_eq!(tx.descriptor.fee_asset, AssetId::Hush.as_u32());
    assert_eq!(tx.sender_change.amount, 2_000);
    assert_eq!(
        tx.attachment.fee_aux.as_ref().map(|fee_aux| fee_aux.route),
        Some(FEE_AUX_ROUTE_HUSH_SIDECAR)
    );
    validate_payment_tx(&tx).expect("Mode B builder output should validate");
}

#[test]
fn test_tx_binding_hash_is_deterministic() {
    let tx_a = sample_same_asset_tx(AssetId::Usdc);
    let tx_b = sample_same_asset_tx(AssetId::Usdc);
    assert_eq!(tx_a.tx_binding_hash, tx_b.tx_binding_hash);
}

#[test]
fn test_sender_binding_tag_is_deterministic() {
    let tx = sample_same_asset_tx(AssetId::Usdc);
    assert_eq!(
        derive_sender_binding_tag(12_345, tx.tx_binding_hash),
        derive_sender_binding_tag(12_345, tx.tx_binding_hash)
    );
}

#[test]
fn test_cross_stable_fee_mismatch_rejected() {
    let mut tx = sample_same_asset_tx(AssetId::Usdc);
    tx.descriptor.fee_asset = AssetId::Usdt.as_u32();
    assert!(validate_payment_tx(&tx).is_err());
}

#[test]
fn payment_tx_test_wrong_binding_hash_rejected() {
    let mut tx = sample_hush_fee_tx(AssetId::Usdt);
    tx.tx_binding_hash[0] = tx.tx_binding_hash[0].wrapping_add(1);
    assert!(validate_payment_tx(&tx).is_err());
}

#[test]
fn test_wrong_replay_domain_rejected() {
    let mut tx = sample_same_asset_tx(AssetId::Usdc);
    tx.descriptor.replay_domain = PAYMENT_TX_V1_REPLAY_DOMAIN + 1;
    assert!(validate_payment_tx(&tx).is_err());
}

#[test]
fn payment_tx_test_malformed_fee_descriptor_rejected() {
    let mut tx = sample_same_asset_tx(AssetId::Usdc);
    tx.descriptor.fee_class = 99;
    assert!(validate_payment_tx(&tx).is_err());
}

#[test]
fn test_missing_sidecar_when_required_rejected() {
    let mut tx = sample_hush_fee_tx(AssetId::Usdc);
    tx.attachment.fee_aux = None;
    assert!(validate_payment_tx(&tx).is_err());
}

#[test]
fn payment_tx_test_sidecar_rejected_when_disallowed() {
    let mut tx = sample_same_asset_tx(AssetId::Usdt);
    tx.attachment.fee_aux = Some(FeeAuxProofDescriptor { route: FEE_AUX_ROUTE_HUSH_SIDECAR });
    assert!(validate_payment_tx(&tx).is_err());
}

#[test]
fn test_fee_amount_mismatch_rejected() {
    let mut tx = sample_hush_fee_tx(AssetId::Usdt);
    tx.descriptor.fee_amount += 1;
    assert!(validate_payment_tx(&tx).is_err());
}

#[test]
fn test_hush_only_action_fee_policy() {
    validate_tx_kind_fee_asset_policy(TX_KIND_VALIDATOR_ACTION, None, AssetId::Hush.as_u32())
        .expect("validator action should accept HUSH");
    assert!(validate_tx_kind_fee_asset_policy(TX_KIND_VALIDATOR_ACTION, None, AssetId::Usdc.as_u32())
        .is_err());
}

#[test]
fn test_payment_fee_policy_mapping() {
    validate_tx_kind_fee_asset_policy(
        TX_KIND_PAYMENT,
        Some(AssetId::Usdc.as_u32()),
        AssetId::Usdc.as_u32(),
    )
    .expect("USDC same-asset path should be allowed");
    validate_tx_kind_fee_asset_policy(
        TX_KIND_PAYMENT,
        Some(AssetId::Usdt.as_u32()),
        AssetId::Hush.as_u32(),
    )
    .expect("USDT HUSH sidecar path should be allowed");
    assert!(validate_tx_kind_fee_asset_policy(
        TX_KIND_PAYMENT,
        Some(AssetId::Usdt.as_u32()),
        AssetId::Usdc.as_u32(),
    )
    .is_err());
}

// ---------------------------------------------------------------------------
// Further cases.
// ---------------------------------------------------------------------------

#[test]
fn fee_schedule_values_are_fixed_per_version() {
    let usdc = AssetId::Usdc.as_u32();
    let hush = AssetId::Hush.as_u32();
    assert_eq!(expected_fee_amount(usdc, usdc, PAYMENT_FEE_SCHEDULE_STANDARD), Ok(50));
    assert_eq!(expected_fee_amount(usdc, usdc, PAYMENT_FEE_SCHEDULE_BUSY), Ok(125));
    assert_eq!(expected_fee_amount(usdc, hush, PAYMENT_FEE_SCHEDULE_PEAK), Ok(300));
    let err = expected_fee_amount(usdc, hush, 9).unwrap_err();
    assert!(err.message().contains("unsupported payment fee schedule version 9"));
}

#[test]
fn routes_of_every_asset_pair() {
    assert_eq!(payment_route(1, 1), Ok(PaymentRoute::SameAsset));
    assert_eq!(payment_route(3, 3), Ok(PaymentRoute::SameAsset));
    assert_eq!(payment_route(1, 3), Ok(PaymentRoute::HushSidecar));
    assert_eq!(payment_route(2, 3), Ok(PaymentRoute::HushSidecar));
    assert!(payment_route(1, 2).unwrap_err().message().contains("cross-stablecoin"));
    assert!(payment_route(3, 1).unwrap_err().message().contains("cross-asset"));
    assert_eq!(payment_route(7, 1).unwrap_err().message(), "unsupported asset id 7");
}

#[test]
fn binding_hash_changes_with_the_recipient_amount() {
    let tx = sample_same_asset_tx(AssetId::Usdc);
    let other = PaymentTxV1::build_same_asset(
        AssetId::Usdc,
        [
            NoteInput { amount: 7_000, randomness: 111 },
            NoteInput { amount: 3_000, randomness: 222 },
        ],
        RecipientIntent { amount: 7_999, owner: [99_999, 0, 0, 0], randomness: 333 },
        444,
        12_345,
    )
    .expect("tx should build");
    assert_ne!(tx.tx_binding_hash, other.tx_binding_hash);
    assert_eq!(other.sender_change.amount, 1_951);
}

#[test]
fn insufficient_inputs_are_refused_by_the_builder() {
    let err = PaymentTxV1::build_same_asset(
        AssetId::Usdc,
        [NoteInput { amount: 10, randomness: 1 }, NoteInput { amount: 10, randomness: 2 }],
        RecipientIntent { amount: 10, owner: [1, 0, 0, 0], randomness: 3 },
        4,
        5,
    )
    .unwrap_err();
    assert_eq!(
        err.message(),
        "insufficient input value: total inputs 20 < recipient 10 + payment fee 50"
    );
}

#[test]
fn input_overflow_is_refused() {
    let err = PaymentTxV1::build_with_hush_fee(
        AssetId::Usdt,
        [
            NoteInput { amount: u64::MAX, randomness: 1 },
            NoteInput { amount: 1, randomness: 2 },
        ],
        RecipientIntent { amount: 10, owner: [1, 0, 0, 0], randomness: 3 },
        4,
        5,
    )
    .unwrap_err();
    assert_eq!(err.message(), "input amount overflow");
}

#[test]
fn wrong_key_cannot_build_a_witness() {
    let inputs = [
        NoteInput { amount: 7_000, randomness: 111 },
        NoteInput { amount: 3_000, randomness: 222 },
    ];
    let tx = sample_same_asset_tx(AssetId::Usdc);
    let context = build_payment_merkle_context(12_345, inputs, AssetId::Usdc, 1_000);
    assert!(tx.build_witness(12_345, &context).is_ok());
    let err = tx.build_witness(12_346, &context).unwrap_err();
    assert!(err.message().starts_with("sender_binding_tag mismatch"));
}
