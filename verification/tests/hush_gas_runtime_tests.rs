use hush_demo_stark::hush_gas_runtime::{
    prepare_wallet_submission, quote_payment, runtime_review_snapshot, split_demo_notes,
    ImplementationLevel, WalletQuoteRequest, WalletSubmissionRequest, DEMO_SENDER_KEY,
};
use hush_demo_stark::m31::m31_from_u32;
use hush_demo_stark::payment_tx::{
    AssetId, PaymentTxV1, RecipientIntent, PAYMENT_FEE_SCHEDULE_BUSY,
    PAYMENT_FEE_SCHEDULE_STANDARD,
};
use hush_demo_stark::payment_validation::prove_payment_bundle;
use hush_demo_stark::poseidon2::{derive_owner, hashout_to_u32_array};

fn sample_stablecoin_fee_request() -> WalletSubmissionRequest {
    WalletSubmissionRequest {
        payment_asset: AssetId::Usdc.as_u32(),
        fee_asset: AssetId::Usdc.as_u32(),
        amount: 8_000,
        fee_schedule_version: PAYMENT_FEE_SCHEDULE_STANDARD,
        recipient_owner: 77_777,
        payment_balance: 10_000,
        hush_balance: 12,
        attestation_expiry: None,
    }
}

fn sample_hush_gas_request() -> WalletSubmissionRequest {
    WalletSubmissionRequest {
        payment_asset: AssetId::Usdt.as_u32(),
        fee_asset: AssetId::Hush.as_u32(),
        amount: 10_000,
        fee_schedule_version: PAYMENT_FEE_SCHEDULE_STANDARD,
        recipient_owner: 66_666,
        payment_balance: 11_000,
        hush_balance: 100,
        attestation_expiry: None,
    }
}

#[test]
fn test_stablecoin_fee_quote_rejected_in_demo_runtime() {
    let request = sample_stablecoin_fee_request();
    let err = quote_payment(&WalletQuoteRequest {
        payment_asset: request.payment_asset,
        fee_asset: request.fee_asset,
        amount: request.amount,
        fee_schedule_version: request.fee_schedule_version,
    })
    .expect_err("stablecoin fee route should not be a demo runtime route");
    assert!(err.message().contains("unsupported payment fee route"));
}

#[test]
fn test_supported_route_quote_and_builder_alignment_hush_sidecar() {
    let request = sample_hush_gas_request();
    let quote = quote_payment(&WalletQuoteRequest {
        payment_asset: request.payment_asset,
        fee_asset: request.fee_asset,
        amount: request.amount,
        fee_schedule_version: request.fee_schedule_version,
    })
    .expect("HUSH sidecar quote should succeed");
    assert_eq!(quote.route, "hush_gas");
    assert_eq!(quote.payment_debit, 10_000);
    assert_eq!(quote.hush_fee_debit, 50);

    let prepared = prepare_wallet_submission(&request).expect("submission should prepare");
    let expected = PaymentTxV1::build_with_hush_fee_with_schedule(
        AssetId::Usdt,
        split_demo_notes(request.payment_balance, 111, 222).expect("split"),
        RecipientIntent {
            amount: request.amount,
            owner: hashout_to_u32_array(derive_owner(m31_from_u32(request.recipient_owner))),
            randomness: request.recipient_owner.wrapping_mul(31).wrapping_add(request.amount as u32),
        },
        (request.payment_balance as u32).wrapping_mul(17).wrapping_add(444),
        DEMO_SENDER_KEY,
        request.fee_schedule_version,
    )
    .expect("expected tx should build");
    assert_eq!(prepared.tx, expected);
}

#[test]
fn test_unsupported_route_quote_rejected() {
    let err = quote_payment(&WalletQuoteRequest {
        payment_asset: AssetId::Usdc.as_u32(),
        fee_asset: AssetId::Usdt.as_u32(),
        amount: 8_000,
        fee_schedule_version: PAYMENT_FEE_SCHEDULE_STANDARD,
    })
    .expect_err("unsupported route should be rejected");
    assert!(err.message().contains("unsupported payment fee route"));
}

#[test]
fn test_supported_paths_marked_real_only_when_backend_backed() {
    let review = runtime_review_snapshot();
    assert_eq!(
        review.item("payment_route_hush_gas").map(|item| item.level),
        Some(ImplementationLevel::Supported)
    );
    assert!(review.item("payment_route_stablecoin_fee").is_none());
    assert_eq!(
        review.item("wallet_onboarding").map(|item| item.level),
        Some(ImplementationLevel::RepresentedOnly)
    );
}

#[test]
fn test_unsupported_steps_remain_explicitly_marked() {
    let review = runtime_review_snapshot();
    assert_eq!(
        review.item("live_network_submission").map(|item| item.level),
        Some(ImplementationLevel::NotImplemented)
    );
    assert_eq!(
        review.item("wallet_reward_consumption_ui").map(|item| item.level),
        Some(ImplementationLevel::RepresentedOnly)
    );
}

#[test]
fn test_busy_schedule_quotes_higher_fee_without_amount_dependency() {
    let quote = quote_payment(&WalletQuoteRequest {
        payment_asset: AssetId::Usdc.as_u32(),
        fee_asset: AssetId::Hush.as_u32(),
        amount: 50_000_000,
        fee_schedule_version: PAYMENT_FEE_SCHEDULE_BUSY,
    })
    .expect("busy quote should succeed");
    assert_eq!(quote.fee_amount, 125);
    assert_eq!(quote.payment_debit, 50_000_000);
    assert_eq!(quote.hush_fee_debit, 125);
}

// ---------------------------------------------------------------------------
// Further cases.
// ---------------------------------------------------------------------------

#[test]
fn test_malformed_submission_rejected_for_insufficient_hush_balance() {
    let mut request = sample_hush_gas_request();
    request.hush_balance = 0;
    let err = prepare_wallet_submission(&request).unwrap_err();
    assert!(err.message().contains("HUSH balance"));
    assert_eq!(err.message(), "HUSH balance 0 does not cover required fee 50");
}

#[test]
fn payment_balance_must_cover_the_amount() {
    let mut request = sample_hush_gas_request();
    request.payment_balance = 9_999;
    assert_eq!(
        prepare_wallet_submission(&request).unwrap_err().message(),
        "payment balance 9999 does not cover required debit 10000"
    );
}

#[test]
fn zero_amount_quote_is_refused() {
    let err = quote_payment(&WalletQuoteRequest {
        payment_asset: AssetId::Usdc.as_u32(),
        fee_asset: AssetId::Hush.as_u32(),
        amount: 0,
        fee_schedule_version: PAYMENT_FEE_SCHEDULE_STANDARD,
    })
    .unwrap_err();
    assert_eq!(err.message(), "payment amount must be non-zero");
}

#[test]
fn demo_note_split_keeps_both_notes_non_empty() {
    let notes = split_demo_notes(11_000, 1, 2).unwrap();
    assert_eq!((notes[0].amount, notes[1].amount), (6_600, 4_400));
    let notes = split_demo_notes(2, 1, 2).unwrap();
    assert_eq!((notes[0].amount, notes[1].amount), (1, 1));
    assert_eq!(
        split_demo_notes(1, 1, 2).unwrap_err().message(),
        "demo balance must be at least two base units"
    );
    assert_eq!(split_demo_notes(u64::MAX, 1, 2).unwrap_err().message(), "demo note split overflow");
}

#[test]
fn prepared_large_payment_assembles_a_bundle() {
    let request = WalletSubmissionRequest {
        payment_asset: 1,
        fee_asset: 3,
        amount: 125_000,
        fee_schedule_version: PAYMENT_FEE_SCHEDULE_STANDARD,
        recipient_owner: 50_000,
        payment_balance: 1_500_000,
        hush_balance: 1_000,
        attestation_expiry: None,
    };
    let prepared = prepare_wallet_submission(&request).expect("should prepare");
    assert_eq!(prepared.quote.route, "hush_gas");
    let sidecar = prepared.fee_sidecar_witness.expect("HUSH gas submissions carry a sidecar");
    assert_eq!(sidecar.change_amt, 950);
    prove_payment_bundle(&prepared.tx, &prepared.payment_witness, Some(&sidecar))
        .expect("prepared submission assembles a bundle");
}
