use hush_demo_stark::accounting::{
    AssetFeeBuckets, BlockAccountingBuilder, EpochAccumulator, ProtocolActionTx,
    ValidatorBlockParticipation, ValidatorStakeInfo,
};
use hush_demo_stark::circuit::validate_witness;
use hush_demo_stark::error::HushError;
use hush_demo_stark::hush_gas_runtime::{
    prepare_wallet_submission, settle_wallet_submission, submit_wallet_payment,
    PreparedWalletSubmission, WalletSettlement, WalletSubmissionRequest,
};
use hush_demo_stark::ledger::{build_payment_witness, LedgerState};
use hush_demo_stark::merkle::verify_words_path;
use hush_demo_stark::payment_tx::{
    AssetId, TxKind, PAYMENT_FEE_SCHEDULE_BUSY, PAYMENT_FEE_SCHEDULE_STANDARD,
};
use hush_demo_stark::payment_validation::prove_payment_bundle;
use hush_demo_stark::poseidon2::{derive_owner, note_commitment_u64};

fn sample_hush_gas_request() -> WalletSubmissionRequest {
    WalletSubmissionRequest {
        payment_asset: AssetId::Usdt.as_u32(),
        fee_asset: AssetId::Hush.as_u32(),
        amount: 10_000,
        fee_schedule_version: PAYMENT_FEE_SCHEDULE_STANDARD,
        recipient_owner: 66_666,
        payment_balance: 11_000,
        hush_balance: 100,
        attestation_expiry: None,
    }
}

fn submit(
    request: &WalletSubmissionRequest,
) -> Result<(PreparedWalletSubmission, WalletSettlement), HushError> {
    let submitted = submit_wallet_payment(request)?;
    Ok((submitted.prepared, submitted.settled))
}

#[test]
fn test_claimable_payout_records_are_inspectable() {
    let (_, settled) = submit(&sample_hush_gas_request()).expect("HUSH gas submission should succeed");
    let record = settled
        .settlement
        .payout_record_for_validator(1)
        .expect("validator 1 payout should exist");
    assert!(record.entitlement.hush > 0);
}

#[test]
fn test_mixed_basket_payout_totals_reconcile_at_consumer_interface() {
    let (prepared, settled) =
        submit(&sample_hush_gas_request()).expect("HUSH gas submission should succeed");
    assert_eq!(settled.payout_inspection.fee_pools, settled.payout_inspection.payout_totals);
    assert_eq!(settled.payout_inspection.payout_totals.hush, prepared.quote.hush_fee_debit);
}

#[test]
fn test_demo_large_balance_125k_payment() {
    let request = WalletSubmissionRequest {
        payment_asset: 1,
        fee_asset: 3,
        amount: 125_000,
        fee_schedule_version: PAYMENT_FEE_SCHEDULE_STANDARD,
        recipient_owner: 50_000,
        payment_balance: 1_500_000,
        hush_balance: 1_000,
        attestation_expiry: None,
    };
    let (prepared, _) =
        submit(&request).expect("1.5M balance / 125k payment should prove successfully");
    assert_eq!(prepared.quote.route, "hush_gas");
}

#[test]
fn test_busy_schedule_submission_proves_successfully() {
    let mut request = sample_hush_gas_request();
    request.amount = 5_000_000;
    request.payment_balance = 75_000_000;
    request.hush_balance = 1_000;
    request.fee_schedule_version = PAYMENT_FEE_SCHEDULE_BUSY;
    let (prepared, _) = submit(&request).expect("busy schedule submission should succeed");
    assert_eq!(prepared.tx.descriptor.fee_schedule_version, PAYMENT_FEE_SCHEDULE_BUSY);
    assert_eq!(prepared.quote.fee_amount, 125);
}

#[test]
fn settled_demo_payment_splits_the_fee_by_stake() {
    let (_, settled) = submit(&sample_hush_gas_request()).expect("submission should settle");
    assert_eq!(settled.block_accounting.fee_buckets, AssetFeeBuckets { hush: 50, usdc: 0, usdt: 0 });
    assert_eq!(settled.block_accounting.accepted_transactions.len(), 1);
    assert_eq!(settled.settlement.epoch_index, 1);
    let one = settled.settlement.payout_record_for_validator(1).expect("validator 1 is paid");
    let two = settled.settlement.payout_record_for_validator(2).expect("validator 2 is paid");
    assert_eq!(one.entitlement.hush, 30);
    assert_eq!(two.entitlement.hush, 20);
}

#[test]
fn settling_a_bundle_of_another_transaction_is_refused() {
    let prepared = prepare_wallet_submission(&sample_hush_gas_request()).expect("prepares");
    let mut bundle = prove_payment_bundle(
        &prepared.tx,
        &prepared.payment_witness,
        prepared.fee_sidecar_witness.as_ref(),
    )
    .expect("bundle assembles");
    bundle.payment.public_data.tx_binding_hash[0] ^= 1;
    let err = settle_wallet_submission(&prepared.tx, &bundle).unwrap_err();
    assert!(err.message().starts_with("payment proof tx_binding_hash mismatch"));
}

#[test]
fn three_way_split_hands_out_the_whole_bucket() {
    let mut block = BlockAccountingBuilder::new(7, 1);
    let action = hush_demo_stark::accounting::accepted_protocol_action_record(
        &ProtocolActionTx::build(TxKind::ProtocolAdminAction, 9, 100).expect("builds"),
    )
    .expect("validates");
    block.record_accepted_tx_record(&action).expect("records");
    let block = block.finalize();
    let validators = vec![
        ValidatorStakeInfo { validator_id: 3, payout_key: 30, effective_stake: 1 },
        ValidatorStakeInfo { validator_id: 1, payout_key: 10, effective_stake: 1 },
        ValidatorStakeInfo { validator_id: 2, payout_key: 20, effective_stake: 1 },
    ];
    let participation: Vec<ValidatorBlockParticipation> = validators
        .iter()
        .map(|v| ValidatorBlockParticipation {
            validator_id: v.validator_id,
            signed_block: true,
            liveness_penalty_bps: 0,
            slash_penalty_bps: 0,
        })
        .collect();
    let mut epoch = EpochAccumulator::new(2);
    epoch.apply_block(&block, &validators, &participation).expect("accrues");
    let settlement = epoch.close().expect("closes");
    let totals = settlement.total_payouts().expect("sums");
    assert_eq!(totals, settlement.fee_pools);
    assert_eq!(totals.hush, 100);
    let shares: Vec<u64> = [1u32, 2, 3]
        .iter()
        .map(|id| settlement.payout_record_for_validator(*id).expect("paid").entitlement.hush)
        .collect();
    assert_eq!(shares, vec![34, 33, 33]);
}

fn lifecycle_ledger() -> (LedgerState, usize, usize) {
    let mut ledger = LedgerState::new();
    let owner = derive_owner(12_345);
    let zero = [0u32; 4];
    let note_0 = note_commitment_u64(1, 7_000, owner, 111, zero);
    let note_1 = note_commitment_u64(1, 3_000, owner, 222, zero);
    let idx_0 = ledger.add_note(note_0);
    let idx_1 = ledger.add_note(note_1);
    (ledger, idx_0, idx_1)
}

#[test]
fn ledger_notes_are_found_under_the_note_root() {
    let (ledger, idx_0, idx_1) = lifecycle_ledger();
    assert_eq!((idx_0, idx_1), (0, 1));
    let owner = derive_owner(12_345);
    let note_1 = note_commitment_u64(1, 3_000, owner, 222, [0u32; 4]);
    let path = ledger.note_path(idx_1);
    assert!(verify_words_path(note_1, &path, ledger.note_root_u32()));
    assert!(!verify_words_path(note_1, &ledger.note_path(idx_0), ledger.note_root_u32()));
}

#[test]
fn ledger_rejects_a_second_spend_of_the_same_notes() {
    let (mut ledger, idx_0, idx_1) = lifecycle_ledger();
    let bob = derive_owner(99_999);
    let witness = build_payment_witness(
        &ledger, 1_000, 12_345, 1, idx_0, 7_000, 111, idx_1, 3_000, 222, 8_000, bob, 333, 2_000,
        444,
    );
    let public = validate_witness(&witness).expect("the witness satisfies the payment statement");
    assert_eq!(ledger.spent_count(), 0);
    ledger.apply_payment(&public).expect("first spend is accepted");
    assert_eq!(ledger.spent_count(), 2);
    assert!(ledger.is_spent(&public.null_0));
    let err = ledger.apply_payment(&public).unwrap_err();
    assert_eq!(err, HushError::DoubleSpend(public.null_0));
    assert!(err.message().starts_with("Double-spend: nullifier ["));
    assert!(err.message().ends_with("] already spent"));
    assert_eq!(ledger.spent_count(), 2);
}

#[test]
fn ledger_rejects_a_payment_bound_to_another_root() {
    let (mut ledger, idx_0, idx_1) = lifecycle_ledger();
    let bob = derive_owner(99_999);
    let witness = build_payment_witness(
        &ledger, 1_000, 12_345, 1, idx_0, 7_000, 111, idx_1, 3_000, 222, 8_000, bob, 333, 2_000,
        444,
    );
    let public = validate_witness(&witness).expect("valid");
    ledger.add_note(public.out_cm_0);
    let err = ledger.apply_payment(&public).unwrap_err();
    assert_eq!(err, HushError::NoteRootMismatch);
    assert_eq!(err.message(), "Note root mismatch");
    assert_eq!(ledger.spent_count(), 0);
}

#[test]
fn submission_with_too_small_a_balance_is_refused_before_proving() {
    let mut request = sample_hush_gas_request();
    request.payment_balance = 9_000;
    match submit_wallet_payment(&request) {
        Err(HushError::PaymentBalanceTooLow { balance, debit }) => {
            assert_eq!((balance, debit), (9_000, 10_000));
        }
        other => panic!("expected a balance refusal, got {:?}", other.map(|_| ())),
    }
}
