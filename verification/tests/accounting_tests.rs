use hush_demo_stark::accounting::{
    accepted_payment_record, accepted_protocol_action_record, validate_protocol_action_tx,
    AcceptedTxRecord, AssetFeeBuckets, BlockAccountingBuilder, EpochAccumulator,
    ProtocolActionTx, ValidatorBlockParticipation, ValidatorStakeInfo,
};
use hush_demo_stark::payment_fixtures::{valid_usdc_hush_fee_fixture, valid_usdc_same_asset_fixture};
use hush_demo_stark::payment_tx::{
    validate_tx_kind_fee_asset_policy, AssetId, PaymentTxV1, TxKind, TX_KIND_PAYMENT,
};
use hush_demo_stark::payment_validation::{self, PaymentBundleProof};

fn sample_validators() -> Vec<ValidatorStakeInfo> {
    vec![
        ValidatorStakeInfo { validator_id: 1, payout_key: 101, effective_stake: 100 },
        ValidatorStakeInfo { validator_id: 2, payout_key: 202, effective_stake: 100 },
    ]
}

fn sample_participation_all_present() -> Vec<ValidatorBlockParticipation> {
    vec![
        ValidatorBlockParticipation {
            validator_id: 1,
            signed_block: true,
            liveness_penalty_bps: 0,
            slash_penalty_bps: 0,
        },
        ValidatorBlockParticipation {
            validator_id: 2,
            signed_block: true,
            liveness_penalty_bps: 0,
            slash_penalty_bps: 0,
        },
    ]
}

fn build_mode_a_bundle_record() -> (PaymentTxV1, PaymentBundleProof, AcceptedTxRecord) {
    let fixture = valid_usdc_same_asset_fixture();
    let bundle = payment_validation::prove_payment_bundle(&fixture.tx, &fixture.witness, None)
        .expect("Mode A bundle should prove");
    let record =
        accepted_payment_record(&fixture.tx, &bundle).expect("Mode A bundle should validate");
    (fixture.tx, bundle, record)
}

fn build_mode_b_bundle_record() -> (PaymentTxV1, PaymentBundleProof, AcceptedTxRecord) {
    let fixture = valid_usdc_hush_fee_fixture();
    let bundle = payment_validation::prove_payment_bundle(
        &fixture.tx,
        &fixture.witness,
        fixture.fee_sidecar_witness.as_ref(),
    )
    .expect("Mode B bundle should prove");
    let record =
        accepted_payment_record(&fixture.tx, &bundle).expect("Mode B bundle should validate");
    (fixture.tx, bundle, record)
}

#[test]
fn test_rejected_tx_does_not_affect_fee_buckets() {
    let fixture = valid_usdc_same_asset_fixture();
    let bundle = payment_validation::prove_payment_bundle(&fixture.tx, &fixture.witness, None)
        .expect("Mode A bundle should prove");
    let mut bad_tx = fixture.tx.clone();
    bad_tx.tx_binding_hash[0] = bad_tx.tx_binding_hash[0].wrapping_add(1);

    let mut block = BlockAccountingBuilder::new(11, 1);
    assert!(block.record_payment_bundle(&bad_tx, &bundle).is_err());
    assert_eq!(block.fee_buckets(), AssetFeeBuckets::default());
}

#[test]
fn test_per_block_totals_reconcile() {
    let (_, _, record) = build_mode_a_bundle_record();
    let mut block = BlockAccountingBuilder::new(12, 2);
    block.record_accepted_tx_record(&record).expect("accepted record should count");
    let record = block.finalize();
    record.validate().expect("block accounting should reconcile");
}

#[test]
fn test_non_payment_action_with_non_hush_fee_rejected() {
    let mut action = ProtocolActionTx::build(TxKind::ProtocolAdminAction, 55, 3)
        .expect("protocol admin action should build");
    action.fee_asset = AssetId::Usdc.as_u32();
    assert!(validate_protocol_action_tx(&action).is_err());
}

#[test]
fn test_canonical_transaction_kind_mapping_enforced() {
    let action = ProtocolActionTx::build(TxKind::ProvenanceStateAction, 66, 4)
        .expect("provenance action should build");
    validate_protocol_action_tx(&action).expect("provenance action should accept HUSH");

    assert!(validate_tx_kind_fee_asset_policy(
        TxKind::ProvenanceStateAction.as_u32(),
        None,
        AssetId::Usdt.as_u32(),
    )
    .is_err());
}

#[test]
fn test_accounting_does_not_drift_from_validated_tx_inputs() {
    let (tx, bundle, record) = build_mode_b_bundle_record();
    let mut block = BlockAccountingBuilder::new(50, 1);
    block.record_payment_bundle(&tx, &bundle).expect("validated bundle should count");
    let block = block.finalize();
    assert_eq!(record.fee_asset, tx.descriptor.fee_asset);
    assert_eq!(record.fee_amount, tx.descriptor.fee_amount);
    assert_eq!(block.fee_buckets.hush, u64::from(tx.descriptor.fee_amount));
}

#[test]
fn test_same_tx_cannot_be_double_counted() {
    let (_, _, record) = build_mode_a_bundle_record();
    let mut block = BlockAccountingBuilder::new(60, 1);
    block.record_accepted_tx_record(&record).expect("accepted record should count");
    assert!(block.record_accepted_tx_record(&record).is_err());
}

#[test]
fn test_malformed_accounting_state_transition_rejected() {
    let (_, _, record) = build_mode_a_bundle_record();
    let mut block = BlockAccountingBuilder::new(70, 1);
    block.record_accepted_tx_record(&record).expect("accepted record should count");
    let mut block = block.finalize();
    block.fee_buckets.usdc += 1;

    let validators = sample_validators();
    let participation = sample_participation_all_present();
    let mut epoch = EpochAccumulator::new(6);
    assert!(epoch.apply_block(&block, &validators, &participation).is_err());
}

#[test]
fn test_liveness_and_slash_hooks_reduce_entitlement() {
    let (_, _, mode_b_record) = build_mode_b_bundle_record();

    let mut block = BlockAccountingBuilder::new(80, 1);
    block.record_accepted_tx_record(&mode_b_record).expect("accepted record should count");
    let block = block.finalize();

    let validators = sample_validators();
    let participation = vec![
        ValidatorBlockParticipation {
            validator_id: 1,
            signed_block: true,
            liveness_penalty_bps: 2_500,
            slash_penalty_bps: 0,
        },
        ValidatorBlockParticipation {
            validator_id: 2,
            signed_block: true,
            liveness_penalty_bps: 0,
            slash_penalty_bps: 0,
        },
    ];

    let mut epoch = EpochAccumulator::new(7);
    epoch.apply_block(&block, &validators, &participation).expect("block should accrue");
    let settlement = epoch.close().expect("epoch should close");
    let validator_one =
        settlement.validator_entitlements.get(&1).expect("validator 1 should accrue");
    let validator_two =
        settlement.validator_entitlements.get(&2).expect("validator 2 should accrue");

    assert!(validator_two.entitlement.hush > validator_one.entitlement.hush);
    assert_eq!(validator_one.max_liveness_penalty_bps, 2_500);
}

// ---------------------------------------------------------------------------
// The same flows with the amounts of the current fee schedule (50 base units
// per payment on the standard schedule).
// ---------------------------------------------------------------------------

#[test]
fn test_block_fee_bucket_accumulation_by_asset() {
    let (mode_a_tx, mode_a_bundle, _) = build_mode_a_bundle_record();
    let (mode_b_tx, mode_b_bundle, _) = build_mode_b_bundle_record();
    let action = ProtocolActionTx::build(TxKind::ValidatorAction, 7, 9)
        .expect("validator action should build");

    let mut block = BlockAccountingBuilder::new(10, 99);
    block.record_payment_bundle(&mode_a_tx, &mode_a_bundle).expect("Mode A payment should count");
    block.record_payment_bundle(&mode_b_tx, &mode_b_bundle).expect("Mode B payment should count");
    block.record_protocol_action(&action).expect("validator action should count");
    let record = block.finalize();
    record.validate().expect("block accounting should reconcile");

    assert_eq!(record.fee_buckets.usdc, 50);
    assert_eq!(record.fee_buckets.hush, 59);
    assert_eq!(record.fee_buckets.usdt, 0);
    assert_eq!(record.tx_counts_by_asset.usdc, 1);
    assert_eq!(record.tx_counts_by_asset.hush, 2);
    assert_eq!(record.tx_counts_by_kind.get(&TX_KIND_PAYMENT), Some(&2));
    assert_eq!(record.tx_counts_by_kind.get(&TxKind::ValidatorAction.as_u32()), Some(&1));
}

#[test]
fn test_epoch_fee_pool_accumulation_by_asset() {
    let (_, _, mode_a_record) = build_mode_a_bundle_record();
    let (_, _, mode_b_record) = build_mode_b_bundle_record();

    let mut block_a = BlockAccountingBuilder::new(20, 1);
    block_a.record_accepted_tx_record(&mode_a_record).expect("accepted record should count");
    let block_a = block_a.finalize();
    let mut block_b = BlockAccountingBuilder::new(21, 1);
    block_b.record_accepted_tx_record(&mode_b_record).expect("accepted record should count");
    let block_b = block_b.finalize();

    let validators = sample_validators();
    let participation = sample_participation_all_present();
    let mut epoch = EpochAccumulator::new(3);
    epoch.apply_block(&block_a, &validators, &participation).expect("first block should accrue");
    epoch.apply_block(&block_b, &validators, &participation).expect("second block should accrue");
    assert_eq!(epoch.fee_pools(), AssetFeeBuckets { hush: 50, usdc: 50, usdt: 0 });

    // The same block cannot be accrued twice.
    let err = epoch.apply_block(&block_b, &validators, &participation).unwrap_err();
    assert_eq!(err.message(), "block height 21 already accrued in epoch 3");
}

#[test]
fn test_validator_participation_affects_entitlement() {
    let (_, _, mode_a_record) = build_mode_a_bundle_record();
    let (_, _, mode_b_record) = build_mode_b_bundle_record();

    let mut block_a = BlockAccountingBuilder::new(30, 1);
    block_a.record_accepted_tx_record(&mode_a_record).expect("accepted record should count");
    let block_a = block_a.finalize();
    let mut block_b = BlockAccountingBuilder::new(31, 1);
    block_b.record_accepted_tx_record(&mode_b_record).expect("accepted record should count");
    let block_b = block_b.finalize();

    let validators = sample_validators();
    let mut epoch = EpochAccumulator::new(4);
    epoch
        .apply_block(&block_a, &validators, &sample_participation_all_present())
        .expect("first block should accrue");
    epoch
        .apply_block(
            &block_b,
            &validators,
            &[
                ValidatorBlockParticipation {
                    validator_id: 1,
                    signed_block: true,
                    liveness_penalty_bps: 0,
                    slash_penalty_bps: 0,
                },
                ValidatorBlockParticipation {
                    validator_id: 2,
                    signed_block: false,
                    liveness_penalty_bps: 0,
                    slash_penalty_bps: 0,
                },
            ],
        )
        .expect("second block should accrue");
    let settlement = epoch.close().expect("epoch should close");
    let one = settlement.validator_entitlements.get(&1).expect("validator 1 should accrue");
    let two = settlement.validator_entitlements.get(&2).expect("validator 2 should accrue");
    assert_eq!(one.entitlement.usdc, 25);
    assert_eq!(two.entitlement.usdc, 25);
    assert_eq!(one.entitlement.hush, 50);
    assert_eq!(two.entitlement.hush, 0);
    assert_eq!(one.present_blocks, 2);
    assert_eq!(two.missed_blocks, 1);
}

#[test]
fn test_mixed_basket_payout_reconciliation() {
    let (_, _, mode_a_record) = build_mode_a_bundle_record();
    let (_, _, mode_b_record) = build_mode_b_bundle_record();
    let action = accepted_protocol_action_record(
        &ProtocolActionTx::build(TxKind::IssuerAction, 44, 7).expect("issuer action should build"),
    )
    .expect("issuer action should validate");

    let mut block = BlockAccountingBuilder::new(40, 1);
    block.record_accepted_tx_record(&mode_a_record).expect("accepted record should count");
    block.record_accepted_tx_record(&mode_b_record).expect("accepted record should count");
    block.record_accepted_tx_record(&action).expect("accepted record should count");
    let block = block.finalize();

    let validators = sample_validators();
    let mut epoch = EpochAccumulator::new(5);
    epoch
        .apply_block(&block, &validators, &sample_participation_all_present())
        .expect("block should accrue");
    let settlement = epoch.close().expect("epoch should close");
    let payout_totals = settlement.total_payouts().expect("payouts should sum");

    assert_eq!(settlement.fee_pools, payout_totals);
    assert_eq!(payout_totals.usdc, 50);
    assert_eq!(payout_totals.hush, 57);
    assert_eq!(payout_totals.usdt, 0);
    assert_eq!(settlement.payout_records.len(), 2);
    // 57 HUSH over two equal weights: 28 each, the leftover unit to the
    // smaller id.
    let one = settlement.payout_record_for_validator(1).expect("validator 1 is paid");
    let two = settlement.payout_record_for_validator(2).expect("validator 2 is paid");
    assert_eq!(one.entitlement.hush, 29);
    assert_eq!(two.entitlement.hush, 28);
    assert!(settlement.payout_record_for_validator(3).is_none());
}

#[test]
fn unequal_stakes_share_by_largest_remainder() {
    let record = AcceptedTxRecord {
        tx_id: 9,
        tx_kind: 2,
        fee_asset: AssetId::Hush.as_u32(),
        fee_amount: 10,
        fee_schedule_version: 1,
    };
    let mut block = BlockAccountingBuilder::new(1, 1);
    block.record_accepted_tx_record(&record).unwrap();
    let block = block.finalize();
    let validators = vec![
        ValidatorStakeInfo { validator_id: 5, payout_key: 1, effective_stake: 1 },
        ValidatorStakeInfo { validator_id: 3, payout_key: 2, effective_stake: 1 },
        ValidatorStakeInfo { validator_id: 4, payout_key: 3, effective_stake: 1 },
    ];
    let parts: Vec<ValidatorBlockParticipation> = [5u32, 3, 4]
        .iter()
        .map(|&id| ValidatorBlockParticipation {
            validator_id: id,
            signed_block: true,
            liveness_penalty_bps: 0,
            slash_penalty_bps: 0,
        })
        .collect();
    let mut epoch = EpochAccumulator::new(1);
    epoch.apply_block(&block, &validators, &parts).unwrap();
    let settlement = epoch.close().unwrap();
    // 10 over three equal weights: 3 each, the leftover unit to id 3.
    assert_eq!(settlement.validator_entitlements.get(&3).unwrap().entitlement.hush, 4);
    assert_eq!(settlement.validator_entitlements.get(&4).unwrap().entitlement.hush, 3);
    assert_eq!(settlement.validator_entitlements.get(&5).unwrap().entitlement.hush, 3);
    let ids: Vec<u32> = settlement.payout_records.iter().map(|r| r.validator_id).collect();
    assert_eq!(ids, vec![3, 4, 5]);
}

#[test]
fn malformed_validator_inputs_are_refused() {
    let (_, _, record) = build_mode_a_bundle_record();
    let mut block = BlockAccountingBuilder::new(90, 1);
    block.record_accepted_tx_record(&record).unwrap();
    let block = block.finalize();
    let mut duplicate = sample_validators();
    duplicate[1].validator_id = 1;
    let mut epoch = EpochAccumulator::new(8);
    assert_eq!(
        epoch.apply_block(&block, &duplicate, &[]).unwrap_err().message(),
        "duplicate validator_id 1 in validator set"
    );
    let mut epoch = EpochAccumulator::new(8);
    let unknown = [ValidatorBlockParticipation {
        validator_id: 9,
        signed_block: true,
        liveness_penalty_bps: 0,
        slash_penalty_bps: 0,
    }];
    assert_eq!(
        epoch.apply_block(&block, &sample_validators(), &unknown).unwrap_err().message(),
        "participation entry references unknown validator 9"
    );
    let mut epoch = EpochAccumulator::new(8);
    assert_eq!(
        epoch.apply_block(&block, &sample_validators(), &[]).unwrap_err().message(),
        "cannot accrue non-zero fee buckets without active validators"
    );
}

#[test]
fn protocol_actions_need_a_fee_and_a_non_payment_kind() {
    assert_eq!(
        ProtocolActionTx::build(TxKind::Payment, 1, 1).unwrap_err().message(),
        "ProtocolActionTx cannot use payment tx_kind"
    );
    let zero = ProtocolActionTx::build(TxKind::IssuerAction, 1, 0).unwrap();
    assert_eq!(
        validate_protocol_action_tx(&zero).unwrap_err().message(),
        "protocol action fee amount must be non-zero"
    );
    let mut payment_kind = ProtocolActionTx::build(TxKind::IssuerAction, 1, 1).unwrap();
    payment_kind.tx_kind = TX_KIND_PAYMENT;
    assert_eq!(
        validate_protocol_action_tx(&payment_kind).unwrap_err().message(),
        "payment tx_kind must use PaymentTxV1"
    );
}

#[test]
fn bucket_overflow_leaves_buckets_unchanged() {
    let mut buckets = AssetFeeBuckets { hush: u64::MAX, usdc: 1, usdt: 2 };
    let err = buckets.increment(AssetId::Hush, 1).unwrap_err();
    assert_eq!(err.message(), "HUSH fee bucket overflow");
    assert_eq!(buckets, AssetFeeBuckets { hush: u64::MAX, usdc: 1, usdt: 2 });
    let mut pools = AssetFeeBuckets { hush: 1, usdc: u64::MAX, usdt: 0 };
    let err = pools.add_assign(&AssetFeeBuckets { hush: 2, usdc: 1, usdt: 3 }).unwrap_err();
    assert_eq!(err.message(), "USDC epoch fee pool overflow");
    assert_eq!(pools, AssetFeeBuckets { hush: 3, usdc: u64::MAX, usdt: 0 });
}

#[test]
fn validators_outside_a_block_set_keep_their_entitlements() {
    let (_, _, mode_a_record) = build_mode_a_bundle_record();
    let (_, _, mode_b_record) = build_mode_b_bundle_record();

    let mut block_a = BlockAccountingBuilder::new(40, 1);
    block_a.record_accepted_tx_record(&mode_a_record).expect("accepted record should count");
    let block_a = block_a.finalize();
    let mut block_b = BlockAccountingBuilder::new(41, 1);
    block_b.record_accepted_tx_record(&mode_b_record).expect("accepted record should count");
    let block_b = block_b.finalize();

    let mut epoch = EpochAccumulator::new(5);
    epoch
        .apply_block(&block_a, &sample_validators(), &sample_participation_all_present())
        .expect("first block should accrue");
    epoch
        .apply_block(
            &block_b,
            &[ValidatorStakeInfo { validator_id: 1, payout_key: 101, effective_stake: 100 }],
            &[ValidatorBlockParticipation {
                validator_id: 1,
                signed_block: true,
                liveness_penalty_bps: 0,
                slash_penalty_bps: 0,
            }],
        )
        .expect("second block should accrue");
    let settlement = epoch.close().expect("epoch should close");
    assert_eq!(settlement.fee_pools, AssetFeeBuckets { hush: 50, usdc: 50, usdt: 0 });
    let one = settlement.validator_entitlements.get(&1).expect("validator 1 should accrue");
    let two = settlement.validator_entitlements.get(&2).expect("validator 2 should accrue");
    assert_eq!(one.entitlement, AssetFeeBuckets { hush: 50, usdc: 25, usdt: 0 });
    assert_eq!(two.entitlement, AssetFeeBuckets { hush: 0, usdc: 25, usdt: 0 });
    assert_eq!((one.present_blocks, one.missed_blocks), (2, 0));
    assert_eq!((two.present_blocks, two.missed_blocks), (1, 0));
}

#[test]
fn a_large_stake_that_did_not_sign_weighs_nothing() {
    let (_, _, mode_a_record) = build_mode_a_bundle_record();
    let mut block = BlockAccountingBuilder::new(50, 1);
    block.record_accepted_tx_record(&mode_a_record).expect("accepted record should count");
    let block = block.finalize();

    let mut epoch = EpochAccumulator::new(6);
    epoch
        .apply_block(
            &block,
            &[
                ValidatorStakeInfo { validator_id: 1, payout_key: 101, effective_stake: 100 },
                ValidatorStakeInfo { validator_id: 2, payout_key: 202, effective_stake: u64::MAX },
            ],
            &[
                ValidatorBlockParticipation {
                    validator_id: 1,
                    signed_block: true,
                    liveness_penalty_bps: 0,
                    slash_penalty_bps: 0,
                },
                ValidatorBlockParticipation {
                    validator_id: 2,
                    signed_block: false,
                    liveness_penalty_bps: 0,
                    slash_penalty_bps: 0,
                },
            ],
        )
        .expect("block should accrue");
    let settlement = epoch.close().expect("epoch should close");
    let one = settlement.validator_entitlements.get(&1).expect("validator 1 should accrue");
    let two = settlement.validator_entitlements.get(&2).expect("validator 2 should accrue");
    assert_eq!(one.entitlement.usdc, 50);
    assert_eq!(two.entitlement.usdc, 0);
    assert_eq!(two.missed_blocks, 1);
}

#[test]
fn a_refused_block_leaves_the_epoch_reconciled() {
    let (_, _, mode_a_record) = build_mode_a_bundle_record();
    let mut block = BlockAccountingBuilder::new(60, 1);
    block.record_accepted_tx_record(&mode_a_record).expect("accepted record should count");
    let block = block.finalize();

    let mut epoch = EpochAccumulator::new(7);
    epoch
        .apply_block(&block, &sample_validators(), &sample_participation_all_present())
        .expect("block should accrue");
    assert!(epoch
        .apply_block(&block, &sample_validators(), &sample_participation_all_present())
        .is_err());
    assert_eq!(epoch.fee_pools(), AssetFeeBuckets { hush: 0, usdc: 50, usdt: 0 });
    let settlement = epoch.close().expect("epoch should still close");
    assert_eq!(settlement.fee_pools, AssetFeeBuckets { hush: 0, usdc: 50, usdt: 0 });
}
