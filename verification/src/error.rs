//! The library's error type: one variant per way an operation can fail,
//! carrying the values the failure is about, and its rendering as text.

use vstd::prelude::*;
use vstd::string::*;

verus! {

#[derive(Clone, Copy, Debug, PartialEq, Eq)]
pub enum HushError {
    UnsupportedTxKind(u32),
    UnsupportedAssetId(u32),
    CrossStablecoinFeeMismatch { payment_asset: u32, fee_asset: u32 },
    CrossAssetFeeMismatch { payment_asset: u32, fee_asset: u32 },
    PaymentKindRequiresAsset,
    HushOnlyFeeAsset { tx_kind: u32, fee_asset: u32 },
    UnsupportedFeeScheduleForRoute(u32),
    InputAmountOverflow,
    OutputAmountOverflow,
    InsufficientInputValue { total_in: u64, recipient: u64, payment_fee: u64 },
    UnsupportedTxVersion(u32),
    UnsupportedFeeClass(u32),
    UnsupportedFeeScheduleVersion(u32),
    InvalidReplayDomain(u32),
    FeeAmountMismatch { got: u64, expected: u64 },
    UnsupportedFeeAuxRoute(u32),
    MissingHushSidecarAttachment,
    SidecarAttachmentDisallowed,
    InsufficientInputAfterFee,
    SenderChangeMismatch { got: u64, expected: u64 },
    TxBindingHashMismatch { got: [u32; 4], expected: [u32; 4] },
    SenderBindingTagMismatch { got: [u32; 4], expected: [u32; 4] },
    HushSidecarRequiresModeB,
    HushSidecarInputOverflow,
    InsufficientHushFeeCoverage,
    InvalidHushChange { got: u64, expected: u64 },
    AmountOutOfRange(u64),
    NullifiersNotDistinct,
    AttestationRootsDiffer,
    PaymentInputOverflow,
    PaymentOutputOverflow,
    BalanceConservation { inputs: u64, outputs: u64 },
    NoteMerklePathInvalid(u32),
    HushSidecarNullifiersNotDistinct,
    HushFeeInputOverflow,
    HushFeeOutputOverflow,
    HushFeeBalanceConservation { inputs: u64, outputs: u64 },
    HushSidecarNotePathInvalid(u32),
    InvalidTimeWindow,
    TimeWindowTotalOverflow,
    ClaimedTotalMismatch { claimed: u64, actual: u64 },
    AttestationRootMismatch,
    AttestationExpired,
    AttestationCommitmentMismatch,
    IssuerNotAuthorized,
    PaymentProofVerificationFailed,
    HushFeeProofVerificationFailed,
    SidecarWitnessDisallowed,
    MissingSidecarWitness,
    PaymentProofTxBindingHashMismatch { proof: [u32; 4], tx: [u32; 4] },
    PaymentProofSenderTagMismatch { proof: [u32; 4], tx: [u32; 4] },
    SidecarProofDisallowed,
    MissingSidecarProof,
    SidecarTxBindingHashMismatch { proof: [u32; 4], tx: [u32; 4] },
    SidecarSenderTagMismatch { proof: [u32; 4], tx: [u32; 4] },
    SidecarFeeAmountMismatch { proof: u64, tx: u64 },
    ProofTxBindingHashesDiffer,
    ProofSenderTagsDiffer,
    FeeBucketOverflow(u32),
    EpochFeePoolOverflow(u32),
    TxCountOverflow(u32),
    KindCountOverflow(u32),
    ProtocolActionUsesPaymentKind,
    PaymentKindRequiresPaymentTx,
    ZeroProtocolActionFee,
    DuplicateTxInRecord(u64),
    FeeBucketsDoNotReconcile,
    AssetCountsDoNotReconcile,
    KindCountsDoNotReconcile,
    TxAlreadyCountedInBlock(u64),
    BlockAlreadyAccrued { block_height: u64, epoch_index: u64 },
    TxAlreadyAccruedInEpoch(u64),
    DuplicateValidator(u32),
    UnknownParticipant(u32),
    LivenessPenaltyTooHigh(u32),
    SlashPenaltyTooHigh(u32),
    DuplicateParticipation(u32),
    NoActiveValidators,
    ZeroTotalValidatorWeight,
    ValidatorWeightOverflow,
    ZeroTotalWeight,
    EntitlementOverflow(u32),
    BlockCountOverflow(u32),
    PayoutsDoNotReconcile,
    ZeroPaymentAmount,
    UnsupportedPaymentFeeRoute { payment_asset: u32, fee_asset: u32 },
    PaymentBalanceTooLow { balance: u64, debit: u64 },
    HushBalanceTooLow { balance: u64, fee: u64 },
    DemoBalanceTooSmall,
    DemoNoteSplitOverflow,
    InvalidHushChangeAfterFee,
    InvalidBase64,
    NoteRootMismatch,
    DoubleSpend([u32; 4]),
}

/// The decimal digit `d` as text.
pub open spec fn spec_digit(d: nat) -> Seq<char> {
    if d == 0 { "0"@ } else if d == 1 { "1"@ } else if d == 2 { "2"@ } else if d == 3 { "3"@ }
    else if d == 4 { "4"@ } else if d == 5 { "5"@ } else if d == 6 { "6"@ } else if d == 7 { "7"@ }
    else if d == 8 { "8"@ } else { "9"@ }
}

/// `n` in decimal, without leading zeros.
pub open spec fn spec_decimal(n: nat) -> Seq<char>
    decreases n,
{
    if n < 10 {
        spec_digit(n)
    } else {
        spec_decimal(n / 10) + spec_digit(n % 10)
    }
}

/// A four-entry hash as text: `[a, b, c, d]` in decimal.
pub open spec fn spec_hash_text(h: [u32; 4]) -> Seq<char> {
    "["@ + spec_decimal(h[0] as nat) + ", "@ + spec_decimal(h[1] as nat) + ", "@ + spec_decimal(
        h[2] as nat,
    ) + ", "@ + spec_decimal(h[3] as nat) + "]"@
}

fn push_digit(s: &mut String, d: u64)
    requires
        d < 10,
    ensures
        final(s)@ == old(s)@ + spec_digit(d as nat),
{
    match d {
        0 => s.append("0"),
        1 => s.append("1"),
        2 => s.append("2"),
        3 => s.append("3"),
        4 => s.append("4"),
        5 => s.append("5"),
        6 => s.append("6"),
        7 => s.append("7"),
        8 => s.append("8"),
        _ => s.append("9"),
    }
}

fn push_decimal(s: &mut String, n: u64)
    ensures
        final(s)@ == old(s)@ + spec_decimal(n as nat),
    decreases n,
{
    if n >= 10 {
        push_decimal(s, n / 10);
    }
    push_digit(s, n % 10);
    proof {
        assert(old(s)@ + spec_decimal(n as nat) =~= if n >= 10 {
            old(s)@ + spec_decimal((n / 10) as nat) + spec_digit((n % 10) as nat)
        } else {
            old(s)@ + spec_digit((n % 10) as nat)
        });
    }
}

fn push_hash(s: &mut String, h: [u32; 4])
    ensures
        final(s)@ == old(s)@ + spec_hash_text(h),
{
    s.append("[");
    push_decimal(s, h[0] as u64);
    s.append(", ");
    push_decimal(s, h[1] as u64);
    s.append(", ");
    push_decimal(s, h[2] as u64);
    s.append(", ");
    push_decimal(s, h[3] as u64);
    s.append("]");
    proof {
        assert(final(s)@ =~= old(s)@ + spec_hash_text(h));
    }
}

/// The label of a fee asset (its number when it names none).
pub open spec fn spec_asset_label(asset: u32) -> Seq<char> {
    if asset == 1 {
        "USDC"@
    } else if asset == 2 {
        "USDT"@
    } else if asset == 3 {
        "HUSH"@
    } else {
        spec_decimal(asset as nat)
    }
}

fn push_asset_label(s: &mut String, asset: u32)
    ensures
        final(s)@ == old(s)@ + spec_asset_label(asset),
{
    if asset == 1 {
        s.append("USDC");
    } else if asset == 2 {
        s.append("USDT");
    } else if asset == 3 {
        s.append("HUSH");
    } else {
        push_decimal(s, asset as u64);
    }
}

/// The text of an error.
pub open spec fn spec_message(e: HushError) -> Seq<char> {
    match e {
        HushError::UnsupportedTxKind(x0) => "unsupported tx_kind "@ + spec_decimal(x0 as nat),
        HushError::UnsupportedAssetId(x0) => "unsupported asset id "@ + spec_decimal(x0 as nat),
        HushError::CrossStablecoinFeeMismatch { payment_asset, fee_asset } => "cross-stablecoin fee mismatch is invalid: payment asset "@ + spec_decimal(payment_asset as nat) + " with fee asset "@ + spec_decimal(fee_asset as nat),
        HushError::CrossAssetFeeMismatch { payment_asset, fee_asset } => "cross-asset fee mismatch is invalid: payment asset "@ + spec_decimal(payment_asset as nat) + " with fee asset "@ + spec_decimal(fee_asset as nat),
        HushError::PaymentKindRequiresAsset => "payment tx_kind requires payment_asset"@,
        HushError::HushOnlyFeeAsset { tx_kind, fee_asset } => "tx_kind "@ + spec_decimal(tx_kind as nat) + " is HUSH-only and rejects fee asset "@ + spec_decimal(fee_asset as nat),
        HushError::UnsupportedFeeScheduleForRoute(x0) => "unsupported payment fee schedule version "@ + spec_decimal(x0 as nat),
        HushError::InputAmountOverflow => "input amount overflow"@,
        HushError::OutputAmountOverflow => "output amount overflow"@,
        HushError::InsufficientInputValue { total_in, recipient, payment_fee } => "insufficient input value: total inputs "@ + spec_decimal(total_in as nat) + " < recipient "@ + spec_decimal(recipient as nat) + " + payment fee "@ + spec_decimal(payment_fee as nat),
        HushError::UnsupportedTxVersion(x0) => "unsupported payment tx version "@ + spec_decimal(x0 as nat),
        HushError::UnsupportedFeeClass(x0) => "unsupported fee_class "@ + spec_decimal(x0 as nat),
        HushError::UnsupportedFeeScheduleVersion(x0) => "unsupported fee_schedule_version "@ + spec_decimal(x0 as nat),
        HushError::InvalidReplayDomain(x0) => "invalid replay_domain "@ + spec_decimal(x0 as nat),
        HushError::FeeAmountMismatch { got, expected } => "fee amount mismatch: got "@ + spec_decimal(got as nat) + ", expected "@ + spec_decimal(expected as nat),
        HushError::UnsupportedFeeAuxRoute(x0) => "unsupported fee aux proof route "@ + spec_decimal(x0 as nat),
        HushError::MissingHushSidecarAttachment => "missing HUSH sidecar attachment for fee_asset = HUSH"@,
        HushError::SidecarAttachmentDisallowed => "fee sidecar attachment is disallowed for same-asset Mode A"@,
        HushError::InsufficientInputAfterFee => "insufficient input value after fee deduction"@,
        HushError::SenderChangeMismatch { got, expected } => "sender change mismatch: got "@ + spec_decimal(got as nat) + ", expected "@ + spec_decimal(expected as nat),
        HushError::TxBindingHashMismatch { got, expected } => "tx_binding_hash mismatch: got "@ + spec_hash_text(got) + ", expected "@ + spec_hash_text(expected),
        HushError::SenderBindingTagMismatch { got, expected } => "sender_binding_tag mismatch: got "@ + spec_hash_text(got) + ", expected "@ + spec_hash_text(expected),
        HushError::HushSidecarRequiresModeB => "HUSH fee sidecar witness is only valid for Mode B transactions"@,
        HushError::HushSidecarInputOverflow => "HUSH sidecar input amount overflow"@,
        HushError::InsufficientHushFeeCoverage => "insufficient HUSH fee coverage"@,
        HushError::InvalidHushChange { got, expected } => "invalid HUSH change: got "@ + spec_decimal(got as nat) + ", expected "@ + spec_decimal(expected as nat),
        HushError::AmountOutOfRange(x0) => "amount "@ + spec_decimal(x0 as nat) + " exceeds the four-limb range (2^60 - 1)"@,
        HushError::NullifiersNotDistinct => "Nullifiers must differ"@,
        HushError::AttestationRootsDiffer => "Input notes must carry the same attestation root"@,
        HushError::PaymentInputOverflow => "payment input amount overflow"@,
        HushError::PaymentOutputOverflow => "payment output amount overflow"@,
        HushError::BalanceConservation { inputs, outputs } => "Balance conservation failed: inputs "@ + spec_decimal(inputs as nat) + " != recipient+change+fee "@ + spec_decimal(outputs as nat),
        HushError::NoteMerklePathInvalid(x0) => "Note Merkle path for input "@ + spec_decimal(x0 as nat) + " is invalid"@,
        HushError::HushSidecarNullifiersNotDistinct => "HUSH sidecar nullifiers must differ"@,
        HushError::HushFeeInputOverflow => "HUSH fee input amount overflow"@,
        HushError::HushFeeOutputOverflow => "HUSH fee output amount overflow"@,
        HushError::HushFeeBalanceConservation { inputs, outputs } => "HUSH fee balance conservation failed: inputs "@ + spec_decimal(inputs as nat) + " != change+fee "@ + spec_decimal(outputs as nat),
        HushError::HushSidecarNotePathInvalid(x0) => "HUSH sidecar note Merkle path for input "@ + spec_decimal(x0 as nat) + " is invalid"@,
        HushError::InvalidTimeWindow => "Invalid window: start must be before end"@,
        HushError::TimeWindowTotalOverflow => "time-window total overflow: sum of in-window amounts exceeds u64"@,
        HushError::ClaimedTotalMismatch { claimed, actual } => "Claimed total "@ + spec_decimal(claimed as nat) + " does not match actual total "@ + spec_decimal(actual as nat) + " for the window"@,
        HushError::AttestationRootMismatch => "Attestation root mismatch"@,
        HushError::AttestationExpired => "Attestation expired"@,
        HushError::AttestationCommitmentMismatch => "Attestation commitment does not match expected value"@,
        HushError::IssuerNotAuthorized => "Issuer is not in the authorized issuer set"@,
        HushError::PaymentProofVerificationFailed => "Verification failed"@,
        HushError::HushFeeProofVerificationFailed => "HUSH fee verification failed"@,
        HushError::SidecarWitnessDisallowed => "sidecar witness is disallowed for same-asset Mode A"@,
        HushError::MissingSidecarWitness => "missing HUSH sidecar witness for Mode B"@,
        HushError::PaymentProofTxBindingHashMismatch { proof, tx } => "payment proof tx_binding_hash mismatch: proof "@ + spec_hash_text(proof) + ", tx "@ + spec_hash_text(tx),
        HushError::PaymentProofSenderTagMismatch { proof, tx } => "payment proof sender_binding_tag mismatch: proof "@ + spec_hash_text(proof) + ", tx "@ + spec_hash_text(tx),
        HushError::SidecarProofDisallowed => "sidecar proof is disallowed for same-asset Mode A"@,
        HushError::MissingSidecarProof => "missing HUSH sidecar proof for Mode B"@,
        HushError::SidecarTxBindingHashMismatch { proof, tx } => "sidecar tx_binding_hash mismatch: proof "@ + spec_hash_text(proof) + ", tx "@ + spec_hash_text(tx),
        HushError::SidecarSenderTagMismatch { proof, tx } => "sidecar sender_binding_tag mismatch: proof "@ + spec_hash_text(proof) + ", tx "@ + spec_hash_text(tx),
        HushError::SidecarFeeAmountMismatch { proof, tx } => "sidecar fee amount mismatch: proof "@ + spec_decimal(proof as nat) + ", tx "@ + spec_decimal(tx as nat),
        HushError::ProofTxBindingHashesDiffer => "payment proof and sidecar proof tx_binding_hash do not match"@,
        HushError::ProofSenderTagsDiffer => "payment proof and sidecar proof sender_binding_tag do not match"@,
        HushError::FeeBucketOverflow(x0) => spec_asset_label(x0) + " fee bucket overflow"@,
        HushError::EpochFeePoolOverflow(x0) => spec_asset_label(x0) + " epoch fee pool overflow"@,
        HushError::TxCountOverflow(x0) => spec_asset_label(x0) + " tx count overflow"@,
        HushError::KindCountOverflow(x0) => "tx count overflow for tx_kind "@ + spec_decimal(x0 as nat),
        HushError::ProtocolActionUsesPaymentKind => "ProtocolActionTx cannot use payment tx_kind"@,
        HushError::PaymentKindRequiresPaymentTx => "payment tx_kind must use PaymentTxV1"@,
        HushError::ZeroProtocolActionFee => "protocol action fee amount must be non-zero"@,
        HushError::DuplicateTxInRecord(x0) => "duplicate tx_id "@ + spec_decimal(x0 as nat) + " in block accounting record"@,
        HushError::FeeBucketsDoNotReconcile => "block fee buckets do not reconcile with accepted transactions"@,
        HushError::AssetCountsDoNotReconcile => "block tx counts by asset do not reconcile"@,
        HushError::KindCountsDoNotReconcile => "block tx counts by kind do not reconcile"@,
        HushError::TxAlreadyCountedInBlock(x0) => "tx_id "@ + spec_decimal(x0 as nat) + " already counted in this block"@,
        HushError::BlockAlreadyAccrued { block_height, epoch_index } => "block height "@ + spec_decimal(block_height as nat) + " already accrued in epoch "@ + spec_decimal(epoch_index as nat),
        HushError::TxAlreadyAccruedInEpoch(x0) => "tx_id "@ + spec_decimal(x0 as nat) + " already accrued in this epoch"@,
        HushError::DuplicateValidator(x0) => "duplicate validator_id "@ + spec_decimal(x0 as nat) + " in validator set"@,
        HushError::UnknownParticipant(x0) => "participation entry references unknown validator "@ + spec_decimal(x0 as nat),
        HushError::LivenessPenaltyTooHigh(x0) => "validator "@ + spec_decimal(x0 as nat) + " liveness penalty exceeds 10000 bps"@,
        HushError::SlashPenaltyTooHigh(x0) => "validator "@ + spec_decimal(x0 as nat) + " slash penalty exceeds 10000 bps"@,
        HushError::DuplicateParticipation(x0) => "duplicate participation entry for validator "@ + spec_decimal(x0 as nat),
        HushError::NoActiveValidators => "cannot accrue non-zero fee buckets without active validators"@,
        HushError::ZeroTotalValidatorWeight => "cannot allocate non-zero asset bucket with zero total validator weight"@,
        HushError::ValidatorWeightOverflow => "validator weight overflow"@,
        HushError::ZeroTotalWeight => "cannot allocate non-zero asset bucket with zero total validator weight"@,
        HushError::EntitlementOverflow(x0) => "validator "@ + spec_asset_label(x0) + " entitlement overflow"@,
        HushError::BlockCountOverflow(x0) => "block count overflow for validator "@ + spec_decimal(x0 as nat),
        HushError::PayoutsDoNotReconcile => "payout totals do not reconcile with epoch fee pools"@,
        HushError::ZeroPaymentAmount => "payment amount must be non-zero"@,
        HushError::UnsupportedPaymentFeeRoute { payment_asset, fee_asset } => "unsupported payment fee route: payment asset "@ + spec_decimal(payment_asset as nat) + " with fee asset "@ + spec_decimal(fee_asset as nat),
        HushError::PaymentBalanceTooLow { balance, debit } => "payment balance "@ + spec_decimal(balance as nat) + " does not cover required debit "@ + spec_decimal(debit as nat),
        HushError::HushBalanceTooLow { balance, fee } => "HUSH balance "@ + spec_decimal(balance as nat) + " does not cover required fee "@ + spec_decimal(fee as nat),
        HushError::DemoBalanceTooSmall => "demo balance must be at least two base units"@,
        HushError::DemoNoteSplitOverflow => "demo note split overflow"@,
        HushError::InvalidHushChangeAfterFee => "invalid HUSH change after fee deduction"@,
        HushError::InvalidBase64 => "invalid base64"@,
        HushError::NoteRootMismatch => "Note root mismatch"@,
        HushError::DoubleSpend(x0) => "Double-spend: nullifier "@ + spec_hash_text(x0) + " already spent"@,
    }
}

impl HushError {
    /// This error as text.
    pub fn message(&self) -> (r: String)
        ensures
            r@ == spec_message(*self),
    {
        match *self {
            HushError::UnsupportedTxKind(x0) => {
                let mut s = String::from_str("unsupported tx_kind ");
                push_decimal(&mut s, x0 as u64);
                s
            },
            HushError::UnsupportedAssetId(x0) => {
                let mut s = String::from_str("unsupported asset id ");
                push_decimal(&mut s, x0 as u64);
                s
            },
            HushError::CrossStablecoinFeeMismatch { payment_asset, fee_asset } => {
                let mut s = String::from_str("cross-stablecoin fee mismatch is invalid: payment asset ");
                push_decimal(&mut s, payment_asset as u64);
                s.append(" with fee asset ");
                push_decimal(&mut s, fee_asset as u64);
                s
            },
            HushError::CrossAssetFeeMismatch { payment_asset, fee_asset } => {
                let mut s = String::from_str("cross-asset fee mismatch is invalid: payment asset ");
                push_decimal(&mut s, payment_asset as u64);
                s.append(" with fee asset ");
                push_decimal(&mut s, fee_asset as u64);
                s
            },
            HushError::PaymentKindRequiresAsset => String::from_str("payment tx_kind requires payment_asset"),
            HushError::HushOnlyFeeAsset { tx_kind, fee_asset } => {
                let mut s = String::from_str("tx_kind ");
                push_decimal(&mut s, tx_kind as u64);
                s.append(" is HUSH-only and rejects fee asset ");
                push_decimal(&mut s, fee_asset as u64);
                s
            },
            HushError::UnsupportedFeeScheduleForRoute(x0) => {
                let mut s = String::from_str("unsupported payment fee schedule version ");
                push_decimal(&mut s, x0 as u64);
                s
            },
            HushError::InputAmountOverflow => String::from_str("input amount overflow"),
            HushError::OutputAmountOverflow => String::from_str("output amount overflow"),
            HushError::InsufficientInputValue { total_in, recipient, payment_fee } => {
                let mut s = String::from_str("insufficient input value: total inputs ");
                push_decimal(&mut s, total_in);
                s.append(" < recipient ");
                push_decimal(&mut s, recipient);
                s.append(" + payment fee ");
                push_decimal(&mut s, payment_fee);
                s
            },
            HushError::UnsupportedTxVersion(x0) => {
                let mut s = String::from_str("unsupported payment tx version ");
                push_decimal(&mut s, x0 as u64);
                s
            },
            HushError::UnsupportedFeeClass(x0) => {
                let mut s = String::from_str("unsupported fee_class ");
                push_decimal(&mut s, x0 as u64);
                s
            },
            HushError::UnsupportedFeeScheduleVersion(x0) => {
                let mut s = String::from_str("unsupported fee_schedule_version ");
                push_decimal(&mut s, x0 as u64);
                s
            },
            HushError::InvalidReplayDomain(x0) => {
                let mut s = String::from_str("invalid replay_domain ");
                push_decimal(&mut s, x0 as u64);
                s
            },
            HushError::FeeAmountMismatch { got, expected } => {
                let mut s = String::from_str("fee amount mismatch: got ");
                push_decimal(&mut s, got);
                s.append(", expected ");
                push_decimal(&mut s, expected);
                s
            },
            HushError::UnsupportedFeeAuxRoute(x0) => {
                let mut s = String::from_str("unsupported fee aux proof route ");
                push_decimal(&mut s, x0 as u64);
                s
            },
            HushError::MissingHushSidecarAttachment => String::from_str("missing HUSH sidecar attachment for fee_asset = HUSH"),
            HushError::SidecarAttachmentDisallowed => String::from_str("fee sidecar attachment is disallowed for same-asset Mode A"),
            HushError::InsufficientInputAfterFee => String::from_str("insufficient input value after fee deduction"),
            HushError::SenderChangeMismatch { got, expected } => {
                let mut s = String::from_str("sender change mismatch: got ");
                push_decimal(&mut s, got);
                s.append(", expected ");
                push_decimal(&mut s, expected);
                s
            },
            HushError::TxBindingHashMismatch { got, expected } => {
                let mut s = String::from_str("tx_binding_hash mismatch: got ");
                push_hash(&mut s, got);
                s.append(", expected ");
                push_hash(&mut s, expected);
                s
            },
            HushError::SenderBindingTagMismatch { got, expected } => {
                let mut s = String::from_str("sender_binding_tag mismatch: got ");
                push_hash(&mut s, got);
                s.append(", expected ");
                push_hash(&mut s, expected);
                s
            },
            HushError::HushSidecarRequiresModeB => String::from_str("HUSH fee sidecar witness is only valid for Mode B transactions"),
            HushError::HushSidecarInputOverflow => String::from_str("HUSH sidecar input amount overflow"),
            HushError::InsufficientHushFeeCoverage => String::from_str("insufficient HUSH fee coverage"),
            HushError::InvalidHushChange { got, expected } => {
                let mut s = String::from_str("invalid HUSH change: got ");
                push_decimal(&mut s, got);
                s.append(", expected ");
                push_decimal(&mut s, expected);
                s
            },
            HushError::AmountOutOfRange(x0) => {
                let mut s = String::from_str("amount ");
                push_decimal(&mut s, x0);
                s.append(" exceeds the four-limb range (2^60 - 1)");
                s
            },
            HushError::NullifiersNotDistinct => String::from_str("Nullifiers must differ"),
            HushError::AttestationRootsDiffer => String::from_str("Input notes must carry the same attestation root"),
            HushError::PaymentInputOverflow => String::from_str("payment input amount overflow"),
            HushError::PaymentOutputOverflow => String::from_str("payment output amount overflow"),
            HushError::BalanceConservation { inputs, outputs } => {
                let mut s = String::from_str("Balance conservation failed: inputs ");
                push_decimal(&mut s, inputs);
                s.append(" != recipient+change+fee ");
                push_decimal(&mut s, outputs);
                s
            },
            HushError::NoteMerklePathInvalid(x0) => {
                let mut s = String::from_str("Note Merkle path for input ");
                push_decimal(&mut s, x0 as u64);
                s.append(" is invalid");
                s
            },
            HushError::HushSidecarNullifiersNotDistinct => String::from_str("HUSH sidecar nullifiers must differ"),
            HushError::HushFeeInputOverflow => String::from_str("HUSH fee input amount overflow"),
            HushError::HushFeeOutputOverflow => String::from_str("HUSH fee output amount overflow"),
            HushError::HushFeeBalanceConservation { inputs, outputs } => {
                let mut s = String::from_str("HUSH fee balance conservation failed: inputs ");
                push_decimal(&mut s, inputs);
                s.append(" != change+fee ");
                push_decimal(&mut s, outputs);
                s
            },
            HushError::HushSidecarNotePathInvalid(x0) => {
                let mut s = String::from_str("HUSH sidecar note Merkle path for input ");
                push_decimal(&mut s, x0 as u64);
                s.append(" is invalid");
                s
            },
            HushError::InvalidTimeWindow => String::from_str("Invalid window: start must be before end"),
            HushError::TimeWindowTotalOverflow => String::from_str("time-window total overflow: sum of in-window amounts exceeds u64"),
            HushError::ClaimedTotalMismatch { claimed, actual } => {
                let mut s = String::from_str("Claimed total ");
                push_decimal(&mut s, claimed);
                s.append(" does not match actual total ");
                push_decimal(&mut s, actual);
                s.append(" for the window");
                s
            },
            HushError::AttestationRootMismatch => String::from_str("Attestation root mismatch"),
            HushError::AttestationExpired => String::from_str("Attestation expired"),
            HushError::AttestationCommitmentMismatch => String::from_str("Attestation commitment does not match expected value"),
            HushError::IssuerNotAuthorized => String::from_str("Issuer is not in the authorized issuer set"),
            HushError::PaymentProofVerificationFailed => String::from_str("Verification failed"),
            HushError::HushFeeProofVerificationFailed => String::from_str("HUSH fee verification failed"),
            HushError::SidecarWitnessDisallowed => String::from_str("sidecar witness is disallowed for same-asset Mode A"),
            HushError::MissingSidecarWitness => String::from_str("missing HUSH sidecar witness for Mode B"),
            HushError::PaymentProofTxBindingHashMismatch { proof, tx } => {
                let mut s = String::from_str("payment proof tx_binding_hash mismatch: proof ");
                push_hash(&mut s, proof);
                s.append(", tx ");
                push_hash(&mut s, tx);
                s
            },
            HushError::PaymentProofSenderTagMismatch { proof, tx } => {
                let mut s = String::from_str("payment proof sender_binding_tag mismatch: proof ");
                push_hash(&mut s, proof);
                s.append(", tx ");
                push_hash(&mut s, tx);
                s
            },
            HushError::SidecarProofDisallowed => String::from_str("sidecar proof is disallowed for same-asset Mode A"),
            HushError::MissingSidecarProof => String::from_str("missing HUSH sidecar proof for Mode B"),
            HushError::SidecarTxBindingHashMismatch { proof, tx } => {
                let mut s = String::from_str("sidecar tx_binding_hash mismatch: proof ");
                push_hash(&mut s, proof);
                s.append(", tx ");
                push_hash(&mut s, tx);
                s
            },
            HushError::SidecarSenderTagMismatch { proof, tx } => {
                let mut s = String::from_str("sidecar sender_binding_tag mismatch: proof ");
                push_hash(&mut s, proof);
                s.append(", tx ");
                push_hash(&mut s, tx);
                s
            },
            HushError::SidecarFeeAmountMismatch { proof, tx } => {
                let mut s = String::from_str("sidecar fee amount mismatch: proof ");
                push_decimal(&mut s, proof);
                s.append(", tx ");
                push_decimal(&mut s, tx);
                s
            },
            HushError::ProofTxBindingHashesDiffer => String::from_str("payment proof and sidecar proof tx_binding_hash do not match"),
            HushError::ProofSenderTagsDiffer => String::from_str("payment proof and sidecar proof sender_binding_tag do not match"),
            HushError::FeeBucketOverflow(x0) => {
                let mut s = String::new();
                push_asset_label(&mut s, x0);
                s.append(" fee bucket overflow");
                s
            },
            HushError::EpochFeePoolOverflow(x0) => {
                let mut s = String::new();
                push_asset_label(&mut s, x0);
                s.append(" epoch fee pool overflow");
                s
            },
            HushError::TxCountOverflow(x0) => {
                let mut s = String::new();
                push_asset_label(&mut s, x0);
                s.append(" tx count overflow");
                s
            },
            HushError::KindCountOverflow(x0) => {
                let mut s = String::from_str("tx count overflow for tx_kind ");
                push_decimal(&mut s, x0 as u64);
                s
            },
            HushError::ProtocolActionUsesPaymentKind => String::from_str("ProtocolActionTx cannot use payment tx_kind"),
            HushError::PaymentKindRequiresPaymentTx => String::from_str("payment tx_kind must use PaymentTxV1"),
            HushError::ZeroProtocolActionFee => String::from_str("protocol action fee amount must be non-zero"),
            HushError::DuplicateTxInRecord(x0) => {
                let mut s = String::from_str("duplicate tx_id ");
                push_decimal(&mut s, x0);
                s.append(" in block accounting record");
                s
            },
            HushError::FeeBucketsDoNotReconcile => String::from_str("block fee buckets do not reconcile with accepted transactions"),
            HushError::AssetCountsDoNotReconcile => String::from_str("block tx counts by asset do not reconcile"),
            HushError::KindCountsDoNotReconcile => String::from_str("block tx counts by kind do not reconcile"),
            HushError::TxAlreadyCountedInBlock(x0) => {
                let mut s = String::from_str("tx_id ");
                push_decimal(&mut s, x0);
                s.append(" already counted in this block");
                s
            },
            HushError::BlockAlreadyAccrued { block_height, epoch_index } => {
                let mut s = String::from_str("block height ");
                push_decimal(&mut s, block_height);
                s.append(" already accrued in epoch ");
                push_decimal(&mut s, epoch_index);
                s
            },
            HushError::TxAlreadyAccruedInEpoch(x0) => {
                let mut s = String::from_str("tx_id ");
                push_decimal(&mut s, x0);
                s.append(" already accrued in this epoch");
                s
            },
            HushError::DuplicateValidator(x0) => {
                let mut s = String::from_str("duplicate validator_id ");
                push_decimal(&mut s, x0 as u64);
                s.append(" in validator set");
                s
            },
            HushError::UnknownParticipant(x0) => {
                let mut s = String::from_str("participation entry references unknown validator ");
                push_decimal(&mut s, x0 as u64);
                s
            },
            HushError::LivenessPenaltyTooHigh(x0) => {
                let mut s = String::from_str("validator ");
                push_decimal(&mut s, x0 as u64);
                s.append(" liveness penalty exceeds 10000 bps");
                s
            },
            HushError::SlashPenaltyTooHigh(x0) => {
                let mut s = String::from_str("validator ");
                push_decimal(&mut s, x0 as u64);
                s.append(" slash penalty exceeds 10000 bps");
                s
            },
            HushError::DuplicateParticipation(x0) => {
                let mut s = String::from_str("duplicate participation entry for validator ");
                push_decimal(&mut s, x0 as u64);
                s
            },
            HushError::NoActiveValidators => String::from_str("cannot accrue non-zero fee buckets without active validators"),
            HushError::ZeroTotalValidatorWeight => String::from_str("cannot allocate non-zero asset bucket with zero total validator weight"),
            HushError::ValidatorWeightOverflow => String::from_str("validator weight overflow"),
            HushError::ZeroTotalWeight => String::from_str("cannot allocate non-zero asset bucket with zero total validator weight"),
            HushError::EntitlementOverflow(x0) => {
                let mut s = String::from_str("validator ");
                push_asset_label(&mut s, x0);
                s.append(" entitlement overflow");
                s
            },
            HushError::BlockCountOverflow(x0) => {
                let mut s = String::from_str("block count overflow for validator ");
                push_decimal(&mut s, x0 as u64);
                s
            },
            HushError::PayoutsDoNotReconcile => String::from_str("payout totals do not reconcile with epoch fee pools"),
            HushError::ZeroPaymentAmount => String::from_str("payment amount must be non-zero"),
            HushError::UnsupportedPaymentFeeRoute { payment_asset, fee_asset } => {
                let mut s = String::from_str("unsupported payment fee route: payment asset ");
                push_decimal(&mut s, payment_asset as u64);
                s.append(" with fee asset ");
                push_decimal(&mut s, fee_asset as u64);
                s
            },
            HushError::PaymentBalanceTooLow { balance, debit } => {
                let mut s = String::from_str("payment balance ");
                push_decimal(&mut s, balance);
                s.append(" does not cover required debit ");
                push_decimal(&mut s, debit);
                s
            },
            HushError::HushBalanceTooLow { balance, fee } => {
                let mut s = String::from_str("HUSH balance ");
                push_decimal(&mut s, balance);
                s.append(" does not cover required fee ");
                push_decimal(&mut s, fee);
                s
            },
            HushError::DemoBalanceTooSmall => String::from_str("demo balance must be at least two base units"),
            HushError::DemoNoteSplitOverflow => String::from_str("demo note split overflow"),
            HushError::InvalidHushChangeAfterFee => String::from_str("invalid HUSH change after fee deduction"),
            HushError::InvalidBase64 => String::from_str("invalid base64"),
            HushError::NoteRootMismatch => String::from_str("Note root mismatch"),
            HushError::DoubleSpend(x0) => {
                let mut s = String::from_str("Double-spend: nullifier ");
                push_hash(&mut s, x0);
                s.append(" already spent");
                s
            },
        }
    }
}

} // verus!
