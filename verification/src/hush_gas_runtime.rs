//! The HUSH gas wallet runtime: quotes stablecoin payments whose fee is
//! paid in HUSH, prepares the transaction and witnesses of a submission,
//! and states what the demo implements.

use vstd::prelude::*;
use vstd::string::*;

use crate::accounting::{
    spec_record_step, BlockBuilderModel, spec_accrue_ids, spec_add_buckets, spec_apply_block, spec_block_check, spec_credit_all,
    spec_participation_map, spec_validator_map, spec_weights, spec_weights_fit, spec_signer_weight, spec_apply_weights_fit, AcceptedTxRecord, AssetTxCounts,
    EpochModel, ValidatorEpochEntitlement, spec_payment_record, spec_sum_payouts, AssetFeeBuckets, BlockAccountingBuilder,
    BlockAccountingRecord, ClaimablePayoutRecord, EpochAccumulator, EpochSettlement,
    ValidatorBlockParticipation, ValidatorStakeInfo,
};
use crate::payment_validation::{
    prove_payment_bundle, spec_assemble_bundle, spec_bundle_check, validate_payment_bundle,
    PaymentBundleProof,
};
use crate::error::HushError;
use crate::payment_fixtures::{
    build_context, spec_fixture_recipient, spec_is_fixture, PaymentFixtureContext,
};
use crate::payment_tx::{
    expected_fee_amount, payment_route, spec_asset_from, spec_expected_fee, spec_payment_route,
    AssetId, NoteInput, PaymentRoute, PaymentTxV1,
};
use crate::types::{HushFeeWitness, PaymentWitness};

verus! {

/// The spending key of the demo wallet.
pub const DEMO_SENDER_KEY: u32 = 12_345;

/// The epoch of the demo note tree.
pub const DEMO_EPOCH: u32 = 1_000;

/// The height of the demo block.
pub const DEMO_BLOCK_HEIGHT: u64 = 4_200;

/// The proposer of the demo block.
pub const DEMO_PROPOSER_ID: u32 = 1;

/// The share of a balance that goes into the first of its two demo notes.
pub const DEMO_NOTE_RATIO_BPS: u32 = 6_000;

#[derive(Clone, Copy, Debug, PartialEq, Eq)]
pub enum ImplementationLevel {
    Supported,
    RepresentedOnly,
    NotImplemented,
}

/// One line of the runtime review: a capability and how far it is built.
#[derive(Clone, Debug)]
pub struct ReviewItem {
    pub group: String,
    pub key: String,
    pub label: String,
    pub level: ImplementationLevel,
    pub detail: String,
}

#[derive(Clone, Debug)]
pub struct RuntimeReviewSnapshot {
    pub items: Vec<ReviewItem>,
}

impl RuntimeReviewSnapshot {
    /// The first item with the given key, if any.
    pub fn item(&self, key: &str) -> (r: Option<&ReviewItem>)
        ensures
            match r {
                Some(it) => exists|i: int|
                    0 <= i < self.items@.len() && self.items@[i] == *it && it.key@ == key@
                        && forall|j: int| 0 <= j < i ==> #[trigger] self.items@[j].key@ != key@,
                None => forall|j: int| 0 <= j < self.items@.len() ==> #[trigger] self.items@[j].key@ != key@,
            },
    {
        let wanted = String::from_str(key);
        let n = self.items.len();
        for i in 0..n
            invariant
                n == self.items@.len(),
                wanted@ == key@,
                forall|j: int| 0 <= j < i ==> #[trigger] self.items@[j].key@ != key@,
        {
            if self.items[i].key == wanted {
                return Some(&self.items[i]);
            }
        }
        None
    }
}

/// A review item's content.
pub open spec fn spec_review_item(
    item: ReviewItem,
    group: Seq<char>,
    key: Seq<char>,
    label: Seq<char>,
    level: ImplementationLevel,
    detail: Seq<char>,
) -> bool {
    &&& item.group@ == group
    &&& item.key@ == key
    &&& item.label@ == label
    &&& item.level == level
    &&& item.detail@ == detail
}

fn review_item(
    group: &str,
    key: &str,
    label: &str,
    level: ImplementationLevel,
    detail: &str,
) -> (r: ReviewItem)
    ensures
        spec_review_item(r, group@, key@, label@, level, detail@),
{
    ReviewItem {
        group: String::from_str(group),
        key: String::from_str(key),
        label: String::from_str(label),
        level,
        detail: String::from_str(detail),
    }
}

/// What the demo runtime implements: the HUSH gas route, the wallet quote
/// and builder, submission with validation and accounting, and claimable
/// payouts are supported; wallet onboarding, balances and the reward wallet
/// flow are represented only; live network submission is not implemented.
pub fn runtime_review_snapshot() -> (r: RuntimeReviewSnapshot)
    ensures
        r.items@.len() == 8,
        spec_review_item(
            r.items@[0],
            "supported"@,
            "payment_route_hush_gas"@,
            "HUSH gas fee route"@,
            ImplementationLevel::Supported,
            "USDC->HUSH and USDT->HUSH use the sidecar proof path with tx_binding_hash and sender_binding_tag enforcement."@,
        ),
        spec_review_item(
            r.items@[1],
            "supported"@,
            "fee_quote_and_builder"@,
            "Wallet quote and builder path"@,
            ImplementationLevel::Supported,
            "The runtime quotes stablecoin payments with HUSH gas and always builds the canonical unsigned PaymentTxV1."@,
        ),
        spec_review_item(
            r.items@[2],
            "supported"@,
            "submission_validation_accounting"@,
            "Submission, validation, and accounting"@,
            ImplementationLevel::Supported,
            "Accepted demo submissions run through bundle validation, block fee buckets, epoch accrual, and claimable payout record generation."@,
        ),
        spec_review_item(
            r.items@[3],
            "supported"@,
            "claimable_payout_records"@,
            "Claimable mixed-basket payout records"@,
            ImplementationLevel::Supported,
            "Validator entitlements and claimable payout records are now inspectable through the runtime and test interfaces."@,
        ),
        spec_review_item(
            r.items@[4],
            "represented_only"@,
            "wallet_onboarding"@,
            "Wallet setup and provenance attestation"@,
            ImplementationLevel::RepresentedOnly,
            "Wallet setup and boundary-actor approval remain represented in the demo, even though the browser can run the provenance attestation circuit locally."@,
        ),
        spec_review_item(
            r.items@[5],
            "represented_only"@,
            "wallet_balances_and_funding"@,
            "Wallet balances and funding"@,
            ImplementationLevel::RepresentedOnly,
            "Displayed balances and the demo HUSH sidecar reserve remain local browser state rather than protocol-connected wallet sync."@,
        ),
        spec_review_item(
            r.items@[6],
            "represented_only"@,
            "wallet_reward_consumption_ui"@,
            "Validator reward wallet UX"@,
            ImplementationLevel::RepresentedOnly,
            "Claimable payout records exist, but a production wallet reward claiming flow has not been built yet."@,
        ),
        spec_review_item(
            r.items@[7],
            "not_implemented"@,
            "live_network_submission"@,
            "Live validator network path"@,
            ImplementationLevel::NotImplemented,
            "The demo executes locally and does not yet submit transactions into a live validator network or finality path."@,
        ),
{
    let mut items: Vec<ReviewItem> = Vec::new();
    items.push(
        review_item(
            "supported",
            "payment_route_hush_gas",
            "HUSH gas fee route",
            ImplementationLevel::Supported,
            "USDC->HUSH and USDT->HUSH use the sidecar proof path with tx_binding_hash and sender_binding_tag enforcement.",
        ),
    );
    items.push(
        review_item(
            "supported",
            "fee_quote_and_builder",
            "Wallet quote and builder path",
            ImplementationLevel::Supported,
            "The runtime quotes stablecoin payments with HUSH gas and always builds the canonical unsigned PaymentTxV1.",
        ),
    );
    items.push(
        review_item(
            "supported",
            "submission_validation_accounting",
            "Submission, validation, and accounting",
            ImplementationLevel::Supported,
            "Accepted demo submissions run through bundle validation, block fee buckets, epoch accrual, and claimable payout record generation.",
        ),
    );
    items.push(
        review_item(
            "supported",
            "claimable_payout_records",
            "Claimable mixed-basket payout records",
            ImplementationLevel::Supported,
            "Validator entitlements and claimable payout records are now inspectable through the runtime and test interfaces.",
        ),
    );
    items.push(
        review_item(
            "represented_only",
            "wallet_onboarding",
            "Wallet setup and provenance attestation",
            ImplementationLevel::RepresentedOnly,
            "Wallet setup and boundary-actor approval remain represented in the demo, even though the browser can run the provenance attestation circuit locally.",
        ),
    );
    items.push(
        review_item(
            "represented_only",
            "wallet_balances_and_funding",
            "Wallet balances and funding",
            ImplementationLevel::RepresentedOnly,
            "Displayed balances and the demo HUSH sidecar reserve remain local browser state rather than protocol-connected wallet sync.",
        ),
    );
    items.push(
        review_item(
            "represented_only",
            "wallet_reward_consumption_ui",
            "Validator reward wallet UX",
            ImplementationLevel::RepresentedOnly,
            "Claimable payout records exist, but a production wallet reward claiming flow has not been built yet.",
        ),
    );
    items.push(
        review_item(
            "not_implemented",
            "live_network_submission",
            "Live validator network path",
            ImplementationLevel::NotImplemented,
            "The demo executes locally and does not yet submit transactions into a live validator network or finality path.",
        ),
    );
    RuntimeReviewSnapshot { items }
}

#[derive(Clone, Debug)]
pub struct PaymentQuote {
    pub payment_asset: u32,
    pub fee_asset: u32,
    pub route: String,
    pub fee_schedule_version: u32,
    pub fee_amount: u64,
    pub payment_debit: u64,
    pub hush_fee_debit: u64,
    pub receiver_amount: u64,
    pub backend_backed: bool,
}

#[derive(Clone, Copy, Debug, PartialEq, Eq)]
pub struct WalletQuoteRequest {
    pub payment_asset: u32,
    pub fee_asset: u32,
    pub amount: u64,
    pub fee_schedule_version: u32,
}

#[derive(Clone, Copy, Debug, PartialEq, Eq)]
pub struct WalletSubmissionRequest {
    pub payment_asset: u32,
    pub fee_asset: u32,
    pub amount: u64,
    pub fee_schedule_version: u32,
    pub recipient_owner: u32,
    pub payment_balance: u64,
    pub hush_balance: u64,
    pub attestation_expiry: Option<u32>,
}

/// The label of the runtime's one payment route.
fn route_label(_route: PaymentRoute) -> (r: String)
    ensures
        r@ == "hush_gas"@,
{
    String::from_str("hush_gas")
}

/// The quote's fee, or why the runtime refuses the request: a zero amount,
/// an unknown asset, any route but the HUSH sidecar, a schedule it lacks.
pub open spec fn spec_quote_fee(request: WalletQuoteRequest) -> Result<u64, HushError> {
    if request.amount == 0 {
        Err(HushError::ZeroPaymentAmount)
    } else {
        match spec_payment_route(request.payment_asset, request.fee_asset) {
            Err(HushError::UnsupportedAssetId(a)) => Err(HushError::UnsupportedAssetId(a)),
            Ok(PaymentRoute::HushSidecar) => spec_expected_fee(
                request.payment_asset,
                request.fee_asset,
                request.fee_schedule_version,
            ),
            _ => Err(
                HushError::UnsupportedPaymentFeeRoute {
                    payment_asset: request.payment_asset,
                    fee_asset: request.fee_asset,
                },
            ),
        }
    }
}

/// The quote for a request whose fee is `fee`: the whole amount is debited
/// from the payment asset and reaches the receiver, the fee is debited in
/// HUSH, on the `hush_gas` route.
pub open spec fn spec_is_quote(q: PaymentQuote, request: WalletQuoteRequest, fee: u64) -> bool {
    &&& q.payment_asset == request.payment_asset
    &&& q.fee_asset == request.fee_asset
    &&& q.route@ == "hush_gas"@
    &&& q.fee_schedule_version == request.fee_schedule_version
    &&& q.fee_amount == fee
    &&& q.payment_debit == request.amount
    &&& q.hush_fee_debit == fee
    &&& q.receiver_amount == request.amount
    &&& q.backend_backed
}

/// Quotes a payment on the HUSH gas route.
pub fn quote_payment(request: &WalletQuoteRequest) -> (r: Result<PaymentQuote, HushError>)
    ensures
        match spec_quote_fee(*request) {
            Ok(fee) => r matches Ok(q) && spec_is_quote(q, *request, fee),
            Err(e) => r matches Err(x) && x == e,
        },
{
    if request.amount == 0 {
        return Err(HushError::ZeroPaymentAmount);
    }
    let route = match payment_route(request.payment_asset, request.fee_asset) {
        Ok(PaymentRoute::HushSidecar) => PaymentRoute::HushSidecar,
        Err(HushError::UnsupportedAssetId(a)) => {
            return Err(HushError::UnsupportedAssetId(a));
        },
        _ => {
            return Err(
                HushError::UnsupportedPaymentFeeRoute {
                    payment_asset: request.payment_asset,
                    fee_asset: request.fee_asset,
                },
            );
        },
    };
    let fee_amount = expected_fee_amount(
        request.payment_asset,
        request.fee_asset,
        request.fee_schedule_version,
    )?;
    Ok(
        PaymentQuote {
            payment_asset: request.payment_asset,
            fee_asset: request.fee_asset,
            route: route_label(route),
            fee_schedule_version: request.fee_schedule_version,
            fee_amount,
            payment_debit: request.amount,
            hush_fee_debit: fee_amount,
            receiver_amount: request.amount,
            backend_backed: true,
        },
    )
}

/// What a settlement offers a consumer: its fee pools, the sum of its
/// payouts and the payouts themselves.
#[derive(Clone, Debug)]
pub struct PayoutInspection {
    pub fee_pools: AssetFeeBuckets,
    pub payout_totals: AssetFeeBuckets,
    pub payout_records: Vec<ClaimablePayoutRecord>,
}

pub fn inspect_claimable_payouts(settlement: &EpochSettlement) -> (r: Result<PayoutInspection, HushError>)
    ensures
        match spec_sum_payouts(settlement.payout_records@) {
            Ok(t) => r matches Ok(p) && p.fee_pools == settlement.fee_pools && p.payout_totals == t
                && p.payout_records@ == settlement.payout_records@,
            Err(e) => r matches Err(x) && x == e,
        },
{
    let payout_totals = settlement.total_payouts()?;
    let payout_records = settlement.payout_records.clone();
    assert(payout_records@ =~= settlement.payout_records@);
    Ok(PayoutInspection { fee_pools: settlement.fee_pools, payout_totals, payout_records })
}

/// The two demo notes a balance is split into: 60% (at least one unit,
/// leaving at least one) and the rest; or why it cannot be split.
pub open spec fn spec_demo_split(total: u64) -> Result<(u64, u64), HushError> {
    if total < 2 {
        Err(HushError::DemoBalanceTooSmall)
    } else if total * 6000 > u64::MAX {
        Err(HushError::DemoNoteSplitOverflow)
    } else {
        let raw = (total * 6000) / 10000;
        let left = if raw < 1 {
            1
        } else if raw > total - 1 {
            total - 1
        } else {
            raw
        };
        Ok((left as u64, (total - left) as u64))
    }
}

/// Splits a balance into the two demo notes.
pub fn split_demo_notes(total: u64, rand_0: u32, rand_1: u32) -> (r: Result<
    [NoteInput; 2],
    HushError,
>)
    ensures
        match spec_demo_split(total) {
            Ok((left, right)) => r == Ok::<[NoteInput; 2], HushError>(
                [
                    NoteInput { amount: left, randomness: rand_0 },
                    NoteInput { amount: right, randomness: rand_1 },
                ],
            ),
            Err(e) => r == Err::<[NoteInput; 2], HushError>(e),
        },
{
    if total < 2 {
        return Err(HushError::DemoBalanceTooSmall);
    }
    let scaled = match total.checked_mul(DEMO_NOTE_RATIO_BPS as u64) {
        Some(x) => x,
        None => {
            return Err(HushError::DemoNoteSplitOverflow);
        },
    };
    let raw = scaled / 10_000;
    let left = if raw < 1 {
        1
    } else if raw > total - 1 {
        total - 1
    } else {
        raw
    };
    let right = total - left;
    Ok(
        [
            NoteInput { amount: left, randomness: rand_0 },
            NoteInput { amount: right, randomness: rand_1 },
        ],
    )
}

/// The demo validator set: two validators with stakes 120 and 80.
pub fn demo_validator_set() -> (r: Vec<ValidatorStakeInfo>)
    ensures
        r@ == seq![
            ValidatorStakeInfo { validator_id: 1, payout_key: 101, effective_stake: 120 },
            ValidatorStakeInfo { validator_id: 2, payout_key: 202, effective_stake: 80 },
        ],
{
    let mut v: Vec<ValidatorStakeInfo> = Vec::new();
    v.push(ValidatorStakeInfo { validator_id: 1, payout_key: 101, effective_stake: 120 });
    v.push(ValidatorStakeInfo { validator_id: 2, payout_key: 202, effective_stake: 80 });
    assert(v@ =~= seq![
        ValidatorStakeInfo { validator_id: 1, payout_key: 101, effective_stake: 120 },
        ValidatorStakeInfo { validator_id: 2, payout_key: 202, effective_stake: 80 },
    ]);
    v
}

/// The demo block's participation: both validators signed, no penalties.
pub fn demo_participation() -> (r: Vec<ValidatorBlockParticipation>)
    ensures
        r@ == seq![
            ValidatorBlockParticipation {
                validator_id: 1,
                signed_block: true,
                liveness_penalty_bps: 0,
                slash_penalty_bps: 0,
            },
            ValidatorBlockParticipation {
                validator_id: 2,
                signed_block: true,
                liveness_penalty_bps: 0,
                slash_penalty_bps: 0,
            },
        ],
{
    let mut v: Vec<ValidatorBlockParticipation> = Vec::new();
    v.push(
        ValidatorBlockParticipation {
            validator_id: 1,
            signed_block: true,
            liveness_penalty_bps: 0,
            slash_penalty_bps: 0,
        },
    );
    v.push(
        ValidatorBlockParticipation {
            validator_id: 2,
            signed_block: true,
            liveness_penalty_bps: 0,
            slash_penalty_bps: 0,
        },
    );
    assert(v@ =~= seq![
        ValidatorBlockParticipation {
            validator_id: 1,
            signed_block: true,
            liveness_penalty_bps: 0,
            slash_penalty_bps: 0,
        },
        ValidatorBlockParticipation {
            validator_id: 2,
            signed_block: true,
            liveness_penalty_bps: 0,
            slash_penalty_bps: 0,
        },
    ]);
    v
}


/// Everything a submission needs before proving: its quote, the canonical
/// transaction, the payment witness and the HUSH sidecar witness.
#[derive(Clone, Debug)]
pub struct PreparedWalletSubmission {
    pub quote: PaymentQuote,
    pub tx: PaymentTxV1,
    pub payment_witness: PaymentWitness,
    pub fee_sidecar_witness: Option<HushFeeWitness>,
}

/// The quote request inside a submission request.
pub open spec fn spec_quote_request(request: WalletSubmissionRequest) -> WalletQuoteRequest {
    WalletQuoteRequest {
        payment_asset: request.payment_asset,
        fee_asset: request.fee_asset,
        amount: request.amount,
        fee_schedule_version: request.fee_schedule_version,
    }
}

/// Why a submission cannot be prepared, if it cannot: the quote is
/// refused, the payment balance does not cover the amount, the HUSH balance
/// does not cover the fee, or a balance cannot be split into two notes.
pub open spec fn spec_prepare_error(request: WalletSubmissionRequest) -> Option<HushError> {
    match spec_quote_fee(spec_quote_request(request)) {
        Err(e) => Some(e),
        Ok(fee) => if request.payment_balance < request.amount {
            Some(
                HushError::PaymentBalanceTooLow {
                    balance: request.payment_balance,
                    debit: request.amount,
                },
            )
        } else if fee > 0 && request.hush_balance < fee {
            Some(HushError::HushBalanceTooLow { balance: request.hush_balance, fee })
        } else if spec_demo_split(request.payment_balance) is Err {
            Some(spec_demo_split(request.payment_balance)->Err_0)
        } else if spec_demo_split(request.hush_balance) is Err {
            Some(spec_demo_split(request.hush_balance)->Err_0)
        } else {
            None
        },
    }
}

/// The demo notes of a balance.
pub open spec fn spec_demo_notes(total: u64, rand_0: u32, rand_1: u32) -> [NoteInput; 2] {
    [
        NoteInput { amount: spec_demo_split(total)->Ok_0.0, randomness: rand_0 },
        NoteInput { amount: spec_demo_split(total)->Ok_0.1, randomness: rand_1 },
    ]
}

/// `(a * b + c) mod 2^32`.
pub open spec fn spec_mix(a: u32, b: u32, c: u32) -> u32 {
    ((a as int * b as int + c as int) % 4294967296) as u32
}

fn mix(a: u32, b: u32, c: u32) -> (r: u32)
    ensures
        r == spec_mix(a, b, c),
{
    let r = a.wrapping_mul(b).wrapping_add(c);
    proof {
        let ab = a as int * b as int;
        let m = ab % 4294967296;
        vstd::arithmetic::div_mod::lemma_add_mod_noop(ab, c as int, 4294967296);
        vstd::arithmetic::div_mod::lemma_small_mod(c as nat, 4294967296);
        vstd::arithmetic::div_mod::lemma_mod_bound(ab, 4294967296);
        assert((m + c) % 4294967296 == if m + c >= 4294967296 {
            m + c - 4294967296
        } else {
            m + c
        }) by (nonlinear_arith)
            requires
                0 <= m < 4294967296,
                0 <= c < 4294967296,
        ;
    }
    r
}

/// The prepared submission of a request: the demo wallet's payment of the
/// amount to the recipient key's owner on the HUSH gas route, from the two
/// demo notes of its payment balance, with the HUSH fee paid from the two
/// demo notes of its HUSH balance.
pub open spec fn spec_is_prepared(p: PreparedWalletSubmission, request: WalletSubmissionRequest) -> bool {
    let fee = spec_quote_fee(spec_quote_request(request))->Ok_0;
    &&& spec_is_quote(p.quote, spec_quote_request(request), fee)
    &&& spec_is_fixture(
        PaymentFixtureContext {
            tx: p.tx,
            witness: p.payment_witness,
            fee_sidecar_witness: p.fee_sidecar_witness,
            sender_binding_tag: p.tx.attachment.sender_binding_tag,
        },
        PaymentRoute::HushSidecar,
        DEMO_SENDER_KEY,
        spec_asset_from(request.payment_asset)->Some_0,
        spec_demo_notes(request.payment_balance, 111, 222),
        spec_fixture_recipient(
            request.amount,
            request.recipient_owner,
            spec_mix(request.recipient_owner, 31, request.amount as u32),
        ),
        spec_mix(request.payment_balance as u32, 17, 444),
        Some(spec_demo_notes(request.hush_balance, 515, 616)),
        Some(spec_mix(request.hush_balance as u32, 19, 717)),
        DEMO_EPOCH,
        request.fee_schedule_version,
    )
}

/// Prepares a submission: quotes it, checks the balances, and builds the
/// transaction and both witnesses.
pub fn prepare_wallet_submission(request: &WalletSubmissionRequest) -> (r: Result<
    PreparedWalletSubmission,
    HushError,
>)
    ensures
        match spec_prepare_error(*request) {
            Some(e) => r matches Err(x) && x == e,
            None => r matches Ok(p) && spec_is_prepared(p, *request),
        },
{
    let quote_request = WalletQuoteRequest {
        payment_asset: request.payment_asset,
        fee_asset: request.fee_asset,
        amount: request.amount,
        fee_schedule_version: request.fee_schedule_version,
    };
    let quote = quote_payment(&quote_request)?;
    let payment_asset = AssetId::try_from_u32(request.payment_asset)?;
    if request.payment_balance < quote.payment_debit {
        return Err(
            HushError::PaymentBalanceTooLow {
                balance: request.payment_balance,
                debit: quote.payment_debit,
            },
        );
    }
    if quote.hush_fee_debit > 0 && request.hush_balance < quote.hush_fee_debit {
        return Err(
            HushError::HushBalanceTooLow { balance: request.hush_balance, fee: quote.hush_fee_debit },
        );
    }
    payment_route(request.payment_asset, request.fee_asset)?;
    let payment_inputs = split_demo_notes(request.payment_balance, 111, 222)?;
    let hush_inputs = split_demo_notes(request.hush_balance, 515, 616)?;
    let recipient_randomness = mix(request.recipient_owner, 31, request.amount as u32);
    let sender_change_randomness = mix(request.payment_balance as u32, 17, 444);
    let hush_change_randomness = mix(request.hush_balance as u32, 19, 717);
    let built = build_context(
        PaymentRoute::HushSidecar,
        DEMO_SENDER_KEY,
        payment_asset,
        payment_inputs,
        request.amount,
        request.recipient_owner,
        recipient_randomness,
        sender_change_randomness,
        Some(hush_inputs),
        Some(hush_change_randomness),
        DEMO_EPOCH,
        request.fee_schedule_version,
    );
    Ok(
        PreparedWalletSubmission {
            quote,
            tx: built.tx,
            payment_witness: built.witness,
            fee_sidecar_witness: built.fee_sidecar_witness,
        },
    )
}


/// What the demo chain makes of a submission once its proofs are made: the
/// block that counts the payment, the settled epoch, and the payouts as a
/// consumer inspects them.
#[derive(Clone, Debug)]
pub struct WalletSettlement {
    pub block_accounting: BlockAccountingRecord,
    pub settlement: EpochSettlement,
    pub payout_inspection: PayoutInspection,
}

/// A block that counts one transaction and reconciles accrues into a fresh
/// epoch with the demo validators and participation.
proof fn lemma_demo_block_accrues(
    epoch_index: u64,
    block_height: u64,
    fee_buckets: AssetFeeBuckets,
    tx_counts_by_asset: AssetTxCounts,
    tx_counts_by_kind: Map<u32, u32>,
    rec: AcceptedTxRecord,
    vals: Seq<ValidatorStakeInfo>,
    parts: Seq<ValidatorBlockParticipation>,
)
    requires
        spec_block_check(fee_buckets, tx_counts_by_asset, tx_counts_by_kind, seq![rec]) is Ok,
        vals == seq![
            ValidatorStakeInfo { validator_id: 1, payout_key: 101, effective_stake: 120 },
            ValidatorStakeInfo { validator_id: 2, payout_key: 202, effective_stake: 80 },
        ],
        parts == seq![
            ValidatorBlockParticipation {
                validator_id: 1,
                signed_block: true,
                liveness_penalty_bps: 0,
                slash_penalty_bps: 0,
            },
            ValidatorBlockParticipation {
                validator_id: 2,
                signed_block: true,
                liveness_penalty_bps: 0,
                slash_penalty_bps: 0,
            },
        ],
    ensures
        spec_apply_block(
            EpochModel {
                epoch_index,
                fee_pools: AssetFeeBuckets { hush: 0, usdc: 0, usdt: 0 },
                validator_entitlements: Map::empty(),
                validator_order: Seq::empty(),
                applied_blocks: Set::empty(),
                seen_tx_ids: Set::empty(),
            },
            block_height,
            fee_buckets,
            tx_counts_by_asset,
            tx_counts_by_kind,
            seq![rec],
            vals,
            parts,
        ).1 is Ok,
        spec_apply_weights_fit(
            EpochModel {
                epoch_index,
                fee_pools: AssetFeeBuckets { hush: 0, usdc: 0, usdt: 0 },
                validator_entitlements: Map::empty(),
                validator_order: Seq::empty(),
                applied_blocks: Set::empty(),
                seen_tx_ids: Set::empty(),
            },
            block_height,
            fee_buckets,
            tx_counts_by_asset,
            tx_counts_by_kind,
            seq![rec],
            vals,
            parts,
        ),
{
    let records = seq![rec];
    assert(records.drop_last() =~= Seq::<AcceptedTxRecord>::empty());
    assert(spec_accrue_ids(Set::empty(), records).1 is None) by {
        reveal_with_fuel(spec_accrue_ids, 2);
    }
    let v1 = vals[0];
    let v2 = vals[1];
    assert(vals.drop_last() =~= seq![v1]);
    assert(vals.drop_last().drop_last() =~= Seq::<ValidatorStakeInfo>::empty());
    let vmap = Map::<u32, ValidatorStakeInfo>::empty().insert(1, v1).insert(2, v2);
    assert(spec_validator_map(vals) == Ok::<Map<u32, ValidatorStakeInfo>, HushError>(vmap)) by {
        reveal_with_fuel(spec_validator_map, 3);
    }
    let p1 = parts[0];
    let p2 = parts[1];
    assert(parts.drop_last() =~= seq![p1]);
    assert(parts.drop_last().drop_last() =~= Seq::<ValidatorBlockParticipation>::empty());
    let pmap = Map::<u32, ValidatorBlockParticipation>::empty().insert(1, p1).insert(2, p2);
    assert(spec_participation_map(parts, vmap) == Ok::<
        Map<u32, ValidatorBlockParticipation>,
        HushError,
    >(pmap)) by {
        reveal_with_fuel(spec_participation_map, 3);
    }
    assert(spec_add_buckets(AssetFeeBuckets { hush: 0, usdc: 0, usdt: 0 }, fee_buckets).1 is Ok);
    assert forall|i: int| 0 <= i < vals.len() implies #[trigger] spec_signer_weight(vals[i], pmap)
        <= u64::MAX by {
        assert(i == 0 || i == 1);
    }
    assert(spec_weights_fit(vals, pmap));
    let ws = spec_weights(vals, pmap);
    assert(ws.len() == 2) by {
        reveal_with_fuel(spec_weights, 3);
    }
    let ah = crate::accounting::spec_allocation(fee_buckets.hush, ws);
    let au = crate::accounting::spec_allocation(fee_buckets.usdc, ws);
    let at = crate::accounting::spec_allocation(fee_buckets.usdt, ws);
    let e0 = Map::<u32, ValidatorEpochEntitlement>::empty();
    let c1 = spec_credit_all(e0, vals.drop_last(), pmap, ah, au, at);
    assert(c1.1 is Ok && !c1.0.contains_key(2)) by {
        reveal_with_fuel(spec_credit_all, 2);
    }
    assert(spec_credit_all(e0, vals, pmap, ah, au, at).1 is Ok);
}

/// The demo block before any transaction.
pub open spec fn spec_demo_block() -> BlockBuilderModel {
    BlockBuilderModel {
        block_height: DEMO_BLOCK_HEIGHT,
        proposer_id: DEMO_PROPOSER_ID,
        fee_buckets: AssetFeeBuckets { hush: 0, usdc: 0, usdt: 0 },
        tx_counts_by_asset: AssetTxCounts { hush: 0, usdc: 0, usdt: 0 },
        tx_counts_by_kind: Map::empty(),
        accepted_transactions: Seq::empty(),
        seen_tx_ids: Set::empty(),
    }
}

/// The demo epoch before any block.
pub open spec fn spec_demo_epoch() -> EpochModel {
    EpochModel {
        epoch_index: 1,
        fee_pools: AssetFeeBuckets { hush: 0, usdc: 0, usdt: 0 },
        validator_entitlements: Map::empty(),
        validator_order: Seq::empty(),
        applied_blocks: Set::empty(),
        seen_tx_ids: Set::empty(),
    }
}

/// What settling a transaction on the demo chain gives: the demo block
/// counting its payment record alone, the demo epoch after accruing that
/// block with the demo validators (both signing), closed with its pools
/// equal to the block's fees, and payouts that sum to those pools.
pub open spec fn spec_is_settlement(s: WalletSettlement, tx: PaymentTxV1) -> bool {
    &&& s.block_accounting.block_height == DEMO_BLOCK_HEIGHT
    &&& s.block_accounting.proposer_id == DEMO_PROPOSER_ID
    &&& s.block_accounting.accepted_transactions@ == seq![spec_payment_record(tx)]
    &&& s.block_accounting.fee_buckets == spec_record_step(
        spec_demo_block(),
        spec_payment_record(tx),
    ).0.fee_buckets
    &&& s.block_accounting.tx_counts_by_asset == spec_record_step(
        spec_demo_block(),
        spec_payment_record(tx),
    ).0.tx_counts_by_asset
    &&& s.block_accounting.tx_counts_by_kind@ == spec_record_step(
        spec_demo_block(),
        spec_payment_record(tx),
    ).0.tx_counts_by_kind
    &&& s.settlement.validator_entitlements@ == spec_apply_block(
        spec_demo_epoch(),
        DEMO_BLOCK_HEIGHT,
        s.block_accounting.fee_buckets,
        s.block_accounting.tx_counts_by_asset,
        s.block_accounting.tx_counts_by_kind@,
        s.block_accounting.accepted_transactions@,
        seq![
            ValidatorStakeInfo { validator_id: 1, payout_key: 101, effective_stake: 120 },
            ValidatorStakeInfo { validator_id: 2, payout_key: 202, effective_stake: 80 },
        ],
        seq![
            ValidatorBlockParticipation {
                validator_id: 1,
                signed_block: true,
                liveness_penalty_bps: 0,
                slash_penalty_bps: 0,
            },
            ValidatorBlockParticipation {
                validator_id: 2,
                signed_block: true,
                liveness_penalty_bps: 0,
                slash_penalty_bps: 0,
            },
        ],
    ).0.validator_entitlements
    &&& s.settlement.epoch_index == 1
    &&& s.settlement.fee_pools == s.block_accounting.fee_buckets
    &&& s.payout_inspection.fee_pools == s.settlement.fee_pools
    &&& s.payout_inspection.payout_totals == s.settlement.fee_pools
    &&& s.payout_inspection.payout_records@ == s.settlement.payout_records@
}

/// Settles a proved submission on the demo chain: checks the bundle against
/// the transaction, counts the payment in the demo block, accrues the block
/// into a fresh epoch with the demo validators, closes the epoch and
/// inspects its payouts. The payouts then sum to the block's fees.
pub fn settle_wallet_submission(tx: &PaymentTxV1, bundle: &PaymentBundleProof) -> (r: Result<
    WalletSettlement,
    HushError,
>)
    ensures
        spec_bundle_check(*tx, *bundle) is Err ==> r == Err::<WalletSettlement, HushError>(
            spec_bundle_check(*tx, *bundle)->Err_0,
        ),
        spec_bundle_check(*tx, *bundle) is Ok ==> r is Ok,
        r matches Ok(s) ==> spec_is_settlement(s, *tx),
{
    validate_payment_bundle(tx, bundle)?;
    let mut block = BlockAccountingBuilder::new(DEMO_BLOCK_HEIGHT, DEMO_PROPOSER_ID);
    block.record_payment_bundle(tx, bundle)?;
    let block_accounting = block.finalize();
    block_accounting.validate()?;
    let validators = demo_validator_set();
    let participation = demo_participation();
    let mut epoch = EpochAccumulator::new(1);
    proof {
        lemma_demo_block_accrues(
            1,
            block_accounting.block_height,
            block_accounting.fee_buckets,
            block_accounting.tx_counts_by_asset,
            block_accounting.tx_counts_by_kind@,
            spec_payment_record(*tx),
            validators@,
            participation@,
        );
    }
    epoch.apply_block(&block_accounting, &validators, &participation)?;
    let settlement = epoch.close()?;
    let payout_inspection = inspect_claimable_payouts(&settlement)?;
    Ok(WalletSettlement { block_accounting, settlement, payout_inspection })
}

/// A quote's fee does not depend on the amount: two requests that differ
/// only in their (non-zero) amounts get the same fee, or the same refusal.
pub proof fn lemma_quote_fee_independent_of_amount(a: WalletQuoteRequest, b: WalletQuoteRequest)
    requires
        a.payment_asset == b.payment_asset,
        a.fee_asset == b.fee_asset,
        a.fee_schedule_version == b.fee_schedule_version,
        a.amount > 0,
        b.amount > 0,
    ensures
        spec_quote_fee(a) == spec_quote_fee(b),
{
}

/// A submission carried through: what was prepared, the bundle of proofs,
/// and what the demo chain made of it.
#[derive(Clone, Debug)]
pub struct WalletSubmission {
    pub prepared: PreparedWalletSubmission,
    pub bundle: PaymentBundleProof,
    pub settled: WalletSettlement,
}

/// Submits a wallet payment end to end: prepares the transaction and
/// witnesses, proves the bundle, checks it against the transaction, and
/// settles it on the demo chain. It fails where preparing fails, or where
/// the prepared statements do not hold; a bundle that is assembled always
/// settles.
pub fn submit_wallet_payment(request: &WalletSubmissionRequest) -> (r: Result<
    WalletSubmission,
    HushError,
>)
    ensures
        spec_prepare_error(*request) is Some ==> r == Err::<WalletSubmission, HushError>(
            spec_prepare_error(*request)->Some_0,
        ),
        r matches Ok(s) ==> {
            &&& spec_is_prepared(s.prepared, *request)
            &&& spec_assemble_bundle(
                s.prepared.tx,
                s.prepared.payment_witness,
                s.prepared.fee_sidecar_witness,
            ) == Ok::<PaymentBundleProof, HushError>(s.bundle)
            &&& spec_bundle_check(s.prepared.tx, s.bundle) is Ok
            &&& spec_is_settlement(s.settled, s.prepared.tx)
        },
        spec_prepare_error(*request) is None && r is Err ==> exists|p: PreparedWalletSubmission|
            #[trigger] spec_is_prepared(p, *request) && spec_assemble_bundle(
                p.tx,
                p.payment_witness,
                p.fee_sidecar_witness,
            ) == Err::<PaymentBundleProof, HushError>(r->Err_0),
{
    let prepared = prepare_wallet_submission(request)?;
    let bundle = match prove_payment_bundle(
        &prepared.tx,
        &prepared.payment_witness,
        prepared.fee_sidecar_witness.as_ref(),
    ) {
        Ok(b) => b,
        Err(e) => {
            assert(spec_is_prepared(prepared, *request));
            return Err(e);
        },
    };
    validate_payment_bundle(&prepared.tx, &bundle)?;
    let settled = settle_wallet_submission(&prepared.tx, &bundle)?;
    Ok(WalletSubmission { prepared, bundle, settled })
}

} // verus!
