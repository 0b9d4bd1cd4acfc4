//! Payment transactions (v1): fee routes, the canonical builder, the
//! transaction binding hash and the validation rules.

use vstd::prelude::*;

use crate::error::HushError;
use crate::m31::{freduce, m31_from_u32, m31_from_u64};
use crate::merkle::hashout_eq;
use crate::poseidon2::{
    domain_hash4, domain_hash7, hash_pair, spec_sponge, spec_to_hashout, sponge_hash,
    u32_array_to_hashout, DOMAIN_SENDER_BINDING, DOMAIN_TX_BINDING,
};
use crate::types::{HushFeeWitness, PaymentWitness, MERKLE_DEPTH};

verus! {

pub const PAYMENT_TX_V1_VERSION: u32 = 1;
pub const PAYMENT_TX_V1_REPLAY_DOMAIN: u32 = 1;
pub const PAYMENT_FEE_SCHEDULE_STANDARD: u32 = 1;
pub const PAYMENT_FEE_SCHEDULE_BUSY: u32 = 2;
pub const PAYMENT_FEE_SCHEDULE_PEAK: u32 = 3;
pub const PAYMENT_STANDARD_FEE_SCHEDULE_VERSION: u32 = 1;
pub const FEE_CLASS_PAYMENT_STANDARD: u32 = 1;
pub const FEE_AUX_ROUTE_HUSH_SIDECAR: u32 = 1;

pub const TX_KIND_PAYMENT: u32 = 1;
pub const TX_KIND_VALIDATOR_ACTION: u32 = 2;
pub const TX_KIND_ISSUER_ACTION: u32 = 3;
pub const TX_KIND_PROVENANCE_STATE_ACTION: u32 = 4;
pub const TX_KIND_PROTOCOL_ADMIN_ACTION: u32 = 5;

pub const ASSET_USDC: u32 = 1;
pub const ASSET_USDT: u32 = 2;
pub const ASSET_HUSH: u32 = 3;

#[derive(Clone, Copy, Debug, PartialEq, Eq, PartialOrd, Ord)]
pub enum TxKind {
    Payment,
    ValidatorAction,
    IssuerAction,
    ProvenanceStateAction,
    ProtocolAdminAction,
}

/// The wire value of a transaction kind.
pub open spec fn spec_tx_kind_value(k: TxKind) -> u32 {
    match k {
        TxKind::Payment => 1,
        TxKind::ValidatorAction => 2,
        TxKind::IssuerAction => 3,
        TxKind::ProvenanceStateAction => 4,
        TxKind::ProtocolAdminAction => 5,
    }
}

/// The transaction kind with the given wire value, if any.
pub open spec fn spec_tx_kind_from(value: u32) -> Option<TxKind> {
    if value == 1 {
        Some(TxKind::Payment)
    } else if value == 2 {
        Some(TxKind::ValidatorAction)
    } else if value == 3 {
        Some(TxKind::IssuerAction)
    } else if value == 4 {
        Some(TxKind::ProvenanceStateAction)
    } else if value == 5 {
        Some(TxKind::ProtocolAdminAction)
    } else {
        None
    }
}

impl TxKind {
    pub fn as_u32(self) -> (r: u32)
        ensures
            r == spec_tx_kind_value(self),
    {
        match self {
            TxKind::Payment => 1,
            TxKind::ValidatorAction => 2,
            TxKind::IssuerAction => 3,
            TxKind::ProvenanceStateAction => 4,
            TxKind::ProtocolAdminAction => 5,
        }
    }

    pub fn try_from_u32(value: u32) -> (r: Result<Self, HushError>)
        ensures
            r == match spec_tx_kind_from(value) {
                Some(k) => Ok(k),
                None => Err(HushError::UnsupportedTxKind(value)),
            },
    {
        match value {
            1 => Ok(TxKind::Payment),
            2 => Ok(TxKind::ValidatorAction),
            3 => Ok(TxKind::IssuerAction),
            4 => Ok(TxKind::ProvenanceStateAction),
            5 => Ok(TxKind::ProtocolAdminAction),
            _ => Err(HushError::UnsupportedTxKind(value)),
        }
    }
}

#[derive(Clone, Copy, Debug, PartialEq, Eq)]
pub enum AssetId {
    Usdc,
    Usdt,
    Hush,
}

pub open spec fn spec_asset_value(a: AssetId) -> u32 {
    match a {
        AssetId::Usdc => 1,
        AssetId::Usdt => 2,
        AssetId::Hush => 3,
    }
}

pub open spec fn spec_asset_from(value: u32) -> Option<AssetId> {
    if value == 1 {
        Some(AssetId::Usdc)
    } else if value == 2 {
        Some(AssetId::Usdt)
    } else if value == 3 {
        Some(AssetId::Hush)
    } else {
        None
    }
}

impl AssetId {
    pub fn as_u32(self) -> (r: u32)
        ensures
            r == spec_asset_value(self),
    {
        match self {
            AssetId::Usdc => 1,
            AssetId::Usdt => 2,
            AssetId::Hush => 3,
        }
    }

    pub fn try_from_u32(value: u32) -> (r: Result<Self, HushError>)
        ensures
            r == match spec_asset_from(value) {
                Some(a) => Ok(a),
                None => Err(HushError::UnsupportedAssetId(value)),
            },
    {
        match value {
            1 => Ok(AssetId::Usdc),
            2 => Ok(AssetId::Usdt),
            3 => Ok(AssetId::Hush),
            _ => Err(HushError::UnsupportedAssetId(value)),
        }
    }
}

/// How the fee of a payment is paid: in the payment's own asset (Mode A) or
/// in HUSH through a sidecar proof (Mode B).
#[derive(Clone, Copy, Debug, PartialEq, Eq)]
pub enum PaymentRoute {
    SameAsset,
    HushSidecar,
}

pub open spec fn spec_fee_deduction(route: PaymentRoute, fee_amount: u64) -> u64 {
    match route {
        PaymentRoute::SameAsset => fee_amount,
        PaymentRoute::HushSidecar => 0,
    }
}

impl PaymentRoute {
    /// The part of the fee taken from the payment asset itself.
    pub fn payment_fee_deduction(self, fee_amount: u64) -> (r: u64)
        ensures
            r == spec_fee_deduction(self, fee_amount),
    {
        match self {
            PaymentRoute::SameAsset => fee_amount,
            PaymentRoute::HushSidecar => 0,
        }
    }

    pub fn requires_hush_sidecar(self) -> (r: bool)
        ensures
            r == (self == PaymentRoute::HushSidecar),
    {
        match self {
            PaymentRoute::SameAsset => false,
            PaymentRoute::HushSidecar => true,
        }
    }
}

#[derive(Clone, Copy, Debug, PartialEq, Eq)]
pub struct FeeDescriptor {
    pub tx_kind: u32,
    pub payment_asset: u32,
    pub fee_asset: u32,
    pub fee_class: u32,
    pub fee_amount: u64,
    pub fee_schedule_version: u32,
    pub replay_domain: u32,
}

#[derive(Clone, Copy, Debug, PartialEq, Eq)]
pub struct NoteInput {
    pub amount: u64,
    pub randomness: u32,
}

#[derive(Clone, Copy, Debug, PartialEq, Eq)]
pub struct RecipientIntent {
    pub amount: u64,
    pub owner: [u32; 4],
    pub randomness: u32,
}

#[derive(Clone, Copy, Debug, PartialEq, Eq)]
pub struct SenderChangeIntent {
    pub amount: u64,
    pub randomness: u32,
}

#[derive(Clone, Copy, Debug, PartialEq, Eq)]
pub struct FeeAuxProofDescriptor {
    pub route: u32,
}

#[derive(Clone, Copy, Debug, PartialEq, Eq)]
pub struct PaymentExecutionAttachment {
    pub sender_binding_tag: [u32; 4],
    pub fee_aux: Option<FeeAuxProofDescriptor>,
}

#[derive(Clone, Copy, Debug, PartialEq, Eq)]
pub struct PaymentTxV1 {
    pub version: u32,
    pub descriptor: FeeDescriptor,
    pub inputs: [NoteInput; 2],
    pub recipient: RecipientIntent,
    pub sender_change: SenderChangeIntent,
    pub tx_binding_hash: [u32; 4],
    pub attachment: PaymentExecutionAttachment,
}

#[derive(Clone, Copy, Debug)]
pub struct PaymentMerkleContext {
    pub epoch: u32,
    pub note_root: [u32; 4],
    /// Provenance revocation accumulator root (bound into the proof).
    pub accumulator_root: [u32; 4],
    /// Attestation root bound to input note 0. All-zeros = unregulated.
    pub att_root_0: [u32; 4],
    /// Attestation root bound to input note 1. All-zeros = unregulated.
    pub att_root_1: [u32; 4],
    pub note_path_0: [([u32; 4], u32); MERKLE_DEPTH],
    pub note_path_1: [([u32; 4], u32); MERKLE_DEPTH],
}

#[derive(Clone, Copy, Debug)]
pub struct HushFeeMerkleContext {
    pub note_root: [u32; 4],
    pub note_path_0: [([u32; 4], u32); MERKLE_DEPTH],
    pub note_path_1: [([u32; 4], u32); MERKLE_DEPTH],
}

// ---------------------------------------------------------------------------
// Fee routes and the fee schedule.
// ---------------------------------------------------------------------------

/// The fee route of a (payment asset, fee asset) pair: same asset is Mode A,
/// a stablecoin paying its fee in HUSH is Mode B, any other pair is refused.
pub open spec fn spec_payment_route(payment_asset: u32, fee_asset: u32) -> Result<
    PaymentRoute,
    HushError,
> {
    if spec_asset_from(payment_asset) is None {
        Err(HushError::UnsupportedAssetId(payment_asset))
    } else if spec_asset_from(fee_asset) is None {
        Err(HushError::UnsupportedAssetId(fee_asset))
    } else if payment_asset == fee_asset {
        Ok(PaymentRoute::SameAsset)
    } else if fee_asset == ASSET_HUSH {
        Ok(PaymentRoute::HushSidecar)
    } else if payment_asset == ASSET_HUSH {
        Err(HushError::CrossAssetFeeMismatch { payment_asset, fee_asset })
    } else {
        Err(HushError::CrossStablecoinFeeMismatch { payment_asset, fee_asset })
    }
}

pub fn payment_route(payment_asset: u32, fee_asset: u32) -> (r: Result<PaymentRoute, HushError>)
    ensures
        r == spec_payment_route(payment_asset, fee_asset),
{
    let payment = AssetId::try_from_u32(payment_asset)?;
    let fee = AssetId::try_from_u32(fee_asset)?;
    match (payment, fee) {
        (AssetId::Usdc, AssetId::Usdc)
        | (AssetId::Usdt, AssetId::Usdt)
        | (AssetId::Hush, AssetId::Hush) => Ok(PaymentRoute::SameAsset),
        (AssetId::Usdc, AssetId::Hush) | (AssetId::Usdt, AssetId::Hush) => Ok(
            PaymentRoute::HushSidecar,
        ),
        (AssetId::Hush, AssetId::Usdc) | (AssetId::Hush, AssetId::Usdt) => Err(
            HushError::CrossAssetFeeMismatch { payment_asset, fee_asset },
        ),
        (AssetId::Usdc, AssetId::Usdt) | (AssetId::Usdt, AssetId::Usdc) => Err(
            HushError::CrossStablecoinFeeMismatch { payment_asset, fee_asset },
        ),
    }
}

/// The fee-asset policy: payments follow their fee route, every other
/// kind of transaction pays its fee in HUSH only.
pub open spec fn spec_fee_asset_policy(tx_kind: u32, payment_asset: Option<u32>, fee_asset: u32) -> Result<
    (),
    HushError,
> {
    if spec_tx_kind_from(tx_kind) is None {
        Err(HushError::UnsupportedTxKind(tx_kind))
    } else if spec_asset_from(fee_asset) is None {
        Err(HushError::UnsupportedAssetId(fee_asset))
    } else if tx_kind == TX_KIND_PAYMENT {
        match payment_asset {
            None => Err(HushError::PaymentKindRequiresAsset),
            Some(p) => match spec_payment_route(p, fee_asset) {
                Ok(_) => Ok(()),
                Err(e) => Err(e),
            },
        }
    } else if fee_asset != ASSET_HUSH {
        Err(HushError::HushOnlyFeeAsset { tx_kind, fee_asset })
    } else {
        Ok(())
    }
}

pub fn validate_tx_kind_fee_asset_policy(
    tx_kind: u32,
    payment_asset: Option<u32>,
    fee_asset: u32,
) -> (r: Result<(), HushError>)
    ensures
        r == spec_fee_asset_policy(tx_kind, payment_asset, fee_asset),
{
    let kind = TxKind::try_from_u32(tx_kind)?;
    let fee = AssetId::try_from_u32(fee_asset)?;
    match kind {
        TxKind::Payment => {
            match payment_asset {
                None => Err(HushError::PaymentKindRequiresAsset),
                Some(p) => {
                    payment_route(p, fee_asset)?;
                    Ok(())
                },
            }
        },
        _ => match fee {
            AssetId::Hush => Ok(()),
            _ => Err(HushError::HushOnlyFeeAsset { tx_kind, fee_asset }),
        },
    }
}

pub open spec fn spec_is_hush_only_action(tx_kind: u32) -> Result<bool, HushError> {
    if spec_tx_kind_from(tx_kind) is None {
        Err(HushError::UnsupportedTxKind(tx_kind))
    } else {
        Ok(tx_kind != TX_KIND_PAYMENT)
    }
}

/// Whether a transaction kind may only pay its fee in HUSH.
pub fn is_hush_only_action(tx_kind: u32) -> (r: Result<bool, HushError>)
    ensures
        r == spec_is_hush_only_action(tx_kind),
{
    let kind = TxKind::try_from_u32(tx_kind)?;
    Ok(
        match kind {
            TxKind::Payment => false,
            _ => true,
        },
    )
}

/// The fee that schedule `version` sets for a payment: 50, 125 or 300 base
/// units (standard, busy, peak) on either route; independent of the amount.
pub open spec fn spec_schedule_fee(version: u32) -> Option<u64> {
    if version == PAYMENT_FEE_SCHEDULE_STANDARD {
        Some(50)
    } else if version == PAYMENT_FEE_SCHEDULE_BUSY {
        Some(125)
    } else if version == PAYMENT_FEE_SCHEDULE_PEAK {
        Some(300)
    } else {
        None
    }
}

pub open spec fn spec_expected_fee(payment_asset: u32, fee_asset: u32, version: u32) -> Result<
    u64,
    HushError,
> {
    match spec_fee_asset_policy(TX_KIND_PAYMENT, Some(payment_asset), fee_asset) {
        Err(e) => Err(e),
        Ok(_) => match spec_schedule_fee(version) {
            Some(f) => Ok(f),
            None => Err(HushError::UnsupportedFeeScheduleForRoute(version)),
        },
    }
}

pub fn expected_fee_amount(payment_asset: u32, fee_asset: u32, fee_schedule_version: u32) -> (r:
    Result<u64, HushError>)
    ensures
        r == spec_expected_fee(payment_asset, fee_asset, fee_schedule_version),
{
    validate_tx_kind_fee_asset_policy(TX_KIND_PAYMENT, Some(payment_asset), fee_asset)?;
    let _route = payment_route(payment_asset, fee_asset)?;
    match fee_schedule_version {
        1 => Ok(50),
        2 => Ok(125),
        3 => Ok(300),
        _ => Err(HushError::UnsupportedFeeScheduleForRoute(fee_schedule_version)),
    }
}

// ---------------------------------------------------------------------------
// Binding hash and sender tag.
// ---------------------------------------------------------------------------

/// The low half of an amount in the binding hash: its low 31 bits, as a
/// field element as they stand. When those bits are all ones they equal
/// the field's modulus, and the half is 0 instead (the high half then
/// marks the case).
pub open spec fn spec_amount_lo(amount: u64) -> u32 {
    if amount % 2147483648 == 2147483647 {
        0
    } else {
        (amount % 2147483648) as u32
    }
}

/// The high half of an amount in the binding hash: its bits from 31 up,
/// taken as a 32-bit word and reduced into the field; 2^29 is added first
/// when the low 31 bits are all ones.
pub open spec fn spec_amount_hi(amount: u64) -> u32 {
    let h: int = (amount as int / 2147483648) % 4294967296;
    if amount % 2147483648 == 2147483647 {
        freduce(h + 536870912)
    } else {
        freduce(h)
    }
}

/// Below 2^60 the split keeps amounts apart. An amount whose low 31 bits
/// are not all ones splits into those bits and the bits from 31 up, both
/// unreduced; one whose low 31 bits are all ones splits into 0 and the
/// bits from 31 up plus 2^29, a high half no other amount below 2^60 has.
/// Two amounts below 2^60 with the same halves are equal.
pub proof fn lemma_amount_split_injective(a: u64, b: u64)
    requires
        a < 1152921504606846976,
        b < 1152921504606846976,
    ensures
        a % 2147483648 != 2147483647 ==> spec_amount_lo(a) == a % 2147483648 && spec_amount_hi(a)
            == a / 2147483648,
        a % 2147483648 == 2147483647 ==> spec_amount_lo(a) == 0 && spec_amount_hi(a) == a
            / 2147483648 + 536870912,
        spec_amount_lo(a) == spec_amount_lo(b) && spec_amount_hi(a) == spec_amount_hi(b) ==> a == b,
{
    assert(a / 2147483648 < 536870912) by (nonlinear_arith)
        requires
            a < 1152921504606846976,
    ;
    assert(b / 2147483648 < 536870912) by (nonlinear_arith)
        requires
            b < 1152921504606846976,
    ;
    assert(a == (a / 2147483648) * 2147483648 + a % 2147483648) by (nonlinear_arith);
    assert(b == (b / 2147483648) * 2147483648 + b % 2147483648) by (nonlinear_arith);
}

/// The binding hash over a payment's descriptor, recipient and change.
pub open spec fn spec_mode_a_binding_hash(
    replay_domain: u32,
    payment_asset: u32,
    fee_asset: u32,
    fee_class: u32,
    fee_amount: u64,
    fee_schedule_version: u32,
    recipient_amount: u64,
    recipient_owner: Seq<u32>,
    recipient_randomness: u32,
    sender_change_amount: u64,
    sender_change_randomness: u32,
) -> Seq<u32> {
    let chunk_0 = spec_sponge(
        seq![
            freduce(replay_domain as int),
            freduce(TX_KIND_PAYMENT as int),
            freduce(payment_asset as int),
            freduce(fee_asset as int),
        ],
        DOMAIN_TX_BINDING,
    );
    let chunk_1 = spec_sponge(
        seq![
            freduce(fee_class as int),
            spec_amount_lo(fee_amount),
            spec_amount_hi(fee_amount),
            freduce(fee_schedule_version as int),
        ],
        DOMAIN_TX_BINDING,
    );
    let chunk_2 = spec_sponge(
        seq![spec_amount_lo(recipient_amount), spec_amount_hi(recipient_amount)] + spec_to_hashout(
            recipient_owner,
        ) + seq![freduce(recipient_randomness as int)],
        DOMAIN_TX_BINDING,
    );
    let chunk_3 = spec_sponge(
        seq![
            spec_amount_lo(sender_change_amount),
            spec_amount_hi(sender_change_amount),
            freduce(sender_change_randomness as int),
            0,
        ],
        DOMAIN_TX_BINDING,
    );
    let left = spec_sponge(chunk_0 + chunk_1, DOMAIN_TX_BINDING);
    let mid = spec_sponge(left + chunk_2, DOMAIN_TX_BINDING);
    spec_sponge(mid + chunk_3, DOMAIN_TX_BINDING)
}

pub open spec fn spec_tx_binding_hash(tx: PaymentTxV1) -> Seq<u32> {
    spec_mode_a_binding_hash(
        tx.descriptor.replay_domain,
        tx.descriptor.payment_asset,
        tx.descriptor.fee_asset,
        tx.descriptor.fee_class,
        tx.descriptor.fee_amount,
        tx.descriptor.fee_schedule_version,
        tx.recipient.amount,
        tx.recipient.owner@,
        tx.recipient.randomness,
        tx.sender_change.amount,
        tx.sender_change.randomness,
    )
}

/// The tag that binds a spending key to a transaction binding hash.
pub open spec fn spec_sender_binding_tag(sk: u32, tx_binding_hash: Seq<u32>) -> Seq<u32> {
    spec_sponge(seq![freduce(sk as int)] + spec_to_hashout(tx_binding_hash), DOMAIN_SENDER_BINDING)
}

/// Split a u64 amount into two field elements (see `spec_amount_lo` and
/// `spec_amount_hi`).
fn amount_to_m31_pair(amount: u64) -> (r: (u32, u32))
    ensures
        r.0 == spec_amount_lo(amount),
        r.1 == spec_amount_hi(amount),
        r.0 < crate::m31::P,
        r.1 < crate::m31::P,
{
    let lo: u64 = amount % 2147483648;
    let h: u64 = (amount / 2147483648) % 4294967296;
    if lo == 2147483647 {
        (0, m31_from_u64(h + 536870912))
    } else {
        (lo as u32, m31_from_u64(h))
    }
}

pub fn compute_mode_a_tx_binding_hash(
    replay_domain: u32,
    payment_asset: u32,
    fee_asset: u32,
    fee_class: u32,
    fee_amount: u64,
    fee_schedule_version: u32,
    recipient_amount: u64,
    recipient_owner: [u32; 4],
    recipient_randomness: u32,
    sender_change_amount: u64,
    sender_change_randomness: u32,
) -> (r: [u32; 4])
    ensures
        r@ == spec_mode_a_binding_hash(
            replay_domain,
            payment_asset,
            fee_asset,
            fee_class,
            fee_amount,
            fee_schedule_version,
            recipient_amount,
            recipient_owner@,
            recipient_randomness,
            sender_change_amount,
            sender_change_randomness,
        ),
{
    let (fee_lo, fee_hi) = amount_to_m31_pair(fee_amount);
    let (recip_lo, recip_hi) = amount_to_m31_pair(recipient_amount);
    let (change_lo, change_hi) = amount_to_m31_pair(sender_change_amount);
    let owner = u32_array_to_hashout(recipient_owner);
    let chunk_0 = domain_hash4(
        m31_from_u32(replay_domain),
        m31_from_u32(TX_KIND_PAYMENT),
        m31_from_u32(payment_asset),
        m31_from_u32(fee_asset),
        DOMAIN_TX_BINDING,
    );
    let chunk_1 = domain_hash4(
        m31_from_u32(fee_class),
        fee_lo,
        fee_hi,
        m31_from_u32(fee_schedule_version),
        DOMAIN_TX_BINDING,
    );
    let chunk_2 = domain_hash7(
        recip_lo,
        recip_hi,
        owner[0],
        owner[1],
        owner[2],
        owner[3],
        m31_from_u32(recipient_randomness),
        DOMAIN_TX_BINDING,
    );
    assert(seq![recip_lo, recip_hi, owner[0], owner[1], owner[2], owner[3], freduce(
        recipient_randomness as int,
    )] =~= seq![recip_lo, recip_hi] + owner@ + seq![freduce(recipient_randomness as int)]);
    let chunk_3 = domain_hash4(
        change_lo,
        change_hi,
        m31_from_u32(sender_change_randomness),
        0,
        DOMAIN_TX_BINDING,
    );
    let left = hash_pair(chunk_0, chunk_1, DOMAIN_TX_BINDING);
    let mid = hash_pair(left, chunk_2, DOMAIN_TX_BINDING);
    hash_pair(mid, chunk_3, DOMAIN_TX_BINDING)
}

pub fn compute_tx_binding_hash(tx: &PaymentTxV1) -> (r: [u32; 4])
    ensures
        r@ == spec_tx_binding_hash(*tx),
{
    compute_mode_a_tx_binding_hash(
        tx.descriptor.replay_domain,
        tx.descriptor.payment_asset,
        tx.descriptor.fee_asset,
        tx.descriptor.fee_class,
        tx.descriptor.fee_amount,
        tx.descriptor.fee_schedule_version,
        tx.recipient.amount,
        tx.recipient.owner,
        tx.recipient.randomness,
        tx.sender_change.amount,
        tx.sender_change.randomness,
    )
}

pub fn derive_sender_binding_tag(sk: u32, tx_binding_hash: [u32; 4]) -> (r: [u32; 4])
    ensures
        r@ == spec_sender_binding_tag(sk, tx_binding_hash@),
{
    let h = u32_array_to_hashout(tx_binding_hash);
    let v: [u32; 5] = [m31_from_u32(sk), h[0], h[1], h[2], h[3]];
    assert(v@ =~= seq![freduce(sk as int)] + spec_to_hashout(tx_binding_hash@));
    sponge_hash(&v, DOMAIN_SENDER_BINDING)
}

// ---------------------------------------------------------------------------
// Validation.
// ---------------------------------------------------------------------------

/// The fee-aux attachment rule: Mode A carries none, Mode B carries the
/// HUSH sidecar route.
pub open spec fn spec_fee_aux_check(fee_aux: Option<FeeAuxProofDescriptor>, route: PaymentRoute) -> Option<
    HushError,
> {
    match (fee_aux, route) {
        (None, PaymentRoute::SameAsset) => None,
        (Some(aux), PaymentRoute::HushSidecar) => if aux.route != FEE_AUX_ROUTE_HUSH_SIDECAR {
            Some(HushError::UnsupportedFeeAuxRoute(aux.route))
        } else {
            None
        },
        (None, PaymentRoute::HushSidecar) => Some(HushError::MissingHushSidecarAttachment),
        (Some(_), PaymentRoute::SameAsset) => Some(HushError::SidecarAttachmentDisallowed),
    }
}

/// The outcome of validating a transaction: its fee route, or the first
/// rule it breaks, in this order: version, kind, fee-asset policy, fee
/// class, schedule, replay domain, fee amount, fee attachment, value
/// conservation (recipient + fee deduction + change = inputs), binding hash.
pub open spec fn spec_validate_payment_tx(tx: PaymentTxV1) -> Result<PaymentRoute, HushError> {
    let d = tx.descriptor;
    if tx.version != PAYMENT_TX_V1_VERSION {
        Err(HushError::UnsupportedTxVersion(tx.version))
    } else if d.tx_kind != TX_KIND_PAYMENT {
        Err(HushError::UnsupportedTxKind(d.tx_kind))
    } else if spec_fee_asset_policy(d.tx_kind, Some(d.payment_asset), d.fee_asset) is Err {
        Err(spec_fee_asset_policy(d.tx_kind, Some(d.payment_asset), d.fee_asset)->Err_0)
    } else if d.fee_class != FEE_CLASS_PAYMENT_STANDARD {
        Err(HushError::UnsupportedFeeClass(d.fee_class))
    } else if spec_schedule_fee(d.fee_schedule_version) is None {
        Err(HushError::UnsupportedFeeScheduleVersion(d.fee_schedule_version))
    } else if d.replay_domain != PAYMENT_TX_V1_REPLAY_DOMAIN {
        Err(HushError::InvalidReplayDomain(d.replay_domain))
    } else {
        let route = spec_payment_route(d.payment_asset, d.fee_asset)->Ok_0;
        let expected_fee = spec_schedule_fee(d.fee_schedule_version)->Some_0;
        let total_in = tx.inputs[0].amount + tx.inputs[1].amount;
        let deduction = spec_fee_deduction(route, d.fee_amount);
        if d.fee_amount != expected_fee {
            Err(HushError::FeeAmountMismatch { got: d.fee_amount, expected: expected_fee })
        } else if spec_fee_aux_check(tx.attachment.fee_aux, route) is Some {
            Err(spec_fee_aux_check(tx.attachment.fee_aux, route)->Some_0)
        } else if total_in > u64::MAX {
            Err(HushError::InputAmountOverflow)
        } else if total_in < tx.recipient.amount + deduction {
            Err(HushError::InsufficientInputAfterFee)
        } else if tx.sender_change.amount != total_in - tx.recipient.amount - deduction {
            Err(
                HushError::SenderChangeMismatch {
                    got: tx.sender_change.amount,
                    expected: (total_in - tx.recipient.amount - deduction) as u64,
                },
            )
        } else if tx.tx_binding_hash@ != spec_tx_binding_hash(tx) {
            Err(
                HushError::TxBindingHashMismatch {
                    got: tx.tx_binding_hash,
                    expected: spec_hash_array(spec_tx_binding_hash(tx)),
                },
            )
        } else {
            Ok(route)
        }
    }
}

/// The four-entry array whose entries are `s`.
pub open spec fn spec_hash_array(s: Seq<u32>) -> [u32; 4] {
    choose|a: [u32; 4]| a@ == s
}

pub proof fn lemma_hash_array(a: [u32; 4])
    ensures
        spec_hash_array(a@) == a,
{
    let c = spec_hash_array(a@);
    assert(c@ == a@);
    assert(c =~= a) by {
        assert forall|i: int| 0 <= i < 4 implies c[i] == a[i] by {
            assert(c@[i] == a@[i]);
        }
    }
}

pub fn validate_payment_tx(tx: &PaymentTxV1) -> (r: Result<PaymentRoute, HushError>)
    ensures
        r == spec_validate_payment_tx(*tx),
{
    if tx.version != PAYMENT_TX_V1_VERSION {
        return Err(HushError::UnsupportedTxVersion(tx.version));
    }
    if tx.descriptor.tx_kind != TX_KIND_PAYMENT {
        return Err(HushError::UnsupportedTxKind(tx.descriptor.tx_kind));
    }
    validate_tx_kind_fee_asset_policy(
        tx.descriptor.tx_kind,
        Some(tx.descriptor.payment_asset),
        tx.descriptor.fee_asset,
    )?;
    if tx.descriptor.fee_class != FEE_CLASS_PAYMENT_STANDARD {
        return Err(HushError::UnsupportedFeeClass(tx.descriptor.fee_class));
    }
    let v = tx.descriptor.fee_schedule_version;
    if !(v == PAYMENT_FEE_SCHEDULE_STANDARD || v == PAYMENT_FEE_SCHEDULE_BUSY || v
        == PAYMENT_FEE_SCHEDULE_PEAK) {
        return Err(HushError::UnsupportedFeeScheduleVersion(v));
    }
    if tx.descriptor.replay_domain != PAYMENT_TX_V1_REPLAY_DOMAIN {
        return Err(HushError::InvalidReplayDomain(tx.descriptor.replay_domain));
    }
    let route = payment_route(tx.descriptor.payment_asset, tx.descriptor.fee_asset)?;
    let expected_fee = expected_fee_amount(
        tx.descriptor.payment_asset,
        tx.descriptor.fee_asset,
        tx.descriptor.fee_schedule_version,
    )?;
    if tx.descriptor.fee_amount != expected_fee {
        return Err(
            HushError::FeeAmountMismatch { got: tx.descriptor.fee_amount, expected: expected_fee },
        );
    }
    match (tx.attachment.fee_aux, route) {
        (None, PaymentRoute::SameAsset) => {},
        (Some(fee_aux), PaymentRoute::HushSidecar) => {
            if fee_aux.route != FEE_AUX_ROUTE_HUSH_SIDECAR {
                return Err(HushError::UnsupportedFeeAuxRoute(fee_aux.route));
            }
        },
        (None, PaymentRoute::HushSidecar) => {
            return Err(HushError::MissingHushSidecarAttachment);
        },
        (Some(_), PaymentRoute::SameAsset) => {
            return Err(HushError::SidecarAttachmentDisallowed);
        },
    }
    let total_in = tx.total_input_amount()?;
    let deduction = route.payment_fee_deduction(tx.descriptor.fee_amount);
    if total_in < tx.recipient.amount || total_in - tx.recipient.amount < deduction {
        return Err(HushError::InsufficientInputAfterFee);
    }
    let expected_change = total_in - tx.recipient.amount - deduction;
    if tx.sender_change.amount != expected_change {
        return Err(
            HushError::SenderChangeMismatch { got: tx.sender_change.amount, expected: expected_change },
        );
    }
    let expected_binding_hash = compute_tx_binding_hash(tx);
    if !hashout_eq(&tx.tx_binding_hash, &expected_binding_hash) {
        proof {
            lemma_hash_array(expected_binding_hash);
        }
        return Err(
            HushError::TxBindingHashMismatch {
                got: tx.tx_binding_hash,
                expected: expected_binding_hash,
            },
        );
    }
    Ok(route)
}

// ---------------------------------------------------------------------------
// The canonical builder and the witnesses.
// ---------------------------------------------------------------------------

/// The asset the fee is paid in on a route.
pub open spec fn spec_route_fee_asset(route: PaymentRoute, payment_asset: AssetId) -> AssetId {
    match route {
        PaymentRoute::SameAsset => payment_asset,
        PaymentRoute::HushSidecar => AssetId::Hush,
    }
}

/// What the builder decides: the fee, or why no transaction can be built
/// (fee lookup, input overflow, output overflow, insufficient inputs).
pub open spec fn spec_build_outcome(
    route: PaymentRoute,
    payment_asset: AssetId,
    inputs: [NoteInput; 2],
    recipient: RecipientIntent,
    fee_schedule_version: u32,
) -> Result<u64, HushError> {
    let fee_asset = spec_route_fee_asset(route, payment_asset);
    match spec_expected_fee(
        spec_asset_value(payment_asset),
        spec_asset_value(fee_asset),
        fee_schedule_version,
    ) {
        Err(e) => Err(e),
        Ok(fee) => {
            let total_in = inputs[0].amount + inputs[1].amount;
            let deduction = spec_fee_deduction(route, fee);
            if total_in > u64::MAX {
                Err(HushError::InputAmountOverflow)
            } else if recipient.amount + deduction > u64::MAX {
                Err(HushError::OutputAmountOverflow)
            } else if total_in < recipient.amount + deduction {
                Err(
                    HushError::InsufficientInputValue {
                        total_in: total_in as u64,
                        recipient: recipient.amount,
                        payment_fee: deduction,
                    },
                )
            } else {
                Ok(fee)
            }
        },
    }
}

/// `tx` is the canonical transaction for these intents: the standard
/// descriptor for the route, the change that balances inputs against the
/// recipient and the fee deduction, the binding hash over its contents and
/// the sender tag of `sk` over that hash.
pub open spec fn spec_is_built_tx(
    tx: PaymentTxV1,
    route: PaymentRoute,
    payment_asset: AssetId,
    inputs: [NoteInput; 2],
    recipient: RecipientIntent,
    sender_change_randomness: u32,
    sk: u32,
    fee_schedule_version: u32,
    fee: u64,
) -> bool {
    let deduction = spec_fee_deduction(route, fee);
    &&& tx.version == PAYMENT_TX_V1_VERSION
    &&& tx.descriptor == FeeDescriptor {
        tx_kind: TX_KIND_PAYMENT,
        payment_asset: spec_asset_value(payment_asset),
        fee_asset: spec_asset_value(spec_route_fee_asset(route, payment_asset)),
        fee_class: FEE_CLASS_PAYMENT_STANDARD,
        fee_amount: fee,
        fee_schedule_version,
        replay_domain: PAYMENT_TX_V1_REPLAY_DOMAIN,
    }
    &&& tx.inputs == inputs
    &&& tx.recipient == recipient
    &&& tx.sender_change == SenderChangeIntent {
        amount: (inputs[0].amount + inputs[1].amount - recipient.amount - deduction) as u64,
        randomness: sender_change_randomness,
    }
    &&& tx.tx_binding_hash@ == spec_tx_binding_hash(tx)
    &&& tx.attachment.sender_binding_tag@ == spec_sender_binding_tag(sk, tx.tx_binding_hash@)
    &&& tx.attachment.fee_aux == (if route == PaymentRoute::HushSidecar {
        Some(FeeAuxProofDescriptor { route: FEE_AUX_ROUTE_HUSH_SIDECAR })
    } else {
        None
    })
}

/// Why a witness cannot be built from a transaction and a key, if it cannot:
/// the transaction is invalid, or the key's tag is not the attached one.
pub open spec fn spec_witness_error(tx: PaymentTxV1, sk: u32) -> Option<HushError> {
    match spec_validate_payment_tx(tx) {
        Err(e) => Some(e),
        Ok(_) => if tx.attachment.sender_binding_tag@ != spec_sender_binding_tag(
            sk,
            tx.tx_binding_hash@,
        ) {
            Some(
                HushError::SenderBindingTagMismatch {
                    got: tx.attachment.sender_binding_tag,
                    expected: spec_hash_array(spec_sender_binding_tag(sk, tx.tx_binding_hash@)),
                },
            )
        } else {
            None
        },
    }
}

/// The payment witness for a valid transaction, its key and the note tree.
pub open spec fn spec_is_payment_witness(
    w: PaymentWitness,
    tx: PaymentTxV1,
    sk: u32,
    context: PaymentMerkleContext,
) -> bool {
    let route = spec_validate_payment_tx(tx)->Ok_0;
    &&& w.epoch == context.epoch
    &&& w.note_root == context.note_root
    &&& w.sk == sk
    &&& w.in_asset == tx.descriptor.payment_asset
    &&& w.in_amt_0 == tx.inputs[0].amount
    &&& w.in_rand_0 == tx.inputs[0].randomness
    &&& w.in_amt_1 == tx.inputs[1].amount
    &&& w.in_rand_1 == tx.inputs[1].randomness
    &&& w.out_amt_0 == tx.recipient.amount
    &&& w.out_owner_0 == tx.recipient.owner
    &&& w.out_rand_0 == tx.recipient.randomness
    &&& w.out_amt_1 == tx.sender_change.amount
    &&& w.out_rand_1 == tx.sender_change.randomness
    &&& w.payment_fee_amount == spec_fee_deduction(route, tx.descriptor.fee_amount)
    &&& w.binding_fee_asset == tx.descriptor.fee_asset
    &&& w.fee_amount == tx.descriptor.fee_amount
    &&& w.fee_class == tx.descriptor.fee_class
    &&& w.fee_schedule_version == tx.descriptor.fee_schedule_version
    &&& w.replay_domain == tx.descriptor.replay_domain
    &&& w.tx_binding_hash == tx.tx_binding_hash
    &&& w.sender_binding_tag == tx.attachment.sender_binding_tag
    &&& w.att_root_0 == context.att_root_0
    &&& w.att_root_1 == context.att_root_1
    &&& w.pub_accumulator_root == context.accumulator_root
    &&& w.note_path_0 == context.note_path_0
    &&& w.note_path_1 == context.note_path_1
}

/// Why a HUSH fee witness cannot be built, if it cannot: the transaction's
/// own checks, Mode A, HUSH input overflow, inputs below the fee, or a
/// change that is not inputs minus fee.
pub open spec fn spec_hush_fee_witness_error(
    tx: PaymentTxV1,
    sk: u32,
    inputs: [NoteInput; 2],
    change: SenderChangeIntent,
) -> Option<HushError> {
    let total_in = inputs[0].amount + inputs[1].amount;
    match spec_validate_payment_tx(tx) {
        Err(e) => Some(e),
        Ok(route) => if route != PaymentRoute::HushSidecar {
            Some(HushError::HushSidecarRequiresModeB)
        } else if tx.attachment.sender_binding_tag@ != spec_sender_binding_tag(
            sk,
            tx.tx_binding_hash@,
        ) {
            Some(
                HushError::SenderBindingTagMismatch {
                    got: tx.attachment.sender_binding_tag,
                    expected: spec_hash_array(spec_sender_binding_tag(sk, tx.tx_binding_hash@)),
                },
            )
        } else if total_in > u64::MAX {
            Some(HushError::HushSidecarInputOverflow)
        } else if total_in < tx.descriptor.fee_amount {
            Some(HushError::InsufficientHushFeeCoverage)
        } else if change.amount != total_in - tx.descriptor.fee_amount {
            Some(
                HushError::InvalidHushChange {
                    got: change.amount,
                    expected: (total_in - tx.descriptor.fee_amount) as u64,
                },
            )
        } else {
            None
        },
    }
}

impl PaymentTxV1 {
    /// Mode A (fee in the payment asset) on the standard schedule.
    pub fn build_same_asset(
        payment_asset: AssetId,
        inputs: [NoteInput; 2],
        recipient: RecipientIntent,
        sender_change_randomness: u32,
        sk: u32,
    ) -> (r: Result<Self, HushError>)
        ensures
            match r {
                Ok(tx) => {
                    &&& spec_build_outcome(
                        PaymentRoute::SameAsset,
                        payment_asset,
                        inputs,
                        recipient,
                        PAYMENT_FEE_SCHEDULE_STANDARD,
                    ) is Ok
                    &&& spec_is_built_tx(
                        tx,
                        PaymentRoute::SameAsset,
                        payment_asset,
                        inputs,
                        recipient,
                        sender_change_randomness,
                        sk,
                        PAYMENT_FEE_SCHEDULE_STANDARD,
                        spec_build_outcome(
                            PaymentRoute::SameAsset,
                            payment_asset,
                            inputs,
                            recipient,
                            PAYMENT_FEE_SCHEDULE_STANDARD,
                        )->Ok_0,
                    )
                },
                Err(e) => spec_build_outcome(
                    PaymentRoute::SameAsset,
                    payment_asset,
                    inputs,
                    recipient,
                    PAYMENT_FEE_SCHEDULE_STANDARD,
                ) == Err::<u64, HushError>(e),
            },
    {
        Self::build_for_route(
            PaymentRoute::SameAsset,
            payment_asset,
            inputs,
            recipient,
            sender_change_randomness,
            sk,
            PAYMENT_FEE_SCHEDULE_STANDARD,
        )
    }

    /// Mode A (fee in the payment asset) on the given schedule.
    pub fn build_same_asset_with_schedule(
        payment_asset: AssetId,
        inputs: [NoteInput; 2],
        recipient: RecipientIntent,
        sender_change_randomness: u32,
        sk: u32,
        fee_schedule_version: u32,
    ) -> (r: Result<Self, HushError>)
        ensures
            match r {
                Ok(tx) => {
                    &&& spec_build_outcome(
                        PaymentRoute::SameAsset,
                        payment_asset,
                        inputs,
                        recipient,
                        fee_schedule_version,
                    ) is Ok
                    &&& spec_is_built_tx(
                        tx,
                        PaymentRoute::SameAsset,
                        payment_asset,
                        inputs,
                        recipient,
                        sender_change_randomness,
                        sk,
                        fee_schedule_version,
                        spec_build_outcome(
                            PaymentRoute::SameAsset,
                            payment_asset,
                            inputs,
                            recipient,
                            fee_schedule_version,
                        )->Ok_0,
                    )
                },
                Err(e) => spec_build_outcome(
                    PaymentRoute::SameAsset,
                    payment_asset,
                    inputs,
                    recipient,
                    fee_schedule_version,
                ) == Err::<u64, HushError>(e),
            },
    {
        Self::build_for_route(
            PaymentRoute::SameAsset,
            payment_asset,
            inputs,
            recipient,
            sender_change_randomness,
            sk,
            fee_schedule_version,
        )
    }

    /// Mode B (fee in HUSH through the sidecar) on the standard schedule.
    pub fn build_with_hush_fee(
        payment_asset: AssetId,
        inputs: [NoteInput; 2],
        recipient: RecipientIntent,
        sender_change_randomness: u32,
        sk: u32,
    ) -> (r: Result<Self, HushError>)
        ensures
            match r {
                Ok(tx) => {
                    &&& spec_build_outcome(
                        PaymentRoute::HushSidecar,
                        payment_asset,
                        inputs,
                        recipient,
                        PAYMENT_FEE_SCHEDULE_STANDARD,
                    ) is Ok
                    &&& spec_is_built_tx(
                        tx,
                        PaymentRoute::HushSidecar,
                        payment_asset,
                        inputs,
                        recipient,
                        sender_change_randomness,
                        sk,
                        PAYMENT_FEE_SCHEDULE_STANDARD,
                        spec_build_outcome(
                            PaymentRoute::HushSidecar,
                            payment_asset,
                            inputs,
                            recipient,
                            PAYMENT_FEE_SCHEDULE_STANDARD,
                        )->Ok_0,
                    )
                },
                Err(e) => spec_build_outcome(
                    PaymentRoute::HushSidecar,
                    payment_asset,
                    inputs,
                    recipient,
                    PAYMENT_FEE_SCHEDULE_STANDARD,
                ) == Err::<u64, HushError>(e),
            },
    {
        Self::build_for_route(
            PaymentRoute::HushSidecar,
            payment_asset,
            inputs,
            recipient,
            sender_change_randomness,
            sk,
            PAYMENT_FEE_SCHEDULE_STANDARD,
        )
    }

    /// Mode B (fee in HUSH through the sidecar) on the given schedule.
    pub fn build_with_hush_fee_with_schedule(
        payment_asset: AssetId,
        inputs: [NoteInput; 2],
        recipient: RecipientIntent,
        sender_change_randomness: u32,
        sk: u32,
        fee_schedule_version: u32,
    ) -> (r: Result<Self, HushError>)
        ensures
            match r {
                Ok(tx) => {
                    &&& spec_build_outcome(
                        PaymentRoute::HushSidecar,
                        payment_asset,
                        inputs,
                        recipient,
                        fee_schedule_version,
                    ) is Ok
                    &&& spec_is_built_tx(
                        tx,
                        PaymentRoute::HushSidecar,
                        payment_asset,
                        inputs,
                        recipient,
                        sender_change_randomness,
                        sk,
                        fee_schedule_version,
                        spec_build_outcome(
                            PaymentRoute::HushSidecar,
                            payment_asset,
                            inputs,
                            recipient,
                            fee_schedule_version,
                        )->Ok_0,
                    )
                },
                Err(e) => spec_build_outcome(
                    PaymentRoute::HushSidecar,
                    payment_asset,
                    inputs,
                    recipient,
                    fee_schedule_version,
                ) == Err::<u64, HushError>(e),
            },
    {
        Self::build_for_route(
            PaymentRoute::HushSidecar,
            payment_asset,
            inputs,
            recipient,
            sender_change_randomness,
            sk,
            fee_schedule_version,
        )
    }

    fn build_for_route(
        route: PaymentRoute,
        payment_asset: AssetId,
        inputs: [NoteInput; 2],
        recipient: RecipientIntent,
        sender_change_randomness: u32,
        sk: u32,
        fee_schedule_version: u32,
    ) -> (r: Result<Self, HushError>)
        ensures
            match r {
                Ok(tx) => {
                    &&& spec_build_outcome(
                        route,
                        payment_asset,
                        inputs,
                        recipient,
                        fee_schedule_version,
                    ) is Ok
                    &&& spec_is_built_tx(
                        tx,
                        route,
                        payment_asset,
                        inputs,
                        recipient,
                        sender_change_randomness,
                        sk,
                        fee_schedule_version,
                        spec_build_outcome(
                            route,
                            payment_asset,
                            inputs,
                            recipient,
                            fee_schedule_version,
                        )->Ok_0,
                    )
                },
                Err(e) => spec_build_outcome(
                    route,
                    payment_asset,
                    inputs,
                    recipient,
                    fee_schedule_version,
                ) == Err::<u64, HushError>(e),
            },
    {
        let fee_asset = match route {
            PaymentRoute::SameAsset => payment_asset,
            PaymentRoute::HushSidecar => AssetId::Hush,
        };
        let fee_amount = expected_fee_amount(
            payment_asset.as_u32(),
            fee_asset.as_u32(),
            fee_schedule_version,
        )?;
        let total_in = match inputs[0].amount.checked_add(inputs[1].amount) {
            Some(t) => t,
            None => {
                return Err(HushError::InputAmountOverflow);
            },
        };
        let payment_fee_deduction = route.payment_fee_deduction(fee_amount);
        let total_out = match recipient.amount.checked_add(payment_fee_deduction) {
            Some(t) => t,
            None => {
                return Err(HushError::OutputAmountOverflow);
            },
        };
        if total_in < total_out {
            return Err(
                HushError::InsufficientInputValue {
                    total_in,
                    recipient: recipient.amount,
                    payment_fee: payment_fee_deduction,
                },
            );
        }
        let descriptor = FeeDescriptor {
            tx_kind: TX_KIND_PAYMENT,
            payment_asset: payment_asset.as_u32(),
            fee_asset: fee_asset.as_u32(),
            fee_class: FEE_CLASS_PAYMENT_STANDARD,
            fee_amount,
            fee_schedule_version,
            replay_domain: PAYMENT_TX_V1_REPLAY_DOMAIN,
        };
        let sender_change = SenderChangeIntent {
            amount: total_in - recipient.amount - payment_fee_deduction,
            randomness: sender_change_randomness,
        };
        let fee_aux = if route.requires_hush_sidecar() {
            Some(FeeAuxProofDescriptor { route: FEE_AUX_ROUTE_HUSH_SIDECAR })
        } else {
            None
        };
        let mut tx = PaymentTxV1 {
            version: PAYMENT_TX_V1_VERSION,
            descriptor,
            inputs,
            recipient,
            sender_change,
            tx_binding_hash: [0; 4],
            attachment: PaymentExecutionAttachment { sender_binding_tag: [0; 4], fee_aux },
        };
        tx.tx_binding_hash = compute_tx_binding_hash(&tx);
        tx.attachment.sender_binding_tag = derive_sender_binding_tag(sk, tx.tx_binding_hash);
        Ok(tx)
    }

    pub fn total_input_amount(&self) -> (r: Result<u64, HushError>)
        ensures
            r == (if self.inputs[0].amount + self.inputs[1].amount > u64::MAX {
                Err(HushError::InputAmountOverflow)
            } else {
                Ok((self.inputs[0].amount + self.inputs[1].amount) as u64)
            }),
    {
        match self.inputs[0].amount.checked_add(self.inputs[1].amount) {
            Some(t) => Ok(t),
            None => Err(HushError::InputAmountOverflow),
        }
    }

    pub fn route(&self) -> (r: Result<PaymentRoute, HushError>)
        ensures
            r == spec_payment_route(self.descriptor.payment_asset, self.descriptor.fee_asset),
    {
        payment_route(self.descriptor.payment_asset, self.descriptor.fee_asset)
    }

    /// The payment circuit's witness for this transaction, if it is valid
    /// and `sk` is the key it was tagged with.
    pub fn build_witness(&self, sk: u32, context: &PaymentMerkleContext) -> (r: Result<
        PaymentWitness,
        HushError,
    >)
        ensures
            match r {
                Ok(w) => spec_witness_error(*self, sk) is None && spec_is_payment_witness(
                    w,
                    *self,
                    sk,
                    *context,
                ),
                Err(e) => spec_witness_error(*self, sk) == Some(e),
            },
    {
        let route = validate_payment_tx(self)?;
        let expected = derive_sender_binding_tag(sk, self.tx_binding_hash);
        if !hashout_eq(&self.attachment.sender_binding_tag, &expected) {
            proof {
                lemma_hash_array(expected);
            }
            return Err(
                HushError::SenderBindingTagMismatch {
                    got: self.attachment.sender_binding_tag,
                    expected,
                },
            );
        }
        Ok(
            PaymentWitness {
                epoch: context.epoch,
                note_root: context.note_root,
                sk,
                in_asset: self.descriptor.payment_asset,
                in_amt_0: self.inputs[0].amount,
                in_rand_0: self.inputs[0].randomness,
                in_amt_1: self.inputs[1].amount,
                in_rand_1: self.inputs[1].randomness,
                out_amt_0: self.recipient.amount,
                out_owner_0: self.recipient.owner,
                out_rand_0: self.recipient.randomness,
                out_amt_1: self.sender_change.amount,
                out_rand_1: self.sender_change.randomness,
                payment_fee_amount: route.payment_fee_deduction(self.descriptor.fee_amount),
                binding_fee_asset: self.descriptor.fee_asset,
                fee_amount: self.descriptor.fee_amount,
                fee_class: self.descriptor.fee_class,
                fee_schedule_version: self.descriptor.fee_schedule_version,
                replay_domain: self.descriptor.replay_domain,
                tx_binding_hash: self.tx_binding_hash,
                sender_binding_tag: self.attachment.sender_binding_tag,
                att_root_0: context.att_root_0,
                att_root_1: context.att_root_1,
                pub_accumulator_root: context.accumulator_root,
                note_path_0: context.note_path_0,
                note_path_1: context.note_path_1,
            },
        )
    }

    /// The HUSH fee sidecar's witness for this Mode B transaction, if the
    /// HUSH inputs cover the fee and `change` returns exactly the rest.
    pub fn build_hush_fee_witness(
        &self,
        sk: u32,
        inputs: [NoteInput; 2],
        change: SenderChangeIntent,
        context: &HushFeeMerkleContext,
    ) -> (r: Result<HushFeeWitness, HushError>)
        ensures
            match r {
                Ok(w) => {
                    &&& spec_hush_fee_witness_error(*self, sk, inputs, change) is None
                    &&& w == HushFeeWitness {
                        note_root: context.note_root,
                        sk,
                        in_amt_0: inputs[0].amount,
                        in_rand_0: inputs[0].randomness,
                        in_amt_1: inputs[1].amount,
                        in_rand_1: inputs[1].randomness,
                        change_amt: change.amount,
                        change_rand: change.randomness,
                        fee_amount: self.descriptor.fee_amount,
                        tx_binding_hash: self.tx_binding_hash,
                        sender_binding_tag: self.attachment.sender_binding_tag,
                        note_path_0: context.note_path_0,
                        note_path_1: context.note_path_1,
                    }
                },
                Err(e) => spec_hush_fee_witness_error(*self, sk, inputs, change) == Some(e),
            },
    {
        let route = validate_payment_tx(self)?;
        if let PaymentRoute::SameAsset = route {
            return Err(HushError::HushSidecarRequiresModeB);
        }
        let expected = derive_sender_binding_tag(sk, self.tx_binding_hash);
        if !hashout_eq(&self.attachment.sender_binding_tag, &expected) {
            proof {
                lemma_hash_array(expected);
            }
            return Err(
                HushError::SenderBindingTagMismatch {
                    got: self.attachment.sender_binding_tag,
                    expected,
                },
            );
        }
        let total_in = match inputs[0].amount.checked_add(inputs[1].amount) {
            Some(t) => t,
            None => {
                return Err(HushError::HushSidecarInputOverflow);
            },
        };
        if total_in < self.descriptor.fee_amount {
            return Err(HushError::InsufficientHushFeeCoverage);
        }
        let expected_change = total_in - self.descriptor.fee_amount;
        if change.amount != expected_change {
            return Err(HushError::InvalidHushChange { got: change.amount, expected: expected_change });
        }
        Ok(
            HushFeeWitness {
                note_root: context.note_root,
                sk,
                in_amt_0: inputs[0].amount,
                in_rand_0: inputs[0].randomness,
                in_amt_1: inputs[1].amount,
                in_rand_1: inputs[1].randomness,
                change_amt: change.amount,
                change_rand: change.randomness,
                fee_amount: self.descriptor.fee_amount,
                tx_binding_hash: self.tx_binding_hash,
                sender_binding_tag: self.attachment.sender_binding_tag,
                note_path_0: context.note_path_0,
                note_path_1: context.note_path_1,
            },
        )
    }
}

/// Every transaction the builder makes validates, on its own route, except
/// a HUSH payment built for Mode B: its fee asset is its payment asset, so
/// it validates as Mode A and its sidecar attachment is refused.
pub proof fn lemma_built_tx_validates(
    tx: PaymentTxV1,
    route: PaymentRoute,
    payment_asset: AssetId,
    inputs: [NoteInput; 2],
    recipient: RecipientIntent,
    sender_change_randomness: u32,
    sk: u32,
    fee_schedule_version: u32,
)
    requires
        spec_build_outcome(route, payment_asset, inputs, recipient, fee_schedule_version) is Ok,
        spec_is_built_tx(
            tx,
            route,
            payment_asset,
            inputs,
            recipient,
            sender_change_randomness,
            sk,
            fee_schedule_version,
            spec_build_outcome(route, payment_asset, inputs, recipient, fee_schedule_version)->Ok_0,
        ),
        !(route == PaymentRoute::HushSidecar && payment_asset == AssetId::Hush),
    ensures
        spec_validate_payment_tx(tx) == Ok::<PaymentRoute, HushError>(route),
{
}

} // verus!
