//! Fee accounting: per-block fee buckets and transaction counts built from
//! accepted transactions, and per-epoch fee pools shared out to validators
//! by stake and participation as claimable payouts.

use std::collections::{BTreeMap, BTreeSet};

use vstd::prelude::*;

use crate::error::HushError;
use crate::payment_tx::{
    spec_asset_from, spec_asset_value, spec_fee_asset_policy, spec_tx_kind_from,
    spec_tx_kind_value, validate_tx_kind_fee_asset_policy, AssetId, PaymentTxV1, TxKind,
    PAYMENT_STANDARD_FEE_SCHEDULE_VERSION, PAYMENT_TX_V1_REPLAY_DOMAIN,
};
use crate::payment_validation::{spec_bundle_check, validate_payment_bundle, PaymentBundleProof};
use crate::accounting_laws::{
    lemma_apply_block_keeps_reconciled, lemma_new_epoch_reconciled, lemma_reconciled_epoch_closes,
    spec_reconciled,
};

verus! {

broadcast use vstd::std_specs::btree::group_btree_axioms, vstd::laws_cmp::group_laws_cmp;

/// Basis-point denominator of penalties.
pub const BPS_DENOMINATOR: u64 = 10_000;

/// One amount per fee asset.
#[derive(Clone, Copy, Debug, PartialEq, Eq, Structural)]
pub struct AssetFeeBuckets {
    pub hush: u64,
    pub usdc: u64,
    pub usdt: u64,
}

impl Default for AssetFeeBuckets {
    fn default() -> (r: Self)
        ensures
            r == (AssetFeeBuckets { hush: 0, usdc: 0, usdt: 0 }),
    {
        AssetFeeBuckets { hush: 0, usdc: 0, usdt: 0 }
    }
}

/// The bucket of `asset`.
pub open spec fn spec_bucket(b: AssetFeeBuckets, asset: AssetId) -> u64 {
    match asset {
        AssetId::Hush => b.hush,
        AssetId::Usdc => b.usdc,
        AssetId::Usdt => b.usdt,
    }
}

/// `b` with the bucket of `asset` set to `v`.
pub open spec fn spec_set_bucket(b: AssetFeeBuckets, asset: AssetId, v: u64) -> AssetFeeBuckets {
    match asset {
        AssetId::Hush => AssetFeeBuckets { hush: v, ..b },
        AssetId::Usdc => AssetFeeBuckets { usdc: v, ..b },
        AssetId::Usdt => AssetFeeBuckets { usdt: v, ..b },
    }
}

/// Adding `amount` to the bucket of `asset`: the new buckets, or the
/// overflow (buckets unchanged).
pub open spec fn spec_bucket_add(b: AssetFeeBuckets, asset: AssetId, amount: u64) -> Result<
    AssetFeeBuckets,
    HushError,
> {
    if spec_bucket(b, asset) + amount > u64::MAX {
        Err(HushError::FeeBucketOverflow(spec_asset_value(asset)))
    } else {
        Ok(spec_set_bucket(b, asset, (spec_bucket(b, asset) + amount) as u64))
    }
}

/// Adding `other` bucket by bucket (HUSH, then USDC, then USDT): the
/// buckets after the additions that fit, and the first overflow if any.
pub open spec fn spec_add_buckets(a: AssetFeeBuckets, other: AssetFeeBuckets) -> (
    AssetFeeBuckets,
    Result<(), HushError>,
) {
    if a.hush + other.hush > u64::MAX {
        (a, Err(HushError::EpochFeePoolOverflow(3)))
    } else if a.usdc + other.usdc > u64::MAX {
        (
            AssetFeeBuckets { hush: (a.hush + other.hush) as u64, ..a },
            Err(HushError::EpochFeePoolOverflow(1)),
        )
    } else if a.usdt + other.usdt > u64::MAX {
        (
            AssetFeeBuckets {
                hush: (a.hush + other.hush) as u64,
                usdc: (a.usdc + other.usdc) as u64,
                ..a
            },
            Err(HushError::EpochFeePoolOverflow(2)),
        )
    } else {
        (
            AssetFeeBuckets {
                hush: (a.hush + other.hush) as u64,
                usdc: (a.usdc + other.usdc) as u64,
                usdt: (a.usdt + other.usdt) as u64,
            },
            Ok(()),
        )
    }
}

impl AssetFeeBuckets {
    /// Adds `amount` to the bucket of `asset`; on overflow nothing changes.
    pub fn increment(&mut self, asset: AssetId, amount: u64) -> (r: Result<(), HushError>)
        ensures
            match spec_bucket_add(*old(self), asset, amount) {
                Ok(b) => r is Ok && *final(self) == b,
                Err(e) => r == Err::<(), HushError>(e) && *final(self) == *old(self),
            },
    {
        match asset {
            AssetId::Hush => {
                self.hush = match self.hush.checked_add(amount) {
                    Some(v) => v,
                    None => {
                        return Err(HushError::FeeBucketOverflow(3));
                    },
                };
            },
            AssetId::Usdc => {
                self.usdc = match self.usdc.checked_add(amount) {
                    Some(v) => v,
                    None => {
                        return Err(HushError::FeeBucketOverflow(1));
                    },
                };
            },
            AssetId::Usdt => {
                self.usdt = match self.usdt.checked_add(amount) {
                    Some(v) => v,
                    None => {
                        return Err(HushError::FeeBucketOverflow(2));
                    },
                };
            },
        }
        Ok(())
    }

    /// Adds `other` bucket by bucket, HUSH first, then USDC, then USDT;
    /// stops at the first overflow, keeping the additions made before it.
    pub fn add_assign(&mut self, other: &Self) -> (r: Result<(), HushError>)
        ensures
            (*final(self), r) == spec_add_buckets(*old(self), *other),
    {
        self.hush = match self.hush.checked_add(other.hush) {
            Some(v) => v,
            None => {
                return Err(HushError::EpochFeePoolOverflow(3));
            },
        };
        self.usdc = match self.usdc.checked_add(other.usdc) {
            Some(v) => v,
            None => {
                return Err(HushError::EpochFeePoolOverflow(1));
            },
        };
        self.usdt = match self.usdt.checked_add(other.usdt) {
            Some(v) => v,
            None => {
                return Err(HushError::EpochFeePoolOverflow(2));
            },
        };
        Ok(())
    }
}

/// One transaction count per fee asset.
#[derive(Clone, Copy, Debug, PartialEq, Eq, Structural)]
pub struct AssetTxCounts {
    pub hush: u32,
    pub usdc: u32,
    pub usdt: u32,
}

impl Default for AssetTxCounts {
    fn default() -> (r: Self)
        ensures
            r == (AssetTxCounts { hush: 0, usdc: 0, usdt: 0 }),
    {
        AssetTxCounts { hush: 0, usdc: 0, usdt: 0 }
    }
}

/// The count of `asset`.
pub open spec fn spec_count(c: AssetTxCounts, asset: AssetId) -> u32 {
    match asset {
        AssetId::Hush => c.hush,
        AssetId::Usdc => c.usdc,
        AssetId::Usdt => c.usdt,
    }
}

/// Counting one more transaction of `asset`: the new counts, or the
/// overflow (counts unchanged).
pub open spec fn spec_count_add(c: AssetTxCounts, asset: AssetId) -> Result<AssetTxCounts, HushError> {
    if spec_count(c, asset) + 1 > u32::MAX {
        Err(HushError::TxCountOverflow(spec_asset_value(asset)))
    } else {
        let v = (spec_count(c, asset) + 1) as u32;
        Ok(
            match asset {
                AssetId::Hush => AssetTxCounts { hush: v, ..c },
                AssetId::Usdc => AssetTxCounts { usdc: v, ..c },
                AssetId::Usdt => AssetTxCounts { usdt: v, ..c },
            },
        )
    }
}

impl AssetTxCounts {
    /// Counts one more transaction of `asset`; on overflow nothing changes.
    pub fn increment(&mut self, asset: AssetId) -> (r: Result<(), HushError>)
        ensures
            match spec_count_add(*old(self), asset) {
                Ok(c) => r is Ok && *final(self) == c,
                Err(e) => r == Err::<(), HushError>(e) && *final(self) == *old(self),
            },
    {
        match asset {
            AssetId::Hush => {
                self.hush = match self.hush.checked_add(1) {
                    Some(v) => v,
                    None => {
                        return Err(HushError::TxCountOverflow(3));
                    },
                };
            },
            AssetId::Usdc => {
                self.usdc = match self.usdc.checked_add(1) {
                    Some(v) => v,
                    None => {
                        return Err(HushError::TxCountOverflow(1));
                    },
                };
            },
            AssetId::Usdt => {
                self.usdt = match self.usdt.checked_add(1) {
                    Some(v) => v,
                    None => {
                        return Err(HushError::TxCountOverflow(2));
                    },
                };
            },
        }
        Ok(())
    }
}

/// What a block records of an accepted transaction.
#[derive(Clone, Copy, Debug, PartialEq, Eq, Structural)]
pub struct AcceptedTxRecord {
    pub tx_id: u64,
    pub tx_kind: u32,
    pub fee_asset: u32,
    pub fee_amount: u64,
    pub fee_schedule_version: u32,
}

/// The identifier of a payment: the first two words of its binding hash.
pub open spec fn spec_payment_tx_id(tx: PaymentTxV1) -> u64 {
    (tx.tx_binding_hash[0] as int * 4294967296 + tx.tx_binding_hash[1] as int) as u64
}

/// The record of a payment whose bundle belongs to it.
pub open spec fn spec_payment_record(tx: PaymentTxV1) -> AcceptedTxRecord {
    AcceptedTxRecord {
        tx_id: spec_payment_tx_id(tx),
        tx_kind: tx.descriptor.tx_kind,
        fee_asset: tx.descriptor.fee_asset,
        fee_amount: tx.descriptor.fee_amount,
        fee_schedule_version: tx.descriptor.fee_schedule_version,
    }
}

/// The record of a payment, once its bundle is checked against it.
pub fn accepted_payment_record(tx: &PaymentTxV1, bundle: &PaymentBundleProof) -> (r: Result<
    AcceptedTxRecord,
    HushError,
>)
    ensures
        match spec_bundle_check(*tx, *bundle) {
            Ok(_) => r == Ok::<AcceptedTxRecord, HushError>(spec_payment_record(*tx)),
            Err(e) => r == Err::<AcceptedTxRecord, HushError>(e),
        },
{
    validate_payment_bundle(tx, bundle)?;
    let tx_id: u64 = tx.tx_binding_hash[0] as u64 * 4294967296 + tx.tx_binding_hash[1] as u64;
    Ok(
        AcceptedTxRecord {
            tx_id,
            tx_kind: tx.descriptor.tx_kind,
            fee_asset: tx.descriptor.fee_asset,
            fee_amount: tx.descriptor.fee_amount,
            fee_schedule_version: tx.descriptor.fee_schedule_version,
        },
    )
}

/// A protocol action (any transaction kind but payment); its fee is paid in
/// HUSH on the standard schedule.
#[derive(Clone, Copy, Debug, PartialEq, Eq)]
pub struct ProtocolActionTx {
    pub action_id: u64,
    pub tx_kind: u32,
    pub fee_asset: u32,
    pub fee_amount: u32,
    pub fee_schedule_version: u32,
    pub replay_domain: u32,
}

impl ProtocolActionTx {
    /// The canonical action of a non-payment kind, paying `fee_amount` HUSH.
    pub fn build(tx_kind: TxKind, action_id: u64, fee_amount: u32) -> (r: Result<Self, HushError>)
        ensures
            tx_kind == TxKind::Payment ==> r == Err::<Self, HushError>(
                HushError::ProtocolActionUsesPaymentKind,
            ),
            tx_kind != TxKind::Payment ==> r == Ok::<Self, HushError>(
                ProtocolActionTx {
                    action_id,
                    tx_kind: spec_tx_kind_value(tx_kind),
                    fee_asset: spec_asset_value(AssetId::Hush),
                    fee_amount,
                    fee_schedule_version: PAYMENT_STANDARD_FEE_SCHEDULE_VERSION,
                    replay_domain: PAYMENT_TX_V1_REPLAY_DOMAIN,
                },
            ),
    {
        if let TxKind::Payment = tx_kind {
            return Err(HushError::ProtocolActionUsesPaymentKind);
        }
        Ok(
            ProtocolActionTx {
                action_id,
                tx_kind: tx_kind.as_u32(),
                fee_asset: AssetId::Hush.as_u32(),
                fee_amount,
                fee_schedule_version: PAYMENT_STANDARD_FEE_SCHEDULE_VERSION,
                replay_domain: PAYMENT_TX_V1_REPLAY_DOMAIN,
            },
        )
    }
}

/// The outcome of validating a protocol action: its kind, or the first
/// rule it breaks: a known kind, not a payment, the HUSH-only fee policy,
/// the standard schedule, the replay domain, a non-zero fee.
pub open spec fn spec_validate_protocol_action(tx: ProtocolActionTx) -> Result<TxKind, HushError> {
    match spec_tx_kind_from(tx.tx_kind) {
        None => Err(HushError::UnsupportedTxKind(tx.tx_kind)),
        Some(kind) => if kind == TxKind::Payment {
            Err(HushError::PaymentKindRequiresPaymentTx)
        } else if spec_fee_asset_policy(tx.tx_kind, None, tx.fee_asset) is Err {
            Err(spec_fee_asset_policy(tx.tx_kind, None, tx.fee_asset)->Err_0)
        } else if tx.fee_schedule_version != PAYMENT_STANDARD_FEE_SCHEDULE_VERSION {
            Err(HushError::UnsupportedFeeScheduleVersion(tx.fee_schedule_version))
        } else if tx.replay_domain != PAYMENT_TX_V1_REPLAY_DOMAIN {
            Err(HushError::InvalidReplayDomain(tx.replay_domain))
        } else if tx.fee_amount == 0 {
            Err(HushError::ZeroProtocolActionFee)
        } else {
            Ok(kind)
        },
    }
}

pub fn validate_protocol_action_tx(tx: &ProtocolActionTx) -> (r: Result<TxKind, HushError>)
    ensures
        r == spec_validate_protocol_action(*tx),
{
    let tx_kind = TxKind::try_from_u32(tx.tx_kind)?;
    if let TxKind::Payment = tx_kind {
        return Err(HushError::PaymentKindRequiresPaymentTx);
    }
    validate_tx_kind_fee_asset_policy(tx.tx_kind, None, tx.fee_asset)?;
    if tx.fee_schedule_version != PAYMENT_STANDARD_FEE_SCHEDULE_VERSION {
        return Err(HushError::UnsupportedFeeScheduleVersion(tx.fee_schedule_version));
    }
    if tx.replay_domain != PAYMENT_TX_V1_REPLAY_DOMAIN {
        return Err(HushError::InvalidReplayDomain(tx.replay_domain));
    }
    if tx.fee_amount == 0 {
        return Err(HushError::ZeroProtocolActionFee);
    }
    Ok(tx_kind)
}

/// The record of a protocol action.
pub open spec fn spec_action_record(tx: ProtocolActionTx) -> AcceptedTxRecord {
    AcceptedTxRecord {
        tx_id: tx.action_id,
        tx_kind: tx.tx_kind,
        fee_asset: tx.fee_asset,
        fee_amount: tx.fee_amount as u64,
        fee_schedule_version: tx.fee_schedule_version,
    }
}

/// The record of a protocol action, once it validates.
pub fn accepted_protocol_action_record(tx: &ProtocolActionTx) -> (r: Result<
    AcceptedTxRecord,
    HushError,
>)
    ensures
        match spec_validate_protocol_action(*tx) {
            Ok(_) => r == Ok::<AcceptedTxRecord, HushError>(spec_action_record(*tx)),
            Err(e) => r == Err::<AcceptedTxRecord, HushError>(e),
        },
{
    validate_protocol_action_tx(tx)?;
    Ok(
        AcceptedTxRecord {
            tx_id: tx.action_id,
            tx_kind: tx.tx_kind,
            fee_asset: tx.fee_asset,
            fee_amount: tx.fee_amount as u64,
            fee_schedule_version: tx.fee_schedule_version,
        },
    )
}

/// Recounting a block's accepted transactions in order: the fee buckets and
/// counts they give, or the first failure: a transaction id seen before in
/// the block, an unknown fee asset, a bucket or count overflow.
pub open spec fn spec_recount(records: Seq<AcceptedTxRecord>) -> Result<
    (AssetFeeBuckets, AssetTxCounts),
    HushError,
>
    decreases records.len(),
{
    if records.len() == 0 {
        Ok((AssetFeeBuckets { hush: 0, usdc: 0, usdt: 0 }, AssetTxCounts { hush: 0, usdc: 0, usdt: 0 }))
    } else {
        let prefix = records.drop_last();
        let t = records.last();
        match spec_recount(prefix) {
            Err(e) => Err(e),
            Ok((b, c)) => if exists|j: int| 0 <= j < prefix.len() && #[trigger] prefix[j].tx_id == t.tx_id {
                Err(HushError::DuplicateTxInRecord(t.tx_id))
            } else {
                match spec_asset_from(t.fee_asset) {
                    None => Err(HushError::UnsupportedAssetId(t.fee_asset)),
                    Some(asset) => match spec_bucket_add(b, asset, t.fee_amount) {
                        Err(e) => Err(e),
                        Ok(b2) => match spec_count_add(c, asset) {
                            Err(e) => Err(e),
                            Ok(c2) => Ok((b2, c2)),
                        },
                    },
                }
            },
        }
    }
}

/// The number of accepted transactions of each kind, built record by record.
pub open spec fn spec_kind_counts(records: Seq<AcceptedTxRecord>) -> Map<u32, u32>
    decreases records.len(),
{
    if records.len() == 0 {
        Map::empty()
    } else {
        let m = spec_kind_counts(records.drop_last());
        let k = records.last().tx_kind;
        m.insert(k, if m.contains_key(k) { (m[k] + 1) as u32 } else { 1 })
    }
}

/// The kinds that occur among the records.
pub open spec fn spec_kinds(records: Seq<AcceptedTxRecord>) -> Set<u32> {
    Set::new(|k: u32| exists|i: int| 0 <= i < records.len() && #[trigger] records[i].tx_kind == k)
}

proof fn lemma_kind_counts(records: Seq<AcceptedTxRecord>)
    ensures
        spec_kind_counts(records).dom() =~= spec_kinds(records),
        forall|k: u32| #[trigger]
            spec_kind_counts(records).contains_key(k) ==> spec_kind_counts(records)[k] <= records.len(),
    decreases records.len(),
{
    if records.len() > 0 {
        let prefix = records.drop_last();
        lemma_kind_counts(prefix);
        assert forall|k: u32| #[trigger] spec_kinds(records).contains(k) implies spec_kind_counts(
            records,
        ).contains_key(k) by {
            let i = choose|i: int| 0 <= i < records.len() && #[trigger] records[i].tx_kind == k;
            if i < records.len() - 1 {
                assert(prefix[i].tx_kind == k);
            }
        }
        assert forall|k: u32| #[trigger] spec_kind_counts(records).contains_key(k) implies spec_kinds(
            records,
        ).contains(k) by {
            if k != records.last().tx_kind {
                let i = choose|i: int| 0 <= i < prefix.len() && #[trigger] prefix[i].tx_kind == k;
                assert(records[i].tx_kind == k);
            } else {
                assert(records[records.len() - 1].tx_kind == k);
            }
        }
    }
}

/// Integer keys are totally ordered, so the B-tree maps and sets of the
/// accounting behave as maps and sets.
proof fn lemma_integer_keys_ordered()
    ensures
        vstd::laws_cmp::obeys_cmp::<u32>(),
        vstd::laws_cmp::obeys_cmp::<u64>(),
        vstd::std_specs::btree::key_obeys_cmp_spec::<u32>(),
        vstd::std_specs::btree::key_obeys_cmp_spec::<u64>(),
{
}

/// The fee accounting of one block.
#[derive(Clone, Debug)]
pub struct BlockAccountingRecord {
    pub block_height: u64,
    pub proposer_id: u32,
    pub fee_buckets: AssetFeeBuckets,
    pub tx_counts_by_asset: AssetTxCounts,
    pub tx_counts_by_kind: BTreeMap<u32, u32>,
    pub accepted_transactions: Vec<AcceptedTxRecord>,
}

/// Whether a block record reconciles with its accepted transactions: `Ok`,
/// or the recount's failure, or which totals differ (fee buckets, counts by
/// asset, counts by kind).
pub open spec fn spec_block_check(
    fee_buckets: AssetFeeBuckets,
    tx_counts_by_asset: AssetTxCounts,
    tx_counts_by_kind: Map<u32, u32>,
    records: Seq<AcceptedTxRecord>,
) -> Result<(), HushError> {
    match spec_recount(records) {
        Err(e) => Err(e),
        Ok((b, c)) => if fee_buckets != b {
            Err(HushError::FeeBucketsDoNotReconcile)
        } else if tx_counts_by_asset != c {
            Err(HushError::AssetCountsDoNotReconcile)
        } else if tx_counts_by_kind != spec_kind_counts(records) {
            Err(HushError::KindCountsDoNotReconcile)
        } else {
            Ok(())
        },
    }
}

impl BlockAccountingRecord {
    pub open spec fn spec_check(&self) -> Result<(), HushError> {
        spec_block_check(
            self.fee_buckets,
            self.tx_counts_by_asset,
            self.tx_counts_by_kind@,
            self.accepted_transactions@,
        )
    }

    /// Recounts the accepted transactions and checks that the block's
    /// buckets and counts are theirs.
    pub fn validate(&self) -> (r: Result<(), HushError>)
        requires
            self.accepted_transactions@.len() < u32::MAX,
        ensures
            r == self.spec_check(),
    {
        let records = &self.accepted_transactions;
        let n = records.len();
        proof {
            lemma_integer_keys_ordered();
        }
        let mut buckets = AssetFeeBuckets::default();
        let mut counts = AssetTxCounts::default();
        let mut by_kind: BTreeMap<u32, u32> = BTreeMap::new();
        let mut tx_ids: BTreeSet<u64> = BTreeSet::new();
        for i in 0..n
            invariant
                n == records@.len(),
                records@ == self.accepted_transactions@,
                n < u32::MAX,
                spec_recount(records@.take(i as int)) == Ok::<
                    (AssetFeeBuckets, AssetTxCounts),
                    HushError,
                >((buckets, counts)),
                by_kind@ == spec_kind_counts(records@.take(i as int)),
                tx_ids@ == Set::new(
                    |id: u64| exists|j: int| 0 <= j < i && #[trigger] records@[j].tx_id == id,
                ),
        {
            let t = records[i];
            let ghost prefix = records@.take(i as int);
            proof {
                assert(records@.take(i + 1).drop_last() =~= prefix);
                assert(records@.take(i + 1).last() == t);
            }
            if !tx_ids.insert(t.tx_id) {
                proof {
                    let j = choose|j: int| 0 <= j < i && #[trigger] records@[j].tx_id == t.tx_id;
                    assert(prefix[j].tx_id == t.tx_id);
                    assert(spec_recount(records@.take(i + 1)) == Err::<
                        (AssetFeeBuckets, AssetTxCounts),
                        HushError,
                    >(HushError::DuplicateTxInRecord(t.tx_id)));
                    lemma_recount_prefix_err(records@, i + 1);
                    assert(records@.take(n as int) =~= records@);
                }
                return Err(HushError::DuplicateTxInRecord(t.tx_id));
            }
            proof {
                assert forall|j: int| 0 <= j < prefix.len() implies #[trigger] prefix[j].tx_id
                    != t.tx_id by {
                    assert(prefix[j] == records@[j]);
                }
            }
            let fee_asset = match AssetId::try_from_u32(t.fee_asset) {
                Ok(a) => a,
                Err(e) => {
                    proof {
                        assert(spec_recount(records@.take(i + 1)) == Err::<
                            (AssetFeeBuckets, AssetTxCounts),
                            HushError,
                        >(HushError::UnsupportedAssetId(t.fee_asset)));
                        lemma_recount_prefix_err(records@, i + 1);
                        assert(records@.take(n as int) =~= records@);
                    }
                    return Err(e);
                },
            };
            match buckets.increment(fee_asset, t.fee_amount) {
                Ok(()) => {},
                Err(e) => {
                    proof {
                        lemma_recount_prefix_err(records@, i + 1);
                        assert(records@.take(n as int) =~= records@);
                    }
                    return Err(e);
                },
            }
            match counts.increment(fee_asset) {
                Ok(()) => {},
                Err(e) => {
                    proof {
                        lemma_recount_prefix_err(records@, i + 1);
                        assert(records@.take(n as int) =~= records@);
                    }
                    return Err(e);
                },
            }
            proof {
                lemma_kind_counts(prefix);
            }
            let next = match by_kind.get(&t.tx_kind) {
                Some(c) => *c + 1,
                None => 1,
            };
            by_kind.insert(t.tx_kind, next);
            proof {
                assert(tx_ids@ =~= Set::new(
                    |id: u64| exists|j: int| 0 <= j < i + 1 && #[trigger] records@[j].tx_id == id,
                )) by {
                    assert forall|id: u64|
                        (exists|j: int| 0 <= j < i + 1 && #[trigger] records@[j].tx_id == id)
                            implies tx_ids@.contains(id) by {
                        let j = choose|j: int| 0 <= j < i + 1 && #[trigger] records@[j].tx_id == id;
                        if j < i {
                        } else {
                            assert(id == t.tx_id);
                        }
                    }
                }
            }
        }
        proof {
            assert(records@.take(n as int) =~= records@);
            lemma_kind_counts(records@);
        }
        if self.fee_buckets != buckets {
            return Err(HushError::FeeBucketsDoNotReconcile);
        }
        if self.tx_counts_by_asset != counts {
            return Err(HushError::AssetCountsDoNotReconcile);
        }
        if self.tx_counts_by_kind.len() != by_kind.len() {
            return Err(HushError::KindCountsDoNotReconcile);
        }
        for i in 0..n
            invariant
                n == records@.len(),
                records@ == self.accepted_transactions@,
                spec_recount(records@) == Ok::<(AssetFeeBuckets, AssetTxCounts), HushError>(
                    (buckets, counts),
                ),
                self.fee_buckets == buckets,
                self.tx_counts_by_asset == counts,
                by_kind@ == spec_kind_counts(records@),
                by_kind@.dom() == spec_kinds(records@),
                self.tx_counts_by_kind@.len() == by_kind@.len(),
                forall|j: int|
                    #![trigger records@[j]]
                    0 <= j < i ==> self.tx_counts_by_kind@.contains_key(records@[j].tx_kind)
                        && self.tx_counts_by_kind@[records@[j].tx_kind] == by_kind@[records@[j].tx_kind],
        {
            proof {
                lemma_integer_keys_ordered();
            }
            let k = records[i].tx_kind;
            assert(spec_kinds(records@).contains(k));
            let mine = self.tx_counts_by_kind.get(&k);
            let theirs = by_kind.get(&k);
            match (mine, theirs) {
                (Some(a), Some(b)) => {
                    if *a != *b {
                        proof {
                            assert(self.tx_counts_by_kind@ != spec_kind_counts(records@));
                        }
                        return Err(HushError::KindCountsDoNotReconcile);
                    }
                },
                _ => {
                    proof {
                        assert(!self.tx_counts_by_kind@.contains_key(k));
                        assert(self.tx_counts_by_kind@ != spec_kind_counts(records@));
                    }
                    return Err(HushError::KindCountsDoNotReconcile);
                },
            }
        }
        proof {
            let mine = self.tx_counts_by_kind@;
            assert(by_kind@.dom().subset_of(mine.dom())) by {
                assert forall|k: u32| by_kind@.dom().contains(k) implies mine.dom().contains(k) by {
                    let j = choose|j: int| 0 <= j < records@.len() && #[trigger] records@[j].tx_kind
                        == k;
                    assert(mine.contains_key(records@[j].tx_kind));
                    assert(records@[j].tx_kind == k);
                }
            }
            vstd::set_lib::lemma_subset_equality(by_kind@.dom(), mine.dom());
            assert(mine =~= by_kind@) by {
                assert forall|k: u32| #[trigger] mine.contains_key(k) implies mine[k] == by_kind@[k] by {
                    let j = choose|j: int| 0 <= j < records@.len() && #[trigger] records@[j].tx_kind
                        == k;
                    assert(mine[records@[j].tx_kind] == by_kind@[records@[j].tx_kind]);
                }
            }
        }
        Ok(())
    }
}

/// A failure of the recount of a prefix is the failure of the recount of
/// the whole.
proof fn lemma_recount_prefix_err(records: Seq<AcceptedTxRecord>, i: int)
    requires
        0 <= i <= records.len(),
        spec_recount(records.take(i)) is Err,
    ensures
        spec_recount(records) == spec_recount(records.take(i)),
    decreases records.len() - i,
{
    if i < records.len() {
        assert(records.take(i + 1).drop_last() =~= records.take(i));
        lemma_recount_prefix_err(records, i + 1);
    } else {
        assert(records.take(i) =~= records);
    }
}

/// Recounting gives one count per record.
proof fn lemma_recount_counts(records: Seq<AcceptedTxRecord>)
    requires
        spec_recount(records) is Ok,
    ensures
        spec_recount(records)->Ok_0.1.hush + spec_recount(records)->Ok_0.1.usdc + spec_recount(
            records,
        )->Ok_0.1.usdt == records.len(),
    decreases records.len(),
{
    if records.len() > 0 {
        lemma_recount_counts(records.drop_last());
    }
}

/// What a block builder holds: its height and proposer, the buckets and
/// counts so far, the accepted transactions and every id it has seen.
pub struct BlockBuilderModel {
    pub block_height: u64,
    pub proposer_id: u32,
    pub fee_buckets: AssetFeeBuckets,
    pub tx_counts_by_asset: AssetTxCounts,
    pub tx_counts_by_kind: Map<u32, u32>,
    pub accepted_transactions: Seq<AcceptedTxRecord>,
    pub seen_tx_ids: Set<u64>,
}

/// Recording one accepted transaction: the id must be new to the block
/// (else nothing changes); it is then marked seen, and the record is
/// counted into the bucket and count of its fee asset and the count of its
/// kind, and kept. A failure on the way (unknown asset, bucket or count
/// overflow) keeps what was done before it.
pub open spec fn spec_record_step(m: BlockBuilderModel, rec: AcceptedTxRecord) -> (
    BlockBuilderModel,
    Result<(), HushError>,
) {
    if m.seen_tx_ids.contains(rec.tx_id) {
        (m, Err(HushError::TxAlreadyCountedInBlock(rec.tx_id)))
    } else {
        let m1 = BlockBuilderModel { seen_tx_ids: m.seen_tx_ids.insert(rec.tx_id), ..m };
        match spec_asset_from(rec.fee_asset) {
            None => (m1, Err(HushError::UnsupportedAssetId(rec.fee_asset))),
            Some(asset) => match spec_bucket_add(m.fee_buckets, asset, rec.fee_amount) {
                Err(e) => (m1, Err(e)),
                Ok(b) => match spec_count_add(m.tx_counts_by_asset, asset) {
                    Err(e) => (BlockBuilderModel { fee_buckets: b, ..m1 }, Err(e)),
                    Ok(c) => {
                        let k = rec.tx_kind;
                        let kinds = m.tx_counts_by_kind;
                        (
                            BlockBuilderModel {
                                fee_buckets: b,
                                tx_counts_by_asset: c,
                                tx_counts_by_kind: kinds.insert(
                                    k,
                                    if kinds.contains_key(k) {
                                        (kinds[k] + 1) as u32
                                    } else {
                                        1
                                    },
                                ),
                                accepted_transactions: m.accepted_transactions.push(rec),
                                ..m1
                            },
                            Ok(()),
                        )
                    },
                },
            },
        }
    }
}

/// Builds the fee accounting of one block from accepted transactions.
#[derive(Clone, Debug)]
pub struct BlockAccountingBuilder {
    block_height: u64,
    proposer_id: u32,
    fee_buckets: AssetFeeBuckets,
    tx_counts_by_asset: AssetTxCounts,
    tx_counts_by_kind: BTreeMap<u32, u32>,
    accepted_transactions: Vec<AcceptedTxRecord>,
    seen_tx_ids: BTreeSet<u64>,
}

impl View for BlockAccountingBuilder {
    type V = BlockBuilderModel;

    closed spec fn view(&self) -> BlockBuilderModel {
        BlockBuilderModel {
            block_height: self.block_height,
            proposer_id: self.proposer_id,
            fee_buckets: self.fee_buckets,
            tx_counts_by_asset: self.tx_counts_by_asset,
            tx_counts_by_kind: self.tx_counts_by_kind@,
            accepted_transactions: self.accepted_transactions@,
            seen_tx_ids: self.seen_tx_ids@,
        }
    }
}

/// The builder's invariant: its buckets and counts are the recount of its
/// accepted transactions, and every accepted id has been seen.
pub open spec fn spec_builder_wf(m: BlockBuilderModel) -> bool {
    &&& spec_recount(m.accepted_transactions) == Ok::<(AssetFeeBuckets, AssetTxCounts), HushError>(
        (m.fee_buckets, m.tx_counts_by_asset),
    )
    &&& m.tx_counts_by_kind == spec_kind_counts(m.accepted_transactions)
    &&& forall|j: int|
        0 <= j < m.accepted_transactions.len() ==> m.seen_tx_ids.contains(
            #[trigger] m.accepted_transactions[j].tx_id,
        )
}

/// Recording keeps the builder's invariant.
proof fn lemma_record_step_wf(m: BlockBuilderModel, rec: AcceptedTxRecord)
    requires
        spec_builder_wf(m),
        m.accepted_transactions.len() + 1 < u32::MAX,
    ensures
        spec_builder_wf(spec_record_step(m, rec).0),
        spec_record_step(m, rec).1 is Ok ==> spec_record_step(m, rec).0.accepted_transactions.len()
            == m.accepted_transactions.len() + 1,
        spec_record_step(m, rec).1 is Err ==> spec_record_step(m, rec).0.accepted_transactions
            == m.accepted_transactions,
{
    let s = m.accepted_transactions;
    lemma_recount_counts(s);
    lemma_kind_counts(s);
    if !m.seen_tx_ids.contains(rec.tx_id) {
        let s2 = s.push(rec);
        assert(s2.drop_last() =~= s);
        assert forall|j: int| 0 <= j < s.len() implies #[trigger] s[j].tx_id != rec.tx_id by {
            assert(m.seen_tx_ids.contains(s[j].tx_id));
        }
        let r = spec_record_step(m, rec);
        if r.1 is Ok {
            assert(r.0.accepted_transactions =~= s2);
            assert forall|j: int| 0 <= j < s2.len() implies r.0.seen_tx_ids.contains(
                #[trigger] s2[j].tx_id,
            ) by {
                if j < s.len() {
                    assert(s2[j] == s[j]);
                }
            }
        }
    }
}

impl BlockAccountingBuilder {
    /// An empty block at `block_height` proposed by `proposer_id`.
    pub fn new(block_height: u64, proposer_id: u32) -> (r: Self)
        ensures
            r@ == (BlockBuilderModel {
                block_height,
                proposer_id,
                fee_buckets: AssetFeeBuckets { hush: 0, usdc: 0, usdt: 0 },
                tx_counts_by_asset: AssetTxCounts { hush: 0, usdc: 0, usdt: 0 },
                tx_counts_by_kind: Map::empty(),
                accepted_transactions: Seq::empty(),
                seen_tx_ids: Set::empty(),
            }),
            spec_builder_wf(r@),
    {
        BlockAccountingBuilder {
            block_height,
            proposer_id,
            fee_buckets: AssetFeeBuckets::default(),
            tx_counts_by_asset: AssetTxCounts::default(),
            tx_counts_by_kind: BTreeMap::new(),
            accepted_transactions: Vec::new(),
            seen_tx_ids: BTreeSet::new(),
        }
    }

    /// Records a payment whose bundle belongs to it.
    pub fn record_payment_bundle(&mut self, tx: &PaymentTxV1, bundle: &PaymentBundleProof) -> (r:
        Result<(), HushError>)
        requires
            spec_builder_wf(old(self)@),
            old(self)@.accepted_transactions.len() + 1 < u32::MAX,
        ensures
            spec_builder_wf(final(self)@),
            match spec_bundle_check(*tx, *bundle) {
                Err(e) => r == Err::<(), HushError>(e) && final(self)@ == old(self)@,
                Ok(_) => (final(self)@, r) == spec_record_step(old(self)@, spec_payment_record(*tx)),
            },
    {
        let record = accepted_payment_record(tx, bundle)?;
        self.record_accepted_tx_record(&record)
    }

    /// Records a protocol action, once it validates.
    pub fn record_protocol_action(&mut self, tx: &ProtocolActionTx) -> (r: Result<(), HushError>)
        requires
            spec_builder_wf(old(self)@),
            old(self)@.accepted_transactions.len() + 1 < u32::MAX,
        ensures
            spec_builder_wf(final(self)@),
            match spec_validate_protocol_action(*tx) {
                Err(e) => r == Err::<(), HushError>(e) && final(self)@ == old(self)@,
                Ok(_) => (final(self)@, r) == spec_record_step(old(self)@, spec_action_record(*tx)),
            },
    {
        let record = accepted_protocol_action_record(tx)?;
        self.record_accepted_tx_record(&record)
    }

    /// Records one accepted transaction (see `spec_record_step`).
    pub fn record_accepted_tx_record(&mut self, record: &AcceptedTxRecord) -> (r: Result<
        (),
        HushError,
    >)
        requires
            spec_builder_wf(old(self)@),
            old(self)@.accepted_transactions.len() + 1 < u32::MAX,
        ensures
            (final(self)@, r) == spec_record_step(old(self)@, *record),
            spec_builder_wf(final(self)@),
    {
        proof {
            lemma_integer_keys_ordered();
            lemma_record_step_wf(self@, *record);
            lemma_recount_counts(self@.accepted_transactions);
            lemma_kind_counts(self@.accepted_transactions);
        }
        if !self.seen_tx_ids.insert(record.tx_id) {
            assert(self.seen_tx_ids@ =~= old(self).seen_tx_ids@);
            assert(self@ == old(self)@);
            return Err(HushError::TxAlreadyCountedInBlock(record.tx_id));
        }
        let fee_asset = AssetId::try_from_u32(record.fee_asset)?;
        self.fee_buckets.increment(fee_asset, record.fee_amount)?;
        self.tx_counts_by_asset.increment(fee_asset)?;
        let next = match self.tx_counts_by_kind.get(&record.tx_kind) {
            Some(c) => *c + 1,
            None => 1,
        };
        self.tx_counts_by_kind.insert(record.tx_kind, next);
        self.accepted_transactions.push(*record);
        Ok(())
    }

    /// The fee buckets so far.
    pub fn fee_buckets(&self) -> (r: AssetFeeBuckets)
        ensures
            r == self@.fee_buckets,
    {
        self.fee_buckets
    }

    /// The block's accounting record.
    pub fn finalize(self) -> (r: BlockAccountingRecord)
        ensures
            r.block_height == self@.block_height,
            r.proposer_id == self@.proposer_id,
            r.fee_buckets == self@.fee_buckets,
            r.tx_counts_by_asset == self@.tx_counts_by_asset,
            r.tx_counts_by_kind@ == self@.tx_counts_by_kind,
            r.accepted_transactions@ == self@.accepted_transactions,
    {
        BlockAccountingRecord {
            block_height: self.block_height,
            proposer_id: self.proposer_id,
            fee_buckets: self.fee_buckets,
            tx_counts_by_asset: self.tx_counts_by_asset,
            tx_counts_by_kind: self.tx_counts_by_kind,
            accepted_transactions: self.accepted_transactions,
        }
    }
}

/// The record a builder finalizes reconciles with its accepted
/// transactions: its buckets and counts are exactly their recount.
pub proof fn lemma_finalized_block_reconciles(m: BlockBuilderModel)
    requires
        spec_builder_wf(m),
    ensures
        spec_block_check(
            m.fee_buckets,
            m.tx_counts_by_asset,
            m.tx_counts_by_kind,
            m.accepted_transactions,
        ) is Ok,
{
}

#[derive(Clone, Copy, Debug, PartialEq, Eq)]
pub struct ValidatorStakeInfo {
    pub validator_id: u32,
    pub payout_key: u32,
    pub effective_stake: u64,
}

#[derive(Clone, Copy, Debug, PartialEq, Eq)]
pub struct ValidatorBlockParticipation {
    pub validator_id: u32,
    pub signed_block: bool,
    pub liveness_penalty_bps: u16,
    pub slash_penalty_bps: u16,
}

#[derive(Clone, Copy, Debug, PartialEq, Eq)]
pub struct ValidatorEpochEntitlement {
    pub validator_id: u32,
    pub payout_key: u32,
    pub effective_stake: u64,
    pub present_blocks: u32,
    pub missed_blocks: u32,
    pub max_liveness_penalty_bps: u16,
    pub max_slash_penalty_bps: u16,
    pub entitlement: AssetFeeBuckets,
}

#[derive(Clone, Copy, Debug, PartialEq, Eq)]
pub struct ClaimablePayoutRecord {
    pub epoch_index: u64,
    pub validator_id: u32,
    pub payout_key: u32,
    pub entitlement: AssetFeeBuckets,
}

/// The validator set keyed by id, or the first id that occurs twice.
pub open spec fn spec_validator_map(vals: Seq<ValidatorStakeInfo>) -> Result<
    Map<u32, ValidatorStakeInfo>,
    HushError,
>
    decreases vals.len(),
{
    if vals.len() == 0 {
        Ok(Map::empty())
    } else {
        match spec_validator_map(vals.drop_last()) {
            Err(e) => Err(e),
            Ok(m) => {
                let v = vals.last();
                if m.contains_key(v.validator_id) {
                    Err(HushError::DuplicateValidator(v.validator_id))
                } else {
                    Ok(m.insert(v.validator_id, v))
                }
            },
        }
    }
}

/// The participation entries keyed by validator, or the first entry that
/// names an unknown validator, has a penalty above 10000 bps, or repeats a
/// validator.
pub open spec fn spec_participation_map(
    parts: Seq<ValidatorBlockParticipation>,
    vmap: Map<u32, ValidatorStakeInfo>,
) -> Result<Map<u32, ValidatorBlockParticipation>, HushError>
    decreases parts.len(),
{
    if parts.len() == 0 {
        Ok(Map::empty())
    } else {
        match spec_participation_map(parts.drop_last(), vmap) {
            Err(e) => Err(e),
            Ok(m) => {
                let e = parts.last();
                if !vmap.contains_key(e.validator_id) {
                    Err(HushError::UnknownParticipant(e.validator_id))
                } else if e.liveness_penalty_bps > BPS_DENOMINATOR {
                    Err(HushError::LivenessPenaltyTooHigh(e.validator_id))
                } else if e.slash_penalty_bps > BPS_DENOMINATOR {
                    Err(HushError::SlashPenaltyTooHigh(e.validator_id))
                } else if m.contains_key(e.validator_id) {
                    Err(HushError::DuplicateParticipation(e.validator_id))
                } else {
                    Ok(m.insert(e.validator_id, e))
                }
            },
        }
    }
}

fn build_validator_map(validator_set: &[ValidatorStakeInfo]) -> (r: Result<
    BTreeMap<u32, ValidatorStakeInfo>,
    HushError,
>)
    ensures
        match spec_validator_map(validator_set@) {
            Ok(m) => r is Ok && r->Ok_0@ == m,
            Err(e) => r == Err::<BTreeMap<u32, ValidatorStakeInfo>, HushError>(e),
        },
{
    proof {
        lemma_integer_keys_ordered();
    }
    let mut map: BTreeMap<u32, ValidatorStakeInfo> = BTreeMap::new();
    let n = validator_set.len();
    for i in 0..n
        invariant
            n == validator_set@.len(),
            spec_validator_map(validator_set@.take(i as int)) == Ok::<
                Map<u32, ValidatorStakeInfo>,
                HushError,
            >(map@),
    {
        proof {
            lemma_integer_keys_ordered();
            assert(validator_set@.take(i + 1).drop_last() =~= validator_set@.take(i as int));
        }
        let v = validator_set[i];
        if map.contains_key(&v.validator_id) {
            proof {
                lemma_validator_map_prefix_err(validator_set@, i + 1);
            }
            return Err(HushError::DuplicateValidator(v.validator_id));
        }
        map.insert(v.validator_id, v);
    }
    proof {
        assert(validator_set@.take(n as int) =~= validator_set@);
    }
    Ok(map)
}

proof fn lemma_validator_map_prefix_err(vals: Seq<ValidatorStakeInfo>, i: int)
    requires
        0 <= i <= vals.len(),
        spec_validator_map(vals.take(i)) is Err,
    ensures
        spec_validator_map(vals) == spec_validator_map(vals.take(i)),
    decreases vals.len() - i,
{
    if i < vals.len() {
        assert(vals.take(i + 1).drop_last() =~= vals.take(i));
        lemma_validator_map_prefix_err(vals, i + 1);
    } else {
        assert(vals.take(i) =~= vals);
    }
}

proof fn lemma_participation_map_prefix_err(
    parts: Seq<ValidatorBlockParticipation>,
    vmap: Map<u32, ValidatorStakeInfo>,
    i: int,
)
    requires
        0 <= i <= parts.len(),
        spec_participation_map(parts.take(i), vmap) is Err,
    ensures
        spec_participation_map(parts, vmap) == spec_participation_map(parts.take(i), vmap),
    decreases parts.len() - i,
{
    if i < parts.len() {
        assert(parts.take(i + 1).drop_last() =~= parts.take(i));
        lemma_participation_map_prefix_err(parts, vmap, i + 1);
    } else {
        assert(parts.take(i) =~= parts);
    }
}

fn build_participation_map(
    participation: &[ValidatorBlockParticipation],
    validator_map: &BTreeMap<u32, ValidatorStakeInfo>,
) -> (r: Result<BTreeMap<u32, ValidatorBlockParticipation>, HushError>)
    ensures
        match spec_participation_map(participation@, validator_map@) {
            Ok(m) => r is Ok && r->Ok_0@ == m,
            Err(e) => r == Err::<BTreeMap<u32, ValidatorBlockParticipation>, HushError>(e),
        },
{
    proof {
        lemma_integer_keys_ordered();
    }
    let mut map: BTreeMap<u32, ValidatorBlockParticipation> = BTreeMap::new();
    let n = participation.len();
    for i in 0..n
        invariant
            n == participation@.len(),
            spec_participation_map(participation@.take(i as int), validator_map@) == Ok::<
                Map<u32, ValidatorBlockParticipation>,
                HushError,
            >(map@),
    {
        proof {
            lemma_integer_keys_ordered();
            assert(participation@.take(i + 1).drop_last() =~= participation@.take(i as int));
        }
        let e = participation[i];
        if !validator_map.contains_key(&e.validator_id) {
            proof {
                lemma_participation_map_prefix_err(participation@, validator_map@, i + 1);
            }
            return Err(HushError::UnknownParticipant(e.validator_id));
        }
        if e.liveness_penalty_bps as u64 > BPS_DENOMINATOR {
            proof {
                lemma_participation_map_prefix_err(participation@, validator_map@, i + 1);
            }
            return Err(HushError::LivenessPenaltyTooHigh(e.validator_id));
        }
        if e.slash_penalty_bps as u64 > BPS_DENOMINATOR {
            proof {
                lemma_participation_map_prefix_err(participation@, validator_map@, i + 1);
            }
            return Err(HushError::SlashPenaltyTooHigh(e.validator_id));
        }
        if map.contains_key(&e.validator_id) {
            proof {
                lemma_participation_map_prefix_err(participation@, validator_map@, i + 1);
            }
            return Err(HushError::DuplicateParticipation(e.validator_id));
        }
        map.insert(e.validator_id, e);
    }
    proof {
        assert(participation@.take(n as int) =~= participation@);
    }
    Ok(map)
}

/// The penalty of a participation entry, capped at the whole.
pub open spec fn spec_penalty(e: ValidatorBlockParticipation) -> int {
    if e.liveness_penalty_bps + e.slash_penalty_bps > BPS_DENOMINATOR {
        BPS_DENOMINATOR as int
    } else {
        e.liveness_penalty_bps + e.slash_penalty_bps
    }
}

/// The reward weights of a block: for each validator, in order, that signed
/// it, its stake times the share its penalties leave; zero weights dropped.
pub open spec fn spec_weights(
    vals: Seq<ValidatorStakeInfo>,
    pmap: Map<u32, ValidatorBlockParticipation>,
) -> Seq<(u32, u64)>
    decreases vals.len(),
{
    if vals.len() == 0 {
        Seq::empty()
    } else {
        let rest = spec_weights(vals.drop_last(), pmap);
        let v = vals.last();
        if !(pmap.contains_key(v.validator_id) && pmap[v.validator_id].signed_block) {
            rest
        } else {
            let w = v.effective_stake * (BPS_DENOMINATOR - spec_penalty(pmap[v.validator_id]));
            if w == 0 {
                rest
            } else {
                rest.push((v.validator_id, w as u64))
            }
        }
    }
}

/// A validator's reward weight in a block: its stake times the share its
/// penalties leave when it signed, nothing otherwise.
pub open spec fn spec_signer_weight(
    v: ValidatorStakeInfo,
    pmap: Map<u32, ValidatorBlockParticipation>,
) -> int {
    if pmap.contains_key(v.validator_id) && pmap[v.validator_id].signed_block {
        v.effective_stake * (BPS_DENOMINATOR - spec_penalty(pmap[v.validator_id]))
    } else {
        0
    }
}

/// Every signer's reward weight fits in a `u64`.
pub open spec fn spec_weights_fit(
    vals: Seq<ValidatorStakeInfo>,
    pmap: Map<u32, ValidatorBlockParticipation>,
) -> bool {
    forall|i: int| 0 <= i < vals.len() ==> #[trigger] spec_signer_weight(vals[i], pmap) <= u64::MAX
}

/// Every weight is positive and names a validator of the set.
pub(crate) proof fn lemma_weights_shape(vals: Seq<ValidatorStakeInfo>, pmap: Map<u32, ValidatorBlockParticipation>)
    requires
        spec_weights_fit(vals, pmap),
    ensures
        forall|i: int| 0 <= i < spec_weights(vals, pmap).len() ==> (#[trigger] spec_weights(vals, pmap)[i]).1 > 0,
        forall|i: int|
            #![trigger spec_weights(vals, pmap)[i]]
            0 <= i < spec_weights(vals, pmap).len() ==> exists|j: int|
                0 <= j < vals.len() && (#[trigger] vals[j]).validator_id == spec_weights(vals, pmap)[i].0,
        spec_weights(vals, pmap).len() <= vals.len(),
    decreases vals.len(),
{
    if vals.len() > 0 {
        let pre = vals.drop_last();
        assert forall|i: int| 0 <= i < pre.len() implies #[trigger] spec_signer_weight(pre[i], pmap)
            <= u64::MAX by {
            assert(pre[i] == vals[i]);
        }
        lemma_weights_shape(pre, pmap);
        let ws = spec_weights(vals, pmap);
        let v = vals.last();
        assert(spec_signer_weight(vals[vals.len() - 1], pmap) <= u64::MAX);
        if pmap.contains_key(v.validator_id) {
            let pen = spec_penalty(pmap[v.validator_id]);
            assert(0 <= pen <= 10000);
            assert(v.effective_stake * (10000 - pen) >= 0) by (nonlinear_arith)
                requires
                    0 <= pen <= 10000,
            ;
        }
        assert forall|i: int| #![trigger ws[i]] 0 <= i < ws.len() implies exists|j: int|
            0 <= j < vals.len() && (#[trigger] vals[j]).validator_id == ws[i].0 by {
            if i < spec_weights(pre, pmap).len() {
                let j = choose|j: int| 0 <= j < pre.len() && (#[trigger] pre[j]).validator_id
                    == spec_weights(pre, pmap)[i].0;
                assert(vals[j] == pre[j]);
            } else {
                assert(vals[vals.len() - 1].validator_id == ws[i].0);
            }
        }
    }
}

fn compute_weights(
    validator_set: &[ValidatorStakeInfo],
    participation_map: &BTreeMap<u32, ValidatorBlockParticipation>,
) -> (r: Vec<(u32, u64)>)
    requires
        spec_weights_fit(validator_set@, participation_map@),
    ensures
        r@ == spec_weights(validator_set@, participation_map@),
{
    proof {
        lemma_integer_keys_ordered();
    }
    let mut weights: Vec<(u32, u64)> = Vec::new();
    let n = validator_set.len();
    for i in 0..n
        invariant
            n == validator_set@.len(),
            spec_weights_fit(validator_set@, participation_map@),
            weights@ == spec_weights(validator_set@.take(i as int), participation_map@),
    {
        proof {
            lemma_integer_keys_ordered();
            assert(validator_set@.take(i + 1).drop_last() =~= validator_set@.take(i as int));
        }
        let v = validator_set[i];
        match participation_map.get(&v.validator_id) {
            Some(entry) => {
                if entry.signed_block {
                    let sum = entry.liveness_penalty_bps as u64 + entry.slash_penalty_bps as u64;
                    let penalties = if sum > BPS_DENOMINATOR {
                        BPS_DENOMINATOR
                    } else {
                        sum
                    };
                    proof {
                        assert(spec_signer_weight(validator_set@[i as int], participation_map@)
                            <= u64::MAX);
                        assert(v.effective_stake * (10000 - penalties) >= 0) by (nonlinear_arith)
                            requires
                                penalties <= 10000,
                        ;
                    }
                    let weight = v.effective_stake * (BPS_DENOMINATOR - penalties);
                    if weight != 0 {
                        weights.push((v.validator_id, weight));
                    }
                }
            },
            None => {},
        }
    }
    proof {
        assert(validator_set@.take(n as int) =~= validator_set@);
    }
    weights
}

/// The sum of the first `k` weights.
pub open spec fn spec_weight_sum(ws: Seq<(u32, u64)>, k: int) -> int
    decreases k,
{
    if k <= 0 {
        0
    } else {
        spec_weight_sum(ws, k - 1) + ws[k - 1].1
    }
}

/// The total weight.
pub open spec fn spec_total_weight(ws: Seq<(u32, u64)>) -> int {
    spec_weight_sum(ws, ws.len() as int)
}

/// The whole-unit part of weight `i`'s proportional share of `amount`.
pub open spec fn spec_quotient(amount: u64, ws: Seq<(u32, u64)>, i: int) -> int {
    (amount * ws[i].1) / spec_total_weight(ws)
}

/// What is left of weight `i`'s proportional share after the whole units,
/// in units of one over the total weight.
pub open spec fn spec_remainder(amount: u64, ws: Seq<(u32, u64)>, i: int) -> int {
    (amount * ws[i].1) % spec_total_weight(ws)
}

/// The sum of the first `k` whole-unit parts.
pub open spec fn spec_quotient_sum(amount: u64, ws: Seq<(u32, u64)>, k: int) -> int
    decreases k,
{
    if k <= 0 {
        0
    } else {
        spec_quotient_sum(amount, ws, k - 1) + spec_quotient(amount, ws, k - 1)
    }
}

/// The units the whole-unit parts leave undistributed.
pub open spec fn spec_leftover(amount: u64, ws: Seq<(u32, u64)>) -> int {
    amount - spec_quotient_sum(amount, ws, ws.len() as int)
}

/// Entry `j` comes before entry `i` when leftover units are handed out:
/// larger remainder first, then smaller validator id.
pub open spec fn spec_precedes(amount: u64, ws: Seq<(u32, u64)>, j: int, i: int) -> bool {
    ||| spec_remainder(amount, ws, j) > spec_remainder(amount, ws, i)
    ||| (spec_remainder(amount, ws, j) == spec_remainder(amount, ws, i) && ws[j].0 < ws[i].0)
}

/// How many of the first `k` entries come before entry `i`.
pub open spec fn spec_rank(amount: u64, ws: Seq<(u32, u64)>, i: int, k: int) -> int
    decreases k,
{
    if k <= 0 {
        0
    } else {
        spec_rank(amount, ws, i, k - 1) + if spec_precedes(amount, ws, k - 1, i) {
            1int
        } else {
            0
        }
    }
}

/// Entry `i`'s share: its whole units, plus one of the leftover units when
/// fewer entries than there are leftover units come before it.
pub open spec fn spec_share(amount: u64, ws: Seq<(u32, u64)>, i: int) -> int {
    spec_quotient(amount, ws, i) + if spec_rank(amount, ws, i, ws.len() as int) < spec_leftover(
        amount,
        ws,
    ) {
        1int
    } else {
        0
    }
}

/// The entry of validator `id`.
pub open spec fn spec_index_of(ws: Seq<(u32, u64)>, id: u32) -> int {
    choose|i: int| 0 <= i < ws.len() && ws[i].0 == id
}

/// `amount` shared out over the weights by the largest-remainder method:
/// proportional whole units, then the leftover units one each, by largest
/// remainder and then smallest id. Nothing is shared when the amount is
/// zero or there are no weights.
pub open spec fn spec_allocation(amount: u64, ws: Seq<(u32, u64)>) -> Map<u32, u64> {
    if amount == 0 || ws.len() == 0 {
        Map::empty()
    } else {
        Map::new(
            |id: u32| exists|i: int| 0 <= i < ws.len() && ws[i].0 == id,
            |id: u32| spec_share(amount, ws, spec_index_of(ws, id)) as u64,
        )
    }
}

/// No validator id occurs twice among the weights.
pub open spec fn spec_unique_ids(ws: Seq<(u32, u64)>) -> bool {
    forall|i: int, j: int| 0 <= i < j < ws.len() ==> ws[i].0 != ws[j].0
}

pub(crate) proof fn lemma_weight_sum_bounds(ws: Seq<(u32, u64)>, k: int)
    requires
        0 <= k <= ws.len(),
    ensures
        (forall|i: int| 0 <= i < ws.len() ==> (#[trigger] ws[i]).1 > 0) ==> spec_weight_sum(ws, k)
            >= k,
        spec_weight_sum(ws, k) >= 0,
        spec_weight_sum(ws, k) <= k * 18446744073709551615,
        forall|i: int| 0 <= i < k ==> (#[trigger] ws[i]).1 <= spec_weight_sum(ws, k),
    decreases k,
{
    if k > 0 {
        lemma_weight_sum_bounds(ws, k - 1);
    }
}

/// The whole units and remainders of the first `k` entries account for
/// `amount` times their weight.
proof fn lemma_division_sums(amount: u64, ws: Seq<(u32, u64)>, k: int)
    requires
        0 <= k <= ws.len(),
        spec_total_weight(ws) > 0,
    ensures
        spec_quotient_sum(amount, ws, k) * spec_total_weight(ws) + spec_remainder_sum(amount, ws, k)
            == amount * spec_weight_sum(ws, k),
        0 <= spec_remainder_sum(amount, ws, k) < k * spec_total_weight(ws) || k == 0,
        spec_quotient_sum(amount, ws, k) >= 0,
        spec_remainder_sum(amount, ws, k) >= 0,
    decreases k,
{
    if k > 0 {
        lemma_division_sums(amount, ws, k - 1);
        let t = spec_total_weight(ws);
        let x = amount * ws[k - 1].1;
        vstd::arithmetic::div_mod::lemma_fundamental_div_mod(x, t);
        vstd::arithmetic::div_mod::lemma_mod_bound(x, t);
        vstd::arithmetic::div_mod::lemma_div_pos_is_pos(x, t);
        assert(x >= 0) by (nonlinear_arith)
            requires
                amount >= 0,
                ws[k - 1].1 >= 0,
                x == amount * ws[k - 1].1,
        ;
        let qs = spec_quotient_sum(amount, ws, k - 1);
        let q = spec_quotient(amount, ws, k - 1);
        assert(q == x / t);
        assert(spec_remainder(amount, ws, k - 1) == x % t);
        assert(q * t == t * q) by (nonlinear_arith);
        assert(q * t + spec_remainder(amount, ws, k - 1) == x);
        assert((qs + q) * t == qs * t + q * t) by (nonlinear_arith);
        assert(amount * spec_weight_sum(ws, k) == amount * spec_weight_sum(ws, k - 1) + x)
            by (nonlinear_arith)
            requires
                spec_weight_sum(ws, k) == spec_weight_sum(ws, k - 1) + ws[k - 1].1,
                x == amount * ws[k - 1].1,
        ;
        assert(k * t == (k - 1) * t + t) by (nonlinear_arith);
    }
}

/// The sum of the first `k` remainders.
pub open spec fn spec_remainder_sum(amount: u64, ws: Seq<(u32, u64)>, k: int) -> int
    decreases k,
{
    if k <= 0 {
        0
    } else {
        spec_remainder_sum(amount, ws, k - 1) + spec_remainder(amount, ws, k - 1)
    }
}

/// The whole units never exceed the amount, and fewer units than entries
/// are left over.
pub(crate) proof fn lemma_leftover_bounds(amount: u64, ws: Seq<(u32, u64)>)
    requires
        ws.len() > 0,
        spec_total_weight(ws) > 0,
    ensures
        forall|k: int|
            0 <= k <= ws.len() ==> 0 <= #[trigger] spec_quotient_sum(amount, ws, k) <= amount,
        0 <= spec_leftover(amount, ws) < ws.len(),
        forall|i: int|
            0 <= i < ws.len() ==> 0 <= #[trigger] spec_quotient(amount, ws, i) <= amount
                - spec_quotient_sum(amount, ws, ws.len() as int) + spec_quotient(amount, ws, i),
{
    let n = ws.len() as int;
    let t = spec_total_weight(ws);
    lemma_weight_sum_bounds(ws, n);
    lemma_division_sums(amount, ws, n);
    let qn = spec_quotient_sum(amount, ws, n);
    let rn = spec_remainder_sum(amount, ws, n);
    assert(qn <= amount) by (nonlinear_arith)
        requires
            qn * t + rn == amount * t,
            rn >= 0,
            t > 0,
    ;
    assert(amount - qn < n) by (nonlinear_arith)
        requires
            qn * t + rn == amount * t,
            rn < n * t,
            t > 0,
    ;
    assert forall|k: int| 0 <= k <= n implies 0 <= #[trigger] spec_quotient_sum(amount, ws, k)
        <= amount by {
        lemma_division_sums(amount, ws, k);
        lemma_quotient_sum_monotone(amount, ws, k, n);
    }
    assert forall|i: int| 0 <= i < n implies 0 <= #[trigger] spec_quotient(amount, ws, i) by {
        vstd::arithmetic::div_mod::lemma_div_pos_is_pos(amount * ws[i].1, t);
        assert(amount * ws[i].1 >= 0) by (nonlinear_arith)
            requires
                amount >= 0,
                ws[i].1 >= 0,
        ;
    }
}

proof fn lemma_quotient_sum_monotone(amount: u64, ws: Seq<(u32, u64)>, k: int, n: int)
    requires
        0 <= k <= n <= ws.len(),
        spec_total_weight(ws) > 0,
    ensures
        spec_quotient_sum(amount, ws, k) <= spec_quotient_sum(amount, ws, n),
    decreases n - k,
{
    if k < n {
        lemma_quotient_sum_monotone(amount, ws, k, n - 1);
        let t = spec_total_weight(ws);
        vstd::arithmetic::div_mod::lemma_div_pos_is_pos(amount * ws[n - 1].1, t);
        assert(amount * ws[n - 1].1 >= 0) by (nonlinear_arith)
            requires
                amount >= 0,
                ws[n - 1].1 >= 0,
        ;
    }
}

/// One entry's whole units are part of the sum of all of them.
pub(crate) proof fn lemma_quotient_in_sum(amount: u64, ws: Seq<(u32, u64)>, i: int)
    requires
        0 <= i < ws.len(),
        spec_total_weight(ws) > 0,
    ensures
        spec_quotient(amount, ws, i) <= spec_quotient_sum(amount, ws, ws.len() as int),
{
    lemma_leftover_bounds(amount, ws);
    lemma_quotient_sum_monotone(amount, ws, i + 1, ws.len() as int);
    lemma_division_sums(amount, ws, i);
}

/// Shares `amount` out over the weights (see `spec_allocation`); a
/// non-zero amount cannot be shared over weights that are all zero.
fn allocate_asset_bucket(amount: u64, weights: &[(u32, u64)]) -> (r: Result<
    BTreeMap<u32, u64>,
    HushError,
>)
    requires
        spec_unique_ids(weights@),
    ensures
        r is Ok <==> (amount == 0 || weights@.len() == 0 || spec_total_weight(weights@) > 0),
        r is Ok ==> r->Ok_0@ == spec_allocation(amount, weights@),
        r is Err ==> r->Err_0 == HushError::ZeroTotalValidatorWeight,
{
    proof {
        lemma_integer_keys_ordered();
    }
    let mut allocations: BTreeMap<u32, u64> = BTreeMap::new();
    if amount == 0 || weights.len() == 0 {
        assert(allocations@ =~= spec_allocation(amount, weights@));
        return Ok(allocations);
    }
    let n = weights.len();
    let ghost ws = weights@;
    proof {
        lemma_weight_sum_bounds(ws, n as int);
    }
    let mut total: u128 = 0;
    for i in 0..n
        invariant
            n == ws.len(),
            ws == weights@,
            total == spec_weight_sum(ws, i as int),
            total <= i * 18446744073709551615,
    {
        proof {
            assert((i + 1) * 18446744073709551615 <= 18446744073709551615 * 18446744073709551615)
                by (nonlinear_arith)
                requires
                    i + 1 <= 18446744073709551615,
            ;
        }
        total = total + weights[i].1 as u128;
    }
    if total == 0 {
        return Err(HushError::ZeroTotalValidatorWeight);
    }
    proof {
        lemma_leftover_bounds(amount, ws);
    }
    let ghost t = spec_total_weight(ws);
    let mut distributed: u64 = 0;
    let mut quotients: Vec<u64> = Vec::new();
    let mut remainders: Vec<u128> = Vec::new();
    for i in 0..n
        invariant
            n == ws.len(),
            ws == weights@,
            total == t,
            t == spec_total_weight(ws),
            t > 0,
            amount > 0,
            forall|k: int| 0 <= k <= ws.len() ==> 0 <= #[trigger] spec_quotient_sum(amount, ws, k) <= amount,
            forall|k: int| 0 <= k < ws.len() ==> (#[trigger] ws[k]).1 <= t,
            distributed == spec_quotient_sum(amount, ws, i as int),
            quotients@.len() == i,
            remainders@.len() == i,
            forall|j: int| 0 <= j < i ==> #[trigger] quotients@[j] == spec_quotient(amount, ws, j),
            forall|j: int| 0 <= j < i ==> #[trigger] remainders@[j] == spec_remainder(amount, ws, j),
    {
        let w = weights[i].1;
        proof {
            assert(amount * w <= 18446744073709551615 * 18446744073709551615) by (nonlinear_arith)
                requires
                    amount <= 18446744073709551615,
                    w <= 18446744073709551615,
            ;
            assert((amount * w) / t <= amount) by (nonlinear_arith)
                requires
                    w <= t,
                    t > 0,
                    amount >= 0,
                    w >= 0,
            {
                vstd::arithmetic::div_mod::lemma_div_is_ordered(amount * w, amount * t, t);
                vstd::arithmetic::div_mod::lemma_div_by_multiple(amount as int, t);
            }
        }
        let product: u128 = amount as u128 * w as u128;
        let q: u128 = product / total;
        let r: u128 = product % total;
        quotients.push(q as u64);
        remainders.push(r);
        proof {
            assert(spec_quotient_sum(amount, ws, i + 1) <= amount);
        }
        distributed = distributed + q as u64;
    }
    let leftover: u64 = amount - distributed;
    for i in 0..n
        invariant
            n == ws.len(),
            ws == weights@,
            amount > 0,
            spec_unique_ids(ws),
            spec_total_weight(ws) > 0,
            leftover == spec_leftover(amount, ws),
            quotients@.len() == n,
            remainders@.len() == n,
            forall|j: int| 0 <= j < n ==> #[trigger] quotients@[j] == spec_quotient(amount, ws, j),
            forall|j: int| 0 <= j < n ==> #[trigger] remainders@[j] == spec_remainder(amount, ws, j),
            allocations@ == Map::new(
                |id: u32| exists|j: int| 0 <= j < i && ws[j].0 == id,
                |id: u32| spec_share(amount, ws, spec_index_of(ws, id)) as u64,
            ),
    {
        proof {
            lemma_integer_keys_ordered();
        }
        let mut rank: usize = 0;
        for j in 0..n
            invariant
                n == ws.len(),
                ws == weights@,
                0 <= i < n,
                remainders@.len() == n,
                forall|j: int| 0 <= j < n ==> #[trigger] remainders@[j] == spec_remainder(amount, ws, j),
                rank == spec_rank(amount, ws, i as int, j as int),
                rank <= j,
        {
            if remainders[j] > remainders[i] || (remainders[j] == remainders[i] && weights[j].0
                < weights[i].0) {
                rank = rank + 1;
            }
        }
        let bonus: u64 = if (rank as u64) < leftover {
            1
        } else {
            0
        };
        proof {
            lemma_quotient_in_sum(amount, ws, i as int);
        }
        let share: u64 = quotients[i] + bonus;
        let ghost id = ws[i as int].0;
        let ghost before = allocations@;
        allocations.insert(weights[i].0, share);
        proof {
            assert(spec_index_of(ws, id) == i) by {
                let c = spec_index_of(ws, id);
                assert(0 <= i < ws.len() && ws[i as int].0 == id);
                assert(0 <= c < ws.len() && ws[c].0 == id);
                if c != i {
                    if c < i {
                        assert(ws[c].0 != ws[i as int].0);
                    } else {
                        assert(ws[i as int].0 != ws[c].0);
                    }
                }
            }
            assert(allocations@ =~= Map::new(
                |id: u32| exists|j: int| 0 <= j < i + 1 && ws[j].0 == id,
                |id: u32| spec_share(amount, ws, spec_index_of(ws, id)) as u64,
            )) by {
                assert forall|x: u32| (exists|j: int| 0 <= j < i + 1 && ws[j].0 == x)
                    implies allocations@.contains_key(x) by {
                    let j = choose|j: int| 0 <= j < i + 1 && ws[j].0 == x;
                    if j < i {
                        assert(before.contains_key(x));
                    }
                }
                assert forall|x: u32| allocations@.contains_key(x) implies (exists|j: int|
                    0 <= j < i + 1 && ws[j].0 == x) by {
                    if x != id {
                        assert(before.contains_key(x));
                    } else {
                        assert(ws[i as int].0 == x);
                    }
                }
            }
        }
    }
    assert(allocations@ =~= spec_allocation(amount, weights@));
    Ok(allocations)
}

/// The fee pools, entitlements and history of one epoch.
pub struct EpochModel {
    pub epoch_index: u64,
    pub fee_pools: AssetFeeBuckets,
    pub validator_entitlements: Map<u32, ValidatorEpochEntitlement>,
    /// The ids of `validator_entitlements`, ascending.
    pub validator_order: Seq<u32>,
    pub applied_blocks: Set<u64>,
    pub seen_tx_ids: Set<u64>,
}

/// `s` is strictly increasing.
pub open spec fn spec_increasing(s: Seq<u32>) -> bool {
    forall|i: int, j: int| 0 <= i < j < s.len() ==> s[i] < s[j]
}

/// The epoch's invariant: the validator order lists the entitled
/// validators in ascending id order, and each entitlement is keyed by its
/// own validator id.
pub open spec fn spec_epoch_wf(m: EpochModel) -> bool {
    &&& spec_increasing(m.validator_order)
    &&& forall|id: u32| #[trigger] m.validator_entitlements.contains_key(id) <==> m.validator_order.contains(id)
    &&& forall|id: u32| #[trigger] m.validator_entitlements.contains_key(id) ==> m.validator_entitlements[id].validator_id == id
}

/// Marking a block's transaction ids seen, in order: the ids seen after,
/// and the first id that was seen before, if any (marking stops there).
pub open spec fn spec_accrue_ids(seen: Set<u64>, records: Seq<AcceptedTxRecord>) -> (Set<u64>, Option<u64>)
    decreases records.len(),
{
    if records.len() == 0 {
        (seen, None)
    } else {
        let (s, d) = spec_accrue_ids(seen, records.drop_last());
        if d is Some {
            (s, d)
        } else if s.contains(records.last().tx_id) {
            (s, Some(records.last().tx_id))
        } else {
            (s.insert(records.last().tx_id), None)
        }
    }
}

/// What an allocation gives validator `id` (nothing when absent).
pub open spec fn spec_alloc_of(a: Map<u32, u64>, id: u32) -> u64 {
    if a.contains_key(id) {
        a[id]
    } else {
        0
    }
}

/// The larger of two penalties.
pub open spec fn spec_max16(a: u16, b: u16) -> u16 {
    if a >= b {
        a
    } else {
        b
    }
}

/// Crediting one validator of the block's set: its entitlement (a fresh one
/// when it has none) takes its current stake and payout key, counts the
/// block as present (keeping the largest penalties) when it signed and as
/// missed otherwise, and gains its share of each bucket, HUSH, then USDC,
/// then USDT; an overflow stops there, keeping what was done.
pub open spec fn spec_credit_step(
    ents: Map<u32, ValidatorEpochEntitlement>,
    v: ValidatorStakeInfo,
    pmap: Map<u32, ValidatorBlockParticipation>,
    ah: Map<u32, u64>,
    au: Map<u32, u64>,
    at: Map<u32, u64>,
) -> (Map<u32, ValidatorEpochEntitlement>, Result<(), HushError>) {
    let id = v.validator_id;
    let base = if ents.contains_key(id) {
        ents[id]
    } else {
        ValidatorEpochEntitlement {
            validator_id: id,
            payout_key: v.payout_key,
            effective_stake: v.effective_stake,
            present_blocks: 0,
            missed_blocks: 0,
            max_liveness_penalty_bps: 0,
            max_slash_penalty_bps: 0,
            entitlement: AssetFeeBuckets { hush: 0, usdc: 0, usdt: 0 },
        }
    };
    let e1 = ValidatorEpochEntitlement {
        effective_stake: v.effective_stake,
        payout_key: v.payout_key,
        ..base
    };
    let e2 = if pmap.contains_key(id) && pmap[id].signed_block {
        ValidatorEpochEntitlement {
            present_blocks: (e1.present_blocks + 1) as u32,
            max_liveness_penalty_bps: spec_max16(
                e1.max_liveness_penalty_bps,
                pmap[id].liveness_penalty_bps,
            ),
            max_slash_penalty_bps: spec_max16(e1.max_slash_penalty_bps, pmap[id].slash_penalty_bps),
            ..e1
        }
    } else {
        ValidatorEpochEntitlement { missed_blocks: (e1.missed_blocks + 1) as u32, ..e1 }
    };
    let b = e2.entitlement;
    if b.hush + spec_alloc_of(ah, id) > u64::MAX {
        (ents.insert(id, e2), Err(HushError::EntitlementOverflow(3)))
    } else {
        let b1 = AssetFeeBuckets { hush: (b.hush + spec_alloc_of(ah, id)) as u64, ..b };
        if b1.usdc + spec_alloc_of(au, id) > u64::MAX {
            (
                ents.insert(id, ValidatorEpochEntitlement { entitlement: b1, ..e2 }),
                Err(HushError::EntitlementOverflow(1)),
            )
        } else {
            let b2 = AssetFeeBuckets { usdc: (b1.usdc + spec_alloc_of(au, id)) as u64, ..b1 };
            if b2.usdt + spec_alloc_of(at, id) > u64::MAX {
                (
                    ents.insert(id, ValidatorEpochEntitlement { entitlement: b2, ..e2 }),
                    Err(HushError::EntitlementOverflow(2)),
                )
            } else {
                let b3 = AssetFeeBuckets { usdt: (b2.usdt + spec_alloc_of(at, id)) as u64, ..b2 };
                (ents.insert(id, ValidatorEpochEntitlement { entitlement: b3, ..e2 }), Ok(()))
            }
        }
    }
}

/// Crediting the validators of the block's set in order, stopping at the
/// first failure.
pub open spec fn spec_credit_all(
    ents: Map<u32, ValidatorEpochEntitlement>,
    vals: Seq<ValidatorStakeInfo>,
    pmap: Map<u32, ValidatorBlockParticipation>,
    ah: Map<u32, u64>,
    au: Map<u32, u64>,
    at: Map<u32, u64>,
) -> (Map<u32, ValidatorEpochEntitlement>, Result<(), HushError>)
    decreases vals.len(),
{
    if vals.len() == 0 {
        (ents, Ok(()))
    } else {
        let (e, r) = spec_credit_all(ents, vals.drop_last(), pmap, ah, au, at);
        if r is Err {
            (e, r)
        } else {
            spec_credit_step(e, vals.last(), pmap, ah, au, at)
        }
    }
}

/// Some bucket of `b` is not empty.
pub open spec fn spec_nonzero(b: AssetFeeBuckets) -> bool {
    b.hush > 0 || b.usdc > 0 || b.usdt > 0
}

/// Accruing a block into the epoch, step by step as the accumulator does
/// it: the block must reconcile and be new to the epoch (it is then marked
/// applied), its transaction ids must be new to the epoch (each is marked
/// seen), the validator set and participation must be well formed, its
/// buckets are added to the fee pools, some validator must carry weight
/// when a bucket is not empty, and every validator of the set is then
/// credited with its share. The state after a failure keeps the steps made
/// before it.
pub open spec fn spec_apply_block(
    m: EpochModel,
    block_height: u64,
    fee_buckets: AssetFeeBuckets,
    tx_counts_by_asset: AssetTxCounts,
    tx_counts_by_kind: Map<u32, u32>,
    records: Seq<AcceptedTxRecord>,
    vals: Seq<ValidatorStakeInfo>,
    parts: Seq<ValidatorBlockParticipation>,
) -> (EpochModel, Result<(), HushError>) {
    match spec_block_check(fee_buckets, tx_counts_by_asset, tx_counts_by_kind, records) {
        Err(e) => (m, Err(e)),
        Ok(_) => if m.applied_blocks.contains(block_height) {
            (
                m,
                Err(
                    HushError::BlockAlreadyAccrued { block_height, epoch_index: m.epoch_index },
                ),
            )
        } else {
            let (seen, dup) = spec_accrue_ids(m.seen_tx_ids, records);
            let m2 = EpochModel {
                applied_blocks: m.applied_blocks.insert(block_height),
                seen_tx_ids: seen,
                ..m
            };
            if dup is Some {
                (m2, Err(HushError::TxAlreadyAccruedInEpoch(dup->Some_0)))
            } else {
                match spec_validator_map(vals) {
                    Err(e) => (m2, Err(e)),
                    Ok(vmap) => match spec_participation_map(parts, vmap) {
                        Err(e) => (m2, Err(e)),
                        Ok(pmap) => {
                            let (pools, added) = spec_add_buckets(m2.fee_pools, fee_buckets);
                            let m3 = EpochModel { fee_pools: pools, ..m2 };
                            if added is Err {
                                (m3, added)
                            } else {
                                let ws = spec_weights(vals, pmap);
                                if spec_nonzero(fee_buckets) && ws.len() == 0 {
                                    (m3, Err(HushError::NoActiveValidators))
                                } else {
                                    let (ents, res) = spec_credit_all(
                                        m3.validator_entitlements,
                                        vals,
                                        pmap,
                                        spec_allocation(fee_buckets.hush, ws),
                                        spec_allocation(fee_buckets.usdc, ws),
                                        spec_allocation(fee_buckets.usdt, ws),
                                    );
                                    (EpochModel { validator_entitlements: ents, ..m3 }, res)
                                }
                            }
                        },
                    },
                }
            }
        }
    }
}

/// Two epoch states that agree on everything but the order list (which
/// the invariant fixes from the entitlements).
pub open spec fn spec_same_epoch(a: EpochModel, b: EpochModel) -> bool {
    &&& a.epoch_index == b.epoch_index
    &&& a.fee_pools == b.fee_pools
    &&& a.validator_entitlements == b.validator_entitlements
    &&& a.applied_blocks == b.applied_blocks
    &&& a.seen_tx_ids == b.seen_tx_ids
}

/// No validator id occurs twice in the set.
pub open spec fn spec_unique_validators(vals: Seq<ValidatorStakeInfo>) -> bool {
    forall|i: int, j: int| 0 <= i < j < vals.len() ==> vals[i].validator_id != vals[j].validator_id
}

pub(crate) proof fn lemma_validator_map_unique(vals: Seq<ValidatorStakeInfo>)
    requires
        spec_validator_map(vals) is Ok,
    ensures
        spec_unique_validators(vals),
        forall|id: u32| #[trigger] spec_validator_map(vals)->Ok_0.contains_key(id) <==> exists|i: int|
            0 <= i < vals.len() && vals[i].validator_id == id,
    decreases vals.len(),
{
    if vals.len() > 0 {
        let pre = vals.drop_last();
        lemma_validator_map_unique(pre);
        let m = spec_validator_map(pre)->Ok_0;
        assert forall|i: int, j: int| 0 <= i < j < vals.len() implies vals[i].validator_id
            != vals[j].validator_id by {
            if j == vals.len() - 1 {
                assert(pre[i] == vals[i]);
                assert(m.contains_key(pre[i].validator_id));
            } else {
                assert(pre[i] == vals[i] && pre[j] == vals[j]);
            }
        }
        assert forall|id: u32| #[trigger] spec_validator_map(vals)->Ok_0.contains_key(id) implies exists|i: int|
            0 <= i < vals.len() && vals[i].validator_id == id by {
            if id != vals.last().validator_id {
                let i = choose|i: int| 0 <= i < pre.len() && pre[i].validator_id == id;
                assert(vals[i] == pre[i]);
            } else {
                assert(vals[vals.len() - 1].validator_id == id);
            }
        }
        assert forall|id: u32| (exists|i: int| 0 <= i < vals.len() && vals[i].validator_id == id)
            implies #[trigger] spec_validator_map(vals)->Ok_0.contains_key(id) by {
            let i = choose|i: int| 0 <= i < vals.len() && vals[i].validator_id == id;
            if i < vals.len() - 1 {
                assert(pre[i] == vals[i]);
            }
        }
    }
}

pub(crate) proof fn lemma_weights_unique(vals: Seq<ValidatorStakeInfo>, pmap: Map<u32, ValidatorBlockParticipation>)
    requires
        spec_unique_validators(vals),
        spec_weights_fit(vals, pmap),
    ensures
        spec_unique_ids(spec_weights(vals, pmap)),
    decreases vals.len(),
{
    if vals.len() > 0 {
        let pre = vals.drop_last();
        assert forall|i: int| 0 <= i < pre.len() implies #[trigger] spec_signer_weight(pre[i], pmap)
            <= u64::MAX by {
            assert(pre[i] == vals[i]);
        }
        lemma_weights_unique(pre, pmap);
        lemma_weights_shape(pre, pmap);
        let ws = spec_weights(pre, pmap);
        let v = vals.last();
        assert forall|i: int| 0 <= i < ws.len() implies #[trigger] ws[i].0 != v.validator_id by {
            let j = choose|j: int| 0 <= j < pre.len() && (#[trigger] pre[j]).validator_id == ws[i].0;
            assert(vals[j] == pre[j]);
        }
    }
}

proof fn lemma_accrue_prefix(seen: Set<u64>, records: Seq<AcceptedTxRecord>, i: int)
    requires
        0 <= i <= records.len(),
        spec_accrue_ids(seen, records.take(i)).1 is Some,
    ensures
        spec_accrue_ids(seen, records) == spec_accrue_ids(seen, records.take(i)),
    decreases records.len() - i,
{
    if i < records.len() {
        assert(records.take(i + 1).drop_last() =~= records.take(i));
        lemma_accrue_prefix(seen, records, i + 1);
    } else {
        assert(records.take(i) =~= records);
    }
}

proof fn lemma_credit_prefix(
    ents: Map<u32, ValidatorEpochEntitlement>,
    vals: Seq<ValidatorStakeInfo>,
    pmap: Map<u32, ValidatorBlockParticipation>,
    ah: Map<u32, u64>,
    au: Map<u32, u64>,
    at: Map<u32, u64>,
    i: int,
)
    requires
        0 <= i <= vals.len(),
        spec_credit_all(ents, vals.take(i), pmap, ah, au, at).1 is Err,
    ensures
        spec_credit_all(ents, vals, pmap, ah, au, at) == spec_credit_all(ents, vals.take(i), pmap, ah, au, at),
    decreases vals.len() - i,
{
    if i < vals.len() {
        assert(vals.take(i + 1).drop_last() =~= vals.take(i));
        lemma_credit_prefix(ents, vals, pmap, ah, au, at, i + 1);
    } else {
        assert(vals.take(i) =~= vals);
    }
}

/// Inserts `id` into an ascending list that lacks it, keeping it ascending.
fn insert_sorted(order: &mut Vec<u32>, id: u32)
    requires
        spec_increasing(old(order)@),
        !old(order)@.contains(id),
    ensures
        spec_increasing(final(order)@),
        forall|x: u32| #[trigger] final(order)@.contains(x) <==> (old(order)@.contains(x) || x == id),
{
    let mut pos: usize = 0;
    while pos < order.len() && order[pos] < id
        invariant
            pos <= order@.len(),
            forall|k: int| 0 <= k < pos ==> #[trigger] order@[k] < id,
        decreases order@.len() - pos,
    {
        pos = pos + 1;
    }
    let ghost before = order@;
    proof {
        if pos < before.len() {
            assert(before[pos as int] != id);
        }
    }
    order.insert(pos, id);
    proof {
        let after = order@;
        assert(after.len() == before.len() + 1);
        assert forall|k: int| 0 <= k < after.len() implies #[trigger] after[k] == (if k < pos {
            before[k]
        } else if k == pos {
            id
        } else {
            before[k - 1]
        }) by {}
        assert forall|x: u32| #[trigger] after.contains(x) <==> (before.contains(x) || x == id) by {
            if after.contains(x) {
                let k = choose|k: int| 0 <= k < after.len() && after[k] == x;
                if k < pos {
                    assert(before[k] == x);
                } else if k > pos {
                    assert(before[k - 1] == x);
                }
            }
            if before.contains(x) {
                let k = choose|k: int| 0 <= k < before.len() && before[k] == x;
                if k < pos {
                    assert(after[k] == x);
                } else {
                    assert(after[k + 1] == x);
                }
            }
            if x == id {
                assert(after[pos as int] == x);
            }
        }
    }
}

/// Accrues blocks into one epoch's fee pools and validator entitlements.
pub struct EpochAccumulator {
    epoch_index: u64,
    fee_pools: AssetFeeBuckets,
    validator_entitlements: BTreeMap<u32, ValidatorEpochEntitlement>,
    validator_order: Vec<u32>,
    applied_blocks: BTreeSet<u64>,
    seen_tx_ids: BTreeSet<u64>,
}

impl View for EpochAccumulator {
    type V = EpochModel;

    closed spec fn view(&self) -> EpochModel {
        EpochModel {
            epoch_index: self.epoch_index,
            fee_pools: self.fee_pools,
            validator_entitlements: self.validator_entitlements@,
            validator_order: self.validator_order@,
            applied_blocks: self.applied_blocks@,
            seen_tx_ids: self.seen_tx_ids@,
        }
    }
}

/// The claimable payouts of an epoch: one record per validator with a
/// non-empty entitlement, in the given (ascending id) order.
pub open spec fn spec_payouts(
    epoch_index: u64,
    ents: Map<u32, ValidatorEpochEntitlement>,
    order: Seq<u32>,
) -> Seq<ClaimablePayoutRecord>
    decreases order.len(),
{
    if order.len() == 0 {
        Seq::empty()
    } else {
        let rest = spec_payouts(epoch_index, ents, order.drop_last());
        let e = ents[order.last()];
        if e.entitlement == (AssetFeeBuckets { hush: 0, usdc: 0, usdt: 0 }) {
            rest
        } else {
            rest.push(
                ClaimablePayoutRecord {
                    epoch_index,
                    validator_id: e.validator_id,
                    payout_key: e.payout_key,
                    entitlement: e.entitlement,
                },
            )
        }
    }
}

/// The sum of payout entitlements, bucket by bucket, or the first overflow.
pub open spec fn spec_sum_payouts(records: Seq<ClaimablePayoutRecord>) -> Result<
    AssetFeeBuckets,
    HushError,
>
    decreases records.len(),
{
    if records.len() == 0 {
        Ok(AssetFeeBuckets { hush: 0, usdc: 0, usdt: 0 })
    } else {
        match spec_sum_payouts(records.drop_last()) {
            Err(e) => Err(e),
            Ok(t) => match spec_add_buckets(t, records.last().entitlement).1 {
                Err(e) => Err(e),
                Ok(_) => Ok(spec_add_buckets(t, records.last().entitlement).0),
            },
        }
    }
}

/// The result of closing an epoch.
#[derive(Clone, Debug)]
pub struct EpochSettlement {
    pub epoch_index: u64,
    pub fee_pools: AssetFeeBuckets,
    pub validator_entitlements: BTreeMap<u32, ValidatorEpochEntitlement>,
    pub payout_records: Vec<ClaimablePayoutRecord>,
    pub applied_block_count: u32,
}

impl EpochSettlement {
    /// The payouts summed bucket by bucket.
    pub fn total_payouts(&self) -> (r: Result<AssetFeeBuckets, HushError>)
        ensures
            r == spec_sum_payouts(self.payout_records@),
    {
        let mut totals = AssetFeeBuckets::default();
        let n = self.payout_records.len();
        for i in 0..n
            invariant
                n == self.payout_records@.len(),
                spec_sum_payouts(self.payout_records@.take(i as int)) == Ok::<
                    AssetFeeBuckets,
                    HushError,
                >(totals),
        {
            proof {
                assert(self.payout_records@.take(i + 1).drop_last() =~= self.payout_records@.take(
                    i as int,
                ));
            }
            let e = self.payout_records[i].entitlement;
            match totals.add_assign(&e) {
                Ok(()) => {},
                Err(err) => {
                    proof {
                        lemma_sum_payouts_prefix(self.payout_records@, i + 1);
                    }
                    return Err(err);
                },
            }
        }
        proof {
            assert(self.payout_records@.take(n as int) =~= self.payout_records@);
        }
        Ok(totals)
    }

    /// The first payout record of a validator, if it has one.
    pub fn payout_record_for_validator(&self, validator_id: u32) -> (r: Option<
        &ClaimablePayoutRecord,
    >)
        ensures
            match r {
                Some(rec) => exists|i: int|
                    0 <= i < self.payout_records@.len() && self.payout_records@[i] == *rec
                        && rec.validator_id == validator_id && forall|j: int|
                        0 <= j < i ==> #[trigger] self.payout_records@[j].validator_id
                            != validator_id,
                None => forall|j: int|
                    0 <= j < self.payout_records@.len() ==> #[trigger] self.payout_records@[j].validator_id
                        != validator_id,
            },
    {
        let n = self.payout_records.len();
        for i in 0..n
            invariant
                n == self.payout_records@.len(),
                forall|j: int| 0 <= j < i ==> #[trigger] self.payout_records@[j].validator_id != validator_id,
        {
            if self.payout_records[i].validator_id == validator_id {
                return Some(&self.payout_records[i]);
            }
        }
        None
    }
}

proof fn lemma_sum_payouts_prefix(records: Seq<ClaimablePayoutRecord>, i: int)
    requires
        0 <= i <= records.len(),
        spec_sum_payouts(records.take(i)) is Err,
    ensures
        spec_sum_payouts(records) == spec_sum_payouts(records.take(i)),
    decreases records.len() - i,
{
    if i < records.len() {
        assert(records.take(i + 1).drop_last() =~= records.take(i));
        lemma_sum_payouts_prefix(records, i + 1);
    } else {
        assert(records.take(i) =~= records);
    }
}


impl EpochAccumulator {
    /// An empty epoch.
    pub fn new(epoch_index: u64) -> (r: Self)
        ensures
            r@ == (EpochModel {
                epoch_index,
                fee_pools: AssetFeeBuckets { hush: 0, usdc: 0, usdt: 0 },
                validator_entitlements: Map::empty(),
                validator_order: Seq::empty(),
                applied_blocks: Set::empty(),
                seen_tx_ids: Set::empty(),
            }),
            spec_epoch_wf(r@),
            spec_reconciled(r@),
    {
        proof {
            lemma_new_epoch_reconciled(epoch_index);
        }
        EpochAccumulator {
            epoch_index,
            fee_pools: AssetFeeBuckets::default(),
            validator_entitlements: BTreeMap::new(),
            validator_order: Vec::new(),
            applied_blocks: BTreeSet::new(),
            seen_tx_ids: BTreeSet::new(),
        }
    }

    /// The fee pools so far.
    pub fn fee_pools(&self) -> (r: AssetFeeBuckets)
        ensures
            r == self@.fee_pools,
    {
        self.fee_pools
    }

    /// Credits one validator of the block's set (see `spec_credit_step`).
    fn credit_validator(
        &mut self,
        v: ValidatorStakeInfo,
        participation_map: &BTreeMap<u32, ValidatorBlockParticipation>,
        hush: &BTreeMap<u32, u64>,
        usdc: &BTreeMap<u32, u64>,
        usdt: &BTreeMap<u32, u64>,
    ) -> (r: Result<(), HushError>)
        requires
            spec_epoch_wf(old(self)@),
            old(self)@.validator_entitlements.contains_key(v.validator_id) ==> {
                &&& old(self)@.validator_entitlements[v.validator_id].present_blocks < u32::MAX
                &&& old(self)@.validator_entitlements[v.validator_id].missed_blocks < u32::MAX
            },
        ensures
            spec_epoch_wf(final(self)@),
            (final(self)@.validator_entitlements, r) == spec_credit_step(
                old(self)@.validator_entitlements,
                v,
                participation_map@,
                hush@,
                usdc@,
                usdt@,
            ),
            final(self)@.epoch_index == old(self)@.epoch_index,
            final(self)@.fee_pools == old(self)@.fee_pools,
            final(self)@.applied_blocks == old(self)@.applied_blocks,
            final(self)@.seen_tx_ids == old(self)@.seen_tx_ids,
    {
        proof {
            lemma_integer_keys_ordered();
        }
        let id = v.validator_id;
        let base = match self.validator_entitlements.get(&id) {
            Some(e) => *e,
            None => {
                insert_sorted(&mut self.validator_order, id);
                ValidatorEpochEntitlement {
                    validator_id: id,
                    payout_key: v.payout_key,
                    effective_stake: v.effective_stake,
                    present_blocks: 0,
                    missed_blocks: 0,
                    max_liveness_penalty_bps: 0,
                    max_slash_penalty_bps: 0,
                    entitlement: AssetFeeBuckets::default(),
                }
            },
        };
        let mut e = base;
        e.effective_stake = v.effective_stake;
        e.payout_key = v.payout_key;
        let signed = match participation_map.get(&id) {
            Some(p) => {
                if p.signed_block {
                    e.present_blocks = e.present_blocks + 1;
                    e.max_liveness_penalty_bps = if e.max_liveness_penalty_bps
                        >= p.liveness_penalty_bps {
                        e.max_liveness_penalty_bps
                    } else {
                        p.liveness_penalty_bps
                    };
                    e.max_slash_penalty_bps = if e.max_slash_penalty_bps >= p.slash_penalty_bps {
                        e.max_slash_penalty_bps
                    } else {
                        p.slash_penalty_bps
                    };
                }
                p.signed_block
            },
            None => false,
        };
        if !signed {
            e.missed_blocks = e.missed_blocks + 1;
        }
        let gh = match hush.get(&id) {
            Some(x) => *x,
            None => 0,
        };
        let gu = match usdc.get(&id) {
            Some(x) => *x,
            None => 0,
        };
        let gt = match usdt.get(&id) {
            Some(x) => *x,
            None => 0,
        };
        match e.entitlement.hush.checked_add(gh) {
            Some(x) => {
                e.entitlement.hush = x;
            },
            None => {
                self.validator_entitlements.insert(id, e);
                return Err(HushError::EntitlementOverflow(3));
            },
        }
        match e.entitlement.usdc.checked_add(gu) {
            Some(x) => {
                e.entitlement.usdc = x;
            },
            None => {
                self.validator_entitlements.insert(id, e);
                return Err(HushError::EntitlementOverflow(1));
            },
        }
        match e.entitlement.usdt.checked_add(gt) {
            Some(x) => {
                e.entitlement.usdt = x;
            },
            None => {
                self.validator_entitlements.insert(id, e);
                return Err(HushError::EntitlementOverflow(2));
            },
        }
        self.validator_entitlements.insert(id, e);
        Ok(())
    }
}



/// Wherever accruing a block reaches the weighing of its signers, every
/// signer's weight fits in a `u64`; the steps that refuse the block earlier
/// ask nothing of the stakes.
pub open spec fn spec_apply_weights_fit(
    m: EpochModel,
    block_height: u64,
    fee_buckets: AssetFeeBuckets,
    tx_counts_by_asset: AssetTxCounts,
    tx_counts_by_kind: Map<u32, u32>,
    records: Seq<AcceptedTxRecord>,
    vals: Seq<ValidatorStakeInfo>,
    parts: Seq<ValidatorBlockParticipation>,
) -> bool {
    spec_block_check(fee_buckets, tx_counts_by_asset, tx_counts_by_kind, records) is Ok
        && !m.applied_blocks.contains(block_height)
        && spec_accrue_ids(m.seen_tx_ids, records).1 is None
        && spec_validator_map(vals) is Ok
        && spec_participation_map(parts, spec_validator_map(vals)->Ok_0) is Ok
        && spec_add_buckets(m.fee_pools, fee_buckets).1 is Ok
        ==> spec_weights_fit(
        vals,
        spec_participation_map(parts, spec_validator_map(vals)->Ok_0)->Ok_0,
    )
}

/// Crediting leaves the entitlement of a validator outside the set as it was.
pub(crate) proof fn lemma_credit_all_frame(
    ents: Map<u32, ValidatorEpochEntitlement>,
    vals: Seq<ValidatorStakeInfo>,
    pmap: Map<u32, ValidatorBlockParticipation>,
    ah: Map<u32, u64>,
    au: Map<u32, u64>,
    at: Map<u32, u64>,
    id: u32,
)
    requires
        forall|j: int| 0 <= j < vals.len() ==> #[trigger] vals[j].validator_id != id,
    ensures
        spec_credit_all(ents, vals, pmap, ah, au, at).0.contains_key(id) == ents.contains_key(id),
        ents.contains_key(id) ==> spec_credit_all(ents, vals, pmap, ah, au, at).0[id] == ents[id],
    decreases vals.len(),
{
    if vals.len() > 0 {
        let pre = vals.drop_last();
        assert forall|j: int| 0 <= j < pre.len() implies #[trigger] pre[j].validator_id != id by {
            assert(pre[j] == vals[j]);
        }
        lemma_credit_all_frame(ents, pre, pmap, ah, au, at, id);
        assert(vals[vals.len() - 1].validator_id != id);
    }
}

impl EpochAccumulator {
    /// Accrues a block into the epoch (see `spec_apply_block`).
    pub fn apply_block(
        &mut self,
        block: &BlockAccountingRecord,
        validator_set: &[ValidatorStakeInfo],
        participation: &[ValidatorBlockParticipation],
    ) -> (r: Result<(), HushError>)
        requires
            spec_epoch_wf(old(self)@),
            block.accepted_transactions@.len() < u32::MAX,
            spec_apply_weights_fit(
                old(self)@,
                block.block_height,
                block.fee_buckets,
                block.tx_counts_by_asset,
                block.tx_counts_by_kind@,
                block.accepted_transactions@,
                validator_set@,
                participation@,
            ),
            forall|id: u32| #[trigger]
                old(self)@.validator_entitlements.contains_key(id) ==> {
                    &&& old(self)@.validator_entitlements[id].present_blocks < u32::MAX
                    &&& old(self)@.validator_entitlements[id].missed_blocks < u32::MAX
                },
        ensures
            spec_epoch_wf(final(self)@),
            spec_same_epoch(
                final(self)@,
                spec_apply_block(
                    old(self)@,
                    block.block_height,
                    block.fee_buckets,
                    block.tx_counts_by_asset,
                    block.tx_counts_by_kind@,
                    block.accepted_transactions@,
                    validator_set@,
                    participation@,
                ).0,
            ),
            r == spec_apply_block(
                old(self)@,
                block.block_height,
                block.fee_buckets,
                block.tx_counts_by_asset,
                block.tx_counts_by_kind@,
                block.accepted_transactions@,
                validator_set@,
                participation@,
            ).1,
            spec_reconciled(old(self)@) && r is Ok ==> spec_reconciled(final(self)@),
    {
        proof {
            lemma_integer_keys_ordered();
        }
        block.validate()?;
        if !self.applied_blocks.insert(block.block_height) {
            assert(self.applied_blocks@ =~= old(self).applied_blocks@);
            return Err(
                HushError::BlockAlreadyAccrued {
                    block_height: block.block_height,
                    epoch_index: self.epoch_index,
                },
            );
        }
        let records = &block.accepted_transactions;
        let n = records.len();
        let ghost seen0 = old(self)@.seen_tx_ids;
        for i in 0..n
            invariant
                n == records@.len(),
                records@ == block.accepted_transactions@,
                spec_accrue_ids(seen0, records@.take(i as int)) == (self.seen_tx_ids@, None::<u64>),
                self.epoch_index == old(self).epoch_index,
                self.fee_pools == old(self).fee_pools,
                self.validator_entitlements@ == old(self)@.validator_entitlements,
                self.validator_order@ == old(self)@.validator_order,
                self.applied_blocks@ == old(self)@.applied_blocks.insert(block.block_height),
                !old(self)@.applied_blocks.contains(block.block_height),
                spec_block_check(
                    block.fee_buckets,
                    block.tx_counts_by_asset,
                    block.tx_counts_by_kind@,
                    block.accepted_transactions@,
                ) is Ok,
                seen0 == old(self)@.seen_tx_ids,
                spec_epoch_wf(old(self)@),
        {
            proof {
                lemma_integer_keys_ordered();
                assert(records@.take(i + 1).drop_last() =~= records@.take(i as int));
            }
            let id = records[i].tx_id;
            if !self.seen_tx_ids.insert(id) {
                proof {
                    assert(self.seen_tx_ids@ =~= spec_accrue_ids(seen0, records@.take(i + 1)).0);
                    lemma_accrue_prefix(seen0, records@, i + 1);
                }
                return Err(HushError::TxAlreadyAccruedInEpoch(id));
            }
        }
        proof {
            assert(records@.take(n as int) =~= records@);
        }
        let validator_map = build_validator_map(validator_set)?;
        let participation_map = build_participation_map(participation, &validator_map)?;
        self.fee_pools.add_assign(&block.fee_buckets)?;
        let weights = compute_weights(validator_set, &participation_map);
        if (block.fee_buckets.hush > 0 || block.fee_buckets.usdc > 0 || block.fee_buckets.usdt > 0)
            && weights.len() == 0 {
            return Err(HushError::NoActiveValidators);
        }
        proof {
            lemma_validator_map_unique(validator_set@);
            lemma_weights_unique(validator_set@, participation_map@);
            lemma_weights_shape(validator_set@, participation_map@);
            lemma_weight_sum_bounds(weights@, weights@.len() as int);
        }
        let hush_allocations = allocate_asset_bucket(block.fee_buckets.hush, weights.as_slice())?;
        let usdc_allocations = allocate_asset_bucket(block.fee_buckets.usdc, weights.as_slice())?;
        let usdt_allocations = allocate_asset_bucket(block.fee_buckets.usdt, weights.as_slice())?;
        let ghost ents0 = self@.validator_entitlements;
        let ghost target = spec_apply_block(
            old(self)@,
            block.block_height,
            block.fee_buckets,
            block.tx_counts_by_asset,
            block.tx_counts_by_kind@,
            block.accepted_transactions@,
            validator_set@,
            participation@,
        );
        let m = validator_set.len();
        for i in 0..m
            invariant
                m == validator_set@.len(),
                spec_unique_validators(validator_set@),
                spec_epoch_wf(self@),
                spec_credit_all(
                    ents0,
                    validator_set@.take(i as int),
                    participation_map@,
                    hush_allocations@,
                    usdc_allocations@,
                    usdt_allocations@,
                ) == (self@.validator_entitlements, Ok::<(), HushError>(())),
                forall|id: u32| #[trigger]
                    ents0.contains_key(id) ==> {
                        &&& ents0[id].present_blocks < u32::MAX
                        &&& ents0[id].missed_blocks < u32::MAX
                    },
                self.epoch_index == old(self).epoch_index,
                target == spec_apply_block(
                    old(self)@,
                    block.block_height,
                    block.fee_buckets,
                    block.tx_counts_by_asset,
                    block.tx_counts_by_kind@,
                    block.accepted_transactions@,
                    validator_set@,
                    participation@,
                ),
                self@.fee_pools == target.0.fee_pools,
                self@.applied_blocks == target.0.applied_blocks,
                self@.seen_tx_ids == target.0.seen_tx_ids,
                self.epoch_index == target.0.epoch_index,
                target.0.validator_entitlements == spec_credit_all(
                    ents0,
                    validator_set@,
                    participation_map@,
                    hush_allocations@,
                    usdc_allocations@,
                    usdt_allocations@,
                ).0,
                target.1 == spec_credit_all(
                    ents0,
                    validator_set@,
                    participation_map@,
                    hush_allocations@,
                    usdc_allocations@,
                    usdt_allocations@,
                ).1,
        {
            let v = validator_set[i];
            proof {
                assert(validator_set@.take(i + 1).drop_last() =~= validator_set@.take(i as int));
                assert forall|j: int| 0 <= j < i implies #[trigger] validator_set@.take(i as int)[j].validator_id
                    != v.validator_id by {
                    assert(validator_set@.take(i as int)[j] == validator_set@[j]);
                }
            }
            proof {
                lemma_credit_all_frame(
                    ents0,
                    validator_set@.take(i as int),
                    participation_map@,
                    hush_allocations@,
                    usdc_allocations@,
                    usdt_allocations@,
                    v.validator_id,
                );
            }
            match self.credit_validator(
                v,
                &participation_map,
                &hush_allocations,
                &usdc_allocations,
                &usdt_allocations,
            ) {
                Ok(()) => {},
                Err(e) => {
                    proof {
                        lemma_credit_prefix(
                            ents0,
                            validator_set@,
                            participation_map@,
                            hush_allocations@,
                            usdc_allocations@,
                            usdt_allocations@,
                            i + 1,
                        );
                    }
                    return Err(e);
                },
            }
        }
        proof {
            assert(validator_set@.take(m as int) =~= validator_set@);
            if spec_reconciled(old(self)@) {
                lemma_apply_block_keeps_reconciled(
                    old(self)@,
                    block.block_height,
                    block.fee_buckets,
                    block.tx_counts_by_asset,
                    block.tx_counts_by_kind@,
                    block.accepted_transactions@,
                    validator_set@,
                    participation@,
                    self@,
                );
            }
        }
        Ok(())
    }
}


/// Closing an epoch: its payouts must sum to its fee pools; `Ok` then, or
/// the sum's overflow, or the mismatch.
pub open spec fn spec_close_check(m: EpochModel) -> Result<(), HushError> {
    match spec_sum_payouts(spec_payouts(m.epoch_index, m.validator_entitlements, m.validator_order)) {
        Err(e) => Err(e),
        Ok(t) => if t != m.fee_pools {
            Err(HushError::PayoutsDoNotReconcile)
        } else {
            Ok(())
        },
    }
}

impl EpochAccumulator {
    /// Closes the epoch: one payout record per validator with a non-empty
    /// entitlement, in ascending validator id order, once the payouts
    /// reconcile with the fee pools.
    pub fn close(self) -> (r: Result<EpochSettlement, HushError>)
        requires
            spec_epoch_wf(self@),
        ensures
            match spec_close_check(self@) {
                Err(e) => r matches Err(x) && x == e,
                Ok(_) => r matches Ok(s) && {
                    &&& s.epoch_index == self@.epoch_index
                    &&& s.fee_pools == self@.fee_pools
                    &&& s.validator_entitlements@ == self@.validator_entitlements
                    &&& s.payout_records@ == spec_payouts(
                        self@.epoch_index,
                        self@.validator_entitlements,
                        self@.validator_order,
                    )
                    &&& s.applied_block_count == self@.applied_blocks.len() as u32
                },
            },
            spec_reconciled(self@) ==> (r matches Ok(s) && spec_sum_payouts(s.payout_records@)
                == Ok::<AssetFeeBuckets, HushError>(s.fee_pools)),
    {
        proof {
            if spec_reconciled(self@) {
                lemma_reconciled_epoch_closes(self@);
            }
        }
        proof {
            lemma_integer_keys_ordered();
        }
        let mut payout_records: Vec<ClaimablePayoutRecord> = Vec::new();
        let n = self.validator_order.len();
        for i in 0..n
            invariant
                n == self.validator_order@.len(),
                spec_epoch_wf(self@),
                payout_records@ == spec_payouts(
                    self.epoch_index,
                    self@.validator_entitlements,
                    self.validator_order@.take(i as int),
                ),
        {
            proof {
                lemma_integer_keys_ordered();
                assert(self.validator_order@.take(i + 1).drop_last() =~= self.validator_order@.take(
                    i as int,
                ));
                assert(self@.validator_order.contains(self.validator_order@[i as int]));
            }
            let id = self.validator_order[i];
            let e = match self.validator_entitlements.get(&id) {
                Some(e) => *e,
                None => {
                    return unreached();
                },
            };
            if e.entitlement != AssetFeeBuckets::default() {
                payout_records.push(
                    ClaimablePayoutRecord {
                        epoch_index: self.epoch_index,
                        validator_id: e.validator_id,
                        payout_key: e.payout_key,
                        entitlement: e.entitlement,
                    },
                );
            }
        }
        proof {
            assert(self.validator_order@.take(n as int) =~= self.validator_order@);
        }
        let applied_block_count = self.applied_blocks.len() as u32;
        let settlement = EpochSettlement {
            epoch_index: self.epoch_index,
            fee_pools: self.fee_pools,
            validator_entitlements: self.validator_entitlements,
            payout_records,
            applied_block_count,
        };
        let payout_totals = settlement.total_payouts()?;
        if payout_totals != settlement.fee_pools {
            return Err(HushError::PayoutsDoNotReconcile);
        }
        Ok(settlement)
    }
}

} // verus!
