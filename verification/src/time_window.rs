//! The time-window audit statement: the in-window amounts among a holder's
//! transactions sum to the claimed total, and the holder holds a live
//! attestation in the attestation tree.

use vstd::prelude::*;

use crate::error::HushError;
use crate::m31::{freduce, m31_from_u32};
use crate::merkle::{spec_words_path_root, verify_words_path};
use crate::payment_tx::{lemma_hash_array, spec_hash_array};
use crate::poseidon2::{
    attestation_commitment, attestation_nullifier, derive_issuer_id, derive_owner,
    hashout_to_u32_array, spec_derive_owner, spec_sponge, spec_to_hashout, DOMAIN_CRED_CM,
    DOMAIN_CRED_NULL, DOMAIN_ISSUER_ID,
};
use crate::types::MERKLE_DEPTH;

verus! {

/// Number of transaction slots in one audit.
pub const MAX_TX: usize = 16;

#[derive(Clone, Copy, Debug)]
pub struct TimeWindowWitness {
    pub window_start: u32,
    pub window_end: u32,
    pub claimed_total: u64,
    pub attestation_root: [u32; 4],
    pub epoch: u32,
    pub tx_amounts: [u64; MAX_TX],
    pub tx_timestamps: [u32; MAX_TX],
    pub tx_count: usize,
    pub sk: u32,
    pub attestation_issuer: u32,
    pub attestation_expiry: u32,
    pub attestation_secret: u32,
    pub attestation_path: [([u32; 4], u32); MERKLE_DEPTH],
}

/// The public data a time-window proof is bound to.
#[derive(Clone, Copy, Debug, PartialEq, Eq)]
pub struct TimeWindowPublicData {
    pub window_start: u32,
    pub window_end: u32,
    pub claimed_total: u64,
    pub attestation_root: [u32; 4],
    pub attestation_nullifier: [u32; 4],
    pub epoch: u32,
}

/// Transaction `i` falls inside the window (both ends included).
pub open spec fn spec_in_window(w: TimeWindowWitness, i: int) -> bool {
    w.window_start <= w.tx_timestamps[i] <= w.window_end
}

/// The sum of the in-window amounts among the first `n` transactions.
pub open spec fn spec_window_total(w: TimeWindowWitness, n: int) -> int
    decreases n,
{
    if n <= 0 {
        0
    } else {
        spec_window_total(w, n - 1) + if spec_in_window(w, n - 1) {
            w.tx_amounts[n - 1] as int
        } else {
            0
        }
    }
}

/// The holder's attestation commitment.
pub open spec fn spec_window_attestation(w: TimeWindowWitness) -> Seq<u32> {
    spec_sponge(
        spec_sponge(seq![freduce(w.attestation_issuer as int), 0], DOMAIN_ISSUER_ID)
            + spec_derive_owner(freduce(w.sk as int)) + seq![
            freduce(w.attestation_expiry as int),
            freduce(w.attestation_secret as int),
        ],
        DOMAIN_CRED_CM,
    )
}

/// The audit statement: the public data, or the first part the witness
/// breaks, in this order: the window is non-empty, the in-window total fits
/// a `u64`, it is the claimed total, the attestation is in the tree, it has
/// not expired by the epoch.
pub open spec fn spec_time_window_statement(w: TimeWindowWitness) -> Result<
    TimeWindowPublicData,
    HushError,
> {
    let total = spec_window_total(w, w.tx_count as int);
    if w.window_start >= w.window_end {
        Err(HushError::InvalidTimeWindow)
    } else if total > u64::MAX {
        Err(HushError::TimeWindowTotalOverflow)
    } else if total != w.claimed_total {
        Err(HushError::ClaimedTotalMismatch { claimed: w.claimed_total, actual: total as u64 })
    } else if spec_words_path_root(spec_window_attestation(w), w.attestation_path@)
        != spec_to_hashout(w.attestation_root@) {
        Err(HushError::AttestationRootMismatch)
    } else if w.attestation_expiry <= w.epoch {
        Err(HushError::AttestationExpired)
    } else {
        Ok(
            TimeWindowPublicData {
                window_start: w.window_start,
                window_end: w.window_end,
                claimed_total: w.claimed_total,
                attestation_root: w.attestation_root,
                attestation_nullifier: spec_hash_array(
                    spec_sponge(
                        seq![freduce(w.attestation_secret as int)] + spec_window_attestation(w)
                            + seq![freduce(w.epoch as int), 0],
                        DOMAIN_CRED_NULL,
                    ),
                ),
                epoch: w.epoch,
            },
        )
    }
}

proof fn lemma_window_total_monotone(w: TimeWindowWitness, i: int, j: int)
    requires
        0 <= i <= j,
    ensures
        spec_window_total(w, i) <= spec_window_total(w, j),
    decreases j - i,
{
    if i < j {
        lemma_window_total_monotone(w, i, j - 1);
    }
}

/// The in-window total of the first `tx_count` transactions, or `None` when
/// it does not fit a `u64`.
fn window_total(witness: &TimeWindowWitness) -> (r: Option<u64>)
    requires
        witness.tx_count <= MAX_TX,
    ensures
        match r {
            Some(t) => t == spec_window_total(*witness, witness.tx_count as int),
            None => spec_window_total(*witness, witness.tx_count as int) > u64::MAX,
        },
{
    let mut total: u64 = 0;
    for i in 0..witness.tx_count
        invariant
            witness.tx_count <= MAX_TX,
            total == spec_window_total(*witness, i as int),
    {
        let ts = witness.tx_timestamps[i];
        if witness.window_start <= ts && ts <= witness.window_end {
            match total.checked_add(witness.tx_amounts[i]) {
                Some(t) => {
                    total = t;
                },
                None => {
                    proof {
                        lemma_window_total_monotone(
                            *witness,
                            i + 1,
                            witness.tx_count as int,
                        );
                    }
                    return None;
                },
            }
        }
    }
    Some(total)
}

/// Checks the audit statement on a witness and gives the public data the
/// proof will be bound to.
pub fn validate_witness(witness: &TimeWindowWitness) -> (r: Result<TimeWindowPublicData, HushError>)
    requires
        witness.tx_count <= MAX_TX,
    ensures
        r == spec_time_window_statement(*witness),
{
    if witness.window_start >= witness.window_end {
        return Err(HushError::InvalidTimeWindow);
    }
    let actual_total = match window_total(witness) {
        Some(t) => t,
        None => {
            return Err(HushError::TimeWindowTotalOverflow);
        },
    };
    if actual_total != witness.claimed_total {
        return Err(
            HushError::ClaimedTotalMismatch { claimed: witness.claimed_total, actual: actual_total },
        );
    }
    let owner = derive_owner(m31_from_u32(witness.sk));
    let issuer_id = derive_issuer_id(m31_from_u32(witness.attestation_issuer));
    let commitment = attestation_commitment(
        issuer_id,
        owner,
        m31_from_u32(witness.attestation_expiry),
        m31_from_u32(witness.attestation_secret),
    );
    let nullifier = attestation_nullifier(
        m31_from_u32(witness.attestation_secret),
        commitment,
        m31_from_u32(witness.epoch),
    );
    if !verify_words_path(commitment, &witness.attestation_path, witness.attestation_root) {
        return Err(HushError::AttestationRootMismatch);
    }
    if witness.attestation_expiry <= witness.epoch {
        return Err(HushError::AttestationExpired);
    }
    proof {
        lemma_hash_array(nullifier);
    }
    Ok(
        TimeWindowPublicData {
            window_start: witness.window_start,
            window_end: witness.window_end,
            claimed_total: witness.claimed_total,
            attestation_root: witness.attestation_root,
            attestation_nullifier: hashout_to_u32_array(nullifier),
            epoch: witness.epoch,
        },
    )
}

/// The sum of the amounts whose timestamps lie between `lo` and `hi`, both
/// included, pairing amounts and timestamps from the front.
pub open spec fn spec_sum_between(amounts: Seq<u64>, stamps: Seq<u32>, lo: u32, hi: u32) -> int
    decreases amounts.len(),
{
    if amounts.len() == 0 || stamps.len() == 0 {
        0
    } else {
        (if lo <= stamps[0] && stamps[0] <= hi {
            amounts[0] as int
        } else {
            0
        }) + spec_sum_between(amounts.skip(1), stamps.skip(1), lo, hi)
    }
}

proof fn lemma_sum_between_last(amounts: Seq<u64>, stamps: Seq<u32>, lo: u32, hi: u32)
    requires
        amounts.len() == stamps.len(),
        amounts.len() > 0,
    ensures
        spec_sum_between(amounts, stamps, lo, hi) == spec_sum_between(
            amounts.drop_last(),
            stamps.drop_last(),
            lo,
            hi,
        ) + if lo <= stamps.last() && stamps.last() <= hi {
            amounts.last() as int
        } else {
            0
        },
    decreases amounts.len(),
{
    if amounts.len() > 1 {
        lemma_sum_between_last(amounts.skip(1), stamps.skip(1), lo, hi);
        assert(amounts.skip(1).drop_last() =~= amounts.drop_last().skip(1));
        assert(stamps.skip(1).drop_last() =~= stamps.drop_last().skip(1));
        assert(amounts.drop_last()[0] == amounts[0]);
        assert(stamps.drop_last()[0] == stamps[0]);
        assert(amounts.skip(1).last() == amounts.last());
        assert(stamps.skip(1).last() == stamps.last());
        assert(amounts.drop_last().len() > 0);
        assert(stamps.drop_last().len() > 0);
        let f0: int = if lo <= stamps[0] && stamps[0] <= hi {
            amounts[0] as int
        } else {
            0
        };
        assert(spec_sum_between(amounts, stamps, lo, hi) == f0 + spec_sum_between(
            amounts.skip(1),
            stamps.skip(1),
            lo,
            hi,
        ));
        assert(spec_sum_between(amounts.drop_last(), stamps.drop_last(), lo, hi) == f0
            + spec_sum_between(amounts.drop_last().skip(1), stamps.drop_last().skip(1), lo, hi));
    } else {
        assert(amounts.skip(1).len() == 0);
        assert(amounts.drop_last().len() == 0);
        assert(amounts.last() == amounts[0]);
        assert(stamps.last() == stamps[0]);
        assert(spec_sum_between(amounts.skip(1), stamps.skip(1), lo, hi) == 0);
        assert(spec_sum_between(amounts.drop_last(), stamps.drop_last(), lo, hi) == 0);
    }
}

proof fn lemma_window_total_between(w: TimeWindowWitness, n: int)
    requires
        0 <= n <= MAX_TX,
    ensures
        spec_window_total(w, n) == spec_sum_between(
            w.tx_amounts@.take(n),
            w.tx_timestamps@.take(n),
            w.window_start,
            w.window_end,
        ),
    decreases n,
{
    if n > 0 {
        lemma_window_total_between(w, n - 1);
        let a = w.tx_amounts@.take(n);
        let t = w.tx_timestamps@.take(n);
        lemma_sum_between_last(a, t, w.window_start, w.window_end);
        assert(a.drop_last() =~= w.tx_amounts@.take(n - 1));
        assert(t.drop_last() =~= w.tx_timestamps@.take(n - 1));
    } else {
        assert(w.tx_amounts@.take(n).len() == 0);
    }
}

/// What an audit of a well-formed window proves about the amounts: the
/// counted total is the sum of the amounts of the first `tx_count`
/// transactions stamped between the window's start and end, both ends
/// included. The statement holds only for that claimed total, refuses any
/// other claim with that actual total, and refuses a total beyond a `u64`.
pub proof fn lemma_audit_counts_closed_window(w: TimeWindowWitness)
    requires
        w.tx_count <= MAX_TX,
        w.window_start < w.window_end,
    ensures
        ({
            let total = spec_sum_between(
                w.tx_amounts@.take(w.tx_count as int),
                w.tx_timestamps@.take(w.tx_count as int),
                w.window_start,
                w.window_end,
            );
            &&& spec_time_window_statement(w) is Ok ==> w.claimed_total == total
            &&& total > u64::MAX ==> spec_time_window_statement(w) == Err::<
                TimeWindowPublicData,
                HushError,
            >(HushError::TimeWindowTotalOverflow)
            &&& total <= u64::MAX && total != w.claimed_total ==> spec_time_window_statement(w)
                == Err::<TimeWindowPublicData, HushError>(
                HushError::ClaimedTotalMismatch { claimed: w.claimed_total, actual: total as u64 },
            )
        }),
{
    lemma_window_total_between(w, w.tx_count as int);
}

/// A transaction's timestamp matters to an audit only as inside or outside
/// the closed window: moving it to another instant on the same side,
/// including onto either end of the window, leaves the audit's outcome as
/// it was.
pub proof fn lemma_audit_depends_on_side_only(
    w: TimeWindowWitness,
    moved: TimeWindowWitness,
    i: int,
)
    requires
        w.tx_count <= MAX_TX,
        0 <= i < MAX_TX,
        moved.tx_timestamps@ == w.tx_timestamps@.update(i, moved.tx_timestamps[i]),
        (w.window_start <= w.tx_timestamps[i] && w.tx_timestamps[i] <= w.window_end) == (
        w.window_start <= moved.tx_timestamps[i] && moved.tx_timestamps[i] <= w.window_end),
        moved.window_start == w.window_start,
        moved.window_end == w.window_end,
        moved.claimed_total == w.claimed_total,
        moved.attestation_root == w.attestation_root,
        moved.epoch == w.epoch,
        moved.tx_amounts == w.tx_amounts,
        moved.tx_count == w.tx_count,
        moved.sk == w.sk,
        moved.attestation_issuer == w.attestation_issuer,
        moved.attestation_expiry == w.attestation_expiry,
        moved.attestation_secret == w.attestation_secret,
        moved.attestation_path == w.attestation_path,
    ensures
        spec_time_window_statement(moved) == spec_time_window_statement(w),
{
    lemma_window_total_same_side(w, moved, i, w.tx_count as int);
    assert(spec_window_attestation(moved) == spec_window_attestation(w));
}

proof fn lemma_window_total_same_side(
    w: TimeWindowWitness,
    moved: TimeWindowWitness,
    i: int,
    n: int,
)
    requires
        0 <= i < MAX_TX,
        0 <= n <= MAX_TX,
        moved.tx_timestamps@ == w.tx_timestamps@.update(i, moved.tx_timestamps[i]),
        (w.window_start <= w.tx_timestamps[i] && w.tx_timestamps[i] <= w.window_end) == (
        w.window_start <= moved.tx_timestamps[i] && moved.tx_timestamps[i] <= w.window_end),
        moved.window_start == w.window_start,
        moved.window_end == w.window_end,
        moved.tx_amounts == w.tx_amounts,
    ensures
        spec_window_total(moved, n) == spec_window_total(w, n),
    decreases n,
{
    if n > 0 {
        lemma_window_total_same_side(w, moved, i, n - 1);
        if n - 1 != i {
            assert(moved.tx_timestamps@[n - 1] == w.tx_timestamps@[n - 1]);
        }
    }
}

} // verus!
