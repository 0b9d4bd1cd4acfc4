//! Laws of fee accounting that span several operations: sharing a bucket
//! hands out exactly its amount, and an epoch's payouts reconcile with its
//! fee pools.

use vstd::prelude::*;
use vstd::set_lib::{
    lemma_int_range, lemma_len_subset, lemma_map_size, lemma_subset_equality, set_int_range,
};

use crate::accounting::{
    spec_accrue_ids, spec_add_buckets, spec_alloc_of, spec_allocation, spec_apply_block, spec_block_check,
    spec_bucket, spec_close_check, spec_credit_all, spec_credit_step, spec_epoch_wf,
    spec_index_of, spec_leftover, spec_nonzero, spec_participation_map, spec_payouts,
    spec_penalty, spec_precedes, spec_quotient_sum, spec_rank, spec_same_epoch,
    spec_share, spec_sum_payouts, spec_unique_ids, spec_unique_validators, spec_validator_map,
    spec_weights, spec_weights_fit, spec_apply_weights_fit, AcceptedTxRecord, AssetFeeBuckets, AssetTxCounts, EpochModel,
    ValidatorBlockParticipation, ValidatorEpochEntitlement, ValidatorStakeInfo, BPS_DENOMINATOR,
};
use crate::payment_tx::AssetId;

verus! {

broadcast use vstd::set::group_set_axioms;

/// What an allocation gives the first `k` weighted validators.
pub open spec fn spec_alloc_total(a: Map<u32, u64>, ws: Seq<(u32, u64)>, k: int) -> int
    decreases k,
{
    if k <= 0 {
        0
    } else {
        spec_alloc_total(a, ws, k - 1) + spec_alloc_of(a, ws[k - 1].0)
    }
}

/// The sum of the first `k` shares.
spec fn share_sum(amount: u64, ws: Seq<(u32, u64)>, k: int) -> int
    decreases k,
{
    if k <= 0 {
        0
    } else {
        share_sum(amount, ws, k - 1) + spec_share(amount, ws, k - 1)
    }
}

/// How many of the first `k` entries receive a leftover unit.
spec fn bonus_count(amount: u64, ws: Seq<(u32, u64)>, k: int) -> int
    decreases k,
{
    if k <= 0 {
        0
    } else {
        bonus_count(amount, ws, k - 1) + if spec_rank(amount, ws, k - 1, ws.len() as int)
            < spec_leftover(amount, ws) {
            1int
        } else {
            0
        }
    }
}

/// The entries among the first `k` that receive a leftover unit.
spec fn bonus_set(amount: u64, ws: Seq<(u32, u64)>, k: int) -> Set<int> {
    Set::new(
        |i: int|
            0 <= i < k && spec_rank(amount, ws, i, ws.len() as int) < spec_leftover(amount, ws),
    )
}

proof fn lemma_share_sum_split(amount: u64, ws: Seq<(u32, u64)>, k: int)
    requires
        0 <= k <= ws.len(),
    ensures
        share_sum(amount, ws, k) == spec_quotient_sum(amount, ws, k) + bonus_count(amount, ws, k),
    decreases k,
{
    if k > 0 {
        lemma_share_sum_split(amount, ws, k - 1);
    }
}

/// Entry `i` comes after none of itself, and after fewer than `k` of the
/// first `k` entries.
proof fn lemma_rank_bounds(amount: u64, ws: Seq<(u32, u64)>, i: int, k: int)
    requires
        0 <= k,
    ensures
        0 <= spec_rank(amount, ws, i, k) <= k - (if 0 <= i < k {
            1int
        } else {
            0
        }),
    decreases k,
{
    if k > 0 {
        lemma_rank_bounds(amount, ws, i, k - 1);
    }
}

/// When entry `j` comes before entry `i`, everything before `j` comes
/// before `i` too, and so does `j` itself.
proof fn lemma_rank_strict(amount: u64, ws: Seq<(u32, u64)>, i: int, j: int, k: int)
    requires
        0 <= k,
        spec_precedes(amount, ws, j, i),
    ensures
        spec_rank(amount, ws, i, k) >= spec_rank(amount, ws, j, k) + (if 0 <= j < k {
            1int
        } else {
            0
        }),
    decreases k,
{
    if k > 0 {
        lemma_rank_strict(amount, ws, i, j, k - 1);
    }
}

/// With distinct ids, no two entries share a rank.
proof fn lemma_rank_injective(amount: u64, ws: Seq<(u32, u64)>, i: int, j: int)
    requires
        spec_unique_ids(ws),
        0 <= i < ws.len(),
        0 <= j < ws.len(),
        i != j,
    ensures
        spec_rank(amount, ws, i, ws.len() as int) != spec_rank(amount, ws, j, ws.len() as int),
{
    let n = ws.len() as int;
    assert(ws[i].0 != ws[j].0) by {
        if i < j {
            assert(ws[i].0 != ws[j].0);
        } else {
            assert(ws[j].0 != ws[i].0);
        }
    }
    if spec_precedes(amount, ws, j, i) {
        lemma_rank_strict(amount, ws, i, j, n);
    } else {
        lemma_rank_strict(amount, ws, j, i, n);
    }
}

/// Some entry has rank `r`.
spec fn rank_taken(amount: u64, ws: Seq<(u32, u64)>, r: int) -> bool {
    exists|i: int| 0 <= i < ws.len() && spec_rank(amount, ws, i, ws.len() as int) == r
}

/// Every rank below `n` belongs to some entry: the ranks are a permutation
/// of `0..n`.
proof fn lemma_ranks_onto(amount: u64, ws: Seq<(u32, u64)>)
    requires
        spec_unique_ids(ws),
    ensures
        forall|r: int| 0 <= r < ws.len() ==> #[trigger] rank_taken(amount, ws, r),
{
    let n = ws.len() as int;
    let f = |i: int| spec_rank(amount, ws, i, n);
    let s = set_int_range(0, n);
    lemma_int_range(0, n);
    assert forall|a: int, b: int| s.contains(a) && s.contains(b) && #[trigger] f(a) == #[trigger] f(
        b,
    ) implies a == b by {
        if a != b {
            lemma_rank_injective(amount, ws, a, b);
        }
    }
    assert(s.map(f).subset_of(s)) by {
        assert forall|r: int| #[trigger] s.map(f).contains(r) implies s.contains(r) by {
            let i = choose|i: int| s.contains(i) && f(i) == r;
            lemma_rank_bounds(amount, ws, i, n);
        }
    }
    lemma_map_size(s, s.map(f), f);
    lemma_subset_equality(s.map(f), s);
    assert forall|r: int| 0 <= r < n implies #[trigger] rank_taken(amount, ws, r) by {
        assert(s.contains(r));
        assert(s.map(f).contains(r));
        let i = choose|i: int| s.contains(i) && f(i) == r;
        assert(0 <= i < n && spec_rank(amount, ws, i, n) == r);
    }
}

/// Exactly `leftover` entries rank below the leftover.
proof fn lemma_bonus_set_len(amount: u64, ws: Seq<(u32, u64)>)
    requires
        spec_unique_ids(ws),
        0 <= spec_leftover(amount, ws) <= ws.len(),
    ensures
        bonus_set(amount, ws, ws.len() as int).finite(),
        bonus_set(amount, ws, ws.len() as int).len() == spec_leftover(amount, ws),
{
    let n = ws.len() as int;
    let l = spec_leftover(amount, ws);
    let f = |i: int| spec_rank(amount, ws, i, n);
    let s = set_int_range(0, n);
    let t = bonus_set(amount, ws, n);
    lemma_int_range(0, n);
    lemma_int_range(0, l);
    lemma_ranks_onto(amount, ws);
    assert(t.subset_of(s));
    lemma_len_subset(t, s);
    assert forall|a: int, b: int| t.contains(a) && t.contains(b) && #[trigger] f(a) == #[trigger] f(
        b,
    ) implies a == b by {
        if a != b {
            lemma_rank_injective(amount, ws, a, b);
        }
    }
    assert(t.map(f) =~= set_int_range(0, l)) by {
        assert forall|r: int| #[trigger] set_int_range(0, l).contains(r) implies t.map(f).contains(
            r,
        ) by {
            assert(rank_taken(amount, ws, r));
            let i = choose|i: int| 0 <= i < n && spec_rank(amount, ws, i, n) == r;
            assert(t.contains(i));
            assert(f(i) == r);
        }
        assert forall|r: int| #[trigger] t.map(f).contains(r) implies set_int_range(0, l).contains(
            r,
        ) by {
            let i = choose|i: int| t.contains(i) && f(i) == r;
            lemma_rank_bounds(amount, ws, i, n);
        }
    }
    lemma_map_size(t, set_int_range(0, l), f);
}

/// The recursive count of leftover units equals the size of the set of
/// entries that receive one.
proof fn lemma_bonus_count_set(amount: u64, ws: Seq<(u32, u64)>, k: int)
    requires
        0 <= k <= ws.len(),
    ensures
        bonus_set(amount, ws, k).finite(),
        bonus_count(amount, ws, k) == bonus_set(amount, ws, k).len(),
    decreases k,
{
    lemma_int_range(0, k);
    assert(bonus_set(amount, ws, k).subset_of(set_int_range(0, k)));
    lemma_len_subset(bonus_set(amount, ws, k), set_int_range(0, k));
    if k == 0 {
        assert(bonus_set(amount, ws, 0) =~= Set::empty());
    } else {
        lemma_bonus_count_set(amount, ws, k - 1);
        let prev = bonus_set(amount, ws, k - 1);
        if spec_rank(amount, ws, k - 1, ws.len() as int) < spec_leftover(amount, ws) {
            assert(bonus_set(amount, ws, k) =~= prev.insert(k - 1));
        } else {
            assert(bonus_set(amount, ws, k) =~= prev);
        }
    }
}

proof fn lemma_alloc_total_is_share_sum(amount: u64, ws: Seq<(u32, u64)>, k: int)
    requires
        amount > 0,
        ws.len() > 0,
        0 <= k <= ws.len(),
        spec_unique_ids(ws),
        forall|i: int| 0 <= i < ws.len() ==> 0 <= #[trigger] spec_share(amount, ws, i) <= amount,
    ensures
        spec_alloc_total(spec_allocation(amount, ws), ws, k) == share_sum(amount, ws, k),
    decreases k,
{
    if k > 0 {
        lemma_alloc_total_is_share_sum(amount, ws, k - 1);
        let i = k - 1;
        let id = ws[i].0;
        assert(spec_index_of(ws, id) == i) by {
            let c = spec_index_of(ws, id);
            assert(0 <= i < ws.len() && ws[i].0 == id);
            if c != i {
                if c < i {
                    assert(ws[c].0 != ws[i].0);
                } else {
                    assert(ws[i].0 != ws[c].0);
                }
            }
        }
        assert(spec_allocation(amount, ws).contains_key(id));
        assert(spec_share(amount, ws, i) <= amount);
    }
}

/// Sharing a bucket over the weighted validators hands out exactly its
/// amount: the allocations of the validators sum to it (to nothing when no
/// validator carries weight).
pub proof fn lemma_allocation_sums_to_amount(amount: u64, ws: Seq<(u32, u64)>)
    requires
        spec_unique_ids(ws),
        forall|i: int| 0 <= i < ws.len() ==> (#[trigger] ws[i]).1 > 0,
    ensures
        spec_alloc_total(spec_allocation(amount, ws), ws, ws.len() as int) == if ws.len() == 0 {
            0
        } else {
            amount as int
        },
{
    let n = ws.len() as int;
    if amount == 0 || n == 0 {
        lemma_alloc_total_empty(spec_allocation(amount, ws), ws, n);
    } else {
        crate::accounting::lemma_weight_sum_bounds(ws, n);
        crate::accounting::lemma_leftover_bounds(amount, ws);
        assert forall|i: int| 0 <= i < n implies 0 <= #[trigger] spec_share(amount, ws, i)
            <= amount by {
            crate::accounting::lemma_quotient_in_sum(amount, ws, i);
            lemma_rank_bounds(amount, ws, i, n);
        }
        lemma_alloc_total_is_share_sum(amount, ws, n);
        lemma_share_sum_split(amount, ws, n);
        lemma_bonus_count_set(amount, ws, n);
        lemma_bonus_set_len(amount, ws);
    }
}

proof fn lemma_alloc_total_empty(a: Map<u32, u64>, ws: Seq<(u32, u64)>, k: int)
    requires
        a == Map::<u32, u64>::empty(),
    ensures
        spec_alloc_total(a, ws, k) == 0,
    decreases k,
{
    if k > 0 {
        lemma_alloc_total_empty(a, ws, k - 1);
    }
}

/// The sum of `g` over `ids`.
pub open spec fn spec_ids_total(ids: Seq<u32>, g: spec_fn(u32) -> int) -> int
    decreases ids.len(),
{
    if ids.len() == 0 {
        0
    } else {
        spec_ids_total(ids.drop_last(), g) + g(ids.last())
    }
}

/// The entitlement of each validator in the bucket of `asset`.
pub open spec fn spec_entitled(ents: Map<u32, ValidatorEpochEntitlement>, asset: AssetId) -> spec_fn(
    u32,
) -> int {
    |id: u32| spec_bucket(ents[id].entitlement, asset) as int
}

/// The allocation of `asset` among the three.
pub open spec fn spec_pick(ah: Map<u32, u64>, au: Map<u32, u64>, at: Map<u32, u64>, asset: AssetId) -> Map<
    u32,
    u64,
> {
    match asset {
        AssetId::Hush => ah,
        AssetId::Usdc => au,
        AssetId::Usdt => at,
    }
}

/// What an allocation gives the validators of a set.
pub open spec fn spec_set_alloc_total(a: Map<u32, u64>, vals: Seq<ValidatorStakeInfo>) -> int
    decreases vals.len(),
{
    if vals.len() == 0 {
        0
    } else {
        spec_set_alloc_total(a, vals.drop_last()) + spec_alloc_of(a, vals.last().validator_id)
    }
}

/// `ids` lists exactly the keys of `ents`, each once.
pub open spec fn spec_lists_keys(ids: Seq<u32>, ents: Map<u32, ValidatorEpochEntitlement>) -> bool {
    &&& ids.no_duplicates()
    &&& forall|id: u32| #[trigger] ents.contains_key(id) <==> ids.contains(id)
}

proof fn lemma_ids_total_frame(ids: Seq<u32>, g1: spec_fn(u32) -> int, g2: spec_fn(u32) -> int)
    requires
        forall|k: int| 0 <= k < ids.len() ==> g1(#[trigger] ids[k]) == g2(ids[k]),
    ensures
        spec_ids_total(ids, g1) == spec_ids_total(ids, g2),
    decreases ids.len(),
{
    if ids.len() > 0 {
        let pre = ids.drop_last();
        assert forall|k: int| 0 <= k < pre.len() implies g1(#[trigger] pre[k]) == g2(pre[k]) by {
            assert(pre[k] == ids[k]);
        }
        lemma_ids_total_frame(pre, g1, g2);
        assert(g1(ids[ids.len() - 1]) == g2(ids[ids.len() - 1]));
    }
}

proof fn lemma_ids_total_remove(ids: Seq<u32>, g: spec_fn(u32) -> int, p: int)
    requires
        0 <= p < ids.len(),
    ensures
        spec_ids_total(ids, g) == spec_ids_total(ids.remove(p), g) + g(ids[p]),
    decreases ids.len(),
{
    if p == ids.len() - 1 {
        assert(ids.remove(p) =~= ids.drop_last());
    } else {
        let pre = ids.drop_last();
        lemma_ids_total_remove(pre, g, p);
        assert(ids.remove(p).drop_last() =~= pre.remove(p));
        assert(ids.remove(p).last() == ids.last());
    }
}

/// Two duplicate-free lists of the same ids have the same total.
proof fn lemma_ids_total_permutation(a: Seq<u32>, b: Seq<u32>, g: spec_fn(u32) -> int)
    requires
        a.no_duplicates(),
        b.no_duplicates(),
        forall|x: u32| a.contains(x) <==> b.contains(x),
    ensures
        spec_ids_total(a, g) == spec_ids_total(b, g),
    decreases a.len(),
{
    if a.len() == 0 {
        if b.len() > 0 {
            assert(b.contains(b[0]));
        }
    } else {
        let x = a.last();
        assert(a.contains(x)) by {
            assert(a[a.len() - 1] == x);
        }
        let p = b.index_of(x);
        lemma_ids_total_remove(b, g, p);
        let pre = a.drop_last();
        let br = b.remove(p);
        assert forall|y: u32| pre.contains(y) <==> br.contains(y) by {
            if pre.contains(y) {
                let i = choose|i: int| 0 <= i < pre.len() && pre[i] == y;
                assert(a[i] == y && i != a.len() - 1);
                assert(b.contains(y));
                let j = choose|j: int| 0 <= j < b.len() && b[j] == y;
                assert(j != p);
                if j < p {
                    assert(br[j] == y);
                } else {
                    assert(br[j - 1] == y);
                }
            }
            if br.contains(y) {
                let j = choose|j: int| 0 <= j < br.len() && br[j] == y;
                let jb = if j < p {
                    j
                } else {
                    j + 1
                };
                assert(b[jb] == y && jb != p);
                assert(a.contains(y));
                let i = choose|i: int| 0 <= i < a.len() && a[i] == y;
                assert(y != x);
                assert(i != a.len() - 1);
                assert(pre[i] == y);
            }
        }
        assert(br.no_duplicates()) by {
            assert forall|i: int, j: int| 0 <= i < br.len() && 0 <= j < br.len() && i != j
                implies br[i] != br[j] by {
                let bi = if i < p {
                    i
                } else {
                    i + 1
                };
                let bj = if j < p {
                    j
                } else {
                    j + 1
                };
                assert(br[i] == b[bi] && br[j] == b[bj]);
            }
        }
        assert(pre.no_duplicates()) by {
            assert forall|i: int, j: int| 0 <= i < pre.len() && 0 <= j < pre.len() && i != j
                implies pre[i] != pre[j] by {
                assert(pre[i] == a[i] && pre[j] == a[j]);
            }
        }
        lemma_ids_total_permutation(pre, br, g);
    }
}

/// Changing `g` at one listed id changes the total by the difference.
proof fn lemma_ids_total_update(ids: Seq<u32>, g1: spec_fn(u32) -> int, g2: spec_fn(u32) -> int, x: u32)
    requires
        ids.no_duplicates(),
        ids.contains(x),
        forall|y: u32| y != x ==> #[trigger] g1(y) == g2(y),
    ensures
        spec_ids_total(ids, g2) == spec_ids_total(ids, g1) - g1(x) + g2(x),
{
    let p = ids.index_of(x);
    lemma_ids_total_remove(ids, g1, p);
    lemma_ids_total_remove(ids, g2, p);
    let r = ids.remove(p);
    assert forall|k: int| 0 <= k < r.len() implies g1(#[trigger] r[k]) == g2(r[k]) by {
        let kb = if k < p {
            k
        } else {
            k + 1
        };
        assert(r[k] == ids[kb] && kb != p);
    }
    lemma_ids_total_frame(r, g1, g2);
}

/// Crediting one validator adds its allocation to each bucket's total.
proof fn lemma_credit_step_totals(
    ents: Map<u32, ValidatorEpochEntitlement>,
    o: Seq<u32>,
    v: ValidatorStakeInfo,
    pmap: Map<u32, ValidatorBlockParticipation>,
    ah: Map<u32, u64>,
    au: Map<u32, u64>,
    at: Map<u32, u64>,
) -> (o2: Seq<u32>)
    requires
        spec_lists_keys(o, ents),
        spec_credit_step(ents, v, pmap, ah, au, at).1 is Ok,
    ensures
        spec_lists_keys(o2, spec_credit_step(ents, v, pmap, ah, au, at).0),
        forall|asset: AssetId|
            spec_ids_total(o2, spec_entitled(spec_credit_step(ents, v, pmap, ah, au, at).0, asset))
                == spec_ids_total(o, spec_entitled(ents, asset)) + spec_alloc_of(
                #[trigger] spec_pick(ah, au, at, asset),
                v.validator_id,
            ),
{
    let id = v.validator_id;
    let e2 = spec_credit_step(ents, v, pmap, ah, au, at).0;
    assert(e2.contains_key(id));
    assert forall|y: u32| y != id implies e2.contains_key(y) == ents.contains_key(y) && (
    ents.contains_key(y) ==> e2[y] == ents[y]) by {}
    if ents.contains_key(id) {
        assert forall|asset: AssetId|
            spec_ids_total(o, spec_entitled(e2, asset)) == spec_ids_total(o, spec_entitled(ents, asset))
                + spec_alloc_of(#[trigger] spec_pick(ah, au, at, asset), id) by {
            let g1 = spec_entitled(ents, asset);
            let g2 = spec_entitled(e2, asset);
            assert(o.contains(id));
            assert forall|y: u32| y != id implies #[trigger] g1(y) == g2(y) by {
                if !ents.contains_key(y) {
                    assert(!e2.contains_key(y));
                }
            }
            lemma_ids_total_update(o, g1, g2, id);
        }
        assert(spec_lists_keys(o, e2));
        o
    } else {
        let o2 = o.push(id);
        assert(!o.contains(id));
        assert(o2.no_duplicates()) by {
            assert forall|i: int, j: int| 0 <= i < o2.len() && 0 <= j < o2.len() && i != j
                implies o2[i] != o2[j] by {
                if i == o.len() {
                    assert(o2[j] == o[j]);
                    assert(o.contains(o[j]));
                } else if j == o.len() {
                    assert(o2[i] == o[i]);
                    assert(o.contains(o[i]));
                } else {
                    assert(o2[i] == o[i] && o2[j] == o[j]);
                }
            }
        }
        assert forall|y: u32| #[trigger] e2.contains_key(y) <==> o2.contains(y) by {
            if o.contains(y) {
                let i = choose|i: int| 0 <= i < o.len() && o[i] == y;
                assert(o2[i] == y);
            }
            if o2.contains(y) {
                let i = choose|i: int| 0 <= i < o2.len() && o2[i] == y;
                if i < o.len() {
                    assert(o[i] == y);
                }
            }
            if y == id {
                assert(o2[o.len() as int] == y);
            }
        }
        assert forall|asset: AssetId|
            spec_ids_total(o2, spec_entitled(e2, asset)) == spec_ids_total(o, spec_entitled(ents, asset))
                + spec_alloc_of(#[trigger] spec_pick(ah, au, at, asset), id) by {
            let g1 = spec_entitled(ents, asset);
            let g2 = spec_entitled(e2, asset);
            assert(o2.drop_last() =~= o);
            assert forall|k: int| 0 <= k < o.len() implies g1(#[trigger] o[k]) == g2(o[k]) by {
                assert(o.contains(o[k]));
            }
            lemma_ids_total_frame(o, g1, g2);
        }
        o2
    }
}

/// Crediting a whole validator set adds each validator's allocation to
/// each bucket's total.
proof fn lemma_credit_all_totals(
    ents: Map<u32, ValidatorEpochEntitlement>,
    o: Seq<u32>,
    vals: Seq<ValidatorStakeInfo>,
    pmap: Map<u32, ValidatorBlockParticipation>,
    ah: Map<u32, u64>,
    au: Map<u32, u64>,
    at: Map<u32, u64>,
) -> (o2: Seq<u32>)
    requires
        spec_lists_keys(o, ents),
        spec_credit_all(ents, vals, pmap, ah, au, at).1 is Ok,
    ensures
        spec_lists_keys(o2, spec_credit_all(ents, vals, pmap, ah, au, at).0),
        forall|asset: AssetId|
            spec_ids_total(o2, spec_entitled(spec_credit_all(ents, vals, pmap, ah, au, at).0, asset))
                == spec_ids_total(o, spec_entitled(ents, asset)) + spec_set_alloc_total(
                #[trigger] spec_pick(ah, au, at, asset),
                vals,
            ),
    decreases vals.len(),
{
    if vals.len() == 0 {
        o
    } else {
        let pre = vals.drop_last();
        let o1 = lemma_credit_all_totals(ents, o, pre, pmap, ah, au, at);
        let e1 = spec_credit_all(ents, pre, pmap, ah, au, at).0;
        let o2 = lemma_credit_step_totals(e1, o1, vals.last(), pmap, ah, au, at);
        assert forall|asset: AssetId|
            spec_ids_total(o2, spec_entitled(spec_credit_all(ents, vals, pmap, ah, au, at).0, asset))
                == spec_ids_total(o, spec_entitled(ents, asset)) + spec_set_alloc_total(
                #[trigger] spec_pick(ah, au, at, asset),
                vals,
            ) by {
            assert(spec_ids_total(o1, spec_entitled(e1, asset)) == spec_ids_total(
                o,
                spec_entitled(ents, asset),
            ) + spec_set_alloc_total(spec_pick(ah, au, at, asset), pre));
        }
        o2
    }
}

/// Validator `v` signed the block and carries a positive reward weight.
pub open spec fn spec_contributes(v: ValidatorStakeInfo, pmap: Map<u32, ValidatorBlockParticipation>) -> bool {
    &&& pmap.contains_key(v.validator_id)
    &&& pmap[v.validator_id].signed_block
    &&& v.effective_stake * (BPS_DENOMINATOR - spec_penalty(pmap[v.validator_id])) != 0
}

/// Each weight comes from a validator of the set that carries weight.
proof fn lemma_weights_origin(vals: Seq<ValidatorStakeInfo>, pmap: Map<u32, ValidatorBlockParticipation>)
    ensures
        forall|i: int|
            #![trigger spec_weights(vals, pmap)[i]]
            0 <= i < spec_weights(vals, pmap).len() ==> exists|j: int|
                0 <= j < vals.len() && (#[trigger] vals[j]).validator_id == spec_weights(vals, pmap)[i].0
                    && spec_contributes(vals[j], pmap),
    decreases vals.len(),
{
    if vals.len() > 0 {
        let pre = vals.drop_last();
        lemma_weights_origin(pre, pmap);
        let ws = spec_weights(vals, pmap);
        let wp = spec_weights(pre, pmap);
        assert forall|i: int| #![trigger ws[i]] 0 <= i < ws.len() implies exists|j: int|
            0 <= j < vals.len() && (#[trigger] vals[j]).validator_id == ws[i].0 && spec_contributes(
                vals[j],
                pmap,
            ) by {
            if i < wp.len() {
                assert(ws[i] == wp[i]);
                let j = choose|j: int|
                    0 <= j < pre.len() && (#[trigger] pre[j]).validator_id == wp[i].0
                        && spec_contributes(pre[j], pmap);
                assert(vals[j] == pre[j]);
            } else {
                assert(vals[vals.len() - 1].validator_id == ws[i].0);
            }
        }
    }
}

proof fn lemma_alloc_total_prefix(a: Map<u32, u64>, ws1: Seq<(u32, u64)>, ws2: Seq<(u32, u64)>, k: int)
    requires
        0 <= k <= ws1.len(),
        k <= ws2.len(),
        forall|i: int| 0 <= i < k ==> ws1[i] == ws2[i],
    ensures
        spec_alloc_total(a, ws1, k) == spec_alloc_total(a, ws2, k),
    decreases k,
{
    if k > 0 {
        lemma_alloc_total_prefix(a, ws1, ws2, k - 1);
    }
}

/// Summed over a validator set, an allocation that gives nothing to the
/// validators without weight sums as over the weights.
proof fn lemma_set_alloc_is_weight_alloc(
    a: Map<u32, u64>,
    vals: Seq<ValidatorStakeInfo>,
    pmap: Map<u32, ValidatorBlockParticipation>,
)
    requires
        forall|j: int|
            0 <= j < vals.len() && !spec_contributes(#[trigger] vals[j], pmap) ==> !a.contains_key(
                vals[j].validator_id,
            ),
    ensures
        spec_set_alloc_total(a, vals) == spec_alloc_total(
            a,
            spec_weights(vals, pmap),
            spec_weights(vals, pmap).len() as int,
        ),
    decreases vals.len(),
{
    if vals.len() > 0 {
        let pre = vals.drop_last();
        assert forall|j: int|
            0 <= j < pre.len() && !spec_contributes(#[trigger] pre[j], pmap) implies !a.contains_key(
                pre[j].validator_id,
            ) by {
            assert(pre[j] == vals[j]);
        }
        lemma_set_alloc_is_weight_alloc(a, pre, pmap);
        let ws = spec_weights(vals, pmap);
        let wp = spec_weights(pre, pmap);
        let v = vals.last();
        if spec_contributes(v, pmap) {
            assert(ws == wp.push((v.validator_id, (v.effective_stake * (BPS_DENOMINATOR
                - spec_penalty(pmap[v.validator_id]))) as u64)));
            lemma_alloc_total_prefix(a, wp, ws, wp.len() as int);
        } else {
            assert(vals[vals.len() - 1] == v);
            assert(ws == wp);
        }
    }
}

/// Over a validator set without repeated ids, a bucket's allocation sums to
/// the bucket (to nothing when no validator carries weight).
proof fn lemma_set_alloc_total_amount(
    amount: u64,
    vals: Seq<ValidatorStakeInfo>,
    pmap: Map<u32, ValidatorBlockParticipation>,
)
    requires
        spec_unique_validators(vals),
        spec_weights_fit(vals, pmap),
    ensures
        spec_set_alloc_total(spec_allocation(amount, spec_weights(vals, pmap)), vals) == if spec_weights(
            vals,
            pmap,
        ).len() == 0 {
            0
        } else {
            amount as int
        },
{
    let ws = spec_weights(vals, pmap);
    let a = spec_allocation(amount, ws);
    crate::accounting::lemma_weights_shape(vals, pmap);
    crate::accounting::lemma_weights_unique(vals, pmap);
    lemma_idle_validators_get_nothing(amount, vals, pmap);
    lemma_set_alloc_is_weight_alloc(a, vals, pmap);
    lemma_allocation_sums_to_amount(amount, ws);
}

/// A validator of the set that did not sign, or carries no weight, has no
/// share of a bucket.
proof fn lemma_idle_validators_get_nothing(
    amount: u64,
    vals: Seq<ValidatorStakeInfo>,
    pmap: Map<u32, ValidatorBlockParticipation>,
)
    requires
        spec_unique_validators(vals),
        spec_weights_fit(vals, pmap),
    ensures
        forall|j: int|
            0 <= j < vals.len() && !spec_contributes(#[trigger] vals[j], pmap)
                ==> !spec_allocation(amount, spec_weights(vals, pmap)).contains_key(vals[j].validator_id),
{
    let ws = spec_weights(vals, pmap);
    let a = spec_allocation(amount, ws);
    crate::accounting::lemma_weights_unique(vals, pmap);
    lemma_weights_origin(vals, pmap);
    assert forall|j: int|
        0 <= j < vals.len() && !spec_contributes(#[trigger] vals[j], pmap) implies !a.contains_key(
            vals[j].validator_id,
        ) by {
        if a.contains_key(vals[j].validator_id) {
            let i = choose|i: int| 0 <= i < ws.len() && ws[i].0 == vals[j].validator_id;
            let j2 = choose|j2: int|
                0 <= j2 < vals.len() && (#[trigger] vals[j2]).validator_id == ws[i].0
                    && spec_contributes(vals[j2], pmap);
            if j2 < j {
                assert(vals[j2].validator_id != vals[j].validator_id);
            } else if j < j2 {
                assert(vals[j].validator_id != vals[j2].validator_id);
            }
        }
    }
}

/// An epoch reconciles: in every bucket, the validators' entitlements sum
/// to the fee pool.
pub open spec fn spec_reconciled(m: EpochModel) -> bool {
    forall|asset: AssetId|
        spec_ids_total(m.validator_order, spec_entitled(m.validator_entitlements, asset))
            == #[trigger] spec_bucket(m.fee_pools, asset)
}

proof fn lemma_wf_lists_keys(m: EpochModel)
    requires
        spec_epoch_wf(m),
    ensures
        spec_lists_keys(m.validator_order, m.validator_entitlements),
{
    let o = m.validator_order;
    assert forall|i: int, j: int| 0 <= i < o.len() && 0 <= j < o.len() && i != j implies o[i]
        != o[j] by {
        if i < j {
            assert(o[i] < o[j]);
        } else {
            assert(o[j] < o[i]);
        }
    }
}

/// An empty epoch reconciles.
pub proof fn lemma_new_epoch_reconciled(epoch_index: u64)
    ensures
        spec_reconciled(
            EpochModel {
                epoch_index,
                fee_pools: AssetFeeBuckets { hush: 0, usdc: 0, usdt: 0 },
                validator_entitlements: Map::empty(),
                validator_order: Seq::empty(),
                applied_blocks: Set::empty(),
                seen_tx_ids: Set::empty(),
            },
        ),
{
}

/// A block refused before its buckets reach the fee pools (on its own
/// totals, as already accrued, for a repeated transaction, or for a
/// malformed validator set or participation list) leaves the epoch's fee
/// pools and entitlements as they were, so a reconciled epoch stays
/// reconciled.
pub proof fn lemma_refused_block_keeps_reconciled(
    m: EpochModel,
    block_height: u64,
    fee_buckets: AssetFeeBuckets,
    tx_counts_by_asset: AssetTxCounts,
    tx_counts_by_kind: Map<u32, u32>,
    records: Seq<AcceptedTxRecord>,
    vals: Seq<ValidatorStakeInfo>,
    parts: Seq<ValidatorBlockParticipation>,
    after: EpochModel,
)
    requires
        spec_epoch_wf(m),
        spec_reconciled(m),
        ({
            let r = spec_apply_block(
                m,
                block_height,
                fee_buckets,
                tx_counts_by_asset,
                tx_counts_by_kind,
                records,
                vals,
                parts,
            ).1;
            &&& r is Err
            &&& !(r->Err_0 is EpochFeePoolOverflow)
            &&& !(r->Err_0 is NoActiveValidators)
            &&& !(r->Err_0 is EntitlementOverflow)
        }),
        spec_epoch_wf(after),
        spec_same_epoch(
            after,
            spec_apply_block(
                m,
                block_height,
                fee_buckets,
                tx_counts_by_asset,
                tx_counts_by_kind,
                records,
                vals,
                parts,
            ).0,
        ),
    ensures
        after.fee_pools == m.fee_pools,
        after.validator_entitlements == m.validator_entitlements,
        spec_reconciled(after),
{
    let vmap = spec_validator_map(vals)->Ok_0;
    let pmap = spec_participation_map(parts, vmap)->Ok_0;
    if spec_block_check(fee_buckets, tx_counts_by_asset, tx_counts_by_kind, records) is Ok
        && !m.applied_blocks.contains(block_height)
        && spec_accrue_ids(m.seen_tx_ids, records).1 is None
        && spec_validator_map(vals) is Ok
        && spec_participation_map(parts, vmap) is Ok {
        let ws = spec_weights(vals, pmap);
        let added = spec_add_buckets(m.fee_pools, fee_buckets).1;
        if added is Err {
            assert(added->Err_0 is EpochFeePoolOverflow);
        } else if spec_nonzero(fee_buckets) && ws.len() == 0 {
        } else {
            let ah = spec_allocation(fee_buckets.hush, ws);
            let au = spec_allocation(fee_buckets.usdc, ws);
            let at = spec_allocation(fee_buckets.usdt, ws);
            lemma_credit_all_errors(m.validator_entitlements, vals, pmap, ah, au, at);
        }
        assert(false);
    }
    lemma_wf_lists_keys(m);
    lemma_wf_lists_keys(after);
    assert forall|x: u32| after.validator_order.contains(x) <==> m.validator_order.contains(x) by {
        assert(after.validator_entitlements.contains_key(x) <==> after.validator_order.contains(x));
        assert(m.validator_entitlements.contains_key(x) <==> m.validator_order.contains(x));
    }
    assert forall|asset: AssetId|
        spec_ids_total(after.validator_order, spec_entitled(after.validator_entitlements, asset))
            == #[trigger] spec_bucket(after.fee_pools, asset) by {
        lemma_ids_total_permutation(
            after.validator_order,
            m.validator_order,
            spec_entitled(m.validator_entitlements, asset),
        );
    }
}

/// Crediting fails, if at all, on an entitlement overflow.
proof fn lemma_credit_all_errors(
    ents: Map<u32, ValidatorEpochEntitlement>,
    vals: Seq<ValidatorStakeInfo>,
    pmap: Map<u32, ValidatorBlockParticipation>,
    ah: Map<u32, u64>,
    au: Map<u32, u64>,
    at: Map<u32, u64>,
)
    ensures
        spec_credit_all(ents, vals, pmap, ah, au, at).1 is Err ==> spec_credit_all(
            ents,
            vals,
            pmap,
            ah,
            au,
            at,
        ).1->Err_0 is EntitlementOverflow,
    decreases vals.len(),
{
    if vals.len() > 0 {
        lemma_credit_all_errors(ents, vals.drop_last(), pmap, ah, au, at);
    }
}

/// Accruing a block successfully keeps an epoch reconciled: the block's
/// buckets go into the fee pools and are shared out in full among the
/// validators' entitlements.
pub proof fn lemma_apply_block_keeps_reconciled(
    m: EpochModel,
    block_height: u64,
    fee_buckets: AssetFeeBuckets,
    tx_counts_by_asset: AssetTxCounts,
    tx_counts_by_kind: Map<u32, u32>,
    records: Seq<AcceptedTxRecord>,
    vals: Seq<ValidatorStakeInfo>,
    parts: Seq<ValidatorBlockParticipation>,
    after: EpochModel,
)
    requires
        spec_epoch_wf(m),
        spec_reconciled(m),
        spec_apply_weights_fit(
            m,
            block_height,
            fee_buckets,
            tx_counts_by_asset,
            tx_counts_by_kind,
            records,
            vals,
            parts,
        ),
        spec_apply_block(
            m,
            block_height,
            fee_buckets,
            tx_counts_by_asset,
            tx_counts_by_kind,
            records,
            vals,
            parts,
        ).1 is Ok,
        spec_epoch_wf(after),
        spec_same_epoch(
            after,
            spec_apply_block(
                m,
                block_height,
                fee_buckets,
                tx_counts_by_asset,
                tx_counts_by_kind,
                records,
                vals,
                parts,
            ).0,
        ),
    ensures
        spec_reconciled(after),
{
    let vmap = spec_validator_map(vals)->Ok_0;
    let pmap = spec_participation_map(parts, vmap)->Ok_0;
    let ws = spec_weights(vals, pmap);
    let ah = spec_allocation(fee_buckets.hush, ws);
    let au = spec_allocation(fee_buckets.usdc, ws);
    let at = spec_allocation(fee_buckets.usdt, ws);
    assert(spec_block_check(fee_buckets, tx_counts_by_asset, tx_counts_by_kind, records) is Ok);
    assert(spec_validator_map(vals) is Ok);
    assert(spec_participation_map(parts, vmap) is Ok);
    assert(spec_add_buckets(m.fee_pools, fee_buckets).1 is Ok);
    assert(!(spec_nonzero(fee_buckets) && ws.len() == 0));
    assert(spec_credit_all(m.validator_entitlements, vals, pmap, ah, au, at).1 is Ok);
    let ents = spec_credit_all(m.validator_entitlements, vals, pmap, ah, au, at).0;
    assert(after.validator_entitlements == ents);
    assert(after.fee_pools == spec_add_buckets(m.fee_pools, fee_buckets).0);
    crate::accounting::lemma_validator_map_unique(vals);
    lemma_wf_lists_keys(m);
    lemma_wf_lists_keys(after);
    let o2 = lemma_credit_all_totals(m.validator_entitlements, m.validator_order, vals, pmap, ah, au, at);
    assert forall|x: u32| after.validator_order.contains(x) <==> o2.contains(x) by {
        assert(ents.contains_key(x) <==> o2.contains(x));
        assert(after.validator_entitlements.contains_key(x) <==> after.validator_order.contains(x));
    }
    assert forall|asset: AssetId|
        spec_ids_total(after.validator_order, spec_entitled(after.validator_entitlements, asset))
            == #[trigger] spec_bucket(after.fee_pools, asset) by {
        let g = spec_entitled(ents, asset);
        lemma_ids_total_permutation(after.validator_order, o2, g);
        assert(spec_bucket(m.fee_pools, asset) == spec_ids_total(
            m.validator_order,
            spec_entitled(m.validator_entitlements, asset),
        ));
        let amount = spec_bucket(fee_buckets, asset);
        lemma_set_alloc_total_amount(amount, vals, pmap);
        assert(spec_pick(ah, au, at, asset) == spec_allocation(amount, ws));
        assert(spec_set_alloc_total(spec_pick(ah, au, at, asset), vals) == amount) by {
            if ws.len() == 0 {
                assert(amount == 0);
            }
        }
    }
}

proof fn lemma_ids_total_nonneg(ids: Seq<u32>, g: spec_fn(u32) -> int)
    requires
        forall|x: u32| #[trigger] g(x) >= 0,
    ensures
        spec_ids_total(ids, g) >= 0,
    decreases ids.len(),
{
    if ids.len() > 0 {
        lemma_ids_total_nonneg(ids.drop_last(), g);
    }
}

/// Where every bucket's total fits, the payouts over `o` sum without
/// overflow to those totals.
proof fn lemma_payouts_sum(epoch_index: u64, ents: Map<u32, ValidatorEpochEntitlement>, o: Seq<u32>)
    requires
        forall|asset: AssetId|
            #[trigger] spec_ids_total(o, spec_entitled(ents, asset)) <= u64::MAX,
    ensures
        spec_sum_payouts(spec_payouts(epoch_index, ents, o)) == Ok::<AssetFeeBuckets, crate::error::HushError>(
            AssetFeeBuckets {
                hush: spec_ids_total(o, spec_entitled(ents, AssetId::Hush)) as u64,
                usdc: spec_ids_total(o, spec_entitled(ents, AssetId::Usdc)) as u64,
                usdt: spec_ids_total(o, spec_entitled(ents, AssetId::Usdt)) as u64,
            },
        ),
    decreases o.len(),
{
    if o.len() > 0 {
        let pre = o.drop_last();
        let x = o.last();
        let e = ents[x];
        assert forall|asset: AssetId| #[trigger] spec_ids_total(pre, spec_entitled(ents, asset))
            <= u64::MAX by {
            assert(spec_ids_total(o, spec_entitled(ents, asset)) <= u64::MAX);
        }
        lemma_payouts_sum(epoch_index, ents, pre);
        lemma_ids_total_nonneg(pre, spec_entitled(ents, AssetId::Hush));
        lemma_ids_total_nonneg(pre, spec_entitled(ents, AssetId::Usdc));
        lemma_ids_total_nonneg(pre, spec_entitled(ents, AssetId::Usdt));
        assert(spec_ids_total(o, spec_entitled(ents, AssetId::Hush)) <= u64::MAX);
        assert(spec_ids_total(o, spec_entitled(ents, AssetId::Usdc)) <= u64::MAX);
        assert(spec_ids_total(o, spec_entitled(ents, AssetId::Usdt)) <= u64::MAX);
        let rest = spec_payouts(epoch_index, ents, pre);
        if e.entitlement != (AssetFeeBuckets { hush: 0, usdc: 0, usdt: 0 }) {
            let rec = crate::accounting::ClaimablePayoutRecord {
                epoch_index,
                validator_id: e.validator_id,
                payout_key: e.payout_key,
                entitlement: e.entitlement,
            };
            assert(rest.push(rec).drop_last() =~= rest);
        }
    }
}

/// A reconciled epoch closes: its payouts sum, without overflow, to its
/// fee pools.
pub proof fn lemma_reconciled_epoch_closes(m: EpochModel)
    requires
        spec_epoch_wf(m),
        spec_reconciled(m),
    ensures
        spec_close_check(m) == Ok::<(), crate::error::HushError>(()),
        spec_sum_payouts(spec_payouts(m.epoch_index, m.validator_entitlements, m.validator_order))
            == Ok::<AssetFeeBuckets, crate::error::HushError>(m.fee_pools),
{
    assert(spec_bucket(m.fee_pools, AssetId::Hush) == m.fee_pools.hush);
    assert(spec_bucket(m.fee_pools, AssetId::Usdc) == m.fee_pools.usdc);
    assert(spec_bucket(m.fee_pools, AssetId::Usdt) == m.fee_pools.usdt);
    assert forall|asset: AssetId|
        #[trigger] spec_ids_total(m.validator_order, spec_entitled(m.validator_entitlements, asset))
            <= u64::MAX by {
        assert(spec_bucket(m.fee_pools, asset) <= u64::MAX);
    }
    lemma_payouts_sum(m.epoch_index, m.validator_entitlements, m.validator_order);
}

/// The entitlement a validator of the set starts a block from: the one it
/// holds, or a fresh one with nothing counted when it has none.
pub open spec fn spec_entitlement_before(
    ents: Map<u32, ValidatorEpochEntitlement>,
    v: ValidatorStakeInfo,
) -> ValidatorEpochEntitlement {
    if ents.contains_key(v.validator_id) {
        ents[v.validator_id]
    } else {
        ValidatorEpochEntitlement {
            validator_id: v.validator_id,
            payout_key: v.payout_key,
            effective_stake: v.effective_stake,
            present_blocks: 0,
            missed_blocks: 0,
            max_liveness_penalty_bps: 0,
            max_slash_penalty_bps: 0,
            entitlement: AssetFeeBuckets { hush: 0, usdc: 0, usdt: 0 },
        }
    }
}

/// Validator `id` is listed as having signed the block.
pub open spec fn spec_signed(pmap: Map<u32, ValidatorBlockParticipation>, id: u32) -> bool {
    pmap.contains_key(id) && pmap[id].signed_block
}

/// What the validators of a set gained in the bucket of `asset`, from
/// `before` to `after`.
pub open spec fn spec_gain_total(
    before: Map<u32, ValidatorEpochEntitlement>,
    after: Map<u32, ValidatorEpochEntitlement>,
    vals: Seq<ValidatorStakeInfo>,
    asset: AssetId,
) -> int
    decreases vals.len(),
{
    if vals.len() == 0 {
        0
    } else {
        let v = vals.last();
        spec_gain_total(before, after, vals.drop_last(), asset) + spec_bucket(
            after[v.validator_id].entitlement,
            asset,
        ) - spec_bucket(spec_entitlement_before(before, v).entitlement, asset)
    }
}

/// Over a set without repeated ids, each validator ends as crediting it
/// alone would leave it.
proof fn lemma_credit_all_each(
    ents: Map<u32, ValidatorEpochEntitlement>,
    vals: Seq<ValidatorStakeInfo>,
    pmap: Map<u32, ValidatorBlockParticipation>,
    ah: Map<u32, u64>,
    au: Map<u32, u64>,
    at: Map<u32, u64>,
)
    requires
        spec_unique_validators(vals),
        spec_credit_all(ents, vals, pmap, ah, au, at).1 is Ok,
    ensures
        forall|j: int|
            0 <= j < vals.len() ==> {
                &&& spec_credit_step(ents, #[trigger] vals[j], pmap, ah, au, at).1 is Ok
                &&& spec_credit_all(ents, vals, pmap, ah, au, at).0.contains_key(vals[j].validator_id)
                &&& spec_credit_all(ents, vals, pmap, ah, au, at).0[vals[j].validator_id]
                    == spec_credit_step(ents, vals[j], pmap, ah, au, at).0[vals[j].validator_id]
            },
    decreases vals.len(),
{
    if vals.len() > 0 {
        let pre = vals.drop_last();
        let v = vals.last();
        assert(spec_unique_validators(pre)) by {
            assert forall|i: int, j: int| 0 <= i < j < pre.len() implies pre[i].validator_id
                != pre[j].validator_id by {
                assert(pre[i] == vals[i] && pre[j] == vals[j]);
            }
        }
        lemma_credit_all_each(ents, pre, pmap, ah, au, at);
        let e = spec_credit_all(ents, pre, pmap, ah, au, at).0;
        assert forall|j: int| 0 <= j < pre.len() implies #[trigger] pre[j].validator_id
            != v.validator_id by {
            assert(pre[j] == vals[j]);
        }
        crate::accounting::lemma_credit_all_frame(ents, pre, pmap, ah, au, at, v.validator_id);
        assert forall|j: int| 0 <= j < vals.len() implies {
            &&& spec_credit_step(ents, #[trigger] vals[j], pmap, ah, au, at).1 is Ok
            &&& spec_credit_all(ents, vals, pmap, ah, au, at).0.contains_key(vals[j].validator_id)
            &&& spec_credit_all(ents, vals, pmap, ah, au, at).0[vals[j].validator_id]
                == spec_credit_step(ents, vals[j], pmap, ah, au, at).0[vals[j].validator_id]
        } by {
            if j < pre.len() {
                assert(vals[j] == pre[j]);
            } else {
                assert(vals[j] == v);
            }
        }
    }
}

/// Summed over a set whose every validator gained its allocation, the gains
/// are what the allocation gives the set.
proof fn lemma_gain_total_is_alloc(
    before: Map<u32, ValidatorEpochEntitlement>,
    after: Map<u32, ValidatorEpochEntitlement>,
    vals: Seq<ValidatorStakeInfo>,
    asset: AssetId,
    a: Map<u32, u64>,
)
    requires
        forall|j: int|
            0 <= j < vals.len() ==> spec_bucket(after[(#[trigger] vals[j]).validator_id].entitlement, asset)
                == spec_bucket(spec_entitlement_before(before, vals[j]).entitlement, asset)
                + spec_alloc_of(a, vals[j].validator_id),
    ensures
        spec_gain_total(before, after, vals, asset) == spec_set_alloc_total(a, vals),
    decreases vals.len(),
{
    if vals.len() > 0 {
        let pre = vals.drop_last();
        assert forall|j: int| 0 <= j < pre.len() implies spec_bucket(
            after[(#[trigger] pre[j]).validator_id].entitlement,
            asset,
        ) == spec_bucket(spec_entitlement_before(before, pre[j]).entitlement, asset) + spec_alloc_of(
            a,
            pre[j].validator_id,
        ) by {
            assert(pre[j] == vals[j]);
        }
        lemma_gain_total_is_alloc(before, after, pre, asset, a);
        assert(vals[vals.len() - 1] == vals.last());
    }
}

/// The participation of a block keyed by validator id, once the validator
/// set and the participation list are known to be well formed.
pub open spec fn spec_block_pmap(
    vals: Seq<ValidatorStakeInfo>,
    parts: Seq<ValidatorBlockParticipation>,
) -> Map<u32, ValidatorBlockParticipation> {
    spec_participation_map(parts, spec_validator_map(vals)->Ok_0)->Ok_0
}

/// What accruing a block successfully does to an epoch, step by step: each
/// fee pool grows by the block's bucket; per asset, the validators of the
/// set gain together exactly the block's bucket; every validator of the set
/// counts the block once, as present when it signed and as missed
/// otherwise, takes its current stake and payout key, and gains nothing
/// when it did not sign or carries no weight; any other validator's
/// entitlement stays as it was.
pub proof fn lemma_apply_block_step(
    m: EpochModel,
    block_height: u64,
    fee_buckets: AssetFeeBuckets,
    tx_counts_by_asset: AssetTxCounts,
    tx_counts_by_kind: Map<u32, u32>,
    records: Seq<AcceptedTxRecord>,
    vals: Seq<ValidatorStakeInfo>,
    parts: Seq<ValidatorBlockParticipation>,
    after: EpochModel,
)
    requires
        forall|id: u32| #[trigger]
            m.validator_entitlements.contains_key(id) ==> {
                &&& m.validator_entitlements[id].present_blocks < u32::MAX
                &&& m.validator_entitlements[id].missed_blocks < u32::MAX
            },
        spec_apply_weights_fit(
            m,
            block_height,
            fee_buckets,
            tx_counts_by_asset,
            tx_counts_by_kind,
            records,
            vals,
            parts,
        ),
        spec_apply_block(
            m,
            block_height,
            fee_buckets,
            tx_counts_by_asset,
            tx_counts_by_kind,
            records,
            vals,
            parts,
        ).1 is Ok,
        spec_same_epoch(
            after,
            spec_apply_block(
                m,
                block_height,
                fee_buckets,
                tx_counts_by_asset,
                tx_counts_by_kind,
                records,
                vals,
                parts,
            ).0,
        ),
    ensures
        forall|asset: AssetId|
            #[trigger] spec_bucket(after.fee_pools, asset) == spec_bucket(m.fee_pools, asset)
                + spec_bucket(fee_buckets, asset),
        forall|asset: AssetId|
            #[trigger] spec_gain_total(
                m.validator_entitlements,
                after.validator_entitlements,
                vals,
                asset,
            ) == spec_bucket(fee_buckets, asset),
        forall|j: int|
            0 <= j < vals.len() ==> {
                let v = #[trigger] vals[j];
                let b = spec_entitlement_before(m.validator_entitlements, v);
                let n = after.validator_entitlements[v.validator_id];
                &&& after.validator_entitlements.contains_key(v.validator_id)
                &&& n.validator_id == b.validator_id
                &&& n.effective_stake == v.effective_stake
                &&& n.payout_key == v.payout_key
                &&& spec_signed(spec_block_pmap(vals, parts), v.validator_id) ==> {
                    &&& n.present_blocks == b.present_blocks + 1
                    &&& n.missed_blocks == b.missed_blocks
                }
                &&& !spec_signed(spec_block_pmap(vals, parts), v.validator_id) ==> {
                    &&& n.present_blocks == b.present_blocks
                    &&& n.missed_blocks == b.missed_blocks + 1
                }
                &&& !spec_contributes(v, spec_block_pmap(vals, parts)) ==> n.entitlement
                    == b.entitlement
            },
        forall|id: u32|
            !spec_in_set(vals, id) ==> {
                &&& (#[trigger] after.validator_entitlements.contains_key(id))
                    == m.validator_entitlements.contains_key(id)
                &&& m.validator_entitlements.contains_key(id) ==> after.validator_entitlements[id]
                    == m.validator_entitlements[id]
            },
{
    let vmap = spec_validator_map(vals)->Ok_0;
    let pmap = spec_participation_map(parts, vmap)->Ok_0;
    let ws = spec_weights(vals, pmap);
    let ah = spec_allocation(fee_buckets.hush, ws);
    let au = spec_allocation(fee_buckets.usdc, ws);
    let at = spec_allocation(fee_buckets.usdt, ws);
    let ents0 = m.validator_entitlements;
    assert(spec_block_check(fee_buckets, tx_counts_by_asset, tx_counts_by_kind, records) is Ok);
    assert(spec_validator_map(vals) is Ok);
    assert(spec_participation_map(parts, vmap) is Ok);
    assert(spec_add_buckets(m.fee_pools, fee_buckets).1 is Ok);
    assert(spec_weights_fit(vals, pmap));
    assert(!(spec_nonzero(fee_buckets) && ws.len() == 0));
    assert(spec_credit_all(ents0, vals, pmap, ah, au, at).1 is Ok);
    let ents = spec_credit_all(ents0, vals, pmap, ah, au, at).0;
    assert(after.validator_entitlements == ents);
    assert(after.fee_pools == spec_add_buckets(m.fee_pools, fee_buckets).0);
    crate::accounting::lemma_validator_map_unique(vals);
    crate::accounting::lemma_weights_unique(vals, pmap);
    lemma_credit_all_each(ents0, vals, pmap, ah, au, at);
    lemma_idle_validators_get_nothing(fee_buckets.hush, vals, pmap);
    lemma_idle_validators_get_nothing(fee_buckets.usdc, vals, pmap);
    lemma_idle_validators_get_nothing(fee_buckets.usdt, vals, pmap);
    assert forall|j: int| 0 <= j < vals.len() implies {
        let v = #[trigger] vals[j];
        let b = spec_entitlement_before(ents0, v);
        let n = ents[v.validator_id];
        &&& n.validator_id == b.validator_id
        &&& n.effective_stake == v.effective_stake
        &&& n.payout_key == v.payout_key
        &&& spec_signed(pmap, v.validator_id) ==> {
            &&& n.present_blocks == b.present_blocks + 1
            &&& n.missed_blocks == b.missed_blocks
        }
        &&& !spec_signed(pmap, v.validator_id) ==> {
            &&& n.present_blocks == b.present_blocks
            &&& n.missed_blocks == b.missed_blocks + 1
        }
        &&& n.entitlement.hush == b.entitlement.hush + spec_alloc_of(ah, v.validator_id)
        &&& n.entitlement.usdc == b.entitlement.usdc + spec_alloc_of(au, v.validator_id)
        &&& n.entitlement.usdt == b.entitlement.usdt + spec_alloc_of(at, v.validator_id)
        &&& !spec_contributes(v, pmap) ==> n.entitlement == b.entitlement
    } by {
        let v = vals[j];
        let id = v.validator_id;
        let b = spec_entitlement_before(ents0, v);
        let e1 = ValidatorEpochEntitlement {
            effective_stake: v.effective_stake,
            payout_key: v.payout_key,
            ..b
        };
        let e2 = if pmap.contains_key(id) && pmap[id].signed_block {
            ValidatorEpochEntitlement {
                present_blocks: (e1.present_blocks + 1) as u32,
                max_liveness_penalty_bps: crate::accounting::spec_max16(
                    e1.max_liveness_penalty_bps,
                    pmap[id].liveness_penalty_bps,
                ),
                max_slash_penalty_bps: crate::accounting::spec_max16(
                    e1.max_slash_penalty_bps,
                    pmap[id].slash_penalty_bps,
                ),
                ..e1
            }
        } else {
            ValidatorEpochEntitlement { missed_blocks: (e1.missed_blocks + 1) as u32, ..e1 }
        };
        let st = spec_credit_step(ents0, v, pmap, ah, au, at);
        assert(st.1 is Ok);
        assert(ents[id] == st.0[id]);
        let x = e2.entitlement;
        assert(x.hush + spec_alloc_of(ah, id) <= u64::MAX);
        let x1 = AssetFeeBuckets { hush: (x.hush + spec_alloc_of(ah, id)) as u64, ..x };
        assert(x1.usdc + spec_alloc_of(au, id) <= u64::MAX);
        let x2 = AssetFeeBuckets { usdc: (x1.usdc + spec_alloc_of(au, id)) as u64, ..x1 };
        assert(x2.usdt + spec_alloc_of(at, id) <= u64::MAX);
        let x3 = AssetFeeBuckets { usdt: (x2.usdt + spec_alloc_of(at, id)) as u64, ..x2 };
        assert(st.0[id] == ValidatorEpochEntitlement { entitlement: x3, ..e2 });
        if !spec_contributes(v, pmap) {
            assert(!ah.contains_key(id));
            assert(!au.contains_key(id));
            assert(!at.contains_key(id));
        }
    }
    assert forall|asset: AssetId|
        #[trigger] spec_gain_total(ents0, ents, vals, asset) == spec_bucket(fee_buckets, asset) by {
        let a = spec_pick(ah, au, at, asset);
        assert forall|j: int| 0 <= j < vals.len() implies spec_bucket(
            ents[(#[trigger] vals[j]).validator_id].entitlement,
            asset,
        ) == spec_bucket(spec_entitlement_before(ents0, vals[j]).entitlement, asset) + spec_alloc_of(
            a,
            vals[j].validator_id,
        ) by {}
        lemma_gain_total_is_alloc(ents0, ents, vals, asset, a);
        lemma_set_alloc_total_amount(spec_bucket(fee_buckets, asset), vals, pmap);
        assert(a == spec_allocation(spec_bucket(fee_buckets, asset), ws));
        if ws.len() == 0 {
            assert(spec_bucket(fee_buckets, asset) == 0);
        }
    }
    lemma_credit_all_outside(ents0, vals, pmap, ah, au, at);
    assert forall|id: u32| !spec_in_set(vals, id) implies {
        &&& (#[trigger] after.validator_entitlements.contains_key(id))
            == m.validator_entitlements.contains_key(id)
        &&& m.validator_entitlements.contains_key(id) ==> after.validator_entitlements[id]
            == m.validator_entitlements[id]
    } by {
        assert(ents.contains_key(id) == after.validator_entitlements.contains_key(id));
    }
}

/// Some validator of the set has id `id`.
pub open spec fn spec_in_set(vals: Seq<ValidatorStakeInfo>, id: u32) -> bool {
    exists|j: int| 0 <= j < vals.len() && (#[trigger] vals[j]).validator_id == id
}

/// Crediting a set leaves every validator outside it as it was.
proof fn lemma_credit_all_outside(
    ents: Map<u32, ValidatorEpochEntitlement>,
    vals: Seq<ValidatorStakeInfo>,
    pmap: Map<u32, ValidatorBlockParticipation>,
    ah: Map<u32, u64>,
    au: Map<u32, u64>,
    at: Map<u32, u64>,
)
    ensures
        forall|id: u32|
            !spec_in_set(vals, id) ==> {
                &&& (#[trigger] spec_credit_all(ents, vals, pmap, ah, au, at).0.contains_key(id))
                    == ents.contains_key(id)
                &&& ents.contains_key(id) ==> spec_credit_all(ents, vals, pmap, ah, au, at).0[id]
                    == ents[id]
            },
{
    assert forall|id: u32|
        !spec_in_set(vals, id) implies {
        &&& (#[trigger] spec_credit_all(ents, vals, pmap, ah, au, at).0.contains_key(id))
            == ents.contains_key(id)
        &&& ents.contains_key(id) ==> spec_credit_all(ents, vals, pmap, ah, au, at).0[id] == ents[id]
    } by {
        crate::accounting::lemma_credit_all_frame(ents, vals, pmap, ah, au, at, id);
    }
}

} // verus!
