//! The ledger of the protocol lifecycle: the note, attestation and issuer
//! trees, and the set of spent nullifiers, against which a payment's public
//! outputs are applied (a nullifier can be spent once).

use vstd::arithmetic::power2::{lemma2_to64, pow2};
use vstd::prelude::*;

use crate::circuit::PaymentPublicData;
use crate::error::HushError;
use crate::m31::all_felts;
use crate::merkle::{
    hashout_eq, lemma_words_path_matches, spec_words_path_root, SparseMerkleTree,
};
use crate::payment_tx::{
    compute_mode_a_tx_binding_hash, derive_sender_binding_tag, spec_mode_a_binding_hash,
    spec_sender_binding_tag, PAYMENT_TX_V1_REPLAY_DOMAIN,
};
use crate::poseidon2::{hashout_to_u32_array, HashOut};
use crate::types::{PaymentWitness, MERKLE_DEPTH};

verus! {

/// A tree path written as words, leaf level first.
pub fn path_to_u32(path: &Vec<(HashOut, u32)>) -> (r: [([u32; 4], u32); MERKLE_DEPTH])
    requires
        path@.len() == MERKLE_DEPTH,
    ensures
        forall|i: int|
            0 <= i < MERKLE_DEPTH ==> (#[trigger] r@[i]).0@ == path@[i].0@ && r@[i].1
                == path@[i].1,
{
    let mut r: [([u32; 4], u32); MERKLE_DEPTH] = [([0u32, 0, 0, 0], 0u32); 20];
    for i in 0..MERKLE_DEPTH
        invariant
            path@.len() == MERKLE_DEPTH,
            forall|j: int|
                0 <= j < i ==> (#[trigger] r@[j]).0@ == path@[j].0@ && r@[j].1 == path@[j].1,
    {
        let (h, d) = path[i];
        r[i] = (hashout_to_u32_array(h), d);
    }
    r
}

/// Applying a payment's public outputs to a ledger with note root `root`
/// and spent nullifiers `spent`: the proof must be bound to the current
/// note root, and neither nullifier may have been spent.
pub open spec fn spec_apply_payment(root: Seq<u32>, spent: Set<[u32; 4]>, pd: PaymentPublicData) -> Result<
    (),
    HushError,
> {
    if pd.note_root@ != root {
        Err(HushError::NoteRootMismatch)
    } else if spent.contains(pd.null_0) {
        Err(HushError::DoubleSpend(pd.null_0))
    } else if spent.contains(pd.null_1) {
        Err(HushError::DoubleSpend(pd.null_1))
    } else {
        Ok(())
    }
}

/// Once a payment has been applied, no payment that names one of its
/// nullifiers can be applied again, whatever the note root.
pub proof fn lemma_nullifier_spent_once(
    root: Seq<u32>,
    spent: Set<[u32; 4]>,
    pd: PaymentPublicData,
    later_root: Seq<u32>,
    later: PaymentPublicData,
)
    requires
        spec_apply_payment(root, spent, pd) is Ok,
        later.null_0 == pd.null_0 || later.null_0 == pd.null_1 || later.null_1 == pd.null_0
            || later.null_1 == pd.null_1,
    ensures
        spec_apply_payment(later_root, spent.insert(pd.null_0).insert(pd.null_1), later) is Err,
{
}

/// The ledger of the lifecycle demo.
pub struct LedgerState {
    note_tree: SparseMerkleTree,
    attestation_tree: SparseMerkleTree,
    issuer_tree: SparseMerkleTree,
    nullifier_set: Vec<[u32; 4]>,
    next_note_idx: usize,
}

impl LedgerState {
    /// The trees have the ledger's depth, the next note index fits in the
    /// note tree, and no nullifier is listed twice.
    pub closed spec fn wf(&self) -> bool {
        &&& self.note_tree.wf()
        &&& self.note_tree.spec_depth() == MERKLE_DEPTH
        &&& self.attestation_tree.wf()
        &&& self.attestation_tree.spec_depth() == MERKLE_DEPTH
        &&& self.issuer_tree.wf()
        &&& self.issuer_tree.spec_depth() == MERKLE_DEPTH
        &&& self.next_note_idx <= pow2(MERKLE_DEPTH as nat)
        &&& self.nullifier_set@.no_duplicates()
    }

    /// The spent nullifiers.
    pub closed spec fn spent(&self) -> Set<[u32; 4]> {
        self.nullifier_set@.to_set()
    }

    /// How many notes were added.
    pub closed spec fn note_count(&self) -> nat {
        self.next_note_idx as nat
    }

    pub closed spec fn note_leaf(&self, i: int) -> Seq<u32> {
        self.note_tree.leaf(i)
    }

    pub closed spec fn attestation_leaf(&self, i: int) -> Seq<u32> {
        self.attestation_tree.leaf(i)
    }

    pub closed spec fn issuer_leaf(&self, i: int) -> Seq<u32> {
        self.issuer_tree.leaf(i)
    }

    pub closed spec fn note_root(&self) -> Seq<u32> {
        self.note_tree.spec_root()
    }

    pub closed spec fn attestation_root(&self) -> Seq<u32> {
        self.attestation_tree.spec_root()
    }

    pub closed spec fn issuer_root(&self) -> Seq<u32> {
        self.issuer_tree.spec_root()
    }

    /// The three trees are as in `other`.
    pub open spec fn same_trees(&self, other: &Self) -> bool {
        &&& self.note_count() == other.note_count()
        &&& self.note_root() == other.note_root()
        &&& self.attestation_root() == other.attestation_root()
        &&& self.issuer_root() == other.issuer_root()
        &&& forall|i: int| #[trigger] self.note_leaf(i) == other.note_leaf(i)
        &&& forall|i: int| #[trigger] self.attestation_leaf(i) == other.attestation_leaf(i)
        &&& forall|i: int| #[trigger] self.issuer_leaf(i) == other.issuer_leaf(i)
    }

    /// An empty ledger: empty trees, no note, nothing spent.
    pub fn new() -> (r: Self)
        ensures
            r.wf(),
            r.note_count() == 0,
            r.spent() == Set::<[u32; 4]>::empty(),
            forall|i: int|
                0 <= i < pow2(MERKLE_DEPTH as nat) ==> {
                    &&& #[trigger] r.note_leaf(i) == seq![0u32, 0, 0, 0]
                    &&& r.attestation_leaf(i) == seq![0u32, 0, 0, 0]
                    &&& r.issuer_leaf(i) == seq![0u32, 0, 0, 0]
                },
    {
        proof {
            lemma2_to64();
        }
        let r = LedgerState {
            note_tree: SparseMerkleTree::new(MERKLE_DEPTH),
            attestation_tree: SparseMerkleTree::new(MERKLE_DEPTH),
            issuer_tree: SparseMerkleTree::new(MERKLE_DEPTH),
            nullifier_set: Vec::new(),
            next_note_idx: 0,
        };
        assert(r.spent() =~= Set::<[u32; 4]>::empty());
        r
    }

    /// Adds a note commitment at the next free leaf and returns its index.
    pub fn add_note(&mut self, commitment: HashOut) -> (idx: usize)
        requires
            old(self).wf(),
            old(self).note_count() < pow2(MERKLE_DEPTH as nat),
            all_felts(commitment@),
        ensures
            final(self).wf(),
            idx == old(self).note_count(),
            final(self).note_count() == old(self).note_count() + 1,
            final(self).note_leaf(idx as int) == commitment@,
            forall|j: int|
                0 <= j < pow2(MERKLE_DEPTH as nat) && j != idx ==> #[trigger] final(self).note_leaf(j)
                    == old(self).note_leaf(j),
            final(self).spent() == old(self).spent(),
            final(self).attestation_root() == old(self).attestation_root(),
            final(self).issuer_root() == old(self).issuer_root(),
            forall|i: int| #[trigger] final(self).attestation_leaf(i) == old(self).attestation_leaf(i),
            forall|i: int| #[trigger] final(self).issuer_leaf(i) == old(self).issuer_leaf(i),
    {
        proof {
            lemma2_to64();
        }
        let idx = self.next_note_idx;
        self.note_tree.set_leaf(idx, commitment);
        self.next_note_idx = self.next_note_idx + 1;
        idx
    }

    /// Sets attestation leaf `index`.
    pub fn add_attestation(&mut self, index: usize, commitment: HashOut)
        requires
            old(self).wf(),
            index < pow2(MERKLE_DEPTH as nat),
            all_felts(commitment@),
        ensures
            final(self).wf(),
            final(self).attestation_leaf(index as int) == commitment@,
            forall|j: int|
                0 <= j < pow2(MERKLE_DEPTH as nat) && j != index
                    ==> #[trigger] final(self).attestation_leaf(j) == old(self).attestation_leaf(j),
            final(self).spent() == old(self).spent(),
            final(self).note_count() == old(self).note_count(),
            final(self).note_root() == old(self).note_root(),
            final(self).issuer_root() == old(self).issuer_root(),
            forall|i: int| #[trigger] final(self).note_leaf(i) == old(self).note_leaf(i),
            forall|i: int| #[trigger] final(self).issuer_leaf(i) == old(self).issuer_leaf(i),
    {
        self.attestation_tree.set_leaf(index, commitment);
    }

    /// Sets issuer leaf `index`.
    pub fn add_issuer(&mut self, index: usize, issuer_id: HashOut)
        requires
            old(self).wf(),
            index < pow2(MERKLE_DEPTH as nat),
            all_felts(issuer_id@),
        ensures
            final(self).wf(),
            final(self).issuer_leaf(index as int) == issuer_id@,
            forall|j: int|
                0 <= j < pow2(MERKLE_DEPTH as nat) && j != index ==> #[trigger] final(self).issuer_leaf(j)
                    == old(self).issuer_leaf(j),
            final(self).spent() == old(self).spent(),
            final(self).note_count() == old(self).note_count(),
            final(self).note_root() == old(self).note_root(),
            final(self).attestation_root() == old(self).attestation_root(),
            forall|i: int| #[trigger] final(self).note_leaf(i) == old(self).note_leaf(i),
            forall|i: int| #[trigger] final(self).attestation_leaf(i) == old(self).attestation_leaf(i),
    {
        self.issuer_tree.set_leaf(index, issuer_id);
    }

    pub fn note_root_u32(&self) -> (r: [u32; 4])
        requires
            self.wf(),
        ensures
            r@ == self.note_root(),
    {
        hashout_to_u32_array(self.note_tree.root())
    }

    pub fn attestation_root_u32(&self) -> (r: [u32; 4])
        requires
            self.wf(),
        ensures
            r@ == self.attestation_root(),
    {
        hashout_to_u32_array(self.attestation_tree.root())
    }

    pub fn issuer_root_u32(&self) -> (r: [u32; 4])
        requires
            self.wf(),
        ensures
            r@ == self.issuer_root(),
    {
        hashout_to_u32_array(self.issuer_tree.root())
    }

    /// The path of note leaf `index` to the note root.
    pub fn note_path(&self, index: usize) -> (r: [([u32; 4], u32); MERKLE_DEPTH])
        requires
            self.wf(),
            index < pow2(MERKLE_DEPTH as nat),
        ensures
            spec_words_path_root(self.note_leaf(index as int), r@) == self.note_root(),
    {
        let path = self.note_tree.path(index);
        let r = path_to_u32(&path);
        proof {
            lemma_words_path_matches(self.note_leaf(index as int), path@, r@);
        }
        r
    }

    /// The path of attestation leaf `index` to the attestation root.
    pub fn attestation_path(&self, index: usize) -> (r: [([u32; 4], u32); MERKLE_DEPTH])
        requires
            self.wf(),
            index < pow2(MERKLE_DEPTH as nat),
        ensures
            spec_words_path_root(self.attestation_leaf(index as int), r@) == self.attestation_root(),
    {
        let path = self.attestation_tree.path(index);
        let r = path_to_u32(&path);
        proof {
            lemma_words_path_matches(self.attestation_leaf(index as int), path@, r@);
        }
        r
    }

    /// The path of issuer leaf `index` to the issuer root.
    pub fn issuer_path(&self, index: usize) -> (r: [([u32; 4], u32); MERKLE_DEPTH])
        requires
            self.wf(),
            index < pow2(MERKLE_DEPTH as nat),
        ensures
            spec_words_path_root(self.issuer_leaf(index as int), r@) == self.issuer_root(),
    {
        let path = self.issuer_tree.path(index);
        let r = path_to_u32(&path);
        proof {
            lemma_words_path_matches(self.issuer_leaf(index as int), path@, r@);
        }
        r
    }

    /// The number of spent nullifiers.
    pub fn spent_count(&self) -> (r: usize)
        requires
            self.wf(),
        ensures
            r == self.spent().len(),
    {
        proof {
            self.nullifier_set@.unique_seq_to_set();
        }
        self.nullifier_set.len()
    }

    /// Whether `nullifier` was spent.
    pub fn is_spent(&self, nullifier: &[u32; 4]) -> (r: bool)
        ensures
            r == self.spent().contains(*nullifier),
    {
        let n = self.nullifier_set.len();
        for i in 0..n
            invariant
                n == self.nullifier_set@.len(),
                forall|j: int| 0 <= j < i ==> self.nullifier_set@[j] != *nullifier,
        {
            if hashout_eq(&self.nullifier_set[i], nullifier) {
                assert(self.nullifier_set@[i as int] =~= *nullifier);
                assert(self.nullifier_set@.contains(*nullifier));
                return true;
            }
        }
        false
    }

    /// Applies a payment's public outputs: the proof must be bound to the
    /// current note root and spend no spent nullifier; both nullifiers are
    /// then marked spent.
    pub fn apply_payment(&mut self, public_data: &PaymentPublicData) -> (r: Result<(), HushError>)
        requires
            old(self).wf(),
        ensures
            final(self).wf(),
            r == spec_apply_payment(old(self).note_root(), old(self).spent(), *public_data),
            final(self).spent() == if r is Ok {
                old(self).spent().insert(public_data.null_0).insert(public_data.null_1)
            } else {
                old(self).spent()
            },
            final(self).same_trees(&*old(self)),
    {
        let root = self.note_root_u32();
        if !hashout_eq(&public_data.note_root, &root) {
            return Err(HushError::NoteRootMismatch);
        }
        if self.is_spent(&public_data.null_0) {
            return Err(HushError::DoubleSpend(public_data.null_0));
        }
        if self.is_spent(&public_data.null_1) {
            return Err(HushError::DoubleSpend(public_data.null_1));
        }
        let ghost before = self.nullifier_set@;
        self.nullifier_set.push(public_data.null_0);
        proof {
            assert(self.nullifier_set@.no_duplicates()) by {
                assert(!before.contains(public_data.null_0));
                assert forall|i: int, j: int|
                    0 <= i < self.nullifier_set@.len() && 0 <= j < self.nullifier_set@.len() && i
                        != j implies self.nullifier_set@[i] != self.nullifier_set@[j] by {
                    if i == before.len() {
                        assert(before.contains(before[j]));
                    } else if j == before.len() {
                        assert(before.contains(before[i]));
                    }
                }
            }
        }
        if !hashout_eq(&public_data.null_1, &public_data.null_0) {
            let ghost mid = self.nullifier_set@;
            self.nullifier_set.push(public_data.null_1);
            proof {
                assert(!mid.contains(public_data.null_1)) by {
                    if mid.contains(public_data.null_1) {
                        let k = choose|k: int| 0 <= k < mid.len() && mid[k] == public_data.null_1;
                        if k < before.len() {
                            assert(before.contains(public_data.null_1));
                        } else {
                            assert(public_data.null_1@ == public_data.null_0@);
                            assert(public_data.null_1 =~= public_data.null_0);
                        }
                    }
                }
                assert forall|i: int, j: int|
                    0 <= i < self.nullifier_set@.len() && 0 <= j < self.nullifier_set@.len() && i
                        != j implies self.nullifier_set@[i] != self.nullifier_set@[j] by {
                    if i == mid.len() {
                        assert(mid.contains(mid[j]));
                    } else if j == mid.len() {
                        assert(mid.contains(mid[i]));
                    }
                }
                Seq::lemma_to_set_insert_commutes(before, public_data.null_0);
                Seq::lemma_to_set_insert_commutes(mid, public_data.null_1);
                assert(mid =~= before + seq![public_data.null_0]);
                assert(self.nullifier_set@ =~= mid + seq![public_data.null_1]);
            }
        } else {
            proof {
                assert(public_data.null_1 =~= public_data.null_0);
                Seq::lemma_to_set_insert_commutes(before, public_data.null_0);
                assert(self.nullifier_set@ =~= before + seq![public_data.null_0]);
                assert(before.to_set().insert(public_data.null_0).insert(public_data.null_1)
                    =~= before.to_set().insert(public_data.null_0));
            }
        }
        Ok(())
    }
}

/// The witness of a same-asset payment that spends the ledger's notes at
/// `in_idx_0` and `in_idx_1`: paths from the current note tree, the Mode A
/// binding hash of the outputs (no fee), the sender's tag, and all-zero
/// attestation and accumulator roots (unregulated notes).
pub fn build_payment_witness(
    ledger: &LedgerState,
    epoch: u32,
    sk: u32,
    in_asset: u32,
    in_idx_0: usize,
    in_amt_0: u64,
    in_rand_0: u32,
    in_idx_1: usize,
    in_amt_1: u64,
    in_rand_1: u32,
    out_amt_0: u64,
    out_owner_0: [u32; 4],
    out_rand_0: u32,
    out_amt_1: u64,
    out_rand_1: u32,
) -> (w: PaymentWitness)
    requires
        ledger.wf(),
        in_idx_0 < pow2(MERKLE_DEPTH as nat),
        in_idx_1 < pow2(MERKLE_DEPTH as nat),
    ensures
        w.epoch == epoch,
        w.note_root@ == ledger.note_root(),
        w.sk == sk,
        w.in_asset == in_asset,
        w.in_amt_0 == in_amt_0,
        w.in_rand_0 == in_rand_0,
        w.in_amt_1 == in_amt_1,
        w.in_rand_1 == in_rand_1,
        w.out_amt_0 == out_amt_0,
        w.out_owner_0 == out_owner_0,
        w.out_rand_0 == out_rand_0,
        w.out_amt_1 == out_amt_1,
        w.out_rand_1 == out_rand_1,
        w.payment_fee_amount == 0,
        w.binding_fee_asset == in_asset,
        w.fee_amount == 0,
        w.fee_class == 1,
        w.fee_schedule_version == 1,
        w.replay_domain == PAYMENT_TX_V1_REPLAY_DOMAIN,
        w.tx_binding_hash@ == spec_mode_a_binding_hash(
            PAYMENT_TX_V1_REPLAY_DOMAIN,
            in_asset,
            in_asset,
            1,
            0,
            1,
            out_amt_0,
            out_owner_0@,
            out_rand_0,
            out_amt_1,
            out_rand_1,
        ),
        w.sender_binding_tag@ == spec_sender_binding_tag(sk, w.tx_binding_hash@),
        w.att_root_0 == [0u32, 0, 0, 0],
        w.att_root_1 == [0u32, 0, 0, 0],
        w.pub_accumulator_root == [0u32, 0, 0, 0],
        spec_words_path_root(ledger.note_leaf(in_idx_0 as int), w.note_path_0@) == ledger.note_root(),
        spec_words_path_root(ledger.note_leaf(in_idx_1 as int), w.note_path_1@) == ledger.note_root(),
{
    let note_path_0 = ledger.note_path(in_idx_0);
    let note_path_1 = ledger.note_path(in_idx_1);
    let tx_binding_hash = compute_mode_a_tx_binding_hash(
        PAYMENT_TX_V1_REPLAY_DOMAIN,
        in_asset,
        in_asset,
        1,
        0u64,
        1,
        out_amt_0,
        out_owner_0,
        out_rand_0,
        out_amt_1,
        out_rand_1,
    );
    let att_root_zero: [u32; 4] = [0u32, 0, 0, 0];
    PaymentWitness {
        epoch,
        note_root: ledger.note_root_u32(),
        sk,
        in_asset,
        in_amt_0,
        in_rand_0,
        in_amt_1,
        in_rand_1,
        out_amt_0,
        out_owner_0,
        out_rand_0,
        out_amt_1,
        out_rand_1,
        payment_fee_amount: 0,
        binding_fee_asset: in_asset,
        fee_amount: 0,
        fee_class: 1,
        fee_schedule_version: 1,
        replay_domain: PAYMENT_TX_V1_REPLAY_DOMAIN,
        tx_binding_hash,
        sender_binding_tag: derive_sender_binding_tag(sk, tx_binding_hash),
        att_root_0: att_root_zero,
        att_root_1: att_root_zero,
        pub_accumulator_root: att_root_zero,
        note_path_0,
        note_path_1,
    }
}

} // verus!
