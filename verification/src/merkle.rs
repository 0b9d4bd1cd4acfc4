//! Merkle trees over Poseidon2: a dense array tree, a sparse tree with
//! default subtrees, authentication paths and their verification.

use std::collections::HashMap;

use vstd::arithmetic::power2::{
    lemma_pow2_pos, lemma_pow2_strictly_increases, lemma_pow2_unfold, pow2,
};
use vstd::prelude::*;

use crate::m31::all_felts;
use crate::poseidon2::{merkle_hash, spec_merkle_hash, spec_to_hashout, u32_array_to_hashout, HashOut};

verus! {

broadcast use vstd::std_specs::hash::group_hash_axioms;

/// Every hash of the sequence is made of field elements.
pub open spec fn all_hash_felts(s: Seq<HashOut>) -> bool {
    forall|i: int| 0 <= i < s.len() ==> all_felts(#[trigger] s[i]@)
}

/// Every sibling of the path is made of field elements.
pub open spec fn path_felts(p: Seq<(HashOut, u32)>) -> bool {
    forall|i: int| 0 <= i < p.len() ==> all_felts(#[trigger] p[i].0@)
}

/// One level up: the current node is the left child when `direction == 0`
/// and the right child otherwise.
pub open spec fn spec_path_step(current: Seq<u32>, sibling: Seq<u32>, direction: u32) -> Seq<u32> {
    if direction == 0 {
        spec_merkle_hash(current, sibling)
    } else {
        spec_merkle_hash(sibling, current)
    }
}

/// The root that a path leads to from a leaf, following its levels in order.
pub open spec fn spec_path_root(current: Seq<u32>, path: Seq<(HashOut, u32)>) -> Seq<u32>
    decreases path.len(),
{
    if path.len() == 0 {
        current
    } else {
        spec_path_root(spec_path_step(current, path[0].0@, path[0].1), path.skip(1))
    }
}

pub fn hashout_eq(a: &HashOut, b: &HashOut) -> (r: bool)
    ensures
        r == (a@ == b@),
{
    let r = a[0] == b[0] && a[1] == b[1] && a[2] == b[2] && a[3] == b[3];
    if r {
        assert(a@ =~= b@);
    }
    r
}

/// Whether `path` leads from `leaf` to `root`.
pub fn verify_merkle_path(leaf: HashOut, path: &[(HashOut, u32)], root: HashOut) -> (ok: bool)
    requires
        all_felts(leaf@),
        path_felts(path@),
    ensures
        ok == (spec_path_root(leaf@, path@) == root@),
{
    let mut current = leaf;
    let len = path.len();
    assert(path@.skip(0) =~= path@);
    for i in 0..len
        invariant
            len == path@.len(),
            path_felts(path@),
            all_felts(current@),
            spec_path_root(current@, path@.skip(i as int)) == spec_path_root(leaf@, path@),
    {
        let (sibling, direction) = path[i];
        assert(all_felts(path@[i as int].0@));
        let ghost before = current@;
        if direction == 0 {
            current = merkle_hash(current, sibling);
        } else {
            current = merkle_hash(sibling, current);
        }
        assert(path@.skip(i as int).skip(1) =~= path@.skip(i + 1));
        assert(current@ == spec_path_step(before, path@.skip(i as int)[0].0@, path@.skip(
            i as int,
        )[0].1));
    }
    assert(path@.skip(len as int) =~= Seq::<(HashOut, u32)>::empty());
    hashout_eq(&current, &root)
}

/// The root reached from `current` along a path whose siblings are given as
/// raw words, each read as a field element.
pub open spec fn spec_words_path_root(current: Seq<u32>, path: Seq<([u32; 4], u32)>) -> Seq<u32>
    decreases path.len(),
{
    if path.len() == 0 {
        current
    } else {
        spec_words_path_root(
            spec_path_step(current, spec_to_hashout(path[0].0@), path[0].1),
            path.skip(1),
        )
    }
}

/// Whether `path`, with its siblings given as raw words, leads from `leaf`
/// to `root` (read as field elements).
pub fn verify_words_path(leaf: HashOut, path: &[([u32; 4], u32)], root: [u32; 4]) -> (ok: bool)
    requires
        all_felts(leaf@),
    ensures
        ok == (spec_words_path_root(leaf@, path@) == spec_to_hashout(root@)),
{
    let mut current = leaf;
    let len = path.len();
    assert(path@.skip(0) =~= path@);
    for i in 0..len
        invariant
            len == path@.len(),
            all_felts(current@),
            spec_words_path_root(current@, path@.skip(i as int)) == spec_words_path_root(
                leaf@,
                path@,
            ),
    {
        let (words, direction) = path[i];
        let sibling = u32_array_to_hashout(words);
        let ghost before = current@;
        if direction == 0 {
            current = merkle_hash(current, sibling);
        } else {
            current = merkle_hash(sibling, current);
        }
        assert(path@.skip(i as int).skip(1) =~= path@.skip(i + 1));
        assert(current@ == spec_path_step(
            before,
            spec_to_hashout(path@.skip(i as int)[0].0@),
            path@.skip(i as int)[0].1,
        ));
    }
    assert(path@.skip(len as int) =~= Seq::<([u32; 4], u32)>::empty());
    let r = u32_array_to_hashout(root);
    hashout_eq(&current, &r)
}

/// A path of field-element siblings and the same path written as words
/// lead to the same root.
pub proof fn lemma_words_path_matches(
    leaf: Seq<u32>,
    path: Seq<(HashOut, u32)>,
    words: Seq<([u32; 4], u32)>,
)
    requires
        path_felts(path),
        words.len() == path.len(),
        forall|i: int|
            0 <= i < path.len() ==> (#[trigger] words[i]).0@ == path[i].0@ && words[i].1
                == path[i].1,
    ensures
        spec_words_path_root(leaf, words) == spec_path_root(leaf, path),
    decreases path.len(),
{
    if path.len() > 0 {
        let h = path[0].0@;
        assert(all_felts(h));
        assert(spec_to_hashout(words[0].0@) =~= h);
        lemma_words_path_matches(
            spec_path_step(leaf, h, path[0].1),
            path.skip(1),
            words.skip(1),
        );
    }
}

/// `n` is a power of two.
pub open spec fn is_pow2(n: int) -> bool {
    exists|k: nat| pow2(k) == n
}

/// `tree[n..2n]` are the leaves and every inner node `1 <= i < n` hashes its
/// two children `2i` and `2i + 1`.
pub open spec fn spec_is_merkle_tree(tree: Seq<HashOut>, n: int) -> bool {
    &&& tree.len() == 2 * n
    &&& forall|i: int|
        1 <= i < n ==> #[trigger] tree[i]@ == spec_merkle_hash(tree[2 * i]@, tree[2 * i + 1]@)
}

/// Build the array form of the tree over `leaves`: node `i` at index `i`,
/// root at index 1, leaves at `n..2n`, index 0 unused (zero).
pub fn build_merkle_tree(leaves: &[HashOut]) -> (tree: Vec<HashOut>)
    requires
        is_pow2(leaves@.len() as int),
        leaves@.len() >= 2,
        2 * leaves@.len() <= usize::MAX,
        all_hash_felts(leaves@),
    ensures
        spec_is_merkle_tree(tree@, leaves@.len() as int),
        tree@.subrange(leaves@.len() as int, 2 * leaves@.len() as int) == leaves@,
        tree@[0]@ == seq![0u32, 0, 0, 0],
        all_hash_felts(tree@),
{
    let n = leaves.len();
    let mut tree: Vec<HashOut> = Vec::new();
    for i in 0..n
        invariant
            tree@.len() == i,
            forall|k: int| 0 <= k < i ==> (#[trigger] tree@[k])@ == seq![0u32, 0, 0, 0],
    {
        tree.push([0u32; 4]);
    }
    for i in 0..n
        invariant
            n == leaves@.len(),
            tree@.len() == n + i,
            forall|k: int| 0 <= k < n ==> (#[trigger] tree@[k])@ == seq![0u32, 0, 0, 0],
            forall|k: int| 0 <= k < i ==> #[trigger] tree@[n + k] == leaves@[k],
    {
        tree.push(leaves[i]);
    }
    assert forall|k: int| n - 1 < k < 2 * n implies all_felts(#[trigger] tree@[k]@) by {
        assert(tree@[n + (k - n)] == leaves@[k - n]);
    }
    let mut i = n - 1;
    while i >= 1
        invariant
            n == leaves@.len(),
            n >= 2,
            2 * n <= usize::MAX,
            i < n,
            tree@.len() == 2 * n,
            all_hash_felts(leaves@),
            tree@[0]@ == seq![0u32, 0, 0, 0],
            forall|k: int| 0 <= k < n ==> #[trigger] tree@[n + k] == leaves@[k],
            forall|k: int| 1 <= k <= i ==> (#[trigger] tree@[k])@ == seq![0u32, 0, 0, 0],
            forall|k: int|
                i < k < n ==> #[trigger] tree@[k]@ == spec_merkle_hash(
                    tree@[2 * k]@,
                    tree@[2 * k + 1]@,
                ),
            forall|k: int| i < k < 2 * n ==> all_felts(#[trigger] tree@[k]@),
        decreases i,
    {
        assert(all_felts(tree@[2 * i as int]@));
        assert(all_felts(tree@[2 * i + 1]@));
        let h = merkle_hash(tree[2 * i], tree[2 * i + 1]);
        tree.set(i, h);
        i = i - 1;
    }
    assert forall|k: int| 0 <= k < n implies #[trigger] tree@.subrange(n as int, 2 * n)[k]
        == leaves@[k] by {
        assert(tree@[n + k] == leaves@[k]);
    }
    assert(tree@.subrange(n as int, 2 * n) =~= leaves@);
    assert forall|k: int| 0 <= k < tree@.len() implies all_felts(#[trigger] tree@[k]@) by {
        if k == 0 {
            assert(tree@[0]@ =~= seq![0u32, 0, 0, 0]);
        }
    }
    tree
}

/// The root of the tree over `leaves`.
pub fn merkle_root(leaves: &[HashOut]) -> (root: HashOut)
    requires
        is_pow2(leaves@.len() as int),
        leaves@.len() >= 2,
        2 * leaves@.len() <= usize::MAX,
        all_hash_felts(leaves@),
    ensures
        exists|tree: Seq<HashOut>|
            spec_is_merkle_tree(tree, leaves@.len() as int) && tree.subrange(
                leaves@.len() as int,
                2 * leaves@.len() as int,
            ) == leaves@ && tree[1] == root,
{
    let tree = build_merkle_tree(leaves);
    tree[1]
}

/// The authentication path of node `idx` of an array tree: for each level
/// the sibling and whether the node is a right child.
pub open spec fn spec_merkle_path(tree: Seq<HashOut>, idx: int) -> Seq<(HashOut, u32)>
    decreases idx,
{
    if idx <= 1 {
        Seq::empty()
    } else {
        let sibling = if idx % 2 == 0 {
            tree[idx + 1]
        } else {
            tree[idx - 1]
        };
        seq![(sibling, (idx % 2) as u32)] + spec_merkle_path(tree, idx / 2)
    }
}

/// The authentication path of leaf `leaf_index` in an array tree.
pub fn merkle_path(tree: &[HashOut], leaf_index: usize) -> (path: Vec<(HashOut, u32)>)
    requires
        leaf_index < tree@.len() / 2,
    ensures
        path@ == spec_merkle_path(tree@, tree@.len() / 2 + leaf_index),
{
    let n = tree.len() / 2;
    let mut path: Vec<(HashOut, u32)> = Vec::new();
    let mut idx = n + leaf_index;
    while idx > 1
        invariant
            n == tree@.len() / 2,
            1 <= idx < 2 * n,
            path@ + spec_merkle_path(tree@, idx as int) == spec_merkle_path(
                tree@,
                n + leaf_index,
            ),
        decreases idx,
    {
        let sibling = if idx % 2 == 0 {
            tree[idx + 1]
        } else {
            tree[idx - 1]
        };
        let direction = (idx % 2) as u32;
        let ghost old_path = path@;
        path.push((sibling, direction));
        assert(path@ + spec_merkle_path(tree@, (idx / 2) as int) =~= old_path + spec_merkle_path(
            tree@,
            idx as int,
        ));
        idx = idx / 2;
    }
    assert(path@ =~= path@ + spec_merkle_path(tree@, idx as int));
    path
}

/// In a Merkle tree, the authentication path of any node leads from that
/// node to the root.
pub proof fn lemma_merkle_path_reaches_root(tree: Seq<HashOut>, n: int, idx: int)
    requires
        spec_is_merkle_tree(tree, n),
        1 <= idx < 2 * n,
    ensures
        spec_path_root(tree[idx]@, spec_merkle_path(tree, idx)) == tree[1]@,
    decreases idx,
{
    if idx > 1 {
        let path = spec_merkle_path(tree, idx);
        let parent = idx / 2;
        let rest = spec_merkle_path(tree, parent);
        let sibling = if idx % 2 == 0 {
            tree[idx + 1]
        } else {
            tree[idx - 1]
        };
        let e = (sibling, (idx % 2) as u32);
        assert(path == seq![e] + rest);
        assert(path[0] == e);
        assert(path.skip(1) =~= rest);
        assert(1 <= parent < n);
        assert(tree[parent]@ == spec_merkle_hash(tree[2 * parent]@, tree[2 * parent + 1]@));
        if idx % 2 == 0 {
            assert(2 * parent == idx);
            assert(spec_path_step(tree[idx]@, e.0@, e.1) == tree[parent]@);
        } else {
            assert(2 * parent + 1 == idx);
            assert(spec_path_step(tree[idx]@, e.0@, e.1) == tree[parent]@);
        }
        assert(spec_path_root(tree[idx]@, path) == spec_path_root(tree[parent]@, rest));
        lemma_merkle_path_reaches_root(tree, n, parent);
    }
}

/// The path that `merkle_path` gives for leaf `i` of a tree built over
/// `leaves` leads from `leaves[i]` to the tree's root.
pub proof fn lemma_dense_path_verifies(leaves: Seq<HashOut>, tree: Seq<HashOut>, i: int)
    requires
        spec_is_merkle_tree(tree, leaves.len() as int),
        tree.subrange(leaves.len() as int, 2 * leaves.len() as int) == leaves,
        0 <= i < leaves.len(),
    ensures
        spec_path_root(leaves[i]@, spec_merkle_path(tree, leaves.len() + i)) == tree[1]@,
{
    let n = leaves.len() as int;
    assert(tree[n + i] == tree.subrange(n, 2 * n)[i]);
    lemma_merkle_path_reaches_root(tree, n, n + i);
}

/// Depth of node `pos` in the array numbering (the root, 1, is at depth 0).
pub open spec fn spec_level(pos: int) -> nat
    decreases pos,
{
    if pos <= 1 {
        0
    } else {
        1 + spec_level(pos / 2)
    }
}

/// `a` is a strict ancestor of `x` in the array numbering.
pub open spec fn spec_is_ancestor(a: int, x: int) -> bool
    decreases x,
{
    if x <= 1 {
        false
    } else {
        x / 2 == a || spec_is_ancestor(a, x / 2)
    }
}

proof fn lemma_level_bounds(pos: int)
    requires
        pos >= 1,
    ensures
        pow2(spec_level(pos)) <= pos < pow2(spec_level(pos) + 1),
    decreases pos,
{
    if pos > 1 {
        lemma_level_bounds(pos / 2);
        lemma_pow2_unfold(spec_level(pos));
        lemma_pow2_unfold(spec_level(pos) + 1);
    } else {
        lemma_pow2_unfold(1);
        assert(pow2(0) == 1) by {
            vstd::arithmetic::power2::lemma2_to64();
        }
    }
}

/// Positions in `[2^l, 2^(l+1))` are exactly those at depth `l`.
proof fn lemma_level_of(pos: int, l: nat)
    requires
        pow2(l) <= pos < pow2(l + 1),
    ensures
        spec_level(pos) == l,
{
    lemma_pow2_pos(l);
    lemma_level_bounds(pos);
    let k = spec_level(pos);
    if k < l {
        lemma_pow2_strictly_increases(k + 1, l + 1);
        if k + 1 < l {
            lemma_pow2_strictly_increases(k + 1, l);
        }
    } else if k > l {
        lemma_pow2_strictly_increases(l + 1, k);
        if l + 1 < k {
        }
    }
    if k < l {
        assert(pow2(k + 1) <= pow2(l)) by {
            if k + 1 < l {
                lemma_pow2_strictly_increases(k + 1, l);
            }
        }
    }
    if k > l {
        assert(pow2(l + 1) <= pow2(k)) by {
            if l + 1 < k {
                lemma_pow2_strictly_increases(l + 1, k);
            }
        }
    }
}

proof fn lemma_child_level(q: int)
    requires
        q >= 1,
    ensures
        spec_level(2 * q) == spec_level(q) + 1,
        spec_level(2 * q + 1) == spec_level(q) + 1,
{
    assert((2 * q) / 2 == q);
    assert((2 * q + 1) / 2 == q);
}

proof fn lemma_level_lt(pos: int, d: nat)
    requires
        1 <= pos < pow2(d),
    ensures
        spec_level(pos) < d,
{
    lemma_level_bounds(pos);
    let k = spec_level(pos);
    if k >= d {
        if k > d {
            lemma_pow2_strictly_increases(d, k);
        }
    }
}

/// A sparse Merkle tree of a fixed depth: only the nodes on the paths of
/// the leaves that were set are stored; every other node is the hash of an
/// all-zero subtree of its height.
pub struct SparseMerkleTree {
    depth: usize,
    leaf_base: usize,
    nodes: HashMap<usize, HashOut>,
    default_hashes: Vec<HashOut>,
}

impl SparseMerkleTree {
    pub closed spec fn spec_depth(&self) -> nat {
        self.depth as nat
    }

    /// Node `pos` (array numbering) as an array.
    pub closed spec fn node_arr(&self, pos: int) -> HashOut {
        if self.nodes@.contains_key(pos as usize) {
            self.nodes@[pos as usize]
        } else {
            self.default_hashes@[self.depth - spec_level(pos)]
        }
    }

    /// The value of node `pos` (array numbering): root 1, leaves at
    /// `2^depth .. 2^(depth+1)`.
    pub open spec fn node(&self, pos: int) -> Seq<u32> {
        self.node_arr(pos)@
    }

    /// The value of leaf `index`.
    pub open spec fn leaf(&self, index: int) -> Seq<u32> {
        self.node(pow2(self.spec_depth()) + index)
    }

    /// The root hash.
    pub open spec fn spec_root(&self) -> Seq<u32> {
        self.node(1)
    }

    /// Inner node `q` hashes its two children.
    pub open spec fn node_ok(&self, q: int) -> bool {
        self.node(q) == spec_merkle_hash(self.node(2 * q), self.node(2 * q + 1))
    }

    /// Everything in the tree's invariant but the hashing of inner nodes:
    /// the size fits the machine, the default hashes are the all-zero subtree
    /// roots and stored nodes lie inside the tree.
    pub closed spec fn shape_ok(&self) -> bool {
        &&& pow2(self.depth as nat + 1) <= usize::MAX
        &&& self.leaf_base == pow2(self.depth as nat)
        &&& 2 * self.leaf_base == pow2(self.depth as nat + 1)
        &&& self.default_hashes@.len() == self.depth + 1
        &&& self.default_hashes@[0]@ == seq![0u32, 0, 0, 0]
        &&& forall|d: int|
            1 <= d <= self.depth ==> (#[trigger] self.default_hashes@[d])@ == spec_merkle_hash(
                self.default_hashes@[d - 1]@,
                self.default_hashes@[d - 1]@,
            )
        &&& all_hash_felts(self.default_hashes@)
        &&& forall|pos: usize| #[trigger]
            self.nodes@.contains_key(pos) ==> 1 <= pos < 2 * self.leaf_base && all_felts(
                self.nodes@[pos]@,
            )
    }

    /// The tree's invariant: its shape, and every inner node hashes its
    /// children.
    pub closed spec fn wf(&self) -> bool {
        &&& self.shape_ok()
        &&& forall|q: int| 1 <= q < self.leaf_base ==> #[trigger] self.node_ok(q)
    }

    proof fn lemma_node_felts(&self, pos: int)
        requires
            self.shape_ok(),
            1 <= pos < 2 * self.leaf_base,
        ensures
            all_felts(self.node(pos)),
    {
        lemma_level_lt(pos, self.depth as nat + 1);
        if !self.nodes@.contains_key(pos as usize) {
            assert(all_felts(self.default_hashes@[self.depth - spec_level(pos)]@));
        }
    }

    /// Storing `h` at `p` changes node `p` only, and keeps every inner node
    /// that does not have `p` as a child hashing its children.
    proof fn lemma_insert_frame(before: &Self, after: &Self, p: int, h: HashOut)
        requires
            before.shape_ok(),
            1 <= p < 2 * before.leaf_base,
            all_felts(h@),
            after.depth == before.depth,
            after.leaf_base == before.leaf_base,
            after.default_hashes == before.default_hashes,
            after.nodes@ == before.nodes@.insert(p as usize, h),
        ensures
            after.shape_ok(),
            after.node(p) == h@,
            forall|x: int|
                1 <= x < 2 * before.leaf_base && x != p ==> #[trigger] after.node(x) == before.node(
                    x,
                ),
            forall|q: int|
                1 <= q < before.leaf_base && 2 * q != p && 2 * q + 1 != p && q != p
                    && before.node_ok(q) ==> #[trigger] after.node_ok(q),
    {
        assert forall|x: int| 1 <= x < 2 * before.leaf_base && x != p implies #[trigger] after.node(x)
            == before.node(x) by {
            assert((x as usize) != (p as usize));
        }
        assert forall|q: int|
            1 <= q < before.leaf_base && 2 * q != p && 2 * q + 1 != p && q != p && before.node_ok(
                q,
            ) implies #[trigger] after.node_ok(q) by {
            assert(after.node(q) == before.node(q));
            assert(after.node(2 * q) == before.node(2 * q));
            assert(after.node(2 * q + 1) == before.node(2 * q + 1));
        }
    }

    /// Storing at `idx / 2` the hash of its children moves the one place
    /// where inner nodes may be stale from the ancestors of `idx` to the
    /// ancestors of `idx / 2`.
    proof fn lemma_rehash_step(before: &Self, after: &Self, idx: int, h: HashOut)
        requires
            before.shape_ok(),
            2 <= idx < 2 * before.leaf_base,
            all_felts(h@),
            h@ == spec_merkle_hash(before.node(2 * (idx / 2)), before.node(2 * (idx / 2) + 1)),
            after.depth == before.depth,
            after.leaf_base == before.leaf_base,
            after.default_hashes == before.default_hashes,
            after.nodes@ == before.nodes@.insert((idx / 2) as usize, h),
            forall|q: int|
                1 <= q < before.leaf_base && !spec_is_ancestor(q, idx) ==> #[trigger] before.node_ok(
                    q,
                ),
        ensures
            after.shape_ok(),
            forall|q: int|
                1 <= q < after.leaf_base && !spec_is_ancestor(q, idx / 2) ==> #[trigger] after.node_ok(
                    q,
                ),
            forall|x: int|
                after.leaf_base <= x < 2 * after.leaf_base ==> #[trigger] after.node(x) == before.node(
                    x,
                ),
    {
        let parent = idx / 2;
        Self::lemma_insert_frame(before, after, parent, h);
        assert forall|q: int| 1 <= q < after.leaf_base && !spec_is_ancestor(q, parent) implies #[trigger] after.node_ok(q) by {
            if q != parent {
                assert(!spec_is_ancestor(q, idx));
                assert(before.node_ok(q));
                if 2 * q == parent || 2 * q + 1 == parent {
                    assert(parent / 2 == q);
                }
            } else {
                assert(after.node(2 * q) == before.node(2 * q));
                assert(after.node(2 * q + 1) == before.node(2 * q + 1));
            }
        }
    }

    /// An empty tree of the given depth: every leaf is zero.
    pub fn new(depth: usize) -> (t: Self)
        requires
            pow2(depth as nat + 1) <= usize::MAX,
        ensures
            t.wf(),
            t.spec_depth() == depth,
            forall|i: int| 0 <= i < pow2(depth as nat) ==> #[trigger] t.leaf(i) == seq![0u32, 0, 0, 0],
    {
        let mut base: usize = 1;
        proof {
            vstd::arithmetic::power2::lemma2_to64();
        }
        for i in 0..depth
            invariant
                base == pow2(i as nat),
                pow2(depth as nat + 1) <= usize::MAX,
        {
            proof {
                lemma_pow2_unfold(i as nat + 1);
                if i + 1 < depth + 1 {
                    lemma_pow2_strictly_increases(i as nat + 1, depth as nat + 1);
                }
            }
            base = base * 2;
        }
        proof {
            lemma_pow2_unfold(depth as nat + 1);
        }
        let mut defaults: Vec<HashOut> = Vec::new();
        defaults.push([0u32; 4]);
        assert(all_felts(defaults@[0]@));
        for d in 0..depth
            invariant
                defaults@.len() == d + 1,
                defaults@[0]@ == seq![0u32, 0, 0, 0],
                all_hash_felts(defaults@),
                forall|k: int|
                    1 <= k <= d ==> (#[trigger] defaults@[k])@ == spec_merkle_hash(
                        defaults@[k - 1]@,
                        defaults@[k - 1]@,
                    ),
        {
            let prev = defaults[d];
            let h = merkle_hash(prev, prev);
            defaults.push(h);
        }
        let t = SparseMerkleTree {
            depth,
            leaf_base: base,
            nodes: HashMap::new(),
            default_hashes: defaults,
        };
        assert forall|q: int| 1 <= q < t.leaf_base implies #[trigger] t.node_ok(q) by {
            lemma_level_lt(q, depth as nat);
            lemma_child_level(q);
        }
        assert forall|i: int| 0 <= i < pow2(depth as nat) implies #[trigger] t.leaf(i) == seq![
            0u32,
            0,
            0,
            0,
        ] by {
            lemma_level_of(pow2(depth as nat) + i, depth as nat);
        }
        t
    }

    fn get_node(&self, pos: usize, level: usize) -> (r: HashOut)
        requires
            self.shape_ok(),
            1 <= pos < 2 * self.leaf_base,
            level == spec_level(pos as int),
        ensures
            r == self.node_arr(pos as int),
            all_felts(r@),
    {
        proof {
            self.lemma_node_felts(pos as int);
            lemma_level_lt(pos as int, self.depth as nat + 1);
        }
        match self.nodes.get(&pos) {
            Some(v) => *v,
            None => self.default_hashes[self.depth - level],
        }
    }

    /// Store at `idx / 2` the hash of its two children.
    fn rehash_parent(&mut self, idx: usize, level: usize) -> (parent: usize)
        requires
            old(self).shape_ok(),
            2 <= idx < 2 * old(self).leaf_base,
            level == spec_level(idx as int),
            forall|q: int|
                1 <= q < old(self).leaf_base && !spec_is_ancestor(q, idx as int)
                    ==> #[trigger] old(self).node_ok(q),
        ensures
            parent == idx / 2,
            level >= 1,
            spec_level(parent as int) == level - 1,
            1 <= parent < old(self).leaf_base,
            final(self).shape_ok(),
            final(self).depth == old(self).depth,
            final(self).leaf_base == old(self).leaf_base,
            final(self).default_hashes == old(self).default_hashes,
            forall|q: int|
                1 <= q < final(self).leaf_base && !spec_is_ancestor(q, parent as int)
                    ==> #[trigger] final(self).node_ok(q),
            forall|x: int|
                final(self).leaf_base <= x < 2 * final(self).leaf_base ==> #[trigger] final(self).node(x)
                    == old(self).node(x),
    {
        let parent = idx / 2;
        proof {
            lemma_child_level(parent as int);
            lemma_level_bounds(idx as int);
            lemma_level_lt(idx as int, self.depth as nat + 1);
        }
        let left = self.get_node(2 * parent, level);
        let right = self.get_node(2 * parent + 1, level);
        let h = merkle_hash(left, right);
        let ghost before = *self;
        self.nodes.insert(parent, h);
        proof {
            Self::lemma_rehash_step(&before, self, idx as int, h);
        }
        parent
    }

    /// Set leaf `index` to `value` and rehash its path up to the root.
    pub fn set_leaf(&mut self, index: usize, value: HashOut)
        requires
            old(self).wf(),
            index < pow2(old(self).spec_depth()),
            all_felts(value@),
        ensures
            final(self).wf(),
            final(self).spec_depth() == old(self).spec_depth(),
            final(self).leaf(index as int) == value@,
            forall|j: int|
                0 <= j < pow2(old(self).spec_depth()) && j != index ==> #[trigger] final(self).leaf(j)
                    == old(self).leaf(j),
    {
        let ghost old_self = *self;
        let pos = self.leaf_base + index;
        proof {
            lemma_level_of(pos as int, self.depth as nat);
        }
        self.nodes.insert(pos, value);
        proof {
            Self::lemma_insert_frame(&old_self, self, pos as int, value);
            assert forall|q: int|
                1 <= q < self.leaf_base && !spec_is_ancestor(q, pos as int) implies #[trigger] self.node_ok(q) by {
                assert(old_self.node_ok(q));
                if 2 * q == pos || 2 * q + 1 == pos {
                    assert(pos as int / 2 == q);
                }
            }
        }
        let mut idx = pos;
        let mut level = self.depth;
        while idx > 1
            invariant
                self.shape_ok(),
                self.depth == old_self.depth,
                self.leaf_base == old_self.leaf_base,
                self.default_hashes == old_self.default_hashes,
                pos == self.leaf_base + index,
                pos < 2 * self.leaf_base,
                1 <= idx <= pos,
                idx == pos || idx < self.leaf_base,
                level == spec_level(idx as int),
                level <= self.depth,
                forall|q: int|
                    1 <= q < self.leaf_base && !spec_is_ancestor(q, idx as int)
                        ==> #[trigger] self.node_ok(q),
                self.node(pos as int) == value@,
                forall|x: int|
                    self.leaf_base <= x < 2 * self.leaf_base && x != pos ==> #[trigger] self.node(
                        x,
                    ) == old_self.node(x),
            decreases idx,
        {
            let ghost before = *self;
            let parent = self.rehash_parent(idx, level);
            idx = parent;
            level = level - 1;
        }
        proof {
            assert forall|q: int| 1 <= q < self.leaf_base implies #[trigger] self.node_ok(q) by {
                assert(!spec_is_ancestor(q, 1));
            }
            assert forall|j: int|
                0 <= j < pow2(old_self.spec_depth()) && j != index implies #[trigger] self.leaf(j)
                == old_self.leaf(j) by {
                assert(self.node(self.leaf_base + j) == old_self.node(self.leaf_base + j));
            }
        }
    }

    /// The root hash.
    pub fn root(&self) -> (r: HashOut)
        requires
            self.wf(),
        ensures
            r@ == self.spec_root(),
            all_felts(r@),
    {
        proof {
            lemma_pow2_pos(self.depth as nat);
        }
        self.get_node(1, 0)
    }

    /// The authentication path of leaf `leaf_index`, from the leaf level up.
    pub fn path(&self, leaf_index: usize) -> (path: Vec<(HashOut, u32)>)
        requires
            self.wf(),
            leaf_index < pow2(self.spec_depth()),
        ensures
            path@.len() == self.spec_depth(),
            path_felts(path@),
            spec_path_root(self.leaf(leaf_index as int), path@) == self.spec_root(),
    {
        proof {
            lemma_level_of(self.leaf_base + leaf_index, self.depth as nat);
        }
        let pos = self.leaf_base + leaf_index;
        let mut result: Vec<(HashOut, u32)> = Vec::new();
        let mut idx = pos;
        let mut level = self.depth;
        while idx > 1
            invariant
                self.wf(),
                pos == self.leaf_base + leaf_index,
                1 <= idx <= pos,
                pos < 2 * self.leaf_base,
                level == spec_level(idx as int),
                level <= self.depth,
                result@.len() + level == self.depth,
                path_felts(result@),
                spec_path_root(self.node(pos as int), result@) == self.node(idx as int),
            decreases idx,
        {
            let parent = idx / 2;
            proof {
                lemma_child_level(parent as int);
                lemma_level_bounds(idx as int);
                assert(parent < self.leaf_base) by {
                    lemma_level_lt(idx as int, self.depth as nat + 1);
                    if level == 0 {
                    }
                }
            }
            let sibling = if idx % 2 == 0 {
                self.get_node(idx + 1, level)
            } else {
                self.get_node(idx - 1, level)
            };
            let direction = (idx % 2) as u32;
            let ghost old_result = result@;
            result.push((sibling, direction));
            proof {
                lemma_path_root_push(self.node(pos as int), old_result, (sibling, direction));
                assert(result@ =~= old_result.push((sibling, direction)));
                assert(self.node_ok(parent as int));
                if idx % 2 == 0 {
                    assert(2 * parent == idx);
                } else {
                    assert(2 * parent + 1 == idx);
                }
            }
            idx = parent;
            level = level - 1;
        }
        result
    }
}

/// Following one more level adds one step to where a path leads.
pub proof fn lemma_path_root_push(leaf: Seq<u32>, path: Seq<(HashOut, u32)>, e: (HashOut, u32))
    ensures
        spec_path_root(leaf, path.push(e)) == spec_path_step(spec_path_root(leaf, path), e.0@, e.1),
    decreases path.len(),
{
    if path.len() > 0 {
        let next = spec_path_step(leaf, path[0].0@, path[0].1);
        let pe = path.push(e);
        assert(pe[0] == path[0]);
        assert(pe.skip(1) =~= path.skip(1).push(e));
        assert(spec_path_root(leaf, pe) == spec_path_root(next, pe.skip(1)));
        assert(spec_path_root(leaf, path) == spec_path_root(next, path.skip(1)));
        lemma_path_root_push(next, path.skip(1), e);
    } else {
        let pe = path.push(e);
        assert(pe[0] == e);
        assert(pe.skip(1) =~= Seq::<(HashOut, u32)>::empty());
        assert(spec_path_root(leaf, pe) == spec_path_root(
            spec_path_step(leaf, e.0@, e.1),
            pe.skip(1),
        ));
    }
}

/// A sparse tree and an array tree that hold the same leaves have the same
/// nodes, and so the same root.
pub proof fn lemma_sparse_matches_dense(t: &SparseMerkleTree, tree: Seq<HashOut>)
    requires
        t.wf(),
        spec_is_merkle_tree(tree, pow2(t.spec_depth()) as int),
        forall|i: int|
            0 <= i < pow2(t.spec_depth()) ==> tree[pow2(t.spec_depth()) + i]@ == #[trigger] t.leaf(i),
    ensures
        tree[1]@ == t.spec_root(),
{
    lemma_pow2_pos(t.spec_depth());
    lemma_sparse_dense_node(t, tree, 1);
}

proof fn lemma_sparse_dense_node(t: &SparseMerkleTree, tree: Seq<HashOut>, pos: int)
    requires
        t.wf(),
        spec_is_merkle_tree(tree, pow2(t.spec_depth()) as int),
        forall|i: int|
            0 <= i < pow2(t.spec_depth()) ==> tree[pow2(t.spec_depth()) + i]@ == #[trigger] t.leaf(i),
        1 <= pos < 2 * pow2(t.spec_depth()),
    ensures
        tree[pos]@ == t.node(pos),
    decreases 2 * pow2(t.spec_depth()) - pos,
{
    let n = pow2(t.spec_depth()) as int;
    if pos < n {
        lemma_sparse_dense_node(t, tree, 2 * pos);
        lemma_sparse_dense_node(t, tree, 2 * pos + 1);
        assert(t.node_ok(pos));
    } else {
        assert(t.leaf(pos - n) == t.node(pos));
    }
}

} // verus!
