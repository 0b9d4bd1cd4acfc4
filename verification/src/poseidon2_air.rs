//! The layout of Poseidon2 permutations in the STARK traces: the columns
//! each round contributes (the S-box `x^5` is split as `x^2`, `x^4` so every
//! constraint stays of degree two), and the values that fill them.

use vstd::prelude::*;

use crate::m31::{all_felts, fmul, freduce, m31_from_u32, m31_mul, P};
use crate::merkle::spec_path_step;
use crate::poseidon2::{
    external_linear_layer, internal_linear_layer, lemma_sponge_one_block, merkle_hash,
    spec_external_layer, spec_first_rounds, spec_full_round, spec_init_state, spec_last_rounds,
    spec_merkle_hash, spec_overwrite, spec_partial_round, spec_partial_rounds, spec_permute,
    spec_to_hashout, u32_array_to_hashout, HashOut, DOMAIN_MERKLE, EXTERNAL_CONSTANTS,
    INTERNAL_CONSTANTS, NUM_FULL_ROUNDS_FIRST, NUM_FULL_ROUNDS_LAST, NUM_PARTIAL_ROUNDS, RATE,
    TOTAL_ROUNDS, WIDTH,
};
use crate::types::MERKLE_DEPTH;

verus! {

/// Columns of a full round: the new state, and `x^2` and `x^4` of every
/// S-box input.
pub const FULL_ROUND_COLS: usize = 48;

/// Columns of a partial round: the new state, and `x^2` and `x^4` of the
/// one S-box input.
pub const PARTIAL_ROUND_COLS: usize = 18;

/// Number of full rounds.
pub const NUM_FULL_ROUNDS: usize = 8;

/// Columns of one permutation.
pub const HASH_INTERMEDIATE_COLS: usize = 636;

/// The column counts follow from the permutation's width and rounds.
pub proof fn lemma_column_layout()
    ensures
        FULL_ROUND_COLS == WIDTH + 2 * WIDTH,
        PARTIAL_ROUND_COLS == WIDTH + 2,
        NUM_FULL_ROUNDS == NUM_FULL_ROUNDS_FIRST + NUM_FULL_ROUNDS_LAST,
        HASH_INTERMEDIATE_COLS == NUM_FULL_ROUNDS * FULL_ROUND_COLS + NUM_PARTIAL_ROUNDS
            * PARTIAL_ROUND_COLS,
{
}

/// Round `round` is a full round (the first four and the last four).
pub open spec fn spec_is_full_round(round: int) -> bool {
    !(4 <= round < 18)
}

/// The round constants of full round `round`.
pub open spec fn spec_external_constants(round: int) -> Seq<u32> {
    if round < 4 {
        EXTERNAL_CONSTANTS[round]@
    } else {
        EXTERNAL_CONSTANTS[round - 14]@
    }
}

/// The state after the first `r` rounds of the permutation of `input`
/// (after its initial external layer).
#[verifier::opaque]
pub open spec fn spec_round_state(input: Seq<u32>, r: int) -> Seq<u32> {
    let s0 = spec_external_layer(input);
    if r <= 4 {
        spec_first_rounds(s0, r as nat)
    } else if r <= 18 {
        spec_partial_rounds(spec_first_rounds(s0, 4), (r - 4) as nat)
    } else {
        spec_last_rounds(spec_partial_rounds(spec_first_rounds(s0, 4), 14), (r - 18) as nat)
    }
}

/// The columns of a full round with constants `rc`, entered with state
/// `s`: the state after the round, then `x^2` and `x^4` of the S-box inputs.
#[verifier::opaque]
pub open spec fn spec_full_round_cols(s: Seq<u32>, rc: Seq<u32>) -> Seq<u32> {
    let t = Seq::new(16, |i: int| freduce(s[i] + rc[i]));
    spec_full_round(s, rc) + Seq::new(16, |i: int| fmul(t[i], t[i])) + Seq::new(
        16,
        |i: int| fmul(fmul(t[i], t[i]), fmul(t[i], t[i])),
    )
}

/// The columns of a partial round with constant `rc`, entered with state
/// `s`: the state after the round, then `x^2` and `x^4` of the S-box input.
#[verifier::opaque]
pub open spec fn spec_partial_round_cols(s: Seq<u32>, rc: u32) -> Seq<u32> {
    let t = freduce(s[0] + rc);
    spec_partial_round(s, rc) + seq![fmul(t, t), fmul(fmul(t, t), fmul(t, t))]
}

/// The columns of round `round`, entered with state `s`.
pub open spec fn spec_round_cols(s: Seq<u32>, round: int) -> Seq<u32> {
    if spec_is_full_round(round) {
        spec_full_round_cols(s, spec_external_constants(round))
    } else {
        spec_partial_round_cols(s, INTERNAL_CONSTANTS[round - 4])
    }
}

/// The columns of the first `r` rounds of the permutation of `input`.
pub open spec fn spec_intermediates(input: Seq<u32>, r: int) -> Seq<u32>
    decreases r,
{
    if r <= 0 {
        Seq::empty()
    } else {
        spec_intermediates(input, r - 1) + spec_round_cols(
            spec_round_state(input, r - 1),
            r - 1,
        )
    }
}

proof fn lemma_round_state_step(input: Seq<u32>, r: int)
    requires
        0 <= r < 22,
    ensures
        spec_round_state(input, 0) == spec_external_layer(input),
        spec_round_state(input, r + 1) == if spec_is_full_round(r) {
            spec_full_round(spec_round_state(input, r), spec_external_constants(r))
        } else {
            spec_partial_round(spec_round_state(input, r), INTERNAL_CONSTANTS[r - 4])
        },
{
    reveal(spec_round_state);
    let s0 = spec_external_layer(input);
    let f4 = spec_first_rounds(s0, 4);
    let p14 = spec_partial_rounds(f4, 14);
    if r < 4 {
        assert(spec_round_state(input, r + 1) == spec_first_rounds(s0, (r + 1) as nat));
        assert(spec_round_state(input, r) == spec_first_rounds(s0, r as nat));
    } else if r < 18 {
        assert(spec_round_state(input, r + 1) == spec_partial_rounds(f4, (r + 1 - 4) as nat));
        assert(spec_round_state(input, r) == spec_partial_rounds(f4, (r - 4) as nat)) by {
            if r == 4 {
                assert(spec_round_state(input, r) == f4);
            }
        }
    } else {
        assert(spec_round_state(input, r + 1) == spec_last_rounds(p14, (r + 1 - 18) as nat));
        assert(spec_round_state(input, r) == spec_last_rounds(p14, (r - 18) as nat)) by {
            if r == 18 {
                assert(spec_round_state(input, r) == p14);
            }
        }
    }
}

proof fn lemma_round_cols(s: Seq<u32>, round: int)
    ensures
        spec_round_cols(s, round).len() == if spec_is_full_round(round) {
            48int
        } else {
            18int
        },
        spec_round_cols(s, round).subrange(0, 16) == if spec_is_full_round(round) {
            spec_full_round(s, spec_external_constants(round))
        } else {
            spec_partial_round(s, INTERNAL_CONSTANTS[round - 4])
        },
{
    reveal(spec_full_round_cols);
    reveal(spec_partial_round_cols);
    if spec_is_full_round(round) {
        let rc = spec_external_constants(round);
        assert(spec_full_round_cols(s, rc).subrange(0, 16) =~= spec_full_round(s, rc));
    } else {
        let rc = INTERNAL_CONSTANTS[round - 4];
        assert(spec_partial_round_cols(s, rc).subrange(0, 16) =~= spec_partial_round(s, rc));
    }
}

proof fn lemma_intermediates_len(input: Seq<u32>, r: int)
    requires
        0 <= r <= 22,
    ensures
        spec_intermediates(input, r).len() == if r <= 4 {
            48 * r
        } else if r <= 18 {
            192 + 18 * (r - 4)
        } else {
            444 + 48 * (r - 18)
        },
    decreases r,
{
    if r > 0 {
        lemma_intermediates_len(input, r - 1);
        lemma_round_cols(spec_round_state(input, r - 1), r - 1);
    }
}

/// The state columns of the last round are the permutation's output.
pub proof fn lemma_intermediates_end_in_permutation(input: Seq<u32>)
    ensures
        spec_intermediates(input, 22).len() == HASH_INTERMEDIATE_COLS,
        spec_intermediates(input, 22).subrange(588, 604) == spec_permute(input),
{
    lemma_intermediates_len(input, 22);
    lemma_intermediates_len(input, 21);
    lemma_round_state_step(input, 21);
    let prev = spec_intermediates(input, 21);
    let last = spec_round_cols(spec_round_state(input, 21), 21);
    lemma_round_cols(spec_round_state(input, 21), 21);
    assert(spec_intermediates(input, 22).subrange(588, 604) =~= last.subrange(0, 16));
    assert(spec_round_state(input, 22) == spec_permute(input)) by {
        reveal(spec_round_state);
    }
}

/// Runs a full round with constants `rc` on `state`, appending its columns.
fn push_full_round(state: &mut [u32; 16], rc: &[u32; 16], cols: &mut Vec<u32>)
    requires
        all_felts(old(state)@),
    ensures
        final(state)@ == spec_full_round(old(state)@, rc@),
        all_felts(final(state)@),
        final(cols)@ == old(cols)@ + spec_full_round_cols(old(state)@, rc@),
{
    let ghost s = state@;
    let ghost before = cols@;
    let ghost t = Seq::new(16, |i: int| freduce(s[i] + rc@[i]));
    let mut squares: [u32; 16] = [0; 16];
    let mut fourths: [u32; 16] = [0; 16];
    for i in 0..16
        invariant
            forall|k: int| 0 <= k < i ==> state@[k] == #[trigger] crate::poseidon2::spec_sbox(t[k]),
            forall|k: int| i <= k < 16 ==> state@[k] == s[k],
            forall|k: int| 0 <= k < i ==> squares@[k] == #[trigger] fmul(t[k], t[k]),
            forall|k: int| 0 <= k < i ==> fourths@[k] == fmul(fmul(t[k], t[k]), fmul(t[k], t[k])),
            forall|k: int| 0 <= k < i ==> #[trigger] state@[k] < P,
            all_felts(s),
            s.len() == 16,
            t == Seq::new(16, |i: int| freduce(s[i] + rc@[i])),
    {
        let reduced: u64 = (state[i] as u64 + rc[i] as u64) % (P as u64);
        let after_rc: u32 = reduced as u32;
        assert(after_rc == t[i as int]);
        let sq = m31_mul(after_rc, after_rc);
        let q = m31_mul(sq, sq);
        squares[i] = sq;
        fourths[i] = q;
        state[i] = m31_mul(q, after_rc);
    }
    assert forall|k: int| 0 <= k < 16 implies state@[k] == crate::poseidon2::spec_sbox(
        freduce(s[k] + rc@[k]),
    ) by {
        assert(t[k] == freduce(s[k] + rc@[k]));
        assert(state@[k] == crate::poseidon2::spec_sbox(t[k]));
    }
    assert(state@ =~= Seq::new(16, |i: int| crate::poseidon2::spec_sbox(freduce(s[i] + rc@[i]))));
    external_linear_layer(state);
    for i in 0..16
        invariant
            cols@ == before + state@.take(i as int),
    {
        cols.push(state[i]);
        assert(cols@ =~= before + state@.take(i + 1));
    }
    let ghost mid = cols@;
    for i in 0..16
        invariant
            cols@ == mid + squares@.take(i as int),
    {
        cols.push(squares[i]);
        assert(cols@ =~= mid + squares@.take(i + 1));
    }
    let ghost mid2 = cols@;
    for i in 0..16
        invariant
            cols@ == mid2 + fourths@.take(i as int),
    {
        cols.push(fourths[i]);
        assert(cols@ =~= mid2 + fourths@.take(i + 1));
    }
    proof {
        reveal(spec_full_round_cols);
        assert(state@.take(16) =~= state@);
        assert(squares@.take(16) =~= Seq::new(16, |i: int| fmul(t[i], t[i])));
        assert(fourths@.take(16) =~= Seq::new(16, |i: int| fmul(fmul(t[i], t[i]), fmul(t[i], t[i]))));
        assert(cols@ =~= before + spec_full_round_cols(s, rc@));
    }
}

/// Runs a partial round with constant `rc` on `state`, appending its
/// columns.
fn push_partial_round(state: &mut [u32; 16], rc: u32, cols: &mut Vec<u32>)
    requires
        all_felts(old(state)@),
    ensures
        final(state)@ == spec_partial_round(old(state)@, rc),
        all_felts(final(state)@),
        final(cols)@ == old(cols)@ + spec_partial_round_cols(old(state)@, rc),
{
    let ghost s = state@;
    let ghost before = cols@;
    let reduced: u64 = (state[0] as u64 + rc as u64) % (P as u64);
    let after_rc: u32 = reduced as u32;
    assert(after_rc == freduce(s[0] + rc));
    let sq = m31_mul(after_rc, after_rc);
    let q = m31_mul(sq, sq);
    state[0] = m31_mul(q, after_rc);
    assert(state@ =~= s.update(0, crate::poseidon2::spec_sbox(freduce(s[0] + rc))));
    internal_linear_layer(state);
    for i in 0..16
        invariant
            cols@ == before + state@.take(i as int),
    {
        cols.push(state[i]);
        assert(cols@ =~= before + state@.take(i + 1));
    }
    cols.push(sq);
    cols.push(q);
    proof {
        reveal(spec_partial_round_cols);
        assert(state@.take(16) =~= state@);
        assert(cols@ =~= before + spec_partial_round_cols(s, rc));
    }
}

/// The trace columns of one Poseidon2 permutation of `input`: per round, the
/// new state and the squares and fourth powers of the S-box inputs.
pub fn gen_permutation_intermediates(input: &[u32; 16]) -> (r: Vec<u32>)
    requires
        all_felts(input@),
    ensures
        r@ == spec_intermediates(input@, 22),
        r@.len() == HASH_INTERMEDIATE_COLS,
{
    let mut cols: Vec<u32> = Vec::new();
    let mut state: [u32; 16] = *input;
    external_linear_layer(&mut state);
    proof {
        lemma_round_state_step(input@, 0);
    }
    let mut round: usize = 0;
    while round < TOTAL_ROUNDS
        invariant
            0 <= round <= 22,
            state@ == spec_round_state(input@, round as int),
            all_felts(state@),
            cols@ == spec_intermediates(input@, round as int),
        decreases 22 - round,
    {
        proof {
            lemma_round_state_step(input@, round as int);
        }
        if round < NUM_FULL_ROUNDS_FIRST || round >= NUM_FULL_ROUNDS_FIRST + NUM_PARTIAL_ROUNDS {
            let rc: &[u32; 16] = if round < NUM_FULL_ROUNDS_FIRST {
                &EXTERNAL_CONSTANTS[round]
            } else {
                &EXTERNAL_CONSTANTS[round - NUM_PARTIAL_ROUNDS]
            };
            assert(rc@ == spec_external_constants(round as int));
            push_full_round(&mut state, rc, &mut cols);
        } else {
            push_partial_round(&mut state, INTERNAL_CONSTANTS[round - NUM_FULL_ROUNDS_FIRST], &mut cols);
        }
        round = round + 1;
    }
    proof {
        lemma_intermediates_len(input@, 22);
    }
    cols
}

/// The input state of a sponge call over at most eight elements: the
/// elements, zeros, and the domain tag in the first capacity entry.
pub open spec fn spec_hash_input(elems: Seq<u32>, domain: u32) -> Seq<u32> {
    Seq::new(
        16,
        |i: int|
            if i < elems.len() {
                elems[i]
            } else if i == RATE {
                freduce(domain as int)
            } else {
                0
            },
    )
}

/// The trace columns of hashing two elements under `domain`.
pub fn gen_hash2_intermediates(a: u32, b: u32, domain: u32) -> (r: Vec<u32>)
    requires
        a < P,
        b < P,
    ensures
        r@ == spec_intermediates(spec_hash_input(seq![a, b], domain), 22),
{
    let mut input: [u32; 16] = [0; 16];
    input[0] = a;
    input[1] = b;
    input[RATE] = m31_from_u32(domain);
    assert(input@ =~= spec_hash_input(seq![a, b], domain));
    gen_permutation_intermediates(&input)
}

/// The trace columns of hashing four elements under `domain`.
pub fn gen_hash_many_4_intermediates(i0: u32, i1: u32, i2: u32, i3: u32, domain: u32) -> (r: Vec<
    u32,
>)
    requires
        i0 < P,
        i1 < P,
        i2 < P,
        i3 < P,
    ensures
        r@ == spec_intermediates(spec_hash_input(seq![i0, i1, i2, i3], domain), 22),
{
    let mut input: [u32; 16] = [0; 16];
    input[0] = i0;
    input[1] = i1;
    input[2] = i2;
    input[3] = i3;
    input[RATE] = m31_from_u32(domain);
    assert(input@ =~= spec_hash_input(seq![i0, i1, i2, i3], domain));
    gen_permutation_intermediates(&input)
}

/// The trace columns of hashing seven elements under `domain`.
pub fn gen_hash_many_7_intermediates(
    i0: u32,
    i1: u32,
    i2: u32,
    i3: u32,
    i4: u32,
    i5: u32,
    i6: u32,
    domain: u32,
) -> (r: Vec<u32>)
    requires
        i0 < P,
        i1 < P,
        i2 < P,
        i3 < P,
        i4 < P,
        i5 < P,
        i6 < P,
    ensures
        r@ == spec_intermediates(spec_hash_input(seq![i0, i1, i2, i3, i4, i5, i6], domain), 22),
{
    let mut input: [u32; 16] = [0; 16];
    input[0] = i0;
    input[1] = i1;
    input[2] = i2;
    input[3] = i3;
    input[4] = i4;
    input[5] = i5;
    input[6] = i6;
    input[RATE] = m31_from_u32(domain);
    assert(input@ =~= spec_hash_input(seq![i0, i1, i2, i3, i4, i5, i6], domain));
    gen_permutation_intermediates(&input)
}

/// The trace columns of hashing two hash outputs (one full rate block)
/// under `domain`.
pub fn gen_hash_pair_intermediates(left: HashOut, right: HashOut, domain: u32) -> (r: Vec<u32>)
    requires
        all_felts(left@),
        all_felts(right@),
    ensures
        r@ == spec_intermediates(spec_hash_input(left@ + right@, domain), 22),
{
    let mut input: [u32; 16] = [0; 16];
    for i in 0..4
        invariant
            forall|k: int| 0 <= k < i ==> input@[k] == left@[k] && input@[k + 4] == right@[k],
            forall|k: int| 8 <= k < 16 ==> input@[k] == 0,
    {
        input[i] = left[i];
        input[i + 4] = right[i];
    }
    input[RATE] = m31_from_u32(domain);
    assert(input@ =~= spec_hash_input(left@ + right@, domain));
    gen_permutation_intermediates(&input)
}

/// The hash input of at most one block is the sponge's initial state
/// overwritten with the elements.
pub proof fn lemma_hash_input_is_one_block(elems: Seq<u32>, domain: u32)
    requires
        elems.len() <= RATE,
    ensures
        spec_hash_input(elems, domain) == spec_overwrite(spec_init_state(domain), elems),
{
    assert(spec_hash_input(elems, domain) =~= spec_overwrite(spec_init_state(domain), elems));
}

/// Columns of one Merkle level: the sibling, the direction, the left child,
/// and the intermediates of hashing the two children.
pub const MERKLE_LEVEL_COLS: usize = 645;

/// The children of a level, in order: the current node is the left child
/// when `direction == 0`.
pub open spec fn spec_children(current: Seq<u32>, sibling: Seq<u32>, direction: u32) -> (Seq<u32>, Seq<u32>) {
    if direction == 0 {
        (current, sibling)
    } else {
        (sibling, current)
    }
}

/// The columns of one level entered at node `current`.
pub open spec fn spec_level_cols(current: Seq<u32>, sibling_words: [u32; 4], direction: u32) -> Seq<u32> {
    let sibling = spec_to_hashout(sibling_words@);
    let (left, right) = spec_children(current, sibling, direction);
    sibling + seq![freduce(direction as int)] + left + spec_intermediates(
        spec_hash_input(left + right, DOMAIN_MERKLE),
        22,
    )
}

/// The columns of a Merkle path from `current`, level by level, each level
/// entered at the node the previous one hashed to.
pub open spec fn spec_merkle_trace(current: Seq<u32>, path: Seq<([u32; 4], u32)>) -> Seq<u32>
    decreases path.len(),
{
    if path.len() == 0 {
        Seq::empty()
    } else {
        spec_level_cols(current, path[0].0, path[0].1) + spec_merkle_trace(
            spec_path_step(current, spec_to_hashout(path[0].0@), path[0].1),
            path.skip(1),
        )
    }
}

/// A level's columns hold the parent node: the first state entries of the
/// last round of its hash.
pub proof fn lemma_level_cols_hold_parent(current: Seq<u32>, sibling_words: [u32; 4], direction: u32)
    requires
        current.len() == 4,
    ensures
        spec_level_cols(current, sibling_words, direction).len() == MERKLE_LEVEL_COLS,
        spec_level_cols(current, sibling_words, direction).subrange(597, 601) == spec_path_step(
            current,
            spec_to_hashout(sibling_words@),
            direction,
        ),
{
    let sibling = spec_to_hashout(sibling_words@);
    let (left, right) = spec_children(current, sibling, direction);
    let input = spec_hash_input(left + right, DOMAIN_MERKLE);
    lemma_intermediates_end_in_permutation(input);
    lemma_hash_input_is_one_block(left + right, DOMAIN_MERKLE);
    lemma_sponge_one_block(left + right, DOMAIN_MERKLE);
    let cols = spec_level_cols(current, sibling_words, direction);
    assert(cols.subrange(597, 601) =~= spec_intermediates(input, 22).subrange(588, 604).take(4));
}

/// The trace columns of a Merkle path from `leaf`: per level, the sibling,
/// the direction, the left child and the hash intermediates.
pub fn gen_merkle_path_trace(leaf: HashOut, path: &[([u32; 4], u32); MERKLE_DEPTH]) -> (r: Vec<u32>)
    requires
        all_felts(leaf@),
    ensures
        r@ == spec_merkle_trace(leaf@, path@),
{
    let mut result: Vec<u32> = Vec::new();
    let mut current: HashOut = leaf;
    let mut level: usize = 0;
    assert(path@.skip(0) =~= path@);
    assert(result@ + spec_merkle_trace(current@, path@) =~= spec_merkle_trace(current@, path@));
    while level < MERKLE_DEPTH
        invariant
            0 <= level <= MERKLE_DEPTH,
            all_felts(current@),
            result@ + spec_merkle_trace(current@, path@.skip(level as int)) == spec_merkle_trace(
                leaf@,
                path@,
            ),
        decreases MERKLE_DEPTH - level,
    {
        let (sibling_words, direction) = path[level];
        let sibling = u32_array_to_hashout(sibling_words);
        let (left, right) = if direction == 0 {
            (current, sibling)
        } else {
            (sibling, current)
        };
        let ghost before = result@;
        let ghost rest = path@.skip(level as int);
        assert(rest[0] == path@[level as int]);
        assert(rest.skip(1) =~= path@.skip(level + 1));
        for j in 0..4
            invariant
                result@ == before + sibling@.take(j as int),
        {
            result.push(sibling[j]);
            assert(result@ =~= before + sibling@.take(j + 1));
        }
        result.push(m31_from_u32(direction));
        let ghost mid = result@;
        for j in 0..4
            invariant
                result@ == mid + left@.take(j as int),
        {
            result.push(left[j]);
            assert(result@ =~= mid + left@.take(j + 1));
        }
        let hash_cols = gen_hash_pair_intermediates(left, right, DOMAIN_MERKLE);
        let ghost mid2 = result@;
        let n = hash_cols.len();
        for j in 0..n
            invariant
                n == hash_cols@.len(),
                result@ == mid2 + hash_cols@.take(j as int),
        {
            result.push(hash_cols[j]);
            assert(result@ =~= mid2 + hash_cols@.take(j + 1));
        }
        let next = merkle_hash(left, right);
        proof {
            assert(sibling@.take(4) =~= sibling@);
            assert(left@.take(4) =~= left@);
            assert(hash_cols@.take(n as int) =~= hash_cols@);
            assert(left@ + right@ == spec_children(current@, sibling@, direction).0 + spec_children(
                current@,
                sibling@,
                direction,
            ).1);
            assert(result@ =~= before + spec_level_cols(current@, sibling_words, direction));
            assert(next@ == spec_path_step(current@, sibling@, direction));
        }
        current = next;
        level = level + 1;
    }
    proof {
        assert(path@.skip(20) =~= Seq::<([u32; 4], u32)>::empty());
        assert(result@ + Seq::<u32>::empty() =~= result@);
    }
    result
}

} // verus!
