//! The Poseidon2 permutation over M31 (width 16, x^5 S-box, 4 + 14 + 4 rounds)
//! and the hashes, commitments and Merkle trees built on it.

use vstd::prelude::*;

use crate::m31::{all_felts, fmul, freduce, m31_from_u32, m31_mul, P};
use crate::types::{amount_to_limbs, spec_amount_limbs};

verus! {

pub const WIDTH: usize = 16;
pub const RATE: usize = 8;
pub const NUM_FULL_ROUNDS_FIRST: usize = 4;
pub const NUM_PARTIAL_ROUNDS: usize = 14;
pub const NUM_FULL_ROUNDS_LAST: usize = 4;
pub const TOTAL_ROUNDS: usize = 22;

pub const DOMAIN_OWNER: u32 = 1;
pub const DOMAIN_NULLIFIER: u32 = 2;
pub const DOMAIN_NOTE_CM: u32 = 3;
pub const DOMAIN_CRED_CM: u32 = 4;
pub const DOMAIN_MERKLE: u32 = 5;
pub const DOMAIN_CRED_NULL: u32 = 6;
pub const DOMAIN_ISSUER_ID: u32 = 7;
pub const DOMAIN_TX_BINDING: u32 = 8;
pub const DOMAIN_SENDER_BINDING: u32 = 9;

/// Round constants (Grain LFSR, as in Plonky3): eight rows for the full rounds,
/// one per partial round.
pub const EXTERNAL_CONSTANTS: [[u32; 16]; 8] = [
    [
        0x768bab52, 0x70e0ab7d, 0x3d266c8a, 0x6da42045, 0x600fef22, 0x41dace6b, 0x64f9bdd4,
        0x5d42d4fe, 0x76b1516d, 0x6fc9a717, 0x70ac4fb6, 0x00194ef6, 0x22b644e2, 0x1f7916d5,
        0x47581be2, 0x2710a123,
    ],
    [
        0x6284e867, 0x018d3afe, 0x5df99ef3, 0x4c1e467b, 0x566f6abc, 0x2994e427, 0x538a6d42,
        0x5d7bf2cf, 0x7fda2dab, 0x0fd854c4, 0x46922fca, 0x3d7763a1, 0x19fd05ca, 0x0a4bbb43,
        0x15075851, 0x3d903d76,
    ],
    [
        0x2d290ff7, 0x40809fa0, 0x59dac6ec, 0x127927a2, 0x6bbf0ea0, 0x0294140f, 0x24742976,
        0x6e84c081, 0x22484f4a, 0x354cae59, 0x0453ffe1, 0x3f47a3cc, 0x0088204e, 0x6066e109,
        0x3b7c4b80, 0x6b55665d,
    ],
    [
        0x3bc4b897, 0x735bf378, 0x508daf42, 0x1884fc2b, 0x7214f24c, 0x7498be0a, 0x1a60e640,
        0x3303f928, 0x29b46376, 0x5c96bb68, 0x65d097a5, 0x1d358e9f, 0x4a9a9017, 0x4724cf76,
        0x347af70f, 0x1e77e59a,
    ],
    [
        0x57090613, 0x1fa42108, 0x17bbef50, 0x1ff7e11c, 0x047b24ca, 0x4e140275, 0x4fa086f5,
        0x079b309c, 0x1159bd47, 0x6d37e4e5, 0x075d8dce, 0x12121ca0, 0x7f6a7c40, 0x68e182ba,
        0x5493201b, 0x0444a80e,
    ],
    [
        0x0064f4c6, 0x6467abe6, 0x66975762, 0x2af68f9b, 0x345b33be, 0x1b70d47f, 0x053db717,
        0x381189cb, 0x43b915f8, 0x20df3694, 0x0f459d26, 0x77a0e97b, 0x2f73e739, 0x1876c2f9,
        0x65a0e29a, 0x4cabefbe,
    ],
    [
        0x5abd1268, 0x4d34a760, 0x12771799, 0x69a0c9ac, 0x39091e55, 0x7f611cd0, 0x3af055da,
        0x7ac0bbdf, 0x6e0f3a24, 0x41e3b6f7, 0x49b3756d, 0x568bc538, 0x20c079d8, 0x1701c72c,
        0x7670dc6c, 0x5a439035,
    ],
    [
        0x7c93e00e, 0x561fbb4d, 0x1178907b, 0x02737406, 0x32fb24f1, 0x6323b60a, 0x6ab12418,
        0x42c99cea, 0x155a0b97, 0x53d1c6aa, 0x2bd20347, 0x279b3d73, 0x4f5f3c70, 0x0245af6c,
        0x238359d3, 0x49966a59,
    ],
];

pub const INTERNAL_CONSTANTS: [u32; 14] = [
    0x7f7ec4bf, 0x0421926f, 0x5198e669, 0x34db3148, 0x4368bafd, 0x66685c7f, 0x78d3249a, 0x60187881,
    0x76dad67a, 0x0690b437, 0x1ea95311, 0x40e5369a, 0x38f103fc, 0x1d226a21,
];

/// The internal diagonal minus one: `V` with `M_I = 1 + diag(V)`.
pub const INTERNAL_DIAG_M1: [i64; 16] =
    [-2, 1, 2, 4, 8, 16, 32, 64, 128, 256, 1024, 4096, 8192, 16384, 32768, 65536];

/// The circulant 4x4 block `circ(2, 3, 1, 1)` of the external layer.
pub const M4: [[u32; 4]; 4] = [[2, 3, 1, 1], [1, 2, 3, 1], [1, 1, 2, 3], [3, 1, 1, 2]];

/// `x^5` in the field.
pub open spec fn spec_sbox(x: u32) -> u32 {
    fmul(fmul(fmul(x, x), fmul(x, x)), x)
}

/// Row `row` of `circ(2, 3, 1, 1)` applied to `(a, b, c, d)`.
pub open spec fn spec_m4_row(a: u32, b: u32, c: u32, d: u32, row: int) -> u32 {
    if row == 0 {
        freduce(2 * a + 3 * b + c + d)
    } else if row == 1 {
        freduce(a + 2 * b + 3 * c + d)
    } else if row == 2 {
        freduce(a + b + 2 * c + 3 * d)
    } else {
        freduce(3 * a + b + c + 2 * d)
    }
}

/// Output `row` of the block `M4` on chunk `c` of the state.
pub open spec fn spec_chunk(s: Seq<u32>, c: int, row: int) -> u32 {
    spec_m4_row(s[4 * c], s[4 * c + 1], s[4 * c + 2], s[4 * c + 3], row)
}

/// Sum of column `j` over the four transformed chunks.
pub open spec fn spec_col_sum(s: Seq<u32>, j: int) -> u32 {
    freduce(spec_chunk(s, 0, j) + spec_chunk(s, 1, j) + spec_chunk(s, 2, j) + spec_chunk(s, 3, j))
}

/// The external linear layer: `M4` on each chunk, then add the column sums.
pub open spec fn spec_external_layer(s: Seq<u32>) -> Seq<u32> {
    Seq::new(16, |k: int| freduce(spec_chunk(s, k / 4, k % 4) + spec_col_sum(s, k % 4)))
}

/// Sum of the first `n` entries.
pub open spec fn seq_sum(s: Seq<u32>, n: int) -> int
    decreases n,
{
    if n <= 0 {
        0
    } else {
        seq_sum(s, n - 1) + s[n - 1]
    }
}

/// `V[i] * x` in the field, for the internal diagonal `V`.
pub open spec fn spec_diag_term(i: int, x: u32) -> u32 {
    let v = INTERNAL_DIAG_M1[i];
    if v < 0 {
        freduce(P - (x * (-v)) % (P as int))
    } else {
        freduce(x * v)
    }
}

/// The internal linear layer: each entry becomes `sum(state) + V[i] * state[i]`.
pub open spec fn spec_internal_layer(s: Seq<u32>) -> Seq<u32> {
    Seq::new(16, |i: int| freduce(freduce(seq_sum(s, 16)) + spec_diag_term(i, s[i])))
}

/// A full round: add the round constants, S-box on every entry, external layer.
pub open spec fn spec_full_round(s: Seq<u32>, rc: Seq<u32>) -> Seq<u32> {
    spec_external_layer(Seq::new(16, |i: int| spec_sbox(freduce(s[i] + rc[i]))))
}

/// A partial round: add the constant and apply the S-box to entry 0 only,
/// then the internal layer.
pub open spec fn spec_partial_round(s: Seq<u32>, rc: u32) -> Seq<u32> {
    spec_internal_layer(s.update(0, spec_sbox(freduce(s[0] + rc))))
}

pub open spec fn spec_first_rounds(s: Seq<u32>, n: nat) -> Seq<u32>
    decreases n,
{
    if n == 0 {
        s
    } else {
        spec_full_round(spec_first_rounds(s, (n - 1) as nat), EXTERNAL_CONSTANTS[n - 1]@)
    }
}

pub open spec fn spec_partial_rounds(s: Seq<u32>, n: nat) -> Seq<u32>
    decreases n,
{
    if n == 0 {
        s
    } else {
        spec_partial_round(spec_partial_rounds(s, (n - 1) as nat), INTERNAL_CONSTANTS[n - 1])
    }
}

pub open spec fn spec_last_rounds(s: Seq<u32>, n: nat) -> Seq<u32>
    decreases n,
{
    if n == 0 {
        s
    } else {
        spec_full_round(spec_last_rounds(s, (n - 1) as nat), EXTERNAL_CONSTANTS[4 + n - 1]@)
    }
}

/// The Poseidon2 permutation: initial external layer, four full rounds,
/// fourteen partial rounds, four full rounds.
pub open spec fn spec_permute(s: Seq<u32>) -> Seq<u32> {
    spec_last_rounds(spec_partial_rounds(spec_first_rounds(spec_external_layer(s), 4), 14), 4)
}

/// `x^5` in the field.
pub fn sbox(x: u32) -> (r: u32)
    requires
        x < P,
    ensures
        r == spec_sbox(x),
        r < P,
{
    let x2 = m31_mul(x, x);
    let x4 = m31_mul(x2, x2);
    m31_mul(x4, x)
}

/// `circ(2, 3, 1, 1)` applied to one chunk of four entries.
pub fn apply_m4(chunk: &mut [u32; 4])
    requires
        all_felts(old(chunk)@),
    ensures
        forall|row: int|
            0 <= row < 4 ==> final(chunk)@[row] == #[trigger] spec_m4_row(
                old(chunk)@[0],
                old(chunk)@[1],
                old(chunk)@[2],
                old(chunk)@[3],
                row,
            ),
        all_felts(final(chunk)@),
{
    let a: u64 = chunk[0] as u64;
    let b: u64 = chunk[1] as u64;
    let c: u64 = chunk[2] as u64;
    let d: u64 = chunk[3] as u64;
    let p: u64 = P as u64;
    chunk[0] = ((2 * a + 3 * b + c + d) % p) as u32;
    chunk[1] = ((a + 2 * b + 3 * c + d) % p) as u32;
    chunk[2] = ((a + b + 2 * c + 3 * d) % p) as u32;
    chunk[3] = ((3 * a + b + c + 2 * d) % p) as u32;
}

fn m4_of(s: &[u32; 16], c: usize) -> (r: [u32; 4])
    requires
        c < 4,
        all_felts(s@),
    ensures
        forall|row: int| 0 <= row < 4 ==> r@[row] == #[trigger] spec_chunk(s@, c as int, row),
        all_felts(r@),
{
    let mut chunk: [u32; 4] = [s[4 * c], s[4 * c + 1], s[4 * c + 2], s[4 * c + 3]];
    apply_m4(&mut chunk);
    chunk
}

fn add_reduce(a: u32, b: u32) -> (r: u32)
    ensures
        r == freduce(a + b),
        r < P,
{
    ((a as u64 + b as u64) % (P as u64)) as u32
}

fn col_reduce(a: u32, b: u32, c: u32, d: u32) -> (r: u32)
    ensures
        r == freduce(a + b + c + d),
        r < P,
{
    ((a as u64 + b as u64 + c as u64 + d as u64) % (P as u64)) as u32
}

/// The external linear layer, in place.
pub fn external_linear_layer(state: &mut [u32; 16])
    requires
        all_felts(old(state)@),
    ensures
        final(state)@ == spec_external_layer(old(state)@),
        all_felts(final(state)@),
{
    let ghost s = state@;
    let c0 = m4_of(state, 0);
    let c1 = m4_of(state, 1);
    let c2 = m4_of(state, 2);
    let c3 = m4_of(state, 3);
    let col0 = col_reduce(c0[0], c1[0], c2[0], c3[0]);
    let col1 = col_reduce(c0[1], c1[1], c2[1], c3[1]);
    let col2 = col_reduce(c0[2], c1[2], c2[2], c3[2]);
    let col3 = col_reduce(c0[3], c1[3], c2[3], c3[3]);
    assert(col0 == spec_col_sum(s, 0));
    assert(col1 == spec_col_sum(s, 1));
    assert(col2 == spec_col_sum(s, 2));
    assert(col3 == spec_col_sum(s, 3));
    let chunks: [[u32; 4]; 4] = [c0, c1, c2, c3];
    let cols: [u32; 4] = [col0, col1, col2, col3];
    assert forall|c: int, row: int| 0 <= c < 4 && 0 <= row < 4 implies chunks@[c]@[row]
        == #[trigger] spec_chunk(s, c, row) by {
        if c == 0 {
        } else if c == 1 {
        } else if c == 2 {
        } else {
        }
    }
    assert forall|j: int| 0 <= j < 4 implies cols@[j] == #[trigger] spec_col_sum(s, j) by {
        if j == 0 {
        } else if j == 1 {
        } else if j == 2 {
        } else {
        }
    }
    for k in 0..16
        invariant
            forall|kk: int| 0 <= kk < k ==> state@[kk] == #[trigger] spec_external_layer(s)[kk],
            forall|j: int| 0 <= j < 4 ==> cols@[j] == #[trigger] spec_col_sum(s, j),
            forall|c: int, row: int|
                0 <= c < 4 && 0 <= row < 4 ==> chunks@[c]@[row] == #[trigger] spec_chunk(s, c, row),
    {
        let v = add_reduce(chunks[k / 4][k % 4], cols[k % 4]);
        assert(v == spec_external_layer(s)[k as int]);
        state[k] = v;
    }
    assert(state@ =~= spec_external_layer(s));
}

proof fn lemma_diag_bounds()
    ensures
        forall|i: int| 0 <= i < 16 ==> -2 <= #[trigger] INTERNAL_DIAG_M1[i] <= 65536,
        INTERNAL_DIAG_M1[0] == -2,
        forall|i: int| 1 <= i < 16 ==> 0 < #[trigger] INTERNAL_DIAG_M1[i],
{
    assert(INTERNAL_DIAG_M1[0] == -2);
    assert(INTERNAL_DIAG_M1[1] == 1);
    assert(INTERNAL_DIAG_M1[2] == 2);
    assert(INTERNAL_DIAG_M1[3] == 4);
    assert(INTERNAL_DIAG_M1[4] == 8);
    assert(INTERNAL_DIAG_M1[5] == 16);
    assert(INTERNAL_DIAG_M1[6] == 32);
    assert(INTERNAL_DIAG_M1[7] == 64);
    assert(INTERNAL_DIAG_M1[8] == 128);
    assert(INTERNAL_DIAG_M1[9] == 256);
    assert(INTERNAL_DIAG_M1[10] == 1024);
    assert(INTERNAL_DIAG_M1[11] == 4096);
    assert(INTERNAL_DIAG_M1[12] == 8192);
    assert(INTERNAL_DIAG_M1[13] == 16384);
    assert(INTERNAL_DIAG_M1[14] == 32768);
    assert(INTERNAL_DIAG_M1[15] == 65536);
}

/// The internal linear layer, in place.
pub fn internal_linear_layer(state: &mut [u32; 16])
    requires
        all_felts(old(state)@),
    ensures
        final(state)@ == spec_internal_layer(old(state)@),
        all_felts(final(state)@),
{
    let ghost s = state@;
    let p: u64 = P as u64;
    let mut total: u64 = 0;
    proof {
        lemma_diag_bounds();
    }
    for i in 0..16
        invariant
            total == seq_sum(s, i as int),
            total <= i * (P as int),
            state@ == s,
            all_felts(s),
    {
        total = total + state[i] as u64;
    }
    let sum: u64 = total % p;
    for i in 0..16
        invariant
            forall|k: int| 0 <= k < i ==> state@[k] == #[trigger] spec_internal_layer(s)[k],
            forall|k: int| i <= k < 16 ==> state@[k] == s[k],
            sum == freduce(seq_sum(s, 16)),
            all_felts(s),
            p == P,
            forall|i: int| 0 <= i < 16 ==> -2 <= #[trigger] INTERNAL_DIAG_M1[i] <= 65536,
    {
        let v: i64 = INTERNAL_DIAG_M1[i];
        let x: u64 = state[i] as u64;
        let term: u64 = if v < 0 {
            let abs_v: u64 = (-v) as u64;
            assert(x * abs_v <= 4294967296 * 65536) by (nonlinear_arith)
                requires
                    x < 4294967296,
                    abs_v <= 65536,
            ;
            let product: u64 = (x * abs_v) % p;
            (p - product) % p
        } else {
            assert(x * (v as u64) <= 4294967296 * 65536) by (nonlinear_arith)
                requires
                    x < 4294967296,
                    v <= 65536,
                    v >= 0,
            ;
            (x * (v as u64)) % p
        };
        state[i] = ((sum + term) % p) as u32;
    }
    assert(state@ =~= spec_internal_layer(s));
}

/// The Poseidon2 permutation, in place.
pub fn permute_state(state: &mut [u32; 16])
    requires
        all_felts(old(state)@),
    ensures
        final(state)@ == spec_permute(old(state)@),
        all_felts(final(state)@),
{
    let ghost s0 = state@;
    external_linear_layer(state);
    let ghost s1 = state@;
    for r in 0..4
        invariant
            state@ == spec_first_rounds(s1, r as nat),
            all_felts(state@),
    {
        full_round(state, &EXTERNAL_CONSTANTS[r]);
    }
    let ghost s2 = state@;
    for r in 0..14
        invariant
            state@ == spec_partial_rounds(s2, r as nat),
            all_felts(state@),
    {
        let ghost before = state@;
        let t: u64 = (state[0] as u64 + INTERNAL_CONSTANTS[r] as u64) % (P as u64);
        state[0] = sbox(t as u32);
        internal_linear_layer(state);
        assert(state@ == spec_partial_round(before, INTERNAL_CONSTANTS[r as int]));
    }
    let ghost s3 = state@;
    for r in 0..4
        invariant
            state@ == spec_last_rounds(s3, r as nat),
            all_felts(state@),
    {
        full_round(state, &EXTERNAL_CONSTANTS[4 + r]);
    }
}

fn full_round(state: &mut [u32; 16], rc: &[u32; 16])
    requires
        all_felts(old(state)@),
    ensures
        final(state)@ == spec_full_round(old(state)@, rc@),
        all_felts(final(state)@),
{
    let ghost s = state@;
    for i in 0..16
        invariant
            forall|k: int| 0 <= k < i ==> state@[k] == spec_sbox(freduce(s[k] + rc@[k])),
            forall|k: int| i <= k < 16 ==> state@[k] == s[k],
            all_felts(state@),
    {
        let t: u64 = (state[i] as u64 + rc[i] as u64) % (P as u64);
        state[i] = sbox(t as u32);
    }
    assert(state@ =~= Seq::new(16, |k: int| spec_sbox(freduce(s[k] + rc@[k]))));
    external_linear_layer(state);
}

/// A hash output: four field elements.
pub type HashOut = [u32; 4];

/// The sponge's starting state: zeros, with the domain tag in the first
/// capacity entry.
pub open spec fn spec_init_state(domain: u32) -> Seq<u32> {
    Seq::new(16, |i: int| if i == RATE { freduce(domain as int) } else { 0 })
}

/// The state with its first `block.len()` entries replaced by `block`.
pub open spec fn spec_overwrite(s: Seq<u32>, block: Seq<u32>) -> Seq<u32> {
    Seq::new(16, |i: int| if i < block.len() { block[i] } else { s[i] })
}

/// Absorb `inputs` eight at a time (overwrite mode), permuting after each
/// block; an empty input still takes one permutation.
pub open spec fn spec_absorb(s: Seq<u32>, inputs: Seq<u32>) -> Seq<u32>
    decreases inputs.len(),
{
    if inputs.len() <= RATE {
        spec_permute(spec_overwrite(s, inputs))
    } else {
        spec_absorb(spec_permute(spec_overwrite(s, inputs.take(8))), inputs.skip(8))
    }
}

/// The domain-separated sponge hash: the first four entries of the state
/// after absorbing `inputs`.
pub closed spec fn spec_sponge(inputs: Seq<u32>, domain: u32) -> Seq<u32> {
    spec_absorb(spec_init_state(domain), inputs).take(4)
}

pub open spec fn spec_merkle_hash(left: Seq<u32>, right: Seq<u32>) -> Seq<u32> {
    spec_sponge(left + right, DOMAIN_MERKLE)
}

/// Domain-separated sponge hash of field elements.
#[verifier::rlimit(40)]
pub fn sponge_hash(inputs: &[u32], domain: u32) -> (r: HashOut)
    requires
        all_felts(inputs@),
    ensures
        r@ == spec_sponge(inputs@, domain),
        all_felts(r@),
{
    let mut state: [u32; 16] = [0; 16];
    state[RATE] = m31_from_u32(domain);
    let ghost init = state@;
    assert(init =~= spec_init_state(domain));
    let len = inputs.len();
    let mut pos: usize = 0;
    assert(inputs@.skip(0) =~= inputs@);
    loop
        invariant_except_break
            pos <= len,
            pos < len || pos == 0,
            spec_absorb(state@, inputs@.skip(pos as int)) == spec_absorb(init, inputs@),
        invariant
            len == inputs@.len(),
            all_felts(inputs@),
            all_felts(state@),
        ensures
            state@ == spec_absorb(init, inputs@),
        decreases len - pos,
    {
        let ghost prev = state@;
        let ghost rem = inputs@.skip(pos as int);
        let rest = len - pos;
        let n: usize = if rest < RATE { rest } else { RATE };
        for i in 0..n
            invariant
                n <= rest,
                rest == len - pos,
                pos <= len,
                len == inputs@.len(),
                rem == inputs@.skip(pos as int),
                n <= 8,
                all_felts(inputs@),
                all_felts(state@),
                forall|k: int| 0 <= k < i ==> state@[k] == rem[k],
                forall|k: int| i <= k < 16 ==> state@[k] == prev[k],
        {
            state[i] = inputs[pos + i];
        }
        assert(state@ =~= spec_overwrite(prev, rem.take(n as int)));
        permute_state(&mut state);
        if rest <= RATE {
            assert(rem.take(n as int) =~= rem);
            break;
        }
        assert(rem.skip(8) =~= inputs@.skip(pos + 8));
        pos = pos + RATE;
    }
    let r: HashOut = [state[0], state[1], state[2], state[3]];
    assert(r@ =~= spec_absorb(init, inputs@).take(4));
    r
}

/// Hash of two field elements under a domain tag.
pub fn domain_hash2(a: u32, b: u32, domain: u32) -> (r: HashOut)
    requires
        a < P,
        b < P,
    ensures
        r@ == spec_sponge(seq![a, b], domain),
        all_felts(r@),
{
    let v: [u32; 2] = [a, b];
    assert(v@ =~= seq![a, b]);
    sponge_hash(&v, domain)
}

/// Hash of four field elements under a domain tag.
pub fn domain_hash4(a: u32, b: u32, c: u32, d: u32, domain: u32) -> (r: HashOut)
    requires
        a < P,
        b < P,
        c < P,
        d < P,
    ensures
        r@ == spec_sponge(seq![a, b, c, d], domain),
        all_felts(r@),
{
    let v: [u32; 4] = [a, b, c, d];
    assert(v@ =~= seq![a, b, c, d]);
    sponge_hash(&v, domain)
}

/// Hash of seven field elements under a domain tag.
pub fn domain_hash7(
    a: u32,
    b: u32,
    c: u32,
    d: u32,
    e: u32,
    f: u32,
    g: u32,
    domain: u32,
) -> (r: HashOut)
    requires
        a < P,
        b < P,
        c < P,
        d < P,
        e < P,
        f < P,
        g < P,
    ensures
        r@ == spec_sponge(seq![a, b, c, d, e, f, g], domain),
        all_felts(r@),
{
    let v: [u32; 7] = [a, b, c, d, e, f, g];
    assert(v@ =~= seq![a, b, c, d, e, f, g]);
    sponge_hash(&v, domain)
}

/// Hash of two hash outputs (one full rate block) under a domain tag.
pub fn hash_pair(left: HashOut, right: HashOut, domain: u32) -> (r: HashOut)
    requires
        all_felts(left@),
        all_felts(right@),
    ensures
        r@ == spec_sponge(left@ + right@, domain),
        all_felts(r@),
{
    let v: [u32; 8] = [left[0], left[1], left[2], left[3], right[0], right[1], right[2], right[3]];
    assert(v@ =~= left@ + right@);
    sponge_hash(&v, domain)
}

/// Hash of two field elements with no domain tag (zero capacity).
pub fn hash2(a: u32, b: u32) -> (r: HashOut)
    requires
        a < P,
        b < P,
    ensures
        r@ == spec_sponge(seq![a, b], 0),
        all_felts(r@),
{
    domain_hash2(a, b, 0)
}

/// Note commitment over `(asset, amount limbs, owner, randomness, attestation root)`,
/// fourteen inputs absorbed in two blocks.
pub fn note_commitment(
    asset: u32,
    a0: u32,
    a1: u32,
    a2: u32,
    a3: u32,
    owner: HashOut,
    randomness: u32,
    attestation_root: HashOut,
) -> (r: HashOut)
    requires
        asset < P,
        a0 < P,
        a1 < P,
        a2 < P,
        a3 < P,
        all_felts(owner@),
        randomness < P,
        all_felts(attestation_root@),
    ensures
        r@ == spec_sponge(
            seq![asset, a0, a1, a2, a3] + owner@ + seq![randomness] + attestation_root@,
            DOMAIN_NOTE_CM,
        ),
        all_felts(r@),
{
    let v: [u32; 14] = [
        asset,
        a0,
        a1,
        a2,
        a3,
        owner[0],
        owner[1],
        owner[2],
        owner[3],
        randomness,
        attestation_root[0],
        attestation_root[1],
        attestation_root[2],
        attestation_root[3],
    ];
    assert(v@ =~= seq![asset, a0, a1, a2, a3] + owner@ + seq![randomness] + attestation_root@);
    sponge_hash(&v, DOMAIN_NOTE_CM)
}

/// The commitment inputs of a note whose amount is a `u64`.
pub open spec fn spec_note_commitment_u64(
    asset: u32,
    amount: u64,
    owner: Seq<u32>,
    randomness: u32,
    attestation_root: Seq<u32>,
) -> Seq<u32> {
    spec_sponge(
        seq![asset] + spec_amount_limbs(amount) + owner + seq![randomness] + attestation_root,
        DOMAIN_NOTE_CM,
    )
}

/// Note commitment with the amount given as a `u64`, split into its limbs.
pub fn note_commitment_u64(
    asset: u32,
    amount: u64,
    owner: HashOut,
    randomness: u32,
    attestation_root: HashOut,
) -> (r: HashOut)
    requires
        asset < P,
        all_felts(owner@),
        randomness < P,
        all_felts(attestation_root@),
    ensures
        r@ == spec_note_commitment_u64(asset, amount, owner@, randomness, attestation_root@),
        all_felts(r@),
{
    let limbs = amount_to_limbs(amount);
    let r = note_commitment(
        asset,
        limbs[0],
        limbs[1],
        limbs[2],
        limbs[3],
        owner,
        randomness,
        attestation_root,
    );
    assert(seq![asset, limbs[0], limbs[1], limbs[2], limbs[3]] + owner@ + seq![randomness]
        + attestation_root@ =~= seq![asset] + spec_amount_limbs(amount) + owner@ + seq![randomness]
        + attestation_root@);
    r
}

/// Legacy four-input credential commitment.
pub fn credential_commitment(issuer: u32, owner: u32, expiry: u32, secret: u32) -> (r: HashOut)
    requires
        issuer < P,
        owner < P,
        expiry < P,
        secret < P,
    ensures
        r@ == spec_sponge(seq![issuer, owner, expiry, secret], DOMAIN_CRED_CM),
        all_felts(r@),
{
    domain_hash4(issuer, owner, expiry, secret, DOMAIN_CRED_CM)
}

/// Legacy credential nullifier over `(secret, commitment, epoch, 0)`.
pub fn credential_nullifier(secret: u32, cred_cm: u32, epoch: u32) -> (r: HashOut)
    requires
        secret < P,
        cred_cm < P,
        epoch < P,
    ensures
        r@ == spec_sponge(seq![secret, cred_cm, epoch, 0], DOMAIN_CRED_NULL),
        all_felts(r@),
{
    domain_hash4(secret, cred_cm, epoch, 0, DOMAIN_CRED_NULL)
}

/// Attestation commitment over `(issuer id, owner, expiry, secret)`: ten
/// inputs, two blocks.
pub fn attestation_commitment(issuer_id: HashOut, owner: HashOut, expiry: u32, secret: u32) -> (r:
    HashOut)
    requires
        all_felts(issuer_id@),
        all_felts(owner@),
        expiry < P,
        secret < P,
    ensures
        r@ == spec_sponge(issuer_id@ + owner@ + seq![expiry, secret], DOMAIN_CRED_CM),
        all_felts(r@),
{
    let v: [u32; 10] = [
        issuer_id[0],
        issuer_id[1],
        issuer_id[2],
        issuer_id[3],
        owner[0],
        owner[1],
        owner[2],
        owner[3],
        expiry,
        secret,
    ];
    assert(v@ =~= issuer_id@ + owner@ + seq![expiry, secret]);
    sponge_hash(&v, DOMAIN_CRED_CM)
}

/// Attestation nullifier over `(secret, commitment, epoch, 0)`.
pub fn attestation_nullifier(secret: u32, commitment: HashOut, epoch: u32) -> (r: HashOut)
    requires
        secret < P,
        all_felts(commitment@),
        epoch < P,
    ensures
        r@ == spec_sponge(seq![secret] + commitment@ + seq![epoch, 0], DOMAIN_CRED_NULL),
        all_felts(r@),
{
    let r = domain_hash7(
        secret,
        commitment[0],
        commitment[1],
        commitment[2],
        commitment[3],
        epoch,
        0,
        DOMAIN_CRED_NULL,
    );
    assert(seq![secret, commitment[0], commitment[1], commitment[2], commitment[3], epoch, 0]
        =~= seq![secret] + commitment@ + seq![epoch, 0]);
    r
}

/// Note nullifier: hash of the spending key and the note commitment.
pub fn nullifier(sk: u32, commitment: HashOut) -> (r: HashOut)
    requires
        sk < P,
        all_felts(commitment@),
    ensures
        r@ == spec_sponge(seq![sk] + commitment@, DOMAIN_NULLIFIER),
        all_felts(r@),
{
    let v: [u32; 5] = [sk, commitment[0], commitment[1], commitment[2], commitment[3]];
    assert(v@ =~= seq![sk] + commitment@);
    sponge_hash(&v, DOMAIN_NULLIFIER)
}

pub open spec fn spec_derive_owner(sk: u32) -> Seq<u32> {
    spec_sponge(seq![sk, 0], DOMAIN_OWNER)
}

/// The owner (public key hash) of a spending key.
pub fn derive_owner(sk: u32) -> (r: HashOut)
    requires
        sk < P,
    ensures
        r@ == spec_derive_owner(sk),
        all_felts(r@),
{
    domain_hash2(sk, 0, DOMAIN_OWNER)
}

/// The identity of an issuer key.
pub fn derive_issuer_id(issuer_key: u32) -> (r: HashOut)
    requires
        issuer_key < P,
    ensures
        r@ == spec_sponge(seq![issuer_key, 0], DOMAIN_ISSUER_ID),
        all_felts(r@),
{
    domain_hash2(issuer_key, 0, DOMAIN_ISSUER_ID)
}

/// Hash of two Merkle children.
pub fn merkle_hash(left: HashOut, right: HashOut) -> (r: HashOut)
    requires
        all_felts(left@),
        all_felts(right@),
    ensures
        r@ == spec_merkle_hash(left@, right@),
        all_felts(r@),
{
    hash_pair(left, right, DOMAIN_MERKLE)
}

/// Reads four `u32`s as field elements (each reduced modulo `P`).
pub fn u32_array_to_hashout(a: [u32; 4]) -> (r: HashOut)
    ensures
        r@ == spec_to_hashout(a@),
        all_felts(r@),
{
    let r: HashOut = [m31_from_u32(a[0]), m31_from_u32(a[1]), m31_from_u32(a[2]), m31_from_u32(a[3])];
    assert(r@ =~= spec_to_hashout(a@));
    r
}

pub open spec fn spec_to_hashout(a: Seq<u32>) -> Seq<u32> {
    Seq::new(4, |i: int| freduce(a[i] as int))
}

/// The `u32` values of a hash output's field elements.
pub fn hashout_to_u32_array(h: HashOut) -> (r: [u32; 4])
    ensures
        r == h,
{
    h
}

/// A sponge over at most one rate block is one permutation of the initial
/// state overwritten with the inputs.
pub proof fn lemma_sponge_one_block(inputs: Seq<u32>, domain: u32)
    requires
        inputs.len() <= RATE,
    ensures
        spec_sponge(inputs, domain) == spec_permute(spec_overwrite(spec_init_state(domain), inputs)).take(4),
{
}

} // verus!
