use hush_demo_stark::error::HushError;
use hush_demo_stark::m31::m31_from_u32;
use hush_demo_stark::merkle::{build_merkle_tree, merkle_path, verify_merkle_path, SparseMerkleTree};
use hush_demo_stark::poseidon2::{
    apply_m4, credential_commitment, credential_nullifier, derive_owner, domain_hash2,
    external_linear_layer, hash2, hash_pair, internal_linear_layer, merkle_hash,
    note_commitment_u64, nullifier, permute_state, sbox, DOMAIN_CRED_CM, DOMAIN_CRED_NULL,
    DOMAIN_ISSUER_ID, DOMAIN_MERKLE, DOMAIN_NOTE_CM, DOMAIN_NULLIFIER, DOMAIN_OWNER,
    EXTERNAL_CONSTANTS, INTERNAL_CONSTANTS, INTERNAL_DIAG_M1, M4,
};
use hush_demo_stark::ledger::path_to_u32;
use hush_demo_stark::poseidon2_air::{
    gen_hash2_intermediates, gen_hash_many_4_intermediates, gen_hash_pair_intermediates,
    gen_merkle_path_trace, gen_permutation_intermediates, MERKLE_LEVEL_COLS,
    FULL_ROUND_COLS, HASH_INTERMEDIATE_COLS, NUM_FULL_ROUNDS, PARTIAL_ROUND_COLS,
};
use hush_demo_stark::poseidon2::NUM_PARTIAL_ROUNDS;
use hush_demo_stark::types::{amount_to_limbs, limbs_to_amount, LIMB_MAX, RADIX};
use hush_demo_stark::wasm_support::{base64_decode, base64_encode};

#[test]
fn test_plonky3_vector() {
    let mut state: [u32; 16] = core::array::from_fn(|i| i as u32);
    permute_state(&mut state);
    let expected: [u32; 16] = [
        0x0b2c803a, 0x5b1ee4d1, 0x49c6b1e3, 0x2cdc280c, 0x310a60c8, 0x530a729e, 0x4e61bcb4,
        0x2e84d3c3, 0x58709c08, 0x7e82ac42, 0x2162bcef, 0x6d153ab6, 0x742cf0e3, 0x2f21632d,
        0x61adce1e, 0x1973d6f1,
    ];
    assert_eq!(state, expected);
}

#[test]
fn test_constants_spot_check() {
    assert_eq!(EXTERNAL_CONSTANTS[0][0], 0x768bab52);
    assert_eq!(EXTERNAL_CONSTANTS[0][1], 0x70e0ab7d);
    assert_eq!(EXTERNAL_CONSTANTS[0][2], 0x3d266c8a);
    assert_eq!(EXTERNAL_CONSTANTS[0][3], 0x6da42045);
    assert_eq!(EXTERNAL_CONSTANTS[7][12], 0x4f5f3c70);
    assert_eq!(EXTERNAL_CONSTANTS[7][13], 0x0245af6c);
    assert_eq!(EXTERNAL_CONSTANTS[7][14], 0x238359d3);
    assert_eq!(EXTERNAL_CONSTANTS[7][15], 0x49966a59);
    assert_eq!(INTERNAL_CONSTANTS[0], 0x7f7ec4bf);
    assert_eq!(INTERNAL_CONSTANTS[13], 0x1d226a21);
    assert_eq!(INTERNAL_DIAG_M1[0], -2);
    assert_eq!(INTERNAL_DIAG_M1[1], 1);
    assert_eq!(INTERNAL_DIAG_M1[15], 65536);
    assert_eq!(M4[0], [2, 3, 1, 1]);
    assert_eq!(M4[1], [1, 2, 3, 1]);
}

#[test]
fn test_constants_in_range() {
    let p: u32 = (1u64 << 31) as u32 - 1;
    for r in 0..8 {
        for c in 0..16 {
            assert!(EXTERNAL_CONSTANTS[r][c] < p);
        }
    }
    for r in 0..14 {
        assert!(INTERNAL_CONSTANTS[r] < p);
    }
}

#[test]
fn test_sbox_x5() {
    let p = (1u64 << 31) - 1;
    assert_eq!(sbox(0), 0);
    assert_eq!(sbox(1), 1);
    assert_eq!(sbox(2), 32);
    assert_eq!(sbox(3), 243);
    assert_eq!(sbox(10), 100000);
    let x: u64 = 1_000_000;
    let x5 = ((x * x % p) * (x * x % p) % p) * x % p;
    assert_eq!(sbox(x as u32), x5 as u32);
}

#[test]
fn test_m4_circulant_matrix() {
    let mut chunk = [1u32, 0, 0, 0];
    apply_m4(&mut chunk);
    assert_eq!(chunk, [2, 1, 1, 3]);
    let mut chunk = [1u32; 4];
    apply_m4(&mut chunk);
    assert_eq!(chunk, [7, 7, 7, 7]);
}

#[test]
fn test_external_linear_layer_structure() {
    let mut state = [1u32; 16];
    external_linear_layer(&mut state);
    assert_eq!(state, [35u32; 16]);
}

#[test]
fn test_internal_linear_layer_structure() {
    let p = (1u64 << 31) - 1;
    let mut state = [0u32; 16];
    state[0] = 1;
    internal_linear_layer(&mut state);
    assert_eq!(state[0], (p - 1) as u32);
    for i in 1..16 {
        assert_eq!(state[i], 1);
    }
}

#[test]
fn test_permutation_all_zeros() {
    let mut state = [0u32; 16];
    permute_state(&mut state);
    assert!(!state.iter().all(|x| *x == 0));
    let mut state2 = [0u32; 16];
    permute_state(&mut state2);
    assert_eq!(state, state2);
}

#[test]
fn test_permutation_is_deterministic() {
    for seed in [0u32, 1, 42, 999999, 2147483646] {
        let mut s1: [u32; 16] = core::array::from_fn(|i| m31_from_u32(seed.wrapping_add(i as u32)));
        let mut s2 = s1;
        permute_state(&mut s1);
        permute_state(&mut s2);
        assert_eq!(s1, s2);
    }
}

#[test]
fn test_permutation_no_fixed_points_near_identity() {
    for val in [0u32, 1, 2, 100, 2147483646] {
        let input = [val; 16];
        let mut state = input;
        permute_state(&mut state);
        assert_ne!(state, input);
    }
}

#[test]
fn test_frozen_vector_all_ones() {
    let mut state = [1u32; 16];
    permute_state(&mut state);
    let expected: [u32; 16] = [
        0x100312c7, 0x550d389b, 0x1bcb8a30, 0x6dcd6369, 0x51f58eef, 0x760c8d95, 0x212b163a,
        0x7af7afe7, 0x79cba4e2, 0x778c0704, 0x2bfeae0a, 0x2ef47d16, 0x6278bbe7, 0x5b115195,
        0x22bd3c30, 0x0b67d488,
    ];
    assert_eq!(state, expected);
}

#[test]
fn test_frozen_vector_all_zeros() {
    let mut state = [0u32; 16];
    permute_state(&mut state);
    let expected: [u32; 16] = [
        0x7603b10e, 0x58fe3309, 0x543945a9, 0x2f4c48cd, 0x76b45f8f, 0x5691d997, 0x7f8335f1,
        0x06e37263, 0x22757590, 0x34ee15b8, 0x789a34cb, 0x79a11245, 0x2e558d59, 0x62af14f7,
        0x60a19035, 0x349bd141,
    ];
    assert_eq!(state, expected);
}

#[test]
fn test_frozen_vector_max_field() {
    let p_minus_1 = (1u32 << 31) - 2;
    let mut state = [p_minus_1; 16];
    permute_state(&mut state);
    let expected: [u32; 16] = [
        0x3e32c3cd, 0x0562ae57, 0x1e12f1bd, 0x071f8f8f, 0x0c3e4bd8, 0x6bd699b4, 0x0614e6ef,
        0x37031c07, 0x0bc3c08e, 0x2a16bcdd, 0x4de15393, 0x094255d9, 0x32e87fd9, 0x3fe11acb,
        0x1fa989bf, 0x6ef78d2f,
    ];
    assert_eq!(state, expected);
}

#[test]
fn test_merkle_hash_uses_domain() {
    let a = [1u32, 2, 3, 4];
    let b = [5u32, 6, 7, 8];
    assert_eq!(merkle_hash(a, b), hash_pair(a, b, DOMAIN_MERKLE));
}

#[test]
fn test_domain_separation() {
    let owner = domain_hash2(42, 0, DOMAIN_OWNER);
    let null = domain_hash2(42, 0, DOMAIN_NULLIFIER);
    assert_ne!(owner, null);
}

#[test]
fn test_derive_owner() {
    let sk = m31_from_u32(12345);
    let owner = derive_owner(sk);
    assert_eq!(owner, derive_owner(sk));
    assert_ne!(owner, derive_owner(m31_from_u32(99999)));
}

#[test]
fn test_nullifier_binding() {
    let cm = note_commitment_u64(1, 500, derive_owner(7), 9, [0; 4]);
    assert_ne!(nullifier(1, cm), nullifier(2, cm));
    let other = note_commitment_u64(1, 501, derive_owner(7), 9, [0; 4]);
    assert_ne!(nullifier(1, cm), nullifier(1, other));
}

#[test]
fn test_merkle_tree_and_path() {
    let leaves: Vec<[u32; 4]> = (0..8u32).map(|i| [i + 1, 0, 0, 0]).collect();
    let tree = build_merkle_tree(&leaves);
    let root = tree[1];
    for (i, leaf) in leaves.iter().enumerate() {
        assert!(verify_merkle_path(*leaf, &merkle_path(&tree, i), root));
    }
    assert!(!verify_merkle_path([999, 0, 0, 0], &merkle_path(&tree, 0), root));
}

#[test]
fn test_sparse_merkle_tree() {
    let leaves: Vec<[u32; 4]> = (0..8u32).map(|i| [i * 7 + 3, i, 0, 1]).collect();
    let tree = build_merkle_tree(&leaves);
    let mut sparse = SparseMerkleTree::new(3);
    for (i, leaf) in leaves.iter().enumerate() {
        sparse.set_leaf(i, *leaf);
    }
    assert_eq!(sparse.root(), tree[1]);
    for idx in 0..8 {
        let dense_path = merkle_path(&tree, idx);
        let sparse_path = sparse.path(idx);
        assert_eq!(dense_path, sparse_path);
        assert!(verify_merkle_path(leaves[idx], &sparse_path, sparse.root()));
    }
}

#[test]
fn test_sparse_tree_single_leaf() {
    let mut tree = SparseMerkleTree::new(20);
    tree.set_leaf(5, [0xdead, 0, 0, 0]);
    let path = tree.path(5);
    assert!(verify_merkle_path([0xdead, 0, 0, 0], &path, tree.root()));
    assert!(!verify_merkle_path([0xbeef, 0, 0, 0], &path, tree.root()));
}

#[test]
fn test_column_count() {
    let expected = NUM_FULL_ROUNDS * FULL_ROUND_COLS + NUM_PARTIAL_ROUNDS * PARTIAL_ROUND_COLS;
    assert_eq!(HASH_INTERMEDIATE_COLS, expected);
    assert_eq!(HASH_INTERMEDIATE_COLS, 636);
}

#[test]
fn test_amount_limb_roundtrip() {
    let cases: &[u64] = &[
        0,
        1,
        50,
        32767,
        32768,
        1_000_000,
        1_250_000_000,
        40_000_000_000_000,
        (1u64 << 60) - 1,
    ];
    for &amount in cases {
        let limbs = amount_to_limbs(amount);
        assert_eq!(limbs_to_amount(limbs), amount, "roundtrip failed for {amount}");
        for &limb in &limbs {
            assert!(limb <= LIMB_MAX, "limb {limb} exceeds LIMB_MAX for amount {amount}");
        }
    }
}

#[test]
fn test_radix_squared_fits_m31() {
    let r2 = RADIX * RADIX;
    let p = (1u64 << 31) - 1;
    assert!(r2 < p, "R^2 = {r2} must be < p = {p}");
}

#[test]
fn base64_encodes_and_decodes() {
    assert_eq!(base64_encode(b""), b"".to_vec());
    assert_eq!(base64_encode(b"f"), b"Zg==".to_vec());
    assert_eq!(base64_encode(b"fo"), b"Zm8=".to_vec());
    assert_eq!(base64_encode(b"foo"), b"Zm9v".to_vec());
    assert_eq!(base64_encode(b"foobar"), b"Zm9vYmFy".to_vec());
    assert_eq!(base64_encode(&[0xff, 0xfe, 0x00]), b"//4A".to_vec());
    for input in [&b"hello, proof"[..], b"a", b"ab", b"abc", &[0u8, 255, 128, 7, 63]] {
        assert_eq!(base64_decode(&base64_encode(input)).unwrap(), input.to_vec());
    }
    assert_eq!(base64_decode(b"Zm9v!!!!"), Err(HushError::InvalidBase64));
    assert_eq!(base64_decode(b"Zm9v").unwrap(), b"foo".to_vec());
    assert_eq!(base64_decode(b"Zm9vYg").unwrap(), b"foo".to_vec());
}

#[test]
fn base64_foreign_character_in_a_whole_group_is_refused() {
    assert_eq!(base64_decode(b"TWE=").unwrap(), b"Ma".to_vec());
    assert_eq!(base64_decode(b"TW!u"), Err(HushError::InvalidBase64));
    assert_eq!(base64_decode(b"Zm9vYm F"), Err(HushError::InvalidBase64));
    assert_eq!(base64_decode(b"Zm9vY!"), Ok(b"foo".to_vec()));
}

#[test]
fn error_messages_render_their_values() {
    assert_eq!(
        HushError::FeeAmountMismatch { got: 51, expected: 50 }.message(),
        "fee amount mismatch: got 51, expected 50"
    );
    assert_eq!(
        HushError::TxBindingHashMismatch { got: [1, 20, 300, 0], expected: [4000, 5, 6, 7] }.message(),
        "tx_binding_hash mismatch: got [1, 20, 300, 0], expected [4000, 5, 6, 7]"
    );
    assert_eq!(HushError::UnsupportedFeeClass(99).message(), "unsupported fee_class 99");
    assert_eq!(
        HushError::DuplicateTxInRecord(18446744073709551615).message(),
        "duplicate tx_id 18446744073709551615 in block accounting record"
    );
}

#[test]
fn test_avalanche() {
    let mut base: [u32; 16] = core::array::from_fn(|i| i as u32 + 100);
    let mut modified = base;
    modified[0] = 101;
    permute_state(&mut base);
    permute_state(&mut modified);
    let mut changed_elements = 0;
    let mut total_bit_diffs = 0u32;
    for i in 0..16 {
        if base[i] != modified[i] {
            changed_elements += 1;
        }
        total_bit_diffs += (base[i] ^ modified[i]).count_ones();
    }
    assert!(changed_elements >= 14, "only {changed_elements}/16 elements changed");
    assert!(total_bit_diffs > 100, "only {total_bit_diffs} bits differ");
}

#[test]
fn test_all_domains_distinct() {
    let domains = [
        DOMAIN_OWNER,
        DOMAIN_NULLIFIER,
        DOMAIN_NOTE_CM,
        DOMAIN_CRED_CM,
        DOMAIN_MERKLE,
        DOMAIN_CRED_NULL,
        DOMAIN_ISSUER_ID,
    ];
    let mut outputs: Vec<[u32; 4]> = Vec::new();
    for &d in &domains {
        let h = domain_hash2(12_345, 67_890, d);
        assert!(!outputs.contains(&h), "domain {d} collides with a previous domain");
        outputs.push(h);
    }
}

#[test]
fn test_commitment_binding() {
    let owner = derive_owner(50);
    let zero = [0u32; 4];
    let base = note_commitment_u64(1, 100, owner, 999, zero);
    assert_ne!(base, note_commitment_u64(2, 100, owner, 999, zero));
    assert_ne!(base, note_commitment_u64(1, 101, owner, 999, zero));
    assert_ne!(base, note_commitment_u64(1, 100, derive_owner(51), 999, zero));
    assert_ne!(base, note_commitment_u64(1, 100, owner, 998, zero));
    assert_ne!(base, note_commitment_u64(1, 100, owner, 999, [1, 0, 0, 0]));
}

#[test]
fn test_credential_commitment_binding() {
    let base = credential_commitment(10, 20, 30, 40);
    assert_ne!(base, credential_commitment(11, 20, 30, 40));
    assert_ne!(base, credential_commitment(10, 21, 30, 40));
    assert_ne!(base, credential_commitment(10, 20, 31, 40));
    assert_ne!(base, credential_commitment(10, 20, 30, 41));
}

#[test]
fn test_hash_deterministic() {
    assert_eq!(hash2(12_345, 67_890), hash2(12_345, 67_890));
}

#[test]
fn test_hash_different_inputs() {
    assert_ne!(hash2(1, 2), hash2(2, 1));
}

#[test]
fn test_note_commitment() {
    let owner = derive_owner(9_999);
    let cm = note_commitment_u64(1, 7_000, owner, 111, [0u32; 4]);
    let cm2 = note_commitment_u64(1, 7_000, owner, 111, [0u32; 4]);
    assert_eq!(cm, cm2);
}

#[test]
fn test_credential_nullifier_tied_to_commitment() {
    let null1 = credential_nullifier(777, 111, 1_000);
    let null2 = credential_nullifier(777, 222, 1_000);
    assert_ne!(null1, null2, "credential nullifier must be tied to commitment");
}

#[test]
fn test_hash2_roundtrip() {
    let mut state = [0u32; 16];
    state[0] = 12_345;
    state[1] = 67_890;
    let input = state;
    permute_state(&mut state);
    let cols = gen_permutation_intermediates(&input);
    assert_eq!(cols.len(), HASH_INTERMEDIATE_COLS);
    assert_eq!(&cols[588..604], &state[..]);
    assert_eq!(gen_hash2_intermediates(12_345, 67_890, 0), cols);
}

#[test]
fn test_poseidon2_air_owner_derivation() {
    let owner = derive_owner(42);
    let cols = gen_hash2_intermediates(42, 0, DOMAIN_OWNER);
    assert_eq!(&cols[588..592], &owner[..]);
}

#[test]
fn intermediates_record_each_round_and_its_sbox_powers() {
    let input: [u32; 16] = core::array::from_fn(|i| i as u32);
    let cols = gen_permutation_intermediates(&input);
    let mut state = input;
    external_linear_layer(&mut state);
    let p: u64 = (1u64 << 31) - 1;
    let t0 = (state[0] as u64 + EXTERNAL_CONSTANTS[0][0] as u64) % p;
    let sq = t0 * t0 % p;
    assert_eq!(cols[16] as u64, sq);
    assert_eq!(cols[32] as u64, sq * sq % p);
    let t = (cols[3 * 48] as u64 + INTERNAL_CONSTANTS[0] as u64) % p;
    let psq = t * t % p;
    assert_eq!(cols[4 * 48 + 16] as u64, psq);
    assert_eq!(cols[4 * 48 + 17] as u64, psq * psq % p);
}

#[test]
fn four_input_hash_columns_end_in_the_commitment_state() {
    let cols = gen_hash_many_4_intermediates(10, 20, 30, 40, DOMAIN_CRED_CM);
    assert_eq!(&cols[588..592], &credential_commitment(10, 20, 30, 40)[..]);
}

#[test]
fn merkle_path_trace_climbs_to_the_root() {
    let mut tree = SparseMerkleTree::new(20);
    let leaf = [11u32, 22, 33, 44];
    tree.set_leaf(5, leaf);
    tree.set_leaf(4, [1u32, 2, 3, 4]);
    let words = path_to_u32(&tree.path(5));
    let trace = gen_merkle_path_trace(leaf, &words);
    assert_eq!(trace.len(), 20 * MERKLE_LEVEL_COLS);
    // Leaf 5 is a right child: the sibling is leaf 4 and the left child is it.
    assert_eq!(&trace[0..4], &[1u32, 2, 3, 4]);
    assert_eq!(trace[4], 1);
    assert_eq!(&trace[5..9], &[1u32, 2, 3, 4]);
    assert_eq!(&trace[597..601], &merkle_hash([1, 2, 3, 4], leaf)[..]);
    let last = 19 * MERKLE_LEVEL_COLS;
    assert_eq!(&trace[last + 597..last + 601], &tree.root()[..]);
    assert_eq!(
        gen_hash_pair_intermediates([1, 2, 3, 4], leaf, DOMAIN_MERKLE),
        trace[9..MERKLE_LEVEL_COLS].to_vec()
    );
}
