//! Payment fixtures: note trees holding a sender's two input notes, and
//! complete payments (transaction, payment witness, sidecar witness) built
//! on them, valid ones and ones broken in one place.

use vstd::arithmetic::power2::lemma2_to64;
use vstd::prelude::*;

use crate::m31::{freduce, m31_from_u32};
use crate::ledger::path_to_u32;
use crate::merkle::{lemma_words_path_matches, spec_words_path_root, SparseMerkleTree};
use crate::payment_tx::{
    spec_asset_value, spec_build_outcome, spec_is_built_tx, spec_is_payment_witness,
    spec_validate_payment_tx, lemma_built_tx_validates,
    AssetId, HushFeeMerkleContext, NoteInput, PaymentMerkleContext, PaymentRoute, PaymentTxV1,
    RecipientIntent, SenderChangeIntent, ASSET_HUSH, PAYMENT_FEE_SCHEDULE_STANDARD,
};
use crate::poseidon2::{
    derive_owner, hashout_to_u32_array, note_commitment_u64, spec_derive_owner,
    spec_note_commitment_u64, spec_to_hashout,
};
use crate::payment_validation::spec_assemble_bundle;
use crate::types::{HushFeeWitness, PaymentWitness, MERKLE_DEPTH};

verus! {

/// A complete payment: the transaction, its payment witness, its sidecar
/// witness on Mode B, and the sender tag it carries.
#[derive(Clone, Copy, Debug)]
pub struct PaymentFixtureContext {
    pub tx: PaymentTxV1,
    pub witness: PaymentWitness,
    pub fee_sidecar_witness: Option<HushFeeWitness>,
    pub sender_binding_tag: [u32; 4],
}

/// Commitment of an unregulated note of `sk`'s owner in `asset`.
pub open spec fn spec_fixture_note(sk: u32, asset: u32, note: NoteInput) -> Seq<u32> {
    spec_note_commitment_u64(
        freduce(asset as int),
        note.amount,
        spec_derive_owner(freduce(sk as int)),
        freduce(note.randomness as int),
        seq![0u32, 0, 0, 0],
    )
}

/// Both notes lie under `root` along their paths.
pub open spec fn spec_notes_in_tree(
    sk: u32,
    asset: u32,
    inputs: [NoteInput; 2],
    root: [u32; 4],
    path_0: Seq<([u32; 4], u32)>,
    path_1: Seq<([u32; 4], u32)>,
) -> bool {
    &&& spec_words_path_root(spec_fixture_note(sk, asset, inputs[0]), path_0) == spec_to_hashout(
        root@,
    )
    &&& spec_words_path_root(spec_fixture_note(sk, asset, inputs[1]), path_1) == spec_to_hashout(
        root@,
    )
}

/// A depth-`MERKLE_DEPTH` note tree whose first two leaves are the
/// sender's two notes: its root and the notes' paths.
fn build_note_context(sk: u32, asset: AssetId, inputs: [NoteInput; 2]) -> (r: (
    [u32; 4],
    [([u32; 4], u32); MERKLE_DEPTH],
    [([u32; 4], u32); MERKLE_DEPTH],
))
    ensures
        spec_notes_in_tree(sk, spec_asset_value(asset), inputs, r.0, r.1@, r.2@),
{
    let owner = derive_owner(m31_from_u32(sk));
    let asset_felt = m31_from_u32(asset.as_u32());
    let zero_root: [u32; 4] = [0, 0, 0, 0];
    assert(zero_root@ =~= seq![0u32, 0, 0, 0]);
    let in_cm_0 = note_commitment_u64(
        asset_felt,
        inputs[0].amount,
        owner,
        m31_from_u32(inputs[0].randomness),
        zero_root,
    );
    let in_cm_1 = note_commitment_u64(
        asset_felt,
        inputs[1].amount,
        owner,
        m31_from_u32(inputs[1].randomness),
        zero_root,
    );
    proof {
        lemma2_to64();
    }
    let mut tree = SparseMerkleTree::new(MERKLE_DEPTH);
    tree.set_leaf(0, in_cm_0);
    tree.set_leaf(1, in_cm_1);
    let path_0 = tree.path(0);
    let path_1 = tree.path(1);
    let root = tree.root();
    let words_0 = path_to_u32(&path_0);
    let words_1 = path_to_u32(&path_1);
    proof {
        lemma_words_path_matches(in_cm_0@, path_0@, words_0@);
        lemma_words_path_matches(in_cm_1@, path_1@, words_1@);
        assert(spec_to_hashout(root@) =~= root@);
    }
    (hashout_to_u32_array(root), words_0, words_1)
}

/// The note tree of a payment's two input notes, at `epoch`, with
/// unregulated notes and an empty revocation accumulator (all-zero roots).
pub fn build_payment_merkle_context(
    sk: u32,
    payment_inputs: [NoteInput; 2],
    payment_asset: AssetId,
    epoch: u32,
) -> (r: PaymentMerkleContext)
    ensures
        r.epoch == epoch,
        r.accumulator_root == [0u32, 0, 0, 0],
        r.att_root_0 == [0u32, 0, 0, 0],
        r.att_root_1 == [0u32, 0, 0, 0],
        spec_notes_in_tree(
            sk,
            spec_asset_value(payment_asset),
            payment_inputs,
            r.note_root,
            r.note_path_0@,
            r.note_path_1@,
        ),
{
    let (note_root, note_path_0, note_path_1) = build_note_context(
        sk,
        payment_asset,
        payment_inputs,
    );
    PaymentMerkleContext {
        epoch,
        note_root,
        accumulator_root: [0u32, 0, 0, 0],
        att_root_0: [0u32, 0, 0, 0],
        att_root_1: [0u32, 0, 0, 0],
        note_path_0,
        note_path_1,
    }
}

/// The note tree of the sender's two HUSH notes.
pub fn build_hush_fee_merkle_context(sk: u32, hush_inputs: [NoteInput; 2]) -> (r:
    HushFeeMerkleContext)
    ensures
        spec_notes_in_tree(sk, ASSET_HUSH, hush_inputs, r.note_root, r.note_path_0@, r.note_path_1@),
{
    let (note_root, note_path_0, note_path_1) = build_note_context(sk, AssetId::Hush, hush_inputs);
    HushFeeMerkleContext { note_root, note_path_0, note_path_1 }
}

/// The recipient intent of a fixture: the owner hash of the recipient's key.
pub open spec fn spec_fixture_recipient(amount: u64, owner_key: u32, randomness: u32) -> RecipientIntent {
    RecipientIntent {
        amount,
        owner: crate::payment_tx::spec_hash_array(spec_derive_owner(freduce(owner_key as int))),
        randomness,
    }
}

/// The inputs a fixture is built from are consistent: the builder accepts
/// them on the standard schedule, a HUSH payment is not sent on Mode B, and
/// on Mode B (only) two HUSH notes and a change randomness are given whose
/// sum covers the fee.
pub open spec fn spec_fixture_inputs_ok(
    route: PaymentRoute,
    payment_asset: AssetId,
    payment_inputs: [NoteInput; 2],
    recipient: RecipientIntent,
    hush_inputs: Option<[NoteInput; 2]>,
    hush_change_randomness: Option<u32>,
    fee_schedule_version: u32,
) -> bool {
    let outcome = spec_build_outcome(
        route,
        payment_asset,
        payment_inputs,
        recipient,
        fee_schedule_version,
    );
    &&& outcome is Ok
    &&& !(route == PaymentRoute::HushSidecar && payment_asset == AssetId::Hush)
    &&& match route {
        PaymentRoute::SameAsset => hush_inputs is None && hush_change_randomness is None,
        PaymentRoute::HushSidecar => {
            &&& hush_inputs is Some
            &&& hush_change_randomness is Some
            &&& hush_inputs->Some_0[0].amount + hush_inputs->Some_0[1].amount <= u64::MAX
            &&& hush_inputs->Some_0[0].amount + hush_inputs->Some_0[1].amount >= outcome->Ok_0
        },
    }
}

/// What a fixture holds: the canonical transaction for its intents, the
/// payment witness over the note tree of its inputs (unregulated notes, an
/// empty accumulator, `epoch`), and on Mode B the sidecar witness that pays
/// the fee from the two HUSH notes and returns the rest.
pub open spec fn spec_is_fixture(
    r: PaymentFixtureContext,
    route: PaymentRoute,
    sk: u32,
    payment_asset: AssetId,
    payment_inputs: [NoteInput; 2],
    recipient: RecipientIntent,
    sender_change_randomness: u32,
    hush_inputs: Option<[NoteInput; 2]>,
    hush_change_randomness: Option<u32>,
    epoch: u32,
    fee_schedule_version: u32,
) -> bool {
    let fee = spec_build_outcome(
        route,
        payment_asset,
        payment_inputs,
        recipient,
        fee_schedule_version,
    )->Ok_0;
    &&& spec_is_built_tx(
        r.tx,
        route,
        payment_asset,
        payment_inputs,
        recipient,
        sender_change_randomness,
        sk,
        fee_schedule_version,
        fee,
    )
    &&& r.sender_binding_tag == r.tx.attachment.sender_binding_tag
    &&& spec_validate_payment_tx(r.tx) == Ok::<PaymentRoute, crate::error::HushError>(route)
    &&& spec_is_payment_witness(
        r.witness,
        r.tx,
        sk,
        PaymentMerkleContext {
            epoch,
            note_root: r.witness.note_root,
            accumulator_root: [0u32, 0, 0, 0],
            att_root_0: [0u32, 0, 0, 0],
            att_root_1: [0u32, 0, 0, 0],
            note_path_0: r.witness.note_path_0,
            note_path_1: r.witness.note_path_1,
        },
    )
    &&& spec_notes_in_tree(
        sk,
        spec_asset_value(payment_asset),
        payment_inputs,
        r.witness.note_root,
        r.witness.note_path_0@,
        r.witness.note_path_1@,
    )
    &&& match route {
        PaymentRoute::SameAsset => r.fee_sidecar_witness is None,
        PaymentRoute::HushSidecar => {
            let h = hush_inputs->Some_0;
            let w = r.fee_sidecar_witness->Some_0;
            &&& r.fee_sidecar_witness is Some
            &&& w.sk == sk
            &&& w.in_amt_0 == h[0].amount
            &&& w.in_rand_0 == h[0].randomness
            &&& w.in_amt_1 == h[1].amount
            &&& w.in_rand_1 == h[1].randomness
            &&& w.change_amt == h[0].amount + h[1].amount - fee
            &&& w.change_rand == hush_change_randomness->Some_0
            &&& w.fee_amount == fee
            &&& w.tx_binding_hash == r.tx.tx_binding_hash
            &&& w.sender_binding_tag == r.tx.attachment.sender_binding_tag
            &&& spec_notes_in_tree(
                sk,
                ASSET_HUSH,
                h,
                w.note_root,
                w.note_path_0@,
                w.note_path_1@,
            )
        },
    }
}

/// Builds a complete payment from its intents: the canonical transaction on
/// the given schedule, the payment witness over the note tree of its inputs
/// and, on Mode B, the sidecar witness over the tree of the two HUSH notes.
pub(crate) fn build_context(
    route: PaymentRoute,
    sk: u32,
    payment_asset: AssetId,
    payment_inputs: [NoteInput; 2],
    recipient_amount: u64,
    recipient_owner: u32,
    recipient_randomness: u32,
    sender_change_randomness: u32,
    hush_inputs: Option<[NoteInput; 2]>,
    hush_change_randomness: Option<u32>,
    epoch: u32,
    fee_schedule_version: u32,
) -> (r: PaymentFixtureContext)
    requires
        spec_fixture_inputs_ok(
            route,
            payment_asset,
            payment_inputs,
            spec_fixture_recipient(recipient_amount, recipient_owner, recipient_randomness),
            hush_inputs,
            hush_change_randomness,
            fee_schedule_version,
        ),
    ensures
        spec_is_fixture(
            r,
            route,
            sk,
            payment_asset,
            payment_inputs,
            spec_fixture_recipient(recipient_amount, recipient_owner, recipient_randomness),
            sender_change_randomness,
            hush_inputs,
            hush_change_randomness,
            epoch,
            fee_schedule_version,
        ),
{
    let owner = derive_owner(m31_from_u32(recipient_owner));
    let recipient = RecipientIntent {
        amount: recipient_amount,
        owner: hashout_to_u32_array(owner),
        randomness: recipient_randomness,
    };
    proof {
        crate::payment_tx::lemma_hash_array(owner);
    }
    assert(recipient == spec_fixture_recipient(
        recipient_amount,
        recipient_owner,
        recipient_randomness,
    ));
    let built = match route {
        PaymentRoute::SameAsset => PaymentTxV1::build_same_asset_with_schedule(
            payment_asset,
            payment_inputs,
            recipient,
            sender_change_randomness,
            sk,
            fee_schedule_version,
        ),
        PaymentRoute::HushSidecar => PaymentTxV1::build_with_hush_fee_with_schedule(
            payment_asset,
            payment_inputs,
            recipient,
            sender_change_randomness,
            sk,
            fee_schedule_version,
        ),
    };
    let tx = match built {
        Ok(tx) => tx,
        Err(_) => {
            return unreached();
        },
    };
    proof {
        lemma_built_tx_validates(
            tx,
            route,
            payment_asset,
            payment_inputs,
            recipient,
            sender_change_randomness,
            sk,
            fee_schedule_version,
        );
    }
    let payment_context = build_payment_merkle_context(sk, payment_inputs, payment_asset, epoch);
    let witness = match tx.build_witness(sk, &payment_context) {
        Ok(w) => w,
        Err(_) => {
            return unreached();
        },
    };
    let fee_sidecar_witness = match (route, hush_inputs, hush_change_randomness) {
        (PaymentRoute::HushSidecar, Some(hush), Some(change_randomness)) => {
            let hush_context = build_hush_fee_merkle_context(sk, hush);
            let change_total = hush[0].amount + hush[1].amount - tx.descriptor.fee_amount;
            let change = SenderChangeIntent { amount: change_total, randomness: change_randomness };
            match tx.build_hush_fee_witness(sk, hush, change, &hush_context) {
                Ok(w) => Some(w),
                Err(_) => {
                    return unreached();
                },
            }
        },
        (PaymentRoute::SameAsset, None, None) => None,
        _ => {
            return unreached();
        },
    };
    PaymentFixtureContext {
        tx,
        witness,
        fee_sidecar_witness,
        sender_binding_tag: tx.attachment.sender_binding_tag,
    }
}

/// The valid USDC payment with its fee paid in HUSH (Mode B).
pub open spec fn spec_valid_usdc_hush_fixture(r: PaymentFixtureContext) -> bool {
    spec_is_fixture(
        r,
        PaymentRoute::HushSidecar,
        31313,
        AssetId::Usdc,
        [NoteInput { amount: 7000, randomness: 111 }, NoteInput { amount: 3000, randomness: 222 }],
        spec_fixture_recipient(8000, 77777, 333),
        444,
        Some([NoteInput { amount: 40, randomness: 515 }, NoteInput { amount: 20, randomness: 616 }]),
        Some(717u32),
        1000,
        PAYMENT_FEE_SCHEDULE_STANDARD,
    )
}

pub fn valid_usdc_hush_fee_fixture() -> (r: PaymentFixtureContext)
    ensures
        spec_valid_usdc_hush_fixture(r),
{
    build_context(
        PaymentRoute::HushSidecar,
        31_313,
        AssetId::Usdc,
        [NoteInput { amount: 7_000, randomness: 111 }, NoteInput { amount: 3_000, randomness: 222 }],
        8_000,
        77_777,
        333,
        444,
        Some([NoteInput { amount: 40, randomness: 515 }, NoteInput { amount: 20, randomness: 616 }]),
        Some(717),
        1_000,
        PAYMENT_FEE_SCHEDULE_STANDARD,
    )
}

/// The valid USDT payment with its fee paid in HUSH (Mode B).
pub open spec fn spec_valid_usdt_hush_fixture(r: PaymentFixtureContext) -> bool {
    spec_is_fixture(
        r,
        PaymentRoute::HushSidecar,
        41414,
        AssetId::Usdt,
        [NoteInput { amount: 9500, randomness: 555 }, NoteInput { amount: 1500, randomness: 666 }],
        spec_fixture_recipient(10000, 66666, 777),
        888,
        Some([NoteInput { amount: 45, randomness: 919 }, NoteInput { amount: 15, randomness: 1020 }]),
        Some(1121u32),
        1000,
        PAYMENT_FEE_SCHEDULE_STANDARD,
    )
}

pub fn valid_usdt_hush_fee_fixture() -> (r: PaymentFixtureContext)
    ensures
        spec_valid_usdt_hush_fixture(r),
{
    build_context(
        PaymentRoute::HushSidecar,
        41_414,
        AssetId::Usdt,
        [NoteInput { amount: 9_500, randomness: 555 }, NoteInput { amount: 1_500, randomness: 666 }],
        10_000,
        66_666,
        777,
        888,
        Some([NoteInput { amount: 45, randomness: 919 }, NoteInput { amount: 15, randomness: 1_020 }]),
        Some(1_121),
        1_000,
        PAYMENT_FEE_SCHEDULE_STANDARD,
    )
}

/// The valid USDC payment with its fee paid in USDC (Mode A).
pub open spec fn spec_valid_usdc_same_asset_fixture(r: PaymentFixtureContext) -> bool {
    spec_is_fixture(
        r,
        PaymentRoute::SameAsset,
        21212,
        AssetId::Usdc,
        [NoteInput { amount: 7000, randomness: 111 }, NoteInput { amount: 3000, randomness: 222 }],
        spec_fixture_recipient(8000, 77777, 333),
        444,
        None,
        None,
        1000,
        PAYMENT_FEE_SCHEDULE_STANDARD,
    )
}

pub fn valid_usdc_same_asset_fixture() -> (r: PaymentFixtureContext)
    ensures
        spec_valid_usdc_same_asset_fixture(r),
{
    build_context(
        PaymentRoute::SameAsset,
        21_212,
        AssetId::Usdc,
        [NoteInput { amount: 7_000, randomness: 111 }, NoteInput { amount: 3_000, randomness: 222 }],
        8_000,
        77_777,
        333,
        444,
        None,
        None,
        1_000,
        PAYMENT_FEE_SCHEDULE_STANDARD,
    )
}

/// The valid USDT payment with its fee paid in USDT (Mode A).
pub open spec fn spec_valid_usdt_same_asset_fixture(r: PaymentFixtureContext) -> bool {
    spec_is_fixture(
        r,
        PaymentRoute::SameAsset,
        51515,
        AssetId::Usdt,
        [NoteInput { amount: 9500, randomness: 555 }, NoteInput { amount: 1500, randomness: 666 }],
        spec_fixture_recipient(10000, 66666, 777),
        888,
        None,
        None,
        1000,
        PAYMENT_FEE_SCHEDULE_STANDARD,
    )
}

pub fn valid_usdt_same_asset_fixture() -> (r: PaymentFixtureContext)
    ensures
        spec_valid_usdt_same_asset_fixture(r),
{
    build_context(
        PaymentRoute::SameAsset,
        51_515,
        AssetId::Usdt,
        [NoteInput { amount: 9_500, randomness: 555 }, NoteInput { amount: 1_500, randomness: 666 }],
        10_000,
        66_666,
        777,
        888,
        None,
        None,
        1_000,
        PAYMENT_FEE_SCHEDULE_STANDARD,
    )
}

/// `r` is `f` with its sidecar witness replaced by `w`.
pub open spec fn spec_with_sidecar(
    r: PaymentFixtureContext,
    f: PaymentFixtureContext,
    w: Option<HushFeeWitness>,
) -> bool {
    &&& r.tx == f.tx
    &&& r.witness == f.witness
    &&& r.sender_binding_tag == f.sender_binding_tag
    &&& r.fee_sidecar_witness == w
}

/// `a` with its first word increased by one (wrapping).
pub open spec fn spec_bump(a: [u32; 4]) -> [u32; 4] {
    [(if a[0] == u32::MAX { 0 } else { (a[0] + 1) as u32 }), a[1], a[2], a[3]]
}

fn bump(a: [u32; 4]) -> (r: [u32; 4])
    ensures
        r == spec_bump(a),
{
    let mut r = a;
    r[0] = a[0].wrapping_add(1);
    r
}

/// The USDC Mode B payment with no sidecar witness.
pub fn missing_sidecar_hush_fee_fixture() -> (r: PaymentFixtureContext)
    ensures
        exists|f: PaymentFixtureContext| spec_valid_usdc_hush_fixture(f) && spec_with_sidecar(r, f, None),
{
    let mut fixture = valid_usdc_hush_fee_fixture();
    let ghost f = fixture;
    fixture.fee_sidecar_witness = None;
    assert(spec_with_sidecar(fixture, f, None));
    fixture
}

/// The USDC Mode B payment whose sidecar witness claims another note root.
pub fn malformed_sidecar_hush_fee_fixture() -> (r: PaymentFixtureContext)
    ensures
        exists|f: PaymentFixtureContext|
            spec_valid_usdc_hush_fixture(f) && spec_with_sidecar(
                r,
                f,
                Some(
                    HushFeeWitness {
                        note_root: spec_bump(f.fee_sidecar_witness->Some_0.note_root),
                        ..f.fee_sidecar_witness->Some_0
                    },
                ),
            ),
{
    let mut fixture = valid_usdc_hush_fee_fixture();
    let ghost f = fixture;
    let mut sidecar = match fixture.fee_sidecar_witness {
        Some(w) => w,
        None => {
            return unreached();
        },
    };
    sidecar.note_root = bump(sidecar.note_root);
    fixture.fee_sidecar_witness = Some(sidecar);
    assert(spec_with_sidecar(
        fixture,
        f,
        Some(
            HushFeeWitness {
                note_root: spec_bump(f.fee_sidecar_witness->Some_0.note_root),
                ..f.fee_sidecar_witness->Some_0
            },
        ),
    ));
    fixture
}

/// The USDC Mode B payment whose sidecar witness carries another sender tag.
pub fn wrong_sender_binding_tag_hush_fee_fixture() -> (r: PaymentFixtureContext)
    ensures
        exists|f: PaymentFixtureContext|
            spec_valid_usdc_hush_fixture(f) && spec_with_sidecar(
                r,
                f,
                Some(
                    HushFeeWitness {
                        sender_binding_tag: spec_bump(f.sender_binding_tag),
                        ..f.fee_sidecar_witness->Some_0
                    },
                ),
            ),
{
    let mut fixture = valid_usdc_hush_fee_fixture();
    let ghost f = fixture;
    let mut sidecar = match fixture.fee_sidecar_witness {
        Some(w) => w,
        None => {
            return unreached();
        },
    };
    sidecar.sender_binding_tag = bump(fixture.sender_binding_tag);
    fixture.fee_sidecar_witness = Some(sidecar);
    assert(spec_with_sidecar(
        fixture,
        f,
        Some(
            HushFeeWitness {
                sender_binding_tag: spec_bump(f.sender_binding_tag),
                ..f.fee_sidecar_witness->Some_0
            },
        ),
    ));
    fixture
}

/// The USDC Mode B payment whose sidecar witness carries another binding hash.
pub fn wrong_tx_binding_hash_hush_fee_fixture() -> (r: PaymentFixtureContext)
    ensures
        exists|f: PaymentFixtureContext|
            spec_valid_usdc_hush_fixture(f) && spec_with_sidecar(
                r,
                f,
                Some(
                    HushFeeWitness {
                        tx_binding_hash: spec_bump(f.tx.tx_binding_hash),
                        ..f.fee_sidecar_witness->Some_0
                    },
                ),
            ),
{
    let mut fixture = valid_usdc_hush_fee_fixture();
    let ghost f = fixture;
    let mut sidecar = match fixture.fee_sidecar_witness {
        Some(w) => w,
        None => {
            return unreached();
        },
    };
    sidecar.tx_binding_hash = bump(fixture.tx.tx_binding_hash);
    fixture.fee_sidecar_witness = Some(sidecar);
    assert(spec_with_sidecar(
        fixture,
        f,
        Some(
            HushFeeWitness {
                tx_binding_hash: spec_bump(f.tx.tx_binding_hash),
                ..f.fee_sidecar_witness->Some_0
            },
        ),
    ));
    fixture
}

/// The USDC Mode B payment whose HUSH notes (2 and 2) cannot cover the fee.
pub fn insufficient_hush_fee_coverage_fixture() -> (r: PaymentFixtureContext)
    ensures
        exists|f: PaymentFixtureContext|
            spec_valid_usdc_hush_fixture(f) && spec_with_sidecar(
                r,
                f,
                Some(
                    HushFeeWitness {
                        in_amt_0: 2,
                        in_amt_1: 2,
                        change_amt: 0,
                        ..f.fee_sidecar_witness->Some_0
                    },
                ),
            ),
{
    let mut fixture = valid_usdc_hush_fee_fixture();
    let ghost f = fixture;
    let mut sidecar = match fixture.fee_sidecar_witness {
        Some(w) => w,
        None => {
            return unreached();
        },
    };
    sidecar.in_amt_0 = 2;
    sidecar.in_amt_1 = 2;
    sidecar.change_amt = 0;
    fixture.fee_sidecar_witness = Some(sidecar);
    assert(spec_with_sidecar(
        fixture,
        f,
        Some(
            HushFeeWitness {
                in_amt_0: 2,
                in_amt_1: 2,
                change_amt: 0,
                ..f.fee_sidecar_witness->Some_0
            },
        ),
    ));
    fixture
}

/// The USDC Mode B payment whose HUSH change is one more than the notes
/// leave after the fee.
pub fn invalid_hush_change_fixture() -> (r: PaymentFixtureContext)
    ensures
        exists|f: PaymentFixtureContext|
            spec_valid_usdc_hush_fixture(f) && spec_with_sidecar(
                r,
                f,
                Some(
                    HushFeeWitness {
                        change_amt: (f.fee_sidecar_witness->Some_0.change_amt + 1) as u64,
                        ..f.fee_sidecar_witness->Some_0
                    },
                ),
            ),
{
    let mut fixture = valid_usdc_hush_fee_fixture();
    let ghost f = fixture;
    let mut sidecar = match fixture.fee_sidecar_witness {
        Some(w) => w,
        None => {
            return unreached();
        },
    };
    sidecar.change_amt = sidecar.change_amt + 1;
    fixture.fee_sidecar_witness = Some(sidecar);
    assert(spec_with_sidecar(
        fixture,
        f,
        Some(
            HushFeeWitness {
                change_amt: (f.fee_sidecar_witness->Some_0.change_amt + 1) as u64,
                ..f.fee_sidecar_witness->Some_0
            },
        ),
    ));
    fixture
}

/// A payment made by the canonical builder, with its payment witness over
/// a note tree that holds its inputs and, on Mode B, a sidecar witness that
/// pays the fee from two HUSH notes in their tree, assembles into a bundle
/// that belongs to the transaction: both statements hold and agree with it,
/// unless an amount exceeds the four-limb range or the two spent notes of a
/// witness have the same nullifier (as two identical notes do).
#[verifier::rlimit(40)]
pub proof fn lemma_fixture_bundle_assembles(
    r: PaymentFixtureContext,
    route: PaymentRoute,
    sk: u32,
    payment_asset: AssetId,
    payment_inputs: [NoteInput; 2],
    recipient: RecipientIntent,
    sender_change_randomness: u32,
    hush_inputs: Option<[NoteInput; 2]>,
    hush_change_randomness: Option<u32>,
    epoch: u32,
    fee_schedule_version: u32,
)
    requires
        spec_fixture_inputs_ok(
            route,
            payment_asset,
            payment_inputs,
            recipient,
            hush_inputs,
            hush_change_randomness,
            fee_schedule_version,
        ),
        spec_is_fixture(
            r,
            route,
            sk,
            payment_asset,
            payment_inputs,
            recipient,
            sender_change_randomness,
            hush_inputs,
            hush_change_randomness,
            epoch,
            fee_schedule_version,
        ),
        crate::circuit::spec_payment_amount_out_of_range(r.witness) is None,
        crate::circuit::spec_payment_nullifier(r.witness, 0) != crate::circuit::spec_payment_nullifier(
            r.witness,
            1,
        ),
        r.fee_sidecar_witness is Some ==> {
            &&& crate::fee_sidecar::spec_hush_fee_amount_out_of_range(r.fee_sidecar_witness->Some_0)
                is None
            &&& crate::fee_sidecar::spec_hush_fee_nullifier(r.fee_sidecar_witness->Some_0, 0)
                != crate::fee_sidecar::spec_hush_fee_nullifier(r.fee_sidecar_witness->Some_0, 1)
        },
    ensures
        spec_assemble_bundle(r.tx, r.witness, r.fee_sidecar_witness) is Ok,
{
    let w = r.witness;
    let zero: [u32; 4] = [0u32, 0, 0, 0];
    assert(spec_to_hashout(zero@) =~= seq![0u32, 0, 0, 0]);
    assert(crate::circuit::spec_input_commitment(w, 0) == spec_fixture_note(
        sk,
        spec_asset_value(payment_asset),
        payment_inputs[0],
    ));
    assert(crate::circuit::spec_input_commitment(w, 1) == spec_fixture_note(
        sk,
        spec_asset_value(payment_asset),
        payment_inputs[1],
    ));
    assert(crate::circuit::spec_witness_binding_hash(w) == crate::payment_tx::spec_tx_binding_hash(
        r.tx,
    ));
    assert(crate::circuit::spec_payment_statement(w) is Ok);
    if route == PaymentRoute::HushSidecar {
        let sw = r.fee_sidecar_witness->Some_0;
        let h = hush_inputs->Some_0;
        assert(freduce(ASSET_HUSH as int) == ASSET_HUSH);
        assert(crate::fee_sidecar::spec_hush_note(sw.sk, sw.in_amt_0, sw.in_rand_0)
            == spec_fixture_note(sk, ASSET_HUSH, h[0]));
        assert(crate::fee_sidecar::spec_hush_note(sw.sk, sw.in_amt_1, sw.in_rand_1)
            == spec_fixture_note(sk, ASSET_HUSH, h[1]));
        assert(crate::fee_sidecar::spec_hush_fee_statement(sw) is Ok);
    }
}

} // verus!
