use anon_xfr::accumulator::{Accumulator, TREE_DEPTH};
use anon_xfr::backend::{ProverParams, VerifierParams};
use anon_xfr::curve::RandSource;
use anon_xfr::keys::KeyPair;
use anon_xfr::notes::{
    finish_abar_to_ar_note, finish_abar_to_bar_note, gen_ar_to_abar_note, gen_bar_to_abar_note,
    init_abar_to_ar_note, init_abar_to_bar_note, verify_abar_to_ar_note, verify_abar_to_bar_note,
    verify_ar_to_abar_note, verify_bar_to_abar_note,
};
use anon_xfr::records::{open_from_memo, OpenAnonRecord};
use anon_xfr::transparent::{build_blind_record, open_record};

const AMOUNT: u64 = 10;

fn asset() -> Vec<u8> {
    vec![1u8; 32]
}

fn seeded_rng(seed: u8) -> RandSource {
    RandSource::from_seed(&vec![seed; 32])
}

fn random_digest(prng: &mut RandSource) -> Vec<u8> {
    prng.fill(32)
}

#[test]
fn secp256k1_to_abar() {
    let mut prng = seeded_rng(1);
    let params = ProverParams::bar_to_abar_params();
    let verify_params = VerifierParams::bar_to_abar_params();

    let sender = KeyPair::generate(&mut prng);
    let receiver = KeyPair::generate(&mut prng);

    let (bar, memo, _) = build_blind_record(
        AMOUNT,
        &asset(),
        &sender.get_public_key(),
        true,
        &mut prng,
    )
    .unwrap();
    let obar = open_record(&bar, &memo, &sender).unwrap();

    let note = gen_bar_to_abar_note(
        &obar,
        &sender,
        &receiver.get_public_key(),
        &params,
        &mut prng,
    )
    .unwrap();
    assert!(verify_bar_to_abar_note(&verify_params, &note, &sender.get_public_key()).is_ok());

    // a signature over another message must be rejected
    let message = b"error_message".to_vec();
    let bad_sig = sender.sign(&message, &mut prng);
    let mut note = note;
    note.signature = bad_sig;
    assert_eq!(
        verify_bar_to_abar_note(&verify_params, &note, &sender.get_public_key())
            .err()
            .unwrap(),
        anon_xfr::errors::Error::SignatureInvalid
    );

    // check the opened anonymous record
    let oabar = open_from_memo(&note.body.output, &note.body.memo, &receiver).unwrap();
    assert_eq!(oabar.amount, AMOUNT);
    assert_eq!(oabar.asset_type, asset());
}

#[test]
fn address_to_abar() {
    let mut prng = seeded_rng(2);
    let params = ProverParams::ar_to_abar_params();
    let verify_params = VerifierParams::ar_to_abar_params();

    let sender = KeyPair::generate(&mut prng);
    let receiver = KeyPair::generate(&mut prng);

    let (bar, memo, _) = build_blind_record(
        AMOUNT,
        &asset(),
        &sender.get_public_key(),
        false,
        &mut prng,
    )
    .unwrap();
    let obar = open_record(&bar, &memo, &sender).unwrap();

    let note = gen_ar_to_abar_note(
        &obar,
        &sender,
        &receiver.get_public_key(),
        &params,
        &mut prng,
    )
    .unwrap();
    verify_ar_to_abar_note(&verify_params, &note).unwrap();

    let oabar = open_from_memo(&note.body.output, &note.body.memo, &receiver).unwrap();
    assert_eq!(oabar.amount, AMOUNT);
    assert_eq!(oabar.asset_type, asset());
}

#[test]
fn abar_to_address() {
    let mut prng = seeded_rng(3);
    let params = ProverParams::abar_to_ar_params(TREE_DEPTH as u64);
    let verify_params = VerifierParams::abar_to_ar_params(TREE_DEPTH as u64);

    let sender = KeyPair::generate(&mut prng);
    let receiver = KeyPair::generate(&mut prng);

    let mut mt = Accumulator::new();
    let mut oabar =
        OpenAnonRecord::build(AMOUNT, &asset(), &sender.get_public_key(), &mut prng).unwrap();
    let abar = oabar.to_anon();
    let uid = mt.append(&abar.commitment).unwrap();
    assert_eq!(uid, 0);
    mt.commit();
    let proof = mt.generate_proof(0).unwrap();
    let root = proof.root.clone();
    oabar.update_mt_leaf_info(proof);

    let pre_note = init_abar_to_ar_note(&oabar, &sender, &receiver.get_public_key()).unwrap();
    let hash = random_digest(&mut prng);
    let note = finish_abar_to_ar_note(&params, pre_note, &hash).unwrap();
    verify_abar_to_ar_note(&verify_params, &note, &root, &hash).unwrap();

    let err_root = prng.fill(32);
    assert!(verify_abar_to_ar_note(&verify_params, &note, &err_root, &hash).is_err());

    let err_hash = random_digest(&mut prng);
    assert!(verify_abar_to_ar_note(&verify_params, &note, &root, &err_hash).is_err());

    let mut err_nullifier = note;
    err_nullifier.body.input = prng.fill(32);
    assert!(verify_abar_to_ar_note(&verify_params, &err_nullifier, &root, &hash).is_err());

    // check the opened transparent record
    let note = err_nullifier; // body.output is untouched
    let obar = open_record(&note.body.output, &note.body.memo, &receiver).unwrap();
    assert_eq!(obar.amount, AMOUNT);
    assert_eq!(obar.asset_type, asset());
}

#[test]
fn abar_to_secp256k1() {
    let mut prng = seeded_rng(4);
    let params = ProverParams::abar_to_bar_params(TREE_DEPTH as u64);
    let verify_params = VerifierParams::abar_to_bar_params(TREE_DEPTH as u64);

    let sender = KeyPair::generate(&mut prng);
    let receiver = KeyPair::generate(&mut prng);

    let mut mt = Accumulator::new();
    let mut oabar =
        OpenAnonRecord::build(AMOUNT, &asset(), &sender.get_public_key(), &mut prng).unwrap();
    let abar = oabar.to_anon();
    mt.append(&abar.commitment).unwrap();
    let uid = mt.append(&abar.commitment).unwrap();
    assert_eq!(uid, 1);
    mt.commit();
    let proof = mt.generate_proof(1).unwrap();
    let root = proof.root.clone();
    oabar.update_mt_leaf_info(proof);

    let pre_note =
        init_abar_to_bar_note(&oabar, &sender, &receiver.get_public_key(), &mut prng).unwrap();
    let hash = random_digest(&mut prng);
    let note = finish_abar_to_bar_note(&params, pre_note, &hash).unwrap();
    verify_abar_to_bar_note(&verify_params, &note, &root, &hash).unwrap();

    let err_root = prng.fill(32);
    assert!(verify_abar_to_bar_note(&verify_params, &note, &err_root, &hash).is_err());

    let err_hash = random_digest(&mut prng);
    assert!(verify_abar_to_bar_note(&verify_params, &note, &root, &err_hash).is_err());

    let mut err_nullifier = note;
    err_nullifier.body.input = prng.fill(32);
    assert!(verify_abar_to_bar_note(&verify_params, &err_nullifier, &root, &hash).is_err());

    // check the opened confidential transparent record
    let note = err_nullifier; // body.output and memo are untouched
    let obar = open_record(&note.body.output, &note.body.memo, &receiver).unwrap();
    assert_eq!(obar.amount, AMOUNT);
    assert_eq!(obar.asset_type, asset());
}
