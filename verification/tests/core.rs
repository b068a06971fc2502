use anon_xfr::accumulator::{verify_path, Accumulator, TREE_DEPTH};
use anon_xfr::backend::{ProverParams, VerifierParams};
use anon_xfr::curve::RandSource;
use anon_xfr::errors::Error;
use anon_xfr::keys::{verify_signature, KeyPair};
use anon_xfr::mimc::MiMCHash;
use anon_xfr::notes::{
    finish_abar_to_ar_note, gen_bar_to_abar_note, init_abar_to_ar_note, verify_abar_to_ar_note,
};
use anon_xfr::accumulator::compute_leaf_hash;
use anon_xfr::records::{derive_nullifier, OpenAnonRecord};
use anon_xfr::transparent::{build_blind_record, open_record};

fn seeded_rng(seed: u8) -> RandSource {
    RandSource::from_seed(&vec![seed; 32])
}

fn asset() -> Vec<u8> {
    vec![1u8; 32]
}

#[test]
fn nullifier_is_deterministic_and_slot_sensitive() {
    let mut prng = seeded_rng(5);
    let sk = anon_xfr::curve::draw_scalar(&mut prng);
    let com = anon_xfr::curve::draw_scalar(&mut prng);

    let n1 = derive_nullifier(&sk, 7, &com);
    let n2 = derive_nullifier(&sk, 7, &com);
    assert_eq!(n1, n2);

    let n3 = derive_nullifier(&sk, 8, &com);
    assert_ne!(n1, n3);
}

#[test]
fn commitment_is_deterministic() {
    let mut prng = seeded_rng(6);
    let kp = KeyPair::generate(&mut prng);
    let o = OpenAnonRecord::build(42, &asset(), &kp.get_public_key(), &mut prng).unwrap();
    assert_eq!(o.commitment(), o.commitment());

    let o2 = OpenAnonRecord::build(42, &asset(), &kp.get_public_key(), &mut prng).unwrap();
    // a fresh blinding gives a different commitment
    assert_ne!(o.commitment(), o2.commitment());
}

#[test]
fn proof_generation_needs_a_commit() {
    let mut prng = seeded_rng(7);
    let kp = KeyPair::generate(&mut prng);
    let o = OpenAnonRecord::build(3, &asset(), &kp.get_public_key(), &mut prng).unwrap();
    let com = o.commitment();

    let mut mt = Accumulator::new();
    let uid = mt.append(&com).unwrap();
    assert_eq!(uid, 0);

    // appended but not sealed: no membership proof yet
    assert_eq!(mt.generate_proof(uid).err().unwrap(), Error::NotFound);
    // never appended at all
    assert_eq!(mt.generate_proof(17).err().unwrap(), Error::NotFound);

    let version = mt.commit();
    assert_eq!(version, 0);
    let path = mt.generate_proof(uid).unwrap();
    assert_eq!(path.uid, uid);
    assert_eq!(path.root_version, 0);
    assert_eq!(path.nodes.len(), TREE_DEPTH);

    let leaf = compute_leaf_hash(uid, &com);
    assert!(verify_path(&leaf, &path));

    // the path certifies only its own leaf
    let other = compute_leaf_hash(1, &com);
    assert!(!verify_path(&other, &path));
}

#[test]
fn roots_advance_with_each_commit() {
    let mut prng = seeded_rng(8);
    let kp = KeyPair::generate(&mut prng);
    let o = OpenAnonRecord::build(5, &asset(), &kp.get_public_key(), &mut prng).unwrap();

    let mut mt = Accumulator::new();
    mt.append(&o.commitment()).unwrap();
    let v0 = mt.commit();
    let r0 = mt.root_at(v0).unwrap();
    mt.append(&o.commitment()).unwrap();
    let v1 = mt.commit();
    let r1 = mt.root_at(v1).unwrap();

    assert_eq!(v0, 0);
    assert_eq!(v1, 1);
    assert_eq!(mt.version_count(), 2);
    // the historical root stays queryable and differs from the new one
    assert_eq!(mt.root_at(0).unwrap(), r0);
    assert_ne!(r0, r1);
    assert!(mt.root_at(2).is_none());
}

#[test]
fn mimc_digest_is_keyed_per_level() {
    let h0 = MiMCHash::new(0);
    let h1 = MiMCHash::new(1);
    let vals = vec![vec![2u8; 32], vec![3u8; 32]];
    let d0 = h0.digest(&vals);
    let d1 = h1.digest(&vals);
    assert_eq!(d0.len(), 32);
    // the same values digest differently under different level keys
    assert_ne!(d0, d1);
    // and identically under the same key
    assert_eq!(h0.digest(&vals), d0);

    let dr = h0.digest_root(2, &vals);
    assert_ne!(dr, d0);
}

#[test]
fn signatures_bind_key_and_message() {
    let mut prng = seeded_rng(9);
    let kp = KeyPair::generate(&mut prng);
    let other = KeyPair::generate(&mut prng);
    let msg = b"transfer body".to_vec();

    let sig = kp.sign(&msg, &mut prng);
    assert!(verify_signature(&kp.get_public_key(), &msg, &sig));
    assert!(!verify_signature(&other.get_public_key(), &msg, &sig));
    let msg2 = b"transfer bodx".to_vec();
    assert!(!verify_signature(&kp.get_public_key(), &msg2, &sig));
}

#[test]
fn construction_reports_each_refusal() {
    let mut prng = seeded_rng(10);
    let sender = KeyPair::generate(&mut prng);
    let receiver = KeyPair::generate(&mut prng);

    // an anonymous input without a membership path
    let oabar =
        OpenAnonRecord::build(9, &asset(), &sender.get_public_key(), &mut prng).unwrap();
    assert_eq!(
        init_abar_to_ar_note(&oabar, &sender, &receiver.get_public_key())
            .err()
            .unwrap(),
        Error::MissingMerkleInfo
    );

    // a record the caller does not own
    let mut mt = Accumulator::new();
    let mut oabar =
        OpenAnonRecord::build(9, &asset(), &sender.get_public_key(), &mut prng).unwrap();
    mt.append(&oabar.commitment()).unwrap();
    mt.commit();
    oabar.update_mt_leaf_info(mt.generate_proof(0).unwrap());
    assert_eq!(
        init_abar_to_ar_note(&oabar, &receiver, &receiver.get_public_key())
            .err()
            .unwrap(),
        Error::InvalidRecord
    );

    // parameters of the wrong flow refuse to prove
    let pre = init_abar_to_ar_note(&oabar, &sender, &receiver.get_public_key()).unwrap();
    let wrong_params = ProverParams::bar_to_abar_params();
    assert_eq!(
        finish_abar_to_ar_note(&wrong_params, pre, &vec![0u8; 32])
            .err()
            .unwrap(),
        Error::ProverFailure
    );

    // a digest of the wrong size is malformed
    let pre = init_abar_to_ar_note(&oabar, &sender, &receiver.get_public_key()).unwrap();
    let params = ProverParams::abar_to_ar_params(TREE_DEPTH as u64);
    assert_eq!(
        finish_abar_to_ar_note(&params, pre, &vec![0u8; 31])
            .err()
            .unwrap(),
        Error::MalformedBody
    );

    // a deposit of an opening that does not match its record
    let (bar, memo, _) = build_blind_record(
        10,
        &asset(),
        &sender.get_public_key(),
        true,
        &mut prng,
    )
    .unwrap();
    let mut obar = open_record(&bar, &memo, &sender).unwrap();
    obar.amount += 1;
    let dep_params = ProverParams::bar_to_abar_params();
    assert_eq!(
        gen_bar_to_abar_note(
            &obar,
            &sender,
            &receiver.get_public_key(),
            &dep_params,
            &mut prng
        )
        .err()
        .unwrap(),
        Error::InvalidRecord
    );
}

#[test]
fn verification_reports_each_refusal() {
    let mut prng = seeded_rng(11);
    let sender = KeyPair::generate(&mut prng);
    let receiver = KeyPair::generate(&mut prng);

    let mut mt = Accumulator::new();
    let mut oabar =
        OpenAnonRecord::build(25, &asset(), &sender.get_public_key(), &mut prng).unwrap();
    mt.append(&oabar.commitment()).unwrap();
    mt.commit();
    let proof = mt.generate_proof(0).unwrap();
    let root = proof.root.clone();
    oabar.update_mt_leaf_info(proof);

    let params = ProverParams::abar_to_ar_params(TREE_DEPTH as u64);
    let verify_params = VerifierParams::abar_to_ar_params(TREE_DEPTH as u64);
    let pre = init_abar_to_ar_note(&oabar, &sender, &receiver.get_public_key()).unwrap();
    let digest = vec![7u8; 32];
    let note = finish_abar_to_ar_note(&params, pre, &digest).unwrap();

    assert!(verify_abar_to_ar_note(&verify_params, &note, &root, &digest).is_ok());

    // a different expected digest
    assert_eq!(
        verify_abar_to_ar_note(&verify_params, &note, &root, &vec![8u8; 32])
            .err()
            .unwrap(),
        Error::DigestMismatch
    );

    // a different expected root
    assert_eq!(
        verify_abar_to_ar_note(&verify_params, &note, &vec![9u8; 32], &digest)
            .err()
            .unwrap(),
        Error::RootMismatch
    );

    // a flipped proof bit
    let mut tampered = note;
    tampered.body.proof[0] ^= 1;
    assert_eq!(
        verify_abar_to_ar_note(&verify_params, &tampered, &root, &digest)
            .err()
            .unwrap(),
        Error::ProofInvalid
    );

    // a truncated nullifier is malformed
    let mut malformed = tampered;
    malformed.body.proof[0] ^= 1; // restore the proof
    malformed.body.input = vec![1u8; 31];
    assert_eq!(
        verify_abar_to_ar_note(&verify_params, &malformed, &root, &digest)
            .err()
            .unwrap(),
        Error::MalformedBody
    );
}

#[test]
fn deposit_then_withdraw_returns_the_contents() {
    let mut prng = seeded_rng(12);
    let holder = KeyPair::generate(&mut prng);
    let anon_owner = KeyPair::generate(&mut prng);
    let final_owner = KeyPair::generate(&mut prng);

    // deposit: a clear transparent record becomes an anonymous record
    let (bar, memo, _) = build_blind_record(
        10,
        &asset(),
        &holder.get_public_key(),
        false,
        &mut prng,
    )
    .unwrap();
    let obar = open_record(&bar, &memo, &holder).unwrap();
    let dep_params = ProverParams::ar_to_abar_params();
    let dep_note = anon_xfr::notes::gen_ar_to_abar_note(
        &obar,
        &holder,
        &anon_owner.get_public_key(),
        &dep_params,
        &mut prng,
    )
    .unwrap();

    // the anonymous owner reopens the record from its memo
    let mut oabar =
        anon_xfr::records::open_from_memo(&dep_note.body.output, &dep_note.body.memo, &anon_owner)
            .unwrap();
    assert_eq!(oabar.amount, 10);
    assert_eq!(oabar.asset_type, asset());

    // register it on the tree and withdraw it to a clear record
    let mut mt = Accumulator::new();
    let uid = mt.append(&oabar.commitment()).unwrap();
    mt.commit();
    let proof = mt.generate_proof(uid).unwrap();
    let root = proof.root.clone();
    oabar.update_mt_leaf_info(proof);

    let params = ProverParams::abar_to_ar_params(TREE_DEPTH as u64);
    let verify_params = VerifierParams::abar_to_ar_params(TREE_DEPTH as u64);
    let pre = init_abar_to_ar_note(&oabar, &anon_owner, &final_owner.get_public_key()).unwrap();
    let digest = prng.fill(32);
    let note = finish_abar_to_ar_note(&params, pre, &digest).unwrap();
    verify_abar_to_ar_note(&verify_params, &note, &root, &digest).unwrap();

    // the withdrawn record shows the original contents
    let opened = open_record(&note.body.output, &note.body.memo, &final_owner).unwrap();
    assert_eq!(opened.amount, 10);
    assert_eq!(opened.asset_type, asset());
}
