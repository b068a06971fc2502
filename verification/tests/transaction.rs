use anon_xfr::curve::{draw_scalar, pt_add, RandSource};
use anon_xfr::errors::Error;
use anon_xfr::keys::KeyPair;
use anon_xfr::range_proof::ped_bp_commit;
use anon_xfr::transaction::{receiver_verify, validator_verify, Transaction, TxInfo};

fn seeded_rng(seed: u8) -> RandSource {
    RandSource::from_seed(&vec![seed; 32])
}

fn make_tx(
    prng: &mut RandSource,
    receiver: &KeyPair,
    sender_asset_value: u64,
    receiver_asset_value: u64,
    balance: u32,
    amount: u32,
    confidential: bool,
) -> (Transaction, TxInfo, Vec<u8>, Vec<u8>) {
    let account_blind = draw_scalar(prng);
    let sender_asset_opening = draw_scalar(prng);
    let receiver_asset_opening = draw_scalar(prng);
    let sender_asset_commitment = ped_bp_commit(sender_asset_value, &sender_asset_opening);
    let receiver_asset_commitment = ped_bp_commit(receiver_asset_value, &receiver_asset_opening);
    let tx_info = TxInfo {
        receiver_pk: receiver.get_public_key(),
        receiver_asset_commitment: receiver_asset_commitment.clone(),
        receiver_asset_opening,
        sender_asset_commitment: sender_asset_commitment.clone(),
        sender_asset_opening,
        transfer_amount: amount,
    };
    let (tx, _updated_blind) =
        Transaction::new(&tx_info, balance, &account_blind, confidential, prng).unwrap();
    let sender_prev_com = ped_bp_commit(balance as u64, &account_blind);
    (tx, tx_info, sender_prev_com, account_blind)
}

#[test]
fn confidential_asset_transaction_validates() {
    let mut prng = seeded_rng(21);
    let receiver = KeyPair::generate(&mut prng);

    // both sides commit to the same asset: the validator accepts
    let (tx, tx_info, sender_prev_com, _) =
        make_tx(&mut prng, &receiver, 7, 7, 10000, 100, true);
    assert!(validator_verify(
        &tx,
        &sender_prev_com,
        &tx_info.sender_asset_commitment,
        &tx_info.receiver_asset_commitment,
    ));

    // the sides commit to different assets: the validator refuses
    let (tx, tx_info, sender_prev_com, _) =
        make_tx(&mut prng, &receiver, 7, 8, 10000, 100, true);
    assert!(!validator_verify(
        &tx,
        &sender_prev_com,
        &tx_info.sender_asset_commitment,
        &tx_info.receiver_asset_commitment,
    ));
}

#[test]
fn non_confidential_asset_transaction_validates() {
    let mut prng = seeded_rng(22);
    let receiver = KeyPair::generate(&mut prng);

    let (tx, tx_info, sender_prev_com, _) =
        make_tx(&mut prng, &receiver, 3, 3, 10000, 100, false);
    // in the non-confidential case the asset arguments are plain digests
    assert!(validator_verify(
        &tx,
        &sender_prev_com,
        &tx_info.sender_asset_commitment,
        &tx_info.sender_asset_commitment,
    ));
    // different digests are refused
    assert!(!validator_verify(
        &tx,
        &sender_prev_com,
        &tx_info.sender_asset_commitment,
        &tx_info.receiver_asset_commitment,
    ));
}

#[test]
fn wrong_previous_balance_is_refused() {
    let mut prng = seeded_rng(23);
    let receiver = KeyPair::generate(&mut prng);
    let (tx, tx_info, _, _) = make_tx(&mut prng, &receiver, 7, 7, 10000, 100, true);
    let wrong_prev = ped_bp_commit(9999, &draw_scalar(&mut prng));
    assert!(!validator_verify(
        &tx,
        &wrong_prev,
        &tx_info.sender_asset_commitment,
        &tx_info.receiver_asset_commitment,
    ));
}

#[test]
fn receiver_recovers_and_checks_the_transfer() {
    let mut prng = seeded_rng(24);
    let receiver = KeyPair::generate(&mut prng);
    let (tx, _, _, _) = make_tx(&mut prng, &receiver, 7, 7, 10000, 100, true);

    let (amount, blind) = tx.recover_plaintext(&receiver).unwrap();
    assert_eq!(amount, 100);

    // the recovered blinding opens the transferred-amount commitment
    let old_blind = draw_scalar(&mut prng);
    let old_commit = ped_bp_commit(50, &old_blind);
    let new_commit = pt_add(&tx.transaction_commitment, &old_commit).unwrap();
    assert!(receiver_verify(amount, &blind, &new_commit, &old_commit));
    assert!(!receiver_verify(amount + 1, &blind, &new_commit, &old_commit));

    // a stranger cannot open the box with a wrong key; the contents then
    // fail the commitment check above
    let stranger = KeyPair::generate(&mut prng);
    let recovered = tx.recover_plaintext(&stranger);
    match recovered {
        Ok((amt, bl)) => {
            assert!(!receiver_verify(amt, &bl, &new_commit, &old_commit));
        }
        Err(e) => assert_eq!(e, Error::InvalidRecord),
    }
}
