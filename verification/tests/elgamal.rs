use anon_xfr::curve::{fe_from_u64, RandSource};
use anon_xfr::elgamal::{
    elgamal_encrypt, elgamal_key_gen, elgamal_partial_decrypt, elgamal_verify, ElGamalCiphertext,
};
use anon_xfr::errors::Error;

fn seeded_rng() -> RandSource {
    RandSource::from_seed(&vec![0u8; 32])
}

#[test]
fn verify() {
    let mut prng = seeded_rng();
    let (secret_key, public_key) = elgamal_key_gen(&mut prng);

    let m = fe_from_u64(100);
    let r = anon_xfr::curve::draw_scalar(&mut prng);
    let ctext = elgamal_encrypt(&m, &r, &public_key).unwrap();
    assert!(elgamal_verify(&m, &ctext, &secret_key).is_ok());

    let wrong_m = fe_from_u64(99);
    let err = elgamal_verify(&wrong_m, &ctext, &secret_key).err().unwrap();
    assert_eq!(Error::ElGamalVerificationError, err);
}

#[test]
fn decrypt() {
    let mut prng = seeded_rng();
    let (secret_key, public_key) = elgamal_key_gen(&mut prng);

    let mu32 = 100u64;
    let m = fe_from_u64(mu32);
    let r = anon_xfr::curve::draw_scalar(&mut prng);
    let ctext = elgamal_encrypt(&m, &r, &public_key).unwrap();
    assert!(elgamal_verify(&m, &ctext, &secret_key).is_ok());

    let m = fe_from_u64(u64::MAX);
    let ctext = elgamal_encrypt(&m, &r, &public_key).unwrap();
    assert!(elgamal_verify(&m, &ctext, &secret_key).is_ok());

    let decrypted = elgamal_partial_decrypt(&ctext, &secret_key).unwrap();
    let expected = elgamal_encrypt(&m, &fe_from_u64(0), &public_key).unwrap();
    // m * G equals a fresh encryption of m with randomness zero, up to the
    // zero mask: e2 of that ciphertext is m * G + 0 * pk.
    assert_eq!(decrypted, expected.e2);
}

#[test]
fn ciphertext_wire_form_round_trips() {
    let mut prng = seeded_rng();
    let (_, public_key) = elgamal_key_gen(&mut prng);
    let m = fe_from_u64(7);
    let r = anon_xfr::curve::draw_scalar(&mut prng);
    let ctext = elgamal_encrypt(&m, &r, &public_key).unwrap();

    let bytes = ctext.zei_to_bytes();
    assert_eq!(bytes.len(), 64);
    let back = ElGamalCiphertext::zei_from_bytes(&bytes).unwrap();
    assert_eq!(back.e1, ctext.e1);
    assert_eq!(back.e2, ctext.e2);

    let short = vec![1u8; 63];
    assert_eq!(
        ElGamalCiphertext::zei_from_bytes(&short).err().unwrap(),
        Error::DeserializationError
    );
    let garbage = vec![255u8; 64];
    assert_eq!(
        ElGamalCiphertext::zei_from_bytes(&garbage).err().unwrap(),
        Error::DeserializationError
    );
}
