//! ElGamal encryption over the Ristretto group.
//!
//! A ciphertext is the pair `(r * G, m * G + r * pk)`.  Verification that a
//! ciphertext encrypts a claimed scalar, and partial decryption to `m * G`,
//! are stated exactly over the group operations.

use vstd::prelude::*;

verus! {

use crate::bytes::{bytes_eq, concat_bytes, sub_bytes};
use crate::curve::{draw_scalar, pt_add, pt_add_of, pt_base_mul, pt_base_mul_of, pt_check,
    pt_mul, pt_mul_of, pt_ok_of, pt_sub, pt_sub_of, wf32, RandSource};
use crate::errors::Error;

/// An ElGamal encryption key: `pk = sk * G`, as a compressed point.
#[derive(Clone, Debug, PartialEq, Eq, Hash)]
pub struct ElGamalEncKey(pub Vec<u8>);

impl ElGamalEncKey {
    /// The held point bytes.
    pub fn get_point(&self) -> (r: Vec<u8>)
        ensures
            r@ == self.0@,
    {
        self.0.clone()
    }

    /// A reference to the held point bytes.
    pub fn get_point_ref(&self) -> (r: &Vec<u8>)
        ensures
            r@ == self.0@,
    {
        &self.0
    }
}

/// An ElGamal decryption key: the secret scalar.
#[derive(Debug, PartialEq, Eq)]
pub struct ElGamalDecKey(pub(crate) Vec<u8>);

impl ElGamalDecKey {
    /// The held scalar bytes, as a specification value.
    pub closed spec fn sk_view(&self) -> Seq<u8> {
        self.0@
    }

    /// The held scalar bytes.
    pub fn scalar_bytes(&self) -> (r: Vec<u8>)
        ensures
            r@ == self.sk_view(),
    {
        self.0.clone()
    }
}

/// An ElGamal ciphertext: `e1 = r * G`, `e2 = m * G + r * pk`.
#[derive(Clone, Debug, PartialEq, Eq)]
pub struct ElGamalCiphertext {
    pub e1: Vec<u8>,
    pub e2: Vec<u8>,
}

impl ElGamalCiphertext {
    /// Both halves are 32 bytes.
    pub open spec fn wf(&self) -> bool {
        wf32(self.e1@) && wf32(self.e2@)
    }

    /// The 64-byte wire form: `e1` then `e2`.
    pub fn zei_to_bytes(&self) -> (r: Vec<u8>)
        ensures
            r@ == self.e1@ + self.e2@,
    {
        concat_bytes(&self.e1, &self.e2)
    }

    /// Reads the wire form back.  Fails with `DeserializationError` exactly
    /// when the length is wrong or a half does not decompress.
    pub fn zei_from_bytes(bytes: &Vec<u8>) -> (r: Result<ElGamalCiphertext, Error>)
        ensures
            r is Ok <==> (bytes@.len() == 64 && pt_ok_of(bytes@.subrange(0, 32)) && pt_ok_of(
                bytes@.subrange(32, 64),
            )),
            r is Err ==> r->Err_0 == Error::DeserializationError,
            r is Ok ==> (r->Ok_0.e1@ == bytes@.subrange(0, 32) && r->Ok_0.e2@ == bytes@.subrange(
                32,
                64,
            ) && r->Ok_0.wf()),
    {
        if bytes.len() != 64 {
            return Err(Error::DeserializationError);
        }
        let e1 = sub_bytes(bytes, 0, 32);
        let e2 = sub_bytes(bytes, 32, 64);
        if !pt_check(&e1) || !pt_check(&e2) {
            return Err(Error::DeserializationError);
        }
        Ok(ElGamalCiphertext { e1, e2 })
    }
}

/// Returns an ElGamal key pair as `(sk, pk = sk * G)`.
pub fn elgamal_key_gen(rng: &mut RandSource) -> (r: (ElGamalDecKey, ElGamalEncKey))
    ensures
        r.1.0@ == pt_base_mul_of(r.0.sk_view()),
        wf32(r.0.sk_view()),
        wf32(r.1.0@),
        pt_ok_of(r.1.0@),
{
    let sk = draw_scalar(rng);
    let pk = pt_base_mul(&sk);
    (ElGamalDecKey(sk), ElGamalEncKey(pk))
}

/// Returns the ciphertext `(r * G, m * G + r * pk)`.  Fails with
/// `DeserializationError` exactly when the key is no valid point encoding.
pub fn elgamal_encrypt(m: &Vec<u8>, r: &Vec<u8>, pub_key: &ElGamalEncKey) -> (res: Result<
    ElGamalCiphertext,
    Error,
>)
    requires
        wf32(m@),
        wf32(r@),
        wf32(pub_key.0@),
    ensures
        res is Ok <==> pt_ok_of(pub_key.0@),
        res is Err ==> res->Err_0 == Error::DeserializationError,
        res is Ok ==> ({
            let c = res->Ok_0;
            &&& c.e1@ == pt_base_mul_of(r@)
            &&& c.e2@ == pt_add_of(pt_base_mul_of(m@), pt_mul_of(pub_key.0@, r@))
            &&& c.wf()
        }),
{
    let e1 = pt_base_mul(r);
    let mg = pt_base_mul(m);
    let shared = match pt_mul(&pub_key.0, r) {
        Some(s) => s,
        None => {
            return Err(Error::DeserializationError);
        },
    };
    let e2 = match pt_add(&mg, &shared) {
        Some(s) => s,
        None => {
            proof {
                assert(false);
            }
            mg
        },
    };
    Ok(ElGamalCiphertext { e1, e2 })
}

/// Verifies that the ciphertext encrypts `m` by checking
/// `m * G + e1 * sk == e2`.  Fails with `ElGamalVerificationError` when the
/// equation does not hold, and with `DeserializationError` when a half does
/// not decompress.
pub fn elgamal_verify(m: &Vec<u8>, ctext: &ElGamalCiphertext, sec_key: &ElGamalDecKey) -> (r:
    Result<(), Error>)
    requires
        wf32(m@),
        ctext.wf(),
        wf32(sec_key.sk_view()),
    ensures
        r is Ok <==> (pt_ok_of(ctext.e1@) && pt_add_of(
            pt_base_mul_of(m@),
            pt_mul_of(ctext.e1@, sec_key.sk_view()),
        ) == ctext.e2@),
        r is Err ==> (r->Err_0 == Error::DeserializationError || r->Err_0
            == Error::ElGamalVerificationError),
        r is Err ==> (r->Err_0 == Error::DeserializationError <==> !pt_ok_of(ctext.e1@)),
{
    let mg = pt_base_mul(m);
    let masked = match pt_mul(&ctext.e1, &sec_key.0) {
        Some(s) => s,
        None => {
            return Err(Error::DeserializationError);
        },
    };
    let lhs = match pt_add(&mg, &masked) {
        Some(s) => s,
        None => {
            proof {
                assert(false);
            }
            mg
        },
    };
    if bytes_eq(&lhs, &ctext.e2) {
        Ok(())
    } else {
        Err(Error::ElGamalVerificationError)
    }
}

/// Performs a partial decryption: returns `m * G == e2 - e1 * sk`.  Fails
/// with `DeserializationError` exactly when a half does not decompress.
pub fn elgamal_partial_decrypt(ctext: &ElGamalCiphertext, sec_key: &ElGamalDecKey) -> (r: Result<
    Vec<u8>,
    Error,
>)
    requires
        ctext.wf(),
        wf32(sec_key.sk_view()),
    ensures
        r is Ok <==> (pt_ok_of(ctext.e1@) && pt_ok_of(ctext.e2@)),
        r is Err ==> r->Err_0 == Error::DeserializationError,
        r is Ok ==> r->Ok_0@ == pt_sub_of(ctext.e2@, pt_mul_of(ctext.e1@, sec_key.sk_view())),
{
    let masked = match pt_mul(&ctext.e1, &sec_key.0) {
        Some(s) => s,
        None => {
            return Err(Error::DeserializationError);
        },
    };
    match pt_sub(&ctext.e2, &masked) {
        Some(s) => Ok(s),
        None => Err(Error::DeserializationError),
    }
}

} // verus!
