//! Key pairs and signatures over the Ristretto group.
//!
//! A signature binds a message to the signer's public key: the verifier
//! recomputes a challenge scalar from the commitment point, the public key
//! and the message, and checks one group equation.  The check is a pure
//! function of `(public key, message, signature)`.

use vstd::prelude::*;

verus! {

use crate::bytes::{bytes_eq, concat_bytes};
use crate::curve::{
    draw_scalar, fe_add, fe_add_of, fe_mul, fe_mul_of, fe_reduce_wide, fe_reduce_wide_of,
    pt_add, pt_add_of, pt_base_mul, pt_base_mul_of, pt_mul, pt_mul_of, pt_ok_of, sha512,
    sha512_of, wf32, RandSource,
};

/// The challenge scalar: the wide reduction of the SHA-512 digest of the
/// commitment point, the public key and the message.
pub open spec fn challenge_of(big_r: Seq<u8>, pk: Seq<u8>, msg: Seq<u8>) -> Seq<u8> {
    fe_reduce_wide_of(sha512_of(big_r + pk + msg))
}

/// Whether a signature checks for a public key and a message: both encodings
/// decompress and `s * B == R + challenge * P`.
pub open spec fn sig_checks_of(pk: Seq<u8>, msg: Seq<u8>, big_r: Seq<u8>, s: Seq<u8>) -> bool {
    &&& pt_ok_of(pk)
    &&& pt_ok_of(big_r)
    &&& pt_base_mul_of(s) == pt_add_of(big_r, pt_mul_of(pk, challenge_of(big_r, pk, msg)))
}

/// A signature: a commitment point and a response scalar.
pub struct Signature {
    pub big_r: Vec<u8>,
    pub s: Vec<u8>,
}

impl Signature {
    /// Both parts are 32 bytes.
    pub open spec fn wf(&self) -> bool {
        wf32(self.big_r@) && wf32(self.s@)
    }
}

/// A key pair: a secret scalar and its public point.
pub struct KeyPair {
    sec: Vec<u8>,
    pub_key: Vec<u8>,
}

impl KeyPair {
    /// The public key bytes.
    pub closed spec fn pub_view(&self) -> Seq<u8> {
        self.pub_key@
    }

    /// The secret scalar bytes.
    pub closed spec fn sec_view(&self) -> Seq<u8> {
        self.sec@
    }

    /// The public key is the base-point multiple of the secret scalar.
    pub closed spec fn wf(&self) -> bool {
        &&& wf32(self.sec@)
        &&& self.pub_key@ == pt_base_mul_of(self.sec@)
        &&& wf32(self.pub_key@)
        &&& pt_ok_of(self.pub_key@)
    }

    /// Draws a fresh key pair.
    pub fn generate(rng: &mut RandSource) -> (r: KeyPair)
        ensures
            r.wf(),
    {
        let sec = draw_scalar(rng);
        let pub_key = pt_base_mul(&sec);
        KeyPair { sec, pub_key }
    }

    /// The public key, to hand to senders.
    pub fn get_public_key(&self) -> (r: Vec<u8>)
        ensures
            r@ == self.pub_view(),
            self.wf() ==> (wf32(r@) && pt_ok_of(r@) && r@ == pt_base_mul_of(self.sec_view())),
    {
        self.pub_key.clone()
    }

    /// The secret scalar, for nullifier derivation and memo opening.
    pub fn get_secret_key(&self) -> (r: Vec<u8>)
        ensures
            r@ == self.sec_view(),
            self.wf() ==> wf32(r@),
    {
        self.sec.clone()
    }

    /// Signs a message: commits to a fresh scalar and responds to the
    /// challenge it induces.
    pub fn sign(&self, msg: &Vec<u8>, rng: &mut RandSource) -> (r: Signature)
        requires
            self.wf(),
        ensures
            r.wf(),
            exists|nonce: Seq<u8>|
                {
                    &&& #[trigger] wf32(nonce)
                    &&& r.big_r@ == pt_base_mul_of(nonce)
                    &&& r.s@ == fe_add_of(
                        nonce,
                        fe_mul_of(challenge_of(pt_base_mul_of(nonce), self.pub_view(), msg@), self.sec_view()),
                    )
                },
    {
        let nonce = draw_scalar(rng);
        let big_r = pt_base_mul(&nonce);
        let mut to_hash = concat_bytes(&big_r, &self.pub_key);
        let to_hash = concat_bytes(&to_hash, msg);
        let e = fe_reduce_wide(&sha512(&to_hash));
        let s = fe_add(&nonce, &fe_mul(&e, &self.sec));
        let ghost noncev = nonce@;
        let r = Signature { big_r, s };
        proof {
            assert(wf32(noncev) && r.big_r@ == pt_base_mul_of(noncev) && r.s@ == fe_add_of(
                noncev,
                fe_mul_of(challenge_of(pt_base_mul_of(noncev), self.pub_view(), msg@), self.sec_view()),
            ));
        }
        r
    }
}

/// Checks a signature against a public key and a message: recomputes the
/// challenge and compares `s * B` with `R + challenge * P`.
pub fn verify_signature(pk: &Vec<u8>, msg: &Vec<u8>, sig: &Signature) -> (r: bool)
    requires
        wf32(pk@),
        sig.wf(),
    ensures
        r == sig_checks_of(pk@, msg@, sig.big_r@, sig.s@),
{
    let mut to_hash = concat_bytes(&sig.big_r, pk);
    let to_hash = concat_bytes(&to_hash, msg);
    let e = fe_reduce_wide(&sha512(&to_hash));
    let lhs = pt_base_mul(&sig.s);
    let t = match pt_mul(pk, &e) {
        Some(t) => t,
        None => {
            return false;
        },
    };
    let rhs = match pt_add(&sig.big_r, &t) {
        Some(rhs) => rhs,
        None => {
            return false;
        },
    };
    bytes_eq(&lhs, &rhs)
}

} // verus!
