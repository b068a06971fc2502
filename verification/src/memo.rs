//! Owner memos: a sealed box from a sender to a record owner.
//!
//! The sender derives a shared point from an ephemeral scalar and the
//! owner's public key, expands it into a key stream, and masks the payload.
//! The owner derives the same point from the ephemeral public key and the
//! secret scalar.  A memo payload is at most 128 bytes.

use vstd::prelude::*;

verus! {

use crate::bytes::{concat_bytes, sub_bytes, xor_bytes, xor_of};
use crate::curve::{
    draw_scalar, pt_base_mul, pt_base_mul_of, pt_mul, pt_mul_of, pt_ok_of, sha512, sha512_of,
    wf32, RandSource,
};
use crate::errors::Error;

/// The key stream of a shared point: two SHA-512 blocks, domain-separated by
/// a trailing counter byte.
pub open spec fn keystream_of(shared: Seq<u8>) -> Seq<u8> {
    sha512_of(shared.push(0u8)) + sha512_of(shared.push(1u8))
}

/// The payload hidden in a memo sealed to `pk` with ephemeral scalar `eph`.
pub open spec fn memo_plain_of(epk: Seq<u8>, sk: Seq<u8>, ct: Seq<u8>) -> Seq<u8> {
    xor_of(ct, keystream_of(pt_mul_of(epk, sk)).subrange(0, ct.len() as int))
}

/// Opening undoes sealing: when the opener's shared point is the sealer's
/// — the owner holds the secret scalar behind the key the memo was sealed
/// to — unmasking the masked payload returns the payload.
pub proof fn lemma_memo_mask_roundtrip(epk: Seq<u8>, sk: Seq<u8>, payload: Seq<u8>)
    requires
        keystream_of(pt_mul_of(epk, sk)).len() >= payload.len(),
    ensures
        memo_plain_of(
            epk,
            sk,
            xor_of(payload, keystream_of(pt_mul_of(epk, sk)).subrange(0, payload.len() as int)),
        ) == payload,
{
    let ks = keystream_of(pt_mul_of(epk, sk)).subrange(0, payload.len() as int);
    crate::bytes::lemma_xor_involutive(payload, ks);
}

/// A sealed memo: the ephemeral public key and the masked payload.
pub struct OwnerMemo {
    pub epk: Vec<u8>,
    pub ct: Vec<u8>,
}

impl OwnerMemo {
    /// The ephemeral key is a point encoding and the payload fits the
    /// key stream.
    pub open spec fn wf(&self) -> bool {
        wf32(self.epk@) && self.ct@.len() <= 128
    }
}

/// Expands a shared point into a 128-byte key stream.
fn expand_keystream(shared: &Vec<u8>) -> (r: Vec<u8>)
    requires
        wf32(shared@),
    ensures
        r@ == keystream_of(shared@),
        r@.len() == 128,
{
    let mut block0 = shared.clone();
    block0.push(0u8);
    let mut block1 = shared.clone();
    block1.push(1u8);
    let k0 = sha512(&block0);
    let k1 = sha512(&block1);
    concat_bytes(&k0, &k1)
}

/// Seals `payload` to the holder of the secret scalar behind `pk`.  Fails
/// with `InvalidRecord` exactly when `pk` is no valid point encoding.
pub fn seal_memo(pk: &Vec<u8>, payload: &Vec<u8>, rng: &mut RandSource) -> (r: Result<
    OwnerMemo,
    Error,
>)
    requires
        wf32(pk@),
        payload@.len() <= 128,
    ensures
        r is Ok <==> pt_ok_of(pk@),
        r is Err ==> r->Err_0 == Error::InvalidRecord,
        r is Ok ==> ({
            let m = r->Ok_0;
            &&& m.wf()
            &&& m.ct@.len() == payload@.len()
            &&& exists|eph: Seq<u8>|
                {
                    &&& #[trigger] wf32(eph)
                    &&& m.epk@ == pt_base_mul_of(eph)
                    &&& m.ct@ == xor_of(
                        payload@,
                        keystream_of(pt_mul_of(pk@, eph)).subrange(0, payload@.len() as int),
                    )
                }
        }),
{
    let eph = draw_scalar(rng);
    let epk = pt_base_mul(&eph);
    let shared = match pt_mul(pk, &eph) {
        Some(s) => s,
        None => {
            return Err(Error::InvalidRecord);
        },
    };
    let ks = expand_keystream(&shared);
    let ks_prefix = sub_bytes(&ks, 0, payload.len());
    let ct = xor_bytes(payload, &ks_prefix);
    let ghost ephv = eph@;
    let m = OwnerMemo { epk, ct };
    proof {
        assert(wf32(ephv) && m.epk@ == pt_base_mul_of(ephv) && m.ct@ == xor_of(
            payload@,
            keystream_of(pt_mul_of(pk@, ephv)).subrange(0, payload@.len() as int),
        ));
    }
    Ok(m)
}

/// Opens a memo with the owner's secret scalar.  Fails with `InvalidRecord`
/// exactly when the ephemeral key is no valid point encoding.
pub fn open_memo(memo: &OwnerMemo, sk: &Vec<u8>) -> (r: Result<Vec<u8>, Error>)
    requires
        memo.wf(),
        wf32(sk@),
    ensures
        r is Ok <==> pt_ok_of(memo.epk@),
        r is Err ==> r->Err_0 == Error::InvalidRecord,
        r is Ok ==> (r->Ok_0@ == memo_plain_of(memo.epk@, sk@, memo.ct@) && r->Ok_0@.len()
            == memo.ct@.len()),
{
    let shared = match pt_mul(&memo.epk, sk) {
        Some(s) => s,
        None => {
            return Err(Error::InvalidRecord);
        },
    };
    let ks = expand_keystream(&shared);
    let ks_prefix = sub_bytes(&ks, 0, memo.ct.len());
    let plain = xor_bytes(&memo.ct, &ks_prefix);
    Ok(plain)
}

} // verus!
