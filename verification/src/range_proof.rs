//! Trusted boundary to the bulletproofs range-proof crate.
//!
//! The confidential transaction commits amounts with the crate's default
//! Pedersen generators and proves each committed value lies in a 32-bit
//! range.  Proof generation is randomized and batch verification draws
//! random combination scalars, so nothing beyond the commitment values is
//! named: the logic above treats the verifier's answer as an outside
//! decision.

use vstd::prelude::*;

verus! {

use crate::curve::{pt_ok_of, wf32};

/// Compressed bytes of the bulletproofs default Pedersen commitment
/// `v * B + b * B_blinding`, a function of value and blinding alone.
pub uninterp spec fn ped_bp_of(v: int, b: Seq<u8>) -> Seq<u8>;

/// Relies on bulletproofs `PedersenGens::default().commit`: the commitment
/// to a value under a blinding scalar, compressed; compressed group
/// elements decompress again.
#[verifier::external_body]
pub fn ped_bp_commit(value: u64, blind: &Vec<u8>) -> (r: Vec<u8>)
    requires
        wf32(blind@),
    ensures
        r@ == ped_bp_of(value as int, blind@),
        wf32(r@),
        pt_ok_of(r@),
{
    let b = curve25519_dalek_ng::scalar::Scalar::from_bytes_mod_order(
        blind.as_slice().try_into().unwrap(),
    );
    let v = curve25519_dalek_ng::scalar::Scalar::from(value);
    bulletproofs::PedersenGens::default().commit(v, b).compress().to_bytes().to_vec()
}

/// Relies on bulletproofs `RangeProof::prove_multiple` over a fresh
/// transcript with the transfer domain label, for two 32-bit values: on success the
/// returned commitments are the default-generator Pedersen commitments of
/// the values under the given blindings.  The proof bytes are randomized;
/// nothing is promised of them.
#[verifier::external_body]
pub fn range_prove_pair(v1: u32, v2: u32, b1: &Vec<u8>, b2: &Vec<u8>) -> (r: Option<
    (Vec<u8>, Vec<u8>, Vec<u8>),
>)
    requires
        wf32(b1@),
        wf32(b2@),
    ensures
        r is Some ==> ({
            let (pf, c1, c2) = r->0;
            &&& c1@ == ped_bp_of(v1 as int, b1@)
            &&& c2@ == ped_bp_of(v2 as int, b2@)
            &&& wf32(c1@)
            &&& wf32(c2@)
            &&& pt_ok_of(c1@)
            &&& pt_ok_of(c2@)
        }),
{
    let s1 = curve25519_dalek_ng::scalar::Scalar::from_bytes_mod_order(b1.as_slice().try_into().unwrap());
    let s2 = curve25519_dalek_ng::scalar::Scalar::from_bytes_mod_order(b2.as_slice().try_into().unwrap());
    let mut transcript = merlin::Transcript::new(b"Zei Range Proof");
    let gens = (bulletproofs::BulletproofGens::new(32, 2), bulletproofs::PedersenGens::default());
    let values = [v1 as u64, v2 as u64];
    let (proof, comms) = bulletproofs::RangeProof::prove_multiple(
        &gens.0, &gens.1, &mut transcript, &values, &[s1, s2], 32,
    ).ok()?;
    Some((proof.to_bytes(), comms[0].to_bytes().to_vec(), comms[1].to_bytes().to_vec()))
}

/// Relies on bulletproofs `RangeProof::verify_multiple` over a fresh
/// transcript with the transfer domain label: accepts or rejects the proof against
/// the two commitments.  Batch verification draws random scalars, so the
/// answer is treated as an outside decision and nothing is promised of it.
#[verifier::external_body]
pub fn range_verify_pair(proof: &Vec<u8>, c1: &Vec<u8>, c2: &Vec<u8>) -> (r: bool)
    requires
        wf32(c1@),
        wf32(c2@),
{
    let parsed = match bulletproofs::RangeProof::from_bytes(proof.as_slice()) {
        Ok(p) => p,
        Err(_) => return false,
    };
    let p1 = curve25519_dalek_ng::ristretto::CompressedRistretto(c1.as_slice().try_into().unwrap());
    let p2 = curve25519_dalek_ng::ristretto::CompressedRistretto(c2.as_slice().try_into().unwrap());
    let mut transcript = merlin::Transcript::new(b"Zei Range Proof");
    let gens = (bulletproofs::BulletproofGens::new(32, 2), bulletproofs::PedersenGens::default());
    parsed.verify_multiple(&gens.0, &gens.1, &mut transcript, &[p1, p2], 32).is_ok()
}

} // verus!
