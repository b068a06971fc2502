//! The record model: open records, anonymous records and nullifiers.
//!
//! An anonymous record is a binding, hiding commitment to
//! `(amount, asset type, owner public key, blinding)`; only the commitment
//! is ever stored on the tree.  A nullifier is a one-way tag of
//! `(owner secret key, slot id, commitment)`, revealed on spend.
//!
//! The commitment and nullifier digests use dedicated key levels above
//! every tree level, so none of the three digest families can collide
//! across domains.

use vstd::prelude::*;

verus! {

use crate::accumulator::{MerklePath, TREE_DEPTH};
use crate::bytes::{be_bytes_of_u64, bytes_eq, concat_bytes, sub_bytes, u64_from_be_bytes,
    u64_to_be_bytes, views_of};
use crate::curve::{draw_scalar, fe_from_bytes, fe_from_bytes_of, fe_from_u64, fe_from_u64_of,
    wf32, RandSource};
use crate::errors::Error;
use crate::keys::KeyPair;
use crate::memo::{memo_plain_of, open_memo, seal_memo, OwnerMemo};
use crate::mimc::{digest_at_of, wf_fe_seq, MiMCHash};

/// The key level of the record-commitment digest: above every tree level.
pub const COMMIT_KEY_LEVEL: u64 = 40;

/// The key level of the nullifier digest.
pub const NULLIFIER_KEY_LEVEL: u64 = 41;

/// The commitment of an open record's contents.
pub open spec fn commitment_of(amount: int, asset: Seq<u8>, pk: Seq<u8>, blinding: Seq<u8>) -> Seq<
    u8,
> {
    digest_at_of(
        COMMIT_KEY_LEVEL as int,
        seq![fe_from_u64_of(amount), fe_from_bytes_of(asset), fe_from_bytes_of(pk), blinding],
    )
}

/// The nullifier of a sealed leaf: a one-way tag of the owner's secret key,
/// the slot id and the commitment.
pub open spec fn nullifier_of(sk: Seq<u8>, uid: int, com: Seq<u8>) -> Seq<u8> {
    digest_at_of(
        NULLIFIER_KEY_LEVEL as int,
        seq![sk, fe_from_u64_of(uid), com],
    )
}

/// An anonymous record: the commitment alone.
pub struct AnonRecord {
    pub commitment: Vec<u8>,
}

impl AnonRecord {
    /// The commitment is a 32-byte scalar encoding.
    pub open spec fn wf(&self) -> bool {
        wf32(self.commitment@)
    }
}

/// An open anonymous record: the plaintext contents of a commitment, and,
/// once known, the membership path of its leaf.
pub struct OpenAnonRecord {
    pub amount: u64,
    pub asset_type: Vec<u8>,
    pub blinding: Vec<u8>,
    pub pub_key: Vec<u8>,
    pub mt_info: Option<MerklePath>,
}

impl OpenAnonRecord {
    /// Fixed-size fields.
    pub open spec fn wf(&self) -> bool {
        &&& wf32(self.asset_type@)
        &&& wf32(self.blinding@)
        &&& wf32(self.pub_key@)
        &&& self.mt_info is Some ==> {
            let p = self.mt_info->0;
            wf_fe_seq(crate::accumulator::siblings_of(p.nodes@)) && wf32(p.root@)
        }
    }

    /// The commitment of this record's contents.
    pub open spec fn commitment_view(&self) -> Seq<u8> {
        commitment_of(self.amount as int, self.asset_type@, self.pub_key@, self.blinding@)
    }

    /// An open record with a fresh blinding, not yet placed on the tree.
    /// Fails with `InvalidRecord` exactly when the asset type or the public
    /// key is not 32 bytes.
    pub fn build(amount: u64, asset_type: &Vec<u8>, pub_key: &Vec<u8>, rng: &mut RandSource) -> (r:
        Result<OpenAnonRecord, Error>)
        ensures
            r is Ok <==> (asset_type@.len() == 32 && pub_key@.len() == 32),
            r is Err ==> r->Err_0 == Error::InvalidRecord,
            r is Ok ==> ({
                let o = r->Ok_0;
                &&& o.wf()
                &&& o.amount == amount
                &&& o.asset_type@ == asset_type@
                &&& o.pub_key@ == pub_key@
                &&& o.mt_info is None
            }),
    {
        if asset_type.len() != 32 || pub_key.len() != 32 {
            return Err(Error::InvalidRecord);
        }
        let blinding = draw_scalar(rng);
        Ok(
            OpenAnonRecord {
                amount,
                asset_type: asset_type.clone(),
                blinding,
                pub_key: pub_key.clone(),
                mt_info: None,
            },
        )
    }

    /// Computes the commitment of this record's contents.
    pub fn commitment(&self) -> (r: Vec<u8>)
        requires
            self.wf(),
        ensures
            r@ == self.commitment_view(),
            wf32(r@),
    {
        let hasher = MiMCHash::new(COMMIT_KEY_LEVEL);
        let mut vals: Vec<Vec<u8>> = Vec::new();
        vals.push(fe_from_u64(self.amount));
        vals.push(fe_from_bytes(&self.asset_type));
        vals.push(fe_from_bytes(&self.pub_key));
        vals.push(self.blinding.clone());
        proof {
            assert(views_of(vals@) =~~= seq![
                fe_from_u64_of(self.amount as int),
                fe_from_bytes_of(self.asset_type@),
                fe_from_bytes_of(self.pub_key@),
                self.blinding@,
            ]);
            assert(wf_fe_seq(views_of(vals@)));
        }
        hasher.digest(&vals)
    }

    /// The anonymous record of this open record.
    pub fn to_anon(&self) -> (r: AnonRecord)
        requires
            self.wf(),
        ensures
            r.commitment@ == self.commitment_view(),
            r.wf(),
    {
        AnonRecord { commitment: self.commitment() }
    }

    /// Attaches the membership path obtained from the accumulator.
    pub fn update_mt_leaf_info(&mut self, path: MerklePath)
        requires
            old(self).wf(),
            wf_fe_seq(crate::accumulator::siblings_of(path.nodes@)),
            wf32(path.root@),
        ensures
            final(self).wf(),
            final(self).mt_info == Some(path),
            final(self).amount == old(self).amount,
            final(self).asset_type == old(self).asset_type,
            final(self).blinding == old(self).blinding,
            final(self).pub_key == old(self).pub_key,
    {
        self.mt_info = Some(path);
    }

    /// The memo that lets the owner reopen this record from its anonymous
    /// form.  Fails with `InvalidRecord` exactly when the owner key is no
    /// valid point encoding.
    pub fn seal_owner_memo(&self, rng: &mut RandSource) -> (r: Result<OwnerMemo, Error>)
        requires
            self.wf(),
        ensures
            r is Ok <==> crate::curve::pt_ok_of(self.pub_key@),
            r is Err ==> r->Err_0 == Error::InvalidRecord,
            r is Ok ==> (r->Ok_0.wf() && r->Ok_0.ct@.len() == 72),
            r is Ok ==> exists|eph: Seq<u8>|
                {
                    &&& #[trigger] wf32(eph)
                    &&& r->Ok_0.epk@ == crate::curve::pt_base_mul_of(eph)
                    &&& r->Ok_0.ct@ == crate::bytes::xor_of(
                        be_bytes_of_u64(self.amount) + self.asset_type@ + self.blinding@,
                        crate::memo::keystream_of(crate::curve::pt_mul_of(self.pub_key@, eph)).subrange(0, 72),
                    )
                },
    {
        let amt = u64_to_be_bytes(self.amount);
        let mut payload = concat_bytes(&amt, &self.asset_type);
        let payload = concat_bytes(&payload, &self.blinding);
        seal_memo(&self.pub_key, &payload, rng)
    }
}

/// Reopens an anonymous record from its memo with the owner's key pair.
/// The decrypted contents are accepted exactly when they recommit to the
/// record's stored commitment; everything else is `InvalidRecord`.
pub fn open_from_memo(abar: &AnonRecord, memo: &OwnerMemo, kp: &KeyPair) -> (r: Result<
    OpenAnonRecord,
    Error,
>)
    requires
        abar.wf(),
        memo.wf(),
        kp.wf(),
    ensures
        r is Err ==> r->Err_0 == Error::InvalidRecord,
        r is Ok <==> (memo.ct@.len() == 72 && crate::curve::pt_ok_of(memo.epk@) && ({
            let plain = memo_plain_of(memo.epk@, kp.sec_view(), memo.ct@);
            exists|a: u64|
                #[trigger] be_bytes_of_u64(a) == plain.subrange(0, 8) && commitment_of(
                    a as int,
                    plain.subrange(8, 40),
                    kp.pub_view(),
                    plain.subrange(40, 72),
                ) == abar.commitment@
        })),
        r is Ok ==> ({
            let o = r->Ok_0;
            &&& o.wf()
            &&& o.pub_key@ == kp.pub_view()
            &&& o.mt_info is None
            &&& o.commitment_view() == abar.commitment@
            &&& ({
                let plain = memo_plain_of(memo.epk@, kp.sec_view(), memo.ct@);
                &&& memo.ct@.len() == 72
                &&& be_bytes_of_u64(o.amount) == plain.subrange(0, 8)
                &&& o.asset_type@ == plain.subrange(8, 40)
                &&& o.blinding@ == plain.subrange(40, 72)
            })
        }),
{
    if memo.ct.len() != 72 {
        return Err(Error::InvalidRecord);
    }
    let sk = kp.get_secret_key();
    let plain = match open_memo(memo, &sk) {
        Ok(p) => p,
        Err(_) => {
            return Err(Error::InvalidRecord);
        },
    };
    let amount = u64_from_be_bytes(&plain, 0);
    let asset_type = sub_bytes(&plain, 8, 40);
    let blinding = sub_bytes(&plain, 40, 72);
    let o = OpenAnonRecord {
        amount,
        asset_type,
        blinding,
        pub_key: kp.get_public_key(),
        mt_info: None,
    };
    let com = o.commitment();
    let ghost pl = memo_plain_of(memo.epk@, kp.sec_view(), memo.ct@);
    if bytes_eq(&com, &abar.commitment) {
        proof {
            assert(be_bytes_of_u64(amount) == pl.subrange(0, 8) && commitment_of(
                amount as int,
                pl.subrange(8, 40),
                kp.pub_view(),
                pl.subrange(40, 72),
            ) == abar.commitment@);
        }
        Ok(o)
    } else {
        proof {
            assert forall|a: u64| !(#[trigger] be_bytes_of_u64(a) == pl.subrange(0, 8)
                && commitment_of(
                a as int,
                pl.subrange(8, 40),
                kp.pub_view(),
                pl.subrange(40, 72),
            ) == abar.commitment@) by {
                if be_bytes_of_u64(a) == pl.subrange(0, 8) {
                    crate::bytes::lemma_be_bytes_of_u64_injective(a, amount);
                }
            }
        }
        Err(Error::InvalidRecord)
    }
}

/// Derives the nullifier of the sealed leaf at `uid` holding `commitment`,
/// for the owner holding `sk`.  A pure function: the same inputs always
/// yield the same tag.
pub fn derive_nullifier(sk: &Vec<u8>, uid: u64, commitment: &Vec<u8>) -> (r: Vec<u8>)
    requires
        wf32(sk@),
        wf32(commitment@),
    ensures
        r@ == nullifier_of(sk@, uid as int, commitment@),
        wf32(r@),
{
    let hasher = MiMCHash::new(NULLIFIER_KEY_LEVEL);
    let mut vals: Vec<Vec<u8>> = Vec::new();
    vals.push(sk.clone());
    vals.push(fe_from_u64(uid));
    vals.push(commitment.clone());
    proof {
        assert(views_of(vals@) =~~= seq![sk@, fe_from_u64_of(uid as int), commitment@]);
        assert(wf_fe_seq(views_of(vals@)));
    }
    hasher.digest(&vals)
}

/// The provable leg of the deposit round trip: when the opener's shared
/// point equals the sealer's — the Diffie-Hellman agreement that holds for
/// the holder of the secret scalar behind the key the memo was sealed to —
/// the memo plaintext decomposes into the sealed amount, asset type and
/// blinding.  Together with the sealed-payload clause of the deposit-note
/// contracts and the acceptance condition of `open_from_memo`, this pins
/// the reopened record to the deposited contents.
pub proof fn lemma_sealed_payload_reopens(
    epk: Seq<u8>,
    sk: Seq<u8>,
    pk: Seq<u8>,
    eph: Seq<u8>,
    amount: u64,
    asset: Seq<u8>,
    blinding: Seq<u8>,
    ct: Seq<u8>,
)
    requires
        asset.len() == 32,
        blinding.len() == 32,
        ct == crate::bytes::xor_of(
            be_bytes_of_u64(amount) + asset + blinding,
            crate::memo::keystream_of(crate::curve::pt_mul_of(pk, eph)).subrange(0, 72),
        ),
        crate::curve::pt_mul_of(epk, sk) == crate::curve::pt_mul_of(pk, eph),
        crate::memo::keystream_of(crate::curve::pt_mul_of(pk, eph)).len() >= 72,
    ensures
        ({
            let plain = memo_plain_of(epk, sk, ct);
            &&& plain.subrange(0, 8) == be_bytes_of_u64(amount)
            &&& plain.subrange(8, 40) == asset
            &&& plain.subrange(40, 72) == blinding
        }),
{
    let payload = be_bytes_of_u64(amount) + asset + blinding;
    assert(payload.len() == 72);
    assert(ct.len() == 72);
    crate::memo::lemma_memo_mask_roundtrip(epk, sk, payload);
    assert(memo_plain_of(epk, sk, ct) == payload);
    assert(payload.subrange(0, 8) =~= be_bytes_of_u64(amount));
    assert(payload.subrange(8, 40) =~= asset);
    assert(payload.subrange(40, 72) =~= blinding);
}

/// Deriving the nullifier is deterministic: the tag is a function of
/// `(secret key, slot id, commitment)` alone, so any two results of
/// `derive_nullifier` — each equal to `nullifier_of` of its inputs, by its
/// contract — agree whenever the inputs agree.
pub proof fn lemma_nullifier_deterministic(
    sk: Seq<u8>,
    uid: int,
    com: Seq<u8>,
    first: Seq<u8>,
    second: Seq<u8>,
)
    requires
        first == nullifier_of(sk, uid, com),
        second == nullifier_of(sk, uid, com),
    ensures
        first == second,
{
}

/// Computing the commitment is deterministic and pure: any two results of
/// `commitment` over the same contents — each equal to `commitment_of` of
/// those contents, by its contract — agree.
pub proof fn lemma_commitment_deterministic(
    amount: int,
    asset: Seq<u8>,
    pk: Seq<u8>,
    blinding: Seq<u8>,
    first: Seq<u8>,
    second: Seq<u8>,
)
    requires
        first == commitment_of(amount, asset, pk, blinding),
        second == commitment_of(amount, asset, pk, blinding),
    ensures
        first == second,
{
}

} // verus!
