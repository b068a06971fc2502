//! Transparent records: asset holdings outside the anonymity tree.
//!
//! A transparent record shows its amount and asset type either in the clear
//! or hidden behind Pedersen commitments, with a sealed memo that lets the
//! owner reopen the hidden form.  `open_record` recovers the plaintext
//! contents and accepts them exactly when they recommit to the record.

use vstd::prelude::*;

verus! {

use crate::bytes::{be_bytes_of_u64, bytes_eq, concat_bytes, make_zero32, sub_bytes,
    u64_from_be_bytes, u64_to_be_bytes, zero32};
use crate::curve::{fe_from_bytes, fe_from_bytes_of, fe_from_u64, fe_from_u64_of, pt_add,
    pt_add_of, pt_base_mul, pt_base_mul_of, pt_from_uniform, pt_from_uniform_of, pt_mul,
    pt_mul_of, pt_ok_of, sha512, sha512_of, wf32, draw_scalar, RandSource};
use crate::errors::Error;
use crate::keys::KeyPair;
use crate::memo::{memo_plain_of, open_memo, seal_memo, OwnerMemo};

/// The second Pedersen generator: a point of unknown discrete logarithm,
/// derived by hashing a fixed label to the group.
pub open spec fn ped_h_of() -> Seq<u8> {
    pt_from_uniform_of(sha512_of(zero32()))
}

/// The Pedersen commitment to an amount under a blinding scalar.
pub open spec fn ped_amount_of(v: int, b: Seq<u8>) -> Seq<u8> {
    pt_add_of(pt_base_mul_of(fe_from_u64_of(v)), pt_mul_of(ped_h_of(), b))
}

/// The Pedersen commitment to an asset type under a blinding scalar.
pub open spec fn ped_asset_of(asset: Seq<u8>, b: Seq<u8>) -> Seq<u8> {
    pt_add_of(pt_base_mul_of(fe_from_bytes_of(asset)), pt_mul_of(ped_h_of(), b))
}

/// The second Pedersen generator.
pub fn ped_h() -> (r: Vec<u8>)
    ensures
        r@ == ped_h_of(),
        wf32(r@),
        pt_ok_of(r@),
{
    pt_from_uniform(&sha512(&make_zero32()))
}

/// Commits to an amount under a blinding scalar.
pub fn ped_commit_amount(v: u64, b: &Vec<u8>) -> (r: Vec<u8>)
    requires
        wf32(b@),
    ensures
        r@ == ped_amount_of(v as int, b@),
        wf32(r@),
        pt_ok_of(r@),
{
    let h = ped_h();
    let a = pt_base_mul(&fe_from_u64(v));
    let t = match pt_mul(&h, b) {
        Some(t) => t,
        None => {
            proof {
                assert(false);
            }
            h
        },
    };
    match pt_add(&a, &t) {
        Some(r) => r,
        None => {
            proof {
                assert(false);
            }
            a
        },
    }
}

/// Commits to an asset type under a blinding scalar.
pub fn ped_commit_asset(asset: &Vec<u8>, b: &Vec<u8>) -> (r: Vec<u8>)
    requires
        wf32(asset@),
        wf32(b@),
    ensures
        r@ == ped_asset_of(asset@, b@),
        wf32(r@),
        pt_ok_of(r@),
{
    let h = ped_h();
    let a = pt_base_mul(&fe_from_bytes(asset));
    let t = match pt_mul(&h, b) {
        Some(t) => t,
        None => {
            proof {
                assert(false);
            }
            h
        },
    };
    match pt_add(&a, &t) {
        Some(r) => r,
        None => {
            proof {
                assert(false);
            }
            a
        },
    }
}

/// An amount, visible or committed.
#[derive(Clone)]
pub enum AmountInfo {
    Clear(u64),
    Hidden(Vec<u8>),
}

/// An asset type, visible or committed.
#[derive(Clone)]
pub enum AssetInfo {
    Clear(Vec<u8>),
    Hidden(Vec<u8>),
}

/// A transparent record as published: amount and asset type, each in the
/// clear or as a Pedersen commitment, and the owner's public key.
pub struct BlindRecord {
    pub amount: AmountInfo,
    pub asset: AssetInfo,
    pub pub_key: Vec<u8>,
}

impl BlindRecord {
    /// Fixed sizes of every field.
    pub open spec fn wf(&self) -> bool {
        &&& wf32(self.pub_key@)
        &&& match self.amount {
            AmountInfo::Clear(_) => true,
            AmountInfo::Hidden(c) => wf32(c@),
        }
        &&& match self.asset {
            AssetInfo::Clear(t) => wf32(t@),
            AssetInfo::Hidden(c) => wf32(c@),
        }
    }

    /// Both sides hidden.
    pub open spec fn is_confidential(&self) -> bool {
        self.amount is Hidden && self.asset is Hidden
    }

    /// Both sides visible.
    pub open spec fn is_clear(&self) -> bool {
        self.amount is Clear && self.asset is Clear
    }

    /// The two records publish the same bytes: equal variants with equal
    /// contents.
    pub open spec fn same_as(&self, o: &BlindRecord) -> bool {
        &&& self.pub_key@ == o.pub_key@
        &&& match (self.amount, o.amount) {
            (AmountInfo::Clear(a), AmountInfo::Clear(b)) => a == b,
            (AmountInfo::Hidden(a), AmountInfo::Hidden(b)) => a@ == b@,
            _ => false,
        }
        &&& match (self.asset, o.asset) {
            (AssetInfo::Clear(a), AssetInfo::Clear(b)) => a@ == b@,
            (AssetInfo::Hidden(a), AssetInfo::Hidden(b)) => a@ == b@,
            _ => false,
        }
    }
}

/// The canonical byte encoding of a transparent record, used in statements
/// and signatures: a one-byte tag before each side, then the owner key.
pub open spec fn record_bytes_of(rec: BlindRecord) -> Seq<u8> {
    (match rec.amount {
        AmountInfo::Clear(v) => seq![0u8] + be_bytes_of_u64(v),
        AmountInfo::Hidden(c) => seq![1u8] + c@,
    }) + (match rec.asset {
        AssetInfo::Clear(t) => seq![0u8] + t@,
        AssetInfo::Hidden(c) => seq![1u8] + c@,
    }) + rec.pub_key@
}

/// Writes the canonical byte encoding of a record.
pub fn record_bytes(rec: &BlindRecord) -> (r: Vec<u8>)
    ensures
        r@ == record_bytes_of(*rec),
{
    let mut amt: Vec<u8> = Vec::new();
    match &rec.amount {
        AmountInfo::Clear(v) => {
            amt.push(0u8);
            let b = u64_to_be_bytes(*v);
            let t = concat_bytes(&amt, &b);
            amt = t;
        },
        AmountInfo::Hidden(c) => {
            amt.push(1u8);
            let t = concat_bytes(&amt, c);
            amt = t;
        },
    }
    let mut ast: Vec<u8> = Vec::new();
    match &rec.asset {
        AssetInfo::Clear(t) => {
            ast.push(0u8);
            let t2 = concat_bytes(&ast, t);
            ast = t2;
        },
        AssetInfo::Hidden(c) => {
            ast.push(1u8);
            let t2 = concat_bytes(&ast, c);
            ast = t2;
        },
    }
    let head = concat_bytes(&amt, &ast);
    let r = concat_bytes(&head, &rec.pub_key);
    proof {
        assert(seq![0u8].push(0u8) == seq![0u8, 0u8]);
        assert(r@ =~= record_bytes_of(*rec));
    }
    r
}

/// The plaintext contents of a transparent record, as its owner holds them.
pub struct OpenRecord {
    pub amount: u64,
    pub asset_type: Vec<u8>,
    pub amount_blind: Vec<u8>,
    pub asset_blind: Vec<u8>,
    pub pub_key: Vec<u8>,
    pub record: BlindRecord,
}

impl OpenRecord {
    /// Fixed sizes, and the embedded record carries the same owner key.
    pub open spec fn wf(&self) -> bool {
        &&& wf32(self.asset_type@)
        &&& wf32(self.amount_blind@)
        &&& wf32(self.asset_blind@)
        &&& wf32(self.pub_key@)
        &&& self.record.wf()
        &&& self.record.pub_key@ == self.pub_key@
    }

    /// The contents recommit to the embedded record: visible sides match
    /// outright, hidden sides match under the held blindings.
    pub open spec fn consistent(&self) -> bool {
        &&& match self.record.amount {
            AmountInfo::Clear(v) => v == self.amount,
            AmountInfo::Hidden(c) => c@ == ped_amount_of(self.amount as int, self.amount_blind@),
        }
        &&& match self.record.asset {
            AssetInfo::Clear(t) => t@ == self.asset_type@,
            AssetInfo::Hidden(c) => c@ == ped_asset_of(self.asset_type@, self.asset_blind@),
        }
    }
}

/// Copies a record field by field; the copy publishes the same bytes.
pub fn clone_record(rec: &BlindRecord) -> (r: BlindRecord)
    ensures
        r.same_as(rec),
        rec.wf() ==> r.wf(),
{
    let amount = match &rec.amount {
        AmountInfo::Clear(v) => AmountInfo::Clear(*v),
        AmountInfo::Hidden(c) => AmountInfo::Hidden(c.clone()),
    };
    let asset = match &rec.asset {
        AssetInfo::Clear(t) => AssetInfo::Clear(t.clone()),
        AssetInfo::Hidden(c) => AssetInfo::Hidden(c.clone()),
    };
    BlindRecord { amount, asset, pub_key: rec.pub_key.clone() }
}

/// Recomputes the commitments of an open record and compares them with its
/// embedded record: the executable form of `consistent`.
pub fn check_open_record(o: &OpenRecord) -> (r: bool)
    requires
        o.wf(),
    ensures
        r == o.consistent(),
{
    let amount_ok = match &o.record.amount {
        AmountInfo::Clear(v) => *v == o.amount,
        AmountInfo::Hidden(c) => {
            let c2 = ped_commit_amount(o.amount, &o.amount_blind);
            bytes_eq(&c2, c)
        },
    };
    if !amount_ok {
        return false;
    }
    match &o.record.asset {
        AssetInfo::Clear(t) => bytes_eq(t, &o.asset_type),
        AssetInfo::Hidden(c) => {
            let c2 = ped_commit_asset(&o.asset_type, &o.asset_blind);
            bytes_eq(&c2, c)
        },
    }
}

/// Builds a transparent record owned by `pub_key`.  A confidential record
/// hides both sides behind fresh Pedersen blindings and carries a sealed
/// memo for the owner; a clear record shows both sides and needs none.
/// Fails with `InvalidRecord` exactly when a field has the wrong size or,
/// for a confidential record, the owner key is no valid point encoding.
pub fn build_blind_record(
    amount: u64,
    asset_type: &Vec<u8>,
    pub_key: &Vec<u8>,
    confidential: bool,
    rng: &mut RandSource,
) -> (r: Result<(BlindRecord, Option<OwnerMemo>, OpenRecord), Error>)
    ensures
        r is Ok <==> (asset_type@.len() == 32 && pub_key@.len() == 32 && (confidential
            ==> pt_ok_of(pub_key@))),
        r is Err ==> r->Err_0 == Error::InvalidRecord,
        r is Ok ==> ({
            let (rec, memo, open) = r->Ok_0;
            &&& rec.wf()
            &&& open.wf()
            &&& open.consistent()
            &&& open.amount == amount
            &&& open.asset_type@ == asset_type@
            &&& open.pub_key@ == pub_key@
            &&& open.record.same_as(&rec)
            &&& rec.pub_key@ == pub_key@
            &&& (confidential ==> rec.is_confidential() && memo is Some && memo->0.wf()
                && memo->0.ct@.len() == 104)
            &&& (!confidential ==> rec.is_clear() && rec.amount->Clear_0 == amount
                && rec.asset->Clear_0@ == asset_type@ && memo is None)
        }),
{
    if asset_type.len() != 32 || pub_key.len() != 32 {
        return Err(Error::InvalidRecord);
    }
    if confidential {
        let ab = draw_scalar(rng);
        let asb = draw_scalar(rng);
        let ca = ped_commit_amount(amount, &ab);
        let cs = ped_commit_asset(asset_type, &asb);
        let rec = BlindRecord {
            amount: AmountInfo::Hidden(ca.clone()),
            asset: AssetInfo::Hidden(cs.clone()),
            pub_key: pub_key.clone(),
        };
        let amt = u64_to_be_bytes(amount);
        let mut payload = concat_bytes(&amt, &ab);
        let payload2 = concat_bytes(&payload, asset_type);
        let payload3 = concat_bytes(&payload2, &asb);
        let memo = match seal_memo(pub_key, &payload3, rng) {
            Ok(m) => m,
            Err(e) => {
                return Err(e);
            },
        };
        let open = OpenRecord {
            amount,
            asset_type: asset_type.clone(),
            amount_blind: ab,
            asset_blind: asb,
            pub_key: pub_key.clone(),
            record: BlindRecord {
                amount: AmountInfo::Hidden(ca),
                asset: AssetInfo::Hidden(cs),
                pub_key: pub_key.clone(),
            },
        };
        Ok((rec, Some(memo), open))
    } else {
        let rec = BlindRecord {
            amount: AmountInfo::Clear(amount),
            asset: AssetInfo::Clear(asset_type.clone()),
            pub_key: pub_key.clone(),
        };
        let open = OpenRecord {
            amount,
            asset_type: asset_type.clone(),
            amount_blind: make_zero32(),
            asset_blind: make_zero32(),
            pub_key: pub_key.clone(),
            record: BlindRecord {
                amount: AmountInfo::Clear(amount),
                asset: AssetInfo::Clear(asset_type.clone()),
                pub_key: pub_key.clone(),
            },
        };
        Ok((rec, None, open))
    }
}

/// Opens a transparent record for its owner.  A clear record opens
/// outright; a confidential one is opened through its memo, and the
/// decrypted contents are accepted exactly when they recommit to the
/// record's commitments.  Everything else is `InvalidRecord`.
pub fn open_record(rec: &BlindRecord, memo: &Option<OwnerMemo>, kp: &KeyPair) -> (r: Result<
    OpenRecord,
    Error,
>)
    requires
        rec.wf(),
        kp.wf(),
        memo is Some ==> memo->0.wf(),
    ensures
        r is Err ==> r->Err_0 == Error::InvalidRecord,
        rec.pub_key@ != kp.pub_view() ==> r is Err,
        (rec.is_clear() && rec.pub_key@ == kp.pub_view()) ==> (r is Ok && ({
            let o = r->Ok_0;
            &&& o.amount == rec.amount->Clear_0
            &&& o.asset_type@ == rec.asset->Clear_0@
            &&& o.pub_key@ == kp.pub_view()
            &&& o.record.same_as(rec)
        })),
        r is Ok ==> ({
            let o = r->Ok_0;
            &&& o.wf()
            &&& o.consistent()
            &&& o.record.same_as(rec)
            &&& o.pub_key@ == kp.pub_view()
        }),
        (rec.is_confidential() && rec.pub_key@ == kp.pub_view()) ==> (r is Ok <==> (memo is Some
            && memo->0.ct@.len() == 104 && pt_ok_of(memo->0.epk@) && ({
            let plain = memo_plain_of(memo->0.epk@, kp.sec_view(), memo->0.ct@);
            exists|a: u64|
                #[trigger] be_bytes_of_u64(a) == plain.subrange(0, 8) && rec.amount->Hidden_0@
                    == ped_amount_of(a as int, plain.subrange(8, 40)) && rec.asset->Hidden_0@
                    == ped_asset_of(plain.subrange(40, 72), plain.subrange(72, 104))
        }))),
        (!rec.is_clear() && !rec.is_confidential()) ==> r is Err,
        (rec.is_confidential() && r is Ok) ==> ({
            let o = r->Ok_0;
            let plain = memo_plain_of(memo->0.epk@, kp.sec_view(), memo->0.ct@);
            &&& be_bytes_of_u64(o.amount) == plain.subrange(0, 8)
            &&& o.amount_blind@ == plain.subrange(8, 40)
            &&& o.asset_type@ == plain.subrange(40, 72)
            &&& o.asset_blind@ == plain.subrange(72, 104)
        }),
{
    let pk = kp.get_public_key();
    if !bytes_eq(&rec.pub_key, &pk) {
        return Err(Error::InvalidRecord);
    }
    match (&rec.amount, &rec.asset) {
        (AmountInfo::Clear(v), AssetInfo::Clear(t)) => {
            let o = OpenRecord {
                amount: *v,
                asset_type: t.clone(),
                amount_blind: make_zero32(),
                asset_blind: make_zero32(),
                pub_key: pk,
                record: BlindRecord {
                    amount: AmountInfo::Clear(*v),
                    asset: AssetInfo::Clear(t.clone()),
                    pub_key: rec.pub_key.clone(),
                },
            };
            Ok(o)
        },
        (AmountInfo::Hidden(ca), AssetInfo::Hidden(cs)) => {
            let m = match memo {
                Some(m) => m,
                None => {
                    return Err(Error::InvalidRecord);
                },
            };
            if m.ct.len() != 104 {
                return Err(Error::InvalidRecord);
            }
            let sk = kp.get_secret_key();
            let plain = match open_memo(m, &sk) {
                Ok(p) => p,
                Err(_) => {
                    return Err(Error::InvalidRecord);
                },
            };
            let amount = u64_from_be_bytes(&plain, 0);
            let ab = sub_bytes(&plain, 8, 40);
            let asset_type = sub_bytes(&plain, 40, 72);
            let asb = sub_bytes(&plain, 72, 104);
            let ca2 = ped_commit_amount(amount, &ab);
            let cs2 = ped_commit_asset(&asset_type, &asb);
            let ghost pl = memo_plain_of(m.epk@, kp.sec_view(), m.ct@);
            if !bytes_eq(&ca2, ca) || !bytes_eq(&cs2, cs) {
                proof {
                    assert forall|a: u64| !(#[trigger] be_bytes_of_u64(a) == pl.subrange(0, 8)
                        && rec.amount->Hidden_0@ == ped_amount_of(a as int, pl.subrange(8, 40))
                        && rec.asset->Hidden_0@ == ped_asset_of(
                        pl.subrange(40, 72),
                        pl.subrange(72, 104),
                    )) by {
                        if be_bytes_of_u64(a) == pl.subrange(0, 8) {
                            crate::bytes::lemma_be_bytes_of_u64_injective(a, amount);
                        }
                    }
                }
                return Err(Error::InvalidRecord);
            }
            proof {
                assert(be_bytes_of_u64(amount) == pl.subrange(0, 8) && rec.amount->Hidden_0@
                    == ped_amount_of(amount as int, pl.subrange(8, 40)) && rec.asset->Hidden_0@
                    == ped_asset_of(pl.subrange(40, 72), pl.subrange(72, 104)));
            }
            let o = OpenRecord {
                amount,
                asset_type,
                amount_blind: ab,
                asset_blind: asb,
                pub_key: pk,
                record: BlindRecord {
                    amount: AmountInfo::Hidden(ca.clone()),
                    asset: AssetInfo::Hidden(cs.clone()),
                    pub_key: rec.pub_key.clone(),
                },
            };
            Ok(o)
        },
        _ => Err(Error::InvalidRecord),
    }
}

} // verus!
