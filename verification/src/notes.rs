//! The four note protocols: deposits of transparent records into the
//! anonymity tree, and withdrawals of anonymous records back out.
//!
//! A deposit note carries the spent transparent record, the new anonymous
//! record, its owner memo, and a proof binding them; the address-owned
//! variant adds the sender's signature over the statement.  A withdrawal
//! note reveals a nullifier, names a sealed root, and carries the new
//! transparent record; it is built in two phases so that a late-arriving
//! digest can be bound into the statement before the proving step.
//!
//! Each verification function returns exactly the verdict of a spec-level
//! check function over the note's contents, so tampering consequences are
//! provable from the contracts alone.

use vstd::prelude::*;

verus! {

use crate::accumulator::{compute_leaf_hash, dirs_of, fold_path_of, leaf_hash_of, siblings_of,
    verify_path, TREE_DEPTH};
use crate::backend::{proof_of, FlowKind, ProverParams, VerifierParams};
use crate::bytes::{be_bytes_of_u64, bytes_eq, concat_bytes, u64_to_be_bytes, xor_of};
use crate::curve::{fe_add_of, fe_mul_of, pt_base_mul_of, pt_mul_of, pt_ok_of, wf32, RandSource};
use crate::errors::Error;
use crate::keys::{challenge_of, sig_checks_of, KeyPair, Signature};
use crate::memo::{keystream_of, OwnerMemo};
use crate::records::{commitment_of, derive_nullifier, nullifier_of, AnonRecord, OpenAnonRecord};
use crate::transparent::{check_open_record, record_bytes, record_bytes_of, AmountInfo,
    AssetInfo, BlindRecord, OpenRecord};

// ---------------------------------------------------------------------------
// Statements
// ---------------------------------------------------------------------------

/// The public statement of a deposit: the spent transparent record, the new
/// commitment, and the owner memo.
pub open spec fn deposit_statement_of(input: BlindRecord, com: Seq<u8>, memo: OwnerMemo) -> Seq<
    u8,
> {
    record_bytes_of(input) + com + memo.epk@ + memo.ct@
}

/// The public statement of a withdrawal: the nullifier, the sealed root and
/// its version, the new transparent record, and the bound digest.
pub open spec fn withdraw_statement_of(
    nullifier: Seq<u8>,
    root: Seq<u8>,
    version: u64,
    output: BlindRecord,
    extra: Seq<u8>,
) -> Seq<u8> {
    nullifier + root + be_bytes_of_u64(version) + record_bytes_of(output) + extra
}

/// Writes a deposit statement.
fn deposit_statement(input: &BlindRecord, com: &Vec<u8>, memo: &OwnerMemo) -> (r: Vec<u8>)
    ensures
        r@ == deposit_statement_of(*input, com@, *memo),
{
    let rb = record_bytes(input);
    let a = concat_bytes(&rb, com);
    let b = concat_bytes(&a, &memo.epk);
    let r = concat_bytes(&b, &memo.ct);
    proof {
        assert(r@ =~= deposit_statement_of(*input, com@, *memo));
    }
    r
}

/// Writes a withdrawal statement.
fn withdraw_statement(
    nullifier: &Vec<u8>,
    root: &Vec<u8>,
    version: u64,
    output: &BlindRecord,
    extra: &Vec<u8>,
) -> (r: Vec<u8>)
    ensures
        r@ == withdraw_statement_of(nullifier@, root@, version, *output, extra@),
{
    let a = concat_bytes(nullifier, root);
    let v = u64_to_be_bytes(version);
    let b = concat_bytes(&a, &v);
    let rb = record_bytes(output);
    let c = concat_bytes(&b, &rb);
    let r = concat_bytes(&c, extra);
    proof {
        assert(r@ =~= withdraw_statement_of(nullifier@, root@, version, *output, extra@));
    }
    r
}

// ---------------------------------------------------------------------------
// Deposit notes: transparent to anonymous
// ---------------------------------------------------------------------------

/// The body of a deposit note.
pub struct DepositBody {
    pub input: BlindRecord,
    pub output: AnonRecord,
    pub memo: OwnerMemo,
    pub proof: Vec<u8>,
}

/// A deposit note from a confidential transparent record, signed by the
/// sender.
pub struct BarToAbarNote {
    pub body: DepositBody,
    pub signature: Signature,
}

/// A deposit note from a clear transparent record.
pub struct ArToAbarNote {
    pub body: DepositBody,
}

impl DepositBody {
    /// Fixed sizes of every field.
    pub open spec fn wf(&self) -> bool {
        &&& self.input.wf()
        &&& wf32(self.output.commitment@)
        &&& self.memo.wf()
        &&& self.memo.ct@.len() == 72
        &&& wf32(self.proof@)
    }

    /// The statement this body publishes.
    pub open spec fn statement(&self) -> Seq<u8> {
        deposit_statement_of(self.input, self.output.commitment@, self.memo)
    }
}

/// Builds a deposit note spending an opened confidential transparent record
/// into a fresh anonymous record owned by `abar_pk`.  Fails with
/// `ProverFailure` when the parameters are for another flow, and with
/// `InvalidRecord` when the opening is inconsistent, the record is not
/// confidential, the sender does not own it, or a key is unusable.
pub fn gen_bar_to_abar_note(
    obar: &OpenRecord,
    sender_kp: &KeyPair,
    abar_pk: &Vec<u8>,
    params: &ProverParams,
    rng: &mut RandSource,
) -> (r: Result<BarToAbarNote, Error>)
    requires
        obar.wf(),
        sender_kp.wf(),
        params.wf(),
    ensures
        r is Ok <==> (params.flow_of() == FlowKind::BarToAbar && obar.consistent()
            && obar.record.is_confidential() && obar.pub_key@ == sender_kp.pub_view()
            && abar_pk@.len() == 32 && pt_ok_of(abar_pk@)),
        r is Err ==> (r->Err_0 == Error::ProverFailure <==> params.flow_of()
            != FlowKind::BarToAbar),
        r is Err ==> (r->Err_0 == Error::ProverFailure || r->Err_0 == Error::InvalidRecord),
        r is Ok ==> ({
            let note = r->Ok_0;
            &&& note.body.wf()
            &&& note.signature.wf()
            &&& note.body.input.same_as(&obar.record)
            &&& exists|b: Seq<u8>|
                {
                    &&& #[trigger] wf32(b)
                    &&& note.body.output.commitment@ == commitment_of(
                        obar.amount as int,
                        obar.asset_type@,
                        abar_pk@,
                        b,
                    )
                    &&& exists|eph: Seq<u8>|
                        {
                            &&& #[trigger] wf32(eph)
                            &&& note.body.memo.epk@ == pt_base_mul_of(eph)
                            &&& note.body.memo.ct@ == xor_of(
                                be_bytes_of_u64(obar.amount) + obar.asset_type@ + b,
                                keystream_of(pt_mul_of(abar_pk@, eph)).subrange(0, 72),
                            )
                        }
                }
            &&& note.body.proof@ == proof_of(
                FlowKind::BarToAbar,
                params.depth_of(),
                note.body.statement(),
            )
            &&& exists|nonce: Seq<u8>|
                {
                    &&& #[trigger] wf32(nonce)
                    &&& note.signature.big_r@ == pt_base_mul_of(nonce)
                    &&& note.signature.s@ == fe_add_of(
                        nonce,
                        fe_mul_of(
                            challenge_of(
                                pt_base_mul_of(nonce),
                                sender_kp.pub_view(),
                                note.body.statement() + note.body.proof@,
                            ),
                            sender_kp.sec_view(),
                        ),
                    )
                }
        }),
{
    if !params.is_flow(FlowKind::BarToAbar) {
        return Err(Error::ProverFailure);
    }
    if !check_open_record(obar) {
        return Err(Error::InvalidRecord);
    }
    let confidential = match (&obar.record.amount, &obar.record.asset) {
        (AmountInfo::Hidden(_), AssetInfo::Hidden(_)) => true,
        _ => false,
    };
    if !confidential {
        return Err(Error::InvalidRecord);
    }
    let sender_pk = sender_kp.get_public_key();
    if !bytes_eq(&obar.pub_key, &sender_pk) {
        return Err(Error::InvalidRecord);
    }
    let oabar = match OpenAnonRecord::build(obar.amount, &obar.asset_type, abar_pk, rng) {
        Ok(o) => o,
        Err(e) => {
            return Err(e);
        },
    };
    let memo = match oabar.seal_owner_memo(rng) {
        Ok(m) => m,
        Err(e) => {
            return Err(e);
        },
    };
    let com = oabar.commitment();
    let input = crate::transparent::clone_record(&obar.record);
    let stmt = deposit_statement(&input, &com, &memo);
    let proof_bytes = params.prove(&stmt);
    let msg = concat_bytes(&stmt, &proof_bytes);
    let signature = sender_kp.sign(&msg, rng);
    let body = DepositBody { input, output: AnonRecord { commitment: com }, memo, proof: proof_bytes };
    let note = BarToAbarNote { body, signature };
    proof {
        assert(note.body.statement() == stmt@);
        assert(msg@ == note.body.statement() + note.body.proof@);
        let b = oabar.blinding@;
        assert(oabar.amount == obar.amount && oabar.asset_type@ == obar.asset_type@
            && oabar.pub_key@ == abar_pk@ && oabar.blinding@ == b);
    }
    Ok(note)
}

/// The verdict of checking a deposit note from a confidential record: body
/// shape, then the proof against the statement, then the sender's signature
/// over statement and proof.
pub open spec fn bar_to_abar_check_of(
    flow: FlowKind,
    depth: int,
    note: BarToAbarNote,
    sender_pk: Seq<u8>,
) -> Result<(), Error> {
    if !(note.body.wf() && note.body.input.is_confidential()) {
        Err(Error::MalformedBody)
    } else if note.body.proof@ != proof_of(flow, depth, note.body.statement()) {
        Err(Error::ProofInvalid)
    } else if !sig_checks_of(
        sender_pk,
        note.body.statement() + note.body.proof@,
        note.signature.big_r@,
        note.signature.s@,
    ) {
        Err(Error::SignatureInvalid)
    } else {
        Ok(())
    }
}

/// Checks a deposit note from a confidential record against the sender's
/// public key.
pub fn verify_bar_to_abar_note(
    params: &VerifierParams,
    note: &BarToAbarNote,
    sender_pk: &Vec<u8>,
) -> (r: Result<(), Error>)
    requires
        params.wf(),
        wf32(sender_pk@),
        note.signature.wf(),
    ensures
        r == bar_to_abar_check_of(params.flow_of(), params.depth_of(), *note, sender_pk@),
{
    let shape_ok = note.body.input.pub_key.len() == 32 && (match &note.body.input.amount {
        AmountInfo::Clear(_) => false,
        AmountInfo::Hidden(c) => c.len() == 32,
    }) && (match &note.body.input.asset {
        AssetInfo::Clear(_) => false,
        AssetInfo::Hidden(c) => c.len() == 32,
    }) && note.body.output.commitment.len() == 32 && note.body.memo.epk.len() == 32
        && note.body.memo.ct.len() == 72 && note.body.proof.len() == 32;
    if !shape_ok {
        return Err(Error::MalformedBody);
    }
    let stmt = deposit_statement(&note.body.input, &note.body.output.commitment, &note.body.memo);
    if !params.verify(&note.body.proof, &stmt) {
        return Err(Error::ProofInvalid);
    }
    let msg = concat_bytes(&stmt, &note.body.proof);
    if !crate::keys::verify_signature(sender_pk, &msg, &note.signature) {
        return Err(Error::SignatureInvalid);
    }
    Ok(())
}

/// Builds a deposit note spending an opened clear transparent record into a
/// fresh anonymous record.  As `gen_bar_to_abar_note`, for the clear
/// variant, and without a signature.
pub fn gen_ar_to_abar_note(
    obar: &OpenRecord,
    sender_kp: &KeyPair,
    abar_pk: &Vec<u8>,
    params: &ProverParams,
    rng: &mut RandSource,
) -> (r: Result<ArToAbarNote, Error>)
    requires
        obar.wf(),
        sender_kp.wf(),
        params.wf(),
    ensures
        r is Ok <==> (params.flow_of() == FlowKind::ArToAbar && obar.consistent()
            && obar.record.is_clear() && obar.pub_key@ == sender_kp.pub_view() && abar_pk@.len()
            == 32 && pt_ok_of(abar_pk@)),
        r is Err ==> (r->Err_0 == Error::ProverFailure <==> params.flow_of()
            != FlowKind::ArToAbar),
        r is Err ==> (r->Err_0 == Error::ProverFailure || r->Err_0 == Error::InvalidRecord),
        r is Ok ==> ({
            let note = r->Ok_0;
            &&& note.body.wf()
            &&& note.body.input.same_as(&obar.record)
            &&& exists|b: Seq<u8>|
                {
                    &&& #[trigger] wf32(b)
                    &&& note.body.output.commitment@ == commitment_of(
                        obar.amount as int,
                        obar.asset_type@,
                        abar_pk@,
                        b,
                    )
                    &&& exists|eph: Seq<u8>|
                        {
                            &&& #[trigger] wf32(eph)
                            &&& note.body.memo.epk@ == pt_base_mul_of(eph)
                            &&& note.body.memo.ct@ == xor_of(
                                be_bytes_of_u64(obar.amount) + obar.asset_type@ + b,
                                keystream_of(pt_mul_of(abar_pk@, eph)).subrange(0, 72),
                            )
                        }
                }
            &&& note.body.proof@ == proof_of(
                FlowKind::ArToAbar,
                params.depth_of(),
                note.body.statement(),
            )
        }),
{
    if !params.is_flow(FlowKind::ArToAbar) {
        return Err(Error::ProverFailure);
    }
    if !check_open_record(obar) {
        return Err(Error::InvalidRecord);
    }
    let clear = match (&obar.record.amount, &obar.record.asset) {
        (AmountInfo::Clear(_), AssetInfo::Clear(_)) => true,
        _ => false,
    };
    if !clear {
        return Err(Error::InvalidRecord);
    }
    let sender_pk = sender_kp.get_public_key();
    if !bytes_eq(&obar.pub_key, &sender_pk) {
        return Err(Error::InvalidRecord);
    }
    let oabar = match OpenAnonRecord::build(obar.amount, &obar.asset_type, abar_pk, rng) {
        Ok(o) => o,
        Err(e) => {
            return Err(e);
        },
    };
    let memo = match oabar.seal_owner_memo(rng) {
        Ok(m) => m,
        Err(e) => {
            return Err(e);
        },
    };
    let com = oabar.commitment();
    let input = crate::transparent::clone_record(&obar.record);
    let stmt = deposit_statement(&input, &com, &memo);
    let proof_bytes = params.prove(&stmt);
    let body = DepositBody { input, output: AnonRecord { commitment: com }, memo, proof: proof_bytes };
    let note = ArToAbarNote { body };
    proof {
        assert(note.body.statement() == stmt@);
        let b = oabar.blinding@;
        assert(oabar.amount == obar.amount && oabar.asset_type@ == obar.asset_type@
            && oabar.pub_key@ == abar_pk@ && oabar.blinding@ == b);
    }
    Ok(note)
}

/// The verdict of checking a deposit note from a clear record.
pub open spec fn ar_to_abar_check_of(flow: FlowKind, depth: int, note: ArToAbarNote) -> Result<
    (),
    Error,
> {
    if !(note.body.wf() && note.body.input.is_clear()) {
        Err(Error::MalformedBody)
    } else if note.body.proof@ != proof_of(flow, depth, note.body.statement()) {
        Err(Error::ProofInvalid)
    } else {
        Ok(())
    }
}

/// Checks a deposit note from a clear record.
pub fn verify_ar_to_abar_note(params: &VerifierParams, note: &ArToAbarNote) -> (r: Result<
    (),
    Error,
>)
    requires
        params.wf(),
    ensures
        r == ar_to_abar_check_of(params.flow_of(), params.depth_of(), *note),
{
    let shape_ok = note.body.input.pub_key.len() == 32 && (match &note.body.input.amount {
        AmountInfo::Clear(_) => true,
        AmountInfo::Hidden(_) => false,
    }) && (match &note.body.input.asset {
        AssetInfo::Clear(t) => t.len() == 32,
        AssetInfo::Hidden(_) => false,
    }) && note.body.output.commitment.len() == 32 && note.body.memo.epk.len() == 32
        && note.body.memo.ct.len() == 72 && note.body.proof.len() == 32;
    if !shape_ok {
        return Err(Error::MalformedBody);
    }
    let stmt = deposit_statement(&note.body.input, &note.body.output.commitment, &note.body.memo);
    if !params.verify(&note.body.proof, &stmt) {
        return Err(Error::ProofInvalid);
    }
    Ok(())
}

// ---------------------------------------------------------------------------
// Withdrawal notes: anonymous to transparent
// ---------------------------------------------------------------------------

/// The body of a withdrawal note: the revealed nullifier, the new
/// transparent record, the sealed root it was proved against, and the
/// digest bound at the finishing step.
pub struct WithdrawBody {
    pub input: Vec<u8>,
    pub output: BlindRecord,
    pub memo: Option<OwnerMemo>,
    pub merkle_root: Vec<u8>,
    pub root_version: u64,
    pub extra_digest: Vec<u8>,
    pub proof: Vec<u8>,
}

/// A withdrawal note to a clear transparent record.
pub struct AbarToArNote {
    pub body: WithdrawBody,
}

/// A withdrawal note to a confidential transparent record.
pub struct AbarToBarNote {
    pub body: WithdrawBody,
}

impl WithdrawBody {
    /// Fixed sizes of every field.
    pub open spec fn wf(&self) -> bool {
        &&& wf32(self.input@)
        &&& self.output.wf()
        &&& wf32(self.merkle_root@)
        &&& wf32(self.extra_digest@)
        &&& wf32(self.proof@)
        &&& self.memo is Some ==> (self.memo->0.wf() && self.memo->0.ct@.len() == 104)
    }

    /// The statement this body publishes.
    pub open spec fn statement(&self) -> Seq<u8> {
        withdraw_statement_of(
            self.input@,
            self.merkle_root@,
            self.root_version,
            self.output,
            self.extra_digest@,
        ) + (if self.memo is Some {
            self.memo->0.epk@ + self.memo->0.ct@
        } else {
            Seq::<u8>::empty()
        })
    }
}

/// A withdrawal note before the proving step: the statement skeleton is
/// fixed, the digest and the proof are not yet bound.
pub struct PreNote {
    pub input: Vec<u8>,
    pub output: BlindRecord,
    pub memo: Option<OwnerMemo>,
    pub merkle_root: Vec<u8>,
    pub root_version: u64,
}

impl PreNote {
    /// Fixed sizes of every field.
    pub open spec fn wf(&self) -> bool {
        &&& wf32(self.input@)
        &&& self.output.wf()
        &&& wf32(self.merkle_root@)
        &&& self.memo is Some ==> (self.memo->0.wf() && self.memo->0.ct@.len() == 104)
    }
}

/// Assembles a withdrawal to a clear transparent record: checks the
/// membership path, derives the nullifier, and fixes the output record.
/// Fails with `MissingMerkleInfo` when no path is attached, and with
/// `InvalidRecord` when the caller does not own the record, the receiver
/// key has the wrong size, or the path does not certify the commitment.
pub fn init_abar_to_ar_note(oabar: &OpenAnonRecord, kp: &KeyPair, recv_pk: &Vec<u8>) -> (r: Result<
    PreNote,
    Error,
>)
    requires
        oabar.wf(),
        kp.wf(),
    ensures
        r is Err ==> (r->Err_0 == Error::MissingMerkleInfo <==> oabar.mt_info is None),
        r is Err ==> (r->Err_0 == Error::MissingMerkleInfo || r->Err_0 == Error::InvalidRecord),
        r is Ok <==> (oabar.mt_info is Some && oabar.pub_key@ == kp.pub_view() && recv_pk@.len()
            == 32 && ({
            let p = oabar.mt_info->0;
            p.nodes@.len() == TREE_DEPTH && fold_path_of(
                leaf_hash_of(p.uid as int, oabar.commitment_view()),
                siblings_of(p.nodes@),
                dirs_of(p.nodes@),
                0,
            ) == p.root@
        })),
        r is Ok ==> ({
            let pre = r->Ok_0;
            let p = oabar.mt_info->0;
            &&& pre.wf()
            &&& pre.input@ == nullifier_of(kp.sec_view(), p.uid as int, oabar.commitment_view())
            &&& pre.output.is_clear()
            &&& pre.output.amount->Clear_0 == oabar.amount
            &&& pre.output.asset->Clear_0@ == oabar.asset_type@
            &&& pre.output.pub_key@ == recv_pk@
            &&& pre.memo is None
            &&& pre.merkle_root@ == p.root@
            &&& pre.root_version == p.root_version
        }),
{
    let path = match &oabar.mt_info {
        Some(p) => p,
        None => {
            return Err(Error::MissingMerkleInfo);
        },
    };
    let own_pk = kp.get_public_key();
    if !bytes_eq(&oabar.pub_key, &own_pk) {
        return Err(Error::InvalidRecord);
    }
    if recv_pk.len() != 32 {
        return Err(Error::InvalidRecord);
    }
    let com = oabar.commitment();
    let leaf = compute_leaf_hash(path.uid, &com);
    if !verify_path(&leaf, path) {
        return Err(Error::InvalidRecord);
    }
    let sk = kp.get_secret_key();
    let nullifier = derive_nullifier(&sk, path.uid, &com);
    let output = BlindRecord {
        amount: AmountInfo::Clear(oabar.amount),
        asset: AssetInfo::Clear(oabar.asset_type.clone()),
        pub_key: recv_pk.clone(),
    };
    Ok(
        PreNote {
            input: nullifier,
            output,
            memo: None,
            merkle_root: path.root.clone(),
            root_version: path.root_version,
        },
    )
}

/// Binds the late digest into the statement and runs the proving step.
/// Fails with `ProverFailure` when the parameters are for another flow or
/// depth, and with `MalformedBody` when the digest is not 32 bytes.
pub fn finish_abar_to_ar_note(params: &ProverParams, pre: PreNote, extra_digest: &Vec<u8>) -> (r:
    Result<AbarToArNote, Error>)
    requires
        params.wf(),
        pre.wf(),
        pre.memo is None,
    ensures
        r is Ok <==> (params.flow_of() == FlowKind::AbarToAr && params.depth_of()
            == TREE_DEPTH as int && extra_digest@.len() == 32),
        r is Err ==> (r->Err_0 == Error::ProverFailure || r->Err_0 == Error::MalformedBody),
        r is Err ==> (r->Err_0 == Error::MalformedBody ==> (params.flow_of() == FlowKind::AbarToAr
            && params.depth_of() == TREE_DEPTH as int)),
        r is Ok ==> ({
            let note = r->Ok_0;
            &&& note.body.wf()
            &&& note.body.input@ == pre.input@
            &&& note.body.output.same_as(&pre.output)
            &&& note.body.memo is None
            &&& note.body.merkle_root@ == pre.merkle_root@
            &&& note.body.root_version == pre.root_version
            &&& note.body.extra_digest@ == extra_digest@
            &&& note.body.proof@ == proof_of(
                FlowKind::AbarToAr,
                TREE_DEPTH as int,
                note.body.statement(),
            )
        }),
{
    if !params.is_flow(FlowKind::AbarToAr) {
        return Err(Error::ProverFailure);
    }
    if params.depth() != TREE_DEPTH as u64 {
        return Err(Error::ProverFailure);
    }
    if extra_digest.len() != 32 {
        return Err(Error::MalformedBody);
    }
    let stmt = withdraw_statement(
        &pre.input,
        &pre.merkle_root,
        pre.root_version,
        &pre.output,
        extra_digest,
    );
    let proof_bytes = params.prove(&stmt);
    let note = AbarToArNote {
        body: WithdrawBody {
            input: pre.input,
            output: pre.output,
            memo: None,
            merkle_root: pre.merkle_root,
            root_version: pre.root_version,
            extra_digest: extra_digest.clone(),
            proof: proof_bytes,
        },
    };
    proof {
        assert(note.body.statement() =~= stmt@);
        assert(note.body.output.same_as(&pre.output));
    }
    Ok(note)
}

/// The verdict of checking a withdrawal note to a clear record, in the
/// order the protocol fixes: the bound digest, the sealed root, the body
/// shape, and last the proof against the statement.
pub open spec fn abar_to_ar_check_of(
    flow: FlowKind,
    depth: int,
    note: AbarToArNote,
    expected_root: Seq<u8>,
    extra: Seq<u8>,
) -> Result<(), Error> {
    if note.body.extra_digest@ != extra {
        Err(Error::DigestMismatch)
    } else if note.body.merkle_root@ != expected_root {
        Err(Error::RootMismatch)
    } else if !(note.body.wf() && note.body.output.is_clear() && note.body.memo is None) {
        Err(Error::MalformedBody)
    } else if note.body.proof@ != proof_of(flow, depth, note.body.statement()) {
        Err(Error::ProofInvalid)
    } else {
        Ok(())
    }
}

/// Checks a withdrawal note to a clear record against a sealed root the
/// caller trusts and the digest it expects.
pub fn verify_abar_to_ar_note(
    params: &VerifierParams,
    note: &AbarToArNote,
    expected_root: &Vec<u8>,
    extra_digest: &Vec<u8>,
) -> (r: Result<(), Error>)
    requires
        params.wf(),
    ensures
        r == abar_to_ar_check_of(
            params.flow_of(),
            params.depth_of(),
            *note,
            expected_root@,
            extra_digest@,
        ),
{
    if !bytes_eq(&note.body.extra_digest, extra_digest) {
        return Err(Error::DigestMismatch);
    }
    if !bytes_eq(&note.body.merkle_root, expected_root) {
        return Err(Error::RootMismatch);
    }
    let memo_ok = match &note.body.memo {
        Some(_) => false,
        None => true,
    };
    let shape_ok = memo_ok && note.body.input.len() == 32 && note.body.merkle_root.len() == 32
        && note.body.extra_digest.len() == 32 && note.body.proof.len() == 32
        && note.body.output.pub_key.len() == 32 && (match &note.body.output.amount {
        AmountInfo::Clear(_) => true,
        AmountInfo::Hidden(_) => false,
    }) && (match &note.body.output.asset {
        AssetInfo::Clear(t) => t.len() == 32,
        AssetInfo::Hidden(_) => false,
    });
    if !shape_ok {
        return Err(Error::MalformedBody);
    }
    let stmt = withdraw_statement(
        &note.body.input,
        &note.body.merkle_root,
        note.body.root_version,
        &note.body.output,
        &note.body.extra_digest,
    );
    proof {
        assert(note.body.statement() =~= stmt@);
    }
    if !params.verify(&note.body.proof, &stmt) {
        return Err(Error::ProofInvalid);
    }
    Ok(())
}

/// Assembles a withdrawal to a confidential transparent record: as
/// `init_abar_to_ar_note`, but the output hides amount and asset type
/// behind fresh Pedersen blindings and carries a sealed memo for the
/// receiver, whose key must therefore be a valid point encoding.
pub fn init_abar_to_bar_note(
    oabar: &OpenAnonRecord,
    kp: &KeyPair,
    recv_pk: &Vec<u8>,
    rng: &mut RandSource,
) -> (r: Result<PreNote, Error>)
    requires
        oabar.wf(),
        kp.wf(),
    ensures
        r is Err ==> (r->Err_0 == Error::MissingMerkleInfo <==> oabar.mt_info is None),
        r is Err ==> (r->Err_0 == Error::MissingMerkleInfo || r->Err_0 == Error::InvalidRecord),
        r is Ok <==> (oabar.mt_info is Some && oabar.pub_key@ == kp.pub_view() && recv_pk@.len()
            == 32 && pt_ok_of(recv_pk@) && ({
            let p = oabar.mt_info->0;
            p.nodes@.len() == TREE_DEPTH && fold_path_of(
                leaf_hash_of(p.uid as int, oabar.commitment_view()),
                siblings_of(p.nodes@),
                dirs_of(p.nodes@),
                0,
            ) == p.root@
        })),
        r is Ok ==> ({
            let pre = r->Ok_0;
            let p = oabar.mt_info->0;
            &&& pre.wf()
            &&& pre.input@ == nullifier_of(kp.sec_view(), p.uid as int, oabar.commitment_view())
            &&& pre.output.is_confidential()
            &&& pre.output.pub_key@ == recv_pk@
            &&& pre.memo is Some
            &&& pre.merkle_root@ == p.root@
            &&& pre.root_version == p.root_version
        }),
{
    let path = match &oabar.mt_info {
        Some(p) => p,
        None => {
            return Err(Error::MissingMerkleInfo);
        },
    };
    let own_pk = kp.get_public_key();
    if !bytes_eq(&oabar.pub_key, &own_pk) {
        return Err(Error::InvalidRecord);
    }
    if recv_pk.len() != 32 {
        return Err(Error::InvalidRecord);
    }
    let com = oabar.commitment();
    let leaf = compute_leaf_hash(path.uid, &com);
    if !verify_path(&leaf, path) {
        return Err(Error::InvalidRecord);
    }
    let built = match crate::transparent::build_blind_record(
        oabar.amount,
        &oabar.asset_type,
        recv_pk,
        true,
        rng,
    ) {
        Ok(t) => t,
        Err(e) => {
            return Err(e);
        },
    };
    let (rec, memo_opt, _open) = built;
    let memo = match memo_opt {
        Some(m) => m,
        None => {
            return Err(Error::InvalidRecord);
        },
    };
    let sk = kp.get_secret_key();
    let nullifier = derive_nullifier(&sk, path.uid, &com);
    Ok(
        PreNote {
            input: nullifier,
            output: rec,
            memo: Some(memo),
            merkle_root: path.root.clone(),
            root_version: path.root_version,
        },
    )
}

/// Binds the late digest and runs the proving step for the confidential
/// variant.
pub fn finish_abar_to_bar_note(params: &ProverParams, pre: PreNote, extra_digest: &Vec<u8>) -> (r:
    Result<AbarToBarNote, Error>)
    requires
        params.wf(),
        pre.wf(),
        pre.memo is Some,
    ensures
        r is Ok <==> (params.flow_of() == FlowKind::AbarToBar && params.depth_of()
            == TREE_DEPTH as int && extra_digest@.len() == 32),
        r is Err ==> (r->Err_0 == Error::ProverFailure || r->Err_0 == Error::MalformedBody),
        r is Ok ==> ({
            let note = r->Ok_0;
            &&& note.body.wf()
            &&& note.body.input@ == pre.input@
            &&& note.body.output.same_as(&pre.output)
            &&& note.body.memo is Some
            &&& note.body.merkle_root@ == pre.merkle_root@
            &&& note.body.root_version == pre.root_version
            &&& note.body.extra_digest@ == extra_digest@
            &&& note.body.proof@ == proof_of(
                FlowKind::AbarToBar,
                TREE_DEPTH as int,
                note.body.statement(),
            )
        }),
{
    if !params.is_flow(FlowKind::AbarToBar) {
        return Err(Error::ProverFailure);
    }
    if params.depth() != TREE_DEPTH as u64 {
        return Err(Error::ProverFailure);
    }
    if extra_digest.len() != 32 {
        return Err(Error::MalformedBody);
    }
    let memo = match pre.memo {
        Some(m) => m,
        None => {
            return Err(Error::MalformedBody);
        },
    };
    let stmt0 = withdraw_statement(
        &pre.input,
        &pre.merkle_root,
        pre.root_version,
        &pre.output,
        extra_digest,
    );
    let stmt1 = concat_bytes(&stmt0, &memo.epk);
    let stmt = concat_bytes(&stmt1, &memo.ct);
    let proof_bytes = params.prove(&stmt);
    let note = AbarToBarNote {
        body: WithdrawBody {
            input: pre.input,
            output: pre.output,
            memo: Some(memo),
            merkle_root: pre.merkle_root,
            root_version: pre.root_version,
            extra_digest: extra_digest.clone(),
            proof: proof_bytes,
        },
    };
    proof {
        assert(note.body.statement() =~= stmt@);
        assert(note.body.output.same_as(&pre.output));
    }
    Ok(note)
}

/// The verdict of checking a withdrawal note to a confidential record.
pub open spec fn abar_to_bar_check_of(
    flow: FlowKind,
    depth: int,
    note: AbarToBarNote,
    expected_root: Seq<u8>,
    extra: Seq<u8>,
) -> Result<(), Error> {
    if note.body.extra_digest@ != extra {
        Err(Error::DigestMismatch)
    } else if note.body.merkle_root@ != expected_root {
        Err(Error::RootMismatch)
    } else if !(note.body.wf() && note.body.output.is_confidential() && note.body.memo is Some) {
        Err(Error::MalformedBody)
    } else if note.body.proof@ != proof_of(flow, depth, note.body.statement()) {
        Err(Error::ProofInvalid)
    } else {
        Ok(())
    }
}

/// Checks a withdrawal note to a confidential record.
pub fn verify_abar_to_bar_note(
    params: &VerifierParams,
    note: &AbarToBarNote,
    expected_root: &Vec<u8>,
    extra_digest: &Vec<u8>,
) -> (r: Result<(), Error>)
    requires
        params.wf(),
    ensures
        r == abar_to_bar_check_of(
            params.flow_of(),
            params.depth_of(),
            *note,
            expected_root@,
            extra_digest@,
        ),
{
    if !bytes_eq(&note.body.extra_digest, extra_digest) {
        return Err(Error::DigestMismatch);
    }
    if !bytes_eq(&note.body.merkle_root, expected_root) {
        return Err(Error::RootMismatch);
    }
    let memo = match &note.body.memo {
        Some(m) => m,
        None => {
            return Err(Error::MalformedBody);
        },
    };
    let shape_ok = note.body.input.len() == 32 && note.body.merkle_root.len() == 32
        && note.body.extra_digest.len() == 32 && note.body.proof.len() == 32
        && note.body.output.pub_key.len() == 32 && memo.epk.len() == 32 && memo.ct.len() == 104
        && (match &note.body.output.amount {
        AmountInfo::Clear(_) => false,
        AmountInfo::Hidden(c) => c.len() == 32,
    }) && (match &note.body.output.asset {
        AssetInfo::Clear(_) => false,
        AssetInfo::Hidden(c) => c.len() == 32,
    });
    if !shape_ok {
        return Err(Error::MalformedBody);
    }
    let stmt0 = withdraw_statement(
        &note.body.input,
        &note.body.merkle_root,
        note.body.root_version,
        &note.body.output,
        &note.body.extra_digest,
    );
    let stmt1 = concat_bytes(&stmt0, &memo.epk);
    let stmt = concat_bytes(&stmt1, &memo.ct);
    proof {
        assert(note.body.statement() =~= stmt@);
    }
    if !params.verify(&note.body.proof, &stmt) {
        return Err(Error::ProofInvalid);
    }
    Ok(())
}

// ---------------------------------------------------------------------------
// Laws
// ---------------------------------------------------------------------------

/// Root binding: a withdrawal note carries the root it was generated
/// against, and its verification against any other root fails with
/// `RootMismatch`, whatever the rest of the note holds.
pub proof fn lemma_root_binding(
    flow: FlowKind,
    depth: int,
    note: AbarToArNote,
    r0: Seq<u8>,
    r1: Seq<u8>,
    extra: Seq<u8>,
)
    requires
        abar_to_ar_check_of(flow, depth, note, r0, extra) is Ok,
        r1 != r0,
    ensures
        abar_to_ar_check_of(flow, depth, note, r1, extra) == Result::<(), Error>::Err(
            Error::RootMismatch,
        ),
{
}

/// Tamper rejection, proof bytes: changing any bit of the proof of a note
/// that verifies makes verification fail with `ProofInvalid`, since the
/// accepted proof is exactly the digest of the unchanged statement.
pub proof fn lemma_proof_tamper(
    flow: FlowKind,
    depth: int,
    note: AbarToArNote,
    tampered: AbarToArNote,
    root: Seq<u8>,
    extra: Seq<u8>,
)
    requires
        abar_to_ar_check_of(flow, depth, note, root, extra) is Ok,
        tampered.body.proof@ != note.body.proof@,
        tampered.body.proof@.len() == note.body.proof@.len(),
        tampered.body.input@ == note.body.input@,
        tampered.body.output == note.body.output,
        tampered.body.memo == note.body.memo,
        tampered.body.merkle_root@ == note.body.merkle_root@,
        tampered.body.root_version == note.body.root_version,
        tampered.body.extra_digest@ == note.body.extra_digest@,
    ensures
        abar_to_ar_check_of(flow, depth, tampered, root, extra) == Result::<(), Error>::Err(
            Error::ProofInvalid,
        ),
{
    assert(tampered.body.statement() == note.body.statement());
}

/// Tamper rejection, sealed root field: changing the root a verifying note
/// names, while the expected root stays what it was, fails verification
/// with `RootMismatch`.
pub proof fn lemma_root_field_tamper(
    flow: FlowKind,
    depth: int,
    note: AbarToArNote,
    tampered: AbarToArNote,
    root: Seq<u8>,
    extra: Seq<u8>,
)
    requires
        abar_to_ar_check_of(flow, depth, note, root, extra) is Ok,
        tampered.body.merkle_root@ != note.body.merkle_root@,
        tampered.body.extra_digest@ == note.body.extra_digest@,
    ensures
        abar_to_ar_check_of(flow, depth, tampered, root, extra) == Result::<(), Error>::Err(
            Error::RootMismatch,
        ),
{
}

/// Tamper rejection, bound digest: verifying a note that carries one digest
/// against a different expected digest fails with `DigestMismatch`.
pub proof fn lemma_digest_tamper(
    flow: FlowKind,
    depth: int,
    note: AbarToArNote,
    root: Seq<u8>,
    extra0: Seq<u8>,
    extra1: Seq<u8>,
)
    requires
        abar_to_ar_check_of(flow, depth, note, root, extra0) is Ok,
        extra1 != extra0,
    ensures
        abar_to_ar_check_of(flow, depth, note, root, extra1) == Result::<(), Error>::Err(
            Error::DigestMismatch,
        ),
{
}

/// Tamper rejection, deposit proof bytes: changing any bit of a verifying
/// deposit note's proof makes verification fail with `ProofInvalid`.
pub proof fn lemma_deposit_proof_tamper(
    flow: FlowKind,
    depth: int,
    note: BarToAbarNote,
    tampered: BarToAbarNote,
    sender_pk: Seq<u8>,
)
    requires
        bar_to_abar_check_of(flow, depth, note, sender_pk) is Ok,
        tampered.body.proof@ != note.body.proof@,
        tampered.body.proof@.len() == note.body.proof@.len(),
        tampered.body.input == note.body.input,
        tampered.body.output == note.body.output,
        tampered.body.memo == note.body.memo,
    ensures
        bar_to_abar_check_of(flow, depth, tampered, sender_pk) == Result::<(), Error>::Err(
            Error::ProofInvalid,
        ),
{
    assert(tampered.body.statement() == note.body.statement());
}

/// Round trip: an anonymous record holding a given amount and asset type,
/// withdrawn to a clear transparent record, yields a record showing exactly
/// that amount and asset type.  The hypotheses are the contracts of
/// `init_abar_to_ar_note` and `finish_abar_to_ar_note` on their results.
pub proof fn lemma_round_trip(
    amount: u64,
    asset: Seq<u8>,
    oabar: OpenAnonRecord,
    pre: PreNote,
    note: AbarToArNote,
)
    requires
        oabar.amount == amount,
        oabar.asset_type@ == asset,
        pre.output.is_clear(),
        pre.output.amount->Clear_0 == oabar.amount,
        pre.output.asset->Clear_0@ == oabar.asset_type@,
        note.body.output.same_as(&pre.output),
    ensures
        note.body.output.amount is Clear,
        note.body.output.amount->Clear_0 == amount,
        note.body.output.asset is Clear,
        note.body.output.asset->Clear_0@ == asset,
{
}

} // verus!
