//! The confidential single-asset transfer: an older, range-proof-based
//! subsystem parallel to the anonymity tree.
//!
//! A transaction hides the transferred amount and the sender's updated
//! balance behind Pedersen commitments, proves both lie in a 32-bit range,
//! optionally proves the two sides transact the same asset type, and seals
//! the amount and blinding to the receiver.

use vstd::prelude::*;

verus! {

use crate::bytes::{be_bytes_of_u32, bytes_eq, concat_bytes, sub_bytes, u32_from_be_bytes,
    u32_to_be_bytes};
use crate::curve::{draw_scalar, fe_from_u64, fe_from_u64_of, fe_sub, fe_sub_of, pt_mul,
    pt_mul_of, pt_add, pt_add_of, pt_ok_of, pt_sub, pt_sub_of, wf32, RandSource};
use crate::errors::Error;
use crate::keys::KeyPair;
use crate::memo::{memo_plain_of, open_memo, seal_memo, OwnerMemo};
use crate::range_proof::{ped_bp_of, ped_bp_commit, range_prove_pair, range_verify_pair};

/// A confidential transfer: range proof, amount and updated-balance
/// commitments, the sealed box for the receiver, and the asset-equality
/// side proof.
pub struct Transaction {
    pub transaction_range_proof: Vec<u8>,
    pub transaction_commitment: Vec<u8>,
    pub sender_updated_balance_commitment: Vec<u8>,
    pub lockbox: OwnerMemo,
    pub do_confidential_asset: bool,
    pub asset_eq_proof: Vec<u8>,
    pub sender_asset_commitment: Vec<u8>,
    pub receiver_asset_commitment: Vec<u8>,
}

impl Transaction {
    /// Fixed sizes of every field.
    pub open spec fn wf(&self) -> bool {
        &&& wf32(self.transaction_commitment@)
        &&& wf32(self.sender_updated_balance_commitment@)
        &&& self.lockbox.wf()
        &&& self.lockbox.ct@.len() == 36
        &&& wf32(self.asset_eq_proof@)
        &&& wf32(self.sender_asset_commitment@)
        &&& wf32(self.receiver_asset_commitment@)
    }
}

/// The data a sender gathers before building a transaction.
pub struct TxInfo {
    pub receiver_pk: Vec<u8>,
    pub receiver_asset_commitment: Vec<u8>,
    pub receiver_asset_opening: Vec<u8>,
    pub sender_asset_commitment: Vec<u8>,
    pub sender_asset_opening: Vec<u8>,
    pub transfer_amount: u32,
}

impl TxInfo {
    /// Fixed sizes of every field.
    pub open spec fn wf(&self) -> bool {
        &&& wf32(self.receiver_pk@)
        &&& wf32(self.receiver_asset_commitment@)
        &&& wf32(self.receiver_asset_opening@)
        &&& wf32(self.sender_asset_commitment@)
        &&& wf32(self.sender_asset_opening@)
    }
}

/// The asset-equality side proof: the difference of the two asset-blinding
/// scalars.  Two commitments to the same asset value differ by exactly
/// that multiple of the blinding generator.
pub fn prove_asset_eq(receiver_opening: &Vec<u8>, sender_opening: &Vec<u8>) -> (r: Vec<u8>)
    requires
        wf32(receiver_opening@),
        wf32(sender_opening@),
    ensures
        r@ == fe_sub_of(receiver_opening@, sender_opening@),
        wf32(r@),
{
    fe_sub(receiver_opening, sender_opening)
}

/// Checks the asset-equality side proof: accepts exactly when the
/// commitment difference equals the proof scalar times the blinding
/// generator `h`.
pub fn verify_asset_eq(
    receiver_asset: &Vec<u8>,
    sender_asset: &Vec<u8>,
    proof: &Vec<u8>,
    h: &Vec<u8>,
) -> (r: bool)
    requires
        wf32(receiver_asset@),
        wf32(sender_asset@),
        wf32(proof@),
        wf32(h@),
    ensures
        r == (pt_ok_of(receiver_asset@) && pt_ok_of(sender_asset@) && pt_ok_of(h@) && pt_sub_of(
            receiver_asset@,
            sender_asset@,
        ) == pt_mul_of(h@, proof@)),
{
    let lhs = match pt_sub(receiver_asset, sender_asset) {
        Some(p) => p,
        None => {
            return false;
        },
    };
    let rhs = match pt_mul(h, proof) {
        Some(p) => p,
        None => {
            return false;
        },
    };
    bytes_eq(&lhs, &rhs)
}

impl Transaction {
    /// Builds a transfer of `tx_info.transfer_amount` out of a balance of
    /// `account_balance` blinded by `account_blind`: commits the amount and
    /// the updated balance under a fresh blinding split, proves both in
    /// range, seals amount and blinding to the receiver, and returns the
    /// transaction with the sender's updated blinding.  Fails with
    /// `InvalidRecord` when the receiver key is no valid point encoding and
    /// with `TxProofError` when the proving backend refuses.
    pub fn new(
        tx_info: &TxInfo,
        account_balance: u32,
        account_blind: &Vec<u8>,
        do_confidential_asset: bool,
        rng: &mut RandSource,
    ) -> (r: Result<(Transaction, Vec<u8>), Error>)
        requires
            tx_info.wf(),
            wf32(account_blind@),
            tx_info.transfer_amount <= account_balance,
        ensures
            r is Err ==> (r->Err_0 == Error::InvalidRecord || r->Err_0 == Error::TxProofError),
            r is Err ==> (r->Err_0 == Error::InvalidRecord <==> !pt_ok_of(tx_info.receiver_pk@)),
            r is Ok ==> ({
                let (tx, updated_blind) = r->Ok_0;
                &&& tx.wf()
                &&& wf32(updated_blind@)
                &&& tx.do_confidential_asset == do_confidential_asset
                &&& tx.sender_asset_commitment@ == tx_info.sender_asset_commitment@
                &&& tx.receiver_asset_commitment@ == tx_info.receiver_asset_commitment@
                &&& (do_confidential_asset ==> tx.asset_eq_proof@ == fe_sub_of(
                    tx_info.receiver_asset_opening@,
                    tx_info.sender_asset_opening@,
                ))
                &&& (!do_confidential_asset ==> tx.asset_eq_proof@ == fe_from_u64_of(0))
                &&& exists|bt: Seq<u8>|
                    {
                        &&& #[trigger] wf32(bt)
                        &&& tx.transaction_commitment@ == ped_bp_of(
                            tx_info.transfer_amount as int,
                            bt,
                        )
                        &&& tx.sender_updated_balance_commitment@ == ped_bp_of(
                            account_balance - tx_info.transfer_amount,
                            fe_sub_of(account_blind@, bt),
                        )
                        &&& updated_blind@ == fe_sub_of(account_blind@, bt)
                        &&& exists|eph: Seq<u8>|
                            {
                                &&& #[trigger] wf32(eph)
                                &&& tx.lockbox.epk@ == crate::curve::pt_base_mul_of(eph)
                                &&& tx.lockbox.ct@ == crate::bytes::xor_of(
                                    be_bytes_of_u32(tx_info.transfer_amount) + bt,
                                    crate::memo::keystream_of(
                                        pt_mul_of(tx_info.receiver_pk@, eph),
                                    ).subrange(0, 36),
                                )
                            }
                    }
            }),
    {
        if !crate::curve::pt_check(&tx_info.receiver_pk) {
            return Err(Error::InvalidRecord);
        }
        let blinding_t = draw_scalar(rng);
        let tx_amount = tx_info.transfer_amount;
        let sender_updated_balance = account_balance - tx_amount;
        let sender_updated_account_blind = fe_sub(account_blind, &blinding_t);
        let proved = match range_prove_pair(
            tx_amount,
            sender_updated_balance,
            &blinding_t,
            &sender_updated_account_blind,
        ) {
            Some(t) => t,
            None => {
                return Err(Error::TxProofError);
            },
        };
        let (proof_agg, comm_amount, comm_balance) = proved;
        let asset_eq_proof = if do_confidential_asset {
            prove_asset_eq(&tx_info.receiver_asset_opening, &tx_info.sender_asset_opening)
        } else {
            fe_from_u64(0)
        };
        let amt = u32_to_be_bytes(tx_amount);
        let to_encrypt = concat_bytes(&amt, &blinding_t);
        let lbox = match seal_memo(&tx_info.receiver_pk, &to_encrypt, rng) {
            Ok(m) => m,
            Err(_) => {
                return Err(Error::InvalidRecord);
            },
        };
        let ghost btv = blinding_t@;
        proof {
            assert(to_encrypt@ == be_bytes_of_u32(tx_amount) + btv);
        }
        let tx = Transaction {
            transaction_range_proof: proof_agg,
            transaction_commitment: comm_amount,
            sender_updated_balance_commitment: comm_balance,
            lockbox: lbox,
            do_confidential_asset,
            asset_eq_proof,
            sender_asset_commitment: tx_info.sender_asset_commitment.clone(),
            receiver_asset_commitment: tx_info.receiver_asset_commitment.clone(),
        };
        proof {
            assert(wf32(btv) && tx.transaction_commitment@ == ped_bp_of(
                tx_info.transfer_amount as int,
                btv,
            ) && tx.sender_updated_balance_commitment@ == ped_bp_of(
                account_balance - tx_info.transfer_amount,
                fe_sub_of(account_blind@, btv),
            ) && sender_updated_account_blind@ == fe_sub_of(account_blind@, btv));
        }
        Ok((tx, sender_updated_account_blind))
    }

    /// Recovers the transferred amount and the amount blinding from the
    /// sealed box, for the receiver holding `kp`.  Fails with
    /// `InvalidRecord` exactly when the box cannot be opened.
    pub fn recover_plaintext(&self, kp: &KeyPair) -> (r: Result<(u32, Vec<u8>), Error>)
        requires
            self.wf(),
            kp.wf(),
        ensures
            r is Ok <==> pt_ok_of(self.lockbox.epk@),
            r is Err ==> r->Err_0 == Error::InvalidRecord,
            r is Ok ==> ({
                let plain = memo_plain_of(self.lockbox.epk@, kp.sec_view(), self.lockbox.ct@);
                &&& be_bytes_of_u32(r->Ok_0.0) == plain.subrange(0, 4)
                &&& r->Ok_0.1@ == plain.subrange(4, 36)
                &&& wf32(r->Ok_0.1@)
            }),
    {
        let sk = kp.get_secret_key();
        let unlocked = match open_memo(&self.lockbox, &sk) {
            Ok(p) => p,
            Err(_) => {
                return Err(Error::InvalidRecord);
            },
        };
        let p_amount = u32_from_be_bytes(&unlocked, 0);
        let blind = sub_bytes(&unlocked, 4, 36);
        Ok((p_amount, blind))
    }
}

/// Run by a validator.  Checks that the sender's claimed updated balance
/// commitment is the previous balance commitment minus the transferred
/// amount commitment, that the range proof checks, and that both sides
/// transact the same asset: by commitment-equality proof when the asset is
/// confidential, by equality of the asset digests otherwise.
///
/// An accepting answer guarantees the homomorphic balance equation and the
/// asset check; the range-proof step is the backend's decision.
pub fn validator_verify(
    tx: &Transaction,
    sender_prev_com: &Vec<u8>,
    sender_asset: &Vec<u8>,
    receiver_asset: &Vec<u8>,
) -> (r: bool)
    requires
        tx.wf(),
        wf32(sender_prev_com@),
        wf32(sender_asset@),
        wf32(receiver_asset@),
    ensures
        r ==> (pt_ok_of(sender_prev_com@) && pt_ok_of(tx.transaction_commitment@) && pt_sub_of(
            sender_prev_com@,
            tx.transaction_commitment@,
        ) == tx.sender_updated_balance_commitment@),
        r ==> (tx.do_confidential_asset ==> pt_sub_of(receiver_asset@, sender_asset@)
            == pt_mul_of(ped_bp_of(0, fe_from_u64_of(1)), tx.asset_eq_proof@)),
        r ==> (!tx.do_confidential_asset ==> sender_asset@ == receiver_asset@),
        !pt_ok_of(sender_prev_com@) ==> !r,
        !pt_ok_of(tx.transaction_commitment@) ==> !r,
{
    let derived_sender_comm = match pt_sub(sender_prev_com, &tx.transaction_commitment) {
        Some(p) => p,
        None => {
            return false;
        },
    };
    let mut vrfy_ok = bytes_eq(&derived_sender_comm, &tx.sender_updated_balance_commitment);
    if vrfy_ok {
        vrfy_ok = range_verify_pair(
            &tx.transaction_range_proof,
            &tx.transaction_commitment,
            &tx.sender_updated_balance_commitment,
        );
    }
    if vrfy_ok {
        if tx.do_confidential_asset {
            // the blinding generator: the default commitment to zero under
            // blinding one
            let h = ped_bp_commit(0, &fe_from_u64(1));
            vrfy_ok = verify_asset_eq(receiver_asset, sender_asset, &tx.asset_eq_proof, &h);
        } else {
            vrfy_ok = bytes_eq(sender_asset, receiver_asset);
        }
    }
    vrfy_ok
}

/// Run by the receiver.  Checks the new balance commitment: accepts exactly
/// when it is the commitment to the received amount under the received
/// blinding, added to the old balance commitment.
pub fn receiver_verify(
    tx_amount: u32,
    tx_blind: &Vec<u8>,
    new_commit: &Vec<u8>,
    recv_old_commit: &Vec<u8>,
) -> (r: bool)
    requires
        wf32(tx_blind@),
        wf32(new_commit@),
        wf32(recv_old_commit@),
    ensures
        r == (pt_ok_of(recv_old_commit@) && new_commit@ == pt_add_of(
            ped_bp_of(tx_amount as int, tx_blind@),
            recv_old_commit@,
        )),
{
    let compute_new_commit = ped_bp_commit(tx_amount as u64, tx_blind);
    let updated_commitment = match pt_add(&compute_new_commit, recv_old_commit) {
        Some(p) => p,
        None => {
            return false;
        },
    };
    bytes_eq(new_commit, &updated_commitment)
}

} // verus!
