use vstd::prelude::*;

verus! {

/// The error taxonomy of the transfer core.
///
/// Input-validation errors (`InvalidRecord`, `MissingMerkleInfo`,
/// `MalformedBody`) are detected before any expensive cryptographic work.
/// Consistency errors (`RootMismatch`, `DigestMismatch`, `CapacityExceeded`,
/// `NotFound`) mean the caller's view of the accumulator state is stale.
/// Cryptographic failures (`ProofInvalid`, `SignatureInvalid`,
/// `ProverFailure`) are always fatal for the call.  The last two variants
/// belong to the auxiliary encryption scheme and its wire format.
#[derive(Clone, Copy, Debug, PartialEq, Eq, Structural)]
pub enum Error {
    InvalidRecord,
    MissingMerkleInfo,
    MalformedBody,
    RootMismatch,
    DigestMismatch,
    CapacityExceeded,
    NotFound,
    ProofInvalid,
    SignatureInvalid,
    ProverFailure,
    ElGamalVerificationError,
    DeserializationError,
    TxProofError,
}

impl Error {
    /// A short description, stable across releases.
    pub fn description(&self) -> (r: &'static str)
    {
        match self {
            Error::InvalidRecord => "record opening does not match its commitment",
            Error::MissingMerkleInfo => "anonymous input lacks a membership path",
            Error::MalformedBody => "note body fields are ill-formed",
            Error::RootMismatch => "note root differs from the expected root",
            Error::DigestMismatch => "bound digest differs from the supplied one",
            Error::CapacityExceeded => "the accumulator is full",
            Error::NotFound => "no sealed leaf with this uid",
            Error::ProofInvalid => "the proof does not check against the statement",
            Error::SignatureInvalid => "the signature does not check",
            Error::ProverFailure => "the proving backend refused the witness",
            Error::ElGamalVerificationError => "the ciphertext does not encrypt this value",
            Error::DeserializationError => "the bytes are no valid encoding",
            Error::TxProofError => "the range proof could not be produced",
        }
    }
}

} // verus!
