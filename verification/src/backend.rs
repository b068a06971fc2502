//! The proving backend behind the note protocols.
//!
//! Parameter objects are produced by a one-time setup per flow kind and per
//! tree depth, and passed by reference into every construction and
//! verification call.  This backend binds the proof bytes to the public
//! statement with a keyed digest: a proof checks exactly when it is the
//! digest of the statement under the flow's parameter key.  It gives
//! integrity binding, which is what the contracts here state; a
//! zero-knowledge argument system can stand behind the same interface.

use vstd::prelude::*;

verus! {

use crate::bytes::{be_bytes_of_u64, bytes_eq, concat_bytes, u64_to_be_bytes};
use crate::curve::{sha256, sha256_of, wf32};

/// The four directional note flows.
#[derive(Clone, Copy, Debug, PartialEq, Eq, Structural)]
pub enum FlowKind {
    BarToAbar,
    ArToAbar,
    AbarToAr,
    AbarToBar,
}

/// The domain byte of a flow.
pub open spec fn flow_tag_of(flow: FlowKind) -> u8 {
    match flow {
        FlowKind::BarToAbar => 1u8,
        FlowKind::ArToAbar => 2u8,
        FlowKind::AbarToAr => 3u8,
        FlowKind::AbarToBar => 4u8,
    }
}

/// The parameter key of a flow at a tree depth.
pub open spec fn params_key_of(flow: FlowKind, depth: int) -> Seq<u8> {
    sha256_of(seq![flow_tag_of(flow)] + be_bytes_of_u64(depth as u64))
}

/// The proof bytes that the backend produces for a statement under a flow's
/// parameters.
pub open spec fn proof_of(flow: FlowKind, depth: int, statement: Seq<u8>) -> Seq<u8> {
    sha256_of(params_key_of(flow, depth) + statement)
}

/// Derives the parameter key of a flow at a depth.
fn derive_key(flow: FlowKind, depth: u64) -> (r: Vec<u8>)
    ensures
        r@ == params_key_of(flow, depth as int),
        wf32(r@),
{
    let tag: u8 = match flow {
        FlowKind::BarToAbar => 1u8,
        FlowKind::ArToAbar => 2u8,
        FlowKind::AbarToAr => 3u8,
        FlowKind::AbarToBar => 4u8,
    };
    let mut head: Vec<u8> = Vec::new();
    head.push(tag);
    let d = u64_to_be_bytes(depth);
    let input = concat_bytes(&head, &d);
    proof {
        assert(input@ =~= seq![flow_tag_of(flow)] + be_bytes_of_u64(depth));
    }
    sha256(&input)
}

/// Proving parameters: the flow kind, the tree depth it was set up for, and
/// the derived key.
pub struct ProverParams {
    flow: FlowKind,
    depth: u64,
    key: Vec<u8>,
}

/// Verifying parameters: the same contents, handed to verifiers.
pub struct VerifierParams {
    flow: FlowKind,
    depth: u64,
    key: Vec<u8>,
}

impl ProverParams {
    /// The flow these parameters prove.
    pub closed spec fn flow_of(&self) -> FlowKind {
        self.flow
    }

    /// The tree depth these parameters were set up for.
    pub closed spec fn depth_of(&self) -> int {
        self.depth as int
    }

    /// The key is the one derived for the flow and depth.
    pub closed spec fn wf(&self) -> bool {
        self.key@ == params_key_of(self.flow, self.depth as int)
    }

    /// Setup for the confidential-transparent to anonymous flow.
    pub fn bar_to_abar_params() -> (r: ProverParams)
        ensures
            r.wf(),
            r.flow_of() == FlowKind::BarToAbar,
    {
        ProverParams { flow: FlowKind::BarToAbar, depth: 0, key: derive_key(FlowKind::BarToAbar, 0) }
    }

    /// Setup for the clear-transparent to anonymous flow.
    pub fn ar_to_abar_params() -> (r: ProverParams)
        ensures
            r.wf(),
            r.flow_of() == FlowKind::ArToAbar,
    {
        ProverParams { flow: FlowKind::ArToAbar, depth: 0, key: derive_key(FlowKind::ArToAbar, 0) }
    }

    /// Setup for the anonymous to clear-transparent flow, at a tree depth.
    pub fn abar_to_ar_params(depth: u64) -> (r: ProverParams)
        ensures
            r.wf(),
            r.flow_of() == FlowKind::AbarToAr,
            r.depth_of() == depth as int,
    {
        ProverParams { flow: FlowKind::AbarToAr, depth, key: derive_key(FlowKind::AbarToAr, depth) }
    }

    /// Setup for the anonymous to confidential-transparent flow, at a tree
    /// depth.
    pub fn abar_to_bar_params(depth: u64) -> (r: ProverParams)
        ensures
            r.wf(),
            r.flow_of() == FlowKind::AbarToBar,
            r.depth_of() == depth as int,
    {
        ProverParams {
            flow: FlowKind::AbarToBar,
            depth,
            key: derive_key(FlowKind::AbarToBar, depth),
        }
    }

    /// Produces the proof bytes for a statement.
    pub fn prove(&self, statement: &Vec<u8>) -> (r: Vec<u8>)
        requires
            self.wf(),
        ensures
            r@ == proof_of(self.flow_of(), self.depth_of(), statement@),
            wf32(r@),
    {
        let input = concat_bytes(&self.key, statement);
        sha256(&input)
    }

    /// Whether these parameters prove `flow`.
    pub fn is_flow(&self, flow: FlowKind) -> (r: bool)
        ensures
            r == (self.flow_of() == flow),
    {
        self.flow == flow
    }

    /// The tree depth these parameters were set up for.
    pub fn depth(&self) -> (r: u64)
        ensures
            r as int == self.depth_of(),
    {
        self.depth
    }
}

impl VerifierParams {
    /// The flow these parameters check.
    pub closed spec fn flow_of(&self) -> FlowKind {
        self.flow
    }

    /// The tree depth these parameters were set up for.
    pub closed spec fn depth_of(&self) -> int {
        self.depth as int
    }

    /// The key is the one derived for the flow and depth.
    pub closed spec fn wf(&self) -> bool {
        self.key@ == params_key_of(self.flow, self.depth as int)
    }

    /// Setup for the confidential-transparent to anonymous flow.
    pub fn bar_to_abar_params() -> (r: VerifierParams)
        ensures
            r.wf(),
            r.flow_of() == FlowKind::BarToAbar,
    {
        VerifierParams {
            flow: FlowKind::BarToAbar,
            depth: 0,
            key: derive_key(FlowKind::BarToAbar, 0),
        }
    }

    /// Setup for the clear-transparent to anonymous flow.
    pub fn ar_to_abar_params() -> (r: VerifierParams)
        ensures
            r.wf(),
            r.flow_of() == FlowKind::ArToAbar,
    {
        VerifierParams { flow: FlowKind::ArToAbar, depth: 0, key: derive_key(FlowKind::ArToAbar, 0) }
    }

    /// Setup for the anonymous to clear-transparent flow.
    pub fn abar_to_ar_params(depth: u64) -> (r: VerifierParams)
        ensures
            r.wf(),
            r.flow_of() == FlowKind::AbarToAr,
            r.depth_of() == depth as int,
    {
        VerifierParams {
            flow: FlowKind::AbarToAr,
            depth,
            key: derive_key(FlowKind::AbarToAr, depth),
        }
    }

    /// Setup for the anonymous to confidential-transparent flow.
    pub fn abar_to_bar_params(depth: u64) -> (r: VerifierParams)
        ensures
            r.wf(),
            r.flow_of() == FlowKind::AbarToBar,
            r.depth_of() == depth as int,
    {
        VerifierParams {
            flow: FlowKind::AbarToBar,
            depth,
            key: derive_key(FlowKind::AbarToBar, depth),
        }
    }

    /// Checks proof bytes against a statement: accepts exactly the digest
    /// of the statement under the flow's key.
    pub fn verify(&self, proof: &Vec<u8>, statement: &Vec<u8>) -> (r: bool)
        requires
            self.wf(),
        ensures
            r == (proof@ == proof_of(self.flow_of(), self.depth_of(), statement@)),
    {
        let input = concat_bytes(&self.key, statement);
        let expected = sha256(&input);
        bytes_eq(proof, &expected)
    }
}

} // verus!
