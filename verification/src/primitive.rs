//! What passes between this library and the proving primitive, as plain
//! values: setups, public inputs and requests for verification. Commitments
//! and proofs are carried as the bytes the primitive wrote them in.

use vstd::prelude::*;
use vstd::slice::slice_to_vec;
use crate::params::{LayeredSetup, ProofKind, SingleLayerSetup};

verus! {

/// The challenged node of every single-layer challenge.
pub const CHALLENGED_NODE: usize = 2;

/// The partition that a layered proof is checked for.
pub const PARTITION: usize = 0;

/// The setup of either construction.
#[derive(Clone, Copy, Debug, PartialEq, Eq)]
pub enum Setup {
    SingleLayer(SingleLayerSetup),
    Layered(LayeredSetup),
}

/// A proof of either construction, as the primitive wrote it.
#[derive(Clone, Debug, PartialEq, Eq)]
pub enum ProofPayload {
    SingleLayer(Vec<u8>),
    Layered(Vec<u8>),
}

/// A proof, as plain values.
pub enum PayloadView {
    SingleLayer(Seq<u8>),
    Layered(Seq<u8>),
}

impl View for ProofPayload {
    type V = PayloadView;

    open spec fn view(&self) -> PayloadView {
        match self {
            ProofPayload::SingleLayer(bytes) => PayloadView::SingleLayer(bytes@),
            ProofPayload::Layered(bytes) => PayloadView::Layered(bytes@),
        }
    }
}

impl PayloadView {
    /// The construction that the proof belongs to.
    pub open spec fn kind(self) -> ProofKind {
        match self {
            PayloadView::SingleLayer(_) => ProofKind::SingleLayer,
            PayloadView::Layered(_) => ProofKind::Layered,
        }
    }
}

/// The public inputs of a proof.
#[derive(Clone, Debug, PartialEq, Eq)]
pub enum PublicInputs {
    SingleLayer { replica_id: Vec<u8>, challenges: Vec<usize>, tau: Vec<u8> },
    Layered { replica_id: Vec<u8>, tau: Vec<u8>, commitment_star: Vec<u8>, partition: usize },
}

/// Public inputs, as plain values.
pub enum PublicInputsView {
    SingleLayer { replica_id: Seq<u8>, challenges: Seq<usize>, tau: Seq<u8> },
    Layered { replica_id: Seq<u8>, tau: Seq<u8>, commitment_star: Seq<u8>, partition: usize },
}

impl View for PublicInputs {
    type V = PublicInputsView;

    open spec fn view(&self) -> PublicInputsView {
        match self {
            PublicInputs::SingleLayer { replica_id, challenges, tau } => {
                PublicInputsView::SingleLayer {
                    replica_id: replica_id@,
                    challenges: challenges@,
                    tau: tau@,
                }
            },
            PublicInputs::Layered { replica_id, tau, commitment_star, partition } => {
                PublicInputsView::Layered {
                    replica_id: replica_id@,
                    tau: tau@,
                    commitment_star: commitment_star@,
                    partition: *partition,
                }
            },
        }
    }
}

/// A question for the primitive: does `payload` hold for `inputs` under `setup`?
#[derive(Clone, Debug, PartialEq, Eq)]
pub struct VerifyRequest {
    pub setup: Setup,
    pub inputs: PublicInputs,
    pub payload: ProofPayload,
}

/// A request for verification, as plain values.
pub struct VerifyRequestView {
    pub setup: Setup,
    pub inputs: PublicInputsView,
    pub payload: PayloadView,
}

impl View for VerifyRequest {
    type V = VerifyRequestView;

    open spec fn view(&self) -> VerifyRequestView {
        VerifyRequestView { setup: self.setup, inputs: self.inputs@, payload: self.payload@ }
    }
}

/// The challenges of a single-layer proof: `count` times the same node.
pub open spec fn challenges_of(count: usize) -> Seq<usize> {
    Seq::new(count as nat, |i: int| CHALLENGED_NODE)
}

/// The public inputs of a single-layer proof.
pub open spec fn single_layer_inputs_of(
    replica_id: Seq<u8>,
    challenge_count: usize,
    tau: Seq<u8>,
) -> PublicInputsView {
    PublicInputsView::SingleLayer { replica_id, challenges: challenges_of(challenge_count), tau }
}

/// The public inputs of a layered proof.
pub open spec fn layered_inputs_of(
    replica_id: Seq<u8>,
    tau: Seq<u8>,
    commitment_star: Seq<u8>,
) -> PublicInputsView {
    PublicInputsView::Layered { replica_id, tau, commitment_star, partition: PARTITION }
}

/// A copy of `bytes`.
pub fn copy_bytes(bytes: &Vec<u8>) -> (copy: Vec<u8>)
    ensures
        copy@ == bytes@,
{
    slice_to_vec(bytes.as_slice())
}

/// A copy of `payload`.
pub fn copy_payload(payload: &ProofPayload) -> (copy: ProofPayload)
    ensures
        copy@ == payload@,
{
    match payload {
        ProofPayload::SingleLayer(bytes) => ProofPayload::SingleLayer(copy_bytes(bytes)),
        ProofPayload::Layered(bytes) => ProofPayload::Layered(copy_bytes(bytes)),
    }
}

/// Builds the challenges of a single-layer proof.
pub fn single_layer_challenges(count: usize) -> (challenges: Vec<usize>)
    ensures
        challenges@ == challenges_of(count),
{
    let challenges = vec![CHALLENGED_NODE; count];
    assert(challenges@ =~= challenges_of(count));
    challenges
}

/// Builds the public inputs of a single-layer proof.
pub fn single_layer_inputs(replica_id: Vec<u8>, challenge_count: usize, tau: Vec<u8>) -> (inputs:
    PublicInputs)
    ensures
        inputs@ == single_layer_inputs_of(replica_id@, challenge_count, tau@),
{
    PublicInputs::SingleLayer {
        replica_id,
        challenges: single_layer_challenges(challenge_count),
        tau,
    }
}

/// Builds the public inputs of a layered proof.
pub fn layered_inputs(replica_id: Vec<u8>, tau: Vec<u8>, commitment_star: Vec<u8>) -> (inputs:
    PublicInputs)
    ensures
        inputs@ == layered_inputs_of(replica_id@, tau@, commitment_star@),
{
    PublicInputs::Layered { replica_id, tau, commitment_star, partition: PARTITION }
}

} // verus!
