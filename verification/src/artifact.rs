//! The proof artifact: what a prover hands to a verifier.

use vstd::prelude::*;
use crate::params::{ProofConfig, ProofKind};
use crate::primitive::{PayloadView, ProofPayload};
use crate::seed::{Seed, SeedView};

verus! {

/// A proof together with all that is needed to check it again.
#[derive(Clone, Debug, PartialEq, Eq)]
pub struct Artifact {
    pub prover_name: String,
    pub seed: Seed,
    pub config: ProofConfig,
    pub payload: ProofPayload,
    pub commitment_star: Option<Vec<u8>>,
    pub public_tau: Vec<u8>,
}

/// An artifact, as plain values.
pub struct ArtifactView {
    pub prover_name: Seq<char>,
    pub seed: SeedView,
    pub config: ProofConfig,
    pub payload: PayloadView,
    pub commitment_star: Option<Seq<u8>>,
    pub public_tau: Seq<u8>,
}

/// The bytes of an optional commitment.
pub open spec fn commitment_view(commitment: Option<Vec<u8>>) -> Option<Seq<u8>> {
    match commitment {
        Some(bytes) => Some(bytes@),
        None => None,
    }
}

impl View for Artifact {
    type V = ArtifactView;

    open spec fn view(&self) -> ArtifactView {
        ArtifactView {
            prover_name: self.prover_name@,
            seed: self.seed@,
            config: self.config,
            payload: self.payload@,
            commitment_star: commitment_view(self.commitment_star),
            public_tau: self.public_tau@,
        }
    }
}

impl ArtifactView {
    /// Whether the proof is of the construction that the configuration names.
    pub open spec fn kind_matches(self) -> bool {
        self.payload.kind() == self.config.kind
    }

    /// Whether the artifact holds what its construction needs: nothing more
    /// for a single layer; layered parameters and the commitment over all
    /// layers for a layered proof.
    pub open spec fn has_variant_fields(self) -> bool {
        self.payload.kind() == ProofKind::Layered ==> self.config.layered_params is Some
            && self.commitment_star is Some
    }

    /// Whether the artifact is structurally complete.
    pub open spec fn is_complete(self) -> bool {
        self.kind_matches() && self.has_variant_fields()
    }
}

} // verus!
