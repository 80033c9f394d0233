//! Checking a submitted artifact: the seed is authenticated, the replica
//! identity and the setup are derived afresh from the artifact's own seed and
//! configuration, and the primitive is asked whether the proof holds.

use vstd::prelude::*;
use crate::artifact::{Artifact, ArtifactView};
use crate::codec::{decode, encoding};
use crate::error::Error;
use crate::params::{
    derive_layered,
    derive_single_layer,
    layered_setup_of,
    single_layer_setup_of,
    ProofKind,
};
use crate::primitive::{
    copy_bytes,
    copy_payload,
    layered_inputs,
    layered_inputs_of,
    single_layer_inputs,
    single_layer_inputs_of,
    PayloadView,
    ProofPayload,
    Setup,
    VerifyRequest,
    VerifyRequestView,
};
use crate::replica::{id_from_str, replica_id_for};
use crate::seed::{authenticate, is_authentic, SecretKey};

verus! {

/// Where the checks made before the primitive is asked have led.
#[derive(Clone, Debug, PartialEq, Eq)]
pub enum Validation {
    /// The artifact is rejected, for the reason given.
    Rejected(Error),
    /// The artifact stands or falls with the primitive's answer to this
    /// request.
    Verify(VerifyRequest),
}

/// The outcome of the checks, as plain values.
pub enum ValidationView {
    Rejected(Error),
    Verify(VerifyRequestView),
}

impl View for Validation {
    type V = ValidationView;

    open spec fn view(&self) -> ValidationView {
        match self {
            Validation::Rejected(error) => ValidationView::Rejected(*error),
            Validation::Verify(request) => ValidationView::Verify(request@),
        }
    }
}

/// The request that checking `artifact` puts to the primitive. Setup and
/// replica identity are derived from the artifact's configuration and seed;
/// nothing else in the artifact is taken for them.
pub open spec fn verify_request_of(artifact: ArtifactView) -> VerifyRequestView
    recommends
        artifact.payload is Layered ==> artifact.commitment_star is Some,
{
    match artifact.payload {
        PayloadView::SingleLayer(_) => VerifyRequestView {
            setup: Setup::SingleLayer(single_layer_setup_of(artifact.config)),
            inputs: single_layer_inputs_of(
                replica_id_for(artifact.seed),
                artifact.config.challenge_count,
                artifact.public_tau,
            ),
            payload: artifact.payload,
        },
        PayloadView::Layered(_) => VerifyRequestView {
            setup: Setup::Layered(layered_setup_of(artifact.config)),
            inputs: layered_inputs_of(
                replica_id_for(artifact.seed),
                artifact.public_tau,
                artifact.commitment_star->Some_0,
            ),
            payload: artifact.payload,
        },
    }
}

/// Why `artifact` is rejected before the primitive is asked, if it is. The
/// seed is looked at first; then whether the proof is of the configured
/// construction; then what a layered proof needs.
pub open spec fn rejection_of(artifact: ArtifactView, key: Seq<u8>) -> Option<Error> {
    if !is_authentic(artifact.seed, key) {
        Some(Error::Authentication)
    } else if !artifact.kind_matches() {
        Some(Error::Config)
    } else if artifact.payload.kind() == ProofKind::Layered && artifact.config.layered_params
        is None {
        Some(Error::Config)
    } else if artifact.payload.kind() == ProofKind::Layered && artifact.commitment_star is None {
        Some(Error::Serialization)
    } else {
        None
    }
}

/// Where the checks on `artifact` under `key` lead.
pub open spec fn validation_of(artifact: ArtifactView, key: Seq<u8>) -> ValidationView {
    match rejection_of(artifact, key) {
        Some(error) => ValidationView::Rejected(error),
        None => ValidationView::Verify(verify_request_of(artifact)),
    }
}

/// Whether the primitive's answer confirms a proof: only a plain yes does.
pub open spec fn confirms(answer: Result<bool, Error>) -> bool {
    answer == Ok::<bool, Error>(true)
}

/// The verdict on `artifact`, given the answer that the primitive gives to the
/// request made of it.
pub open spec fn verdict_of(
    artifact: ArtifactView,
    key: Seq<u8>,
    answer: Result<bool, Error>,
) -> bool {
    rejection_of(artifact, key) is None && confirms(answer)
}

/// Makes the checks that come before the primitive is asked: authenticates
/// the seed, derives replica identity and setup afresh, and sees that the
/// artifact holds what its construction needs.
pub fn examine(artifact: &Artifact, key: &SecretKey) -> (validation: Validation)
    ensures
        validation@ == validation_of(artifact@, key@),
{
    if !authenticate(&artifact.seed, key) {
        return Validation::Rejected(Error::Authentication);
    }
    let replica_id = id_from_str(artifact.seed.seed.as_str());
    match &artifact.payload {
        ProofPayload::SingleLayer(_) => {
            match artifact.config.kind {
                ProofKind::SingleLayer => {},
                ProofKind::Layered => {
                    return Validation::Rejected(Error::Config);
                },
            }
            Validation::Verify(
                VerifyRequest {
                    setup: Setup::SingleLayer(derive_single_layer(&artifact.config)),
                    inputs: single_layer_inputs(
                        replica_id,
                        artifact.config.challenge_count,
                        copy_bytes(&artifact.public_tau),
                    ),
                    payload: copy_payload(&artifact.payload),
                },
            )
        },
        ProofPayload::Layered(_) => {
            match artifact.config.kind {
                ProofKind::SingleLayer => {
                    return Validation::Rejected(Error::Config);
                },
                ProofKind::Layered => {},
            }
            if artifact.config.layered_params.is_none() {
                return Validation::Rejected(Error::Config);
            }
            match &artifact.commitment_star {
                None => Validation::Rejected(Error::Serialization),
                Some(commitment_star) => Validation::Verify(
                    VerifyRequest {
                        setup: Setup::Layered(derive_layered(&artifact.config)),
                        inputs: layered_inputs(
                            replica_id,
                            copy_bytes(&artifact.public_tau),
                            copy_bytes(commitment_star),
                        ),
                        payload: copy_payload(&artifact.payload),
                    },
                ),
            }
        },
    }
}

/// Checks `artifact` under `key`, with `verify` standing for the primitive.
///
/// A rejected artifact is not valid, and the primitive is not asked about it.
/// Otherwise the primitive is asked once, the request derived from the
/// artifact, and the artifact is valid exactly when the answer is a plain yes.
pub fn validate<F: FnOnce(VerifyRequest) -> Result<bool, Error>>(
    artifact: &Artifact,
    key: &SecretKey,
    verify: F,
) -> (valid: bool)
    requires
        forall|request: VerifyRequest|
            request@ == verify_request_of(artifact@) ==> call_requires(verify, (request,)),
    ensures
        rejection_of(artifact@, key@) is Some ==> !valid,
        rejection_of(artifact@, key@) is None ==> exists|
            request: VerifyRequest,
            answer: Result<bool, Error>,
        |
            request@ == verify_request_of(artifact@) && #[trigger] call_ensures(
                verify,
                (request,),
                answer,
            ) && valid == confirms(answer),
{
    match examine(artifact, key) {
        Validation::Rejected(_) => false,
        Validation::Verify(request) => {
            let ghost asked = request;
            let answer = verify(request);
            let valid = conclude(answer);
            assert(call_ensures(verify, (asked,), answer) && valid == confirms(answer));
            valid
        },
    }
}

/// Reads the artifact that `text` writes and checks it under `key`, with
/// `verify` standing for the primitive. Text that no artifact is written as
/// is a serialization error.
pub fn v_proof<F: FnOnce(VerifyRequest) -> Result<bool, Error>>(
    text: &[u8],
    key: &SecretKey,
    verify: F,
) -> (checked: Result<(Artifact, bool), Error>)
    requires
        forall|request: VerifyRequest| call_requires(verify, (request,)),
    ensures
        checked is Err ==> checked->Err_0 == Error::Serialization,
        forall|artifact: ArtifactView| #[trigger]
            encoding(artifact) == text@ ==> checked is Ok && checked->Ok_0.0@ == artifact,
        checked matches Ok((artifact, valid)) ==> {
            &&& encoding(artifact@) == text@
            &&& rejection_of(artifact@, key@) is Some ==> !valid
            &&& rejection_of(artifact@, key@) is None ==> exists|
                request: VerifyRequest,
                answer: Result<bool, Error>,
            |
                request@ == verify_request_of(artifact@) && #[trigger] call_ensures(
                    verify,
                    (request,),
                    answer,
                ) && valid == confirms(answer)
        },
{
    match decode(text) {
        Ok(artifact) => {
            let valid = validate(&artifact, key, verify);
            Ok((artifact, valid))
        },
        Err(error) => Err(error),
    }
}

/// The verdict that the primitive's answer gives: a failure of the primitive
/// counts as a proof that does not hold.
pub fn conclude(answer: Result<bool, Error>) -> (valid: bool)
    ensures
        valid == confirms(answer),
{
    match answer {
        Ok(holds) => holds,
        Err(_) => false,
    }
}

/// The line that reports a verdict.
pub fn verdict_text(valid: bool) -> (text: &'static str)
    ensures
        valid ==> text@ == "success"@,
        !valid ==> text@ == "proofs are invalid"@,
{
    if valid {
        "success"
    } else {
        "proofs are invalid"
    }
}

/// A layered proof whose configuration has lost its layered parameters is
/// rejected, whatever the primitive would say of the proof.
pub proof fn lemma_stripped_layered_params_rejected(
    artifact: ArtifactView,
    key: Seq<u8>,
    answer: Result<bool, Error>,
)
    requires
        artifact.payload.kind() == ProofKind::Layered,
        artifact.config.layered_params is None,
    ensures
        validation_of(artifact, key) is Rejected,
        !verdict_of(artifact, key, answer),
{
}

/// A layered proof that has lost its commitment over all layers is rejected,
/// whatever the primitive would say of the proof.
pub proof fn lemma_stripped_commitment_rejected(
    artifact: ArtifactView,
    key: Seq<u8>,
    answer: Result<bool, Error>,
)
    requires
        artifact.payload.kind() == ProofKind::Layered,
        artifact.commitment_star is None,
    ensures
        validation_of(artifact, key) is Rejected,
        !verdict_of(artifact, key, answer),
{
}

/// Acceptance needs all of: an authentic seed, a structurally complete
/// artifact, and the primitive's confirmation. Authentication gates the rest:
/// where it fails, that is the reason given.
pub proof fn lemma_verdict_needs_everything(
    artifact: ArtifactView,
    key: Seq<u8>,
    answer: Result<bool, Error>,
)
    ensures
        verdict_of(artifact, key, answer) <==> is_authentic(artifact.seed, key)
            && artifact.is_complete() && confirms(answer),
        !is_authentic(artifact.seed, key) ==> validation_of(artifact, key)
            == ValidationView::Rejected(Error::Authentication),
{
}

} // verus!
