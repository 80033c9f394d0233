//! Producing a proof: a run goes from a seed through setup, replication and
//! proving to an artifact, and emits the artifact only once the primitive has
//! confirmed the proof it just made. The run decides; the caller does the
//! primitive's work and reports back.

use vstd::prelude::*;
use crate::artifact::{Artifact, ArtifactView};
use crate::codec::{encode, encoding};
use crate::error::Error;
use crate::hex_text::{hex_decode, is_hex};
use crate::params::{
    derive_layered,
    derive_node_count,
    derive_single_layer,
    layered_setup_of,
    node_count_of,
    single_layer_setup_of,
    ProofConfig,
    ProofKind,
};
use crate::primitive::{
    copy_bytes,
    layered_inputs,
    layered_inputs_of,
    single_layer_inputs,
    single_layer_inputs_of,
    PayloadView,
    ProofPayload,
    PublicInputs,
    PublicInputsView,
    Setup,
    VerifyRequest,
    VerifyRequestView,
};
use crate::replica::{id_from_str, replica_id_for};
use crate::seed::{is_authentic, Seed, SeedView};
use crate::validator::{
    confirms,
    validation_of,
    verdict_of,
    verify_request_of,
    ValidationView,
};

verus! {

/// How far a run has come.
#[derive(Clone, Copy, Debug, PartialEq, Eq, Structural)]
pub enum Phase {
    Idle,
    SeedIssued,
    ParametersDerived,
    Replicating,
    Proving,
    SelfVerified,
    ArtifactEmitted,
    Aborted,
}

/// Where the plaintext of a replica is to be kept.
#[derive(Clone, Copy, Debug, PartialEq, Eq, Structural)]
pub enum Storage {
    /// In a buffer in memory.
    Memory,
    /// In a temporary file mapped into memory.
    MappedFile,
}

/// The commitments that replication yields.
#[derive(Clone, Debug, PartialEq, Eq)]
pub enum Commitments {
    SingleLayer { tau: Vec<u8> },
    Layered { tau: Vec<u8>, commitment_star: Vec<u8> },
}

/// Commitments, as plain values.
pub enum CommitmentsView {
    SingleLayer { tau: Seq<u8> },
    Layered { tau: Seq<u8>, commitment_star: Seq<u8> },
}

impl View for Commitments {
    type V = CommitmentsView;

    open spec fn view(&self) -> CommitmentsView {
        match self {
            Commitments::SingleLayer { tau } => CommitmentsView::SingleLayer { tau: tau@ },
            Commitments::Layered { tau, commitment_star } => CommitmentsView::Layered {
                tau: tau@,
                commitment_star: commitment_star@,
            },
        }
    }
}

impl CommitmentsView {
    /// The construction that the commitments belong to.
    pub open spec fn kind(self) -> ProofKind {
        match self {
            CommitmentsView::SingleLayer { .. } => ProofKind::SingleLayer,
            CommitmentsView::Layered { .. } => ProofKind::Layered,
        }
    }

    /// The public commitment of the replica.
    pub open spec fn tau(self) -> Seq<u8> {
        match self {
            CommitmentsView::SingleLayer { tau } => tau,
            CommitmentsView::Layered { tau, .. } => tau,
        }
    }

    /// The commitment over all layers, which only a layered replica has.
    pub open spec fn commitment_star(self) -> Option<Seq<u8>> {
        match self {
            CommitmentsView::SingleLayer { .. } => None,
            CommitmentsView::Layered { commitment_star, .. } => Some(commitment_star),
        }
    }
}

/// What the caller reports to a run.
#[derive(Clone, Debug, PartialEq, Eq)]
pub enum Event {
    /// A seed has been issued for the run.
    SeedIssued(Seed),
    /// The primitive has set up its public parameters.
    SetupDone,
    /// The primitive has replicated the data.
    Replicated { tau: Vec<u8>, commitment_star: Option<Vec<u8>> },
    /// The primitive has produced a proof.
    Proved(Vec<u8>),
    /// The primitive has answered whether the proof holds.
    Verified(bool),
    /// The primitive has failed.
    Failed,
}

/// An event, as plain values.
pub enum EventView {
    SeedIssued(SeedView),
    SetupDone,
    Replicated { tau: Seq<u8>, commitment_star: Option<Seq<u8>> },
    Proved(Seq<u8>),
    Verified(bool),
    Failed,
}

impl View for Event {
    type V = EventView;

    open spec fn view(&self) -> EventView {
        match self {
            Event::SeedIssued(seed) => EventView::SeedIssued(seed@),
            Event::SetupDone => EventView::SetupDone,
            Event::Replicated { tau, commitment_star } => EventView::Replicated {
                tau: tau@,
                commitment_star: match commitment_star {
                    Some(bytes) => Some(bytes@),
                    None => None,
                },
            },
            Event::Proved(bytes) => EventView::Proved(bytes@),
            Event::Verified(holds) => EventView::Verified(*holds),
            Event::Failed => EventView::Failed,
        }
    }
}

/// What a run asks of its caller.
#[derive(Clone, Debug, PartialEq, Eq)]
pub enum Action {
    /// Make plaintext of `nodes` field elements, kept as `storage` says, and
    /// have the primitive set up public parameters for `setup`.
    Setup { setup: Setup, nodes: usize, storage: Storage },
    /// Have the primitive replicate the plaintext under `replica_id`.
    Replicate { replica_id: Vec<u8> },
    /// Have the primitive prove the replica for these public inputs.
    Prove(PublicInputs),
    /// Have the primitive check the proof it just made.
    Verify(VerifyRequest),
    /// Hand out the artifact: the run has ended well.
    Emit(Artifact),
    /// Give up: the run has failed, for the reason given.
    Abort(Error),
    /// Nothing: the run had ended before.
    Halt,
}

/// An action, as plain values.
pub enum ActionView {
    Setup { setup: Setup, nodes: usize, storage: Storage },
    Replicate { replica_id: Seq<u8> },
    Prove(PublicInputsView),
    Verify(VerifyRequestView),
    Emit(ArtifactView),
    Abort(Error),
    Halt,
}

impl View for Action {
    type V = ActionView;

    open spec fn view(&self) -> ActionView {
        match self {
            Action::Setup { setup, nodes, storage } => ActionView::Setup {
                setup: *setup,
                nodes: *nodes,
                storage: *storage,
            },
            Action::Replicate { replica_id } => ActionView::Replicate { replica_id: replica_id@ },
            Action::Prove(inputs) => ActionView::Prove(inputs@),
            Action::Verify(request) => ActionView::Verify(request@),
            Action::Emit(artifact) => ActionView::Emit(artifact@),
            Action::Abort(error) => ActionView::Abort(*error),
            Action::Halt => ActionView::Halt,
        }
    }
}

/// What a run holds at each point where it waits for its caller.
enum Stage {
    Idle,
    AwaitingSetup { seed: Seed },
    AwaitingReplica { seed: Seed },
    AwaitingProof { seed: Seed, commitments: Commitments },
    AwaitingConfirmation { seed: Seed, commitments: Commitments, payload: Vec<u8> },
    Emitted,
    Aborted,
}

/// What a run holds, as plain values.
pub enum StageView {
    /// No seed has been issued yet.
    Idle,
    /// Parameters are derived; the primitive's setup is awaited.
    AwaitingSetup { seed: SeedView },
    /// Replication is awaited.
    AwaitingReplica { seed: SeedView },
    /// The proof is awaited.
    AwaitingProof { seed: SeedView, commitments: CommitmentsView },
    /// The proof is made; the primitive's word on it is awaited.
    AwaitingConfirmation { seed: SeedView, commitments: CommitmentsView, payload: Seq<u8> },
    /// The artifact has been handed out.
    Emitted,
    /// The run has failed.
    Aborted,
}

impl StageView {
    /// The phase that a run is in while it waits at this point.
    pub open spec fn phase(self) -> Phase {
        match self {
            StageView::Idle => Phase::Idle,
            StageView::AwaitingSetup { .. } => Phase::ParametersDerived,
            StageView::AwaitingReplica { .. } => Phase::Replicating,
            StageView::AwaitingProof { .. } => Phase::Proving,
            StageView::AwaitingConfirmation { .. } => Phase::Proving,
            StageView::Emitted => Phase::ArtifactEmitted,
            StageView::Aborted => Phase::Aborted,
        }
    }

    /// Whether the run has ended.
    pub open spec fn is_final(self) -> bool {
        self is Emitted || self is Aborted
    }
}

/// One proving run.
pub struct ProofRun {
    prover_name: String,
    config: ProofConfig,
    stage: Stage,
}

/// A run, as plain values.
pub struct RunView {
    pub prover_name: Seq<char>,
    pub config: ProofConfig,
    pub stage: StageView,
}

impl RunView {
    /// Whether the run holds what a run can come to hold: a seed whose text
    /// is hexadecimal, and commitments of the configured construction.
    pub open spec fn coherent(self) -> bool {
        &&& match seed_held(self.stage) {
            Some(seed) => is_hex(seed.text),
            None => true,
        }
        &&& match commitments_held(self.stage) {
            Some(commitments) => commitments.kind() == self.config.kind,
            None => true,
        }
    }
}

/// A run after one step, and what the step asks of the caller.
pub struct StepView {
    pub run: RunView,
    pub action: ActionView,
}

impl Stage {
    spec fn as_view(self) -> StageView {
        match self {
            Stage::Idle => StageView::Idle,
            Stage::AwaitingSetup { seed } => StageView::AwaitingSetup { seed: seed@ },
            Stage::AwaitingReplica { seed } => StageView::AwaitingReplica { seed: seed@ },
            Stage::AwaitingProof { seed, commitments } => StageView::AwaitingProof {
                seed: seed@,
                commitments: commitments@,
            },
            Stage::AwaitingConfirmation { seed, commitments, payload } => {
                StageView::AwaitingConfirmation {
                    seed: seed@,
                    commitments: commitments@,
                    payload: payload@,
                }
            },
            Stage::Emitted => StageView::Emitted,
            Stage::Aborted => StageView::Aborted,
        }
    }
}

impl View for ProofRun {
    type V = RunView;

    closed spec fn view(&self) -> RunView {
        RunView {
            prover_name: self.prover_name@,
            config: self.config,
            stage: self.stage.as_view(),
        }
    }
}

/// The seed that a run holds, if it holds one.
pub open spec fn seed_held(stage: StageView) -> Option<SeedView> {
    match stage {
        StageView::AwaitingSetup { seed } => Some(seed),
        StageView::AwaitingReplica { seed } => Some(seed),
        StageView::AwaitingProof { seed, .. } => Some(seed),
        StageView::AwaitingConfirmation { seed, .. } => Some(seed),
        _ => None,
    }
}

/// The commitments that a run holds, if it holds any.
pub open spec fn commitments_held(stage: StageView) -> Option<CommitmentsView> {
    match stage {
        StageView::AwaitingProof { commitments, .. } => Some(commitments),
        StageView::AwaitingConfirmation { commitments, .. } => Some(commitments),
        _ => None,
    }
}

/// The setup that a run of `config` asks for: that of the configured
/// construction.
pub open spec fn setup_of(config: ProofConfig) -> Setup {
    match config.kind {
        ProofKind::SingleLayer => Setup::SingleLayer(single_layer_setup_of(config)),
        ProofKind::Layered => Setup::Layered(layered_setup_of(config)),
    }
}

/// Where the plaintext of a run of `kind` is kept: in memory for a single
/// layer, in a mapped temporary file for the layered construction.
pub open spec fn storage_of(kind: ProofKind) -> Storage {
    match kind {
        ProofKind::SingleLayer => Storage::Memory,
        ProofKind::Layered => Storage::MappedFile,
    }
}

/// The commitments that a run of `kind` keeps of what replication yielded, or
/// `None` where a layered replication came without its commitment over all
/// layers.
pub open spec fn commitments_of(
    kind: ProofKind,
    tau: Seq<u8>,
    commitment_star: Option<Seq<u8>>,
) -> Option<CommitmentsView> {
    match kind {
        ProofKind::SingleLayer => Some(CommitmentsView::SingleLayer { tau }),
        ProofKind::Layered => match commitment_star {
            Some(star) => Some(CommitmentsView::Layered { tau, commitment_star: star }),
            None => None,
        },
    }
}

/// The public inputs of the proof of a replica.
pub open spec fn inputs_of(
    seed: SeedView,
    config: ProofConfig,
    commitments: CommitmentsView,
) -> PublicInputsView {
    match commitments {
        CommitmentsView::SingleLayer { tau } => single_layer_inputs_of(
            replica_id_for(seed),
            config.challenge_count,
            tau,
        ),
        CommitmentsView::Layered { tau, commitment_star } => layered_inputs_of(
            replica_id_for(seed),
            tau,
            commitment_star,
        ),
    }
}

/// The setup under which the proof of a replica is made and checked.
pub open spec fn setup_for(config: ProofConfig, commitments: CommitmentsView) -> Setup {
    match commitments {
        CommitmentsView::SingleLayer { .. } => Setup::SingleLayer(single_layer_setup_of(config)),
        CommitmentsView::Layered { .. } => Setup::Layered(layered_setup_of(config)),
    }
}

/// The proof of a replica, marked with its construction.
pub open spec fn payload_of(commitments: CommitmentsView, bytes: Seq<u8>) -> PayloadView {
    match commitments {
        CommitmentsView::SingleLayer { .. } => PayloadView::SingleLayer(bytes),
        CommitmentsView::Layered { .. } => PayloadView::Layered(bytes),
    }
}

/// The request by which a run has its own proof checked.
pub open spec fn self_check_of(
    seed: SeedView,
    config: ProofConfig,
    commitments: CommitmentsView,
    bytes: Seq<u8>,
) -> VerifyRequestView {
    VerifyRequestView {
        setup: setup_for(config, commitments),
        inputs: inputs_of(seed, config, commitments),
        payload: payload_of(commitments, bytes),
    }
}

/// The artifact that a run assembles.
pub open spec fn artifact_of(
    run: RunView,
    seed: SeedView,
    commitments: CommitmentsView,
    bytes: Seq<u8>,
) -> ArtifactView {
    ArtifactView {
        prover_name: run.prover_name,
        seed,
        config: run.config,
        payload: payload_of(commitments, bytes),
        commitment_star: commitments.commitment_star(),
        public_tau: commitments.tau(),
    }
}

/// A run that moves to `stage` and asks for `action`.
pub open spec fn moved(run: RunView, stage: StageView, action: ActionView) -> StepView {
    StepView {
        run: RunView { prover_name: run.prover_name, config: run.config, stage },
        action,
    }
}

/// A run that gives up for `error`.
pub open spec fn aborted(run: RunView, error: Error) -> StepView {
    moved(run, StageView::Aborted, ActionView::Abort(error))
}

/// The step that `run` takes on `event`.
///
/// A run that has ended stays as it is. Otherwise the one event that the run
/// waits for moves it on; a seed whose text is not hexadecimal fails
/// authentication; anything else, a failure of the primitive and a proof that
/// the primitive does not confirm among them, makes the run give up.
pub open spec fn step_of(run: RunView, event: EventView) -> StepView {
    match run.stage {
        StageView::Emitted => StepView { run, action: ActionView::Halt },
        StageView::Aborted => StepView { run, action: ActionView::Halt },
        StageView::Idle => match event {
            EventView::SeedIssued(seed) => if is_hex(seed.text) {
                moved(
                    run,
                    StageView::AwaitingSetup { seed },
                    ActionView::Setup {
                        setup: setup_of(run.config),
                        nodes: node_count_of(run.config.size_bytes),
                        storage: storage_of(run.config.kind),
                    },
                )
            } else {
                aborted(run, Error::Authentication)
            },
            _ => aborted(run, Error::Primitive),
        },
        StageView::AwaitingSetup { seed } => match event {
            EventView::SetupDone => moved(
                run,
                StageView::AwaitingReplica { seed },
                ActionView::Replicate { replica_id: replica_id_for(seed) },
            ),
            _ => aborted(run, Error::Primitive),
        },
        StageView::AwaitingReplica { seed } => match event {
            EventView::Replicated { tau, commitment_star } => match commitments_of(
                run.config.kind,
                tau,
                commitment_star,
            ) {
                Some(commitments) => moved(
                    run,
                    StageView::AwaitingProof { seed, commitments },
                    ActionView::Prove(inputs_of(seed, run.config, commitments)),
                ),
                None => aborted(run, Error::Primitive),
            },
            _ => aborted(run, Error::Primitive),
        },
        StageView::AwaitingProof { seed, commitments } => match event {
            EventView::Proved(bytes) => moved(
                run,
                StageView::AwaitingConfirmation { seed, commitments, payload: bytes },
                ActionView::Verify(self_check_of(seed, run.config, commitments, bytes)),
            ),
            _ => aborted(run, Error::Primitive),
        },
        StageView::AwaitingConfirmation { seed, commitments, payload } => match event {
            EventView::Verified(true) => moved(
                run,
                StageView::Emitted,
                ActionView::Emit(artifact_of(run, seed, commitments, payload)),
            ),
            _ => aborted(run, Error::Primitive),
        },
    }
}

/// The phases that `run` passes on `event`, in order; the last is the one it
/// then waits in. A seed takes an idle run through `SeedIssued` to
/// `ParametersDerived`; a confirmation takes it through `SelfVerified` to
/// `ArtifactEmitted`.
pub open spec fn phases_passed(run: RunView, event: EventView) -> Seq<Phase> {
    let next = step_of(run, event).run.stage;
    if run.stage.is_final() {
        Seq::empty()
    } else if next is Aborted {
        seq![Phase::Aborted]
    } else if run.stage is Idle {
        seq![Phase::SeedIssued, Phase::ParametersDerived]
    } else if next is Emitted {
        seq![Phase::SelfVerified, Phase::ArtifactEmitted]
    } else if run.stage is AwaitingProof {
        Seq::empty()
    } else {
        seq![next.phase()]
    }
}

/// The place of a phase in the order in which a run passes the phases.
pub open spec fn phase_rank(phase: Phase) -> int {
    match phase {
        Phase::Idle => 0,
        Phase::SeedIssued => 1,
        Phase::ParametersDerived => 2,
        Phase::Replicating => 3,
        Phase::Proving => 4,
        Phase::SelfVerified => 5,
        Phase::ArtifactEmitted => 6,
        Phase::Aborted => 7,
    }
}

/// Derives the setup of the configured construction.
pub fn derive_setup(config: &ProofConfig) -> (setup: Setup)
    ensures
        setup == setup_of(*config),
{
    match config.kind {
        ProofKind::SingleLayer => Setup::SingleLayer(derive_single_layer(config)),
        ProofKind::Layered => Setup::Layered(derive_layered(config)),
    }
}

/// Builds the public inputs of the proof of a replica.
fn build_inputs(seed: &Seed, config: &ProofConfig, commitments: &Commitments) -> (inputs:
    PublicInputs)
    requires
        is_hex(seed@.text),
    ensures
        inputs@ == inputs_of(seed@, *config, commitments@),
{
    let replica_id = id_from_str(seed.seed.as_str());
    match commitments {
        Commitments::SingleLayer { tau } => single_layer_inputs(
            replica_id,
            config.challenge_count,
            copy_bytes(tau),
        ),
        Commitments::Layered { tau, commitment_star } => layered_inputs(
            replica_id,
            copy_bytes(tau),
            copy_bytes(commitment_star),
        ),
    }
}

/// Builds the request by which a run has its own proof checked.
fn build_self_check(
    seed: &Seed,
    config: &ProofConfig,
    commitments: &Commitments,
    bytes: &Vec<u8>,
) -> (request: VerifyRequest)
    requires
        is_hex(seed@.text),
    ensures
        request@ == self_check_of(seed@, *config, commitments@, bytes@),
{
    let inputs = build_inputs(seed, config, commitments);
    match commitments {
        Commitments::SingleLayer { .. } => VerifyRequest {
            setup: Setup::SingleLayer(derive_single_layer(config)),
            inputs,
            payload: ProofPayload::SingleLayer(copy_bytes(bytes)),
        },
        Commitments::Layered { .. } => VerifyRequest {
            setup: Setup::Layered(derive_layered(config)),
            inputs,
            payload: ProofPayload::Layered(copy_bytes(bytes)),
        },
    }
}

impl ProofRun {
    #[verifier::type_invariant]
    spec fn holds_together(&self) -> bool {
        self@.coherent()
    }

    /// The run as it stands before a seed is issued.
    pub open spec fn idle(prover_name: Seq<char>, config: ProofConfig) -> RunView {
        RunView { prover_name, config, stage: StageView::Idle }
    }

    /// A run for `prover_name` with `config`, for which no seed is issued yet.
    pub fn new(prover_name: String, config: ProofConfig) -> (run: ProofRun)
        ensures
            run@ == Self::idle(prover_name@, config),
            run@.coherent(),
    {
        ProofRun { prover_name, config, stage: Stage::Idle }
    }

    /// The phase that the run waits in.
    pub fn phase(&self) -> (phase: Phase)
        ensures
            phase == self@.stage.phase(),
    {
        match &self.stage {
            Stage::Idle => Phase::Idle,
            Stage::AwaitingSetup { .. } => Phase::ParametersDerived,
            Stage::AwaitingReplica { .. } => Phase::Replicating,
            Stage::AwaitingProof { .. } => Phase::Proving,
            Stage::AwaitingConfirmation { .. } => Phase::Proving,
            Stage::Emitted => Phase::ArtifactEmitted,
            Stage::Aborted => Phase::Aborted,
        }
    }

    /// Takes the step that `event` calls for, and says what the caller is to
    /// do next.
    pub fn advance(self, event: Event) -> (step: (ProofRun, Action))
        ensures
            step.0@ == step_of(self@, event@).run,
            step.1@ == step_of(self@, event@).action,
            step.0@.coherent(),
    {
        proof {
            use_type_invariant(&self);
        }
        let ProofRun { prover_name, config, stage } = self;
        match stage {
            Stage::Emitted => (ProofRun { prover_name, config, stage: Stage::Emitted }, Action::Halt),
            Stage::Aborted => (ProofRun { prover_name, config, stage: Stage::Aborted }, Action::Halt),
            Stage::Idle => match event {
                Event::SeedIssued(seed) => {
                    if hex_decode(seed.seed.as_str()).is_some() {
                        let action = Action::Setup {
                            setup: derive_setup(&config),
                            nodes: derive_node_count(&config),
                            storage: match config.kind {
                                ProofKind::SingleLayer => Storage::Memory,
                                ProofKind::Layered => Storage::MappedFile,
                            },
                        };
                        (ProofRun { prover_name, config, stage: Stage::AwaitingSetup { seed } }, action)
                    } else {
                        (
                            ProofRun { prover_name, config, stage: Stage::Aborted },
                            Action::Abort(Error::Authentication),
                        )
                    }
                },
                _ => (
                    ProofRun { prover_name, config, stage: Stage::Aborted },
                    Action::Abort(Error::Primitive),
                ),
            },
            Stage::AwaitingSetup { seed } => match event {
                Event::SetupDone => {
                    let replica_id = id_from_str(seed.seed.as_str());
                    (
                        ProofRun { prover_name, config, stage: Stage::AwaitingReplica { seed } },
                        Action::Replicate { replica_id },
                    )
                },
                _ => (
                    ProofRun { prover_name, config, stage: Stage::Aborted },
                    Action::Abort(Error::Primitive),
                ),
            },
            Stage::AwaitingReplica { seed } => match event {
                Event::Replicated { tau, commitment_star } => {
                    let kept = match config.kind {
                        ProofKind::SingleLayer => Some(Commitments::SingleLayer { tau }),
                        ProofKind::Layered => match commitment_star {
                            Some(star) => Some(Commitments::Layered { tau, commitment_star: star }),
                            None => None,
                        },
                    };
                    match kept {
                        Some(commitments) => {
                            let inputs = build_inputs(&seed, &config, &commitments);
                            (
                                ProofRun {
                                    prover_name,
                                    config,
                                    stage: Stage::AwaitingProof { seed, commitments },
                                },
                                Action::Prove(inputs),
                            )
                        },
                        None => (
                            ProofRun { prover_name, config, stage: Stage::Aborted },
                            Action::Abort(Error::Primitive),
                        ),
                    }
                },
                _ => (
                    ProofRun { prover_name, config, stage: Stage::Aborted },
                    Action::Abort(Error::Primitive),
                ),
            },
            Stage::AwaitingProof { seed, commitments } => match event {
                Event::Proved(bytes) => {
                    let request = build_self_check(&seed, &config, &commitments, &bytes);
                    (
                        ProofRun {
                            prover_name,
                            config,
                            stage: Stage::AwaitingConfirmation { seed, commitments, payload: bytes },
                        },
                        Action::Verify(request),
                    )
                },
                _ => (
                    ProofRun { prover_name, config, stage: Stage::Aborted },
                    Action::Abort(Error::Primitive),
                ),
            },
            Stage::AwaitingConfirmation { seed, commitments, payload } => match event {
                Event::Verified(true) => {
                    let name = prover_name.clone();
                    let artifact = match commitments {
                        Commitments::SingleLayer { tau } => Artifact {
                            prover_name: name,
                            seed,
                            config,
                            payload: ProofPayload::SingleLayer(payload),
                            commitment_star: None,
                            public_tau: tau,
                        },
                        Commitments::Layered { tau, commitment_star } => Artifact {
                            prover_name: name,
                            seed,
                            config,
                            payload: ProofPayload::Layered(payload),
                            commitment_star: Some(commitment_star),
                            public_tau: tau,
                        },
                    };
                    (ProofRun { prover_name, config, stage: Stage::Emitted }, Action::Emit(artifact))
                },
                _ => (
                    ProofRun { prover_name, config, stage: Stage::Aborted },
                    Action::Abort(Error::Primitive),
                ),
            },
        }
    }
}

/// Begins a run with `seed`: the step that an idle run takes on the seed.
pub fn begin(prover_name: String, config: ProofConfig, seed: Seed) -> (step: (ProofRun, Action))
    ensures
        step.0@ == step_of(ProofRun::idle(prover_name@, config), EventView::SeedIssued(seed@)).run,
        step.1@ == step_of(
            ProofRun::idle(prover_name@, config),
            EventView::SeedIssued(seed@),
        ).action,
        step.0@.coherent(),
{
    ProofRun::new(prover_name, config).advance(Event::SeedIssued(seed))
}

/// The number of steps that a run can still take.
pub open spec fn steps_left(stage: StageView) -> nat {
    match stage {
        StageView::Idle => 5,
        StageView::AwaitingSetup { .. } => 4,
        StageView::AwaitingReplica { .. } => 3,
        StageView::AwaitingProof { .. } => 2,
        StageView::AwaitingConfirmation { .. } => 1,
        StageView::Emitted => 0,
        StageView::Aborted => 0,
    }
}

/// Whether `action` is what `run` has asked for and not yet had an answer to.
pub open spec fn waits_on(run: RunView, action: ActionView) -> bool {
    match run.stage {
        StageView::Idle => false,
        StageView::AwaitingSetup { .. } => action is Setup,
        StageView::AwaitingReplica { .. } => action is Replicate,
        StageView::AwaitingProof { .. } => action is Prove,
        StageView::AwaitingConfirmation { seed, commitments, payload } => action
            == ActionView::Verify(self_check_of(seed, run.config, commitments, payload)),
        StageView::Emitted => action is Emit,
        StageView::Aborted => action is Abort,
    }
}

/// Whether `event` is the answer of a primitive that does what `action` asks
/// of it, in a run of the construction `kind`: it sets up, it replicates, and
/// with the layered construction gives the commitment over all layers, it
/// proves, and it says of the proof that it holds.
pub open spec fn does_its_part(kind: ProofKind, action: ActionView, event: EventView) -> bool {
    match action {
        ActionView::Setup { .. } => event is SetupDone,
        ActionView::Replicate { .. } => event matches EventView::Replicated {
            commitment_star,
            ..
        } && (kind == ProofKind::Layered ==> commitment_star is Some),
        ActionView::Prove(_) => event is Proved,
        ActionView::Verify(_) => event == EventView::Verified(true),
        _ => true,
    }
}

/// Whether `primitive` does its part at every step of a run of the
/// construction `kind`.
pub open spec fn always_does_its_part<F: Fn(Action) -> Event>(primitive: F, kind: ProofKind) -> bool {
    forall|action: Action, event: Event| #[trigger]
        call_ensures(primitive, (action,), event) ==> does_its_part(kind, action@, event@)
}

/// Whether `artifact` is what a run for `prover_name` with `config` and `seed`
/// hands out when `primitive` does the primitive's work: it holds the three as
/// they were given, a proof of the configured construction, the commitment
/// over all layers exactly for the layered construction, and the primitive
/// has said of the very request that a verifier derives from the artifact
/// that the proof holds.
pub open spec fn handed_out<F: Fn(Action) -> Event>(
    primitive: F,
    prover_name: Seq<char>,
    config: ProofConfig,
    seed: SeedView,
    artifact: ArtifactView,
) -> bool {
    &&& artifact.prover_name == prover_name
    &&& artifact.seed == seed
    &&& artifact.config == config
    &&& artifact.kind_matches()
    &&& artifact.commitment_star is Some <==> config.kind == ProofKind::Layered
    &&& exists|request: VerifyRequest|
        request@ == verify_request_of(artifact) && #[trigger] call_ensures(
            primitive,
            (Action::Verify(request),),
            Event::Verified(true),
        )
}

/// Takes a run from `seed` to its end, with `primitive` doing what each step
/// asks for. The artifact comes back only if the primitive has confirmed the
/// proof in it, and it does come back where the primitive does its part at
/// every step. A seed whose text is not hexadecimal fails authentication;
/// every other failure is the primitive's.
pub fn run<F: Fn(Action) -> Event>(
    prover_name: String,
    config: ProofConfig,
    seed: Seed,
    primitive: F,
) -> (outcome: Result<Artifact, Error>)
    requires
        forall|action: Action| call_requires(primitive, (action,)),
    ensures
        !is_hex(seed@.text) ==> outcome is Err && outcome->Err_0 == Error::Authentication,
        is_hex(seed@.text) && outcome is Err ==> outcome->Err_0 == Error::Primitive,
        is_hex(seed@.text) && always_does_its_part(primitive, config.kind) ==> outcome is Ok,
        outcome matches Ok(artifact) ==> handed_out(
            primitive,
            prover_name@,
            config,
            seed@,
            artifact@,
        ),
{
    let ghost name = prover_name@;
    let ghost issued = seed@;
    let (first, asked) = begin(prover_name, config, seed);
    let mut run = first;
    let mut action = asked;
    loop
        invariant
            forall|action: Action| call_requires(primitive, (action,)),
            name == prover_name@,
            issued == seed@,
            run@.prover_name == name,
            run@.config == config,
            run@.coherent(),
            seed_held(run@.stage) matches Some(held) ==> held == issued,
            waits_on(run@, action@),
            action@ matches ActionView::Abort(error) ==> (error == Error::Authentication
                && !is_hex(issued.text)) || (error == Error::Primitive && is_hex(issued.text)),
            is_hex(issued.text) && always_does_its_part(primitive, config.kind) ==> !(action@
                is Abort),
            action@ matches ActionView::Emit(artifact) ==> is_hex(issued.text) && handed_out(
                primitive,
                name,
                config,
                issued,
                artifact,
            ),
        decreases steps_left(run@.stage),
    {
        match action {
            Action::Emit(artifact) => {
                return Ok(artifact);
            },
            Action::Abort(error) => {
                return Err(error);
            },
            Action::Halt => {
                return Err(Error::Primitive);
            },
            other => {
                let ghost asked = other;
                let event = primitive(other);
                let step = run.advance(event);
                run = step.0;
                action = step.1;
                proof {
                    assert(call_ensures(primitive, (asked,), event));
                    if action@ is Emit {
                        let request = asked->Verify_0;
                        assert(asked == Action::Verify(request));
                        assert(event == Event::Verified(true));
                        assert(request@ == verify_request_of(action@->Emit_0));
                    }
                }
            },
        }
    }
}

/// Proves with the single-layer construction, and hands back the text of the
/// artifact. A configuration of the other construction is refused.
pub fn porep_work<F: Fn(Action) -> Event>(
    prover: String,
    params: ProofConfig,
    seed: Seed,
    primitive: F,
) -> (outcome: Result<Vec<u8>, Error>)
    requires
        forall|action: Action| call_requires(primitive, (action,)),
    ensures
        params.kind != ProofKind::SingleLayer ==> outcome is Err && outcome->Err_0
            == Error::Config,
        params.kind == ProofKind::SingleLayer && !is_hex(seed@.text) ==> outcome is Err
            && outcome->Err_0 == Error::Authentication,
        params.kind == ProofKind::SingleLayer && is_hex(seed@.text) && outcome is Err
            ==> outcome->Err_0 == Error::Primitive,
        params.kind == ProofKind::SingleLayer && is_hex(seed@.text) && always_does_its_part(
            primitive,
            params.kind,
        ) ==> outcome is Ok,
        outcome matches Ok(text) ==> exists|artifact: ArtifactView|
            #[trigger] encoding(artifact) == text@ && handed_out(
                primitive,
                prover@,
                params,
                seed@,
                artifact,
            ),
{
    match params.kind {
        ProofKind::SingleLayer => match run(prover, params, seed, primitive) {
            Ok(artifact) => Ok(encode(&artifact)),
            Err(error) => Err(error),
        },
        ProofKind::Layered => Err(Error::Config),
    }
}

/// Proves with the layered construction, and hands back the text of the
/// artifact. A configuration of the other construction is refused.
pub fn zigzag_work<F: Fn(Action) -> Event>(
    prover: String,
    params: ProofConfig,
    seed: Seed,
    primitive: F,
) -> (outcome: Result<Vec<u8>, Error>)
    requires
        forall|action: Action| call_requires(primitive, (action,)),
    ensures
        params.kind != ProofKind::Layered ==> outcome is Err && outcome->Err_0 == Error::Config,
        params.kind == ProofKind::Layered && !is_hex(seed@.text) ==> outcome is Err
            && outcome->Err_0 == Error::Authentication,
        params.kind == ProofKind::Layered && is_hex(seed@.text) && outcome is Err
            ==> outcome->Err_0 == Error::Primitive,
        params.kind == ProofKind::Layered && is_hex(seed@.text) && always_does_its_part(
            primitive,
            params.kind,
        ) ==> outcome is Ok,
        outcome matches Ok(text) ==> exists|artifact: ArtifactView|
            #[trigger] encoding(artifact) == text@ && handed_out(
                primitive,
                prover@,
                params,
                seed@,
                artifact,
            ),
{
    match params.kind {
        ProofKind::Layered => match run(prover, params, seed, primitive) {
            Ok(artifact) => Ok(encode(&artifact)),
            Err(error) => Err(error),
        },
        ProofKind::SingleLayer => Err(Error::Config),
    }
}

/// A run that holds together still does after any step.
pub proof fn lemma_step_keeps_coherence(run: RunView, event: EventView)
    requires
        run.coherent(),
    ensures
        step_of(run, event).run.coherent(),
{
}

/// An artifact is emitted only on the primitive's confirmation of the proof
/// that the run holds, and every such confirmation emits one.
pub proof fn lemma_emits_only_confirmed(run: RunView, event: EventView)
    ensures
        step_of(run, event).action is Emit <==> run.stage is AwaitingConfirmation && event
            == EventView::Verified(true),
        step_of(run, event).action is Emit ==> step_of(run, event).run.stage is Emitted,
{
}

/// A run that has ended stays as it is and asks for nothing more.
pub proof fn lemma_ended_run_stays(run: RunView, event: EventView)
    requires
        run.stage.is_final(),
    ensures
        step_of(run, event).run == run,
        step_of(run, event).action is Halt,
{
}

/// A failure of the primitive ends a run that had not ended, and so does a
/// proof that the primitive does not confirm.
pub proof fn lemma_failure_is_fatal(run: RunView)
    requires
        !run.stage.is_final(),
    ensures
        step_of(run, EventView::Failed) == aborted(run, Error::Primitive),
        step_of(run, EventView::Verified(false)) == aborted(run, Error::Primitive),
{
}

/// Each step takes a run forward through the phases in their order, one by
/// one, or to `Aborted`; it never takes a run back.
pub proof fn lemma_phases_advance(run: RunView, event: EventView)
    ensures
        ({
            let passed = phases_passed(run, event);
            let next = step_of(run, event).run.stage.phase();
            &&& passed.len() == 0 ==> next == run.stage.phase()
            &&& passed.len() > 0 ==> passed.last() == next
            &&& passed.len() > 0 ==> passed[0] == Phase::Aborted || phase_rank(passed[0])
                == phase_rank(run.stage.phase()) + 1
            &&& forall|i: int|
                0 < i < passed.len() ==> phase_rank(#[trigger] passed[i]) == phase_rank(
                    passed[i - 1],
                ) + 1
        }),
{
}

/// What a verifier asks of the primitive about an emitted artifact is what the
/// run asked before it emitted: the request derived from the artifact is the
/// run's own check of its proof. So an artifact under an authentic seed gets
/// from a verifier the verdict that the primitive's answer gives.
pub proof fn lemma_verifier_repeats_self_check(
    run: RunView,
    bytes: Seq<u8>,
    key: Seq<u8>,
    answer: Result<bool, Error>,
)
    requires
        run.coherent(),
        run.stage is AwaitingProof,
        is_authentic(seed_held(run.stage)->Some_0, key),
        run.config.kind == ProofKind::Layered ==> run.config.layered_params is Some,
    ensures
        ({
            let proved = step_of(run, EventView::Proved(bytes));
            let confirmed = step_of(proved.run, EventView::Verified(true));
            &&& proved.action is Verify
            &&& confirmed.action is Emit
            &&& confirmed.action->Emit_0.is_complete()
            &&& validation_of(confirmed.action->Emit_0, key) == ValidationView::Verify(
                proved.action->Verify_0,
            )
            &&& verdict_of(confirmed.action->Emit_0, key, answer) == confirms(answer)
        }),
{
}

/// The run after `events`, reported one after another.
pub open spec fn run_after(run: RunView, events: Seq<EventView>) -> RunView
    decreases events.len(),
{
    if events.len() == 0 {
        run
    } else {
        step_of(run_after(run, events.drop_last()), events.last()).run
    }
}

/// A run that goes through without a failure hands out the artifact made of
/// its prover's name, its seed, its configuration, the proof marked with the
/// configured construction, and the commitments of the replica; the
/// commitment over all layers is in it exactly for the layered construction.
pub proof fn lemma_successful_run(
    prover_name: Seq<char>,
    config: ProofConfig,
    seed: SeedView,
    tau: Seq<u8>,
    commitment_star: Option<Seq<u8>>,
    bytes: Seq<u8>,
)
    requires
        is_hex(seed.text),
        config.kind == ProofKind::Layered ==> commitment_star is Some,
    ensures
        ({
            let begun = step_of(ProofRun::idle(prover_name, config), EventView::SeedIssued(seed));
            let set_up = step_of(begun.run, EventView::SetupDone);
            let replicated = step_of(set_up.run, EventView::Replicated { tau, commitment_star });
            let proved = step_of(replicated.run, EventView::Proved(bytes));
            let confirmed = step_of(proved.run, EventView::Verified(true));
            &&& confirmed.run.stage is Emitted
            &&& confirmed.action == ActionView::Emit(
                ArtifactView {
                    prover_name,
                    seed,
                    config,
                    payload: match config.kind {
                        ProofKind::SingleLayer => PayloadView::SingleLayer(bytes),
                        ProofKind::Layered => PayloadView::Layered(bytes),
                    },
                    commitment_star: match config.kind {
                        ProofKind::SingleLayer => None,
                        ProofKind::Layered => commitment_star,
                    },
                    public_tau: tau,
                },
            )
        }),
{
}

/// However a run came to hand out its artifact, the primitive had confirmed
/// the proof: among the events there is a confirmation, reported while the run
/// waited for it.
pub proof fn lemma_emitted_was_confirmed(run: RunView, events: Seq<EventView>)
    requires
        !(run.stage is Emitted),
        run_after(run, events).stage is Emitted,
    ensures
        exists|k: int|
            0 <= k < events.len() && events[k] == EventView::Verified(true) && (#[trigger] run_after(
                run,
                events.subrange(0, k),
            )).stage is AwaitingConfirmation,
    decreases events.len(),
{
    let before = run_after(run, events.drop_last());
    if before.stage is Emitted {
        lemma_emitted_was_confirmed(run, events.drop_last());
        let k = choose|k: int|
            0 <= k < events.drop_last().len() && events.drop_last()[k] == EventView::Verified(true)
                && (#[trigger] run_after(
                run,
                events.drop_last().subrange(0, k),
            )).stage is AwaitingConfirmation;
        assert(events.drop_last().subrange(0, k) =~= events.subrange(0, k));
        assert(events[k] == events.drop_last()[k]);
    } else {
        let k = events.len() - 1;
        lemma_emits_only_confirmed(before, events.last());
        assert(events.subrange(0, k) =~= events.drop_last());
    }
}

} // verus!
