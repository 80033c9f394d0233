use replication_game::artifact::Artifact;
use replication_game::error::Error;
use replication_game::codec::decode;
use replication_game::orchestrator::{
    begin, derive_setup, porep_work, run, zigzag_work, Action, Event, Phase, ProofRun, Storage,
};
use replication_game::params::{
    derive_layered, derive_single_layer, layered_config, single_layer_config, ProofKind,
};
use replication_game::primitive::{ProofPayload, PublicInputs, Setup, VerifyRequest};
use replication_game::replica::id_from_str;
use replication_game::seed::{issue, SecretKey, Seed};
use replication_game::validator::{conclude, examine, validate, Validation};

fn secret() -> SecretKey {
    SecretKey::new(b"my key").unwrap()
}

/// Drives a run to its end with a primitive that always succeeds, and hands
/// back the artifact and the request by which the run checked its own proof.
fn drive(begun: (ProofRun, Action), star: Option<Vec<u8>>) -> (Artifact, VerifyRequest) {
    let (run, action) = begun;
    assert_eq!(run.phase(), Phase::ParametersDerived);
    assert!(matches!(action, Action::Setup { .. }));
    let (run, action) = run.advance(Event::SetupDone);
    assert_eq!(run.phase(), Phase::Replicating);
    assert!(matches!(action, Action::Replicate { .. }));
    let (run, action) =
        run.advance(Event::Replicated { tau: vec![1, 2, 3], commitment_star: star });
    assert_eq!(run.phase(), Phase::Proving);
    assert!(matches!(action, Action::Prove(_)));
    let (run, action) = run.advance(Event::Proved(vec![42, 43]));
    assert_eq!(run.phase(), Phase::Proving);
    let request = match action {
        Action::Verify(request) => request,
        other => panic!("expected a request, got {:?}", other),
    };
    let (run, action) = run.advance(Event::Verified(true));
    assert_eq!(run.phase(), Phase::ArtifactEmitted);
    match action {
        Action::Emit(artifact) => (artifact, request),
        other => panic!("expected an artifact, got {:?}", other),
    }
}

#[test]
fn single_layer_run_of_no_data_validates() {
    let config = single_layer_config(0, 6, 0).unwrap();
    let seed = issue(1556000000, &secret());
    let (artifact, request) = drive(begin(String::from("alice"), config, seed.clone()), None);
    assert_eq!(artifact.prover_name, "alice");
    assert_eq!(artifact.seed, seed);
    assert_eq!(artifact.config, config);
    assert_eq!(artifact.payload, ProofPayload::SingleLayer(vec![42, 43]));
    assert_eq!(artifact.commitment_star, None);
    assert_eq!(artifact.public_tau, vec![1, 2, 3]);
    match &request.setup {
        Setup::SingleLayer(setup) => {
            assert_eq!(setup.drg.nodes, 0);
            assert_eq!(setup.drg.degree, 6);
        },
        Setup::Layered(_) => panic!("wrong construction"),
    }
    match examine(&artifact, &secret()) {
        Validation::Verify(again) => {
            assert_eq!(again, request);
            assert!(conclude(Ok(true)));
        },
        Validation::Rejected(error) => panic!("rejected: {:?}", error),
    }
}

#[test]
fn layered_run_holds_commitment_star() {
    let config = layered_config(1, 6, 0, 6, 4).unwrap();
    let seed = issue(1556000000, &secret());
    let (artifact, request) =
        drive(begin(String::from("bob"), config, seed), Some(vec![5; 32]));
    assert_eq!(artifact.payload, ProofPayload::Layered(vec![42, 43]));
    assert_eq!(artifact.commitment_star, Some(vec![5; 32]));
    assert_eq!(examine(&artifact, &secret()), Validation::Verify(request));
    let mut stripped = artifact.clone();
    stripped.commitment_star = None;
    assert_eq!(examine(&stripped, &secret()), Validation::Rejected(Error::Serialization));
    let mut stripped = artifact;
    stripped.config.layered_params = None;
    assert_eq!(examine(&stripped, &secret()), Validation::Rejected(Error::Config));
}

#[test]
fn first_step_asks_for_setup() {
    let config = single_layer_config(2, 6, 1).unwrap();
    let (_, action) = begin(String::new(), config, issue(1, &secret()));
    assert_eq!(
        action,
        Action::Setup {
            setup: Setup::SingleLayer(derive_single_layer(&config)),
            nodes: 64,
            storage: Storage::Memory
        }
    );
    let config = layered_config(2, 6, 1, 8, 4).unwrap();
    let (_, action) = begin(String::new(), config, issue(1, &secret()));
    assert_eq!(
        action,
        Action::Setup {
            setup: Setup::Layered(derive_layered(&config)),
            nodes: 64,
            storage: Storage::MappedFile
        }
    );
    assert_eq!(derive_setup(&config), Setup::Layered(derive_layered(&config)));
}

#[test]
fn steps_carry_replica_id_and_inputs() {
    let config = single_layer_config(1, 6, 0).unwrap();
    let seed = issue(77, &secret());
    let id = id_from_str(&seed.seed);
    let (run, _) = begin(String::new(), config, seed);
    let (run, action) = run.advance(Event::SetupDone);
    assert_eq!(action, Action::Replicate { replica_id: id.clone() });
    let (run, action) =
        run.advance(Event::Replicated { tau: vec![9], commitment_star: Some(vec![1]) });
    assert_eq!(
        action,
        Action::Prove(PublicInputs::SingleLayer {
            replica_id: id.clone(),
            challenges: vec![2; 200],
            tau: vec![9]
        })
    );
    let (_, action) = run.advance(Event::Proved(vec![3]));
    assert_eq!(
        action,
        Action::Verify(VerifyRequest {
            setup: Setup::SingleLayer(derive_single_layer(&config)),
            inputs: PublicInputs::SingleLayer {
                replica_id: id,
                challenges: vec![2; 200],
                tau: vec![9]
            },
            payload: ProofPayload::SingleLayer(vec![3]),
        })
    );
}

#[test]
fn run_follows_the_configured_construction() {
    let config = layered_config(1, 6, 0, 6, 4).unwrap();
    let (started, action) = begin(String::new(), config, issue(1, &secret()));
    assert_eq!(started.phase(), Phase::ParametersDerived);
    assert!(matches!(action, Action::Setup { storage: Storage::MappedFile, .. }));
    assert_eq!(config.kind, ProofKind::Layered);
}

#[test]
fn new_run_is_idle() {
    let config = single_layer_config(1, 6, 0).unwrap();
    let idle = ProofRun::new(String::from("x"), config);
    assert_eq!(idle.phase(), Phase::Idle);
    let (next, action) = idle.advance(Event::SetupDone);
    assert_eq!(next.phase(), Phase::Aborted);
    assert_eq!(action, Action::Abort(Error::Primitive));
}

/// A primitive that always succeeds, with answers made of the request.
fn willing(action: Action) -> Event {
    match action {
        Action::Setup { .. } => Event::SetupDone,
        Action::Replicate { replica_id } => {
            Event::Replicated { tau: replica_id, commitment_star: Some(vec![8; 32]) }
        },
        Action::Prove(_) => Event::Proved(vec![1, 2, 3]),
        Action::Verify(_) => Event::Verified(true),
        other => panic!("nothing to do for {:?}", other),
    }
}

#[test]
fn configuration_of_the_other_construction_is_refused() {
    let layered = layered_config(1, 6, 0, 6, 4).unwrap();
    let outcome = porep_work(String::new(), layered, issue(1, &secret()), |_| {
        panic!("the primitive was asked")
    });
    assert_eq!(outcome, Err(Error::Config));
    let single = single_layer_config(1, 6, 0).unwrap();
    let outcome = zigzag_work(String::new(), single, issue(1, &secret()), |_| {
        panic!("the primitive was asked")
    });
    assert_eq!(outcome, Err(Error::Config));
}

#[test]
fn run_with_a_willing_primitive_hands_out_the_artifact() {
    let config = single_layer_config(0, 6, 0).unwrap();
    let seed = issue(1556000000, &secret());
    let artifact = run(String::from("alice"), config, seed.clone(), willing).unwrap();
    assert_eq!(
        artifact,
        Artifact {
            prover_name: String::from("alice"),
            seed: seed.clone(),
            config,
            payload: ProofPayload::SingleLayer(vec![1, 2, 3]),
            commitment_star: None,
            public_tau: id_from_str(&seed.seed),
        }
    );
    assert!(validate(&artifact, &secret(), |_| Ok(true)));
}

#[test]
fn work_hands_out_the_text_of_the_artifact() {
    let config = layered_config(1, 6, 0, 6, 4).unwrap();
    let seed = issue(1556000000, &secret());
    let text = zigzag_work(String::from("bob"), config, seed.clone(), willing).unwrap();
    let artifact = decode(&text).unwrap();
    assert_eq!(artifact.prover_name, "bob");
    assert_eq!(artifact.seed, seed);
    assert_eq!(artifact.config, config);
    assert_eq!(artifact.payload, ProofPayload::Layered(vec![1, 2, 3]));
    assert_eq!(artifact.commitment_star, Some(vec![8; 32]));
    let config = single_layer_config(1, 6, 0).unwrap();
    let text = porep_work(String::from("carol"), config, seed, willing).unwrap();
    let artifact = decode(&text).unwrap();
    assert_eq!(artifact.payload, ProofPayload::SingleLayer(vec![1, 2, 3]));
    assert_eq!(artifact.commitment_star, None);
}

#[test]
fn run_puts_its_own_proof_to_the_primitive_before_handing_it_out() {
    let config = layered_config(1, 6, 0, 6, 4).unwrap();
    let seed = issue(1556000000, &secret());
    let asked = std::cell::RefCell::new(Vec::new());
    let artifact = run(String::new(), config, seed, |action| {
        if let Action::Verify(request) = &action {
            asked.borrow_mut().push(request.clone());
        }
        willing(action)
    })
    .unwrap();
    let asked = asked.into_inner();
    assert_eq!(asked.len(), 1);
    assert_eq!(examine(&artifact, &secret()), Validation::Verify(asked[0].clone()));
}

#[test]
fn run_gives_up_where_the_primitive_does() {
    let config = single_layer_config(1, 6, 0).unwrap();
    let seed = issue(1, &secret());
    let unwilling = |action: Action| match action {
        Action::Verify(_) => Event::Verified(false),
        other => willing(other),
    };
    assert_eq!(run(String::new(), config, seed.clone(), unwilling), Err(Error::Primitive));
    let failing = |action: Action| match action {
        Action::Replicate { .. } => Event::Failed,
        other => willing(other),
    };
    assert_eq!(run(String::new(), config, seed.clone(), failing), Err(Error::Primitive));
    let confused = |_: Action| Event::Verified(true);
    assert_eq!(run(String::new(), config, seed, confused), Err(Error::Primitive));
    let layered = layered_config(1, 6, 0, 6, 4).unwrap();
    let forgetful = |action: Action| match action {
        Action::Replicate { .. } => Event::Replicated { tau: vec![], commitment_star: None },
        other => willing(other),
    };
    assert_eq!(
        zigzag_work(String::new(), layered, issue(1, &secret()), forgetful),
        Err(Error::Primitive)
    );
}

#[test]
fn run_with_a_malformed_seed_fails_authentication() {
    let config = single_layer_config(1, 6, 0).unwrap();
    let seed = Seed { timestamp: 1, seed: String::from("0g") };
    let outcome = run(String::new(), config, seed.clone(), |_| panic!("the primitive was asked"));
    assert_eq!(outcome, Err(Error::Authentication));
    let outcome = porep_work(String::new(), config, seed, |_| panic!("the primitive was asked"));
    assert_eq!(outcome, Err(Error::Authentication));
}

#[test]
fn seed_that_is_not_hex_aborts() {
    let config = single_layer_config(1, 6, 0).unwrap();
    let seed = Seed { timestamp: 1, seed: String::from("xyz") };
    let (run, action) = begin(String::new(), config, seed);
    assert_eq!(run.phase(), Phase::Aborted);
    assert_eq!(action, Action::Abort(Error::Authentication));
}

#[test]
fn failure_of_the_primitive_aborts_at_every_step() {
    let config = single_layer_config(1, 6, 0).unwrap();
    for steps in 0..4 {
        let (mut run, _) = begin(String::new(), config, issue(1, &secret()));
        let events = [
            Event::SetupDone,
            Event::Replicated { tau: vec![1], commitment_star: None },
            Event::Proved(vec![2]),
        ];
        for event in events.iter().take(steps) {
            run = run.advance(event.clone()).0;
        }
        let (run, action) = run.advance(Event::Failed);
        assert_eq!(run.phase(), Phase::Aborted);
        assert_eq!(action, Action::Abort(Error::Primitive));
    }
}

#[test]
fn unconfirmed_proof_is_never_emitted() {
    let config = single_layer_config(1, 6, 0).unwrap();
    let (run, _) = begin(String::new(), config, issue(1, &secret()));
    let (run, _) = run.advance(Event::SetupDone);
    let (run, _) = run.advance(Event::Replicated { tau: vec![1], commitment_star: None });
    let (run, _) = run.advance(Event::Proved(vec![2]));
    let (run, action) = run.advance(Event::Verified(false));
    assert_eq!(run.phase(), Phase::Aborted);
    assert_eq!(action, Action::Abort(Error::Primitive));
    let (run, action) = run.advance(Event::Verified(true));
    assert_eq!(run.phase(), Phase::Aborted);
    assert_eq!(action, Action::Halt);
}

#[test]
fn confirmation_out_of_turn_aborts() {
    let config = single_layer_config(1, 6, 0).unwrap();
    let (run, _) = begin(String::new(), config, issue(1, &secret()));
    let (run, action) = run.advance(Event::Verified(true));
    assert_eq!(run.phase(), Phase::Aborted);
    assert_eq!(action, Action::Abort(Error::Primitive));
    let (run, _) = begin(String::new(), config, issue(1, &secret()));
    let (run, _) = run.advance(Event::SetupDone);
    let (run, _) = run.advance(Event::Replicated { tau: vec![1], commitment_star: None });
    let (run, action) = run.advance(Event::Verified(true));
    assert_eq!(run.phase(), Phase::Aborted);
    assert_eq!(action, Action::Abort(Error::Primitive));
}

#[test]
fn layered_replication_without_commitment_star_aborts() {
    let config = layered_config(1, 6, 0, 6, 4).unwrap();
    let (run, _) = begin(String::new(), config, issue(1, &secret()));
    let (run, _) = run.advance(Event::SetupDone);
    let (run, action) = run.advance(Event::Replicated { tau: vec![1], commitment_star: None });
    assert_eq!(run.phase(), Phase::Aborted);
    assert_eq!(action, Action::Abort(Error::Primitive));
}

#[test]
fn ended_run_halts() {
    let config = single_layer_config(0, 6, 0).unwrap();
    let (run, _) = begin(String::new(), config, issue(1, &secret()));
    let (run, _) = run.advance(Event::SetupDone);
    let (run, _) = run.advance(Event::Replicated { tau: vec![], commitment_star: None });
    let (run, _) = run.advance(Event::Proved(vec![]));
    let (run, _) = run.advance(Event::Verified(true));
    assert_eq!(run.phase(), Phase::ArtifactEmitted);
    let (run, action) = run.advance(Event::Failed);
    assert_eq!(run.phase(), Phase::ArtifactEmitted);
    assert_eq!(action, Action::Halt);
}
