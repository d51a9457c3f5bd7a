use service_dispatcher::dispatcher::{
    Action, DispatcherSender, Dispatcher, ExecutionContext, Runtime, Verified,
};
use service_dispatcher::fork::{Fork, ServiceState};
use service_dispatcher::hashes::{IndexCoordinates, IndexOwner, StateHashAggregator};
use service_dispatcher::types::{
    AnyTx, ArtifactId, ArtifactInfo, CallInfo, Caller, Digest, DispatcherError, ErrorKind,
    ExecutionError, InstanceSpec, PublicKey,
};

const FIRST_RUNTIME: u32 = 2;
const SECOND_RUNTIME: u32 = 3;
const SAMPLE_ERROR_FOO: u8 = 15;

#[derive(Debug)]
struct SampleRuntime {
    runtime_type: u32,
    instance_id: u32,
    method_id: u32,
}

impl SampleRuntime {
    fn new(runtime_type: u32, instance_id: u32, method_id: u32) -> Self {
        Self { runtime_type, instance_id, method_id }
    }

    fn check(&self, runtime_id: u32) -> Result<(), ExecutionError> {
        if runtime_id == self.runtime_type {
            Ok(())
        } else {
            Err(ExecutionError::dispatcher(DispatcherError::IncorrectRuntime))
        }
    }
}

impl Runtime for SampleRuntime {
    fn deploy_artifact(&mut self, artifact: &ArtifactId, _spec: &Vec<u8>) -> Result<(), ExecutionError> {
        self.check(artifact.runtime_id)
    }

    fn artifact_info(&self, _id: &ArtifactId) -> Option<ArtifactInfo> {
        Some(ArtifactInfo::default())
    }

    fn start_service(&mut self, spec: &InstanceSpec) -> Result<(), ExecutionError> {
        self.check(spec.artifact.runtime_id)
    }

    fn stop_service(&mut self, spec: &InstanceSpec) -> Result<(), ExecutionError> {
        self.check(spec.artifact.runtime_id)
    }

    fn configure_service(
        &self,
        _services: &mut ServiceState,
        spec: &InstanceSpec,
        _parameters: &Vec<u8>,
    ) -> Result<(), ExecutionError> {
        self.check(spec.artifact.runtime_id)
    }

    fn execute(
        &self,
        _dispatcher: &Dispatcher<Self>,
        _context: &mut ExecutionContext,
        _services: &mut ServiceState,
        call_info: CallInfo,
        _arguments: &[u8],
    ) -> Result<(), ExecutionError> {
        if call_info.instance_id == self.instance_id && call_info.method_id == self.method_id {
            Ok(())
        } else {
            Err(ExecutionError::new(ErrorKind::Service { code: SAMPLE_ERROR_FOO }, String::new()))
        }
    }

    fn state_hashes(&self, _snapshot: &Fork) -> StateHashAggregator {
        StateHashAggregator::default()
    }

    fn before_commit(&self, _dispatcher: &Dispatcher<Self>, _services: &mut ServiceState) {}

    fn after_commit(&self, _sender: &mut DispatcherSender, _snapshot: &Fork) {}
}

struct DispatcherBuilder {
    runtimes: Vec<(u32, SampleRuntime)>,
}

impl DispatcherBuilder {
    fn new() -> Self {
        Self { runtimes: Vec::new() }
    }

    fn with_runtime(mut self, id: u32, runtime: SampleRuntime) -> Self {
        self.runtimes.push((id, runtime));
        self
    }

    fn finalize(self) -> Dispatcher<SampleRuntime> {
        Dispatcher::with_runtimes(self.runtimes)
    }
}

fn artifact(runtime_id: u32, name: &str) -> ArtifactId {
    ArtifactId { runtime_id, name: name.into() }
}

fn instance(id: u32, name: &str, artifact: &ArtifactId) -> InstanceSpec {
    InstanceSpec { id, name: name.into(), artifact: artifact.clone() }
}

fn kind(r: Result<(), ExecutionError>) -> ErrorKind {
    r.expect_err("an error was expected").kind
}

/// Two runtimes, one artifact and one running instance in each.
fn two_runtime_setup() -> (Dispatcher<SampleRuntime>, Fork, ArtifactId, ArtifactId) {
    let mut dispatcher = DispatcherBuilder::new()
        .with_runtime(FIRST_RUNTIME, SampleRuntime::new(FIRST_RUNTIME, 2, 0))
        .with_runtime(SECOND_RUNTIME, SampleRuntime::new(SECOND_RUNTIME, 3, 1))
        .finalize();
    let first = artifact(FIRST_RUNTIME, "first");
    let second = artifact(SECOND_RUNTIME, "second");
    let mut fork = Fork::new();
    dispatcher.deploy_and_register_artifact(&mut fork, &first, Vec::new()).unwrap();
    dispatcher.deploy_and_register_artifact(&mut fork, &second, Vec::new()).unwrap();
    dispatcher
        .start_service(&mut fork, instance(2, "rust-service", &first), &Vec::new())
        .expect("start_service failed for rust");
    dispatcher
        .start_service(&mut fork, instance(3, "java-service", &second), &Vec::new())
        .expect("start_service failed for java");
    (dispatcher, fork, first, second)
}

#[test]
fn test_builder() {
    let runtime_a = SampleRuntime::new(FIRST_RUNTIME, 0, 0);
    let runtime_b = SampleRuntime::new(SECOND_RUNTIME, 1, 0);

    let dispatcher = DispatcherBuilder::new()
        .with_runtime(runtime_a.runtime_type, runtime_a)
        .with_runtime(runtime_b.runtime_type, runtime_b)
        .finalize();

    assert!(dispatcher.contains_runtime(FIRST_RUNTIME));
    assert!(dispatcher.contains_runtime(SECOND_RUNTIME));
}

#[test]
fn test_dispatcher_simple() {
    let (dispatcher, mut fork, _, _) = two_runtime_setup();
    let tx_payload = [0x00_u8; 1];
    let mut context = ExecutionContext::new(Caller::Blockchain);
    dispatcher
        .call(&mut context, &mut fork.services, CallInfo::new(2, 0), &tx_payload)
        .expect("Correct tx rust");
    dispatcher
        .call(&mut context, &mut fork.services, CallInfo::new(2, 1), &tx_payload)
        .expect_err("Incorrect tx rust");
    dispatcher
        .call(&mut context, &mut fork.services, CallInfo::new(3, 1), &tx_payload)
        .expect("Correct tx java");
    dispatcher
        .call(&mut context, &mut fork.services, CallInfo::new(3, 0), &tx_payload)
        .expect_err("Incorrect tx java");
}

/// A runtime that cannot deploy anything, standing in for a native runtime
/// that has no service under the requested name.
#[derive(Debug, Default)]
struct EmptyRuntime;

const UNABLE_TO_DEPLOY: u8 = 0;
const RUST_RUNTIME_ID: u32 = 0;

impl Runtime for EmptyRuntime {
    fn deploy_artifact(&mut self, _artifact: &ArtifactId, _spec: &Vec<u8>) -> Result<(), ExecutionError> {
        Err(ExecutionError::new(
            ErrorKind::Runtime { runtime_id: RUST_RUNTIME_ID, code: UNABLE_TO_DEPLOY },
            String::new(),
        ))
    }

    fn artifact_info(&self, _id: &ArtifactId) -> Option<ArtifactInfo> {
        None
    }

    fn start_service(&mut self, _spec: &InstanceSpec) -> Result<(), ExecutionError> {
        Err(ExecutionError::dispatcher(DispatcherError::ArtifactNotDeployed))
    }

    fn stop_service(&mut self, _spec: &InstanceSpec) -> Result<(), ExecutionError> {
        Ok(())
    }

    fn configure_service(
        &self,
        _services: &mut ServiceState,
        _spec: &InstanceSpec,
        _parameters: &Vec<u8>,
    ) -> Result<(), ExecutionError> {
        Ok(())
    }

    fn execute(
        &self,
        _dispatcher: &Dispatcher<Self>,
        _context: &mut ExecutionContext,
        _services: &mut ServiceState,
        _call_info: CallInfo,
        _arguments: &[u8],
    ) -> Result<(), ExecutionError> {
        Ok(())
    }

    fn state_hashes(&self, _snapshot: &Fork) -> StateHashAggregator {
        StateHashAggregator::default()
    }

    fn before_commit(&self, _dispatcher: &Dispatcher<Self>, _services: &mut ServiceState) {}

    fn after_commit(&self, _sender: &mut DispatcherSender, _snapshot: &Fork) {}
}

#[test]
fn test_dispatcher_rust_runtime_no_service() {
    let mut dispatcher = Dispatcher::with_runtimes(vec![(RUST_RUNTIME_ID, EmptyRuntime)]);
    let sample_rust_spec = artifact(RUST_RUNTIME_ID, "foo:1.0.0");

    assert_eq!(
        dispatcher
            .deploy_artifact(&sample_rust_spec, &Vec::new())
            .expect_err("deploy artifact succeed")
            .kind,
        ErrorKind::Runtime { runtime_id: RUST_RUNTIME_ID, code: UNABLE_TO_DEPLOY }
    );

    let mut fork = Fork::new();
    assert_eq!(
        dispatcher
            .start_service(&mut fork, instance(2, "rust-service", &sample_rust_spec), &Vec::new())
            .expect_err("start service succeed")
            .kind,
        ErrorKind::Dispatcher(DispatcherError::ArtifactNotDeployed)
    );

    let tx_payload = [0x00_u8; 1];
    let mut context = ExecutionContext::new(Caller::Blockchain);
    dispatcher
        .call(&mut context, &mut fork.services, CallInfo::new(2, 0), &tx_payload)
        .expect_err("execute succeed");
}

#[test]
fn routing_errors_name_their_cause() {
    let (dispatcher, mut fork, _, _) = two_runtime_setup();
    let mut context = ExecutionContext::new(Caller::Blockchain);
    assert_eq!(
        kind(dispatcher.call(&mut context, &mut fork.services, CallInfo::new(2, 1), &[])),
        ErrorKind::Service { code: SAMPLE_ERROR_FOO }
    );
    assert_eq!(
        kind(dispatcher.call(&mut context, &mut fork.services, CallInfo::new(9, 0), &[])),
        ErrorKind::Dispatcher(DispatcherError::IncorrectInstanceId)
    );
}

#[test]
fn start_before_register_is_refused() {
    let mut dispatcher =
        Dispatcher::with_runtimes(vec![(FIRST_RUNTIME, SampleRuntime::new(FIRST_RUNTIME, 2, 0))]);
    let first = artifact(FIRST_RUNTIME, "first");
    let mut fork = Fork::new();
    assert_eq!(
        kind(dispatcher.start_service(&mut fork, instance(2, "rust-service", &first), &Vec::new())),
        ErrorKind::Dispatcher(DispatcherError::ArtifactNotDeployed)
    );
    assert!(fork.dispatcher.service_instances.is_empty());
    assert!(fork.dispatcher.artifacts.is_empty());
    assert_eq!(fork.dispatcher.next_instance_id, 1024);
    assert_eq!(dispatcher.runtime_of_instance(2), None);
}

#[test]
fn duplicate_instance_id_is_refused() {
    let (mut dispatcher, mut fork, first, _) = two_runtime_setup();
    let before = fork.dispatcher.service_instances.len();
    assert_eq!(
        kind(dispatcher.start_service(&mut fork, instance(2, "other-service", &first), &Vec::new())),
        ErrorKind::Dispatcher(DispatcherError::ServiceIdExists)
    );
    assert_eq!(fork.dispatcher.service_instances.len(), before);
    assert_eq!(dispatcher.runtime_of_instance(2), Some(FIRST_RUNTIME));
}

#[test]
fn duplicate_instance_name_is_refused() {
    let (mut dispatcher, mut fork, first, _) = two_runtime_setup();
    assert_eq!(
        kind(dispatcher.start_service(&mut fork, instance(7, "rust-service", &first), &Vec::new())),
        ErrorKind::Dispatcher(DispatcherError::ServiceNameExists)
    );
    assert_eq!(dispatcher.runtime_of_instance(7), None);
}

#[test]
fn invalid_specs_are_refused() {
    let (mut dispatcher, mut fork, first, _) = two_runtime_setup();
    assert_eq!(
        kind(dispatcher.start_service(&mut fork, instance(8, "Bad Name", &first), &Vec::new())),
        ErrorKind::Dispatcher(DispatcherError::InvalidInstanceSpec)
    );
    assert_eq!(
        kind(dispatcher.deploy_artifact(&artifact(FIRST_RUNTIME, ""), &Vec::new())),
        ErrorKind::Dispatcher(DispatcherError::InvalidArtifactId)
    );
    assert_eq!(
        kind(dispatcher.deploy_artifact(&artifact(FIRST_RUNTIME, "foo:"), &Vec::new())),
        ErrorKind::Dispatcher(DispatcherError::InvalidArtifactId)
    );
    assert_eq!(
        kind(dispatcher.deploy_artifact(&artifact(42, "ghost"), &Vec::new())),
        ErrorKind::Dispatcher(DispatcherError::IncorrectRuntime)
    );
    assert_eq!(
        kind(dispatcher.register_artifact(&mut fork, &artifact(42, "ghost"), Vec::new())),
        ErrorKind::Dispatcher(DispatcherError::ArtifactNotDeployed)
    );
}

#[test]
fn instance_of_missing_runtime_is_refused() {
    let (mut dispatcher, mut fork, _, _) = two_runtime_setup();
    let orphan = artifact(7, "orphan");
    assert_eq!(
        kind(dispatcher.start_service(&mut fork, instance(9, "orphan-service", &orphan), &Vec::new())),
        ErrorKind::Dispatcher(DispatcherError::IncorrectRuntime)
    );
    assert_eq!(dispatcher.runtime_of_instance(9), None);
}

#[test]
fn registered_artifact_that_the_runtime_lost_is_refused() {
    let mut dispatcher = Dispatcher::with_runtimes(vec![(RUST_RUNTIME_ID, EmptyRuntime)]);
    let mut fork = Fork::new();
    let lost = artifact(RUST_RUNTIME_ID, "lost");
    fork.dispatcher.add_artifact(lost.clone(), Vec::new());
    assert_eq!(
        kind(dispatcher.start_service(&mut fork, instance(2, "lost-service", &lost), &Vec::new())),
        ErrorKind::Dispatcher(DispatcherError::ArtifactNotDeployed)
    );
    assert!(fork.dispatcher.service_instances.is_empty());
    assert_eq!(
        kind(dispatcher.register_artifact(&mut fork, &artifact(RUST_RUNTIME_ID, "other"), Vec::new())),
        ErrorKind::Dispatcher(DispatcherError::ArtifactNotDeployed)
    );
}

#[test]
fn start_outcome_follows_the_runtime_answers() {
    let (mut dispatcher, mut fork, first, _) = two_runtime_setup();
    let fail = |code: u8| Err(ExecutionError::new(ErrorKind::Service { code }, format!("code {}", code)));
    let spec = instance(20, "settled", &first);
    assert_eq!(kind(dispatcher.settle_start(&mut fork, spec.clone(), fail(1), Ok(()), Ok(()))), ErrorKind::Service { code: 1 });
    assert_eq!(kind(dispatcher.settle_start(&mut fork, spec.clone(), Ok(()), fail(2), Ok(()))), ErrorKind::Service { code: 2 });
    let fatal = dispatcher.settle_start(&mut fork, spec.clone(), Ok(()), fail(2), fail(3)).unwrap_err();
    assert_eq!(fatal.kind, ErrorKind::Fatal);
    assert_eq!(fatal.description, "code 3");
    assert_eq!(dispatcher.runtime_of_instance(20), None);
    dispatcher.settle_start(&mut fork, spec, Ok(()), Ok(()), fail(4)).unwrap();
    assert_eq!(dispatcher.runtime_of_instance(20), Some(FIRST_RUNTIME));
}

#[test]
fn record_artifact_follows_the_runtime_answer() {
    let mut fork = Fork::new();
    let a = artifact(FIRST_RUNTIME, "recorded");
    assert_eq!(
        kind(Dispatcher::<SampleRuntime>::record_artifact(&mut fork, &a, vec![1], false)),
        ErrorKind::Dispatcher(DispatcherError::ArtifactNotDeployed)
    );
    assert_eq!(
        kind(Dispatcher::<SampleRuntime>::record_artifact(&mut fork, &artifact(FIRST_RUNTIME, "Bad"), vec![1], true)),
        ErrorKind::Dispatcher(DispatcherError::InvalidArtifactId)
    );
    Dispatcher::<SampleRuntime>::record_artifact(&mut fork, &a, vec![1], true).unwrap();
    assert_eq!(fork.dispatcher.artifact_spec(&a), Some(vec![1]));
}

#[test]
fn finished_execution_returns_the_call_error() {
    let (mut dispatcher, mut fork, first, _) = two_runtime_setup();
    let err = ExecutionError::new(ErrorKind::Service { code: 9 }, String::new());
    let actions = vec![Action::StartService { artifact: first, instance_name: "never".into(), config: Vec::new() }];
    assert_eq!(dispatcher.finish_execution(&mut fork, Err(err.clone()), actions), Err(err));
    assert!(!dispatcher.take_modified_state());
    assert_eq!(dispatcher.runtime_of_instance(1024), None);
    let tx = Verified {
        payload: AnyTx { call_info: CallInfo::new(2, 0), arguments: vec![] },
        author: PublicKey { bytes: [5; 32] },
    };
    let context = Dispatcher::<SampleRuntime>::transaction_context(Digest { bytes: [6; 32] }, &tx);
    assert_eq!(context.caller, Caller::Transaction { author: PublicKey { bytes: [5; 32] }, hash: Digest { bytes: [6; 32] } });
    assert!(context.actions.is_empty());
}

#[test]
fn restore_fails_on_an_artifact_without_runtime() {
    let mut snapshot = Fork::new();
    snapshot.dispatcher.add_artifact(artifact(42, "nowhere"), Vec::new());
    let mut dispatcher =
        Dispatcher::with_runtimes(vec![(FIRST_RUNTIME, SampleRuntime::new(FIRST_RUNTIME, 2, 0))]);
    assert_eq!(
        kind(dispatcher.restore_state(&snapshot)),
        ErrorKind::Dispatcher(DispatcherError::IncorrectRuntime)
    );
    let mut fresh =
        Dispatcher::with_runtimes(vec![(FIRST_RUNTIME, SampleRuntime::new(FIRST_RUNTIME, 2, 0))]);
    fresh.restore_state(&Fork::new()).unwrap();
}

#[test]
fn register_twice_keeps_one_record() {
    let (dispatcher, mut fork, first, _) = two_runtime_setup();
    dispatcher.register_artifact(&mut fork, &first, vec![1, 2]).unwrap();
    dispatcher.register_artifact(&mut fork, &first, vec![1, 2]).unwrap();
    let count = fork
        .dispatcher
        .artifacts
        .iter()
        .filter(|(a, _)| *a == first)
        .count();
    assert_eq!(count, 1);
    assert_eq!(fork.dispatcher.artifacts.len(), 2);
}

#[test]
fn restart_from_snapshot() {
    let (_, fork, first, second) = two_runtime_setup();
    let snapshot = fork.clone();
    let mut restored = DispatcherBuilder::new()
        .with_runtime(FIRST_RUNTIME, SampleRuntime::new(FIRST_RUNTIME, 2, 0))
        .with_runtime(SECOND_RUNTIME, SampleRuntime::new(SECOND_RUNTIME, 3, 1))
        .finalize();
    restored.restore_state(&snapshot).unwrap();
    assert!(restored.is_deployed(&first));
    assert!(restored.is_deployed(&second));
    let mut services = snapshot.services.clone();
    let mut context = ExecutionContext::new(Caller::Blockchain);
    restored.call(&mut context, &mut services, CallInfo::new(2, 0), &[]).unwrap();
    restored.call(&mut context, &mut services, CallInfo::new(3, 1), &[]).unwrap();
    assert_eq!(restored.runtime_of_instance(2), Some(FIRST_RUNTIME));
    assert_eq!(restored.runtime_of_instance(3), Some(SECOND_RUNTIME));
}

#[test]
fn actions_register_and_start_under_fresh_ids() {
    let (mut dispatcher, mut fork, first, _) = two_runtime_setup();
    let extra = artifact(FIRST_RUNTIME, "extra");
    dispatcher.deploy_artifact(&extra, &Vec::new()).unwrap();
    let actions = vec![
        Action::RegisterArtifact { artifact: extra.clone(), spec: Vec::new() },
        Action::StartService { artifact: extra.clone(), instance_name: "extra-one".into(), config: Vec::new() },
        Action::StartService { artifact: first.clone(), instance_name: "extra-two".into(), config: Vec::new() },
    ];
    assert!(!dispatcher.take_modified_state());
    dispatcher.apply_actions(&mut fork, actions).unwrap();
    assert!(dispatcher.take_modified_state());
    assert!(!dispatcher.take_modified_state());
    assert_eq!(dispatcher.runtime_of_instance(1024), Some(FIRST_RUNTIME));
    assert_eq!(dispatcher.runtime_of_instance(1025), Some(FIRST_RUNTIME));
    assert_eq!(fork.dispatcher.next_instance_id, 1026);
    assert!(fork.dispatcher.contains_artifact(&extra));
}

#[test]
fn failing_action_restores_the_lookup_table() {
    let (mut dispatcher, mut fork, first, _) = two_runtime_setup();
    let actions = vec![
        Action::StartService { artifact: first.clone(), instance_name: "fresh".into(), config: Vec::new() },
        Action::StartService { artifact: artifact(FIRST_RUNTIME, "missing"), instance_name: "late".into(), config: Vec::new() },
    ];
    assert_eq!(
        kind(dispatcher.apply_actions(&mut fork, actions)),
        ErrorKind::Dispatcher(DispatcherError::ArtifactNotDeployed)
    );
    assert_eq!(dispatcher.runtime_of_instance(1024), None);
    assert!(dispatcher.take_modified_state());
}

#[test]
fn execute_routes_a_verified_transaction() {
    let (mut dispatcher, mut fork, _, _) = two_runtime_setup();
    let tx = Verified {
        payload: AnyTx { call_info: CallInfo::new(3, 1), arguments: vec![0] },
        author: PublicKey { bytes: [7; 32] },
    };
    dispatcher.execute(&mut fork, Digest { bytes: [1; 32] }, &tx).unwrap();
    assert!(!dispatcher.take_modified_state());
    let bad = Verified {
        payload: AnyTx { call_info: CallInfo::new(5, 0), arguments: vec![] },
        author: PublicKey { bytes: [7; 32] },
    };
    assert_eq!(
        kind(dispatcher.execute(&mut fork, Digest { bytes: [2; 32] }, &bad)),
        ErrorKind::Dispatcher(DispatcherError::IncorrectInstanceId)
    );
}

#[test]
fn builtin_service_is_registered_and_started() {
    let mut dispatcher =
        Dispatcher::with_runtimes(vec![(FIRST_RUNTIME, SampleRuntime::new(FIRST_RUNTIME, 5, 0))]);
    let mut fork = Fork::new();
    let builtin = artifact(FIRST_RUNTIME, "builtin");
    dispatcher
        .add_builtin_service(&mut fork, instance(5, "builtin-service", &builtin), &Vec::new())
        .unwrap();
    assert!(fork.dispatcher.contains_artifact(&builtin));
    assert_eq!(fork.dispatcher.artifact_spec(&builtin), Some(Vec::new()));
    assert_eq!(dispatcher.runtime_of_instance(5), Some(FIRST_RUNTIME));
}

#[test]
fn deploy_requests_are_answered_in_order() {
    let mut dispatcher =
        Dispatcher::with_runtimes(vec![(FIRST_RUNTIME, SampleRuntime::new(FIRST_RUNTIME, 5, 0))]);
    let mut sender = DispatcherSender::new();
    sender.request_deploy_artifact(artifact(FIRST_RUNTIME, "good"), Vec::new());
    sender.request_deploy_artifact(artifact(9, "elsewhere"), Vec::new());
    let outcomes = dispatcher.deploy_requested(sender.take_deploy_requests());
    assert_eq!(outcomes.len(), 2);
    assert_eq!(outcomes[0].0.artifact.name, "good");
    assert!(outcomes[0].1.is_ok());
    assert_eq!(
        outcomes[1].1.as_ref().unwrap_err().kind,
        ErrorKind::Dispatcher(DispatcherError::IncorrectRuntime)
    );
    assert!(dispatcher.after_commit(&Fork::new()).is_empty());
}

#[test]
fn state_hash_lists_dispatcher_indices_first() {
    let dispatcher =
        Dispatcher::with_runtimes(vec![(FIRST_RUNTIME, SampleRuntime::new(FIRST_RUNTIME, 5, 0))]);
    let hashes = vec![Digest { bytes: [1; 32] }, Digest { bytes: [2; 32] }];
    let aggregated = dispatcher.state_hash(&Fork::new(), &hashes);
    assert_eq!(
        aggregated,
        vec![
            (IndexCoordinates { owner: IndexOwner::Dispatcher, index: 0 }, Digest { bytes: [1; 32] }),
            (IndexCoordinates { owner: IndexOwner::Dispatcher, index: 1 }, Digest { bytes: [2; 32] }),
        ]
    );
}

/// A runtime whose every call asks the dispatcher to start one more instance.
#[derive(Debug)]
struct SpawningRuntime;

impl Runtime for SpawningRuntime {
    fn deploy_artifact(&mut self, _artifact: &ArtifactId, _spec: &Vec<u8>) -> Result<(), ExecutionError> {
        Ok(())
    }

    fn artifact_info(&self, _id: &ArtifactId) -> Option<ArtifactInfo> {
        Some(ArtifactInfo::default())
    }

    fn start_service(&mut self, _spec: &InstanceSpec) -> Result<(), ExecutionError> {
        Ok(())
    }

    fn stop_service(&mut self, _spec: &InstanceSpec) -> Result<(), ExecutionError> {
        Ok(())
    }

    fn configure_service(
        &self,
        _services: &mut ServiceState,
        _spec: &InstanceSpec,
        _parameters: &Vec<u8>,
    ) -> Result<(), ExecutionError> {
        Ok(())
    }

    fn execute(
        &self,
        _dispatcher: &Dispatcher<Self>,
        context: &mut ExecutionContext,
        _services: &mut ServiceState,
        call_info: CallInfo,
        _arguments: &[u8],
    ) -> Result<(), ExecutionError> {
        let name = format!("spawned-{}", ["a", "b", "c"][call_info.method_id as usize % 3]);
        context.dispatch_action(Action::StartService {
            artifact: artifact(FIRST_RUNTIME, "spawner"),
            instance_name: name,
            config: Vec::new(),
        });
        Ok(())
    }

    fn state_hashes(&self, _snapshot: &Fork) -> StateHashAggregator {
        StateHashAggregator {
            runtime: vec![Digest { bytes: [9; 32] }],
            instances: vec![(4, vec![Digest { bytes: [8; 32] }])],
        }
    }

    fn before_commit(&self, _dispatcher: &Dispatcher<Self>, _services: &mut ServiceState) {}

    fn after_commit(&self, sender: &mut DispatcherSender, _snapshot: &Fork) {
        sender.request_deploy_artifact(artifact(FIRST_RUNTIME, "later"), Vec::new());
    }
}

#[test]
fn transaction_actions_start_instances_after_the_call() {
    let mut dispatcher = Dispatcher::with_runtimes(vec![(FIRST_RUNTIME, SpawningRuntime)]);
    let mut fork = Fork::new();
    let spawner = artifact(FIRST_RUNTIME, "spawner");
    dispatcher.deploy_and_register_artifact(&mut fork, &spawner, Vec::new()).unwrap();
    dispatcher.start_service(&mut fork, instance(4, "spawner-service", &spawner), &Vec::new()).unwrap();
    let tx = Verified {
        payload: AnyTx { call_info: CallInfo::new(4, 1), arguments: vec![] },
        author: PublicKey { bytes: [3; 32] },
    };
    dispatcher.execute(&mut fork, Digest { bytes: [4; 32] }, &tx).unwrap();
    assert!(dispatcher.take_modified_state());
    assert_eq!(dispatcher.runtime_of_instance(1024), Some(FIRST_RUNTIME));
    let spawned = fork.dispatcher.instance_by_name(&"spawned-b".to_string()).unwrap();
    assert_eq!(fork.dispatcher.service_instances[spawned].id, 1024);

    let outcomes = dispatcher.after_commit(&fork);
    assert_eq!(outcomes.len(), 1);
    assert_eq!(outcomes[0].0.artifact.name, "later");
    assert!(outcomes[0].1.is_ok());

    let aggregated = dispatcher.state_hash(&fork, &vec![Digest { bytes: [1; 32] }]);
    assert_eq!(
        aggregated,
        vec![
            (IndexCoordinates { owner: IndexOwner::Dispatcher, index: 0 }, Digest { bytes: [1; 32] }),
            (IndexCoordinates { owner: IndexOwner::Runtime(FIRST_RUNTIME), index: 0 }, Digest { bytes: [9; 32] }),
            (IndexCoordinates { owner: IndexOwner::Service(4), index: 0 }, Digest { bytes: [8; 32] }),
        ]
    );
}
