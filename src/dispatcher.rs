use vstd::prelude::*;

use std::collections::HashMap;

use crate::fork::{Fork, ServiceState};
use crate::hashes::{aggregate, aggregate_state_hashes, IndexCoordinates, StateHashAggregator};
use crate::schema::{
    add_record, copy_artifact, copy_instance, has_key, DispatcherSchema, InstanceView,
};
use crate::types::{
    AnyTx, ArtifactId, ArtifactInfo, CallInfo, Caller, DispatcherError, ErrorKind, ExecutionError,
    Digest, InstanceSpec, PublicKey, MAX_BUILTIN_INSTANCE_ID, name_is_valid,
};

verus! {

broadcast use vstd::std_specs::hash::group_hash_axioms;

/// An execution environment that hosts artifacts and their service instances.
pub trait Runtime: Sized {
    /// Makes `artifact` available in this runtime. Deploying an artifact twice succeeds.
    fn deploy_artifact(&mut self, artifact: &ArtifactId, spec: &Vec<u8>) -> Result<
        (),
        ExecutionError,
    >;

    /// Information about `id` if it is deployed here.
    fn artifact_info(&self, id: &ArtifactId) -> Option<ArtifactInfo>;

    /// Brings an instance into memory.
    fn start_service(&mut self, spec: &InstanceSpec) -> Result<(), ExecutionError>;

    /// Releases the in-memory resources of an instance.
    fn stop_service(&mut self, spec: &InstanceSpec) -> Result<(), ExecutionError>;

    /// The one-shot initialisation of a started instance. Implementations turn a panic of
    /// service code into an error of kind `ErrorKind::Panic` instead of unwinding.
    fn configure_service(
        &self,
        services: &mut ServiceState,
        spec: &InstanceSpec,
        parameters: &Vec<u8>,
    ) -> Result<(), ExecutionError>;

    /// Runs a method of an instance. The runtime may call back into `dispatcher`.
    /// Implementations turn a panic of service code into an error of kind
    /// `ErrorKind::Panic` instead of unwinding.
    fn execute(
        &self,
        dispatcher: &Dispatcher<Self>,
        context: &mut ExecutionContext,
        services: &mut ServiceState,
        call_info: CallInfo,
        arguments: &[u8],
    ) -> Result<(), ExecutionError>;

    /// The hashes of every index of this runtime and of its instances.
    fn state_hashes(&self, snapshot: &Fork) -> StateHashAggregator;

    /// Called on every runtime before a block is committed.
    fn before_commit(&self, dispatcher: &Dispatcher<Self>, services: &mut ServiceState);

    /// Called on every runtime after a block is committed, with a read-only snapshot.
    fn after_commit(&self, sender: &mut DispatcherSender, snapshot: &Fork);
}

/// An administrative effect requested by service code, applied after the call returns.
#[derive(Debug)]
pub enum Action {
    /// Registers a deployed artifact.
    RegisterArtifact { artifact: ArtifactId, spec: Vec<u8> },
    /// Starts an instance of a registered artifact under a freshly assigned identifier.
    StartService { artifact: ArtifactId, instance_name: String, config: Vec<u8> },
}

/// The per-call record: who called, and the actions queued during the call.
#[derive(Debug)]
pub struct ExecutionContext {
    pub caller: Caller,
    /// Actions queued during the call, in order.
    pub actions: Vec<Action>,
}

impl ExecutionContext {
    pub open spec fn pending(&self) -> Seq<Action> {
        self.actions@
    }

    pub fn new(caller: Caller) -> (r: ExecutionContext)
        ensures
            r.caller == caller,
            r.pending() == Seq::<Action>::empty(),
    {
        ExecutionContext { caller, actions: Vec::new() }
    }

    /// Queues an action for the dispatcher.
    pub fn dispatch_action(&mut self, action: Action)
        ensures
            final(self).caller == old(self).caller,
            final(self).pending() == old(self).pending().push(action),
    {
        self.actions.push(action);
    }

    /// Takes the queued actions, in the order they were queued.
    pub fn take_actions(&mut self) -> (r: Vec<Action>)
        ensures
            r@ == old(self).pending(),
            final(self).caller == old(self).caller,
            final(self).pending() == Seq::<Action>::empty(),
    {
        let mut taken: Vec<Action> = Vec::new();
        std::mem::swap(&mut taken, &mut self.actions);
        taken
    }
}

impl Action {
    /// Whether the effect of this action shows in `schema`.
    pub open spec fn done_in(&self, schema: &DispatcherSchema) -> bool {
        match self {
            Action::RegisterArtifact { artifact, spec } => schema.has_artifact(artifact@),
            Action::StartService { artifact, instance_name, config } => exists|i: int|
                0 <= i < schema.instances_view().len() && (#[trigger] schema.instances_view()[i]).1
                    == instance_name@ && schema.instances_view()[i].2 == artifact@,
        }
    }

    /// Later actions keep the effects of earlier ones: records are only ever added.
    pub proof fn lemma_done_kept(&self, before: DispatcherSchema, after: DispatcherSchema)
        requires
            self.done_in(&before),
            before.artifacts_view().len() <= after.artifacts_view().len(),
            before.instances_view().len() <= after.instances_view().len(),
            forall|i: int|
                0 <= i < before.artifacts_view().len() ==> after.artifacts_view()[i]
                    == before.artifacts_view()[i],
            forall|i: int|
                0 <= i < before.instances_view().len() ==> after.instances_view()[i]
                    == before.instances_view()[i],
        ensures
            self.done_in(&after),
    {
        match self {
            Action::RegisterArtifact { artifact, spec } => {
                let i = choose|i: int|
                    0 <= i < before.artifacts_view().len() && (#[trigger] before.artifacts_view()[i]).0
                        == artifact@;
                assert(after.artifacts_view()[i].0 == artifact@);
            },
            Action::StartService { artifact, instance_name, config } => {
                let i = choose|i: int|
                    0 <= i < before.instances_view().len() && (#[trigger] before.instances_view()[i]).1
                        == instance_name@ && before.instances_view()[i].2 == artifact@;
                assert(after.instances_view()[i] == before.instances_view()[i]);
            },
        }
    }

    /// The check that applying this action fails whatever the runtimes answer, if any:
    /// `register_error` for a registration; for a start, no identifier left, or the
    /// `start_error` of the instance under the next identifier.
    pub open spec fn static_error<R: Runtime>(
        &self,
        dispatcher: &Dispatcher<R>,
        schema: &DispatcherSchema,
    ) -> Option<DispatcherError> {
        match self {
            Action::RegisterArtifact { artifact, spec } => dispatcher.register_error(artifact),
            Action::StartService { artifact, instance_name, config } => {
                if schema.next_instance_id > u32::MAX {
                    Some(DispatcherError::NoFreeInstanceId)
                } else {
                    dispatcher.start_error(
                        schema,
                        &InstanceSpec {
                            id: schema.next_instance_id as u32,
                            name: *instance_name,
                            artifact: *artifact,
                        },
                    )
                }
            },
        }
    }

    /// Applies this action to `fork`: registers an artifact, or starts an instance under
    /// the next free identifier.
    pub fn execute<R: Runtime>(self, dispatcher: &mut Dispatcher<R>, fork: &mut Fork) -> (r:
        Result<(), ExecutionError>)
        requires
            old(dispatcher).wf(),
            old(fork).dispatcher.wf(),
            old(dispatcher).consistent(&old(fork).dispatcher),
        ensures
            final(dispatcher).wf(),
            final(fork).dispatcher.wf(),
            final(dispatcher).consistent(&final(fork).dispatcher),
            final(dispatcher).runtime_id_seq() == old(dispatcher).runtime_id_seq(),
            final(dispatcher).is_modified() == old(dispatcher).is_modified(),
            old(fork).dispatcher.artifacts_view().len() <= final(fork).dispatcher.artifacts_view().len(),
            old(fork).dispatcher.instances_view().len() <= final(fork).dispatcher.instances_view().len(),
            forall|i: int|
                0 <= i < old(fork).dispatcher.artifacts_view().len() ==> final(fork).dispatcher.artifacts_view()[i] == old(fork).dispatcher.artifacts_view()[i],
            forall|i: int|
                0 <= i < old(fork).dispatcher.instances_view().len() ==> final(fork).dispatcher.instances_view()[i] == old(fork).dispatcher.instances_view()[i],
            r is Ok ==> self.done_in(&final(fork).dispatcher),
            self.static_error(&*old(dispatcher), &old(fork).dispatcher) matches Some(e) ==> (r matches Err(
                x,
            ) && x.kind == ErrorKind::Dispatcher(e)),
            self is RegisterArtifact ==> final(fork).dispatcher.instances_view() == old(
                fork,
            ).dispatcher.instances_view() && final(fork).dispatcher.next_instance_id == old(
                fork,
            ).dispatcher.next_instance_id && final(dispatcher).lookup() == old(dispatcher).lookup(),
            self is RegisterArtifact && r is Ok ==> final(fork).dispatcher.artifacts_view() == add_record(
                old(fork).dispatcher.artifacts_view(),
                self->RegisterArtifact_artifact@,
                self->RegisterArtifact_spec@,
            ),
            self is StartService ==> final(fork).dispatcher.artifacts_view() == old(
                fork,
            ).dispatcher.artifacts_view(),
            self is StartService && old(fork).dispatcher.next_instance_id > u32::MAX ==> *final(fork)
                == *old(fork) && final(dispatcher).lookup() == old(dispatcher).lookup(),
            self is StartService && old(fork).dispatcher.next_instance_id <= u32::MAX ==> final(fork).dispatcher.next_instance_id == old(fork).dispatcher.next_instance_id + 1,
            self is StartService && r is Ok ==> final(fork).dispatcher.instances_view() == old(
                fork,
            ).dispatcher.instances_view().push(
                (
                    old(fork).dispatcher.next_instance_id as u32,
                    self->StartService_instance_name@,
                    self->StartService_artifact@,
                ),
            ) && final(dispatcher).lookup() == old(dispatcher).lookup().insert(
                old(fork).dispatcher.next_instance_id as u32,
                self->StartService_artifact.runtime_id,
            ),
            self is StartService && r is Err ==> final(fork).dispatcher.instances_view() == old(
                fork,
            ).dispatcher.instances_view() && final(dispatcher).lookup() == old(dispatcher).lookup(),
    {
        match self {
            Action::RegisterArtifact { artifact, spec } => {
                let ghost a = artifact@;
                let ghost sp = spec@;
                let r = dispatcher.register_artifact(fork, &artifact, spec);
                assert(r is Ok ==> fork.dispatcher.artifacts_view() == add_record(old(fork).dispatcher.artifacts_view(), a, sp));
                assert(fork.dispatcher.instances_view() == old(fork).dispatcher.instances_view());
                assert(dispatcher.lookup() == old(dispatcher).lookup());
                assert(fork.dispatcher.next_instance_id == old(fork).dispatcher.next_instance_id);
                assert(self matches Action::RegisterArtifact { artifact: x, spec: y } && x@ == a && y@ == sp);
                proof {
                    if r is Ok {
                        let t = fork.dispatcher.artifacts_view();
                        if !has_key(old(fork).dispatcher.artifacts_view(), a) {
                            assert(t[t.len() - 1].0 == a);
                        }
                    }
                }
                r
            },
            Action::StartService { artifact, instance_name, config } => {
                let id = match fork.dispatcher.assign_instance_id() {
                    Some(id) => id,
                    None => {
                        return Err(ExecutionError::dispatcher(DispatcherError::NoFreeInstanceId));
                    },
                };
                let ghost name = instance_name@;
                let ghost a = artifact@;
                let spec = InstanceSpec { id, name: instance_name, artifact };
                let r = dispatcher.start_service(fork, spec, &config);
                proof {
                    if r is Ok {
                        let t = fork.dispatcher.instances_view();
                        assert(t[t.len() - 1].1 == name && t[t.len() - 1].2 == a);
                    }
                }
                r
            },
        }
    }
}

/// A transaction whose signature has been checked: its payload and its author.
#[derive(Clone, Debug)]
pub struct Verified {
    pub payload: AnyTx,
    pub author: PublicKey,
}

/// A deployment requested by a runtime after a commit.
#[derive(Debug)]
pub struct DeployArtifactRequest {
    pub artifact: ArtifactId,
    pub spec: Vec<u8>,
}

/// The channel through which runtimes request deployments after a commit.
#[derive(Debug)]
pub struct DispatcherSender {
    deploy_requests: Vec<DeployArtifactRequest>,
}

impl DispatcherSender {
    pub closed spec fn requests(&self) -> Seq<DeployArtifactRequest> {
        self.deploy_requests@
    }

    pub fn new() -> (r: DispatcherSender)
        ensures
            r.requests() == Seq::<DeployArtifactRequest>::empty(),
    {
        DispatcherSender { deploy_requests: Vec::new() }
    }

    /// Queues a request to deploy `artifact` with `spec`.
    pub fn request_deploy_artifact(&mut self, artifact: ArtifactId, spec: Vec<u8>)
        ensures
            final(self).requests() == old(self).requests().push(
                DeployArtifactRequest { artifact, spec },
            ),
    {
        self.deploy_requests.push(DeployArtifactRequest { artifact, spec });
    }

    /// Takes the queued requests, in the order they were made.
    pub fn take_deploy_requests(self) -> (r: Vec<DeployArtifactRequest>)
        ensures
            r@ == self.requests(),
    {
        self.deploy_requests
    }
}

/// Routes calls to runtimes and keeps the running instances in step with the
/// dispatcher schema.
pub struct Dispatcher<R: Runtime> {
    /// Runtime identifiers, in registration order, each at most once.
    runtime_ids: Vec<u32>,
    /// The runtime registered under `runtime_ids[i]` is `runtimes[i]`.
    runtimes: Vec<R>,
    /// The runtime of each running instance.
    runtime_lookup: HashMap<u32, u32>,
    modified: bool,
}

impl<R: Runtime> Dispatcher<R> {
    /// The registered runtime identifiers, in registration order.
    pub closed spec fn runtime_id_seq(&self) -> Seq<u32> {
        self.runtime_ids@
    }

    /// The runtime of each running instance.
    pub closed spec fn lookup(&self) -> Map<u32, u32> {
        self.runtime_lookup@
    }

    pub closed spec fn is_modified(&self) -> bool {
        self.modified
    }

    pub closed spec fn wf(&self) -> bool {
        &&& self.runtime_ids@.len() == self.runtimes@.len()
        &&& forall|i: int, j: int|
            0 <= i < self.runtime_ids@.len() && 0 <= j < self.runtime_ids@.len() && i != j
                ==> self.runtime_ids@[i] != self.runtime_ids@[j]
    }

    pub open spec fn has_runtime(&self, runtime_id: u32) -> bool {
        self.runtime_id_seq().contains(runtime_id)
    }

    /// Every running instance has a persistent record that names the same runtime.
    pub open spec fn consistent(&self, schema: &DispatcherSchema) -> bool {
        lookup_consistent(self.lookup(), schema.instances_view())
    }

    /// A dispatcher without runtimes.
    pub fn new() -> (r: Self)
        ensures
            r.wf(),
            r.runtime_id_seq() == Seq::<u32>::empty(),
            r.lookup() == Map::<u32, u32>::empty(),
            !r.is_modified(),
    {
        Dispatcher {
            runtime_ids: Vec::new(),
            runtimes: Vec::new(),
            runtime_lookup: HashMap::new(),
            modified: false,
        }
    }

    /// A dispatcher with the given runtimes. A later runtime with an identifier
    /// already given replaces the earlier one.
    pub fn with_runtimes(runtimes: Vec<(u32, R)>) -> (r: Self)
        ensures
            r.wf(),
            forall|id: u32|
                r.has_runtime(id) <==> exists|i: int|
                    0 <= i < runtimes@.len() && (#[trigger] runtimes@[i]).0 == id,
            r.lookup() == Map::<u32, u32>::empty(),
            !r.is_modified(),
    {
        let mut d = Self::new();
        let mut rest = runtimes;
        let ghost all = rest@;
        let ghost mut k: int = 0;
        while rest.len() > 0
            invariant
                d.wf(),
                0 <= k <= all.len(),
                rest@ == all.subrange(k, all.len() as int),
                forall|id: u32|
                    d.has_runtime(id) <==> exists|i: int|
                        0 <= i < k && (#[trigger] all[i]).0 == id,
                d.lookup() == Map::<u32, u32>::empty(),
                !d.is_modified(),
            decreases rest@.len(),
        {
            let (id, runtime) = rest.remove(0);
            proof {
                assert(all[k].0 == id);
            }
            d.add_runtime(id, runtime);
            proof {
                k = k + 1;
                assert forall|x: u32|
                    d.has_runtime(x) <==> exists|i: int| 0 <= i < k && (#[trigger] all[i]).0 == x by {
                    if x == id {
                        assert(all[k - 1].0 == x);
                    }
                    if exists|i: int| 0 <= i < k && (#[trigger] all[i]).0 == x {
                        let i = choose|i: int| 0 <= i < k && (#[trigger] all[i]).0 == x;
                        if i < k - 1 {
                            assert(exists|j: int| 0 <= j < k - 1 && (#[trigger] all[j]).0 == x);
                        }
                    }
                }
                assert(rest@ =~= all.subrange(k, all.len() as int));
            }
        }
        d
    }

    /// Registers `runtime` under `id`, replacing a runtime registered under `id` before.
    pub fn add_runtime(&mut self, id: u32, runtime: R)
        requires
            old(self).wf(),
        ensures
            final(self).wf(),
            forall|x: u32| final(self).has_runtime(x) <==> (old(self).has_runtime(x) || x == id),
            final(self).lookup() == old(self).lookup(),
            final(self).is_modified() == old(self).is_modified(),
    {
        match self.runtime_index(id) {
            Some(i) => {
                self.runtimes.set(i, runtime);
            },
            None => {
                self.runtime_ids.push(id);
                self.runtimes.push(runtime);
                assert forall|x: u32|
                    self.has_runtime(x) <==> (old(self).has_runtime(x) || x == id) by {
                    if old(self).has_runtime(x) {
                        let j = choose|j: int|
                            0 <= j < old(self).runtime_ids@.len() && old(self).runtime_ids@[j] == x;
                        assert(self.runtime_ids@[j] == x);
                    }
                    if x == id {
                        assert(self.runtime_ids@[self.runtime_ids@.len() - 1] == x);
                    }
                    if self.has_runtime(x) && x != id {
                        let j = choose|j: int|
                            0 <= j < self.runtime_ids@.len() && self.runtime_ids@[j] == x;
                        assert(old(self).runtime_ids@[j] == x);
                    }
                }
            },
        }
    }

    /// Whether a runtime is registered under `id`.
    pub fn contains_runtime(&self, id: u32) -> (r: bool)
        requires
            self.wf(),
        ensures
            r == self.has_runtime(id),
    {
        self.runtime_index(id).is_some()
    }

    fn runtime_index(&self, id: u32) -> (r: Option<usize>)
        requires
            self.wf(),
        ensures
            r is Some <==> self.has_runtime(id),
            r matches Some(i) ==> i < self.runtimes@.len() && self.runtime_ids@[i as int] == id,
    {
        let mut i: usize = 0;
        while i < self.runtime_ids.len()
            invariant
                0 <= i <= self.runtime_ids@.len(),
                self.wf(),
                forall|j: int| 0 <= j < i ==> self.runtime_ids@[j] != id,
            decreases self.runtime_ids@.len() - i,
        {
            if self.runtime_ids[i] == id {
                return Some(i);
            }
            i = i + 1;
        }
        None
    }

    /// The runtime that runs instance `instance_id`, if it is running.
    pub fn runtime_of_instance(&self, instance_id: u32) -> (r: Option<u32>)
        ensures
            r is Some <==> self.lookup().contains_key(instance_id),
            r matches Some(rid) ==> self.lookup()[instance_id] == rid,
    {
        match self.runtime_lookup.get(&instance_id) {
            Some(rid) => Some(*rid),
            None => None,
        }
    }

    /// Information about `id` from the runtime that would host it.
    pub fn artifact_info(&self, id: &ArtifactId) -> (r: Option<ArtifactInfo>)
        requires
            self.wf(),
        ensures
            !self.has_runtime(id.runtime_id) ==> r is None,
    {
        match self.runtime_index(id.runtime_id) {
            Some(i) => self.runtimes[i].artifact_info(id),
            None => None,
        }
    }

    /// Whether the runtime that would host `id` reports it as deployed.
    pub fn is_deployed(&self, id: &ArtifactId) -> (r: bool)
        requires
            self.wf(),
        ensures
            !self.has_runtime(id.runtime_id) ==> !r,
    {
        self.artifact_info(id).is_some()
    }

    /// Reports whether the dispatcher was modified since the last call, and clears the mark.
    pub fn take_modified_state(&mut self) -> (r: bool)
        ensures
            r == old(self).is_modified(),
            !final(self).is_modified(),
            final(self).lookup() == old(self).lookup(),
            final(self).runtime_id_seq() == old(self).runtime_id_seq(),
            final(self).wf() == old(self).wf(),
    {
        let r = self.modified;
        self.modified = false;
        r
    }

    /// Marks the dispatcher as modified.
    pub fn mark_as_modified(&mut self)
        ensures
            final(self).is_modified(),
            final(self).lookup() == old(self).lookup(),
            final(self).runtime_id_seq() == old(self).runtime_id_seq(),
            final(self).wf() == old(self).wf(),
    {
        self.modified = true;
    }

    /// Records that `instance` runs in the runtime its artifact names.
    fn register_running_service(&mut self, instance: &InstanceSpec)
        ensures
            final(self).lookup() == old(self).lookup().insert(
                instance.id,
                instance.artifact.runtime_id,
            ),
            final(self).runtime_id_seq() == old(self).runtime_id_seq(),
            final(self).is_modified() == old(self).is_modified(),
            final(self).wf() == old(self).wf(),
    {
        self.runtime_lookup.insert(instance.id, instance.artifact.runtime_id);
    }

    /// Calls method `call_info` of a running instance through the runtime that runs it.
    pub fn call(
        &self,
        context: &mut ExecutionContext,
        services: &mut ServiceState,
        call_info: CallInfo,
        arguments: &[u8],
    ) -> (r: Result<(), ExecutionError>)
        requires
            self.wf(),
        ensures
            !self.lookup().contains_key(call_info.instance_id) ==> (r matches Err(e) && e.kind
                == ErrorKind::Dispatcher(DispatcherError::IncorrectInstanceId)),
            self.lookup().contains_key(call_info.instance_id) && !self.has_runtime(
                self.lookup()[call_info.instance_id],
            ) ==> (r matches Err(e) && e.kind == ErrorKind::Dispatcher(
                DispatcherError::IncorrectRuntime,
            )),
            r is Ok ==> self.routes(call_info.instance_id),
            !self.routes(call_info.instance_id) ==> *final(context) == *old(context),
            !self.routes(call_info.instance_id) ==> *final(services) == *old(services),
    {
        let runtime_id = match self.runtime_lookup.get(&call_info.instance_id) {
            Some(rid) => *rid,
            None => {
                return Err(ExecutionError::dispatcher(DispatcherError::IncorrectInstanceId));
            },
        };
        match self.runtime_index(runtime_id) {
            Some(i) => self.runtimes[i].execute(self, context, services, call_info, arguments),
            None => Err(ExecutionError::dispatcher(DispatcherError::IncorrectRuntime)),
        }
    }

    /// The first check that starting an instance with spec `s` fails, if any: the spec, the
    /// identifier, the runtime, the artifact's record, the name, in this order.
    pub open spec fn start_error(&self, schema: &DispatcherSchema, s: &InstanceSpec) -> Option<
        DispatcherError,
    > {
        if !s.is_valid() {
            Some(DispatcherError::InvalidInstanceSpec)
        } else if self.lookup().contains_key(s.id) || schema.has_instance_id(s.id) {
            Some(DispatcherError::ServiceIdExists)
        } else if !self.has_runtime(s.artifact.runtime_id) {
            Some(DispatcherError::IncorrectRuntime)
        } else if !schema.has_artifact(s.artifact@) {
            Some(DispatcherError::ArtifactNotDeployed)
        } else if schema.has_instance_name(s.name@) {
            Some(DispatcherError::ServiceNameExists)
        } else {
            None
        }
    }

    /// The first check that deploying `a` fails, if any.
    pub open spec fn deploy_error(&self, a: &ArtifactId) -> Option<DispatcherError> {
        if !name_is_valid(a.name@) {
            Some(DispatcherError::InvalidArtifactId)
        } else if !self.has_runtime(a.runtime_id) {
            Some(DispatcherError::IncorrectRuntime)
        } else {
            None
        }
    }

    /// Asks the runtime named by `artifact` to deploy it. The persistent state is not touched.
    pub fn deploy_artifact(&mut self, artifact: &ArtifactId, spec: &Vec<u8>) -> (r: Result<
        (),
        ExecutionError,
    >)
        requires
            old(self).wf(),
        ensures
            final(self).wf(),
            final(self).lookup() == old(self).lookup(),
            final(self).runtime_id_seq() == old(self).runtime_id_seq(),
            final(self).is_modified() == old(self).is_modified(),
            old(self).deploy_error(artifact) matches Some(e) ==> (r matches Err(x) && x.kind
                == ErrorKind::Dispatcher(e)),
    {
        if artifact.validate().is_err() {
            return Err(ExecutionError::dispatcher(DispatcherError::InvalidArtifactId));
        }
        match self.runtime_index(artifact.runtime_id) {
            Some(i) => self.runtimes[i].deploy_artifact(artifact, spec),
            None => Err(ExecutionError::dispatcher(DispatcherError::IncorrectRuntime)),
        }
    }

    /// Records `artifact` with `spec` in the dispatcher schema, given whether its runtime
    /// reports it deployed. Recording it again changes nothing.
    pub fn record_artifact(fork: &mut Fork, artifact: &ArtifactId, spec: Vec<u8>, deployed: bool) -> (r:
        Result<(), ExecutionError>)
        requires
            old(fork).dispatcher.wf(),
        ensures
            final(fork).dispatcher.wf(),
            !name_is_valid(artifact.name@) ==> (r matches Err(x) && x.kind == ErrorKind::Dispatcher(
                DispatcherError::InvalidArtifactId,
            )),
            name_is_valid(artifact.name@) && !deployed ==> (r matches Err(x) && x.kind
                == ErrorKind::Dispatcher(DispatcherError::ArtifactNotDeployed)),
            name_is_valid(artifact.name@) && deployed ==> r is Ok,
            r is Ok ==> final(fork).dispatcher.artifacts_view() == add_record(
                old(fork).dispatcher.artifacts_view(),
                artifact@,
                spec@,
            ),
            r is Ok ==> final(fork).dispatcher.instances_view() == old(fork).dispatcher.instances_view(),
            r is Ok ==> final(fork).dispatcher.next_instance_id == old(fork).dispatcher.next_instance_id,
            r is Ok ==> final(fork).services == old(fork).services,
            r is Err ==> *final(fork) == *old(fork),
    {
        if artifact.validate().is_err() {
            return Err(ExecutionError::dispatcher(DispatcherError::InvalidArtifactId));
        }
        if !deployed {
            return Err(ExecutionError::dispatcher(DispatcherError::ArtifactNotDeployed));
        }
        fork.dispatcher.add_artifact(copy_artifact(artifact), spec);
        Ok(())
    }

    /// Records a deployed artifact in the dispatcher schema: `record_artifact` with the
    /// answer of the runtime that would host it. Recording it again changes nothing.
    pub fn register_artifact(&self, fork: &mut Fork, artifact: &ArtifactId, spec: Vec<u8>) -> (r:
        Result<(), ExecutionError>)
        requires
            self.wf(),
            old(fork).dispatcher.wf(),
        ensures
            final(fork).dispatcher.wf(),
            final(fork).services == old(fork).services,
            final(fork).dispatcher.instances_view() == old(fork).dispatcher.instances_view(),
            final(fork).dispatcher.next_instance_id == old(fork).dispatcher.next_instance_id,
            self.register_error(artifact) matches Some(e) ==> (r matches Err(x) && x.kind
                == ErrorKind::Dispatcher(e)),
            r matches Err(x) ==> x.kind == ErrorKind::Dispatcher(DispatcherError::InvalidArtifactId)
                || x.kind == ErrorKind::Dispatcher(DispatcherError::ArtifactNotDeployed),
            r is Ok ==> final(fork).dispatcher.artifacts_view() == add_record(
                old(fork).dispatcher.artifacts_view(),
                artifact@,
                spec@,
            ),
            r is Ok ==> name_is_valid(artifact.name@) && self.has_runtime(artifact.runtime_id),
            r is Err ==> *final(fork) == *old(fork),
    {
        let deployed = self.is_deployed(artifact);
        Self::record_artifact(fork, artifact, spec, deployed)
    }

    /// The check that registering `a` fails whatever its runtime answers, if any.
    pub open spec fn register_error(&self, a: &ArtifactId) -> Option<DispatcherError> {
        if !name_is_valid(a.name@) {
            Some(DispatcherError::InvalidArtifactId)
        } else if !self.has_runtime(a.runtime_id) {
            Some(DispatcherError::ArtifactNotDeployed)
        } else {
            None
        }
    }

    /// Deploys `artifact` and then records it in the dispatcher schema.
    pub fn deploy_and_register_artifact(
        &mut self,
        fork: &mut Fork,
        artifact: &ArtifactId,
        spec: Vec<u8>,
    ) -> (r: Result<(), ExecutionError>)
        requires
            old(self).wf(),
            old(fork).dispatcher.wf(),
        ensures
            final(self).wf(),
            final(self).lookup() == old(self).lookup(),
            final(self).runtime_id_seq() == old(self).runtime_id_seq(),
            final(self).is_modified() == old(self).is_modified(),
            final(fork).dispatcher.wf(),
            final(fork).services == old(fork).services,
            final(fork).dispatcher.instances_view() == old(fork).dispatcher.instances_view(),
            final(fork).dispatcher.next_instance_id == old(fork).dispatcher.next_instance_id,
            old(self).deploy_error(artifact) matches Some(e) ==> (r matches Err(x) && x.kind
                == ErrorKind::Dispatcher(e)),
            r is Ok ==> final(fork).dispatcher.artifacts_view() == add_record(
                old(fork).dispatcher.artifacts_view(),
                artifact@,
                spec@,
            ),
            r is Err ==> *final(fork) == *old(fork),
    {
        let d = self.deploy_artifact(artifact, &spec);
        match d {
            Ok(()) => self.register_artifact(fork, artifact, spec),
            Err(e) => Err(e),
        }
    }

    /// What starting an instance comes to, given what the runtime answered: to `start`,
    /// to `configure` (asked only after a successful start), and to `stop` (asked only after
    /// a failed configuration). A failed stop is fatal.
    pub open spec fn start_outcome(
        started: Result<(), ExecutionError>,
        configured: Result<(), ExecutionError>,
        stopped: Result<(), ExecutionError>,
    ) -> Result<(), ExecutionError> {
        match started {
            Err(e) => Err(e),
            Ok(_) => match configured {
                Ok(_) => Ok(()),
                Err(e) => match stopped {
                    Ok(_) => Err(e),
                    Err(s) => Err(ExecutionError { kind: ErrorKind::Fatal, description: s.description }),
                },
            },
        }
    }

    /// Completes the start of an instance that passed every check of the dispatcher, given
    /// the runtime's answers: on success records it in the schema and the lookup table,
    /// otherwise returns `start_outcome` and leaves both as they were.
    pub fn settle_start(
        &mut self,
        fork: &mut Fork,
        spec: InstanceSpec,
        started: Result<(), ExecutionError>,
        configured: Result<(), ExecutionError>,
        stopped: Result<(), ExecutionError>,
    ) -> (r: Result<(), ExecutionError>)
        requires
            old(self).wf(),
            old(fork).dispatcher.wf(),
            old(self).consistent(&old(fork).dispatcher),
            old(self).start_error(&old(fork).dispatcher, &spec) is None,
        ensures
            final(self).wf(),
            final(fork).dispatcher.wf(),
            final(self).consistent(&final(fork).dispatcher),
            final(self).runtime_id_seq() == old(self).runtime_id_seq(),
            final(self).is_modified() == old(self).is_modified(),
            final(fork).services == old(fork).services,
            final(fork).dispatcher.artifacts_view() == old(fork).dispatcher.artifacts_view(),
            r == Self::start_outcome(started, configured, stopped),
            r is Ok ==> final(fork).dispatcher.instances_view() == old(
                fork,
            ).dispatcher.instances_view().push(spec@),
            spec.id < old(fork).dispatcher.next_instance_id ==> final(fork).dispatcher.next_instance_id
                == old(fork).dispatcher.next_instance_id,
            r is Ok ==> final(self).lookup() == old(self).lookup().insert(
                spec.id,
                spec.artifact.runtime_id,
            ),
            r is Err ==> *final(fork) == *old(fork),
            r is Err ==> final(self).lookup() == old(self).lookup(),
    {
        if let Err(e) = started {
            return Err(e);
        }
        if let Err(e) = configured {
            return match stopped {
                Ok(()) => Err(e),
                Err(s) => Err(ExecutionError { kind: ErrorKind::Fatal, description: s.description }),
            };
        }
        let record = copy_instance(&spec);
        let added = fork.dispatcher.add_service_instance(record);
        if let Err(e) = added {
            return Err(e);
        }
        self.register_running_service(&spec);
        proof {
            lemma_consistent_after_start(
                old(self).lookup(),
                old(fork).dispatcher,
                fork.dispatcher,
                spec@,
            );
        }
        Ok(())
    }

    /// Starts and configures a new instance, then records it in the dispatcher schema and
    /// in the lookup table. An artifact that its runtime does not report deployed is refused.
    /// When configuration fails the instance is stopped again; when stopping fails too, the
    /// error is fatal (see `settle_start`).
    pub fn start_service(&mut self, fork: &mut Fork, spec: InstanceSpec, constructor: &Vec<u8>) -> (r:
        Result<(), ExecutionError>)
        requires
            old(self).wf(),
            old(fork).dispatcher.wf(),
            old(self).consistent(&old(fork).dispatcher),
        ensures
            final(self).wf(),
            final(fork).dispatcher.wf(),
            final(self).consistent(&final(fork).dispatcher),
            final(self).runtime_id_seq() == old(self).runtime_id_seq(),
            final(self).is_modified() == old(self).is_modified(),
            final(fork).dispatcher.artifacts_view() == old(fork).dispatcher.artifacts_view(),
            old(self).start_error(&old(fork).dispatcher, &spec) matches Some(e) ==> (r matches Err(
                x,
            ) && x.kind == ErrorKind::Dispatcher(e) && *final(fork) == *old(fork)),
            r is Ok ==> old(self).start_error(&old(fork).dispatcher, &spec) is None,
            r is Ok ==> final(fork).dispatcher.instances_view() == old(
                fork,
            ).dispatcher.instances_view().push(spec@),
            spec.id < old(fork).dispatcher.next_instance_id ==> final(fork).dispatcher.next_instance_id
                == old(fork).dispatcher.next_instance_id,
            r is Ok ==> final(self).lookup() == old(self).lookup().insert(
                spec.id,
                spec.artifact.runtime_id,
            ),
            r is Err ==> final(fork).dispatcher == old(fork).dispatcher,
            r is Err ==> final(self).lookup() == old(self).lookup(),
    {
        if spec.validate().is_err() {
            return Err(ExecutionError::dispatcher(DispatcherError::InvalidInstanceSpec));
        }
        if self.runtime_lookup.contains_key(&spec.id) || fork.dispatcher.instance_by_id(
            spec.id,
        ).is_some() {
            return Err(ExecutionError::dispatcher(DispatcherError::ServiceIdExists));
        }
        let i = match self.runtime_index(spec.artifact.runtime_id) {
            Some(i) => i,
            None => {
                return Err(ExecutionError::dispatcher(DispatcherError::IncorrectRuntime));
            },
        };
        if !fork.dispatcher.contains_artifact(&spec.artifact) {
            return Err(ExecutionError::dispatcher(DispatcherError::ArtifactNotDeployed));
        }
        if fork.dispatcher.instance_by_name(&spec.name).is_some() {
            return Err(ExecutionError::dispatcher(DispatcherError::ServiceNameExists));
        }
        if !self.is_deployed(&spec.artifact) {
            return Err(ExecutionError::dispatcher(DispatcherError::ArtifactNotDeployed));
        }
        let started = self.runtimes[i].start_service(&spec);
        let configured = if started.is_ok() {
            self.runtimes[i].configure_service(&mut fork.services, &spec, constructor)
        } else {
            Ok(())
        };
        let stopped = if started.is_ok() && configured.is_err() {
            self.runtimes[i].stop_service(&spec)
        } else {
            Ok(())
        };
        assert(self.lookup() == old(self).lookup());
        self.settle_start(fork, spec, started, configured, stopped)
    }


    /// Starts an instance recorded in the dispatcher schema and adds it to the lookup table.
    fn restart_service(&mut self, instance: &InstanceSpec, Ghost(schema): Ghost<DispatcherSchema>) -> (r:
        Result<(), ExecutionError>)
        requires
            old(self).wf(),
            old(self).consistent(&schema),
            exists|k: int|
                0 <= k < schema.instances_view().len() && schema.instances_view()[k] == instance@,
        ensures
            final(self).wf(),
            final(self).consistent(&schema),
            final(self).runtime_id_seq() == old(self).runtime_id_seq(),
            final(self).is_modified() == old(self).is_modified(),
            !old(self).has_runtime(instance.artifact.runtime_id) ==> (r matches Err(x) && x.kind
                == ErrorKind::Dispatcher(DispatcherError::IncorrectRuntime)),
            r is Ok ==> final(self).lookup() == old(self).lookup().insert(
                instance.id,
                instance.artifact.runtime_id,
            ),
            r is Err ==> final(self).lookup() == old(self).lookup(),
    {
        let i = match self.runtime_index(instance.artifact.runtime_id) {
            Some(i) => i,
            None => {
                return Err(ExecutionError::dispatcher(DispatcherError::IncorrectRuntime));
            },
        };
        let started = self.runtimes[i].start_service(instance);
        if let Err(e) = started {
            return Err(e);
        }
        self.register_running_service(instance);
        assert forall|iid: u32| #[trigger]
            self.lookup().contains_key(iid) implies exists|i: int|
                0 <= i < schema.instances_view().len() && (#[trigger] schema.instances_view()[i]).0
                    == iid && schema.instances_view()[i].2.0 == self.lookup()[iid] by {
            assert(lookup_consistent(old(self).lookup(), schema.instances_view()));
            if iid == instance.id {
                let k = choose|k: int|
                    0 <= k < schema.instances_view().len() && schema.instances_view()[k]
                        == instance@;
                assert(schema.instances_view()[k].0 == iid);
            } else {
                assert(old(self).lookup().contains_key(iid));
            }
        }
        Ok(())
    }

    /// Rebuilds the in-memory state from a snapshot: deploys every registered artifact,
    /// then restarts every recorded instance.
    pub fn restore_state(&mut self, snapshot: &Fork) -> (r: Result<(), ExecutionError>)
        requires
            old(self).wf(),
            snapshot.dispatcher.wf(),
            old(self).consistent(&snapshot.dispatcher),
        ensures
            final(self).wf(),
            final(self).consistent(&snapshot.dispatcher),
            final(self).runtime_id_seq() == old(self).runtime_id_seq(),
            final(self).is_modified() == old(self).is_modified(),
            r is Ok ==> forall|k: int|
                0 <= k < snapshot.dispatcher.instances_view().len() ==> {
                    let inst = #[trigger] snapshot.dispatcher.instances_view()[k];
                    final(self).lookup().contains_key(inst.0) && final(self).lookup()[inst.0]
                        == inst.2.0
                },
            (exists|k: int|
                0 <= k < snapshot.dispatcher.instances_view().len() && !old(self).has_runtime(
                    (#[trigger] snapshot.dispatcher.instances_view()[k]).2.0,
                )) ==> r is Err,
            (exists|k: int|
                0 <= k < snapshot.dispatcher.artifacts@.len() && old(self).deploy_error(
                    &(#[trigger] snapshot.dispatcher.artifacts@[k]).0,
                ) is Some) ==> r is Err,
            snapshot.dispatcher.artifacts@.len() == 0 && snapshot.dispatcher.service_instances@.len()
                == 0 ==> r is Ok && final(self).lookup() == old(self).lookup(),
    {
        let mut i: usize = 0;
        while i < snapshot.dispatcher.artifacts.len()
            invariant
                self.wf(),
                self.consistent(&snapshot.dispatcher),
                self.runtime_id_seq() == old(self).runtime_id_seq(),
                self.is_modified() == old(self).is_modified(),
                self.lookup() == old(self).lookup(),
                0 <= i <= snapshot.dispatcher.artifacts@.len(),
                forall|k: int|
                    0 <= k < i ==> old(self).deploy_error(
                        &(#[trigger] snapshot.dispatcher.artifacts@[k]).0,
                    ) is None,
            decreases snapshot.dispatcher.artifacts@.len() - i,
        {
            let deployed = self.deploy_artifact(&snapshot.dispatcher.artifacts[i].0, &snapshot.dispatcher.artifacts[i].1);
            if let Err(e) = deployed {
                return Err(e);
            }
            assert(forall|id: u32| self.has_runtime(id) == old(self).has_runtime(id));
            i = i + 1;
        }
        let mut j: usize = 0;
        while j < snapshot.dispatcher.service_instances.len()
            invariant
                self.wf(),
                snapshot.dispatcher.wf(),
                self.consistent(&snapshot.dispatcher),
                forall|k: int|
                    0 <= k < snapshot.dispatcher.artifacts@.len() ==> old(self).deploy_error(
                        &(#[trigger] snapshot.dispatcher.artifacts@[k]).0,
                    ) is None,
                j == 0 ==> self.lookup() == old(self).lookup(),
                self.runtime_id_seq() == old(self).runtime_id_seq(),
                self.is_modified() == old(self).is_modified(),
                0 <= j <= snapshot.dispatcher.service_instances@.len(),
                forall|k: int|
                    0 <= k < j ==> {
                        let inst = #[trigger] snapshot.dispatcher.instances_view()[k];
                        self.lookup().contains_key(inst.0) && self.lookup()[inst.0] == inst.2.0
                    },
                forall|k: int|
                    0 <= k < j ==> old(self).has_runtime(
                        (#[trigger] snapshot.dispatcher.instances_view()[k]).2.0,
                    ),
            decreases snapshot.dispatcher.service_instances@.len() - j,
        {
            let ghost before = self.lookup();
            assert(snapshot.dispatcher.instances_view()[j as int] == snapshot.dispatcher.service_instances@[j as int]@);
            let restarted = self.restart_service(&snapshot.dispatcher.service_instances[j], Ghost(snapshot.dispatcher));
            if let Err(e) = restarted {
                return Err(e);
            }
            assert forall|k: int| 0 <= k < j + 1 implies {
                let inst = #[trigger] snapshot.dispatcher.instances_view()[k];
                self.lookup().contains_key(inst.0) && self.lookup()[inst.0] == inst.2.0
            } by {
                if k < j {
                    assert(snapshot.dispatcher.instances_view()[k].0 != snapshot.dispatcher.instances_view()[j as int].0);
                }
            }
            j = j + 1;
        }
        Ok(())
    }

    /// Adds a builtin service during genesis: records its artifact with an empty spec,
    /// then starts it.
    pub fn add_builtin_service(&mut self, fork: &mut Fork, spec: InstanceSpec, constructor: &Vec<u8>) -> (r:
        Result<(), ExecutionError>)
        requires
            spec.id < MAX_BUILTIN_INSTANCE_ID,
            old(self).wf(),
            old(fork).dispatcher.wf(),
            old(self).consistent(&old(fork).dispatcher),
        ensures
            final(self).wf(),
            final(fork).dispatcher.wf(),
            final(self).consistent(&final(fork).dispatcher),
            final(self).runtime_id_seq() == old(self).runtime_id_seq(),
            final(self).is_modified() == old(self).is_modified(),
            old(self).deploy_error(&spec.artifact) matches Some(e) ==> (r matches Err(x) && x.kind
                == ErrorKind::Dispatcher(e)),
            r is Ok ==> final(fork).dispatcher.has_artifact(spec.artifact@),
            r is Ok ==> final(fork).dispatcher.artifacts_view() == add_record(
                old(fork).dispatcher.artifacts_view(),
                spec.artifact@,
                Seq::empty(),
            ),
            r is Ok ==> final(fork).dispatcher.instances_view() == old(
                fork,
            ).dispatcher.instances_view().push(spec@),
            spec.id < old(fork).dispatcher.next_instance_id ==> final(fork).dispatcher.next_instance_id
                == old(fork).dispatcher.next_instance_id,
            r is Ok ==> final(self).lookup() == old(self).lookup().insert(
                spec.id,
                spec.artifact.runtime_id,
            ),
    {
        let registered = self.deploy_and_register_artifact(fork, &spec.artifact, Vec::new());
        if let Err(e) = registered {
            return Err(e);
        }
        assert(fork.dispatcher.has_artifact(spec.artifact@)) by {
            let t = fork.dispatcher.artifacts_view();
            if !has_key(old(fork).dispatcher.artifacts_view(), spec.artifact@) {
                assert(t[t.len() - 1].0 == spec.artifact@);
            }
        }
        assert(self.consistent(&fork.dispatcher)) by {
            assert(fork.dispatcher.instances_view() == old(fork).dispatcher.instances_view());
        }
        self.start_service(fork, spec, constructor)
    }

    /// Applies the actions queued by a transaction, in order, stopping at the first that
    /// fails and returning its error. The dispatcher is marked as modified as soon as there
    /// are actions. If one fails, the lookup table is put back as it was; the caller then
    /// discards the fork.
    pub fn apply_actions(&mut self, fork: &mut Fork, actions: Vec<Action>) -> (r: Result<
        (),
        ExecutionError,
    >)
        requires
            old(self).wf(),
            old(fork).dispatcher.wf(),
            old(self).consistent(&old(fork).dispatcher),
        ensures
            final(self).wf(),
            final(fork).dispatcher.wf(),
            final(self).consistent(&final(fork).dispatcher),
            final(self).runtime_id_seq() == old(self).runtime_id_seq(),
            final(self).is_modified() == (old(self).is_modified() || actions@.len() > 0),
            r is Ok ==> forall|k: int|
                0 <= k < actions@.len() ==> (#[trigger] actions@[k]).done_in(
                    &final(fork).dispatcher,
                ),
            actions@.len() > 0 ==> (actions@[0].static_error(&*old(self), &old(fork).dispatcher) matches Some(
                e,
            ) ==> (r matches Err(x) && x.kind == ErrorKind::Dispatcher(e))),
            r is Err ==> exists|k: int|
                #![trigger actions@[k]]
                0 <= k < actions@.len() && forall|j: int|
                    0 <= j < k ==> (#[trigger] actions@[j]).done_in(&final(fork).dispatcher),
            r is Err ==> final(self).lookup() == old(self).lookup(),
            actions@.len() == 0 ==> r is Ok && *final(fork) == *old(fork) && final(self).lookup()
                == old(self).lookup(),
    {
        if actions.len() > 0 {
            self.mark_as_modified();
        }
        let saved_lookup = self.runtime_lookup.clone();
        let mut rest = actions;
        let ghost all = rest@;
        let ghost mut k: int = 0;
        while rest.len() > 0
            invariant
                self.wf(),
                fork.dispatcher.wf(),
                self.consistent(&fork.dispatcher),
                self.runtime_id_seq() == old(self).runtime_id_seq(),
                self.is_modified() == (old(self).is_modified() || actions@.len() > 0),
                saved_lookup@ == old(self).lookup(),
                lookup_consistent(old(self).lookup(), old(fork).dispatcher.instances_view()),
                all == actions@,
                old(fork).dispatcher.instances_view().len() <= fork.dispatcher.instances_view().len(),
                forall|i: int|
                    0 <= i < old(fork).dispatcher.instances_view().len() ==> fork.dispatcher.instances_view()[i]
                        == old(fork).dispatcher.instances_view()[i],
                0 <= k <= all.len(),
                rest@ == all.subrange(k, all.len() as int),
                forall|j: int| 0 <= j < k ==> (#[trigger] all[j]).done_in(&fork.dispatcher),
                k == 0 ==> *fork == *old(fork) && self.lookup() == old(self).lookup(),
                k > 0 ==> all[0].static_error(&*old(self), &old(fork).dispatcher) is None,
            decreases rest@.len(),
        {
            let action = rest.remove(0);
            assert(action == all[k]);
            let ghost before = fork.dispatcher;
            proof {
                if k == 0 {
                    lemma_static_error_same(all[0], *old(self), *self, old(fork).dispatcher);
                }
            }
            let applied = action.execute(self, fork);
            if let Err(e) = applied {
                self.runtime_lookup = saved_lookup;
                proof {
                    lemma_consistent_extend(
                        old(self).lookup(),
                        old(fork).dispatcher.instances_view(),
                        fork.dispatcher.instances_view(),
                    );
                    assert forall|j: int| 0 <= j < k implies (#[trigger] all[j]).done_in(
                        &fork.dispatcher,
                    ) by {
                        all[j].lemma_done_kept(before, fork.dispatcher);
                    }
                    assert(0 <= k < actions@.len() && actions@[k] == all[k]);
                }
                return Err(e);
            }
            proof {
                assert forall|j: int| 0 <= j < k + 1 implies (#[trigger] all[j]).done_in(
                    &fork.dispatcher,
                ) by {
                    if j < k {
                        all[j].lemma_done_kept(before, fork.dispatcher);
                    }
                }
                k = k + 1;
                assert(rest@ =~= all.subrange(k, all.len() as int));
            }
        }
        Ok(())
    }

    /// The context of a call made by a transaction: the caller is the transaction, named
    /// by its author and its hash `tx_id`, and no action is queued yet.
    pub fn transaction_context(tx_id: Digest, tx: &Verified) -> (r: ExecutionContext)
        ensures
            r.caller == (Caller::Transaction { author: tx.author, hash: tx_id }),
            r.pending() == Seq::<Action>::empty(),
    {
        ExecutionContext::new(Caller::Transaction { author: tx.author, hash: tx_id })
    }

    /// Finishes a transaction, given what its call returned and the actions it queued: a
    /// failed call's error comes back as it was and no action is applied; after a
    /// successful call the actions are applied as `apply_actions` does.
    pub fn finish_execution(
        &mut self,
        fork: &mut Fork,
        called: Result<(), ExecutionError>,
        actions: Vec<Action>,
    ) -> (r: Result<(), ExecutionError>)
        requires
            old(self).wf(),
            old(fork).dispatcher.wf(),
            old(self).consistent(&old(fork).dispatcher),
        ensures
            final(self).wf(),
            final(fork).dispatcher.wf(),
            final(self).consistent(&final(fork).dispatcher),
            final(self).runtime_id_seq() == old(self).runtime_id_seq(),
            called is Err ==> r == called && *final(fork) == *old(fork) && final(self).lookup()
                == old(self).lookup() && final(self).is_modified() == old(self).is_modified(),
            called is Ok ==> final(self).is_modified() == (old(self).is_modified() || actions@.len()
                > 0),
            called is Ok && r is Ok ==> forall|k: int|
                0 <= k < actions@.len() ==> (#[trigger] actions@[k]).done_in(
                    &final(fork).dispatcher,
                ),
            called is Ok && actions@.len() > 0 ==> (actions@[0].static_error(
                &*old(self),
                &old(fork).dispatcher,
            ) matches Some(e) ==> (r matches Err(x) && x.kind == ErrorKind::Dispatcher(e))),
            called is Ok && r is Err ==> exists|k: int|
                #![trigger actions@[k]]
                0 <= k < actions@.len() && forall|j: int|
                    0 <= j < k ==> (#[trigger] actions@[j]).done_in(&final(fork).dispatcher),
            r is Err ==> final(self).lookup() == old(self).lookup(),
            called is Ok && actions@.len() == 0 ==> r is Ok && *final(fork) == *old(fork)
                && final(self).lookup() == old(self).lookup(),
    {
        match called {
            Err(e) => Err(e),
            Ok(()) => self.apply_actions(fork, actions),
        }
    }

    /// Executes a verified transaction: calls the target instance with the caller of
    /// `transaction_context`, then finishes it as `finish_execution` does with the actions
    /// the call queued.
    pub fn execute(&mut self, fork: &mut Fork, tx_id: Digest, tx: &Verified) -> (r: Result<
        (),
        ExecutionError,
    >)
        requires
            old(self).wf(),
            old(fork).dispatcher.wf(),
            old(self).consistent(&old(fork).dispatcher),
        ensures
            final(self).wf(),
            final(fork).dispatcher.wf(),
            final(self).consistent(&final(fork).dispatcher),
            final(self).runtime_id_seq() == old(self).runtime_id_seq(),
            !old(self).lookup().contains_key(tx.payload.call_info.instance_id) ==> (r matches Err(
                x,
            ) && x.kind == ErrorKind::Dispatcher(DispatcherError::IncorrectInstanceId)),
            old(self).lookup().contains_key(tx.payload.call_info.instance_id) && !old(
                self,
            ).has_runtime(old(self).lookup()[tx.payload.call_info.instance_id]) ==> (r matches Err(
                x,
            ) && x.kind == ErrorKind::Dispatcher(DispatcherError::IncorrectRuntime)),
            !old(self).routes(tx.payload.call_info.instance_id) ==> *final(fork) == *old(fork)
                && final(self).is_modified() == old(self).is_modified(),
            r is Ok ==> old(self).routes(tx.payload.call_info.instance_id),
            r is Err ==> final(self).lookup() == old(self).lookup(),
            exists|acts: Seq<Action>|
                #![trigger acts.len()]
                final(self).is_modified() == (old(self).is_modified() || acts.len() > 0) && (r is Ok
                    ==> forall|k: int|
                    0 <= k < acts.len() ==> (#[trigger] acts[k]).done_in(&final(fork).dispatcher)),
    {
        let mut context = Self::transaction_context(tx_id, tx);
        let called = self.call(
            &mut context,
            &mut fork.services,
            tx.payload.call_info,
            tx.payload.arguments.as_slice(),
        );
        let actions = if called.is_ok() {
            context.take_actions()
        } else {
            Vec::new()
        };
        let ghost acts = actions@;
        let r = self.finish_execution(fork, called, actions);
        assert(self.is_modified() == (old(self).is_modified() || acts.len() > 0));
        assert(r is Ok ==> forall|k: int|
            0 <= k < acts.len() ==> (#[trigger] acts[k]).done_in(&fork.dispatcher));
        r
    }

    /// Runs the pre-commit hook of every runtime, in registration order.
    pub fn before_commit(&self, fork: &mut Fork)
        requires
            self.wf(),
        ensures
            final(fork).dispatcher == old(fork).dispatcher,
    {
        let mut i: usize = 0;
        while i < self.runtimes.len()
            invariant
                self.wf(),
                0 <= i <= self.runtimes@.len(),
                fork.dispatcher == old(fork).dispatcher,
            decreases self.runtimes@.len() - i,
        {
            self.runtimes[i].before_commit(self, &mut fork.services);
            i = i + 1;
        }
    }

    /// Runs the post-commit hook of every runtime, in registration order, then deploys
    /// the artifacts they requested. Returns each request with the outcome of its deployment.
    pub fn after_commit(&mut self, snapshot: &Fork) -> (r: Vec<
        (DeployArtifactRequest, Result<(), ExecutionError>),
    >)
        requires
            old(self).wf(),
        ensures
            final(self).wf(),
            final(self).lookup() == old(self).lookup(),
            final(self).runtime_id_seq() == old(self).runtime_id_seq(),
            final(self).is_modified() == old(self).is_modified(),
            exists|requests: Seq<DeployArtifactRequest>|
                #![trigger requests.len()]
                r@.len() == requests.len() && (forall|k: int|
                    0 <= k < r@.len() ==> (#[trigger] r@[k]).0 == requests[k]) && (forall|k: int|
                    0 <= k < r@.len() ==> (old(self).deploy_error(&requests[k].artifact) matches Some(
                        e,
                    ) ==> ((#[trigger] r@[k]).1 matches Err(x) && x.kind == ErrorKind::Dispatcher(
                        e,
                    )))),
    {
        let mut sender = DispatcherSender::new();
        let mut i: usize = 0;
        while i < self.runtimes.len()
            invariant
                self.wf(),
                0 <= i <= self.runtimes@.len(),
            decreases self.runtimes@.len() - i,
        {
            self.runtimes[i].after_commit(&mut sender, snapshot);
            i = i + 1;
        }
        let requests = sender.take_deploy_requests();
        let ghost asked = requests@;
        let ghost before = *self;
        assert(forall|a: ArtifactId| before.deploy_error(&a) == old(self).deploy_error(&a)) by {
            assert(forall|id: u32| before.has_runtime(id) == old(self).has_runtime(id));
        }
        let r = self.deploy_requested(requests);
        assert(r@.len() == asked.len());
        r
    }

    /// Deploys each requested artifact in order, pairing each request with its outcome.
    pub fn deploy_requested(&mut self, requests: Vec<DeployArtifactRequest>) -> (r: Vec<
        (DeployArtifactRequest, Result<(), ExecutionError>),
    >)
        requires
            old(self).wf(),
        ensures
            final(self).wf(),
            final(self).lookup() == old(self).lookup(),
            final(self).runtime_id_seq() == old(self).runtime_id_seq(),
            final(self).is_modified() == old(self).is_modified(),
            r@.len() == requests@.len(),
            forall|k: int| 0 <= k < r@.len() ==> (#[trigger] r@[k]).0 == requests@[k],
            forall|k: int|
                0 <= k < r@.len() ==> (old(self).deploy_error(&requests@[k].artifact) matches Some(
                    e,
                ) ==> ((#[trigger] r@[k]).1 matches Err(x) && x.kind == ErrorKind::Dispatcher(e))),
    {
        let mut out: Vec<(DeployArtifactRequest, Result<(), ExecutionError>)> = Vec::new();
        let mut rest = requests;
        let ghost all = rest@;
        while rest.len() > 0
            invariant
                self.wf(),
                self.lookup() == old(self).lookup(),
                self.runtime_id_seq() == old(self).runtime_id_seq(),
                self.is_modified() == old(self).is_modified(),
                out@.len() + rest@.len() == all.len(),
                rest@ == all.subrange(out@.len() as int, all.len() as int),
                forall|k: int| 0 <= k < out@.len() ==> (#[trigger] out@[k]).0 == all[k],
                forall|k: int|
                    0 <= k < out@.len() ==> (old(self).deploy_error(&all[k].artifact) matches Some(
                        e,
                    ) ==> ((#[trigger] out@[k]).1 matches Err(x) && x.kind == ErrorKind::Dispatcher(
                        e,
                    ))),
            decreases rest@.len(),
        {
            let request = rest.remove(0);
            let outcome = self.deploy_artifact(&request.artifact, &request.spec);
            out.push((request, outcome));
            assert(rest@ =~= all.subrange(out@.len() as int, all.len() as int));
        }
        out
    }

    /// The aggregated state hashes: `dispatcher_hashes` (the hashes of the dispatcher
    /// schema's indices), then the contribution of each runtime in registration order.
    pub fn state_hash(&self, snapshot: &Fork, dispatcher_hashes: &Vec<Digest>) -> (r: Vec<
        (IndexCoordinates, Digest),
    >)
        requires
            self.wf(),
        ensures
            exists|states: Seq<(u32, StateHashAggregator)>|
                states.len() == self.runtime_id_seq().len() && (forall|k: int|
                    0 <= k < states.len() ==> (#[trigger] states[k]).0 == self.runtime_id_seq()[k])
                    && r@ == aggregate(dispatcher_hashes@, states),
    {
        let mut states: Vec<(u32, StateHashAggregator)> = Vec::new();
        let mut i: usize = 0;
        while i < self.runtimes.len()
            invariant
                self.wf(),
                0 <= i <= self.runtimes@.len(),
                states@.len() == i,
                forall|k: int| 0 <= k < i ==> (#[trigger] states@[k]).0 == self.runtime_ids@[k],
            decreases self.runtimes@.len() - i,
        {
            states.push((self.runtime_ids[i], self.runtimes[i].state_hashes(snapshot)));
            i = i + 1;
        }
        let r = aggregate_state_hashes(dispatcher_hashes, &states);
        assert(states@.len() == self.runtime_id_seq().len());
        r
    }

    /// Whether a call to `instance_id` reaches a runtime.
    pub open spec fn routes(&self, instance_id: u32) -> bool {
        self.lookup().contains_key(instance_id) && self.has_runtime(self.lookup()[instance_id])
    }
}

/// Every entry `(iid, rid)` of `lookup` has a record of instance `iid` whose artifact
/// is hosted by runtime `rid`.
pub open spec fn lookup_consistent(lookup: Map<u32, u32>, instances: Seq<InstanceView>) -> bool {
    forall|iid: u32| #[trigger]
        lookup.contains_key(iid) ==> exists|i: int|
            0 <= i < instances.len() && (#[trigger] instances[i]).0 == iid && instances[i].2.0
                == lookup[iid]
}

/// Every running instance has a persistent record, and that record's artifact is hosted
/// by the runtime the instance runs in.
pub proof fn lemma_running_instance_recorded<R: Runtime>(
    dispatcher: &Dispatcher<R>,
    schema: &DispatcherSchema,
    instance_id: u32,
)
    requires
        dispatcher.consistent(schema),
        dispatcher.lookup().contains_key(instance_id),
    ensures
        schema.has_instance_id(instance_id),
        exists|i: int|
            0 <= i < schema.instances_view().len() && (#[trigger] schema.instances_view()[i]).0
                == instance_id && schema.instances_view()[i].2.0 == dispatcher.lookup()[instance_id],
{
    let i = choose|i: int|
        0 <= i < schema.instances_view().len() && (#[trigger] schema.instances_view()[i]).0
            == instance_id && schema.instances_view()[i].2.0 == dispatcher.lookup()[instance_id];
    assert(schema.instances_view()[i].0 == instance_id);
}

/// A valid instance whose identifier already runs is refused with `ServiceIdExists`,
/// whatever else holds of it; `start_service` then leaves the fork and the lookup table
/// as they were.
pub proof fn lemma_duplicate_id_refused<R: Runtime>(
    dispatcher: &Dispatcher<R>,
    schema: &DispatcherSchema,
    spec: &InstanceSpec,
)
    requires
        spec.is_valid(),
        dispatcher.lookup().contains_key(spec.id),
    ensures
        dispatcher.start_error(schema, spec) == Some(DispatcherError::ServiceIdExists),
{
}

/// Whether an action fails whatever the runtimes answer depends on the dispatcher only
/// through its lookup table and its runtime identifiers.
proof fn lemma_static_error_same<R: Runtime>(
    action: Action,
    a: Dispatcher<R>,
    b: Dispatcher<R>,
    schema: DispatcherSchema,
)
    requires
        a.lookup() == b.lookup(),
        a.runtime_id_seq() == b.runtime_id_seq(),
    ensures
        action.static_error(&a, &schema) == action.static_error(&b, &schema),
{
    assert(forall|id: u32| a.has_runtime(id) == b.has_runtime(id));
}

/// Adding instance records keeps the lookup table consistent.
proof fn lemma_consistent_extend(
    lookup: Map<u32, u32>,
    before: Seq<InstanceView>,
    after: Seq<InstanceView>,
)
    requires
        lookup_consistent(lookup, before),
        before.len() <= after.len(),
        forall|i: int| 0 <= i < before.len() ==> after[i] == before[i],
    ensures
        lookup_consistent(lookup, after),
{
    assert forall|iid: u32| #[trigger] lookup.contains_key(iid) implies exists|i: int|
        0 <= i < after.len() && (#[trigger] after[i]).0 == iid && after[i].2.0 == lookup[iid] by {
        let i = choose|i: int|
            0 <= i < before.len() && (#[trigger] before[i]).0 == iid && before[i].2.0 == lookup[iid];
        assert(after[i] == before[i]);
    }
}

/// Recording a new instance and its runtime keeps the lookup table consistent with the schema.
proof fn lemma_consistent_after_start(
    lookup: Map<u32, u32>,
    before: DispatcherSchema,
    after: DispatcherSchema,
    s: InstanceView,
)
    requires
        lookup_consistent(lookup, before.instances_view()),
        after.instances_view() == before.instances_view().push(s),
    ensures
        lookup_consistent(lookup.insert(s.0, s.2.0), after.instances_view()),
{
    let m = lookup.insert(s.0, s.2.0);
    assert forall|iid: u32| #[trigger] m.contains_key(iid) implies exists|i: int|
        0 <= i < after.instances_view().len() && (#[trigger] after.instances_view()[i]).0 == iid
            && after.instances_view()[i].2.0 == m[iid] by {
        if iid == s.0 {
            assert(after.instances_view()[before.instances_view().len() as int] == s);
        } else {
            let i = choose|i: int|
                0 <= i < before.instances_view().len() && (#[trigger] before.instances_view()[i]).0
                    == iid && before.instances_view()[i].2.0 == lookup[iid];
            assert(after.instances_view()[i] == before.instances_view()[i]);
        }
    }
}

} // verus!
