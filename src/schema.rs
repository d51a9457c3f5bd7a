use vstd::prelude::*;

use crate::types::{
    ArtifactId, DispatcherError, ErrorKind, ExecutionError, InstanceSpec, MAX_BUILTIN_INSTANCE_ID,
};

verus! {

/// The abstract value of an artifact record: identifier and deployment spec.
pub type ArtifactRecord = ((u32, Seq<char>), Seq<u8>);

/// The abstract value of an instance: identifier, name and artifact identifier.
pub type InstanceView = (u32, Seq<char>, (u32, Seq<char>));

/// Copies an artifact identifier.
pub fn copy_artifact(a: &ArtifactId) -> (r: ArtifactId)
    ensures
        r@ == a@,
{
    ArtifactId { runtime_id: a.runtime_id, name: a.name.clone() }
}

/// Copies an instance specification.
pub fn copy_instance(s: &InstanceSpec) -> (r: InstanceSpec)
    ensures
        r@ == s@,
{
    InstanceSpec { id: s.id, name: s.name.clone(), artifact: copy_artifact(&s.artifact) }
}

/// Copies a byte vector.
pub fn copy_bytes(v: &Vec<u8>) -> (r: Vec<u8>)
    ensures
        r@ == v@,
{
    let mut r: Vec<u8> = Vec::new();
    let mut i: usize = 0;
    while i < v.len()
        invariant
            0 <= i <= v@.len(),
            r@ == v@.subrange(0, i as int),
        decreases v@.len() - i,
    {
        r.push(v[i]);
        i = i + 1;
    }
    assert(r@ =~= v@);
    r
}

/// Whether some record of `s` is keyed by `a`.
pub open spec fn has_key(s: Seq<ArtifactRecord>, a: (u32, Seq<char>)) -> bool {
    exists|i: int| 0 <= i < s.len() && (#[trigger] s[i]).0 == a
}

/// Records `(a, spec)` unless a record for `a` already exists.
pub open spec fn add_record(s: Seq<ArtifactRecord>, a: (u32, Seq<char>), spec: Seq<u8>) -> Seq<
    ArtifactRecord,
> {
    if has_key(s, a) {
        s
    } else {
        s.push((a, spec))
    }
}

/// No two records share a key.
pub open spec fn keys_unique(s: Seq<ArtifactRecord>) -> bool {
    forall|i: int, j: int| 0 <= i < s.len() && 0 <= j < s.len() && i != j ==> s[i].0 != s[j].0
}

/// The persistent state of the dispatcher: registered artifacts, started instances
/// and the allocator of instance identifiers. The tables are held as vectors with unique
/// keys; the Merkle roots of the proof maps they stand for are computed by the storage
/// layer (exonum-merkledb) and handed to `Dispatcher::state_hash`.
#[derive(Clone, Debug)]
pub struct DispatcherSchema {
    /// Registered artifacts with their deployment specs, in registration order.
    pub artifacts: Vec<(ArtifactId, Vec<u8>)>,
    /// Started instances, in start order; names and identifiers are unique.
    pub service_instances: Vec<InstanceSpec>,
    /// The next identifier to hand out to a non-builtin instance.
    pub next_instance_id: u64,
}

impl DispatcherSchema {
    pub open spec fn artifacts_view(&self) -> Seq<ArtifactRecord> {
        self.artifacts@.map_values(|p: (ArtifactId, Vec<u8>)| (p.0@, p.1@))
    }

    pub open spec fn instances_view(&self) -> Seq<InstanceView> {
        self.service_instances@.map_values(|s: InstanceSpec| s@)
    }

    pub open spec fn has_artifact(&self, a: (u32, Seq<char>)) -> bool {
        has_key(self.artifacts_view(), a)
    }

    pub open spec fn has_instance_id(&self, id: u32) -> bool {
        exists|i: int| 0 <= i < self.instances_view().len() && (#[trigger] self.instances_view()[i]).0 == id
    }

    pub open spec fn has_instance_name(&self, name: Seq<char>) -> bool {
        exists|i: int|
            0 <= i < self.instances_view().len() && (#[trigger] self.instances_view()[i]).1 == name
    }

    /// The invariant of the schema.
    pub open spec fn wf(&self) -> bool {
        &&& keys_unique(self.artifacts_view())
        &&& forall|i: int, j: int|
            0 <= i < self.instances_view().len() && 0 <= j < self.instances_view().len() && i != j
                ==> self.instances_view()[i].0 != self.instances_view()[j].0
                && self.instances_view()[i].1 != self.instances_view()[j].1
        &&& forall|i: int|
            0 <= i < self.instances_view().len() ==> self.has_artifact(
                #[trigger] self.instances_view()[i].2,
            )
        &&& forall|i: int|
            0 <= i < self.instances_view().len() ==> (#[trigger] self.instances_view()[i]).0
                < self.next_instance_id
        &&& MAX_BUILTIN_INSTANCE_ID <= self.next_instance_id <= u32::MAX as u64 + 1
    }

    /// An empty schema: no artifacts, no instances, identifiers allocated from 1024 on.
    pub fn new() -> (r: DispatcherSchema)
        ensures
            r.wf(),
            r.artifacts_view() == Seq::<ArtifactRecord>::empty(),
            r.instances_view() == Seq::<InstanceView>::empty(),
            r.next_instance_id == MAX_BUILTIN_INSTANCE_ID,
    {
        let r = DispatcherSchema {
            artifacts: Vec::new(),
            service_instances: Vec::new(),
            next_instance_id: MAX_BUILTIN_INSTANCE_ID as u64,
        };
        assert(r.artifacts_view() =~= Seq::<ArtifactRecord>::empty());
        assert(r.instances_view() =~= Seq::<InstanceView>::empty());
        r
    }

    /// The deployment spec recorded for `artifact`, if it is registered.
    pub fn artifact_spec(&self, artifact: &ArtifactId) -> (r: Option<Vec<u8>>)
        ensures
            r is Some <==> self.has_artifact(artifact@),
            r matches Some(spec) ==> exists|i: int|
                0 <= i < self.artifacts_view().len() && self.artifacts_view()[i] == (
                    artifact@,
                    spec@,
                ),
    {
        match self.artifact_position(artifact) {
            Some(i) => {
                let spec = copy_bytes(&self.artifacts[i].1);
                assert(self.artifacts_view()[i as int] == (artifact@, spec@));
                Some(spec)
            },
            None => None,
        }
    }

    /// Whether `artifact` is registered.
    pub fn contains_artifact(&self, artifact: &ArtifactId) -> (r: bool)
        ensures
            r == self.has_artifact(artifact@),
    {
        self.artifact_position(artifact).is_some()
    }

    fn artifact_position(&self, artifact: &ArtifactId) -> (r: Option<usize>)
        ensures
            r is Some <==> self.has_artifact(artifact@),
            r matches Some(i) ==> i < self.artifacts@.len() && self.artifacts_view()[i as int].0
                == artifact@,
    {
        let mut i: usize = 0;
        while i < self.artifacts.len()
            invariant
                0 <= i <= self.artifacts@.len(),
                forall|j: int| 0 <= j < i ==> self.artifacts_view()[j].0 != artifact@,
            decreases self.artifacts@.len() - i,
        {
            if self.artifacts[i].0.same(artifact) {
                assert(self.artifacts_view()[i as int].0 == artifact@);
                return Some(i);
            }
            i = i + 1;
        }
        None
    }

    /// Registers `artifact` with `spec`. A second registration of the same artifact
    /// leaves the schema as it is.
    pub fn add_artifact(&mut self, artifact: ArtifactId, spec: Vec<u8>)
        requires
            old(self).wf(),
        ensures
            final(self).wf(),
            final(self).artifacts_view() == add_record(
                old(self).artifacts_view(),
                artifact@,
                spec@,
            ),
            final(self).instances_view() == old(self).instances_view(),
            final(self).next_instance_id == old(self).next_instance_id,
    {
        if self.artifact_position(&artifact).is_none() {
            let ghost a = artifact@;
            let ghost sp = spec@;
            let ghost before = self.instances_view();
            self.artifacts.push((artifact, spec));
            assert(self.artifacts_view() =~= old(self).artifacts_view().push((a, sp)));
            assert(self.instances_view() =~= before);
            assert forall|i: int| 0 <= i < self.instances_view().len() implies self.has_artifact(
                #[trigger] self.instances_view()[i].2,
            ) by {
                let k = choose|k: int|
                    0 <= k < old(self).artifacts_view().len()
                        && (#[trigger] old(self).artifacts_view()[k]).0 == self.instances_view()[i].2;
                assert(self.artifacts_view()[k] == old(self).artifacts_view()[k]);
            }
        }
    }

    /// The position of the instance with identifier `id`, if any.
    pub fn instance_by_id(&self, id: u32) -> (r: Option<usize>)
        ensures
            r is Some <==> self.has_instance_id(id),
            r matches Some(i) ==> i < self.service_instances@.len()
                && self.instances_view()[i as int].0 == id,
    {
        let mut i: usize = 0;
        while i < self.service_instances.len()
            invariant
                0 <= i <= self.service_instances@.len(),
                forall|j: int| 0 <= j < i ==> self.instances_view()[j].0 != id,
            decreases self.service_instances@.len() - i,
        {
            if self.service_instances[i].id == id {
                assert(self.instances_view()[i as int].0 == id);
                return Some(i);
            }
            i = i + 1;
        }
        None
    }

    /// The position of the instance named `name`, if any.
    pub fn instance_by_name(&self, name: &String) -> (r: Option<usize>)
        ensures
            r is Some <==> self.has_instance_name(name@),
            r matches Some(i) ==> i < self.service_instances@.len()
                && self.instances_view()[i as int].1 == name@,
    {
        let mut i: usize = 0;
        while i < self.service_instances.len()
            invariant
                0 <= i <= self.service_instances@.len(),
                forall|j: int| 0 <= j < i ==> self.instances_view()[j].1 != name@,
            decreases self.service_instances@.len() - i,
        {
            if self.service_instances[i].name == *name {
                assert(self.instances_view()[i as int].1 == name@);
                return Some(i);
            }
            i = i + 1;
        }
        None
    }

    /// Records a started instance. Fails, leaving the schema as it is, if its artifact
    /// is not registered, or if its identifier or its name is taken.
    pub fn add_service_instance(&mut self, spec: InstanceSpec) -> (r: Result<(), ExecutionError>)
        requires
            old(self).wf(),
        ensures
            final(self).wf(),
            final(self).artifacts_view() == old(self).artifacts_view(),
            r is Ok <==> old(self).can_add_instance(spec@),
            r is Ok ==> final(self).instances_view() == old(self).instances_view().push(spec@),
            r is Ok ==> final(self).next_instance_id == if spec.id as u64 >= old(
                self,
            ).next_instance_id {
                (spec.id + 1) as u64
            } else {
                old(self).next_instance_id
            },
            r is Err ==> *final(self) == *old(self),
            r matches Err(e) ==> e.kind == ErrorKind::Dispatcher(
                old(self).instance_error(spec@),
            ),
    {
        if !self.contains_artifact(&spec.artifact) {
            return Err(ExecutionError::dispatcher(DispatcherError::ArtifactNotDeployed));
        }
        if self.instance_by_id(spec.id).is_some() {
            return Err(ExecutionError::dispatcher(DispatcherError::ServiceIdExists));
        }
        if self.instance_by_name(&spec.name).is_some() {
            return Err(ExecutionError::dispatcher(DispatcherError::ServiceNameExists));
        }
        let id = spec.id;
        let ghost sv = spec@;
        let ghost arts = self.artifacts_view();
        self.service_instances.push(spec);
        if id as u64 >= self.next_instance_id {
            self.next_instance_id = id as u64 + 1;
        }
        assert(self.instances_view() =~= old(self).instances_view().push(sv));
        assert(self.artifacts_view() =~= arts);
        assert forall|i: int| 0 <= i < self.instances_view().len() implies self.has_artifact(
            #[trigger] self.instances_view()[i].2,
        ) by {
            if i < old(self).instances_view().len() {
                assert(old(self).has_artifact(old(self).instances_view()[i].2));
            }
        }
        Ok(())
    }

    /// Whether an instance with value `s` may be recorded.
    pub open spec fn can_add_instance(&self, s: InstanceView) -> bool {
        self.has_artifact(s.2) && !self.has_instance_id(s.0) && !self.has_instance_name(s.1)
    }

    /// The error that recording an instance with value `s` meets, checked in this order.
    pub open spec fn instance_error(&self, s: InstanceView) -> DispatcherError {
        if !self.has_artifact(s.2) {
            DispatcherError::ArtifactNotDeployed
        } else if self.has_instance_id(s.0) {
            DispatcherError::ServiceIdExists
        } else {
            DispatcherError::ServiceNameExists
        }
    }

    /// Hands out the next identifier for a non-builtin instance and advances the counter.
    /// Returns `None`, leaving the schema as it is, once every `u32` identifier is taken.
    pub fn assign_instance_id(&mut self) -> (r: Option<u32>)
        requires
            old(self).wf(),
        ensures
            final(self).wf(),
            final(self).artifacts_view() == old(self).artifacts_view(),
            final(self).instances_view() == old(self).instances_view(),
            r is Some <==> old(self).next_instance_id <= u32::MAX as u64,
            r matches Some(id) ==> id as u64 == old(self).next_instance_id
                && final(self).next_instance_id == old(self).next_instance_id + 1
                && !old(self).has_instance_id(id),
            r is None ==> *final(self) == *old(self),
    {
        if self.next_instance_id > u32::MAX as u64 {
            return None;
        }
        let id = self.next_instance_id as u32;
        self.next_instance_id = self.next_instance_id + 1;
        assert(self.instances_view() =~= old(self).instances_view());
        assert(self.artifacts_view() =~= old(self).artifacts_view());
        assert(!old(self).has_instance_id(id)) by {
            if old(self).has_instance_id(id) {
                let k = choose|k: int|
                    0 <= k < old(self).instances_view().len() && (#[trigger] old(
                        self,
                    ).instances_view()[k]).0 == id;
            }
        }
        Some(id)
    }
}

/// Registering the same artifact twice leaves a single record of it: the second
/// registration changes nothing, and exactly one record is keyed by the artifact.
pub proof fn lemma_register_artifact_idempotent(
    s: Seq<ArtifactRecord>,
    a: (u32, Seq<char>),
    spec: Seq<u8>,
)
    requires
        keys_unique(s),
    ensures
        add_record(add_record(s, a, spec), a, spec) == add_record(s, a, spec),
        keys_unique(add_record(s, a, spec)),
        exists|i: int|
            0 <= i < add_record(s, a, spec).len() && (#[trigger] add_record(s, a, spec)[i]).0 == a
                && forall|j: int|
                0 <= j < add_record(s, a, spec).len() && (#[trigger] add_record(s, a, spec)[j]).0
                    == a ==> j == i,
{
    let t = add_record(s, a, spec);
    if has_key(s, a) {
        let i = choose|i: int| 0 <= i < s.len() && (#[trigger] s[i]).0 == a;
        assert(t[i].0 == a);
    } else {
        assert(t[s.len() as int].0 == a);
        assert(has_key(t, a));
    }
}

} // verus!
