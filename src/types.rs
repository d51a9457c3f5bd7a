use vstd::prelude::*;
use vstd::utf8::encode_utf8;

verus! {

/// Instance identifiers below this bound are reserved for builtin services,
/// which may only be created in the genesis block.
pub const MAX_BUILTIN_INSTANCE_ID: u32 = 1024;

/// A 32-byte digest.
#[derive(Clone, Copy, Debug, PartialEq, Eq, Hash)]
pub struct Digest {
    pub bytes: [u8; 32],
}

/// A 32-byte public key of a signer.
#[derive(Clone, Copy, Debug, PartialEq, Eq, Hash)]
pub struct PublicKey {
    pub bytes: [u8; 32],
}

impl View for Digest {
    type V = Seq<u8>;

    open spec fn view(&self) -> Seq<u8> {
        self.bytes@
    }
}

impl View for PublicKey {
    type V = Seq<u8>;

    open spec fn view(&self) -> Seq<u8> {
        self.bytes@
    }
}

impl Digest {
    /// The all-zero hash.
    pub fn zero() -> (r: Digest)
        ensures
            r.bytes@ == Seq::new(32, |i: int| 0u8),
    {
        let r = Digest { bytes: [0u8; 32] };
        assert(r.bytes@ =~= Seq::new(32, |i: int| 0u8));
        r
    }

    /// Byte-wise equality of two hashes.
    pub fn same(&self, other: &Digest) -> (r: bool)
        ensures
            r == (self.bytes@ == other.bytes@),
    {
        bytes_equal(&self.bytes, &other.bytes)
    }
}

impl PublicKey {
    /// Byte-wise equality of two keys.
    pub fn same(&self, other: &PublicKey) -> (r: bool)
        ensures
            r == (self.bytes@ == other.bytes@),
    {
        bytes_equal(&self.bytes, &other.bytes)
    }
}

/// Compares two 32-byte arrays.
pub fn bytes_equal(a: &[u8; 32], b: &[u8; 32]) -> (r: bool)
    ensures
        r == (a@ == b@),
{
    let mut i: usize = 0;
    while i < 32
        invariant
            0 <= i <= 32,
            a@.len() == 32,
            b@.len() == 32,
            forall|j: int| 0 <= j < i ==> a@[j] == b@[j],
        decreases 32 - i,
    {
        if a[i] != b[i] {
            return false;
        }
        i = i + 1;
    }
    assert(a@ =~= b@);
    true
}

/// Identifier of a deployable artifact: the runtime that hosts it and its name.
#[derive(Clone, Debug, PartialEq, Eq, Hash)]
pub struct ArtifactId {
    pub runtime_id: u32,
    pub name: String,
}

impl View for ArtifactId {
    type V = (u32, Seq<char>);

    open spec fn view(&self) -> (u32, Seq<char>) {
        (self.runtime_id, self.name@)
    }
}

impl ArtifactId {
    pub fn new(runtime_id: u32, name: String) -> (r: ArtifactId)
        ensures
            r.runtime_id == runtime_id,
            r.name@ == name@,
    {
        ArtifactId { runtime_id, name }
    }

    /// Equality of two artifact identifiers.
    pub fn same(&self, other: &ArtifactId) -> (r: bool)
        ensures
            r == (self@ == other@),
    {
        self.runtime_id == other.runtime_id && self.name == other.name
    }

    /// Checks that the name is well formed.
    pub fn validate(&self) -> (r: Result<(), ExecutionError>)
        ensures
            r is Ok <==> name_is_valid(self.name@),
            r matches Err(e) ==> e.kind == ErrorKind::Dispatcher(DispatcherError::InvalidArtifactId),
    {
        if check_name(&self.name) {
            Ok(())
        } else {
            Err(ExecutionError::dispatcher(DispatcherError::InvalidArtifactId))
        }
    }
}

/// A byte allowed in a name: a lowercase ASCII letter, a dot or a dash.
pub open spec fn name_byte(b: u8) -> bool {
    (97 <= b <= 122) || b == 46 || b == 45
}

/// A byte allowed in a version: an ASCII digit or a dot.
pub open spec fn version_byte(b: u8) -> bool {
    (48 <= b <= 57) || b == 46
}

/// An ASCII digit.
pub open spec fn digit(b: u8) -> bool {
    48 <= b <= 57
}

/// The bytes after position `p` form a version: groups of digits separated by single
/// dots, starting and ending with a digit.
pub open spec fn version_after(b: Seq<u8>, p: int) -> bool {
    &&& p + 1 < b.len()
    &&& digit(b[p + 1])
    &&& digit(b[b.len() - 1])
    &&& forall|i: int| p < i < b.len() ==> version_byte(#[trigger] b[i])
    &&& forall|i: int| p + 1 < i < b.len() && #[trigger] b[i] == 46 ==> b[i - 1] != 46
}

/// The bytes are a non-empty name, optionally followed by `:` and a version.
pub open spec fn bytes_are_valid_name(b: Seq<u8>) -> bool {
    ||| (b.len() > 0 && forall|i: int| 0 <= i < b.len() ==> name_byte(#[trigger] b[i]))
    ||| exists|p: int|
        0 < p < b.len() - 1 && #[trigger] b[p] == 58 && (forall|i: int|
            0 <= i < p ==> name_byte(#[trigger] b[i])) && version_after(b, p)
}

/// A name is well formed: lowercase letters, dots and dashes, with an optional
/// version after a colon made of groups of digits separated by single dots.
pub open spec fn name_is_valid(name: Seq<char>) -> bool {
    bytes_are_valid_name(encode_utf8(name))
}

/// Decides `version_after`.
pub fn check_version(b: &[u8], p: usize) -> (r: bool)
    requires
        p < b@.len(),
    ensures
        r == version_after(b@, p as int),
{
    let n = b.len();
    if p + 1 >= n {
        return false;
    }
    if !(48 <= b[p + 1] && b[p + 1] <= 57) || !(48 <= b[n - 1] && b[n - 1] <= 57) {
        return false;
    }
    let mut k: usize = p + 1;
    while k < n
        invariant
            p < k <= n,
            n == b@.len(),
            forall|j: int| p < j < k ==> version_byte(#[trigger] b@[j]),
            forall|j: int| p + 1 < j < k && #[trigger] b@[j] == 46 ==> b@[j - 1] != 46,
        decreases n - k,
    {
        if !((48 <= b[k] && b[k] <= 57) || b[k] == 46) {
            assert(!version_byte(b@[k as int]));
            return false;
        }
        if k > p + 1 && b[k] == 46 && b[k - 1] == 46 {
            assert(b@[k as int] == 46 && b@[k - 1] == 46);
            return false;
        }
        k = k + 1;
    }
    true
}

/// Decides `name_is_valid` for a string.
pub fn check_name(name: &String) -> (r: bool)
    ensures
        r == name_is_valid(name@),
{
    let b = name.as_str().as_bytes();
    let n = b.len();
    let mut p: usize = 0;
    while p < n && ((97 <= b[p] && b[p] <= 122) || b[p] == 46 || b[p] == 45)
        invariant
            0 <= p <= n,
            n == b@.len(),
            forall|j: int| 0 <= j < p ==> name_byte(#[trigger] b@[j]),
        decreases n - p,
    {
        p = p + 1;
    }
    proof {
        assert(b@ == encode_utf8(name@));
    }
    if p == n {
        if n == 0 {
            assert(!bytes_are_valid_name(b@));
        }
        return n > 0;
    }
    // Any colon that separates a valid name from its version stands at `p`.
    assert forall|q: int|
        0 < q < b@.len() - 1 && #[trigger] b@[q] == 58 && (forall|i: int|
            0 <= i < q ==> name_byte(#[trigger] b@[i])) implies q == p by {
        if q < p {
            assert(name_byte(b@[q]));
        } else if q > p {
            assert(name_byte(b@[p as int]));
        }
    }
    assert(!name_byte(b@[p as int]));
    let r = b[p] == 58 && p > 0 && check_version(b, p);
    proof {
        if r {
            assert(b@[p as int] == 58);
        } else if bytes_are_valid_name(b@) {
            if b@.len() > 0 && forall|i: int| 0 <= i < b@.len() ==> name_byte(#[trigger] b@[i]) {
                assert(name_byte(b@[p as int]));
            } else {
                let q = choose|q: int|
                    0 < q < b@.len() - 1 && #[trigger] b@[q] == 58 && (forall|i: int|
                        0 <= i < q ==> name_byte(#[trigger] b@[i])) && version_after(b@, q);
                assert(q == p);
            }
        }
    }
    r
}

/// Specification of a service instance: its identifier, its name and its artifact.
#[derive(Clone, Debug, PartialEq, Eq, Hash)]
pub struct InstanceSpec {
    pub id: u32,
    pub name: String,
    pub artifact: ArtifactId,
}

impl View for InstanceSpec {
    type V = (u32, Seq<char>, (u32, Seq<char>));

    open spec fn view(&self) -> (u32, Seq<char>, (u32, Seq<char>)) {
        (self.id, self.name@, self.artifact@)
    }
}

impl InstanceSpec {
    /// Checks the instance name and the artifact identifier.
    pub fn validate(&self) -> (r: Result<(), ExecutionError>)
        ensures
            r is Ok <==> self.is_valid(),
            r matches Err(e) ==> e.kind == ErrorKind::Dispatcher(DispatcherError::InvalidInstanceSpec),
    {
        if check_name(&self.name) && check_name(&self.artifact.name) {
            Ok(())
        } else {
            Err(ExecutionError::dispatcher(DispatcherError::InvalidInstanceSpec))
        }
    }

    pub open spec fn is_valid(&self) -> bool {
        name_is_valid(self.name@) && name_is_valid(self.artifact.name@)
    }
}

/// The routing target of a call: an instance and one of its methods.
#[derive(Clone, Copy, Debug, PartialEq, Eq, Hash)]
pub struct CallInfo {
    pub instance_id: u32,
    pub method_id: u32,
}

impl CallInfo {
    pub fn new(instance_id: u32, method_id: u32) -> (r: CallInfo)
        ensures
            r.instance_id == instance_id,
            r.method_id == method_id,
    {
        CallInfo { instance_id, method_id }
    }
}

/// Who initiated a call.
#[derive(Clone, Copy, Debug, PartialEq, Eq)]
pub enum Caller {
    Transaction { author: PublicKey, hash: Digest },
    Service { instance_id: u32 },
    Blockchain,
}

/// A transaction payload: the call target and its serialized arguments.
#[derive(Clone, Debug, PartialEq, Eq)]
pub struct AnyTx {
    pub call_info: CallInfo,
    pub arguments: Vec<u8>,
}

/// Additional information a runtime reports about a deployed artifact.
#[derive(Clone, Debug, PartialEq, Eq, Default)]
pub struct ArtifactInfo {
    pub proto_sources: Vec<(String, String)>,
}

/// Errors raised by the dispatcher itself.
#[derive(Clone, Copy, Debug, PartialEq, Eq, Hash, Structural)]
pub enum DispatcherError {
    IncorrectRuntime,
    IncorrectInstanceId,
    ServiceIdExists,
    ServiceNameExists,
    ArtifactNotDeployed,
    InvalidArtifactId,
    InvalidInstanceSpec,
    /// Every `u32` instance identifier has been handed out.
    NoFreeInstanceId,
}

/// The kind of an execution error.
#[derive(Clone, Copy, Debug, PartialEq, Eq, Hash, Structural)]
pub enum ErrorKind {
    /// Raised by the dispatcher.
    Dispatcher(DispatcherError),
    /// Raised by a runtime, with a code namespaced by the runtime identifier.
    Runtime { runtime_id: u32, code: u8 },
    /// Raised by service code.
    Service { code: u8 },
    /// Service code panicked; the runtime boundary turned the panic into this error.
    Panic,
    /// The runtime state no longer agrees with the persistent state: the node must halt.
    Fatal,
}

/// A structured execution error: its kind and a human-readable description.
#[derive(Clone, Debug, PartialEq, Eq)]
pub struct ExecutionError {
    pub kind: ErrorKind,
    pub description: String,
}

impl ExecutionError {
    pub fn new(kind: ErrorKind, description: String) -> (r: ExecutionError)
        ensures
            r.kind == kind,
            r.description@ == description@,
    {
        ExecutionError { kind, description }
    }

    /// An error of the dispatcher, without description.
    pub fn dispatcher(e: DispatcherError) -> (r: ExecutionError)
        ensures
            r.kind == ErrorKind::Dispatcher(e),
    {
        ExecutionError { kind: ErrorKind::Dispatcher(e), description: String::new() }
    }
}

} // verus!
