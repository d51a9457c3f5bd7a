use vstd::prelude::*;

use crate::types::{Digest, PublicKey};

verus! {

/// The part of a chain configuration that the reconfiguration rules read.
#[derive(Clone, Debug)]
pub struct StoredConfiguration {
    /// Hash of the configuration this one follows.
    pub previous_cfg_hash: Digest,
    /// Height from which this configuration is in force.
    pub actual_from: u64,
    /// Public keys of the validators, in order.
    pub validators: Vec<PublicKey>,
}

impl StoredConfiguration {
    pub open spec fn validator_keys(&self) -> Seq<Seq<u8>> {
        self.validators@.map_values(|k: PublicKey| k@)
    }

    /// The position of `key` among the validators, if it is one.
    pub fn validator_index(&self, key: &PublicKey) -> (r: Option<usize>)
        ensures
            r is Some <==> self.validator_keys().contains(key@),
            r matches Some(i) ==> i < self.validators@.len() && self.validator_keys()[i as int]
                == key@ && forall|j: int| 0 <= j < i ==> self.validator_keys()[j] != key@,
    {
        let mut i: usize = 0;
        while i < self.validators.len()
            invariant
                0 <= i <= self.validators@.len(),
                forall|j: int| 0 <= j < i ==> self.validator_keys()[j] != key@,
            decreases self.validators@.len() - i,
        {
            if self.validators[i].same(key) {
                assert(self.validator_keys()[i as int] == key@);
                return Some(i);
            }
            i = i + 1;
        }
        None
    }
}

/// Copies a configuration.
pub fn copy_configuration(c: &StoredConfiguration) -> (r: StoredConfiguration)
    ensures
        r.previous_cfg_hash == c.previous_cfg_hash,
        r.actual_from == c.actual_from,
        r.validators@ == c.validators@,
{
    let mut validators: Vec<PublicKey> = Vec::new();
    let mut i: usize = 0;
    while i < c.validators.len()
        invariant
            0 <= i <= c.validators@.len(),
            validators@ == c.validators@.subrange(0, i as int),
        decreases c.validators@.len() - i,
    {
        validators.push(c.validators[i]);
        i = i + 1;
    }
    assert(validators@ =~= c.validators@);
    StoredConfiguration {
        previous_cfg_hash: c.previous_cfg_hash,
        actual_from: c.actual_from,
        validators,
    }
}

/// What the chain itself records about its configurations and height.
#[derive(Clone, Debug)]
pub struct CoreSchema {
    /// The configuration in force.
    pub actual_config: StoredConfiguration,
    /// The hash of the configuration in force.
    pub actual_config_hash: Digest,
    /// A configuration scheduled to come into force, with its hash.
    pub following_config: Option<(Digest, StoredConfiguration)>,
    /// The current height.
    pub height: u64,
}

impl CoreSchema {
    pub fn new(actual_config: StoredConfiguration, actual_config_hash: Digest) -> (r: CoreSchema)
        ensures
            r.actual_config == actual_config,
            r.actual_config_hash == actual_config_hash,
            r.following_config is None,
            r.height == 0,
    {
        CoreSchema { actual_config, actual_config_hash, following_config: None, height: 0 }
    }

    /// Schedules `cfg` as the following configuration.
    pub fn commit_configuration(&mut self, cfg: StoredConfiguration, cfg_hash: Digest)
        ensures
            final(self).following_config == Some((cfg_hash, cfg)),
            final(self).actual_config == old(self).actual_config,
            final(self).actual_config_hash == old(self).actual_config_hash,
            final(self).height == old(self).height,
    {
        self.following_config = Some((cfg_hash, cfg));
    }
}

/// Identifier of the reconfiguration service.
pub const CONFIG_SERVICE: u16 = 1;

/// Message type of `TxConfigPropose`.
pub const CONFIG_PROPOSE_MESSAGE_ID: u16 = 0;

/// Message type of `TxConfigVote`.
pub const CONFIG_VOTE_MESSAGE_ID: u16 = 1;

/// The kinds of transaction of the reconfiguration service.
#[derive(Clone, Copy, Debug, PartialEq, Eq, Structural)]
pub enum ConfigTxKind {
    Propose,
    Vote,
}

/// The reconfiguration service: validators propose a new chain configuration and vote
/// for it; a Byzantine majority of votes schedules it.
#[derive(Clone, Copy, Debug, Default)]
pub struct ConfigurationService {}

impl ConfigurationService {
    pub fn new() -> (r: ConfigurationService) {
        ConfigurationService {  }
    }

    pub fn service_name(&self) -> (r: String)
        ensures
            r@ == "configuration"@,
    {
        String::from_str("configuration")
    }

    pub fn service_id(&self) -> (r: u16)
        ensures
            r == CONFIG_SERVICE,
    {
        CONFIG_SERVICE
    }

    /// The kind of transaction that a raw message of type `message_type` carries;
    /// `None` for a type the service does not know.
    pub fn tx_kind(&self, message_type: u16) -> (r: Option<ConfigTxKind>)
        ensures
            message_type == CONFIG_PROPOSE_MESSAGE_ID ==> r == Some(ConfigTxKind::Propose),
            message_type == CONFIG_VOTE_MESSAGE_ID ==> r == Some(ConfigTxKind::Vote),
            message_type != CONFIG_PROPOSE_MESSAGE_ID && message_type != CONFIG_VOTE_MESSAGE_ID
                ==> r is None,
    {
        if message_type == CONFIG_PROPOSE_MESSAGE_ID {
            Some(ConfigTxKind::Propose)
        } else if message_type == CONFIG_VOTE_MESSAGE_ID {
            Some(ConfigTxKind::Vote)
        } else {
            None
        }
    }
}

/// A proposal of a new configuration, signed by a validator.
#[derive(Clone, Debug)]
pub struct TxConfigPropose {
    pub from: PublicKey,
    /// The proposed configuration, as text.
    pub cfg: String,
}

/// A vote of a validator for the configuration with hash `cfg_hash`.
#[derive(Clone, Copy, Debug)]
pub struct TxConfigVote {
    pub from: PublicKey,
    pub cfg_hash: Digest,
}

/// A slot of the votes list: empty until its validator votes.
#[derive(Clone, Copy, Debug)]
pub enum VoteSlot {
    Empty,
    Cast(TxConfigVote),
}

/// A stored proposal: the transaction, its parsed configuration, the root hash of its
/// votes list and the number of vote slots.
#[derive(Clone, Debug)]
pub struct StorageValueConfigProposeData {
    pub tx_propose: TxConfigPropose,
    pub cfg: StoredConfiguration,
    pub votes_history_hash: Digest,
    pub num_votes: u64,
}

impl StorageValueConfigProposeData {
    /// Replaces the root hash of the votes list.
    pub fn set_history_hash(&mut self, hash: &Digest)
        ensures
            final(self).votes_history_hash == *hash,
            final(self).tx_propose == old(self).tx_propose,
            final(self).cfg == old(self).cfg,
            final(self).num_votes == old(self).num_votes,
    {
        self.votes_history_hash = *hash;
    }
}

/// Number of votes that commits a configuration among `n` validators: ⌈2n/3⌉ + 1.
pub open spec fn byzantine_majority(n: nat) -> nat {
    (2 * n + 2) / 3 + 1
}

/// Computes `byzantine_majority`.
pub fn byzantine_majority_count(n: usize) -> (r: u64)
    requires
        n <= u32::MAX,
    ensures
        r == byzantine_majority(n as nat),
{
    ((2 * (n as u64) + 2) / 3 + 1) as u64
}

/// The number of slots that hold a vote.
pub open spec fn cast_count(s: Seq<VoteSlot>) -> nat
    decreases s.len(),
{
    if s.len() == 0 {
        0
    } else {
        cast_count(s.drop_last()) + if s.last() is Cast {
            1nat
        } else {
            0nat
        }
    }
}

/// The reconfiguration service's tables, held as vectors with unique keys. Their Merkle
/// roots (a proof map of proposals, proof lists of hashes and of votes) are computed by
/// the storage layer (exonum-merkledb) and handed in, as in `TxConfigVote::execute`.
#[derive(Clone, Debug)]
pub struct ConfigurationSchema {
    /// Proposals keyed by configuration hash, in the order they were accepted.
    proposes: Vec<(Digest, StorageValueConfigProposeData)>,
    /// Configuration hashes of the proposals, in the order they were accepted.
    ordinals: Vec<Digest>,
    /// The votes list of each proposal, at the same position as the proposal.
    votes: Vec<Vec<VoteSlot>>,
}

impl ConfigurationSchema {
    pub closed spec fn propose_seq(&self) -> Seq<(Digest, StorageValueConfigProposeData)> {
        self.proposes@
    }

    pub closed spec fn ordinal_seq(&self) -> Seq<Digest> {
        self.ordinals@
    }

    /// The votes list of the proposal at position `i`.
    pub closed spec fn votes_at(&self, i: int) -> Seq<VoteSlot> {
        self.votes@[i]@
    }

    /// The position of the proposal with hash `h`.
    pub open spec fn index_of(&self, h: Seq<u8>) -> int {
        choose|i: int| 0 <= i < self.propose_seq().len() && (#[trigger] self.propose_seq()[i]).0@ == h
    }

    pub open spec fn has_propose(&self, h: Seq<u8>) -> bool {
        exists|i: int| 0 <= i < self.propose_seq().len() && (#[trigger] self.propose_seq()[i]).0@ == h
    }

    pub closed spec fn wf(&self) -> bool {
        &&& self.proposes@.len() == self.ordinals@.len()
        &&& self.proposes@.len() == self.votes@.len()
        &&& forall|i: int|
            0 <= i < self.proposes@.len() ==> (#[trigger] self.ordinals@[i]) == self.proposes@[i].0
        &&& forall|i: int|
            0 <= i < self.proposes@.len() ==> (#[trigger] self.votes@[i])@.len()
                == self.proposes@[i].1.num_votes
        &&& forall|i: int, j: int|
            0 <= i < self.proposes@.len() && 0 <= j < self.proposes@.len() && i != j
                ==> self.proposes@[i].0@ != self.proposes@[j].0@
    }

    /// Empty tables.
    pub fn new() -> (r: ConfigurationSchema)
        ensures
            r.wf(),
            r.propose_seq().len() == 0,
    {
        ConfigurationSchema { proposes: Vec::new(), ordinals: Vec::new(), votes: Vec::new() }
    }

    /// The stored proposals with their configuration hashes, in the order they were accepted.
    pub fn propose_data_by_config_hash(&self) -> (r: &Vec<(Digest, StorageValueConfigProposeData)>)
        ensures
            r@ == self.propose_seq(),
    {
        &self.proposes
    }

    /// The configuration hashes of the proposals, in the order they were accepted.
    pub fn config_hash_by_ordinal(&self) -> (r: &Vec<Digest>)
        ensures
            r@ == self.ordinal_seq(),
    {
        &self.ordinals
    }

    fn position(&self, cfg_hash: &Digest) -> (r: Option<usize>)
        requires
            self.wf(),
        ensures
            r is Some <==> self.has_propose(cfg_hash@),
            r matches Some(i) ==> i < self.propose_seq().len() && i == self.index_of(cfg_hash@),
    {
        let mut i: usize = 0;
        while i < self.proposes.len()
            invariant
                0 <= i <= self.proposes@.len(),
                self.wf(),
                forall|j: int| 0 <= j < i ==> self.proposes@[j].0@ != cfg_hash@,
            decreases self.proposes@.len() - i,
        {
            if self.proposes[i].0.same(cfg_hash) {
                assert(self.propose_seq()[i as int].0@ == cfg_hash@);
                let ghost c = self.index_of(cfg_hash@);
                assert(self.proposes@[c].0@ == cfg_hash@);
                return Some(i);
            }
            i = i + 1;
        }
        None
    }

    /// The votes list of the proposal with hash `config_hash`; empty if there is none.
    pub fn votes_by_config_hash(&self, config_hash: &Digest) -> (r: Vec<VoteSlot>)
        requires
            self.wf(),
        ensures
            self.has_propose(config_hash@) ==> r@ == self.votes_at(self.index_of(config_hash@)),
            !self.has_propose(config_hash@) ==> r@.len() == 0,
    {
        match self.position(config_hash) {
            Some(i) => {
                let slots = &self.votes[i];
                let mut r: Vec<VoteSlot> = Vec::new();
                let mut k: usize = 0;
                while k < slots.len()
                    invariant
                        0 <= k <= slots@.len(),
                        r@ == slots@.subrange(0, k as int),
                    decreases slots@.len() - k,
                {
                    r.push(slots[k]);
                    k = k + 1;
                }
                assert(r@ =~= slots@);
                r
            },
            None => Vec::new(),
        }
    }

    /// Stores a new proposal with `num_validators` empty vote slots. A proposal with a
    /// hash already stored is discarded and the tables are left as they are.
    pub fn put_propose(
        &mut self,
        tx_propose: TxConfigPropose,
        cfg: StoredConfiguration,
        cfg_hash: Digest,
        num_validators: u64,
        empty_votes_hash: Digest,
    ) -> (r: bool)
        requires
            old(self).wf(),
            num_validators <= usize::MAX,
        ensures
            final(self).wf(),
            r == !old(self).has_propose(cfg_hash@),
            !r ==> *final(self) == *old(self),
            r ==> final(self).propose_seq() == old(self).propose_seq().push(
                (
                    cfg_hash,
                    StorageValueConfigProposeData {
                        tx_propose,
                        cfg,
                        votes_history_hash: empty_votes_hash,
                        num_votes: num_validators,
                    },
                ),
            ),
            r ==> final(self).ordinal_seq() == old(self).ordinal_seq().push(cfg_hash),
            r ==> final(self).votes_at(old(self).propose_seq().len() as int) == Seq::new(
                num_validators as nat,
                |i: int| VoteSlot::Empty,
            ),
            forall|i: int|
                0 <= i < old(self).propose_seq().len() ==> final(self).votes_at(i) == old(
                    self,
                ).votes_at(i),
            final(self).has_propose(cfg_hash@),
    {
        if let Some(i) = self.position(&cfg_hash) {
            return false;
        }
        let mut slots: Vec<VoteSlot> = Vec::new();
        let mut k: u64 = 0;
        while k < num_validators
            invariant
                0 <= k <= num_validators,
                slots@ == Seq::new(k as nat, |i: int| VoteSlot::Empty),
            decreases num_validators - k,
        {
            slots.push(VoteSlot::Empty);
            k = k + 1;
            assert(slots@ =~= Seq::new(k as nat, |i: int| VoteSlot::Empty));
        }
        let data = StorageValueConfigProposeData {
            tx_propose,
            cfg,
            votes_history_hash: empty_votes_hash,
            num_votes: num_validators,
        };
        let ghost n = self.proposes@.len();
        self.proposes.push((cfg_hash, data));
        self.ordinals.push(cfg_hash);
        self.votes.push(slots);
        assert(self.propose_seq()[n as int].0@ == cfg_hash@);
        assert forall|i: int, j: int|
            0 <= i < self.proposes@.len() && 0 <= j < self.proposes@.len() && i != j implies self.proposes@[i].0@
            != self.proposes@[j].0@ by {
            if i == n {
                assert(self.proposes@[j] == old(self).proposes@[j]);
            } else if j == n {
                assert(self.proposes@[i] == old(self).proposes@[i]);
            }
        }
        true
    }

    /// The proposal transaction stored under `cfg_hash`.
    pub fn get_propose(&self, cfg_hash: &Digest) -> (r: Option<TxConfigPropose>)
        requires
            self.wf(),
        ensures
            r is Some <==> self.has_propose(cfg_hash@),
            r matches Some(p) ==> p == self.propose_seq()[self.index_of(cfg_hash@)].1.tx_propose,
    {
        match self.position(cfg_hash) {
            Some(i) => {
                let p = &self.proposes[i].1.tx_propose;
                Some(TxConfigPropose { from: p.from, cfg: p.cfg.clone() })
            },
            None => None,
        }
    }

    /// The stored proposal data under `cfg_hash`.
    pub fn get_propose_data(&self, cfg_hash: &Digest) -> (r: Option<
        &StorageValueConfigProposeData,
    >)
        requires
            self.wf(),
        ensures
            r is Some <==> self.has_propose(cfg_hash@),
            r matches Some(p) ==> *p == self.propose_seq()[self.index_of(cfg_hash@)].1,
    {
        match self.position(cfg_hash) {
            Some(i) => Some(&self.proposes[i].1),
            None => None,
        }
    }

    /// Records `tx_vote` in slot `validator_index` of the votes list of its proposal, unless
    /// that slot already holds a vote: the first vote wins. Then stores `votes_root`, the
    /// root hash of the votes list as it now stands, with the proposal.
    pub fn put_vote(&mut self, tx_vote: TxConfigVote, validator_index: usize, votes_root: Digest) -> (r:
        bool)
        requires
            old(self).wf(),
            old(self).has_propose(tx_vote.cfg_hash@),
            validator_index < old(self).propose_seq()[old(self).index_of(
                tx_vote.cfg_hash@,
            )].1.num_votes,
        ensures
            final(self).wf(),
            final(self).ordinal_seq() == old(self).ordinal_seq(),
            ({
                let i = old(self).index_of(tx_vote.cfg_hash@);
                let before = old(self).votes_at(i);
                &&& final(self).propose_seq() == with_history_hash(old(self).propose_seq(), i, votes_root)
                &&& r == (before[validator_index as int] is Empty)
                &&& final(self).votes_at(i) == if r {
                    before.update(validator_index as int, VoteSlot::Cast(tx_vote))
                } else {
                    before
                }
                &&& forall|j: int|
                    0 <= j < old(self).propose_seq().len() && j != i ==> final(self).votes_at(j)
                        == old(self).votes_at(j)
            }),
    {
        let i = self.position(&tx_vote.cfg_hash).unwrap();
        let r = if let VoteSlot::Cast(_) = self.votes[i][validator_index] {
            false
        } else {
            let mut slots: Vec<VoteSlot> = Vec::new();
            std::mem::swap(&mut slots, &mut self.votes[i]);
            slots.set(validator_index, VoteSlot::Cast(tx_vote));
            self.votes.set(i, slots);
            true
        };
        let ghost mid = *self;
        assert(mid.propose_seq() == old(self).propose_seq());
        assert(mid.index_of(tx_vote.cfg_hash@) == i);
        self.set_votes_history_hash(&tx_vote.cfg_hash, &votes_root);
        r
    }

    /// The votes of the proposal with hash `cfg_hash`, `None` for a validator that has not
    /// voted; empty if there is no such proposal.
    pub fn get_votes(&self, cfg_hash: &Digest) -> (r: Vec<Option<TxConfigVote>>)
        requires
            self.wf(),
        ensures
            !self.has_propose(cfg_hash@) ==> r@.len() == 0,
            self.has_propose(cfg_hash@) ==> {
                let s = self.votes_at(self.index_of(cfg_hash@));
                &&& r@.len() == s.len()
                &&& forall|k: int|
                    0 <= k < s.len() ==> (#[trigger] r@[k]) == match s[k] {
                        VoteSlot::Empty => None,
                        VoteSlot::Cast(v) => Some(v),
                    }
            },
    {
        let slots = self.votes_by_config_hash(cfg_hash);
        let mut r: Vec<Option<TxConfigVote>> = Vec::new();
        let mut k: usize = 0;
        while k < slots.len()
            invariant
                0 <= k <= slots@.len(),
                r@.len() == k,
                forall|j: int|
                    0 <= j < k ==> (#[trigger] r@[j]) == match slots@[j] {
                        VoteSlot::Empty => None,
                        VoteSlot::Cast(v) => Some(v),
                    },
            decreases slots@.len() - k,
        {
            match slots[k] {
                VoteSlot::Empty => r.push(None),
                VoteSlot::Cast(v) => r.push(Some(v)),
            }
            k = k + 1;
        }
        r
    }

    /// Counts the slots of `cfg_hash`'s votes list that hold a vote.
    pub fn count_votes(&self, cfg_hash: &Digest) -> (r: u64)
        requires
            self.wf(),
            self.has_propose(cfg_hash@),
        ensures
            r == cast_count(self.votes_at(self.index_of(cfg_hash@))),
    {
        let slots = self.votes_by_config_hash(cfg_hash);
        let mut n: u64 = 0;
        let mut k: usize = 0;
        while k < slots.len()
            invariant
                0 <= k <= slots@.len(),
                n == cast_count(slots@.subrange(0, k as int)),
                n <= k,
            decreases slots@.len() - k,
        {
            assert(slots@.subrange(0, k as int + 1).drop_last() =~= slots@.subrange(0, k as int));
            if let VoteSlot::Cast(_) = slots[k] {
                n = n + 1;
            }
            k = k + 1;
        }
        assert(slots@.subrange(0, k as int) =~= slots@);
        n
    }

    /// Replaces the votes root hash stored with the proposal `cfg_hash`.
    pub fn set_votes_history_hash(&mut self, cfg_hash: &Digest, hash: &Digest) -> (r: bool)
        requires
            old(self).wf(),
        ensures
            final(self).wf(),
            r == old(self).has_propose(cfg_hash@),
            r ==> final(self).propose_seq() == with_history_hash(
                old(self).propose_seq(),
                old(self).index_of(cfg_hash@),
                *hash,
            ),
            !r ==> *final(self) == *old(self),
            final(self).ordinal_seq() == old(self).ordinal_seq(),
            forall|j: int| 0 <= j < old(self).propose_seq().len() ==> final(self).votes_at(j) == old(self).votes_at(j),
    {
        match self.position(cfg_hash) {
            Some(i) => {
                self.proposes[i].1.votes_history_hash = *hash;
                assert(self.proposes@ =~= with_history_hash(old(self).proposes@, i as int, *hash));
                true
            },
            None => false,
        }
    }
}

/// `s` with the votes root hash of its entry `i` replaced by `h`.
pub open spec fn with_history_hash(
    s: Seq<(Digest, StorageValueConfigProposeData)>,
    i: int,
    h: Digest,
) -> Seq<(Digest, StorageValueConfigProposeData)> {
    s.update(i, (s[i].0, StorageValueConfigProposeData { votes_history_hash: h, ..s[i].1 }))
}

/// What became of a proposal transaction.
#[derive(Clone, Copy, Debug, PartialEq, Eq, Structural)]
pub enum ProposeOutcome {
    /// Stored as a new proposal.
    Accepted,
    /// A following configuration is already scheduled.
    FollowingConfigScheduled,
    /// The author is not a validator of the configuration in force.
    UnknownValidator,
    /// The proposed configuration cannot be parsed.
    InvalidConfig,
    /// The proposed configuration does not follow the configuration in force.
    WrongPreviousConfig,
    /// The proposed configuration would come into force at or below the current height.
    ActualFromNotInFuture,
    /// A proposal of the same configuration is already stored.
    AlreadyProposed,
}

/// What became of a vote transaction.
#[derive(Clone, Copy, Debug, PartialEq, Eq, Structural)]
pub enum VoteOutcome {
    /// Counted in slot `validator_index`; `committed` when it completed a majority and the
    /// configuration was scheduled.
    Accepted { validator_index: u64, committed: bool },
    /// No proposal with this hash is stored.
    UnknownPropose,
    /// A following configuration is already scheduled.
    FollowingConfigScheduled,
    /// The author is not a validator of the configuration in force.
    UnknownValidator,
    /// The proposal does not follow the configuration in force.
    WrongPreviousConfig,
    /// The proposal would come into force at or below the current height.
    ActualFromNotInFuture,
    /// The proposal has no vote slot for the author.
    NoVoteSlot,
}

impl TxConfigPropose {
    /// The outcome a proposal meets, given the parsed configuration and its hash
    /// (`None` when the text does not parse).
    pub open spec fn outcome(
        &self,
        core: &CoreSchema,
        schema: &ConfigurationSchema,
        candidate: Option<(StoredConfiguration, Digest)>,
    ) -> ProposeOutcome {
        if core.following_config is Some {
            ProposeOutcome::FollowingConfigScheduled
        } else if !core.actual_config.validator_keys().contains(self.from@) {
            ProposeOutcome::UnknownValidator
        } else if candidate is None {
            ProposeOutcome::InvalidConfig
        } else if candidate.unwrap().0.previous_cfg_hash@ != core.actual_config_hash@ {
            ProposeOutcome::WrongPreviousConfig
        } else if candidate.unwrap().0.actual_from <= core.height {
            ProposeOutcome::ActualFromNotInFuture
        } else if schema.has_propose(candidate.unwrap().1@) {
            ProposeOutcome::AlreadyProposed
        } else {
            ProposeOutcome::Accepted
        }
    }

    /// Executes a proposal. `candidate` is the parsed configuration with its hash, or
    /// `None` when the text does not parse; `empty_votes_hash` is the root hash of a votes
    /// list of as many empty slots as the configuration in force has validators.
    pub fn execute(
        &self,
        core: &CoreSchema,
        schema: &mut ConfigurationSchema,
        candidate: Option<(StoredConfiguration, Digest)>,
        empty_votes_hash: Digest,
    ) -> (r: ProposeOutcome)
        requires
            old(schema).wf(),
        ensures
            final(schema).wf(),
            r == self.outcome(core, old(schema), candidate),
            r != ProposeOutcome::Accepted ==> *final(schema) == *old(schema),
            r == ProposeOutcome::Accepted ==> {
                let (cfg, h) = candidate.unwrap();
                &&& final(schema).propose_seq() == old(schema).propose_seq().push(
                    (
                        h,
                        StorageValueConfigProposeData {
                            tx_propose: *self,
                            cfg,
                            votes_history_hash: empty_votes_hash,
                            num_votes: core.actual_config.validators@.len() as u64,
                        },
                    ),
                )
                &&& final(schema).ordinal_seq() == old(schema).ordinal_seq().push(h)
                &&& final(schema).votes_at(old(schema).propose_seq().len() as int) == Seq::new(
                    core.actual_config.validators@.len(),
                    |i: int| VoteSlot::Empty,
                )
            },
    {
        if core.following_config.is_some() {
            return ProposeOutcome::FollowingConfigScheduled;
        }
        if core.actual_config.validator_index(&self.from).is_none() {
            return ProposeOutcome::UnknownValidator;
        }
        let (cfg, cfg_hash) = match candidate {
            Some(c) => c,
            None => {
                return ProposeOutcome::InvalidConfig;
            },
        };
        if !cfg.previous_cfg_hash.same(&core.actual_config_hash) {
            return ProposeOutcome::WrongPreviousConfig;
        }
        if cfg.actual_from <= core.height {
            return ProposeOutcome::ActualFromNotInFuture;
        }
        let num_validators = core.actual_config.validators.len() as u64;
        let tx = TxConfigPropose { from: self.from, cfg: self.cfg.clone() };
        if schema.put_propose(tx, cfg, cfg_hash, num_validators, empty_votes_hash) {
            ProposeOutcome::Accepted
        } else {
            ProposeOutcome::AlreadyProposed
        }
    }
}

impl TxConfigVote {
    /// The outcome a vote meets, short of counting it.
    pub open spec fn check(&self, core: &CoreSchema, schema: &ConfigurationSchema) -> Option<
        VoteOutcome,
    > {
        let data = schema.propose_seq()[schema.index_of(self.cfg_hash@)].1;
        if !schema.has_propose(self.cfg_hash@) {
            Some(VoteOutcome::UnknownPropose)
        } else if core.following_config is Some {
            Some(VoteOutcome::FollowingConfigScheduled)
        } else if !core.actual_config.validator_keys().contains(self.from@) {
            Some(VoteOutcome::UnknownValidator)
        } else if data.cfg.previous_cfg_hash@ != core.actual_config_hash@ {
            Some(VoteOutcome::WrongPreviousConfig)
        } else if data.cfg.actual_from <= core.height {
            Some(VoteOutcome::ActualFromNotInFuture)
        } else if first_position(core.actual_config.validator_keys(), self.from@) >= data.num_votes {
            Some(VoteOutcome::NoVoteSlot)
        } else {
            None
        }
    }

    /// Runs the checks of a vote; on success, the author's slot.
    fn checked_slot(&self, core: &CoreSchema, schema: &ConfigurationSchema) -> (r: Result<
        usize,
        VoteOutcome,
    >)
        requires
            schema.wf(),
        ensures
            self.check(core, schema) matches Some(o) ==> r == Err::<usize, VoteOutcome>(o),
            self.check(core, schema) is None ==> r == Ok::<usize, VoteOutcome>(
                first_position(core.actual_config.validator_keys(), self.from@) as usize,
            ),
            r matches Ok(idx) ==> idx == first_position(core.actual_config.validator_keys(), self.from@)
                && idx < schema.propose_seq()[schema.index_of(self.cfg_hash@)].1.num_votes
                && schema.has_propose(self.cfg_hash@),
    {
        let data = match schema.get_propose_data(&self.cfg_hash) {
            Some(d) => d,
            None => {
                return Err(VoteOutcome::UnknownPropose);
            },
        };
        if core.following_config.is_some() {
            return Err(VoteOutcome::FollowingConfigScheduled);
        }
        let validator_index = match core.actual_config.validator_index(&self.from) {
            Some(i) => i,
            None => {
                return Err(VoteOutcome::UnknownValidator);
            },
        };
        if !data.cfg.previous_cfg_hash.same(&core.actual_config_hash) {
            return Err(VoteOutcome::WrongPreviousConfig);
        }
        if data.cfg.actual_from <= core.height {
            return Err(VoteOutcome::ActualFromNotInFuture);
        }
        proof {
            lemma_first_index(core.actual_config.validator_keys(), self.from@, validator_index as int);
        }
        if validator_index as u64 >= data.num_votes {
            return Err(VoteOutcome::NoVoteSlot);
        }
        Ok(validator_index)
    }

    /// The votes list of the referenced proposal as it will stand once this vote is
    /// executed; `None` when the vote would be discarded.
    pub fn votes_after(&self, core: &CoreSchema, schema: &ConfigurationSchema) -> (r: Option<
        Vec<VoteSlot>,
    >)
        requires
            schema.wf(),
        ensures
            self.check(core, schema) is Some ==> r is None,
            self.check(core, schema) is None ==> (r matches Some(v) && {
                let i = schema.index_of(self.cfg_hash@);
                let idx = first_position(core.actual_config.validator_keys(), self.from@);
                let before = schema.votes_at(i);
                v@ == if before[idx] is Empty {
                    before.update(idx, VoteSlot::Cast(*self))
                } else {
                    before
                }
            }),
    {
        let idx = match self.checked_slot(core, schema) {
            Ok(idx) => idx,
            Err(_) => {
                return None;
            },
        };
        let mut slots = schema.votes_by_config_hash(&self.cfg_hash);
        if let VoteSlot::Empty = slots[idx] {
            slots.set(idx, VoteSlot::Cast(*self));
        }
        Some(slots)
    }

    /// Executes a vote: records it in the author's slot unless the slot is taken, stores
    /// `votes_root` (the root hash of the list that `votes_after` returns) with the
    /// proposal, and schedules the proposed configuration once a Byzantine majority of the
    /// validators in force has voted for it.
    pub fn execute(&self, core: &mut CoreSchema, schema: &mut ConfigurationSchema, votes_root: Digest) -> (r:
        VoteOutcome)
        requires
            old(schema).wf(),
            old(core).actual_config.validators@.len() <= u32::MAX,
        ensures
            final(schema).wf(),
            final(schema).ordinal_seq() == old(schema).ordinal_seq(),
            final(core).actual_config == old(core).actual_config,
            final(core).actual_config_hash == old(core).actual_config_hash,
            final(core).height == old(core).height,
            self.check(old(core), old(schema)) matches Some(o) ==> r == o && *final(schema) == *old(
                schema,
            ) && *final(core) == *old(core),
            self.check(old(core), old(schema)) is None ==> {
                let i = old(schema).index_of(self.cfg_hash@);
                let data = old(schema).propose_seq()[i].1;
                let idx = first_position(old(core).actual_config.validator_keys(), self.from@);
                let before = old(schema).votes_at(i);
                let after = final(schema).votes_at(i);
                let committed = cast_count(after) >= byzantine_majority(
                    old(core).actual_config.validators@.len(),
                );
                &&& r == VoteOutcome::Accepted { validator_index: idx as u64, committed }
                &&& 0 <= idx < data.num_votes
                &&& after == if before[idx] is Empty {
                    before.update(idx, VoteSlot::Cast(*self))
                } else {
                    before
                }
                &&& final(schema).propose_seq() == with_history_hash(old(schema).propose_seq(), i, votes_root)
                &&& forall|j: int|
                    0 <= j < old(schema).propose_seq().len() && j != i ==> final(schema).votes_at(j)
                        == old(schema).votes_at(j)
                &&& committed ==> (final(core).following_config matches Some((h, c)) && h == self.cfg_hash
                    && c.previous_cfg_hash == data.cfg.previous_cfg_hash && c.actual_from
                    == data.cfg.actual_from && c.validators@ == data.cfg.validators@)
                &&& !committed ==> *final(core) == *old(core)
            },
    {
        let validator_index = match self.checked_slot(core, schema) {
            Ok(idx) => idx,
            Err(o) => {
                return o;
            },
        };
        let cfg = match schema.get_propose_data(&self.cfg_hash) {
            Some(d) => copy_configuration(&d.cfg),
            None => {
                return VoteOutcome::UnknownPropose;
            },
        };
        schema.put_vote(*self, validator_index, votes_root);
        let votes = schema.count_votes(&self.cfg_hash);
        let majority = byzantine_majority_count(core.actual_config.validators.len());
        let committed = votes >= majority;
        if committed {
            core.commit_configuration(cfg, self.cfg_hash);
        }
        VoteOutcome::Accepted { validator_index: validator_index as u64, committed }
    }
}

/// The first position of `x` in `s`.
pub open spec fn first_position(s: Seq<Seq<u8>>, x: Seq<u8>) -> int {
    choose|i: int| 0 <= i < s.len() && s[i] == x && forall|j: int| 0 <= j < i ==> s[j] != x
}

/// A position of `x` with no `x` before it is `first_position(s, x)`.
proof fn lemma_first_index(s: Seq<Seq<u8>>, x: Seq<u8>, i: int)
    requires
        0 <= i < s.len(),
        s[i] == x,
        forall|j: int| 0 <= j < i ==> s[j] != x,
    ensures
        first_position(s, x) == i,
{
    let c = first_position(s, x);
    assert(0 <= c < s.len() && s[c] == x && forall|j: int| 0 <= j < c ==> s[j] != x);
    if c < i {
        assert(s[c] != x);
    } else if c > i {
        assert(s[i] != x);
    }
}

} // verus!
