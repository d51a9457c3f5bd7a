use vstd::prelude::*;

use crate::config::{ConfigurationSchema, CoreSchema, StoredConfiguration};
use crate::schema::DispatcherSchema;
use crate::types::Digest;
use crate::wallet::WalletSchema;

verus! {

/// The state that service code reads and writes.
#[derive(Clone, Debug)]
pub struct ServiceState {
    /// What the chain records about its configurations and height.
    pub core: CoreSchema,
    /// The reconfiguration service's tables.
    pub configuration: ConfigurationSchema,
    /// The wallet ledger.
    pub wallets: WalletSchema,
    /// Opaque key-value records owned by services of other runtimes.
    pub records: Vec<(Vec<u8>, Vec<u8>)>,
}

impl ServiceState {
    /// Empty service tables over the chain state `core`.
    pub fn new(core: CoreSchema) -> (r: ServiceState)
        ensures
            r.core == core,
            r.configuration.wf(),
            r.configuration.propose_seq().len() == 0,
            r.wallets.wf(),
            r.wallets.wallet_seq().len() == 0,
            r.records@.len() == 0,
    {
        ServiceState {
            core,
            configuration: ConfigurationSchema::new(),
            wallets: WalletSchema::new(),
            records: Vec::new(),
        }
    }
}

/// A mutable overlay over the committed state. A fork that is cloned before a
/// transaction and restored on failure is discarded; a clone of a committed fork
/// serves as a read-only snapshot.
#[derive(Clone, Debug)]
pub struct Fork {
    /// The dispatcher's own persistent schema.
    pub dispatcher: DispatcherSchema,
    /// The part of the state that runtimes and services may change.
    pub services: ServiceState,
}

impl Fork {
    /// An empty state whose configuration in force has no validators.
    pub fn new() -> (r: Fork)
        ensures
            r.dispatcher.wf(),
            r.dispatcher.artifacts_view().len() == 0,
            r.dispatcher.instances_view().len() == 0,
            r.services.configuration.wf(),
            r.services.wallets.wf(),
    {
        let genesis = StoredConfiguration {
            previous_cfg_hash: Digest::zero(),
            actual_from: 0,
            validators: Vec::new(),
        };
        Self::with_core(CoreSchema::new(genesis, Digest::zero()))
    }

    /// An empty state over the chain state `core`.
    pub fn with_core(core: CoreSchema) -> (r: Fork)
        ensures
            r.dispatcher.wf(),
            r.dispatcher.artifacts_view().len() == 0,
            r.dispatcher.instances_view().len() == 0,
            r.services.core == core,
            r.services.configuration.wf(),
            r.services.wallets.wf(),
    {
        Fork { dispatcher: DispatcherSchema::new(), services: ServiceState::new(core) }
    }
}

} // verus!
