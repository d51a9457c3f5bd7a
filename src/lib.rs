//! A service runtime dispatcher: deploys artifacts, starts service instances,
//! routes calls to the runtimes that host them and keeps its own persistent
//! schema consistent with what runs in memory; with the state of two services that run
//! under it, a wallet ledger and a reconfiguration service.
pub mod types;
pub mod schema;
pub mod fork;
pub mod hashes;
pub mod dispatcher;
pub mod config;
pub mod wallet;
pub mod codec;
