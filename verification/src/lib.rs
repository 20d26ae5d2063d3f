//! Storage-lifecycle tooling for Soroban contracts: TTL policies, the
//! lifecycle model, the storage lint rules, the rent keeper's risk and
//! batching logic, and the restore planner's core, each with its contract.

pub mod lifecycle;
pub mod ttl;
pub mod text;
pub mod risk;
pub mod rpc;
pub mod keeper;
pub mod config;
pub mod lints;
pub mod grammar;
pub mod schema;
pub mod ops;
pub mod vault;
pub mod xdr_util;
pub mod keys;
pub mod restore;
pub mod ledger;
pub mod transaction;
pub mod order;
pub mod cli;
