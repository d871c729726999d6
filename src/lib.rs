//! The confidential execution core of an off-chain worker: storage addresses in the host
//! ledger's layout, a key-value state per shard, trusted calls applied under a per-account
//! nonce guard, trusted getters, demurrage on balances, meetup scheduling, and signed
//! attendance claims and proofs.
pub mod attendance;
pub mod balances;
pub mod ceremonies;
pub mod demurrage;
pub mod encoding;
pub mod fixed;
pub mod identifiers;
pub mod runtime;
pub mod scale;
pub mod scheduler;
pub mod state;
pub mod stf;
pub mod storage_key;
pub mod worker_api;
