//! A GRANDPA light client for parachains.
//!
//! The client follows the finalized head of a parachain. It consumes GRANDPA finality
//! proofs of the relay chain, reads parachain headers out of relay-chain state by
//! Merkle-Patricia storage proofs, and hands consensus states back to its host.

pub mod primitives;
pub mod error;
pub mod scale;
pub mod authorities;
pub mod hashing;
pub mod header;
pub mod consensus_log;
pub mod ancestry;
pub mod host;
pub mod justification;
pub mod storage;
pub mod chain;
pub mod host_functions;
pub mod consensus_state;
pub mod client_state;
pub mod client_message;
pub mod update;
pub mod verification;
pub mod misbehaviour;
pub mod paths;
pub mod membership;
pub mod context;
pub mod upgrade;
pub mod client_def;
pub mod laws;
