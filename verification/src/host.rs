//! What the light client asks of the chain that hosts it.
//!
//! The host decides what these methods answer. The client makes no assumption about the
//! answers: every decision that it takes on one is taken by a function that receives
//! the answer as an argument.

use crate::primitives::PublicKey;
use crate::primitives::Signature;
use crate::primitives::H256;
use vstd::prelude::*;

verus! {

/// The capabilities of the host: signature verification, and a persistent set of the
/// relay-chain headers that the client has seen finalized.
pub trait HostCapabilities {
    /// Whether `signature` is an ed25519 signature of `message` under `public_key`.
    fn ed25519_verify(&self, signature: &Signature, message: &[u8], public_key: &PublicKey) -> bool;

    /// Whether the host remembers the header with this hash.
    fn contains_relay_header_hash(&self, hash: &H256) -> bool;

    /// Records headers as finalized at `now_ms`, host time in milliseconds.
    fn insert_relay_header_hashes(&mut self, now_ms: u64, hashes: &Vec<H256>);
}

} // verus!
