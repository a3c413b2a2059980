//! What the light client reads from the chain that hosts it, and the values that pass
//! between the two.
//!
//! The host decides what the methods of `ReaderContext` answer. The client makes no
//! assumption about the answers.

use crate::client_state::ClientState;
use crate::consensus_state::ConsensusState;
use crate::error::Error;
use crate::paths::ClientId;
use crate::primitives::Height;
use vstd::prelude::*;

verus! {

/// A consensus state as the host keeps it: one of this client, or one of a client of
/// another kind.
#[derive(Clone, Copy, Debug, PartialEq, Eq)]
pub enum AnyConsensusState {
    Grandpa(ConsensusState),
    Other,
}

/// The consensus states that an operation hands to the host for storing.
#[derive(Clone, Debug, PartialEq, Eq)]
pub enum ConsensusUpdateResult {
    /// One consensus state, for the latest height of the new client state.
    Single(ConsensusState),
    /// Consensus states with their heights.
    Batch(Vec<(Height, ConsensusState)>),
}

/// The end of a connection on this chain, as far as proofs depend on it.
#[derive(Clone, Debug, PartialEq, Eq)]
pub struct ConnectionEnd {
    /// The client that the connection runs over.
    pub client_id: ClientId,
    /// The delay that the connection asks for, in nanoseconds.
    pub delay_period: u64,
    /// The prefix under which the counterparty commits its data.
    pub counterparty_prefix: Vec<u8>,
}

/// What the client reads from its host.
pub trait ReaderContext {
    /// The time of the host, in nanoseconds.
    fn host_timestamp(&self) -> u64;

    /// The height of the host.
    fn host_height(&self) -> Height;

    /// The consensus state that the host holds for a client at a height.
    fn consensus_state(&self, client_id: &ClientId, height: Height) -> Result<
        AnyConsensusState,
        Error,
    >;

    /// The consensus state that the host holds for a client at a height, if any.
    fn maybe_consensus_state(&self, client_id: &ClientId, height: Height) -> Result<
        Option<AnyConsensusState>,
        Error,
    >;

    /// The time of the host at which it took note of a consensus state, in nanoseconds.
    fn client_update_time(&self, client_id: &ClientId, height: Height) -> Result<u64, Error>;

    /// The height of the host at which it took note of a consensus state.
    fn client_update_height(&self, client_id: &ClientId, height: Height) -> Result<Height, Error>;

    /// The number of blocks that the host makes in a span of time, given in nanoseconds.
    fn block_delay(&self, delay_period: u64) -> u64;

    /// The encoding under which the host commits a client state.
    fn encode_client_state(&self, state: &ClientState) -> Vec<u8>;

    /// The encoding under which the host commits a consensus state.
    fn encode_consensus_state(&self, state: &ConsensusState) -> Vec<u8>;
}

} // verus!
