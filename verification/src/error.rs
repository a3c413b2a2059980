//! The failures that the light client reports to its caller.

use vstd::prelude::*;

verus! {

/// Why an operation of the light client was refused.
#[derive(Clone, Copy, Debug, PartialEq, Eq, Structural)]
pub enum Error {
    /// The revision number of a header message is not the parachain id of the client.
    ParaIdMismatch,
    /// No chain of parent links joins the two blocks within the supplied headers.
    InvalidAncestry,
    /// A justification could not be decoded, or it does not prove finality.
    InvalidJustification,
    /// A misbehaviour message is not a pair of contradicting finality proofs.
    InvalidEquivocation,
    /// A relay-chain hash is referred to whose header is not in the message.
    MissingHeader,
    /// The update would move the relay chain or the parachain backwards.
    HeightRegression,
    /// The number of the target block disagrees with the length of the finalized path.
    HeightMismatch,
    /// A storage proof for a parachain header is invalid or does not hold the header.
    InvalidStorageProof,
    /// An upgrade proof is invalid, or proves another value than the one submitted.
    InvalidUpgradeProof,
    /// A commitment proof is invalid, or proves another value than the expected one.
    InvalidMembershipProof,
    /// The client is frozen at or below the height in question.
    FrozenClient,
    /// The height in question lies above the latest height of the client.
    InsufficientHeight,
    /// The delay period of the connection has not passed yet.
    DelayNotPassed,
    /// The host holds no consensus state, or no update record, for the height.
    ConsensusStateNotFound,
    /// The consensus state that the host holds belongs to another kind of client.
    TypeMismatch,
    /// The input bytes are not a valid encoding.
    Decode,
    /// A message holds more headers or proofs, or a proof more nodes, than the client
    /// takes.
    InputTooLarge,
    /// A number does not fit its type.
    Overflow,
    /// The operation is not provided by this client.
    Unimplemented,
}

} // verus!
