//! The messages that update the light client or accuse the relay chain of misbehaviour.

use crate::consensus_state::ParachainHeaderProofs;
use crate::header::headers_view;
use crate::header::RelayHeader;
use crate::header::RelayHeaderView;
use crate::primitives::hash_eq;
use crate::primitives::Height;
use crate::primitives::H256;
use vstd::prelude::*;

verus! {

/// A proof that a relay-chain block is final: its justification, and the headers between
/// the block and one that the client knows.
#[derive(Clone, Debug, PartialEq, Eq)]
pub struct FinalityProof {
    /// The hash of the block that the justification commits to.
    pub block: H256,
    /// The encoded justification.
    pub justification: Vec<u8>,
    pub unknown_headers: Vec<RelayHeader>,
}

/// What a `FinalityProof` holds.
pub struct FinalityProofView {
    pub block: H256,
    pub justification: Seq<u8>,
    pub unknown_headers: Seq<RelayHeaderView>,
}

impl View for FinalityProof {
    type V = FinalityProofView;

    open spec fn view(&self) -> FinalityProofView {
        FinalityProofView {
            block: self.block,
            justification: self.justification@,
            unknown_headers: headers_view(self.unknown_headers@),
        }
    }
}

/// An update: a finality proof, and proofs of parachain headers in the state of
/// finalized relay-chain blocks, each under the hash of its relay-chain block.
///
/// The proofs are a map from the hash of a relay-chain block to a proof, written as a
/// list: an update in which two entries name one block is refused when it is verified.
/// The entries are worked through in the order of the list, and the consensus states
/// that an update brings come in that order.
#[derive(Clone, Debug, PartialEq, Eq)]
pub struct Header {
    pub finality_proof: FinalityProof,
    pub parachain_headers: Vec<(H256, ParachainHeaderProofs)>,
    /// The parachain id, and the latest parachain height that the update brings.
    pub height: Height,
}

/// Whether no relay-chain block is named by two of the proofs.
pub open spec fn distinct_blocks(entries: Seq<(H256, ParachainHeaderProofs)>) -> bool {
    forall|i: int, j: int|
        0 <= i < j < entries.len() ==> (#[trigger] entries[i]).0 != (#[trigger] entries[j]).0
}

/// Whether no relay-chain block is named by two of the proofs.
pub fn has_distinct_blocks(entries: &Vec<(H256, ParachainHeaderProofs)>) -> (r: bool)
    ensures
        r == distinct_blocks(entries@),
{
    let mut j: usize = 0;
    while j < entries.len()
        invariant
            j <= entries.len(),
            forall|a: int, b: int|
                0 <= a < b < j ==> (#[trigger] entries@[a]).0 != (#[trigger] entries@[b]).0,
        decreases entries.len() - j,
    {
        let mut i: usize = 0;
        while i < j
            invariant
                i <= j < entries.len(),
                forall|a: int, b: int|
                    0 <= a < b < j ==> (#[trigger] entries@[a]).0 != (#[trigger] entries@[b]).0,
                forall|a: int| 0 <= a < i ==> (#[trigger] entries@[a]).0 != entries@[j as int].0,
            decreases j - i,
        {
            if hash_eq(&entries[i].0, &entries[j].0) {
                assert(entries@[i as int].0 == entries@[j as int].0);
                return false;
            }
            i += 1;
        }
        j += 1;
    }
    true
}

/// Two finality proofs for blocks that cannot both be final.
#[derive(Clone, Debug, PartialEq, Eq)]
pub struct Misbehaviour {
    pub first_finality_proof: FinalityProof,
    pub second_finality_proof: FinalityProof,
}

/// A message to the client.
#[derive(Clone, Debug, PartialEq, Eq)]
pub enum ClientMessage {
    Header(Header),
    Misbehaviour(Misbehaviour),
}

} // verus!
