//! Consensus states of the parachain, and how one is derived from a parachain header
//! that a storage proof shows in the state of the relay chain.

use crate::error::Error;
use crate::header::header_at;
use crate::header::RelayHeader;
use crate::header::RelayHeaderView;
use crate::primitives::Height;
use crate::primitives::H256;
use crate::primitives::MAX_TRIE_NODES;
use crate::primitives::NANOS_PER_MILLI;
use crate::scale::byte_string;
use crate::scale::compact_u64;
use crate::scale::decode_byte_string;
use crate::scale::decode_compact_u64;
use crate::storage::lookup_view;
use crate::storage::nodes_view;
use crate::storage::parachain_header_key;
use crate::storage::parachain_header_storage_key;
use crate::storage::read_trie_proof;
use crate::storage::trie_value;
use vstd::prelude::*;
use vstd::slice::slice_subrange;

verus! {

/// The snapshot of the parachain at one height that IBC proofs are checked against.
#[derive(Clone, Copy, Debug, PartialEq, Eq)]
pub struct ConsensusState {
    /// Time of the block, in nanoseconds.
    pub timestamp: u64,
    /// The state root of the parachain.
    pub root: H256,
}

/// The proof of one parachain header: a storage proof of the head of the parachain in
/// the state of a relay-chain block, and the timestamp extrinsic of the parachain block
/// with its proof against the extrinsics root of the header.
#[derive(Clone, Debug, PartialEq, Eq)]
pub struct ParachainHeaderProofs {
    pub state_proof: Vec<Vec<u8>>,
    pub extrinsic: Vec<u8>,
    pub extrinsic_proof: Vec<Vec<u8>>,
}

/// The parachain header that the relay chain stores as the head of a parachain: a
/// length-prefixed byte string that holds the encoded header.
pub open spec fn head_of(value: Seq<u8>) -> Option<RelayHeaderView> {
    match byte_string(value, 0) {
        Some((content, _)) => match header_at(content, 0) {
            Some((h, _)) => Some(h),
            None => None,
        },
        None => None,
    }
}

/// The time that a timestamp extrinsic sets, in milliseconds: the compact integer
/// behind the length byte, the version byte and the two bytes that name the call.
pub open spec fn timestamp_millis(extrinsic: Seq<u8>) -> Option<u64> {
    match compact_u64(extrinsic, 4) {
        Some((ms, _)) => Some(ms),
        None => None,
    }
}

/// The height and consensus state that follow from what a storage proof shows of the
/// head of parachain `para_id`, and from the timestamp extrinsic.
pub open spec fn extracted(lookup: Option<Option<Seq<u8>>>, extrinsic: Seq<u8>, para_id: u32) -> Result<
    (Height, ConsensusState),
    Error,
> {
    match lookup {
        Some(Some(value)) => match head_of(value) {
            Some(h) => match timestamp_millis(extrinsic) {
                Some(ms) => if ms * NANOS_PER_MILLI > u64::MAX {
                    Err(Error::Overflow)
                } else {
                    Ok(
                        (
                            Height {
                                revision_number: para_id as u64,
                                revision_height: h.number as u64,
                            },
                            ConsensusState {
                                timestamp: (ms * NANOS_PER_MILLI) as u64,
                                root: h.state_root,
                            },
                        ),
                    )
                },
                None => Err(Error::Decode),
            },
            None => Err(Error::Decode),
        },
        _ => Err(Error::InvalidStorageProof),
    }
}

/// The height and consensus state of the parachain block whose header the proof shows
/// under the state root of a relay-chain block. A proof with too many nodes is refused.
pub open spec fn proved_state(proofs: ParachainHeaderProofs, para_id: u32, relay_state_root: H256) -> Result<
    (Height, ConsensusState),
    Error,
> {
    if proofs.state_proof@.len() > MAX_TRIE_NODES {
        Err(Error::InputTooLarge)
    } else {
        extracted(
            trie_value(
                relay_state_root@,
                nodes_view(proofs.state_proof@),
                parachain_header_key(para_id),
            ),
            proofs.extrinsic@,
            para_id,
        )
    }
}

/// Reads the parachain header out of the value that the relay chain stores as the head
/// of a parachain.
pub fn decode_parachain_head(value: &[u8]) -> (r: Option<RelayHeader>)
    ensures
        r matches Some(h) ==> head_of(value@) == Some(h@),
        r is None ==> head_of(value@) is None,
{
    match decode_byte_string(value, 0) {
        Some((from, to)) => match RelayHeader::decode(slice_subrange(value, from, to), 0) {
            Some((h, _)) => Some(h),
            None => None,
        },
        None => None,
    }
}

/// Reads the time that a timestamp extrinsic sets, in milliseconds.
pub fn decode_timestamp_extrinsic(extrinsic: &[u8]) -> (r: Option<u64>)
    ensures
        r == timestamp_millis(extrinsic@),
{
    match decode_compact_u64(extrinsic, 4) {
        Some((ms, _)) => Some(ms),
        None => None,
    }
}

impl ConsensusState {
    /// Derives the height and the consensus state from what a storage proof showed of
    /// the head of the parachain.
    pub fn from_lookup(lookup: Option<Option<Vec<u8>>>, extrinsic: &[u8], para_id: u32) -> (r:
        Result<(Height, ConsensusState), Error>)
        ensures
            r == extracted(lookup_view(lookup), extrinsic@, para_id),
    {
        let value = match lookup {
            Some(Some(v)) => v,
            _ => { return Err(Error::InvalidStorageProof); },
        };
        let head = match decode_parachain_head(value.as_slice()) {
            Some(h) => h,
            None => { return Err(Error::Decode); },
        };
        let ms = match decode_timestamp_extrinsic(extrinsic) {
            Some(ms) => ms,
            None => { return Err(Error::Decode); },
        };
        let nanos = match ms.checked_mul(NANOS_PER_MILLI) {
            Some(n) => n,
            None => { return Err(Error::Overflow); },
        };
        Ok(
            (
                Height::new(para_id as u64, head.number as u64),
                ConsensusState { timestamp: nanos, root: head.state_root },
            ),
        )
    }

    /// Derives the height and the consensus state of the parachain block whose header
    /// the proof shows under the state root of a relay-chain block.
    pub fn from_header(proofs: &ParachainHeaderProofs, para_id: u32, relay_state_root: &H256) -> (r:
        Result<(Height, ConsensusState), Error>)
        ensures
            r == proved_state(*proofs, para_id, *relay_state_root),
    {
        if proofs.state_proof.len() > MAX_TRIE_NODES {
            return Err(Error::InputTooLarge);
        }
        let key = parachain_header_storage_key(para_id);
        let lookup = read_trie_proof(relay_state_root, &proofs.state_proof, key.as_slice());
        Self::from_lookup(lookup, proofs.extrinsic.as_slice(), para_id)
    }
}

} // verus!
