//! Proofs that the parachain has committed a value under an IBC path, or nothing, and
//! the delay that a connection asks for before a packet proof counts.

use crate::error::Error;
use crate::primitives::append_bytes;
use crate::primitives::bytes_eq;
use crate::primitives::Height;
use crate::primitives::MAX_TRIE_NODES;
use crate::scale::read_hash;
use crate::storage::decode_node_list;
use crate::storage::read_trie_proof;
use crate::storage::scale_node_list;
use crate::storage::trie_value;
use vstd::prelude::*;

verus! {

/// Whether a proof shows that the key made of `prefix` and `path` holds `value` under
/// `root`, or, with no value, that it holds nothing. The root must be 32 bytes long and
/// the proof an encoded list of trie nodes.
pub open spec fn membership_verdict(
    prefix: Seq<u8>,
    proof: Seq<u8>,
    root: Seq<u8>,
    path: Seq<u8>,
    value: Option<Seq<u8>>,
) -> Result<(), Error> {
    if root.len() != 32 {
        Err(Error::InvalidMembershipProof)
    } else {
        match scale_node_list(proof) {
            Some(nodes) => if nodes.len() > MAX_TRIE_NODES {
                Err(Error::InputTooLarge)
            } else {
                match trie_value(root, nodes, prefix + path) {
                    Some(found) => if found == value {
                        Ok(())
                    } else {
                        Err(Error::InvalidMembershipProof)
                    },
                    None => Err(Error::InvalidMembershipProof),
                }
            },
            None => Err(Error::Decode),
        }
    }
}

/// Whether the delay of a connection has passed since the host took note of a consensus
/// state: neither the time of the host nor its height may lie before the time and the
/// height of the note plus the delay.
pub open spec fn delay_verdict(
    now: u64,
    host_height: Height,
    processed_time: u64,
    processed_height: Height,
    delay_time: u64,
    delay_blocks: u64,
) -> Result<(), Error> {
    if processed_time + delay_time > u64::MAX || processed_height.revision_height + delay_blocks
        > u64::MAX {
        Err(Error::Overflow)
    } else if now < processed_time + delay_time {
        Err(Error::DelayNotPassed)
    } else if host_height.spec_lt(
        Height {
            revision_number: processed_height.revision_number,
            revision_height: (processed_height.revision_height + delay_blocks) as u64,
        },
    ) {
        Err(Error::DelayNotPassed)
    } else {
        Ok(())
    }
}

/// What a lookup found, against what was expected.
fn found_matches(found: &Option<Vec<u8>>, value: Option<&[u8]>) -> (r: bool)
    ensures
        r == (match (*found, value) {
            (Some(a), Some(b)) => a@ == b@,
            (None, None) => true,
            _ => false,
        }),
{
    match (found, value) {
        (Some(a), Some(b)) => bytes_eq(a.as_slice(), b),
        (None, None) => true,
        _ => false,
    }
}

/// The bytes of an optional slice.
pub open spec fn slice_view(value: Option<&[u8]>) -> Option<Seq<u8>> {
    match value {
        Some(v) => Some(v@),
        None => None,
    }
}

/// Checks a proof that the key made of `prefix` and `path` holds `value` under `root`,
/// or, with no value, that it holds nothing.
pub fn check_membership(
    prefix: &[u8],
    proof: &[u8],
    root: &[u8],
    path: &[u8],
    value: Option<&[u8]>,
) -> (r: Result<(), Error>)
    ensures
        r == membership_verdict(prefix@, proof@, root@, path@, slice_view(value)),
{
    if root.len() != 32 {
        return Err(Error::InvalidMembershipProof);
    }
    let nodes = match decode_node_list(proof) {
        Some(n) => n,
        None => { return Err(Error::Decode); },
    };
    if nodes.len() > MAX_TRIE_NODES {
        return Err(Error::InputTooLarge);
    }
    let mut key: Vec<u8> = Vec::new();
    append_bytes(&mut key, prefix);
    append_bytes(&mut key, path);
    assert(key@ =~= prefix@ + path@);
    let state_root = read_hash(root, 0);
    assert(state_root@ =~= root@);
    match read_trie_proof(&state_root, &nodes, key.as_slice()) {
        Some(found) => {
            if found_matches(&found, value) {
                Ok(())
            } else {
                Err(Error::InvalidMembershipProof)
            }
        },
        None => Err(Error::InvalidMembershipProof),
    }
}

/// Checks a proof that the key made of `prefix` and `path` holds `value` under `root`.
pub fn verify_membership(prefix: &[u8], proof: &[u8], root: &[u8], path: &[u8], value: &[u8]) -> (r:
    Result<(), Error>)
    ensures
        r == membership_verdict(prefix@, proof@, root@, path@, Some(value@)),
{
    check_membership(prefix, proof, root, path, Some(value))
}

/// Checks a proof that the key made of `prefix` and `path` holds nothing under `root`.
pub fn verify_non_membership(prefix: &[u8], proof: &[u8], root: &[u8], path: &[u8]) -> (r: Result<
    (),
    Error,
>)
    ensures
        r == membership_verdict(prefix@, proof@, root@, path@, None),
{
    check_membership(prefix, proof, root, path, None)
}

/// Decides whether the delay of a connection has passed.
pub fn verify_delay_with(
    now: u64,
    host_height: Height,
    processed_time: u64,
    processed_height: Height,
    delay_time: u64,
    delay_blocks: u64,
) -> (r: Result<(), Error>)
    ensures
        r == delay_verdict(
            now,
            host_height,
            processed_time,
            processed_height,
            delay_time,
            delay_blocks,
        ),
{
    let earliest_time = match processed_time.checked_add(delay_time) {
        Some(t) => t,
        None => { return Err(Error::Overflow); },
    };
    let earliest_height = match processed_height.revision_height.checked_add(delay_blocks) {
        Some(h) => Height::new(processed_height.revision_number, h),
        None => { return Err(Error::Overflow); },
    };
    if now < earliest_time {
        return Err(Error::DelayNotPassed);
    }
    if host_height.lt(&earliest_height) {
        return Err(Error::DelayNotPassed);
    }
    Ok(())
}

} // verus!
