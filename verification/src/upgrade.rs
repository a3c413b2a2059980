//! When an upgrade of the client is accepted: the parachain must have committed the new
//! client state and the new consensus state under the two upgrade paths, in the state
//! that the client trusts at its latest height.

use crate::client_state::ClientState;
use crate::client_state::ClientStateView;
use crate::consensus_state::ConsensusState;
use crate::context::AnyConsensusState;
use crate::context::ConsensusUpdateResult;
use crate::error::Error;
use crate::primitives::bytes_eq;
use crate::primitives::H256;
use crate::primitives::MAX_TRIE_NODES;
use crate::storage::any_value;
use crate::storage::client_state_upgrade_key;
use crate::storage::client_state_upgrade_path;
use crate::storage::consensus_state_upgrade_key;
use crate::storage::consensus_state_upgrade_path;
use crate::storage::decode_any_value;
use crate::storage::decode_node_list;
use crate::storage::read_trie_proof;
use crate::storage::scale_node_list;
use crate::storage::trie_value;
use vstd::prelude::*;

verus! {

/// Whether a proof shows that `key` holds, under `root`, a protobuf `Any` whose value
/// is `expected`.
pub open spec fn upgrade_proof_verdict(root: H256, proof: Seq<u8>, key: Seq<u8>, expected: Seq<u8>) -> Result<
    (),
    Error,
> {
    match scale_node_list(proof) {
        Some(nodes) => if nodes.len() > MAX_TRIE_NODES {
            Err(Error::InputTooLarge)
        } else {
            match trie_value(root@, nodes, key) {
                Some(Some(stored)) => match any_value(stored) {
                    Some(value) => if value == expected {
                        Ok(())
                    } else {
                        Err(Error::InvalidUpgradeProof)
                    },
                    None => Err(Error::InvalidUpgradeProof),
                },
                _ => Err(Error::InvalidUpgradeProof),
            }
        },
        None => Err(Error::Decode),
    }
}

/// The client state after an upgrade: that of the upgrade, on the relay chain of the old
/// state, not frozen.
pub open spec fn merged(old: ClientStateView, upgrade: ClientStateView) -> ClientStateView {
    ClientStateView { relay_chain: old.relay_chain, frozen_height: None, ..upgrade }
}

/// The client state after an upgrade, or why the upgrade is refused.
///
/// The upgrade must lie above the latest height of the old state. The host must hold a
/// consensus state of this client at that height; its root is the state root that the
/// two proofs are checked under.
pub open spec fn upgrade_verdict(
    old: ClientStateView,
    upgrade: ClientStateView,
    stored: Result<AnyConsensusState, Error>,
    proof_upgrade_client: Seq<u8>,
    proof_upgrade_consensus_state: Seq<u8>,
    expected_client_state: Seq<u8>,
    expected_consensus_state: Seq<u8>,
) -> Result<ClientStateView, Error> {
    if upgrade.latest_height().spec_le(old.latest_height()) {
        Err(Error::HeightRegression)
    } else {
        match stored {
            Ok(AnyConsensusState::Grandpa(trusted)) => match upgrade_proof_verdict(
                trusted.root,
                proof_upgrade_client,
                client_state_upgrade_path(),
                expected_client_state,
            ) {
                Ok(()) => match upgrade_proof_verdict(
                    trusted.root,
                    proof_upgrade_consensus_state,
                    consensus_state_upgrade_path(),
                    expected_consensus_state,
                ) {
                    Ok(()) => Ok(merged(old, upgrade)),
                    Err(e) => Err(e),
                },
                Err(e) => Err(e),
            },
            Ok(AnyConsensusState::Other) => Err(Error::TypeMismatch),
            Err(e) => Err(e),
        }
    }
}

/// A result of `verify_upgrade_with` by what it holds.
pub open spec fn upgrade_view(r: Result<(ClientState, ConsensusUpdateResult), Error>) -> Result<
    ClientStateView,
    Error,
> {
    match r {
        Ok((state, _)) => Ok(state@),
        Err(e) => Err(e),
    }
}

/// Checks a proof that `key` holds, under `root`, a protobuf `Any` whose value is
/// `expected`.
pub fn verify_upgrade_proof(root: &H256, proof: &[u8], key: &[u8], expected: &[u8]) -> (r: Result<
    (),
    Error,
>)
    ensures
        r == upgrade_proof_verdict(*root, proof@, key@, expected@),
{
    let nodes = match decode_node_list(proof) {
        Some(n) => n,
        None => { return Err(Error::Decode); },
    };
    if nodes.len() > MAX_TRIE_NODES {
        return Err(Error::InputTooLarge);
    }
    let stored = match read_trie_proof(root, &nodes, key) {
        Some(Some(v)) => v,
        _ => { return Err(Error::InvalidUpgradeProof); },
    };
    let value = match decode_any_value(stored.as_slice()) {
        Some(v) => v,
        None => { return Err(Error::InvalidUpgradeProof); },
    };
    if bytes_eq(value.as_slice(), expected) {
        Ok(())
    } else {
        Err(Error::InvalidUpgradeProof)
    }
}

/// Decides on an upgrade, given the consensus state that the host holds at the latest
/// height of the old state, and the encodings under which the host commits the new
/// client state and the new consensus state.
pub fn verify_upgrade_with(
    old_client_state: &ClientState,
    upgrade_client_state: &ClientState,
    upgrade_consensus_state: &ConsensusState,
    stored: Result<AnyConsensusState, Error>,
    proof_upgrade_client: &[u8],
    proof_upgrade_consensus_state: &[u8],
    expected_client_state: &[u8],
    expected_consensus_state: &[u8],
) -> (r: Result<(ClientState, ConsensusUpdateResult), Error>)
    ensures
        upgrade_view(r) == upgrade_verdict(
            old_client_state@,
            upgrade_client_state@,
            stored,
            proof_upgrade_client@,
            proof_upgrade_consensus_state@,
            expected_client_state@,
            expected_consensus_state@,
        ),
        r matches Ok((_, update)) ==> update == ConsensusUpdateResult::Single(
            *upgrade_consensus_state,
        ),
{
    if upgrade_client_state.latest_height().le(&old_client_state.latest_height()) {
        return Err(Error::HeightRegression);
    }
    let trusted = match stored {
        Ok(AnyConsensusState::Grandpa(cs)) => cs,
        Ok(AnyConsensusState::Other) => { return Err(Error::TypeMismatch); },
        Err(e) => { return Err(e); },
    };
    let client_key = client_state_upgrade_key();
    match verify_upgrade_proof(
        &trusted.root,
        proof_upgrade_client,
        client_key.as_slice(),
        expected_client_state,
    ) {
        Ok(()) => {},
        Err(e) => { return Err(e); },
    }
    let consensus_key = consensus_state_upgrade_key();
    match verify_upgrade_proof(
        &trusted.root,
        proof_upgrade_consensus_state,
        consensus_key.as_slice(),
        expected_consensus_state,
    ) {
        Ok(()) => {},
        Err(e) => { return Err(e); },
    }
    let mut next = upgrade_client_state.duplicate();
    next.relay_chain = old_client_state.relay_chain;
    next.frozen_height = None;
    Ok((next, ConsensusUpdateResult::Single(*upgrade_consensus_state)))
}

} // verus!
