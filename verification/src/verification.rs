//! When an update is accepted: the finality proof must lead from the latest block of the
//! client to the block that its justification commits to, the justification must be valid
//! under the authority set in force at the height of that block, and every parachain
//! header must be proved under the state root of its relay-chain block.
//!
//! Whether a signature is good is for the host to say. The decision is taken here, over
//! what the host said.

use crate::ancestry::ancestry_of;
use crate::ancestry::base_position;
use crate::ancestry::first_min;
use crate::ancestry::index_of;
use crate::ancestry::last_max;
use crate::ancestry::path_contains;
use crate::ancestry::target_position;
use crate::ancestry::AncestryChain;
use crate::authorities::resolve_index;
use crate::authorities::Authority;
use crate::client_message::distinct_blocks;
use crate::client_message::has_distinct_blocks;
use crate::client_message::Header;
use crate::client_state::ClientState;
use crate::client_state::ClientStateView;
use crate::consensus_state::decode_parachain_head;
use crate::consensus_state::head_of;
use crate::consensus_state::ParachainHeaderProofs;
use crate::error::Error;
use crate::header::header_hash;
use crate::header::headers_view;
use crate::header::RelayHeaderView;
use crate::justification::all_good;
use crate::justification::justification_of;
use crate::justification::justification_valid;
use crate::justification::lemma_valid_with_all_good;
use crate::justification::Justification;
use crate::justification::JustificationView;
use crate::primitives::hash_eq;
use crate::primitives::H256;
use crate::primitives::MAX_PARACHAIN_HEADERS;
use crate::primitives::MAX_TRIE_NODES;
use crate::primitives::MAX_UNKNOWN_HEADERS;
use crate::storage::check_trie_proof;
use crate::storage::nodes_view;
use crate::storage::parachain_header_key;
use crate::storage::parachain_header_storage_key;
use crate::storage::read_trie_proof;
use crate::storage::trie_proof_valid;
use crate::storage::trie_value;
use vstd::prelude::*;

verus! {

/// What is settled about an update before any signature is looked at.
pub struct HeaderPlan {
    /// The decoded justification.
    pub justification: Justification,
    /// The path from the target block back to the latest block of the client.
    pub finalized: Vec<H256>,
    /// The authority set in force at the height of the target block.
    pub set_id: u64,
    pub authorities: Vec<Authority>,
}

/// The key of the timestamp extrinsic in the trie of extrinsics: the compact form of 0.
pub open spec fn timestamp_extrinsic_key() -> Seq<u8> {
    seq![0u8]
}

/// The justification of an update, its finalized path, and the position in the ledger of
/// the authority set that must have signed.
///
/// A frozen client takes no update. The update must be for the parachain of the
/// client, and no relay-chain block may be named by two of its proofs of parachain
/// headers. Its target, the last header with
/// the greatest number, must be the block of the finality proof, and the justification
/// must commit to that block. Where the first header with the least number lies below
/// the latest relay height, the latest block must descend from it. The target must
/// descend from the latest block; its height is the latest relay height plus the length
/// of the path between them.
pub open spec fn header_plan(state: ClientStateView, header: Header) -> Result<
    (JustificationView, Seq<H256>, int),
    Error,
> {
    let hs = headers_view(header.finality_proof.unknown_headers@);
    let block = header.finality_proof.block;
    if state.frozen_height is Some {
        Err(Error::FrozenClient)
    } else if state.para_id != header.height.revision_number {
        Err(Error::ParaIdMismatch)
    } else if hs.len() > MAX_UNKNOWN_HEADERS || header.parachain_headers@.len()
        > MAX_PARACHAIN_HEADERS {
        Err(Error::InputTooLarge)
    } else if !distinct_blocks(header.parachain_headers@) {
        Err(Error::Decode)
    } else if hs.len() == 0 {
        Err(Error::MissingHeader)
    } else if header_hash(hs[last_max(hs)]) != block {
        Err(Error::InvalidAncestry)
    } else {
        match justification_of(header.finality_proof.justification@) {
            Some(j) => if j.target_hash != block {
                Err(Error::InvalidJustification)
            } else if hs[first_min(hs)].number < state.latest_relay_height && ancestry_of(
                hs,
                header_hash(hs[first_min(hs)]),
                state.latest_relay_hash,
            ) is None {
                Err(Error::InvalidAncestry)
            } else {
                match ancestry_of(hs, state.latest_relay_hash, block) {
                    Some(finalized) => if state.latest_relay_height + finalized.len() - 1
                        > u32::MAX {
                        Err(Error::Overflow)
                    } else {
                        Ok(
                            (
                                j,
                                finalized,
                                resolve_index(
                                    state.authorities_changes,
                                    (state.latest_relay_height + finalized.len() - 1) as u32,
                                ),
                            ),
                        )
                    },
                    None => Err(Error::InvalidAncestry),
                }
            },
            None => Err(Error::InvalidJustification),
        }
    }
}

/// The number of the parachain header that one proof shows, or nothing where its
/// relay-chain block is not on the finalized path. The head of the parachain must be
/// proved under the state root of the relay-chain block, and the timestamp extrinsic
/// under the extrinsics root of the parachain header.
#[verifier::opaque]
pub open spec fn entry_number(
    para_id: u32,
    hs: Seq<RelayHeaderView>,
    finalized: Seq<H256>,
    entry: (H256, ParachainHeaderProofs),
) -> Result<Option<u32>, Error> {
    if !finalized.contains(entry.0) {
        Ok(None)
    } else if index_of(hs, entry.0) < 0 {
        Err(Error::MissingHeader)
    } else if entry.1.state_proof@.len() > MAX_TRIE_NODES || entry.1.extrinsic_proof@.len()
        > MAX_TRIE_NODES {
        Err(Error::InputTooLarge)
    } else {
        match trie_value(
            hs[index_of(hs, entry.0)].state_root@,
            nodes_view(entry.1.state_proof@),
            parachain_header_key(para_id),
        ) {
            Some(Some(value)) => match head_of(value) {
                Some(head) => if trie_proof_valid(
                    head.extrinsics_root@,
                    nodes_view(entry.1.extrinsic_proof@),
                    timestamp_extrinsic_key(),
                    entry.1.extrinsic@,
                ) {
                    Ok(Some(head.number))
                } else {
                    Err(Error::InvalidStorageProof)
                },
                None => Err(Error::Decode),
            },
            _ => Err(Error::InvalidStorageProof),
        }
    }
}

/// The greatest number among the parachain headers that the first `upto` proofs show,
/// or nothing where they show none; or the first error.
pub open spec fn greatest_number(
    para_id: u32,
    hs: Seq<RelayHeaderView>,
    finalized: Seq<H256>,
    entries: Seq<(H256, ParachainHeaderProofs)>,
    upto: int,
) -> Result<Option<u32>, Error>
    decreases upto,
{
    if upto <= 0 {
        Ok(None)
    } else {
        match greatest_number(para_id, hs, finalized, entries, upto - 1) {
            Ok(before) => match entry_number(para_id, hs, finalized, entries[upto - 1]) {
                Ok(Some(n)) => if before matches Some(b) && b >= n {
                    Ok(before)
                } else {
                    Ok(Some(n))
                },
                Ok(None) => Ok(before),
                Err(e) => Err(e),
            },
            Err(e) => Err(e),
        }
    }
}

/// Whether the parachain headers of an update are proved, and the greatest of their
/// numbers is the parachain height that the update claims.
pub open spec fn parachain_verdict(para_id: u32, header: Header, finalized: Seq<H256>) -> Result<
    (),
    Error,
> {
    match greatest_number(
        para_id,
        headers_view(header.finality_proof.unknown_headers@),
        finalized,
        header.parachain_headers@,
        header.parachain_headers@.len() as int,
    ) {
        Ok(Some(n)) => if n as u64 != header.height.revision_height {
            Err(Error::HeightMismatch)
        } else {
            Ok(())
        },
        Ok(None) => Ok(()),
        Err(e) => Err(e),
    }
}

/// Whether an update is accepted, given for each precommit of its justification whether
/// the signature is good.
pub open spec fn header_verdict(state: ClientStateView, header: Header, signature_ok: Seq<bool>) -> Result<
    (),
    Error,
> {
    match header_plan(state, header) {
        Ok((j, finalized, entry)) => if !justification_valid(
            j,
            state.authorities_changes[entry].authorities,
            signature_ok,
        ) {
            Err(Error::InvalidJustification)
        } else {
            parachain_verdict(state.para_id, header, finalized)
        },
        Err(e) => Err(e),
    }
}

/// Whether an update is acceptable: it is accepted where every signature of its
/// justification is good.
pub open spec fn header_acceptable(state: ClientStateView, header: Header) -> bool {
    match header_plan(state, header) {
        Ok((j, _, _)) => header_verdict(state, header, all_good(j.precommits.len()))
            == Ok::<(), Error>(()),
        Err(_) => false,
    }
}

/// An update is accepted only with every signature good.
pub proof fn lemma_accepted_with_all_good(
    state: ClientStateView,
    header: Header,
    signature_ok: Seq<bool>,
)
    requires
        header_verdict(state, header, signature_ok) == Ok::<(), Error>(()),
    ensures
        header_acceptable(state, header),
        header_plan(state, header) matches Ok((j, _, _)) && signature_ok == all_good(
            j.precommits.len(),
        ),
{
    let (j, finalized, entry) = header_plan(state, header)->Ok_0;
    lemma_valid_with_all_good(j, state.authorities_changes[entry].authorities, signature_ok);
}

/// An error among the first proofs is the error of all of them.
pub proof fn lemma_greatest_error_stays(
    para_id: u32,
    hs: Seq<RelayHeaderView>,
    finalized: Seq<H256>,
    entries: Seq<(H256, ParachainHeaderProofs)>,
    upto: int,
    n: int,
)
    requires
        upto <= n,
        greatest_number(para_id, hs, finalized, entries, upto) is Err,
    ensures
        greatest_number(para_id, hs, finalized, entries, n) == greatest_number(
            para_id,
            hs,
            finalized,
            entries,
            upto,
        ),
    decreases n - upto,
{
    if upto < n {
        lemma_greatest_error_stays(para_id, hs, finalized, entries, upto, n - 1);
    }
}

/// Settles what can be settled about an update before any signature is looked at.
pub fn plan_header(state: &ClientState, header: &Header) -> (r: Result<HeaderPlan, Error>)
    requires
        state@.wf(),
    ensures
        r matches Ok(plan) ==> header_plan(state@, *header) matches Ok((j, finalized, entry))
            && j == plan.justification@ && finalized == plan.finalized@ && 0 <= entry
            < state@.authorities_changes.len() && plan.set_id
            == state@.authorities_changes[entry].set_id && plan.authorities@
            == state@.authorities_changes[entry].authorities,
        r matches Err(e) ==> header_plan(state@, *header) == Err::<
            (JustificationView, Seq<H256>, int),
            Error,
        >(e),
{
    let ghost hs = headers_view(header.finality_proof.unknown_headers@);
    let headers = &header.finality_proof.unknown_headers;
    if state.frozen_height.is_some() {
        return Err(Error::FrozenClient);
    }
    if state.para_id as u64 != header.height.revision_number {
        return Err(Error::ParaIdMismatch);
    }
    if headers.len() > MAX_UNKNOWN_HEADERS || header.parachain_headers.len()
        > MAX_PARACHAIN_HEADERS {
        return Err(Error::InputTooLarge);
    }
    if !has_distinct_blocks(&header.parachain_headers) {
        return Err(Error::Decode);
    }
    let t = match target_position(headers) {
        Some(t) => t,
        None => { return Err(Error::MissingHeader); },
    };
    if !hash_eq(&headers[t].hash(), &header.finality_proof.block) {
        return Err(Error::InvalidAncestry);
    }
    let justification = match Justification::decode(header.finality_proof.justification.as_slice()) {
        Some(j) => j,
        None => { return Err(Error::InvalidJustification); },
    };
    if !hash_eq(&justification.target_hash, &header.finality_proof.block) {
        return Err(Error::InvalidJustification);
    }
    let chain = AncestryChain::new(headers);
    let b = match base_position(headers) {
        Some(b) => b,
        None => { return Err(Error::MissingHeader); },
    };
    if headers[b].number < state.latest_relay_height {
        if chain.ancestry(&headers[b].hash(), &state.latest_relay_hash).is_none() {
            return Err(Error::InvalidAncestry);
        }
    }
    let finalized = match chain.ancestry(&state.latest_relay_hash, &header.finality_proof.block) {
        Some(path) => path,
        None => { return Err(Error::InvalidAncestry); },
    };
    let height: u128 = state.latest_relay_height as u128 + finalized.len() as u128;
    if height > u32::MAX as u128 + 1 || finalized.len() == 0 {
        proof {
            crate::ancestry::lemma_walk_ends(
                hs,
                state.latest_relay_hash,
                header.finality_proof.block,
                hs.len(),
            );
        }
        return Err(Error::Overflow);
    }
    let (set_id, authorities) = state.get_authorities((height - 1) as u32);
    proof {
        crate::authorities::lemma_last_at_or_below_range(
            state@.authorities_changes,
            (height - 1) as u32,
        );
    }
    Ok(HeaderPlan { justification, finalized, set_id, authorities })
}

/// Checks the proof of one parachain header.
pub fn check_entry(
    chain: &AncestryChain,
    finalized: &Vec<H256>,
    entry: &(H256, ParachainHeaderProofs),
    para_id: u32,
) -> (r: Result<Option<u32>, Error>)
    ensures
        r == entry_number(para_id, chain@, finalized@, *entry),
{
    reveal(entry_number);
    if !path_contains(finalized, &entry.0) {
        return Ok(None);
    }
    let relay = match chain.header(&entry.0) {
        Some(h) => h,
        None => { return Err(Error::MissingHeader); },
    };
    if entry.1.state_proof.len() > MAX_TRIE_NODES || entry.1.extrinsic_proof.len()
        > MAX_TRIE_NODES {
        return Err(Error::InputTooLarge);
    }
    let key = parachain_header_storage_key(para_id);
    let value = match read_trie_proof(&relay.state_root, &entry.1.state_proof, key.as_slice()) {
        Some(Some(v)) => v,
        _ => { return Err(Error::InvalidStorageProof); },
    };
    let head = match decode_parachain_head(value.as_slice()) {
        Some(h) => h,
        None => { return Err(Error::Decode); },
    };
    let zero: [u8; 1] = [0u8];
    assert(zero@ =~= timestamp_extrinsic_key());
    if check_trie_proof(
        &head.extrinsics_root,
        &entry.1.extrinsic_proof,
        zero.as_slice(),
        entry.1.extrinsic.as_slice(),
    ) {
        Ok(Some(head.number))
    } else {
        Err(Error::InvalidStorageProof)
    }
}

/// Checks the proofs of the parachain headers of an update against the finalized path.
pub fn verify_parachain_headers(para_id: u32, header: &Header, finalized: &Vec<H256>) -> (r: Result<
    (),
    Error,
>)
    ensures
        r == parachain_verdict(para_id, *header, finalized@),
{
    let ghost hs = headers_view(header.finality_proof.unknown_headers@);
    let ghost entries = header.parachain_headers@;
    let chain = AncestryChain::new(&header.finality_proof.unknown_headers);
    let mut greatest: Option<u32> = None;
    let mut i: usize = 0;
    while i < header.parachain_headers.len()
        invariant
            i <= header.parachain_headers.len(),
            hs == headers_view(header.finality_proof.unknown_headers@),
            entries == header.parachain_headers@,
            chain@ == hs,
            greatest_number(para_id, hs, finalized@, entries, i as int) == Ok::<Option<u32>, Error>(
                greatest,
            ),
        decreases header.parachain_headers.len() - i,
    {
        match check_entry(&chain, finalized, &header.parachain_headers[i], para_id) {
            Ok(Some(n)) => {
                let keep: bool = match greatest {
                    Some(b) => b >= n,
                    None => false,
                };
                if !keep {
                    greatest = Some(n);
                }
            },
            Ok(None) => {},
            Err(e) => {
                proof {
                    assert(greatest_number(para_id, hs, finalized@, entries, i + 1) == Err::<
                        Option<u32>,
                        Error,
                    >(e));
                    lemma_greatest_error_stays(
                        para_id,
                        hs,
                        finalized@,
                        entries,
                        i + 1,
                        entries.len() as int,
                    );
                }
                return Err(e);
            },
        }
        i += 1;
    }
    match greatest {
        Some(n) => {
            if n as u64 != header.height.revision_height {
                Err(Error::HeightMismatch)
            } else {
                Ok(())
            }
        },
        None => Ok(()),
    }
}

/// Decides whether an update is accepted, given for each precommit of its justification
/// whether the signature is good.
pub fn verify_header_with(state: &ClientState, header: &Header, signature_ok: &Vec<bool>) -> (r:
    Result<(), Error>)
    requires
        state@.wf(),
    ensures
        r == header_verdict(state@, *header, signature_ok@),
{
    let plan = match plan_header(state, header) {
        Ok(p) => p,
        Err(e) => { return Err(e); },
    };
    match plan.justification.verify_with(&plan.authorities, signature_ok) {
        Ok(()) => {},
        Err(e) => { return Err(e); },
    }
    verify_parachain_headers(state.para_id, header, &plan.finalized)
}

} // verus!
