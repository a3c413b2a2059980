//! How a verified update advances the client: which consensus states the update
//! brings, and what the client state is afterwards.
//!
//! The work is in two steps. The first derives a consensus state from each proof of a
//! parachain header that belongs to a finalized relay-chain block. Between the steps the
//! host says which of their heights it already holds a consensus state for. The second
//! step drops those, checks that neither chain moves backwards, and advances the state.

use crate::ancestry::ancestry_of;
use crate::ancestry::index_of;
use crate::ancestry::path_contains;
use crate::ancestry::AncestryChain;
use crate::authorities::AuthoritiesChangeView;
use crate::client_message::Header;
use crate::client_state::insert_scheduled;
use crate::client_state::ledger_with_change;
use crate::client_state::ClientState;
use crate::client_state::ClientStateView;
use crate::consensus_log::scheduled_change_of;
use crate::consensus_state::proved_state;
use crate::consensus_state::ConsensusState;
use crate::consensus_state::ParachainHeaderProofs;
use crate::error::Error;
use crate::header::headers_view;
use crate::header::RelayHeaderView;
use crate::primitives::Height;
use crate::primitives::H256;
use crate::primitives::MAX_PARACHAIN_HEADERS;
use crate::primitives::MAX_UNKNOWN_HEADERS;
use vstd::prelude::*;

verus! {

/// A consensus state with its height.
pub type HeightAndState = (Height, ConsensusState);

/// What the proof of one parachain header brings: nothing where its relay-chain block is
/// not on the finalized path, else the consensus state that it proves under the state
/// root of that block.
#[verifier::opaque]
pub open spec fn entry_state(
    para_id: u32,
    hs: Seq<RelayHeaderView>,
    finalized: Seq<H256>,
    entry: (H256, ParachainHeaderProofs),
) -> Result<Option<HeightAndState>, Error> {
    if !finalized.contains(entry.0) {
        Ok(None)
    } else if index_of(hs, entry.0) < 0 {
        Err(Error::MissingHeader)
    } else {
        match proved_state(entry.1, para_id, hs[index_of(hs, entry.0)].state_root) {
            Ok(x) => Ok(Some(x)),
            Err(e) => Err(e),
        }
    }
}

/// What the first `upto` proofs bring, each in its place, or the first error.
pub open spec fn derived_states(
    para_id: u32,
    hs: Seq<RelayHeaderView>,
    finalized: Seq<H256>,
    entries: Seq<(H256, ParachainHeaderProofs)>,
    upto: int,
) -> Result<Seq<Option<HeightAndState>>, Error>
    decreases upto,
{
    if upto <= 0 {
        Ok(Seq::empty())
    } else {
        match derived_states(para_id, hs, finalized, entries, upto - 1) {
            Ok(before) => match entry_state(para_id, hs, finalized, entries[upto - 1]) {
                Ok(x) => Ok(before.push(x)),
                Err(e) => Err(e),
            },
            Err(e) => Err(e),
        }
    }
}

/// The finalized path of an update and what its proofs bring. A frozen client takes no
/// update.
pub open spec fn derivation(state: ClientStateView, header: Header) -> Result<
    (Seq<H256>, Seq<Option<HeightAndState>>),
    Error,
> {
    let hs = headers_view(header.finality_proof.unknown_headers@);
    if state.frozen_height is Some {
        Err(Error::FrozenClient)
    } else if hs.len() > MAX_UNKNOWN_HEADERS || header.parachain_headers@.len()
        > MAX_PARACHAIN_HEADERS {
        Err(Error::InputTooLarge)
    } else {
        match ancestry_of(hs, state.latest_relay_hash, header.finality_proof.block) {
            Some(finalized) => match derived_states(
                state.para_id,
                hs,
                finalized,
                header.parachain_headers@,
                header.parachain_headers@.len() as int,
            ) {
                Ok(derived) => Ok((finalized, derived)),
                Err(e) => Err(e),
            },
            None => Err(Error::InvalidAncestry),
        }
    }
}

/// Whether the host already holds a consensus state for the proof at position `i`.
pub open spec fn is_stored(stored: Seq<bool>, i: int) -> bool {
    0 <= i < stored.len() && stored[i]
}

/// The consensus states among the first `upto` that the host does not hold yet, in
/// their order.
pub open spec fn new_states(derived: Seq<Option<HeightAndState>>, stored: Seq<bool>, upto: int) -> Seq<
    HeightAndState,
>
    decreases upto,
{
    if upto <= 0 {
        Seq::empty()
    } else {
        let before = new_states(derived, stored, upto - 1);
        match derived[upto - 1] {
            Some(x) => if is_stored(stored, upto - 1) {
                before
            } else {
                before.push(x)
            },
            None => before,
        }
    }
}

/// Whether one of the states lies at or below the parachain height `latest`.
pub open spec fn rewinds(states: Seq<HeightAndState>, latest: u32) -> bool {
    exists|i: int| 0 <= i < states.len() && (#[trigger] states[i]).0.revision_height <= latest
}

/// The greatest parachain height among the states, or 0 for none.
pub open spec fn highest(states: Seq<HeightAndState>) -> u64
    decreases states.len(),
{
    if states.len() == 0 {
        0
    } else {
        let before = highest(states.drop_last());
        if states.last().0.revision_height > before {
            states.last().0.revision_height
        } else {
            before
        }
    }
}

/// The ledger after an update whose target block is `target`.
pub open spec fn ledger_after(
    ledger: Seq<AuthoritiesChangeView>,
    target: RelayHeaderView,
    now: u64,
) -> Result<Seq<AuthoritiesChangeView>, Error> {
    match scheduled_change_of(target.digest) {
        Some(change) => ledger_with_change(
            ledger,
            target.number,
            change.delay,
            change.next_authorities,
            now,
        ),
        None => Ok(ledger),
    }
}

/// The client state after an update and the consensus states that the update adds.
///
/// A frozen client takes no update: only an upgrade leads on from it. The target block must be among the headers, its number must be the latest relay
/// height plus the length of the path between them, and it must lie above the latest
/// relay height. No new consensus state may lie at or below the latest parachain
/// height. Then the client stands at the target block and at the highest new parachain
/// height, and a change of authorities that the target schedules is in the ledger.
pub open spec fn conclusion(
    state: ClientStateView,
    header: Header,
    finalized: Seq<H256>,
    derived: Seq<Option<HeightAndState>>,
    stored: Seq<bool>,
    now: u64,
) -> Result<(ClientStateView, Seq<HeightAndState>), Error> {
    let hs = headers_view(header.finality_proof.unknown_headers@);
    let t = index_of(hs, header.finality_proof.block);
    let states = new_states(derived, stored, derived.len() as int);
    if state.frozen_height is Some {
        Err(Error::FrozenClient)
    } else if t < 0 {
        Err(Error::MissingHeader)
    } else if state.latest_relay_height + finalized.len() - 1 != hs[t].number {
        Err(Error::HeightMismatch)
    } else if hs[t].number <= state.latest_relay_height {
        Err(Error::HeightRegression)
    } else if rewinds(states, state.latest_para_height) {
        Err(Error::HeightRegression)
    } else if highest(states) > u32::MAX {
        Err(Error::Overflow)
    } else {
        match ledger_after(state.authorities_changes, hs[t], now) {
            Ok(ledger) => Ok(
                (
                    ClientStateView {
                        latest_relay_hash: header.finality_proof.block,
                        latest_relay_height: hs[t].number,
                        latest_para_height: if states.len() > 0 {
                            highest(states) as u32
                        } else {
                            state.latest_para_height
                        },
                        authorities_changes: ledger,
                        ..state
                    },
                    states,
                ),
            ),
            Err(e) => Err(e),
        }
    }
}

/// The states by what they hold, for comparing results.
pub open spec fn derivation_view(r: Result<(Vec<H256>, Vec<Option<HeightAndState>>), Error>) -> Result<
    (Seq<H256>, Seq<Option<HeightAndState>>),
    Error,
> {
    match r {
        Ok((finalized, derived)) => Ok((finalized@, derived@)),
        Err(e) => Err(e),
    }
}

/// A result of `conclude_update` by what it holds.
pub open spec fn conclusion_view(r: Result<(ClientState, Vec<HeightAndState>), Error>) -> Result<
    (ClientStateView, Seq<HeightAndState>),
    Error,
> {
    match r {
        Ok((state, states)) => Ok((state@, states@)),
        Err(e) => Err(e),
    }
}

/// Where no state rewinds, the highest of them lies above the latest height.
pub proof fn lemma_highest_above(states: Seq<HeightAndState>, latest: u32)
    requires
        states.len() > 0,
        !rewinds(states, latest),
    ensures
        highest(states) > latest,
        exists|i: int| 0 <= i < states.len() && (#[trigger] states[i]).0.revision_height == highest(states),
    decreases states.len(),
{
    let front = states.drop_last();
    assert(states[states.len() - 1].0.revision_height > latest);
    if front.len() > 0 {
        assert forall|i: int| 0 <= i < front.len() implies (#[trigger] front[i]).0.revision_height
            > latest by {
            assert(front[i] == states[i]);
        }
        lemma_highest_above(front, latest);
        let w = choose|i: int|
            0 <= i < front.len() && (#[trigger] front[i]).0.revision_height == highest(front);
        assert(states[w] == front[w]);
    }
}

/// A further state rewinds the list if it lies at or below the latest height itself.
pub proof fn lemma_rewinds_push(before: Seq<HeightAndState>, x: HeightAndState, latest: u32)
    ensures
        rewinds(before.push(x), latest) == (rewinds(before, latest) || x.0.revision_height
            <= latest),
{
    let after = before.push(x);
    if rewinds(before, latest) {
        let w = choose|w: int|
            0 <= w < before.len() && (#[trigger] before[w]).0.revision_height <= latest;
        assert(after[w] == before[w]);
    }
    if x.0.revision_height <= latest {
        assert(after[after.len() - 1] == x);
    }
    if rewinds(after, latest) {
        let w = choose|w: int|
            0 <= w < after.len() && (#[trigger] after[w]).0.revision_height <= latest;
        if w < before.len() {
            assert(before[w] == after[w]);
        }
    }
}

/// An error among the first proofs is the error of all of them.
pub proof fn lemma_derived_error_stays(
    para_id: u32,
    hs: Seq<RelayHeaderView>,
    finalized: Seq<H256>,
    entries: Seq<(H256, ParachainHeaderProofs)>,
    upto: int,
    n: int,
)
    requires
        upto <= n,
        derived_states(para_id, hs, finalized, entries, upto) is Err,
    ensures
        derived_states(para_id, hs, finalized, entries, n) == derived_states(
            para_id,
            hs,
            finalized,
            entries,
            upto,
        ),
    decreases n - upto,
{
    if upto < n {
        lemma_derived_error_stays(para_id, hs, finalized, entries, upto, n - 1);
    }
}

/// Derives what the proof of one parachain header brings.
pub fn derive_entry(
    chain: &AncestryChain,
    finalized: &Vec<H256>,
    entry: &(H256, ParachainHeaderProofs),
    para_id: u32,
) -> (r: Result<Option<HeightAndState>, Error>)
    ensures
        r == entry_state(para_id, chain@, finalized@, *entry),
{
    reveal(entry_state);
    if !path_contains(finalized, &entry.0) {
        return Ok(None);
    }
    let relay = match chain.header(&entry.0) {
        Some(h) => h,
        None => { return Err(Error::MissingHeader); },
    };
    match ConsensusState::from_header(&entry.1, para_id, &relay.state_root) {
        Ok(x) => Ok(Some(x)),
        Err(e) => Err(e),
    }
}

/// Derives the finalized path of an update and the consensus state of each proof of a
/// parachain header that belongs to a relay-chain block on the path.
pub fn derive_states(state: &ClientState, header: &Header) -> (r: Result<
    (Vec<H256>, Vec<Option<HeightAndState>>),
    Error,
>)
    ensures
        derivation_view(r) == derivation(state@, *header),
{
    let ghost hs = headers_view(header.finality_proof.unknown_headers@);
    let ghost entries = header.parachain_headers@;
    if state.frozen_height.is_some() {
        return Err(Error::FrozenClient);
    }
    if header.finality_proof.unknown_headers.len() > MAX_UNKNOWN_HEADERS
        || header.parachain_headers.len() > MAX_PARACHAIN_HEADERS {
        return Err(Error::InputTooLarge);
    }
    let chain = AncestryChain::new(&header.finality_proof.unknown_headers);
    let finalized = match chain.ancestry(&state.latest_relay_hash, &header.finality_proof.block) {
        Some(path) => path,
        None => { return Err(Error::InvalidAncestry); },
    };
    let mut derived: Vec<Option<HeightAndState>> = Vec::new();
    let mut i: usize = 0;
    while i < header.parachain_headers.len()
        invariant
            i <= header.parachain_headers.len(),
            hs == headers_view(header.finality_proof.unknown_headers@),
            entries == header.parachain_headers@,
            state@.frozen_height is None,
            hs.len() <= MAX_UNKNOWN_HEADERS,
            entries.len() <= MAX_PARACHAIN_HEADERS,
            chain@ == hs,
            ancestry_of(hs, state.latest_relay_hash, header.finality_proof.block) == Some(
                finalized@,
            ),
            derived_states(state.para_id, hs, finalized@, entries, i as int) == Ok::<
                Seq<Option<HeightAndState>>,
                Error,
            >(derived@),
        decreases header.parachain_headers.len() - i,
    {
        match derive_entry(&chain, &finalized, &header.parachain_headers[i], state.para_id) {
            Ok(x) => {
                derived.push(x);
            },
            Err(e) => {
                proof {
                    assert(derived_states(state.para_id, hs, finalized@, entries, i + 1) == Err::<
                        Seq<Option<HeightAndState>>,
                        Error,
                    >(e));
                    lemma_derived_error_stays(
                        state.para_id,
                        hs,
                        finalized@,
                        entries,
                        i + 1,
                        entries.len() as int,
                    );
                }
                return Err(e);
            },
        }
        i += 1;
    }
    Ok((finalized, derived))
}

/// Advances the client state by an update, given what its proofs bring and which of
/// their heights the host already holds a consensus state for. A state that the host
/// holds is not brought again.
pub fn conclude_update(
    state: &ClientState,
    header: &Header,
    finalized: &Vec<H256>,
    derived: &Vec<Option<HeightAndState>>,
    stored: &Vec<bool>,
    now: u64,
) -> (r: Result<(ClientState, Vec<HeightAndState>), Error>)
    ensures
        conclusion_view(r) == conclusion(state@, *header, finalized@, derived@, stored@, now),
{
    let ghost hs = headers_view(header.finality_proof.unknown_headers@);
    if state.frozen_height.is_some() {
        return Err(Error::FrozenClient);
    }
    let chain = AncestryChain::new(&header.finality_proof.unknown_headers);
    let target = match chain.header(&header.finality_proof.block) {
        Some(h) => h,
        None => { return Err(Error::MissingHeader); },
    };
    let expected: u128 = state.latest_relay_height as u128 + finalized.len() as u128;
    if expected != target.number as u128 + 1 {
        return Err(Error::HeightMismatch);
    }
    if target.number <= state.latest_relay_height {
        return Err(Error::HeightRegression);
    }
    let mut states: Vec<HeightAndState> = Vec::new();
    let mut top: u64 = 0;
    let mut rewind: bool = false;
    let mut i: usize = 0;
    while i < derived.len()
        invariant
            i <= derived.len(),
            states@ == new_states(derived@, stored@, i as int),
            top == highest(states@),
            rewind == rewinds(states@, state.latest_para_height),
        decreases derived.len() - i,
    {
        match derived[i] {
            Some(x) => {
                let held: bool = i < stored.len() && stored[i];
                if !held {
                    let ghost before = states@;
                    states.push(x);
                    proof {
                        assert(states@.drop_last() =~= before);
                        lemma_rewinds_push(before, x, state.latest_para_height);
                    }
                    if x.0.revision_height > top {
                        top = x.0.revision_height;
                    }
                    if x.0.revision_height <= state.latest_para_height as u64 {
                        rewind = true;
                    }
                }
            },
            None => {},
        }
        i += 1;
    }
    if rewind {
        return Err(Error::HeightRegression);
    }
    if top > u32::MAX as u64 {
        return Err(Error::Overflow);
    }
    let ledger = match target.find_scheduled_change() {
        Some(change) => {
            match insert_scheduled(
                &state.authorities_changes,
                target.number,
                change.delay,
                change.next_authorities,
                now,
            ) {
                Ok(l) => Some(l),
                Err(e) => { return Err(e); },
            }
        },
        None => None,
    };
    let mut next = state.duplicate();
    next.latest_relay_hash = header.finality_proof.block;
    next.latest_relay_height = target.number;
    if states.len() > 0 {
        next.latest_para_height = top as u32;
    }
    match ledger {
        Some(l) => {
            next.authorities_changes = l;
        },
        None => {},
    }
    Ok((next, states))
}

} // verus!
