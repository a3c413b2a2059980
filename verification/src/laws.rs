//! Laws of the light client, each proved from the definitions that the contracts of the
//! operations use.

use crate::ancestry::first_min;
use crate::ancestry::last_max;
use crate::authorities::lemma_with_scheduled_keeps_ledger;
use crate::authorities::lemma_with_scheduled_strict;
use crate::authorities::sorted_by_height;
use crate::authorities::strictly_increasing;
use crate::authorities::AuthoritiesChangeView;
use crate::authorities::Authority;
use crate::authorities::AUTHORITIES_CHANGE_ITEM_MIN_COUNT;
use crate::client_def::any_forced_change;
use crate::client_def::evidence;
use crate::client_def::evident;
use crate::client_def::packet_proof_verdict;
use crate::client_def::state_proof_verdict;
use crate::client_message::ClientMessage;
use crate::client_message::FinalityProof;
use crate::client_message::Header;
use crate::client_message::Misbehaviour;
use crate::client_state::ledger_with_change;
use crate::client_state::ClientStateView;
use crate::context::AnyConsensusState;
use crate::error::Error;
use crate::header::header_hash;
use crate::header::headers_view;
use crate::justification::justification_of;
use crate::justification::JustificationView;
use crate::misbehaviour::candidate_count;
use crate::misbehaviour::candidate_valid;
use crate::misbehaviour::diverges;
use crate::misbehaviour::misbehaviour_justifications;
use crate::misbehaviour::misbehaviour_paths;
use crate::misbehaviour::misbehaviour_verdict;
use crate::misbehaviour::proof_path;
use crate::misbehaviour::some_candidate_valid;
use crate::primitives::Height;
use crate::primitives::H256;
use crate::primitives::MAX_UNKNOWN_HEADERS;
use crate::update::conclusion;
use crate::update::derivation;
use crate::update::highest;
use crate::update::is_stored;
use crate::update::lemma_highest_above;
use crate::update::new_states;
use crate::update::HeightAndState;
use crate::upgrade::upgrade_verdict;
use crate::verification::header_verdict;
use vstd::prelude::*;

verus! {

/// No rewind: an update that succeeds moves the client to a higher relay-chain block,
/// never lowers its parachain height, and raises its parachain height where it brings
/// a new consensus state.
pub proof fn law_no_rewind(
    state: ClientStateView,
    header: Header,
    finalized: Seq<H256>,
    derived: Seq<Option<HeightAndState>>,
    stored: Seq<bool>,
    now: u64,
)
    requires
        conclusion(state, header, finalized, derived, stored, now) is Ok,
    ensures
        ({
            let (next, states) = conclusion(state, header, finalized, derived, stored, now)->Ok_0;
            &&& next.latest_relay_height > state.latest_relay_height
            &&& next.latest_para_height >= state.latest_para_height
            &&& states.len() > 0 ==> next.latest_para_height > state.latest_para_height
            &&& forall|i: int|
                0 <= i < states.len() ==> state.latest_para_height < (#[trigger] states[i]).0.revision_height
                    <= next.latest_para_height
        }),
{
    let states = new_states(derived, stored, derived.len() as int);
    if states.len() > 0 {
        lemma_highest_above(states, state.latest_para_height);
        lemma_highest_bounds(states);
    }
}

/// No state lies above the highest.
pub proof fn lemma_highest_bounds(states: Seq<HeightAndState>)
    ensures
        forall|i: int| 0 <= i < states.len() ==> (#[trigger] states[i]).0.revision_height <= highest(states),
    decreases states.len(),
{
    if states.len() > 0 {
        let front = states.drop_last();
        lemma_highest_bounds(front);
        assert forall|i: int| 0 <= i < states.len() implies (#[trigger] states[i]).0.revision_height
            <= highest(states) by {
            if i < front.len() {
                assert(front[i] == states[i]);
            }
        }
    }
}

/// Idempotent duplicates: a proof whose consensus state the host holds already adds no
/// consensus state, and every consensus state that an update adds is one that the host
/// did not hold.
pub proof fn law_duplicates_add_nothing(derived: Seq<Option<HeightAndState>>, stored: Seq<bool>, upto: int)
    requires
        0 <= upto <= derived.len(),
    ensures
        forall|i: int|
            0 <= i < upto && is_stored(stored, i) ==> #[trigger] new_states(derived, stored, i + 1)
                == new_states(derived, stored, i),
        forall|k: int|
            0 <= k < new_states(derived, stored, upto).len() ==> brought_by(
                derived,
                stored,
                upto,
                #[trigger] new_states(derived, stored, upto)[k],
            ),
        (forall|i: int| 0 <= i < upto && derived[i] is Some ==> is_stored(stored, i)) ==> new_states(
            derived,
            stored,
            upto,
        ).len() == 0,
    decreases upto,
{
    if upto > 0 {
        law_duplicates_add_nothing(derived, stored, upto - 1);
        let before = new_states(derived, stored, upto - 1);
        let after = new_states(derived, stored, upto);
        assert forall|k: int| 0 <= k < after.len() implies brought_by(
            derived,
            stored,
            upto,
            #[trigger] after[k],
        ) by {
            if k < before.len() {
                assert(brought_by(derived, stored, upto - 1, before[k]));
                let i = choose|i: int|
                    0 <= i < upto - 1 && !is_stored(stored, i) && #[trigger] derived[i] == Some(
                        before[k],
                    );
                assert(derived[i] == Some(after[k]));
            } else {
                assert(derived[upto - 1] == Some(after[k]));
            }
        }
    }
}

/// Whether `x` is the consensus state of one of the first `upto` proofs, and the host
/// does not hold a consensus state for that proof.
pub open spec fn brought_by(
    derived: Seq<Option<HeightAndState>>,
    stored: Seq<bool>,
    upto: int,
    x: HeightAndState,
) -> bool {
    exists|i: int| 0 <= i < upto && !is_stored(stored, i) && #[trigger] derived[i] == Some(x)
}

/// Frozen absorption: once a client is frozen, no proof is accepted at or above the
/// height at which it was frozen, whatever the proof, and whether or not a delay has
/// passed.
pub proof fn law_frozen_absorbs(
    state: ClientStateView,
    height: Height,
    delay: Result<(), Error>,
    prefix: Seq<u8>,
    proof: Seq<u8>,
    root: Seq<u8>,
    path: Seq<u8>,
    value: Option<Seq<u8>>,
)
    requires
        state.frozen().frozen_height->Some_0.spec_le(height),
    ensures
        state.frozen().height_verdict(height) is Err,
        state_proof_verdict(state.frozen(), height, prefix, proof, root, path, value) is Err,
        packet_proof_verdict(state.frozen(), height, delay, prefix, proof, root, path, value) is Err,
{
}

/// Only an upgrade unfreezes: a frozen client refuses every update, when the update is
/// verified and when it is applied, whatever the host answers. So the client that an
/// update gives was not frozen, and is not. That an upgrade gives a client that is not
/// frozen is `law_upgrade_round_trip`.
pub proof fn law_only_upgrade_unfreezes(
    state: ClientStateView,
    header: Header,
    signature_ok: Seq<bool>,
    finalized: Seq<H256>,
    derived: Seq<Option<HeightAndState>>,
    stored: Seq<bool>,
    now: u64,
)
    ensures
        state.frozen_height is Some ==> {
            &&& header_verdict(state, header, signature_ok) == Err::<(), Error>(Error::FrozenClient)
            &&& derivation(state, header) == Err::<(Seq<H256>, Seq<Option<HeightAndState>>), Error>(
                Error::FrozenClient,
            )
            &&& conclusion(state, header, finalized, derived, stored, now) == Err::<
                (ClientStateView, Seq<HeightAndState>),
                Error,
            >(Error::FrozenClient)
        },
        conclusion(state, header, finalized, derived, stored, now) matches Ok((next, _)) ==> {
            &&& state.frozen_height is None
            &&& next.frozen_height is None
        },
{
}

/// Authority retention: entering a scheduled change keeps the ledger ordered by height,
/// and keeps at least the required number of entries, or all of them and the new one
/// while there are fewer.
pub proof fn law_authority_retention(
    ledger: Seq<AuthoritiesChangeView>,
    target_number: u32,
    delay: u32,
    next_authorities: Seq<Authority>,
    now: u64,
)
    requires
        ledger.len() >= 1,
        sorted_by_height(ledger),
        ledger_with_change(ledger, target_number, delay, next_authorities, now) is Ok,
    ensures
        ({
            let after = ledger_with_change(ledger, target_number, delay, next_authorities, now)->Ok_0;
            &&& sorted_by_height(after)
            &&& after.len() >= 1
            &&& after.len() >= AUTHORITIES_CHANGE_ITEM_MIN_COUNT || after.len() == ledger.len() + 1
        }),
{
    let entry = AuthoritiesChangeView {
        height: (target_number + delay + 1) as u32,
        timestamp: now,
        set_id: (ledger.last().set_id + 1) as u64,
        authorities: next_authorities,
    };
    lemma_with_scheduled_keeps_ledger(ledger, entry, now);
}

/// Authority retention, strictly: where heights and set ids grow strictly along the
/// ledger and the scheduled change takes effect above the last entry, they still grow
/// strictly afterwards, and the new entry is the last one.
pub proof fn law_authority_retention_strict(
    ledger: Seq<AuthoritiesChangeView>,
    target_number: u32,
    delay: u32,
    next_authorities: Seq<Authority>,
    now: u64,
)
    requires
        ledger.len() >= 1,
        strictly_increasing(ledger),
        target_number + delay + 1 > ledger.last().height,
        ledger_with_change(ledger, target_number, delay, next_authorities, now) is Ok,
    ensures
        ({
            let after = ledger_with_change(ledger, target_number, delay, next_authorities, now)->Ok_0;
            &&& strictly_increasing(after)
            &&& after.last().height == target_number + delay + 1
            &&& after.last().set_id == ledger.last().set_id + 1
        }),
{
    let entry = AuthoritiesChangeView {
        height: (target_number + delay + 1) as u32,
        timestamp: now,
        set_id: (ledger.last().set_id + 1) as u64,
        authorities: next_authorities,
    };
    lemma_with_scheduled_strict(ledger, entry, now);
}

/// Equivocation symmetry: what is evident from an accusation does not depend on the
/// order of its two finality proofs.
pub proof fn law_equivocation_symmetry(a: FinalityProof, b: FinalityProof)
    ensures
        evident(
            ClientMessage::Misbehaviour(
                Misbehaviour { first_finality_proof: a, second_finality_proof: b },
            ),
        ) == evident(
            ClientMessage::Misbehaviour(
                Misbehaviour { first_finality_proof: b, second_finality_proof: a },
            ),
        ),
        evident(
            ClientMessage::Misbehaviour(
                Misbehaviour { first_finality_proof: a, second_finality_proof: b },
            ),
        ) == Some(true),
{
}

/// The answers of the host about the signatures of an accusation, for the accusation
/// with its two proofs exchanged: the candidates in the other order, and in each the two
/// justifications exchanged.
pub open spec fn mirrored(signature_ok: Seq<(Vec<bool>, Vec<bool>)>) -> Seq<(Vec<bool>, Vec<bool>)> {
    Seq::new(
        signature_ok.len(),
        |c: int| (signature_ok[signature_ok.len() - 1 - c].1, signature_ok[signature_ok.len() - 1 - c].0),
    )
}

/// Whether two paths part does not depend on their order.
pub proof fn lemma_diverges_symmetric(a: Seq<H256>, b: Seq<H256>)
    ensures
        diverges(a, b) == diverges(b, a),
{
    if diverges(a, b) {
        let i = choose|i: int|
            0 <= i < a.len() && i < b.len() && #[trigger] a[a.len() - 1 - i] != b[b.len() - 1 - i];
        assert(b[b.len() - 1 - i] != a[a.len() - 1 - i]);
    }
    if diverges(b, a) {
        let i = choose|i: int|
            0 <= i < b.len() && i < a.len() && #[trigger] b[b.len() - 1 - i] != a[a.len() - 1 - i];
        assert(a[a.len() - 1 - i] != b[b.len() - 1 - i]);
    }
}

/// The verdict on an accusation does not depend on the order of its two proofs: with
/// the proofs exchanged it is accepted or refused alike, and with the same error, where
/// the host answers the same about the parent and about each signature. The host has
/// answered for each candidate.
pub proof fn law_accusation_symmetry(
    state: ClientStateView,
    a: FinalityProof,
    b: FinalityProof,
    ancestor_known: bool,
    signature_ok: Seq<(Vec<bool>, Vec<bool>)>,
)
    requires
        misbehaviour_paths(
            Misbehaviour { first_finality_proof: a, second_finality_proof: b },
        ) matches Ok(paths) ==> signature_ok.len() == candidate_count(paths),
    ensures
        misbehaviour_verdict(
            state,
            Misbehaviour { first_finality_proof: a, second_finality_proof: b },
            ancestor_known,
            signature_ok,
        ) == misbehaviour_verdict(
            state,
            Misbehaviour { first_finality_proof: b, second_finality_proof: a },
            ancestor_known,
            mirrored(signature_ok),
        ),
{
    reveal(misbehaviour_paths);
    reveal(misbehaviour_justifications);
    reveal(candidate_valid);
    let m = Misbehaviour { first_finality_proof: a, second_finality_proof: b };
    let w = Misbehaviour { first_finality_proof: b, second_finality_proof: a };
    let back = mirrored(signature_ok);
    if let (Some(first_path), Some(second_path)) = (proof_path(a), proof_path(b)) {
        lemma_diverges_symmetric(first_path, second_path);
    }
    if let Ok(p) = misbehaviour_paths(m) {
        let q = misbehaviour_paths(w)->Ok_0;
        assert(q.first_finalized == p.second_finalized && q.second_finalized == p.first_finalized);
        assert(q.first_base_number == p.second_base_number && q.second_base_number
            == p.first_base_number);
        let count = candidate_count(p);
        assert(candidate_count(q) == count);
        if let Ok((j1, j2)) = misbehaviour_justifications(m) {
            assert(misbehaviour_justifications(w) == Ok::<
                (JustificationView, JustificationView),
                Error,
            >((j2, j1)));
            if some_candidate_valid(state, p, j1, j2, signature_ok) {
                let c = choose|c: int|
                    0 <= c < candidate_count(p) && c < signature_ok.len()
                        && #[trigger] candidate_valid(state, p, j1, j2, c, signature_ok[c]);
                let d = count - 1 - c;
                assert(back[d] == (signature_ok[c].1, signature_ok[c].0));
                assert(candidate_valid(state, q, j2, j1, d, back[d]));
            }
            if some_candidate_valid(state, q, j2, j1, back) {
                let d = choose|d: int|
                    0 <= d < candidate_count(q) && d < back.len() && #[trigger] candidate_valid(
                        state,
                        q,
                        j2,
                        j1,
                        d,
                        back[d],
                    );
                let c = count - 1 - d;
                assert(back[d] == (signature_ok[c].1, signature_ok[c].0));
                assert(candidate_valid(state, p, j1, j2, c, signature_ok[c]));
            }
        }
    }
}

/// Two blocks on one chain convict nobody: where the path of one proof is the lower
/// part of the path of the other, the accusation is refused as no equivocation,
/// whatever the justifications hold and whatever the host answers.
pub proof fn law_one_chain_convicts_nobody(
    state: ClientStateView,
    m: Misbehaviour,
    ancestor_known: bool,
    signature_ok: Seq<(Vec<bool>, Vec<bool>)>,
)
    requires
        m.first_finality_proof.unknown_headers@.len() <= MAX_UNKNOWN_HEADERS,
        m.second_finality_proof.unknown_headers@.len() <= MAX_UNKNOWN_HEADERS,
        proof_path(m.first_finality_proof) is Some,
        proof_path(m.second_finality_proof) is Some,
        ({
            let lower = proof_path(m.first_finality_proof)->Some_0;
            let whole = proof_path(m.second_finality_proof)->Some_0;
            lower.len() <= whole.len() && lower == whole.subrange(
                whole.len() - lower.len(),
                whole.len() as int,
            )
        }),
    ensures
        misbehaviour_verdict(state, m, ancestor_known, signature_ok) == Err::<(), Error>(
            Error::InvalidEquivocation,
        ),
        misbehaviour_verdict(
            state,
            Misbehaviour {
                first_finality_proof: m.second_finality_proof,
                second_finality_proof: m.first_finality_proof,
            },
            ancestor_known,
            signature_ok,
        ) == Err::<(), Error>(Error::InvalidEquivocation),
{
    reveal(misbehaviour_paths);
    let lower = proof_path(m.first_finality_proof)->Some_0;
    let whole = proof_path(m.second_finality_proof)->Some_0;
    assert forall|i: int| 0 <= i < lower.len() && i < whole.len() implies #[trigger] lower[lower.len()
        - 1 - i] == whole[whole.len() - 1 - i] by {
        let k = lower.len() - 1 - i;
        assert(lower[k] == whole.subrange(whole.len() - lower.len(), whole.len() as int)[k]);
    }
    assert(!diverges(lower, whole));
    lemma_diverges_symmetric(lower, whole);
}

/// A valid accusation is accepted: two proofs for different blocks, each with headers
/// that lead from its base up to its block, the bases with one parent that the host
/// knows, the paths parting, and both justifications committing to their blocks and
/// valid under the authority sets of one candidate.
pub proof fn law_valid_accusation_is_accepted(
    state: ClientStateView,
    m: Misbehaviour,
    signature_ok: Seq<(Vec<bool>, Vec<bool>)>,
    c: int,
)
    requires
        m.first_finality_proof.block != m.second_finality_proof.block,
        ({
            let first = m.first_finality_proof;
            let second = m.second_finality_proof;
            let hs1 = headers_view(first.unknown_headers@);
            let hs2 = headers_view(second.unknown_headers@);
            &&& 0 < hs1.len() <= MAX_UNKNOWN_HEADERS
            &&& 0 < hs2.len() <= MAX_UNKNOWN_HEADERS
            &&& header_hash(hs1[last_max(hs1)]) == first.block
            &&& header_hash(hs2[last_max(hs2)]) == second.block
            &&& hs1[first_min(hs1)].parent_hash == hs2[first_min(hs2)].parent_hash
            &&& proof_path(first) is Some
            &&& proof_path(second) is Some
            &&& diverges(proof_path(first)->Some_0, proof_path(second)->Some_0)
            &&& justification_of(first.justification@) is Some
            &&& justification_of(second.justification@) is Some
            &&& justification_of(first.justification@)->Some_0.target_hash == first.block
            &&& justification_of(second.justification@)->Some_0.target_hash == second.block
        }),
        0 <= c < candidate_count(misbehaviour_paths(m)->Ok_0),
        c < signature_ok.len(),
        candidate_valid(
            state,
            misbehaviour_paths(m)->Ok_0,
            justification_of(m.first_finality_proof.justification@)->Some_0,
            justification_of(m.second_finality_proof.justification@)->Some_0,
            c,
            signature_ok[c],
        ),
    ensures
        misbehaviour_paths(m) is Ok,
        misbehaviour_verdict(state, m, true, signature_ok) == Ok::<(), Error>(()),
{
    reveal(misbehaviour_paths);
    reveal(misbehaviour_justifications);
}

/// A forced change is reported, not refused: an update with a header that announces a
/// forced change of the authority set is evidence of misbehaviour, whatever the host
/// holds and whether or not the update verifies.
pub proof fn law_forced_change_is_evidence(
    para_id: u32,
    header: Header,
    stored: Seq<Result<Option<AnyConsensusState>, Error>>,
)
    requires
        any_forced_change(headers_view(header.finality_proof.unknown_headers@)),
    ensures
        evidence(para_id, ClientMessage::Header(header), stored) == Ok::<bool, Error>(true),
{
}

/// Round trip on upgrade: an upgrade that succeeds gives a client that stands above the
/// latest height of the old one and is not frozen.
pub proof fn law_upgrade_round_trip(
    old: ClientStateView,
    upgrade: ClientStateView,
    stored: Result<AnyConsensusState, Error>,
    proof_upgrade_client: Seq<u8>,
    proof_upgrade_consensus_state: Seq<u8>,
    expected_client_state: Seq<u8>,
    expected_consensus_state: Seq<u8>,
)
    requires
        upgrade_verdict(
            old,
            upgrade,
            stored,
            proof_upgrade_client,
            proof_upgrade_consensus_state,
            expected_client_state,
            expected_consensus_state,
        ) is Ok,
    ensures
        ({
            let next = upgrade_verdict(
                old,
                upgrade,
                stored,
                proof_upgrade_client,
                proof_upgrade_consensus_state,
                expected_client_state,
                expected_consensus_state,
            )->Ok_0;
            &&& old.latest_height().spec_lt(next.latest_height())
            &&& next.frozen_height is None
        }),
{
}

} // verus!
