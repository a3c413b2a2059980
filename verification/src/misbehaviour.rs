//! When two finality proofs convict the relay chain of equivocation: they are for
//! different blocks on two paths that leave a block known to the client and part on
//! their way up from it, and both justifications are valid. Two blocks on one chain
//! convict nobody.
//!
//! The numbers in the headers of such proofs cannot be trusted, so the heights of the two
//! targets are counted from the number of a base and the length of the paths. Where the
//! two bases carry different numbers, both numbers are tried.

use crate::ancestry::ancestry_of;
use crate::ancestry::base_position;
use crate::ancestry::first_min;
use crate::ancestry::last_max;
use crate::ancestry::target_position;
use crate::ancestry::AncestryChain;
use crate::authorities::resolve_index;
use crate::authorities::Authority;
use crate::client_message::FinalityProof;
use crate::client_message::Misbehaviour;
use crate::client_state::ClientState;
use crate::client_state::ClientStateView;
use crate::error::Error;
use crate::header::header_hash;
use crate::header::headers_view;
use crate::justification::all_good;
use crate::justification::justification_of;
use crate::justification::justification_valid;
use crate::justification::lemma_valid_with_all_good;
use crate::justification::Justification;
use crate::justification::JustificationView;
use crate::primitives::hash_eq;
use crate::primitives::H256;
use crate::primitives::MAX_UNKNOWN_HEADERS;
use vstd::prelude::*;

verus! {

/// The two paths of an accusation.
pub struct EquivocationPaths {
    /// The path of the first proof, from its target back to its base.
    pub first_finalized: Vec<H256>,
    /// The path of the second proof, from its target back to its base.
    pub second_finalized: Vec<H256>,
    /// The parent that the two bases share.
    pub parent: H256,
    pub first_base_number: u32,
    pub second_base_number: u32,
}

/// What `EquivocationPaths` holds.
pub struct EquivocationPathsView {
    pub first_finalized: Seq<H256>,
    pub second_finalized: Seq<H256>,
    pub parent: H256,
    pub first_base_number: u32,
    pub second_base_number: u32,
}

impl View for EquivocationPaths {
    type V = EquivocationPathsView;

    open spec fn view(&self) -> EquivocationPathsView {
        EquivocationPathsView {
            first_finalized: self.first_finalized@,
            second_finalized: self.second_finalized@,
            parent: self.parent,
            first_base_number: self.first_base_number,
            second_base_number: self.second_base_number,
        }
    }
}

/// Whether two paths part. A path runs from its target back to its base; counted from
/// the bases, the two differ at a step that both have. Where they do not, one path is
/// the lower part of the other, and both targets lie on one chain.
pub open spec fn diverges(a: Seq<H256>, b: Seq<H256>) -> bool {
    exists|i: int|
        0 <= i < a.len() && i < b.len() && #[trigger] a[a.len() - 1 - i] != b[b.len() - 1 - i]
}

/// The path of a finality proof from its target, the last header with the greatest
/// number, back to its base, the first header with the least number.
pub open spec fn proof_path(proof: FinalityProof) -> Option<Seq<H256>> {
    let hs = headers_view(proof.unknown_headers@);
    ancestry_of(hs, header_hash(hs[first_min(hs)]), header_hash(hs[last_max(hs)]))
}

/// The two paths of an accusation.
///
/// The proofs must be for different blocks and each must hold headers. The target of
/// each must be the block of its proof, and the two bases must have the same parent.
/// Then each target must descend from its base, and the two paths must part.
#[verifier::opaque]
pub open spec fn misbehaviour_paths(m: Misbehaviour) -> Result<EquivocationPathsView, Error> {
    let first = m.first_finality_proof;
    let second = m.second_finality_proof;
    let hs1 = headers_view(first.unknown_headers@);
    let hs2 = headers_view(second.unknown_headers@);
    if first.block == second.block {
        Err(Error::InvalidEquivocation)
    } else if hs1.len() == 0 || hs2.len() == 0 {
        Err(Error::InvalidEquivocation)
    } else if header_hash(hs1[last_max(hs1)]) != first.block || header_hash(hs2[last_max(hs2)])
        != second.block {
        Err(Error::InvalidEquivocation)
    } else if hs1[first_min(hs1)].parent_hash != hs2[first_min(hs2)].parent_hash {
        Err(Error::InvalidEquivocation)
    } else if hs1.len() > MAX_UNKNOWN_HEADERS || hs2.len() > MAX_UNKNOWN_HEADERS {
        Err(Error::InputTooLarge)
    } else {
        match (proof_path(first), proof_path(second)) {
            (Some(first_path), Some(second_path)) => if !diverges(first_path, second_path) {
                Err(Error::InvalidEquivocation)
            } else {
                Ok(
                    EquivocationPathsView {
                        first_finalized: first_path,
                        second_finalized: second_path,
                        parent: hs1[first_min(hs1)].parent_hash,
                        first_base_number: hs1[first_min(hs1)].number,
                        second_base_number: hs2[first_min(hs2)].number,
                    },
                )
            },
            _ => Err(Error::InvalidAncestry),
        }
    }
}

/// How many base numbers are tried: one where the two bases agree, else two.
pub open spec fn candidate_count(paths: EquivocationPathsView) -> int {
    if paths.first_base_number == paths.second_base_number {
        1
    } else {
        2
    }
}

/// The heights of the two targets as counted from the base number of candidate `c`, or
/// nothing where one of them does not fit a block number.
pub open spec fn candidate_heights(paths: EquivocationPathsView, c: int) -> Option<(u32, u32)> {
    let base = if c == 0 {
        paths.first_base_number
    } else {
        paths.second_base_number
    };
    let h1 = base + paths.first_finalized.len() - 1;
    let h2 = base + paths.second_finalized.len() - 1;
    if 0 <= h1 <= u32::MAX && 0 <= h2 <= u32::MAX {
        Some((h1 as u32, h2 as u32))
    } else {
        None
    }
}

/// Whether both justifications are valid under the authority sets in force at the
/// heights of candidate `c`, given whether their signatures are good.
#[verifier::opaque]
pub open spec fn candidate_valid(
    state: ClientStateView,
    paths: EquivocationPathsView,
    j1: JustificationView,
    j2: JustificationView,
    c: int,
    signature_ok: (Vec<bool>, Vec<bool>),
) -> bool {
    match candidate_heights(paths, c) {
        Some((h1, h2)) => justification_valid(
            j1,
            state.authorities_changes[resolve_index(state.authorities_changes, h1)].authorities,
            signature_ok.0@,
        ) && justification_valid(
            j2,
            state.authorities_changes[resolve_index(state.authorities_changes, h2)].authorities,
            signature_ok.1@,
        ),
        None => false,
    }
}

/// The two justifications of an accusation, each committing to the block of its proof.
#[verifier::opaque]
pub open spec fn misbehaviour_justifications(m: Misbehaviour) -> Result<
    (JustificationView, JustificationView),
    Error,
> {
    match (
        justification_of(m.first_finality_proof.justification@),
        justification_of(m.second_finality_proof.justification@),
    ) {
        (Some(j1), Some(j2)) => if j1.target_hash != m.first_finality_proof.block || j2.target_hash
            != m.second_finality_proof.block {
            Err(Error::InvalidJustification)
        } else {
            Ok((j1, j2))
        },
        _ => Err(Error::InvalidJustification),
    }
}

/// Whether both justifications are valid for one of the candidates.
pub open spec fn some_candidate_valid(
    state: ClientStateView,
    paths: EquivocationPathsView,
    j1: JustificationView,
    j2: JustificationView,
    signature_ok: Seq<(Vec<bool>, Vec<bool>)>,
) -> bool {
    exists|c: int|
        0 <= c < candidate_count(paths) && c < signature_ok.len() && #[trigger] candidate_valid(
            state,
            paths,
            j1,
            j2,
            c,
            signature_ok[c],
        )
}

/// Whether an accusation is accepted, given whether the host knows the common parent of
/// the two bases, and for each candidate whether the signatures of the two
/// justifications are good.
pub open spec fn misbehaviour_verdict(
    state: ClientStateView,
    m: Misbehaviour,
    ancestor_known: bool,
    signature_ok: Seq<(Vec<bool>, Vec<bool>)>,
) -> Result<(), Error> {
    match misbehaviour_paths(m) {
        Ok(paths) => if !ancestor_known {
            Err(Error::InvalidEquivocation)
        } else {
            match misbehaviour_justifications(m) {
                Ok((j1, j2)) => if some_candidate_valid(state, paths, j1, j2, signature_ok) {
                    Ok(())
                } else {
                    Err(Error::InvalidJustification)
                },
                Err(e) => Err(e),
            }
        },
        Err(e) => Err(e),
    }
}

/// Whether both justifications are valid under the authority sets in force at the
/// heights of candidate `c`, where every signature is good.
pub open spec fn candidate_acceptable(
    state: ClientStateView,
    paths: EquivocationPathsView,
    j1: JustificationView,
    j2: JustificationView,
    c: int,
) -> bool {
    match candidate_heights(paths, c) {
        Some((h1, h2)) => justification_valid(
            j1,
            state.authorities_changes[resolve_index(state.authorities_changes, h1)].authorities,
            all_good(j1.precommits.len()),
        ) && justification_valid(
            j2,
            state.authorities_changes[resolve_index(state.authorities_changes, h2)].authorities,
            all_good(j2.precommits.len()),
        ),
        None => false,
    }
}

/// Whether an accusation is acceptable: it is accepted where the host knows the common
/// parent and every signature of the two justifications is good.
pub open spec fn accusation_acceptable(state: ClientStateView, m: Misbehaviour) -> bool {
    match (misbehaviour_paths(m), misbehaviour_justifications(m)) {
        (Ok(paths), Ok((j1, j2))) => exists|c: int|
            0 <= c < candidate_count(paths) && #[trigger] candidate_acceptable(
                state,
                paths,
                j1,
                j2,
                c,
            ),
        _ => false,
    }
}

/// An accusation is accepted only where the host knows the common parent, and only
/// with every signature good.
pub proof fn lemma_accepted_accusation(
    state: ClientStateView,
    m: Misbehaviour,
    ancestor_known: bool,
    signature_ok: Seq<(Vec<bool>, Vec<bool>)>,
)
    requires
        misbehaviour_verdict(state, m, ancestor_known, signature_ok) == Ok::<(), Error>(()),
    ensures
        ancestor_known,
        accusation_acceptable(state, m),
{
    reveal(candidate_valid);
    let paths = misbehaviour_paths(m)->Ok_0;
    let (j1, j2) = misbehaviour_justifications(m)->Ok_0;
    let c = choose|c: int|
        0 <= c < candidate_count(paths) && c < signature_ok.len() && #[trigger] candidate_valid(
            state,
            paths,
            j1,
            j2,
            c,
            signature_ok[c],
        );
    let (h1, h2) = candidate_heights(paths, c)->Some_0;
    let ledger = state.authorities_changes;
    lemma_valid_with_all_good(j1, ledger[resolve_index(ledger, h1)].authorities, signature_ok[c].0@);
    lemma_valid_with_all_good(j2, ledger[resolve_index(ledger, h2)].authorities, signature_ok[c].1@);
    assert(candidate_acceptable(state, paths, j1, j2, c));
}

/// A result of `find_equivocation_paths` by what it holds.
pub open spec fn paths_view(r: Result<EquivocationPaths, Error>) -> Result<
    EquivocationPathsView,
    Error,
> {
    match r {
        Ok(p) => Ok(p@),
        Err(e) => Err(e),
    }
}

/// A result of `decode_equivocation` by what it holds.
pub open spec fn justifications_view(r: Result<(Justification, Justification), Error>) -> Result<
    (JustificationView, JustificationView),
    Error,
> {
    match r {
        Ok((j1, j2)) => Ok((j1@, j2@)),
        Err(e) => Err(e),
    }
}

/// Whether two paths part: counted from their bases, they differ at a step that both
/// have.
pub fn paths_diverge(a: &Vec<H256>, b: &Vec<H256>) -> (r: bool)
    ensures
        r == diverges(a@, b@),
{
    let mut i: usize = 0;
    while i < a.len() && i < b.len()
        invariant
            i <= a.len(),
            i <= b.len(),
            forall|k: int| 0 <= k < i ==> #[trigger] a@[a@.len() - 1 - k] == b@[b@.len() - 1 - k],
        decreases a.len() - i,
    {
        if !hash_eq(&a[a.len() - 1 - i], &b[b.len() - 1 - i]) {
            return true;
        }
        i += 1;
    }
    false
}

/// Finds the two paths of an accusation.
pub fn find_equivocation_paths(m: &Misbehaviour) -> (r: Result<EquivocationPaths, Error>)
    ensures
        paths_view(r) == misbehaviour_paths(*m),
{
    reveal(misbehaviour_paths);
    let first = &m.first_finality_proof;
    let second = &m.second_finality_proof;
    if hash_eq(&first.block, &second.block) {
        return Err(Error::InvalidEquivocation);
    }
    let (t1, t2) = match (
        target_position(&first.unknown_headers),
        target_position(&second.unknown_headers),
    ) {
        (Some(t1), Some(t2)) => (t1, t2),
        _ => { return Err(Error::InvalidEquivocation); },
    };
    let target1 = first.unknown_headers[t1].hash();
    let target2 = second.unknown_headers[t2].hash();
    if !hash_eq(&target1, &first.block) || !hash_eq(&target2, &second.block) {
        return Err(Error::InvalidEquivocation);
    }
    let (b1, b2) = match (
        base_position(&first.unknown_headers),
        base_position(&second.unknown_headers),
    ) {
        (Some(b1), Some(b2)) => (b1, b2),
        _ => { return Err(Error::InvalidEquivocation); },
    };
    let base1 = &first.unknown_headers[b1];
    let base2 = &second.unknown_headers[b2];
    if !hash_eq(&base1.parent_hash, &base2.parent_hash) {
        return Err(Error::InvalidEquivocation);
    }
    if first.unknown_headers.len() > MAX_UNKNOWN_HEADERS || second.unknown_headers.len()
        > MAX_UNKNOWN_HEADERS {
        return Err(Error::InputTooLarge);
    }
    let chain1 = AncestryChain::new(&first.unknown_headers);
    let chain2 = AncestryChain::new(&second.unknown_headers);
    let first_path = chain1.ancestry(&base1.hash(), &target1);
    let second_path = chain2.ancestry(&base2.hash(), &target2);
    let (first_path, second_path) = match (first_path, second_path) {
        (Some(first_path), Some(second_path)) => (first_path, second_path),
        _ => { return Err(Error::InvalidAncestry); },
    };
    if !paths_diverge(&first_path, &second_path) {
        return Err(Error::InvalidEquivocation);
    }
    Ok(
        EquivocationPaths {
            first_finalized: first_path,
            second_finalized: second_path,
            parent: base1.parent_hash,
            first_base_number: base1.number,
            second_base_number: base2.number,
        },
    )
}

/// Decodes the two justifications of an accusation.
pub fn decode_equivocation(m: &Misbehaviour) -> (r: Result<(Justification, Justification), Error>)
    ensures
        justifications_view(r) == misbehaviour_justifications(*m),
{
    reveal(misbehaviour_justifications);
    let j1 = Justification::decode(m.first_finality_proof.justification.as_slice());
    let j2 = Justification::decode(m.second_finality_proof.justification.as_slice());
    match (j1, j2) {
        (Some(j1), Some(j2)) => {
            if !hash_eq(&j1.target_hash, &m.first_finality_proof.block) || !hash_eq(
                &j2.target_hash,
                &m.second_finality_proof.block,
            ) {
                Err(Error::InvalidJustification)
            } else {
                Ok((j1, j2))
            }
        },
        _ => Err(Error::InvalidJustification),
    }
}

/// How many base numbers are tried.
pub fn count_candidates(paths: &EquivocationPaths) -> (n: usize)
    ensures
        n == candidate_count(paths@),
{
    if paths.first_base_number == paths.second_base_number {
        1
    } else {
        2
    }
}

/// The authority sets that must have signed the two justifications for candidate `c`:
/// each with its id.
pub fn candidate_sets(state: &ClientState, paths: &EquivocationPaths, c: usize) -> (r: Option<
    ((u64, Vec<Authority>), (u64, Vec<Authority>)),
>)
    requires
        state@.wf(),
    ensures
        r is Some == candidate_heights(paths@, c as int) is Some,
        r matches Some(sets) ==> {
            let h = candidate_heights(paths@, c as int).unwrap();
            let ledger = state@.authorities_changes;
            &&& sets.0.0 == ledger[resolve_index(ledger, h.0)].set_id
            &&& sets.0.1@ == ledger[resolve_index(ledger, h.0)].authorities
            &&& sets.1.0 == ledger[resolve_index(ledger, h.1)].set_id
            &&& sets.1.1@ == ledger[resolve_index(ledger, h.1)].authorities
        },
{
    let base: u32 = if c == 0 {
        paths.first_base_number
    } else {
        paths.second_base_number
    };
    let h1: u128 = base as u128 + paths.first_finalized.len() as u128;
    let h2: u128 = base as u128 + paths.second_finalized.len() as u128;
    if h1 == 0 || h2 == 0 || h1 > u32::MAX as u128 + 1 || h2 > u32::MAX as u128 + 1 {
        return None;
    }
    Some((state.get_authorities((h1 - 1) as u32), state.get_authorities((h2 - 1) as u32)))
}

/// Decides whether both justifications are valid for candidate `c`.
pub fn check_candidate(
    state: &ClientState,
    paths: &EquivocationPaths,
    j1: &Justification,
    j2: &Justification,
    c: usize,
    signature_ok: &(Vec<bool>, Vec<bool>),
) -> (r: bool)
    requires
        state@.wf(),
    ensures
        r == candidate_valid(state@, paths@, j1@, j2@, c as int, *signature_ok),
{
    reveal(candidate_valid);
    match candidate_sets(state, paths, c) {
        Some((first, second)) => j1.verify_with(&first.1, &signature_ok.0).is_ok()
            && j2.verify_with(&second.1, &signature_ok.1).is_ok(),
        None => false,
    }
}

/// Decides whether an accusation is accepted, given whether the host knows the common
/// parent of the two bases, and for each candidate whether the signatures of the two
/// justifications are good.
pub fn verify_misbehaviour_with(
    state: &ClientState,
    m: &Misbehaviour,
    ancestor_known: bool,
    signature_ok: &Vec<(Vec<bool>, Vec<bool>)>,
) -> (r: Result<(), Error>)
    requires
        state@.wf(),
    ensures
        r == misbehaviour_verdict(state@, *m, ancestor_known, signature_ok@),
{
    let paths = match find_equivocation_paths(m) {
        Ok(p) => p,
        Err(e) => { return Err(e); },
    };
    if !ancestor_known {
        return Err(Error::InvalidEquivocation);
    }
    let (j1, j2) = match decode_equivocation(m) {
        Ok(x) => x,
        Err(e) => { return Err(e); },
    };
    let count = count_candidates(&paths);
    let mut c: usize = 0;
    while c < count && c < signature_ok.len()
        invariant
            state@.wf(),
            c <= count,
            count == candidate_count(paths@),
            ancestor_known,
            misbehaviour_paths(*m) == Ok::<EquivocationPathsView, Error>(paths@),
            misbehaviour_justifications(*m) == Ok::<(JustificationView, JustificationView), Error>(
                (j1@, j2@),
            ),
            forall|k: int|
                0 <= k < c && k < signature_ok@.len() ==> !#[trigger] candidate_valid(
                    state@,
                    paths@,
                    j1@,
                    j2@,
                    k,
                    signature_ok@[k],
                ),
        decreases count - c,
    {
        if check_candidate(state, &paths, &j1, &j2, c, &signature_ok[c]) {
            proof {
                let w = c as int;
                assert(0 <= w < candidate_count(paths@) && w < signature_ok@.len()
                    && candidate_valid(state@, paths@, j1@, j2@, w, signature_ok@[w]));
                assert(some_candidate_valid(state@, paths@, j1@, j2@, signature_ok@));
            }
            return Ok(());
        }
        c += 1;
    }
    Err(Error::InvalidJustification)
}

} // verus!
