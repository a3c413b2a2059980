//! The light client: the operations that a host calls to verify messages, to update and
//! to freeze the client state, to upgrade it, and to verify what the parachain has
//! committed.
//!
//! An operation that needs the host asks it and hands the answers to a function that
//! decides. The contract of the operation says what holds whatever the host answered;
//! the contract of the deciding function is exact.

use crate::ancestry::index_of;
use crate::ancestry::AncestryChain;
use crate::client_message::ClientMessage;
use crate::client_message::Header;
use crate::client_message::Misbehaviour;
use crate::client_state::ClientState;
use crate::client_state::ClientStateView;
use crate::consensus_log::has_forced_change;
use crate::consensus_state::proved_state;
use crate::consensus_state::ConsensusState;
use crate::consensus_state::ParachainHeaderProofs;
use crate::context::AnyConsensusState;
use crate::context::ConnectionEnd;
use crate::context::ConsensusUpdateResult;
use crate::context::ReaderContext;
use crate::error::Error;
use crate::header::headers_view;
use crate::header::RelayHeader;
use crate::header::RelayHeaderView;
use crate::host::HostCapabilities;
use crate::membership::check_membership;
use crate::membership::delay_verdict;
use crate::membership::membership_verdict;
use crate::membership::slice_view;
use crate::membership::verify_delay_with;
use crate::misbehaviour::accusation_acceptable;
use crate::misbehaviour::candidate_sets;
use crate::misbehaviour::count_candidates;
use crate::misbehaviour::decode_equivocation;
use crate::misbehaviour::find_equivocation_paths;
use crate::misbehaviour::lemma_accepted_accusation;
use crate::misbehaviour::misbehaviour_justifications;
use crate::misbehaviour::misbehaviour_paths;
use crate::misbehaviour::misbehaviour_verdict;
use crate::misbehaviour::verify_misbehaviour_with;
use crate::paths::ack_path;
use crate::paths::acks_path;
use crate::paths::channel_end_path;
use crate::paths::channel_ends_path;
use crate::paths::client_consensus_state_path;
use crate::paths::client_state_path;
use crate::paths::client_states_path;
use crate::paths::commitment_path;
use crate::paths::commitments_path;
use crate::paths::connection_path;
use crate::paths::connections_path;
use crate::paths::consensus_state_path;
use crate::paths::receipt_path;
use crate::paths::receipts_path;
use crate::paths::seq_recv_path;
use crate::paths::seq_recvs_path;
use crate::paths::ChannelId;
use crate::paths::ClientId;
use crate::paths::ConnectionId;
use crate::paths::PortId;
use crate::primitives::hash_eq;
use crate::primitives::Height;
use crate::primitives::H256;
use crate::primitives::MAX_PARACHAIN_HEADERS;
use crate::primitives::MAX_UNKNOWN_HEADERS;
use crate::primitives::NANOS_PER_MILLI;
use crate::scale::le_bytes;
use crate::storage::encode_u64;
use crate::update::conclude_update;
use crate::update::conclusion;
use crate::update::derivation;
use crate::update::derive_states;
use crate::update::HeightAndState;
use crate::upgrade::merged;
use crate::upgrade::upgrade_verdict;
use crate::upgrade::upgrade_view;
use crate::upgrade::verify_upgrade_with;
use crate::verification::header_acceptable;
use crate::verification::header_plan;
use crate::verification::header_verdict;
use crate::verification::lemma_accepted_with_all_good;
use crate::verification::plan_header;
use crate::verification::verify_header_with;
use vstd::pervasive::unreached;
use vstd::prelude::*;

verus! {

/// The light client, with the capabilities of its host.
pub struct GrandpaClient<H: HostCapabilities> {
    pub host: H,
}

/// Whether a proof shows a value, or nothing, under a path, for a client state that
/// allows proofs at `height`.
pub open spec fn state_proof_verdict(
    state: ClientStateView,
    height: Height,
    prefix: Seq<u8>,
    proof: Seq<u8>,
    root: Seq<u8>,
    path: Seq<u8>,
    value: Option<Seq<u8>>,
) -> Result<(), Error> {
    match state.height_verdict(height) {
        Ok(()) => membership_verdict(prefix, proof, root, path, value),
        Err(e) => Err(e),
    }
}

/// As `state_proof_verdict`, for a proof that counts only once the delay of its
/// connection has passed; `delay` says whether it has.
pub open spec fn packet_proof_verdict(
    state: ClientStateView,
    height: Height,
    delay: Result<(), Error>,
    prefix: Seq<u8>,
    proof: Seq<u8>,
    root: Seq<u8>,
    path: Seq<u8>,
    value: Option<Seq<u8>>,
) -> Result<(), Error> {
    match state.height_verdict(height) {
        Ok(()) => match delay {
            Ok(()) => membership_verdict(prefix, proof, root, path, value),
            Err(e) => Err(e),
        },
        Err(e) => Err(e),
    }
}

/// Whether one of the headers announces a forced change of the authority set.
pub open spec fn any_forced_change(hs: Seq<RelayHeaderView>) -> bool {
    exists|i: int| 0 <= i < hs.len() && has_forced_change((#[trigger] hs[i]).digest)
}

/// What is evident from a message alone, whatever the host holds: an accusation is
/// evidence of misbehaviour, and so is an update with a header that announces a forced
/// change of the authority set. Of other updates nothing is evident.
pub open spec fn evident(message: ClientMessage) -> Option<bool> {
    match message {
        ClientMessage::Misbehaviour(_) => Some(true),
        ClientMessage::Header(header) => if any_forced_change(
            headers_view(header.finality_proof.unknown_headers@),
        ) {
            Some(true)
        } else {
            None
        },
    }
}

/// What the proof of one parachain header says about misbehaviour, given what the host
/// holds at the height of the header: the proof convicts where the host holds another
/// consensus state of this client than the one that the proof shows.
#[verifier::opaque]
pub open spec fn entry_conflict(
    para_id: u32,
    hs: Seq<RelayHeaderView>,
    entry: (H256, ParachainHeaderProofs),
    stored: Result<Option<AnyConsensusState>, Error>,
) -> Result<bool, Error> {
    if index_of(hs, entry.0) < 0 {
        Err(Error::MissingHeader)
    } else {
        match proved_state(entry.1, para_id, hs[index_of(hs, entry.0)].state_root) {
            Ok((_, derived)) => match stored {
                Ok(Some(AnyConsensusState::Grandpa(held))) => Ok(held != derived),
                Ok(Some(AnyConsensusState::Other)) => Err(Error::TypeMismatch),
                Ok(None) => Ok(false),
                Err(e) => Err(e),
            },
            Err(e) => Err(e),
        }
    }
}

/// Whether the proof of one parachain header may leave the host without evidence:
/// there is an answer of the host with which the proof does not convict.
pub open spec fn entry_clears(
    para_id: u32,
    hs: Seq<RelayHeaderView>,
    entry: (H256, ParachainHeaderProofs),
) -> bool {
    exists|stored: Result<Option<AnyConsensusState>, Error>|
        #[trigger] entry_conflict(para_id, hs, entry, stored) == Ok::<bool, Error>(false)
}

/// The answer of the host about the proof at position `i`; where it was not asked, that
/// it holds nothing.
pub open spec fn answer_at(stored: Seq<Result<Option<AnyConsensusState>, Error>>, i: int) -> Result<
    Option<AnyConsensusState>,
    Error,
> {
    if 0 <= i < stored.len() {
        stored[i]
    } else {
        Ok(None)
    }
}

/// What the proofs from position `from` on say about misbehaviour, given what the host
/// holds at the height of each: the first proof that convicts or fails decides, and
/// where none does there is no evidence.
pub open spec fn conflict_from(
    para_id: u32,
    hs: Seq<RelayHeaderView>,
    entries: Seq<(H256, ParachainHeaderProofs)>,
    stored: Seq<Result<Option<AnyConsensusState>, Error>>,
    from: int,
) -> Result<bool, Error>
    decreases entries.len() - from,
{
    if from < 0 || from >= entries.len() {
        Ok(false)
    } else {
        match entry_conflict(para_id, hs, entries[from], answer_at(stored, from)) {
            Ok(false) => conflict_from(para_id, hs, entries, stored, from + 1),
            decided => decided,
        }
    }
}

/// Whether a message is evidence of misbehaviour, given for each proof of a parachain
/// header what the host holds at its height. An accusation is evidence, and so is an
/// update with a header that announces a forced change of the authority set. Any other
/// update is evidence where one of its proofs shows another consensus state than the
/// one that the host holds at that height.
pub open spec fn evidence(
    para_id: u32,
    message: ClientMessage,
    stored: Seq<Result<Option<AnyConsensusState>, Error>>,
) -> Result<bool, Error> {
    match message {
        ClientMessage::Misbehaviour(_) => Ok(true),
        ClientMessage::Header(header) => {
            let hs = headers_view(header.finality_proof.unknown_headers@);
            if any_forced_change(hs) {
                Ok(true)
            } else if hs.len() > MAX_UNKNOWN_HEADERS || header.parachain_headers@.len()
                > MAX_PARACHAIN_HEADERS {
                Err(Error::InputTooLarge)
            } else {
                conflict_from(para_id, hs, header.parachain_headers@, stored, 0)
            }
        },
    }
}

/// Whether the first `upto` proofs leave the host without evidence under its answers.
pub open spec fn all_clear(
    para_id: u32,
    hs: Seq<RelayHeaderView>,
    entries: Seq<(H256, ParachainHeaderProofs)>,
    stored: Seq<Result<Option<AnyConsensusState>, Error>>,
    upto: int,
) -> bool {
    forall|k: int|
        0 <= k < upto ==> #[trigger] entry_conflict(para_id, hs, entries[k], answer_at(stored, k))
            == Ok::<bool, Error>(false)
}

/// Proofs that leave the host without evidence do not decide: what the proofs say is
/// what those behind them say.
pub proof fn lemma_clear_proofs_do_not_decide(
    para_id: u32,
    hs: Seq<RelayHeaderView>,
    entries: Seq<(H256, ParachainHeaderProofs)>,
    stored: Seq<Result<Option<AnyConsensusState>, Error>>,
    from: int,
    upto: int,
)
    requires
        0 <= from <= upto <= entries.len(),
        all_clear(para_id, hs, entries, stored, upto),
    ensures
        conflict_from(para_id, hs, entries, stored, from) == conflict_from(
            para_id,
            hs,
            entries,
            stored,
            upto,
        ),
    decreases upto - from,
{
    if from < upto {
        assert(entry_conflict(para_id, hs, entries[from], answer_at(stored, from)) == Ok::<
            bool,
            Error,
        >(false));
        lemma_clear_proofs_do_not_decide(para_id, hs, entries, stored, from + 1, upto);
    }
}

/// The outcome of the delay of a connection, given what the host answered: the time and
/// the height at which it took note of the consensus state, if it did, its own time and
/// height, and the number of blocks that the delay stands for.
pub open spec fn delay_outcome(
    delay_period: u64,
    now: u64,
    host_height: Height,
    processed_time: Result<u64, Error>,
    processed_height: Result<Height, Error>,
    delay_blocks: u64,
) -> Result<(), Error> {
    match processed_time {
        Ok(time) => match processed_height {
            Ok(height) => delay_verdict(now, host_height, time, height, delay_period, delay_blocks),
            Err(e) => Err(e),
        },
        Err(e) => Err(e),
    }
}

/// Whether two consensus states are the same.
pub fn same_state(a: &ConsensusState, b: &ConsensusState) -> (r: bool)
    ensures
        r == (*a == *b),
{
    a.timestamp == b.timestamp && hash_eq(&a.root, &b.root)
}

/// Whether one of the headers announces a forced change of the authority set.
pub fn find_any_forced_change(headers: &Vec<RelayHeader>) -> (r: bool)
    ensures
        r == any_forced_change(headers_view(headers@)),
{
    let ghost hs = headers_view(headers@);
    let mut i: usize = 0;
    while i < headers.len()
        invariant
            i <= headers.len(),
            hs == headers_view(headers@),
            forall|k: int| 0 <= k < i ==> !has_forced_change((#[trigger] hs[k]).digest),
        decreases headers.len() - i,
    {
        if headers[i].find_forced_change().is_some() {
            assert(has_forced_change(hs[i as int].digest));
            return true;
        }
        i += 1;
    }
    false
}

/// Decides what the proof of one parachain header says about misbehaviour, given the
/// consensus state that the proof shows and what the host holds at its height.
pub fn decide_conflict(derived: &ConsensusState, stored: Result<Option<AnyConsensusState>, Error>) -> (r:
    Result<bool, Error>)
    ensures
        r == (match stored {
            Ok(Some(AnyConsensusState::Grandpa(held))) => Ok::<bool, Error>(held != *derived),
            Ok(Some(AnyConsensusState::Other)) => Err(Error::TypeMismatch),
            Ok(None) => Ok(false),
            Err(e) => Err(e),
        }),
{
    match stored {
        Ok(Some(AnyConsensusState::Grandpa(held))) => Ok(!same_state(&held, derived)),
        Ok(Some(AnyConsensusState::Other)) => Err(Error::TypeMismatch),
        Ok(None) => Ok(false),
        Err(e) => Err(e),
    }
}

/// Decides whether a proof shows a value, or nothing, under a path, for a client state
/// that allows proofs at `height`.
pub fn verify_state_proof(
    state: &ClientState,
    height: Height,
    prefix: &[u8],
    proof: &[u8],
    root: &[u8],
    path: &[u8],
    value: Option<&[u8]>,
) -> (r: Result<(), Error>)
    ensures
        r == state_proof_verdict(state@, height, prefix@, proof@, root@, path@, slice_view(value)),
{
    match state.verify_height(height) {
        Ok(()) => check_membership(prefix, proof, root, path, value),
        Err(e) => Err(e),
    }
}

/// As `verify_state_proof`, for a proof that counts only once the delay of its
/// connection has passed; `delay` says whether it has.
pub fn verify_packet_proof(
    state: &ClientState,
    height: Height,
    delay: Result<(), Error>,
    prefix: &[u8],
    proof: &[u8],
    root: &[u8],
    path: &[u8],
    value: Option<&[u8]>,
) -> (r: Result<(), Error>)
    ensures
        r == packet_proof_verdict(
            state@,
            height,
            delay,
            prefix@,
            proof@,
            root@,
            path@,
            slice_view(value),
        ),
{
    match state.verify_height(height) {
        Ok(()) => match delay {
            Ok(()) => check_membership(prefix, proof, root, path, value),
            Err(e) => Err(e),
        },
        Err(e) => Err(e),
    }
}

/// Asks the host whether the delay of a connection has passed since it took note of the
/// consensus state at `height`. The host gives its time and height, the time and the
/// height of the note, and the number of blocks that the delay stands for; the answer is
/// as `delay_outcome` decides on that, for the delay period of the connection.
fn verify_delay_passed<Ctx: ReaderContext>(ctx: &Ctx, height: Height, connection_end: &ConnectionEnd) -> (r:
    Result<(), Error>)
    ensures
        exists|
            now: u64,
            host_height: Height,
            processed_time: Result<u64, Error>,
            processed_height: Result<Height, Error>,
            delay_blocks: u64,
        |
            r == #[trigger] delay_outcome(
                connection_end.delay_period,
                now,
                host_height,
                processed_time,
                processed_height,
                delay_blocks,
            ),
{
    let period = connection_end.delay_period;
    let now = ctx.host_timestamp();
    let host_height = ctx.host_height();
    let noted_time = ctx.client_update_time(&connection_end.client_id, height);
    let processed_time = match noted_time {
        Ok(t) => t,
        Err(e) => {
            assert(Err::<(), Error>(e) == delay_outcome(
                period,
                now,
                host_height,
                noted_time,
                Err(e),
                0,
            ));
            return Err(e);
        },
    };
    let noted_height = ctx.client_update_height(&connection_end.client_id, height);
    let processed_height = match noted_height {
        Ok(h) => h,
        Err(e) => {
            assert(Err::<(), Error>(e) == delay_outcome(
                period,
                now,
                host_height,
                noted_time,
                noted_height,
                0,
            ));
            return Err(e);
        },
    };
    let delay_blocks = ctx.block_delay(period);
    let r = verify_delay_with(now, host_height, processed_time, processed_height, period, delay_blocks);
    assert(r == delay_outcome(period, now, host_height, noted_time, noted_height, delay_blocks));
    r
}

/// Asks the host what it holds at the height of the consensus state that the proof of
/// one parachain header shows, and decides what the proof says about misbehaviour.
fn check_entry_conflict<Ctx: ReaderContext>(
    ctx: &Ctx,
    client_id: &ClientId,
    chain: &AncestryChain,
    entry: &(H256, ParachainHeaderProofs),
    para_id: u32,
) -> (r: Result<bool, Error>)
    ensures
        exists|stored: Result<Option<AnyConsensusState>, Error>|
            r == #[trigger] entry_conflict(para_id, chain@, *entry, stored),
{
    reveal(entry_conflict);
    let relay = match chain.header(&entry.0) {
        Some(h) => h,
        None => {
            assert(entry_conflict(para_id, chain@, *entry, Ok(None)) == Err::<bool, Error>(
                Error::MissingHeader,
            ));
            return Err(Error::MissingHeader);
        },
    };
    let (height, derived) = match ConsensusState::from_header(&entry.1, para_id, &relay.state_root) {
        Ok(x) => x,
        Err(e) => {
            assert(entry_conflict(para_id, chain@, *entry, Ok(None)) == Err::<bool, Error>(e));
            return Err(e);
        },
    };
    let stored = ctx.maybe_consensus_state(client_id, height);
    let r = decide_conflict(&derived, stored);
    assert(r == entry_conflict(para_id, chain@, *entry, stored));
    r
}

/// A result of `update_state` by what it holds.
pub open spec fn update_view(r: Result<(ClientState, ConsensusUpdateResult), Error>) -> Result<
    (ClientStateView, Seq<HeightAndState>),
    Error,
> {
    match r {
        Ok((state, ConsensusUpdateResult::Batch(states))) => Ok((state@, states@)),
        Ok((state, ConsensusUpdateResult::Single(_))) => Ok((state@, Seq::empty())),
        Err(e) => Err(e),
    }
}

/// Whether `result` is what an update concludes with some answers of the host: which
/// consensus states it holds already, and what time it is.
pub open spec fn concluded(
    state: ClientStateView,
    header: Header,
    finalized: Seq<H256>,
    derived: Seq<Option<HeightAndState>>,
    result: Result<(ClientStateView, Seq<HeightAndState>), Error>,
) -> bool {
    exists|stored: Seq<bool>, now: u64|
        result == #[trigger] conclusion(state, header, finalized, derived, stored, now)
}

impl<H: HostCapabilities> GrandpaClient<H> {
    /// A client with the capabilities of `host`.
    pub fn new(host: H) -> (client: Self)
        ensures
            client.host == host,
    {
        GrandpaClient { host }
    }

    /// Verifies an update. The host says which signatures of the justification are
    /// good; the update is accepted or refused as `header_verdict` decides on that.
    pub fn verify_header(&self, client_state: &ClientState, header: &Header) -> (r: Result<
        (),
        Error,
    >)
        requires
            client_state@.wf(),
        ensures
            exists|signature_ok: Seq<bool>|
                r == #[trigger] header_verdict(client_state@, *header, signature_ok),
            header_plan(client_state@, *header) matches Err(e) ==> r == Err::<(), Error>(e),
            client_state@.frozen_height is Some ==> r == Err::<(), Error>(Error::FrozenClient),
            r is Ok ==> header_acceptable(client_state@, *header),
    {
        let plan = match plan_header(client_state, header) {
            Ok(p) => p,
            Err(e) => {
                assert(header_verdict(client_state@, *header, Seq::<bool>::empty()) == Err::<
                    (),
                    Error,
                >(e));
                return Err(e);
            },
        };
        let signature_ok = plan.justification.check_signatures(&self.host, plan.set_id);
        let r = verify_header_with(client_state, header, &signature_ok);
        assert(r == header_verdict(client_state@, *header, signature_ok@));
        proof {
            if r is Ok {
                lemma_accepted_with_all_good(client_state@, *header, signature_ok@);
            }
        }
        r
    }

    /// Verifies an accusation of misbehaviour. The host says whether it knows the common
    /// parent of the two paths and which signatures are good; the accusation is accepted
    /// or refused as `misbehaviour_verdict` decides on that.
    pub fn verify_misbehaviour(&self, client_state: &ClientState, misbehaviour: &Misbehaviour) -> (r:
        Result<(), Error>)
        requires
            client_state@.wf(),
        ensures
            exists|known: bool, signature_ok: Seq<(Vec<bool>, Vec<bool>)>|
                r == #[trigger] misbehaviour_verdict(
                    client_state@,
                    *misbehaviour,
                    known,
                    signature_ok,
                ),
            misbehaviour_paths(*misbehaviour) matches Err(e) ==> r == Err::<(), Error>(e),
            r is Ok ==> misbehaviour_paths(*misbehaviour) is Ok && misbehaviour_justifications(
                *misbehaviour,
            ) is Ok,
            r is Ok ==> accusation_acceptable(client_state@, *misbehaviour),
    {
        let mut signature_ok: Vec<(Vec<bool>, Vec<bool>)> = Vec::new();
        let mut known: bool = false;
        match find_equivocation_paths(misbehaviour) {
            Ok(paths) => {
                known = self.host.contains_relay_header_hash(&paths.parent);
                if known {
                    match decode_equivocation(misbehaviour) {
                        Ok((j1, j2)) => {
                            let count = count_candidates(&paths);
                            let mut c: usize = 0;
                            while c < count
                                invariant
                                    client_state@.wf(),
                                    c <= count,
                                decreases count - c,
                            {
                                match candidate_sets(client_state, &paths, c) {
                                    Some((first, second)) => {
                                        let first_ok = j1.check_signatures(&self.host, first.0);
                                        let second_ok = j2.check_signatures(&self.host, second.0);
                                        signature_ok.push((first_ok, second_ok));
                                    },
                                    None => {
                                        signature_ok.push((Vec::new(), Vec::new()));
                                    },
                                }
                                c += 1;
                            }
                        },
                        Err(_) => {},
                    }
                }
            },
            Err(_) => {},
        }
        let r = verify_misbehaviour_with(client_state, misbehaviour, known, &signature_ok);
        proof {
            if r is Ok {
                lemma_accepted_accusation(client_state@, *misbehaviour, known, signature_ok@);
            }
        }
        r
    }

    /// Verifies a message to the client: an update or an accusation of misbehaviour.
    pub fn verify_client_message<Ctx: ReaderContext>(
        &self,
        _ctx: &Ctx,
        _client_id: &ClientId,
        client_state: &ClientState,
        client_message: &ClientMessage,
    ) -> (r: Result<(), Error>)
        requires
            client_state@.wf(),
        ensures
            match *client_message {
                ClientMessage::Header(header) => (exists|signature_ok: Seq<bool>|
                    r == #[trigger] header_verdict(client_state@, header, signature_ok)) && (r
                    is Ok ==> header_acceptable(client_state@, header)) && (
                client_state@.frozen_height is Some ==> r == Err::<(), Error>(Error::FrozenClient)),
                ClientMessage::Misbehaviour(misbehaviour) => (exists|
                    known: bool,
                    signature_ok: Seq<(Vec<bool>, Vec<bool>)>,
                |
                    r == #[trigger] misbehaviour_verdict(
                        client_state@,
                        misbehaviour,
                        known,
                        signature_ok,
                    )) && (r is Ok ==> accusation_acceptable(client_state@, misbehaviour)),
            },
    {
        match client_message {
            ClientMessage::Header(header) => self.verify_header(client_state, header),
            ClientMessage::Misbehaviour(misbehaviour) => self.verify_misbehaviour(
                client_state,
                misbehaviour,
            ),
        }
    }

    /// Advances the client by an update that was verified. A frozen client takes no
    /// update. The host says which of the
    /// consensus states of the update it holds already, and what time it is; the new
    /// client state and the consensus states to store are as `conclusion` decides on
    /// that. The blocks on the finalized path are handed to the host as known.
    ///
    /// The message must be an update: the host checks for misbehaviour before it calls
    /// this.
    pub fn update_state<Ctx: ReaderContext>(
        &mut self,
        ctx: &Ctx,
        client_id: &ClientId,
        client_state: &ClientState,
        client_message: &ClientMessage,
    ) -> (r: Result<(ClientState, ConsensusUpdateResult), Error>)
        requires
            *client_message is Header,
        ensures
            match derivation(client_state@, client_message->Header_0) {
                Ok((finalized, derived)) => concluded(
                    client_state@,
                    client_message->Header_0,
                    finalized,
                    derived,
                    update_view(r),
                ),
                Err(e) => r matches Err(x) && x == e,
            },
            client_state@.frozen_height is Some ==> (r matches Err(x) && x == Error::FrozenClient),
            r matches Ok((next, update)) ==> update is Batch && next@.frozen_height is None,
    {
        let header = match client_message {
            ClientMessage::Header(header) => header,
            ClientMessage::Misbehaviour(_) => unreached(),
        };
        assert(client_message->Header_0 == *header);
        let (finalized, derived) = match derive_states(client_state, header) {
            Ok(x) => x,
            Err(e) => { return Err(e); },
        };
        assert(derivation(client_state@, *header) == Ok::<
            (Seq<H256>, Seq<Option<HeightAndState>>),
            Error,
        >((finalized@, derived@)));
        let mut stored: Vec<bool> = Vec::new();
        let mut i: usize = 0;
        while i < derived.len()
            invariant
                i <= derived.len(),
            decreases derived.len() - i,
        {
            let held: bool = match derived[i] {
                Some((height, _)) => ctx.consensus_state(client_id, height).is_ok(),
                None => false,
            };
            stored.push(held);
            i += 1;
        }
        let now = ctx.host_timestamp();
        match conclude_update(client_state, header, &finalized, &derived, &stored, now) {
            Ok((next, states)) => {
                self.host.insert_relay_header_hashes(now / NANOS_PER_MILLI, &finalized);
                let r = Ok((next, ConsensusUpdateResult::Batch(states)));
                assert(update_view(r) == conclusion(
                    client_state@,
                    *header,
                    finalized@,
                    derived@,
                    stored@,
                    now,
                ));
                assert(concluded(client_state@, *header, finalized@, derived@, update_view(r)));
                r
            },
            Err(e) => {
                let r: Result<(ClientState, ConsensusUpdateResult), Error> = Err(e);
                assert(update_view(r) == conclusion(
                    client_state@,
                    *header,
                    finalized@,
                    derived@,
                    stored@,
                    now,
                ));
                assert(concluded(client_state@, *header, finalized@, derived@, update_view(r)));
                r
            },
        }
    }

    /// Freezes the client at its latest height.
    pub fn update_state_on_misbehaviour(
        &self,
        client_state: &ClientState,
        _client_message: &ClientMessage,
    ) -> (r: Result<ClientState, Error>)
        ensures
            r matches Ok(state) && state@ == client_state@.frozen(),
    {
        let mut next = client_state.duplicate();
        next.frozen_height = Some(client_state.latest_height());
        Ok(next)
    }

    /// Whether a message is evidence of misbehaviour: an accusation is, and so is an
    /// update with a header that announces a forced change of the authority set, or with
    /// a proof of a parachain header that contradicts a consensus state that the host
    /// holds. The host says what it holds at the height of each consensus state that a
    /// proof shows; the answer is as `evidence` decides on that. The proofs are taken in
    /// their order, and the first that convicts or fails decides.
    pub fn check_for_misbehaviour<Ctx: ReaderContext>(
        &self,
        ctx: &Ctx,
        client_id: &ClientId,
        client_state: &ClientState,
        client_message: &ClientMessage,
    ) -> (r: Result<bool, Error>)
        ensures
            exists|stored: Seq<Result<Option<AnyConsensusState>, Error>>|
                r == #[trigger] evidence(client_state.para_id, *client_message, stored),
            evident(*client_message) matches Some(verdict) ==> r == Ok::<bool, Error>(verdict),
            *client_message is Header && r == Ok::<bool, Error>(false) ==> forall|i: int|
                0 <= i < client_message->Header_0.parachain_headers@.len() ==> entry_clears(
                    client_state.para_id,
                    headers_view(client_message->Header_0.finality_proof.unknown_headers@),
                    #[trigger] client_message->Header_0.parachain_headers@[i],
                ),
    {
        let ghost none = Seq::<Result<Option<AnyConsensusState>, Error>>::empty();
        let header = match client_message {
            ClientMessage::Header(header) => header,
            ClientMessage::Misbehaviour(_) => {
                assert(evidence(client_state.para_id, *client_message, none) == Ok::<bool, Error>(
                    true,
                ));
                return Ok(true);
            },
        };
        assert(client_message->Header_0 == *header);
        if find_any_forced_change(&header.finality_proof.unknown_headers) {
            assert(evidence(client_state.para_id, *client_message, none) == Ok::<bool, Error>(true));
            return Ok(true);
        }
        if header.finality_proof.unknown_headers.len() > MAX_UNKNOWN_HEADERS
            || header.parachain_headers.len() > MAX_PARACHAIN_HEADERS {
            assert(evidence(client_state.para_id, *client_message, none) == Err::<bool, Error>(
                Error::InputTooLarge,
            ));
            return Err(Error::InputTooLarge);
        }
        let ghost hs = headers_view(header.finality_proof.unknown_headers@);
        let ghost entries = header.parachain_headers@;
        let ghost mut answers = none;
        let chain = AncestryChain::new(&header.finality_proof.unknown_headers);
        let mut i: usize = 0;
        while i < header.parachain_headers.len()
            invariant
                i <= header.parachain_headers.len(),
                client_message->Header_0 == *header,
                evident(*client_message) is None,
                hs == headers_view(header.finality_proof.unknown_headers@),
                entries == header.parachain_headers@,
                hs.len() <= MAX_UNKNOWN_HEADERS,
                entries.len() <= MAX_PARACHAIN_HEADERS,
                !any_forced_change(hs),
                chain@ == hs,
                answers.len() == i,
                all_clear(client_state.para_id, hs, entries, answers, i as int),
                forall|k: int|
                    0 <= k < i ==> entry_clears(client_state.para_id, hs, #[trigger] entries[k]),
            decreases header.parachain_headers.len() - i,
        {
            let r = check_entry_conflict(
                ctx,
                client_id,
                &chain,
                &header.parachain_headers[i],
                client_state.para_id,
            );
            let ghost answer = choose|stored: Result<Option<AnyConsensusState>, Error>|
                r == #[trigger] entry_conflict(client_state.para_id, hs, entries[i as int], stored);
            let ghost before = answers;
            proof {
                answers = before.push(answer);
                assert forall|k: int| 0 <= k < i implies #[trigger] entry_conflict(
                    client_state.para_id,
                    hs,
                    entries[k],
                    answer_at(answers, k),
                ) == Ok::<bool, Error>(false) by {
                    assert(answer_at(answers, k) == answer_at(before, k));
                }
                assert(answer_at(answers, i as int) == answer);
                lemma_clear_proofs_do_not_decide(
                    client_state.para_id,
                    hs,
                    entries,
                    answers,
                    0,
                    i as int,
                );
            }
            match r {
                Ok(false) => {},
                decided => {
                    assert(evidence(client_state.para_id, *client_message, answers) == decided);
                    return decided;
                },
            }
            i += 1;
        }
        proof {
            lemma_clear_proofs_do_not_decide(
                client_state.para_id,
                hs,
                entries,
                answers,
                0,
                entries.len() as int,
            );
            assert(evidence(client_state.para_id, *client_message, answers) == Ok::<bool, Error>(
                false,
            ));
        }
        Ok(false)
    }

    /// Verifies an upgrade of the client and gives the client state after it. The host
    /// says which consensus state it holds at the latest height of the old state, and
    /// under which encodings it commits the new states; the upgrade is accepted or
    /// refused as `upgrade_verdict` decides on that.
    pub fn verify_upgrade_and_update_state<Ctx: ReaderContext>(
        &self,
        ctx: &Ctx,
        client_id: &ClientId,
        old_client_state: &ClientState,
        upgrade_client_state: &ClientState,
        upgrade_consensus_state: &ConsensusState,
        proof_upgrade_client: &[u8],
        proof_upgrade_consensus_state: &[u8],
    ) -> (r: Result<(ClientState, ConsensusUpdateResult), Error>)
        ensures
            exists|
                stored: Result<AnyConsensusState, Error>,
                expected_client: Seq<u8>,
                expected_consensus: Seq<u8>,
            |
                upgrade_view(r) == #[trigger] upgrade_verdict(
                    old_client_state@,
                    upgrade_client_state@,
                    stored,
                    proof_upgrade_client@,
                    proof_upgrade_consensus_state@,
                    expected_client,
                    expected_consensus,
                ),
            upgrade_client_state@.latest_height().spec_le(old_client_state@.latest_height()) ==> (r
                matches Err(e) && e == Error::HeightRegression),
            r matches Ok((state, update)) ==> {
                &&& state@ == merged(old_client_state@, upgrade_client_state@)
                &&& update == ConsensusUpdateResult::Single(*upgrade_consensus_state)
                &&& old_client_state@.latest_height().spec_lt(state@.latest_height())
                &&& state@.frozen_height is None
            },
    {
        let stored = if upgrade_client_state.latest_height().le(
            &old_client_state.latest_height(),
        ) {
            Err(Error::HeightRegression)
        } else {
            ctx.consensus_state(client_id, old_client_state.latest_height())
        };
        let expected_client = ctx.encode_client_state(upgrade_client_state);
        let expected_consensus = ctx.encode_consensus_state(upgrade_consensus_state);
        let r = verify_upgrade_with(
            old_client_state,
            upgrade_client_state,
            upgrade_consensus_state,
            stored,
            proof_upgrade_client,
            proof_upgrade_consensus_state,
            expected_client.as_slice(),
            expected_consensus.as_slice(),
        );
        assert(upgrade_view(r) == upgrade_verdict(
            old_client_state@,
            upgrade_client_state@,
            stored,
            proof_upgrade_client@,
            proof_upgrade_consensus_state@,
            expected_client@,
            expected_consensus@,
        ));
        r
    }

    /// Replacing a client by a substitute is not provided.
    pub fn check_substitute_and_update_state<Ctx: ReaderContext>(
        &self,
        _ctx: &Ctx,
        _subject_client_id: &ClientId,
        _substitute_client_id: &ClientId,
        _old_client_state: &ClientState,
        _substitute_client_state: &ClientState,
    ) -> (r: Result<(ClientState, ConsensusUpdateResult), Error>)
        ensures
            r matches Err(e) && e == Error::Unimplemented,
    {
        Err(Error::Unimplemented)
    }

    /// Verifies that the parachain has committed a consensus state of a client.
    pub fn verify_client_consensus_state<Ctx: ReaderContext>(
        &self,
        _ctx: &Ctx,
        client_state: &ClientState,
        height: Height,
        prefix: &[u8],
        proof: &[u8],
        root: &[u8],
        client_id: &ClientId,
        consensus_height: Height,
        expected_consensus_state: &[u8],
    ) -> (r: Result<(), Error>)
        ensures
            r == state_proof_verdict(
                client_state@,
                height,
                prefix@,
                proof@,
                root@,
                consensus_state_path(
                    client_id.id@,
                    consensus_height.revision_number,
                    consensus_height.revision_height,
                ),
                Some(expected_consensus_state@),
            ),
    {
        let path = client_consensus_state_path(
            client_id,
            consensus_height.revision_number,
            consensus_height.revision_height,
        );
        verify_state_proof(
            client_state,
            height,
            prefix,
            proof,
            root,
            path.as_slice(),
            Some(expected_consensus_state),
        )
    }

    /// Verifies that the parachain has committed a connection end.
    pub fn verify_connection_state<Ctx: ReaderContext>(
        &self,
        _ctx: &Ctx,
        _client_id: &ClientId,
        client_state: &ClientState,
        height: Height,
        prefix: &[u8],
        proof: &[u8],
        root: &[u8],
        connection_id: &ConnectionId,
        expected_connection_end: &[u8],
    ) -> (r: Result<(), Error>)
        ensures
            r == state_proof_verdict(
                client_state@,
                height,
                prefix@,
                proof@,
                root@,
                connection_path(connection_id.id@),
                Some(expected_connection_end@),
            ),
    {
        let path = connections_path(connection_id);
        verify_state_proof(
            client_state,
            height,
            prefix,
            proof,
            root,
            path.as_slice(),
            Some(expected_connection_end),
        )
    }

    /// Verifies that the parachain has committed a channel end.
    pub fn verify_channel_state<Ctx: ReaderContext>(
        &self,
        _ctx: &Ctx,
        _client_id: &ClientId,
        client_state: &ClientState,
        height: Height,
        prefix: &[u8],
        proof: &[u8],
        root: &[u8],
        port_id: &PortId,
        channel_id: &ChannelId,
        expected_channel_end: &[u8],
    ) -> (r: Result<(), Error>)
        ensures
            r == state_proof_verdict(
                client_state@,
                height,
                prefix@,
                proof@,
                root@,
                channel_end_path(port_id.id@, channel_id.id@),
                Some(expected_channel_end@),
            ),
    {
        let path = channel_ends_path(port_id, channel_id);
        verify_state_proof(
            client_state,
            height,
            prefix,
            proof,
            root,
            path.as_slice(),
            Some(expected_channel_end),
        )
    }

    /// Verifies that the parachain has committed the state of a client.
    pub fn verify_client_full_state<Ctx: ReaderContext>(
        &self,
        _ctx: &Ctx,
        client_state: &ClientState,
        height: Height,
        prefix: &[u8],
        proof: &[u8],
        root: &[u8],
        client_id: &ClientId,
        expected_client_state: &[u8],
    ) -> (r: Result<(), Error>)
        ensures
            r == state_proof_verdict(
                client_state@,
                height,
                prefix@,
                proof@,
                root@,
                client_state_path(client_id.id@),
                Some(expected_client_state@),
            ),
    {
        let path = client_states_path(client_id);
        verify_state_proof(
            client_state,
            height,
            prefix,
            proof,
            root,
            path.as_slice(),
            Some(expected_client_state),
        )
    }

    /// Verifies that the parachain has committed a packet, once the delay of the
    /// connection has passed.
    pub fn verify_packet_data<Ctx: ReaderContext>(
        &self,
        ctx: &Ctx,
        _client_id: &ClientId,
        client_state: &ClientState,
        height: Height,
        connection_end: &ConnectionEnd,
        proof: &[u8],
        root: &[u8],
        port_id: &PortId,
        channel_id: &ChannelId,
        sequence: u64,
        commitment: &[u8],
    ) -> (r: Result<(), Error>)
        ensures
            exists|delay: Result<(), Error>|
                r == #[trigger] packet_proof_verdict(
                    client_state@,
                    height,
                    delay,
                    connection_end.counterparty_prefix@,
                    proof@,
                    root@,
                    commitment_path(port_id.id@, channel_id.id@, sequence),
                    Some(commitment@),
                ),
            r is Ok ==> state_proof_verdict(
                client_state@,
                height,
                connection_end.counterparty_prefix@,
                proof@,
                root@,
                commitment_path(port_id.id@, channel_id.id@, sequence),
                Some(commitment@),
            ) is Ok,
    {
        let delay = verify_delay_passed(ctx, height, connection_end);
        let path = commitments_path(port_id, channel_id, sequence);
        verify_packet_proof(
            client_state,
            height,
            delay,
            connection_end.counterparty_prefix.as_slice(),
            proof,
            root,
            path.as_slice(),
            Some(commitment),
        )
    }

    /// Verifies that the parachain has committed the acknowledgement of a packet, once
    /// the delay of the connection has passed.
    pub fn verify_packet_acknowledgement<Ctx: ReaderContext>(
        &self,
        ctx: &Ctx,
        _client_id: &ClientId,
        client_state: &ClientState,
        height: Height,
        connection_end: &ConnectionEnd,
        proof: &[u8],
        root: &[u8],
        port_id: &PortId,
        channel_id: &ChannelId,
        sequence: u64,
        ack: &[u8],
    ) -> (r: Result<(), Error>)
        ensures
            exists|delay: Result<(), Error>|
                r == #[trigger] packet_proof_verdict(
                    client_state@,
                    height,
                    delay,
                    connection_end.counterparty_prefix@,
                    proof@,
                    root@,
                    ack_path(port_id.id@, channel_id.id@, sequence),
                    Some(ack@),
                ),
            r is Ok ==> state_proof_verdict(
                client_state@,
                height,
                connection_end.counterparty_prefix@,
                proof@,
                root@,
                ack_path(port_id.id@, channel_id.id@, sequence),
                Some(ack@),
            ) is Ok,
    {
        let delay = verify_delay_passed(ctx, height, connection_end);
        let path = acks_path(port_id, channel_id, sequence);
        verify_packet_proof(
            client_state,
            height,
            delay,
            connection_end.counterparty_prefix.as_slice(),
            proof,
            root,
            path.as_slice(),
            Some(ack),
        )
    }

    /// Verifies that the parachain has committed `sequence` as the next sequence to
    /// receive on a channel, once the delay of the connection has passed.
    pub fn verify_next_sequence_recv<Ctx: ReaderContext>(
        &self,
        ctx: &Ctx,
        _client_id: &ClientId,
        client_state: &ClientState,
        height: Height,
        connection_end: &ConnectionEnd,
        proof: &[u8],
        root: &[u8],
        port_id: &PortId,
        channel_id: &ChannelId,
        sequence: u64,
    ) -> (r: Result<(), Error>)
        ensures
            exists|delay: Result<(), Error>|
                r == #[trigger] packet_proof_verdict(
                    client_state@,
                    height,
                    delay,
                    connection_end.counterparty_prefix@,
                    proof@,
                    root@,
                    seq_recv_path(port_id.id@, channel_id.id@),
                    Some(le_bytes(sequence as nat, 8)),
                ),
            r is Ok ==> state_proof_verdict(
                client_state@,
                height,
                connection_end.counterparty_prefix@,
                proof@,
                root@,
                seq_recv_path(port_id.id@, channel_id.id@),
                Some(le_bytes(sequence as nat, 8)),
            ) is Ok,
    {
        let delay = verify_delay_passed(ctx, height, connection_end);
        let path = seq_recvs_path(port_id, channel_id);
        let value = encode_u64(sequence);
        verify_packet_proof(
            client_state,
            height,
            delay,
            connection_end.counterparty_prefix.as_slice(),
            proof,
            root,
            path.as_slice(),
            Some(value.as_slice()),
        )
    }

    /// Verifies that the parachain has committed no receipt for a packet, once the delay
    /// of the connection has passed.
    pub fn verify_packet_receipt_absence<Ctx: ReaderContext>(
        &self,
        ctx: &Ctx,
        _client_id: &ClientId,
        client_state: &ClientState,
        height: Height,
        connection_end: &ConnectionEnd,
        proof: &[u8],
        root: &[u8],
        port_id: &PortId,
        channel_id: &ChannelId,
        sequence: u64,
    ) -> (r: Result<(), Error>)
        ensures
            exists|delay: Result<(), Error>|
                r == #[trigger] packet_proof_verdict(
                    client_state@,
                    height,
                    delay,
                    connection_end.counterparty_prefix@,
                    proof@,
                    root@,
                    receipt_path(port_id.id@, channel_id.id@, sequence),
                    None,
                ),
            r is Ok ==> state_proof_verdict(
                client_state@,
                height,
                connection_end.counterparty_prefix@,
                proof@,
                root@,
                receipt_path(port_id.id@, channel_id.id@, sequence),
                None,
            ) is Ok,
    {
        let delay = verify_delay_passed(ctx, height, connection_end);
        let path = receipts_path(port_id, channel_id, sequence);
        verify_packet_proof(
            client_state,
            height,
            delay,
            connection_end.counterparty_prefix.as_slice(),
            proof,
            root,
            path.as_slice(),
            None,
        )
    }
}

} // verus!
