use ed25519_consensus::SigningKey;
use ed25519_consensus::VerificationKey;
use ics10_grandpa::authorities::AuthoritiesChange;
use ics10_grandpa::authorities::Authority;
use ics10_grandpa::client_def::GrandpaClient;
use ics10_grandpa::client_message::ClientMessage;
use ics10_grandpa::client_message::FinalityProof;
use ics10_grandpa::client_message::Header;
use ics10_grandpa::client_message::Misbehaviour;
use ics10_grandpa::client_state::ClientState;
use ics10_grandpa::client_state::RelayChain;
use ics10_grandpa::consensus_state::ConsensusState;
use ics10_grandpa::consensus_state::ParachainHeaderProofs;
use ics10_grandpa::context::AnyConsensusState;
use ics10_grandpa::context::ConnectionEnd;
use ics10_grandpa::context::ConsensusUpdateResult;
use ics10_grandpa::context::ReaderContext;
use ics10_grandpa::error::Error;
use ics10_grandpa::header::RelayHeader;
use ics10_grandpa::host::HostCapabilities;
use ics10_grandpa::justification::Justification;
use ics10_grandpa::justification::SignedPrecommit;
use ics10_grandpa::misbehaviour::find_equivocation_paths;
use ics10_grandpa::misbehaviour::verify_misbehaviour_with;
use ics10_grandpa::paths::ChannelId;
use ics10_grandpa::paths::ClientId;
use ics10_grandpa::paths::ConnectionId;
use ics10_grandpa::paths::PortId;
use ics10_grandpa::primitives::Height;
use ics10_grandpa::primitives::H256;
use ics10_grandpa::storage::client_state_upgrade_key;
use ics10_grandpa::storage::consensus_state_upgrade_key;
use ics10_grandpa::storage::parachain_header_storage_key;
use ics10_grandpa::update::conclude_update;
use ics10_grandpa::update::derive_states;
use ics10_grandpa::verification::plan_header;
use ics10_grandpa::verification::verify_header_with;
use parity_scale_codec::Compact;
use parity_scale_codec::Encode;
use std::collections::HashMap;
use std::collections::HashSet;

type Layout = sp_trie::LayoutV0<sp_core::Blake2Hasher>;

const PARA: u32 = 2000;
const ROUND: u64 = 3;
const NOW: u64 = 1_700_000_000_000_000_000;

#[derive(Default)]
struct Host {
    known: HashSet<H256>,
    inserted_at: Vec<u64>,
}

impl HostCapabilities for Host {
    fn ed25519_verify(&self, signature: &[u8; 64], message: &[u8], public_key: &[u8; 32]) -> bool {
        match VerificationKey::try_from(*public_key) {
            Ok(key) => key.verify(&ed25519_consensus::Signature::from(*signature), message).is_ok(),
            Err(_) => false,
        }
    }

    fn contains_relay_header_hash(&self, hash: &H256) -> bool {
        self.known.contains(hash)
    }

    fn insert_relay_header_hashes(&mut self, now_ms: u64, hashes: &Vec<H256>) {
        self.inserted_at.push(now_ms);
        self.known.extend(hashes.iter().copied());
    }
}

#[derive(Default)]
struct Ctx {
    states: HashMap<(u64, u64), AnyConsensusState>,
    now: u64,
    height: u64,
    update_time: u64,
    update_height: u64,
}

impl ReaderContext for Ctx {
    fn host_timestamp(&self) -> u64 {
        self.now
    }

    fn host_height(&self) -> Height {
        Height { revision_number: 0, revision_height: self.height }
    }

    fn consensus_state(&self, _client_id: &ClientId, height: Height) -> Result<AnyConsensusState, Error> {
        self.states
            .get(&(height.revision_number, height.revision_height))
            .copied()
            .ok_or(Error::ConsensusStateNotFound)
    }

    fn maybe_consensus_state(
        &self,
        _client_id: &ClientId,
        height: Height,
    ) -> Result<Option<AnyConsensusState>, Error> {
        Ok(self.states.get(&(height.revision_number, height.revision_height)).copied())
    }

    fn client_update_time(&self, _client_id: &ClientId, _height: Height) -> Result<u64, Error> {
        Ok(self.update_time)
    }

    fn client_update_height(&self, _client_id: &ClientId, _height: Height) -> Result<Height, Error> {
        Ok(Height { revision_number: 0, revision_height: self.update_height })
    }

    fn block_delay(&self, delay_period: u64) -> u64 {
        delay_period / 6_000_000_000
    }

    fn encode_client_state(&self, state: &ClientState) -> Vec<u8> {
        let mut out = b"client:".to_vec();
        out.extend(state.latest_relay_height.encode());
        out.extend(state.latest_para_height.encode());
        out.extend(state.para_id.encode());
        out
    }

    fn encode_consensus_state(&self, state: &ConsensusState) -> Vec<u8> {
        let mut out = b"consensus:".to_vec();
        out.extend(state.timestamp.encode());
        out.extend_from_slice(&state.root);
        out
    }
}

fn ctx() -> Ctx {
    Ctx { now: NOW, height: 500, ..Default::default() }
}

fn client_id() -> ClientId {
    ClientId { id: b"10-grandpa-0".to_vec() }
}

fn key(seed: u8) -> SigningKey {
    SigningKey::from([seed; 32])
}

fn authorities(seeds: &[u8]) -> Vec<Authority> {
    seeds.iter().map(|s| Authority { key: key(*s).verification_key().to_bytes(), weight: 1 }).collect()
}

fn trie(data: &[(Vec<u8>, Vec<u8>)]) -> (sp_trie::MemoryDB<sp_core::Blake2Hasher>, H256) {
    let mut db = sp_trie::MemoryDB::<sp_core::Blake2Hasher>::default();
    let mut root = sp_core::H256::default();
    {
        let mut t = sp_trie::TrieDBMutBuilder::<Layout>::new(&mut db, &mut root).build();
        for (k, v) in data {
            sp_trie::TrieMut::insert(&mut t, k, v).unwrap();
        }
    }
    (db, root.0)
}

fn nodes(mut db: sp_trie::MemoryDB<sp_core::Blake2Hasher>) -> Vec<Vec<u8>> {
    db.drain().into_iter().map(|(_, (node, _))| node).collect()
}

fn digest(items: &[Vec<u8>]) -> Vec<u8> {
    let mut out = Compact(items.len() as u32).encode();
    for item in items {
        out.extend_from_slice(item);
    }
    out
}

fn grandpa_item(payload: &[u8]) -> Vec<u8> {
    let mut out = vec![4u8];
    out.extend_from_slice(b"FRNK");
    out.extend(payload.to_vec().encode());
    out
}

fn scheduled_item(next: &[Authority], delay: u32) -> Vec<u8> {
    let list: Vec<([u8; 32], u64)> = next.iter().map(|a| (a.key, a.weight)).collect();
    grandpa_item(&(1u8, list, delay).encode())
}

fn forced_item(next: &[Authority], delay: u32) -> Vec<u8> {
    let list: Vec<([u8; 32], u64)> = next.iter().map(|a| (a.key, a.weight)).collect();
    grandpa_item(&(2u8, 0u32, list, delay).encode())
}

fn timestamp_extrinsic(ms: u64) -> Vec<u8> {
    let mut out = vec![0x28u8, 0x04, 0x03, 0x00];
    out.extend(Compact(ms).encode());
    out
}

/// A parachain block at `number`: its header, and the proofs of the header under the
/// state root that is returned with them.
fn parachain_block(number: u32, ms: u64) -> (RelayHeader, ParachainHeaderProofs, H256) {
    let extrinsic = timestamp_extrinsic(ms);
    let extrinsic_key = Compact(0u32).encode();
    let (db, extrinsics_root) = trie(&[
        (extrinsic_key.clone(), extrinsic.clone()),
        (Compact(1u32).encode(), vec![1, 2, 3]),
    ]);
    let extrinsic_proof = sp_trie::generate_trie_proof::<Layout, _, _, _>(
        &db,
        sp_core::H256(extrinsics_root),
        &[extrinsic_key],
    )
    .unwrap();
    let head = RelayHeader {
        parent_hash: [number as u8; 32],
        number,
        state_root: [0xa0 ^ number as u8; 32],
        extrinsics_root,
        digest: digest(&[]),
    };
    let (state, state_root) = trie(&[
        (parachain_header_storage_key(PARA), head.encode().encode()),
        (b"something else".to_vec(), vec![9u8; 40]),
    ]);
    let proofs = ParachainHeaderProofs { state_proof: nodes(state), extrinsic, extrinsic_proof };
    (head, proofs, state_root)
}

fn relay_header(number: u32, parent: H256, state_root: H256, items: &[Vec<u8>]) -> RelayHeader {
    RelayHeader {
        parent_hash: parent,
        number,
        state_root,
        extrinsics_root: [0xeeu8; 32],
        digest: digest(items),
    }
}

fn justification(target: &RelayHeader, seeds: &[u8], set_id: u64) -> Vec<u8> {
    let hash = target.hash();
    let precommits: Vec<SignedPrecommit> = seeds
        .iter()
        .map(|s| {
            let payload = (1u8, hash, target.number, ROUND, set_id).encode();
            SignedPrecommit {
                target_hash: hash,
                target_number: target.number,
                signature: key(*s).sign(&payload).to_bytes(),
                id: key(*s).verification_key().to_bytes(),
            }
        })
        .collect();
    encode_justification(&Justification {
        round: ROUND,
        target_hash: hash,
        target_number: target.number,
        precommits,
        votes_ancestries: vec![],
    })
}

fn encode_justification(j: &Justification) -> Vec<u8> {
    let precommits: Vec<((H256, u32), [u8; 64], [u8; 32])> = j
        .precommits
        .iter()
        .map(|p| ((p.target_hash, p.target_number), p.signature, p.id))
        .collect();
    let mut out = (j.round, (j.target_hash, j.target_number, precommits)).encode();
    out.extend(Compact(j.votes_ancestries.len() as u32).encode());
    for h in &j.votes_ancestries {
        out.extend(h.encode());
    }
    out
}

/// The block that the client of `genesis_state` stands at.
fn genesis_block() -> RelayHeader {
    relay_header(100, [0x99u8; 32], [0x10u8; 32], &[])
}

/// A client at relay height 100 and parachain height 9, with one authority set.
fn genesis_state() -> ClientState {
    ClientState::new(
        RelayChain::Rococo,
        genesis_block().hash(),
        100,
        9,
        PARA,
        vec![AuthoritiesChange {
            height: 0,
            timestamp: NOW - 5,
            set_id: 0,
            authorities: authorities(&[1, 2, 3, 4]),
        }],
    )
    .unwrap()
}

/// An update of three relay-chain blocks on top of the genesis block. The first two
/// each hold a parachain header, at the heights 10 and 11. The digest items go into the
/// middle and the last block.
fn update(middle: &[Vec<u8>], last: &[Vec<u8>]) -> Header {
    let (_, proofs10, root10) = parachain_block(10, 1_700_000_000_111);
    let (_, proofs11, root11) = parachain_block(11, 1_700_000_000_222);
    let b1 = relay_header(101, genesis_block().hash(), root10, &[]);
    let b2 = relay_header(102, b1.hash(), root11, middle);
    let b3 = relay_header(103, b2.hash(), [0x13u8; 32], last);
    Header {
        finality_proof: FinalityProof {
            block: b3.hash(),
            justification: justification(&b3, &[1, 2, 3], 0),
            unknown_headers: vec![b2.clone(), b3, b1.clone()],
        },
        parachain_headers: vec![(b1.hash(), proofs10), (b2.hash(), proofs11)],
        height: Height { revision_number: PARA as u64, revision_height: 11 },
    }
}

fn state_at(number: u32) -> ConsensusState {
    let ms = if number == 10 { 1_700_000_000_111u64 } else { 1_700_000_000_222 };
    ConsensusState { timestamp: ms * 1_000_000, root: [0xa0 ^ number as u8; 32] }
}

fn at(height: u64) -> Height {
    Height { revision_number: PARA as u64, revision_height: height }
}

#[test]
fn genesis_client_takes_an_update_of_three_blocks_with_two_parachain_headers() {
    let mut client = GrandpaClient::new(Host::default());
    let state = genesis_state();
    let header = update(&[], &[]);
    let message = ClientMessage::Header(header.clone());
    assert_eq!(client.verify_client_message(&ctx(), &client_id(), &state, &message), Ok(()));
    assert_eq!(client.check_for_misbehaviour(&ctx(), &client_id(), &state, &message), Ok(false));
    let (next, update) = client.update_state(&ctx(), &client_id(), &state, &message).unwrap();
    assert_eq!(next.latest_relay_height, state.latest_relay_height + 3);
    assert_eq!(next.latest_relay_hash, header.finality_proof.block);
    assert_eq!(next.latest_para_height, 11);
    assert_eq!(next.authorities_changes, state.authorities_changes);
    assert_eq!(next.frozen_height, None);
    assert_eq!(next.para_id, PARA);
    assert_eq!(next.relay_chain, RelayChain::Rococo);
    assert_eq!(
        update,
        ConsensusUpdateResult::Batch(vec![(at(10), state_at(10)), (at(11), state_at(11))])
    );
    assert_eq!(client.host.inserted_at, vec![NOW / 1_000_000]);
    assert_eq!(client.host.known.len(), 4);
    assert!(client.host.known.contains(&genesis_block().hash()));
    assert!(client.host.known.contains(&header.finality_proof.block));
}

#[test]
fn target_that_schedules_a_change_extends_the_ledger() {
    let mut client = GrandpaClient::new(Host::default());
    let state = genesis_state();
    let next_set = authorities(&[5, 6, 7]);
    let header = update(&[], &[scheduled_item(&next_set, 0)]);
    let message = ClientMessage::Header(header);
    assert_eq!(client.verify_client_message(&ctx(), &client_id(), &state, &message), Ok(()));
    let (next, _) = client.update_state(&ctx(), &client_id(), &state, &message).unwrap();
    assert_eq!(next.authorities_changes.len(), 2);
    assert_eq!(next.authorities_changes.first(), state.authorities_changes.first());
    assert_eq!(
        next.authorities_changes.last(),
        &AuthoritiesChange { height: 104, timestamp: NOW, set_id: 1, authorities: next_set.clone() }
    );
    assert!(next.is_well_formed());
    assert_eq!(next.get_authorities(103).0, 0);
    assert_eq!(next.get_authorities(104), (1, next_set));
}

#[test]
fn scheduled_change_with_a_delay_takes_effect_later() {
    let mut client = GrandpaClient::new(Host::default());
    let header = update(&[], &[scheduled_item(&authorities(&[5]), 20)]);
    let (next, _) = client
        .update_state(&ctx(), &client_id(), &genesis_state(), &ClientMessage::Header(header))
        .unwrap();
    assert_eq!(next.authorities_changes.last().height, 124);
}

#[test]
fn change_that_a_block_before_the_target_schedules_is_not_entered() {
    let mut client = GrandpaClient::new(Host::default());
    let state = genesis_state();
    let header = update(&[scheduled_item(&authorities(&[5, 6, 7]), 0)], &[]);
    let (next, _) = client
        .update_state(&ctx(), &client_id(), &state, &ClientMessage::Header(header))
        .unwrap();
    assert_eq!(next.authorities_changes, state.authorities_changes);
}

#[test]
fn consensus_states_that_the_host_holds_are_not_brought_again() {
    let mut client = GrandpaClient::new(Host::default());
    let state = genesis_state();
    let message = ClientMessage::Header(update(&[], &[]));
    let mut held = ctx();
    held.states.insert((PARA as u64, 10), AnyConsensusState::Grandpa(state_at(10)));
    let (next, update) = client.update_state(&held, &client_id(), &state, &message).unwrap();
    assert_eq!(update, ConsensusUpdateResult::Batch(vec![(at(11), state_at(11))]));
    assert_eq!(next.latest_para_height, 11);
    held.states.insert((PARA as u64, 11), AnyConsensusState::Other);
    let (next, update) = client.update_state(&held, &client_id(), &state, &message).unwrap();
    assert_eq!(update, ConsensusUpdateResult::Batch(vec![]));
    assert_eq!(next.latest_para_height, 9);
    assert_eq!(next.latest_relay_height, 103);
}

#[test]
fn update_in_two_steps() {
    let state = genesis_state();
    let header = update(&[], &[]);
    let (finalized, derived) = derive_states(&state, &header).unwrap();
    assert_eq!(finalized.len(), 4);
    assert_eq!(finalized[0], header.finality_proof.block);
    assert_eq!(finalized[3], genesis_block().hash());
    assert_eq!(derived, vec![Some((at(10), state_at(10))), Some((at(11), state_at(11)))]);
    let (next, states) =
        conclude_update(&state, &header, &finalized, &derived, &vec![false, true], 7).unwrap();
    assert_eq!(states, vec![(at(10), state_at(10))]);
    assert_eq!(next.latest_para_height, 10);
    let (_, states) = conclude_update(&state, &header, &finalized, &derived, &vec![], 7).unwrap();
    assert_eq!(states.len(), 2);
}

#[test]
fn parachain_header_of_a_block_off_the_path_is_skipped() {
    let mut client = GrandpaClient::new(Host::default());
    let state = genesis_state();
    let mut header = update(&[], &[]);
    let (_, proofs, _) = parachain_block(12, 5);
    header.parachain_headers.push(([0x44u8; 32], proofs));
    let message = ClientMessage::Header(header);
    assert_eq!(client.verify_client_message(&ctx(), &client_id(), &state, &message), Ok(()));
    let (_, update) = client.update_state(&ctx(), &client_id(), &state, &message).unwrap();
    assert_eq!(
        update,
        ConsensusUpdateResult::Batch(vec![(at(10), state_at(10)), (at(11), state_at(11))])
    );
}

#[test]
fn update_that_does_not_leave_the_latest_block_is_a_regression() {
    let mut client = GrandpaClient::new(Host::default());
    let state = genesis_state();
    let header = Header {
        finality_proof: FinalityProof {
            block: genesis_block().hash(),
            justification: justification(&genesis_block(), &[1, 2, 3], 0),
            unknown_headers: vec![genesis_block()],
        },
        parachain_headers: vec![],
        height: at(9),
    };
    assert_eq!(
        client.update_state(&ctx(), &client_id(), &state, &ClientMessage::Header(header)),
        Err(Error::HeightRegression)
    );
    assert!(client.host.known.is_empty());
}

#[test]
fn parachain_height_must_rise() {
    let mut client = GrandpaClient::new(Host::default());
    let mut state = genesis_state();
    state.latest_para_height = 10;
    let message = ClientMessage::Header(update(&[], &[]));
    assert_eq!(
        client.update_state(&ctx(), &client_id(), &state, &message),
        Err(Error::HeightRegression)
    );
    state.latest_para_height = 11;
    assert_eq!(
        client.update_state(&ctx(), &client_id(), &state, &message),
        Err(Error::HeightRegression)
    );
    let mut held = ctx();
    held.states.insert((PARA as u64, 10), AnyConsensusState::Grandpa(state_at(10)));
    state.latest_para_height = 10;
    let (next, _) = client.update_state(&held, &client_id(), &state, &message).unwrap();
    assert_eq!(next.latest_para_height, 11);
}

#[test]
fn target_number_must_match_the_length_of_the_path() {
    let mut client = GrandpaClient::new(Host::default());
    let mut state = genesis_state();
    state.latest_relay_height = 99;
    let message = ClientMessage::Header(update(&[], &[]));
    assert_eq!(
        client.update_state(&ctx(), &client_id(), &state, &message),
        Err(Error::HeightMismatch)
    );
    state.latest_relay_height = 101;
    assert_eq!(
        client.update_state(&ctx(), &client_id(), &state, &message),
        Err(Error::HeightMismatch)
    );
}

#[test]
fn update_off_the_latest_block_has_no_ancestry() {
    let mut client = GrandpaClient::new(Host::default());
    let mut state = genesis_state();
    state.latest_relay_hash = [0x55u8; 32];
    let message = ClientMessage::Header(update(&[], &[]));
    assert_eq!(
        client.update_state(&ctx(), &client_id(), &state, &message),
        Err(Error::InvalidAncestry)
    );
    assert_eq!(
        client.verify_client_message(&ctx(), &client_id(), &state, &message),
        Err(Error::InvalidAncestry)
    );
}

#[test]
fn update_for_another_parachain_is_refused() {
    let client = GrandpaClient::new(Host::default());
    let mut header = update(&[], &[]);
    header.height.revision_number = 2001;
    assert_eq!(
        client.verify_client_message(
            &ctx(),
            &client_id(),
            &genesis_state(),
            &ClientMessage::Header(header)
        ),
        Err(Error::ParaIdMismatch)
    );
}

#[test]
fn update_without_headers_or_with_a_wrong_target_is_refused() {
    let client = GrandpaClient::new(Host::default());
    let state = genesis_state();
    let mut header = update(&[], &[]);
    header.finality_proof.unknown_headers.clear();
    assert_eq!(client.verify_header(&state, &header), Err(Error::MissingHeader));
    let mut header = update(&[], &[]);
    header.finality_proof.block = header.finality_proof.unknown_headers[0].hash();
    assert_eq!(client.verify_header(&state, &header), Err(Error::InvalidAncestry));
}

#[test]
fn update_with_a_bad_justification_is_refused() {
    let client = GrandpaClient::new(Host::default());
    let state = genesis_state();
    let mut header = update(&[], &[]);
    let target = header.finality_proof.unknown_headers[1].clone();
    header.finality_proof.justification = vec![1, 2, 3];
    assert_eq!(client.verify_header(&state, &header), Err(Error::InvalidJustification));
    header.finality_proof.justification = justification(&target, &[1, 2], 0);
    assert_eq!(client.verify_header(&state, &header), Err(Error::InvalidJustification));
    header.finality_proof.justification = justification(&target, &[1, 2, 3], 1);
    assert_eq!(client.verify_header(&state, &header), Err(Error::InvalidJustification));
    header.finality_proof.justification = justification(&target, &[5, 6, 7], 0);
    assert_eq!(client.verify_header(&state, &header), Err(Error::InvalidJustification));
    let other = header.finality_proof.unknown_headers[0].clone();
    header.finality_proof.justification = justification(&other, &[1, 2, 3], 0);
    assert_eq!(client.verify_header(&state, &header), Err(Error::InvalidJustification));
    header.finality_proof.justification = justification(&target, &[1, 2, 3, 4], 0);
    assert_eq!(client.verify_header(&state, &header), Ok(()));
}

#[test]
fn justification_is_checked_under_the_set_in_force_at_the_target() {
    let client = GrandpaClient::new(Host::default());
    let mut state = genesis_state();
    let mut ledger = state.authorities_changes.as_vec().clone();
    ledger.push(AuthoritiesChange {
        height: 103,
        timestamp: NOW,
        set_id: 1,
        authorities: authorities(&[5, 6, 7]),
    });
    state.authorities_changes = vec1::Vec1::try_from_vec(ledger).unwrap();
    let mut header = update(&[], &[]);
    assert_eq!(client.verify_header(&state, &header), Err(Error::InvalidJustification));
    let target = header.finality_proof.unknown_headers[1].clone();
    header.finality_proof.justification = justification(&target, &[5, 6, 7], 1);
    assert_eq!(client.verify_header(&state, &header), Ok(()));
    let plan = plan_header(&state, &header).unwrap();
    assert_eq!(plan.set_id, 1);
    assert_eq!(plan.authorities, authorities(&[5, 6, 7]));
    assert_eq!(plan.finalized.len(), 4);
    assert_eq!(verify_header_with(&state, &header, &vec![true, true, true]), Ok(()));
    assert_eq!(
        verify_header_with(&state, &header, &vec![true, false, true]),
        Err(Error::InvalidJustification)
    );
}

#[test]
fn parachain_headers_must_be_proved() {
    let client = GrandpaClient::new(Host::default());
    let state = genesis_state();
    let mut header = update(&[], &[]);
    header.height.revision_height = 12;
    assert_eq!(client.verify_header(&state, &header), Err(Error::HeightMismatch));
    let mut header = update(&[], &[]);
    header.parachain_headers[0].1.state_proof.clear();
    assert_eq!(client.verify_header(&state, &header), Err(Error::InvalidStorageProof));
    let mut header = update(&[], &[]);
    header.parachain_headers[1].1.extrinsic = timestamp_extrinsic(1);
    assert_eq!(client.verify_header(&state, &header), Err(Error::InvalidStorageProof));
    let mut header = update(&[], &[]);
    header.parachain_headers[1].1.extrinsic_proof.clear();
    assert_eq!(client.verify_header(&state, &header), Err(Error::InvalidStorageProof));
    let mut header = update(&[], &[]);
    header.parachain_headers.swap(0, 1);
    let first = header.parachain_headers[0].0;
    header.parachain_headers[0].0 = header.parachain_headers[1].0;
    header.parachain_headers[1].0 = first;
    assert_eq!(client.verify_header(&state, &header), Err(Error::InvalidStorageProof));
    let mut header = update(&[], &[]);
    header.parachain_headers[0].0 = genesis_block().hash();
    assert_eq!(client.verify_header(&state, &header), Err(Error::MissingHeader));
}

/// Two forks of two blocks each on top of the genesis block, each with a justification
/// of its tip.
fn equivocation(first_seeds: &[u8], second_seeds: &[u8]) -> Misbehaviour {
    let a1 = relay_header(101, genesis_block().hash(), [0xa1u8; 32], &[]);
    let a2 = relay_header(102, a1.hash(), [0xa2u8; 32], &[]);
    let b1 = relay_header(101, genesis_block().hash(), [0xb1u8; 32], &[]);
    let b2 = relay_header(102, b1.hash(), [0xb2u8; 32], &[]);
    Misbehaviour {
        first_finality_proof: FinalityProof {
            block: a2.hash(),
            justification: justification(&a2, first_seeds, 0),
            unknown_headers: vec![a1, a2],
        },
        second_finality_proof: FinalityProof {
            block: b2.hash(),
            justification: justification(&b2, second_seeds, 0),
            unknown_headers: vec![b2, b1],
        },
    }
}

fn host_that_knows_genesis() -> Host {
    let mut host = Host::default();
    host.known.insert(genesis_block().hash());
    host
}

#[test]
fn two_finality_proofs_for_diverging_blocks_convict() {
    let client = GrandpaClient::new(host_that_knows_genesis());
    let state = genesis_state();
    let message = ClientMessage::Misbehaviour(equivocation(&[1, 2, 3], &[2, 3, 4]));
    assert_eq!(client.verify_client_message(&ctx(), &client_id(), &state, &message), Ok(()));
    assert_eq!(client.check_for_misbehaviour(&ctx(), &client_id(), &state, &message), Ok(true));
    let frozen = client.update_state_on_misbehaviour(&state, &message).unwrap();
    assert_eq!(frozen.frozen_height, Some(at(9)));
    let mut expected = state.clone();
    expected.frozen_height = Some(at(9));
    assert_eq!(frozen, expected);
    assert_eq!(client.update_state_on_misbehaviour(&frozen, &message), Ok(frozen));
}

#[test]
fn accusation_is_evidence_in_either_order() {
    let client = GrandpaClient::new(Host::default());
    let m = equivocation(&[1], &[2]);
    let swapped = Misbehaviour {
        first_finality_proof: m.second_finality_proof.clone(),
        second_finality_proof: m.first_finality_proof.clone(),
    };
    let state = genesis_state();
    for message in [ClientMessage::Misbehaviour(m), ClientMessage::Misbehaviour(swapped)] {
        assert_eq!(client.check_for_misbehaviour(&ctx(), &client_id(), &state, &message), Ok(true));
    }
    let known = GrandpaClient::new(host_that_knows_genesis());
    let m = equivocation(&[1, 2, 3], &[2, 3, 4]);
    let swapped = Misbehaviour {
        first_finality_proof: m.second_finality_proof.clone(),
        second_finality_proof: m.first_finality_proof.clone(),
    };
    assert_eq!(known.verify_misbehaviour(&state, &swapped), Ok(()));
}

#[test]
fn accusation_needs_a_known_ancestor() {
    let client = GrandpaClient::new(Host::default());
    let m = equivocation(&[1, 2, 3], &[2, 3, 4]);
    assert_eq!(client.verify_misbehaviour(&genesis_state(), &m), Err(Error::InvalidEquivocation));
    let all = (vec![true, true, true], vec![true, true, true]);
    assert_eq!(
        verify_misbehaviour_with(&genesis_state(), &m, false, &vec![all.clone()]),
        Err(Error::InvalidEquivocation)
    );
    assert_eq!(verify_misbehaviour_with(&genesis_state(), &m, true, &vec![all]), Ok(()));
    assert_eq!(
        verify_misbehaviour_with(&genesis_state(), &m, true, &vec![]),
        Err(Error::InvalidJustification)
    );
}

#[test]
fn accusation_needs_two_valid_justifications() {
    let client = GrandpaClient::new(host_that_knows_genesis());
    let state = genesis_state();
    assert_eq!(
        client.verify_misbehaviour(&state, &equivocation(&[1, 2, 3], &[2, 3])),
        Err(Error::InvalidJustification)
    );
    assert_eq!(
        client.verify_misbehaviour(&state, &equivocation(&[1], &[2, 3, 4])),
        Err(Error::InvalidJustification)
    );
    let mut m = equivocation(&[1, 2, 3], &[2, 3, 4]);
    m.second_finality_proof.justification = vec![0; 10];
    assert_eq!(client.verify_misbehaviour(&state, &m), Err(Error::InvalidJustification));
    let mut m = equivocation(&[1, 2, 3], &[2, 3, 4]);
    m.second_finality_proof.justification = m.first_finality_proof.justification.clone();
    assert_eq!(client.verify_misbehaviour(&state, &m), Err(Error::InvalidJustification));
}

#[test]
fn accusation_must_be_two_diverging_paths_from_one_parent() {
    let client = GrandpaClient::new(host_that_knows_genesis());
    let state = genesis_state();
    let good = equivocation(&[1, 2, 3], &[2, 3, 4]);
    let paths = find_equivocation_paths(&good).unwrap();
    assert_eq!(paths.parent, genesis_block().hash());
    assert_eq!(paths.first_base_number, 101);
    assert_eq!(paths.second_base_number, 101);
    assert_eq!(paths.first_finalized.len(), 2);
    assert_eq!(paths.first_finalized[0], good.first_finality_proof.block);
    assert_eq!(paths.second_finalized[0], good.second_finality_proof.block);

    let mut same = good.clone();
    same.second_finality_proof = same.first_finality_proof.clone();
    assert_eq!(client.verify_misbehaviour(&state, &same), Err(Error::InvalidEquivocation));

    let mut empty = good.clone();
    empty.first_finality_proof.unknown_headers.clear();
    assert_eq!(client.verify_misbehaviour(&state, &empty), Err(Error::InvalidEquivocation));

    let mut wrong_target = good.clone();
    wrong_target.first_finality_proof.block = [0x12u8; 32];
    assert_eq!(client.verify_misbehaviour(&state, &wrong_target), Err(Error::InvalidEquivocation));

    let mut gap = good.clone();
    let far = relay_header(105, [0x31u8; 32], [0u8; 32], &[]);
    gap.first_finality_proof.block = far.hash();
    gap.first_finality_proof.unknown_headers.push(far);
    assert_eq!(client.verify_misbehaviour(&state, &gap), Err(Error::InvalidAncestry));

    let c1 = relay_header(101, [0x77u8; 32], [0xc1u8; 32], &[]);
    let mut other_parent = good.clone();
    other_parent.second_finality_proof = FinalityProof {
        block: c1.hash(),
        justification: justification(&c1, &[1, 2, 3], 0),
        unknown_headers: vec![c1],
    };
    assert_eq!(client.verify_misbehaviour(&state, &other_parent), Err(Error::InvalidEquivocation));
}

#[test]
fn numbers_in_the_headers_of_an_accusation_are_not_trusted() {
    // the second fork claims numbers far above; heights are counted from the bases
    let a1 = relay_header(101, genesis_block().hash(), [0xa1u8; 32], &[]);
    let b1 = relay_header(5_000, genesis_block().hash(), [0xb1u8; 32], &[]);
    let b2 = relay_header(5_001, b1.hash(), [0xb2u8; 32], &[]);
    let m = Misbehaviour {
        first_finality_proof: FinalityProof {
            block: a1.hash(),
            justification: justification(&a1, &[1, 2, 3], 0),
            unknown_headers: vec![a1],
        },
        second_finality_proof: FinalityProof {
            block: b2.hash(),
            justification: justification(&b2, &[5, 6, 7], 1),
            unknown_headers: vec![b1, b2],
        },
    };
    let mut state = genesis_state();
    let mut ledger = state.authorities_changes.as_vec().clone();
    ledger.push(AuthoritiesChange {
        height: 5_001,
        timestamp: NOW,
        set_id: 1,
        authorities: authorities(&[5, 6, 7]),
    });
    state.authorities_changes = vec1::Vec1::try_from_vec(ledger).unwrap();
    let client = GrandpaClient::new(host_that_knows_genesis());
    // counted from 101 both targets fall under the first set, counted from 5000 under
    // the first and the second set: only the second count validates both
    assert_eq!(client.verify_misbehaviour(&state, &m), Ok(()));
    let mut later = state.clone();
    let mut ledger = later.authorities_changes.as_vec().clone();
    ledger[1].height = 5_002;
    later.authorities_changes = vec1::Vec1::try_from_vec(ledger).unwrap();
    assert_eq!(client.verify_misbehaviour(&later, &m), Err(Error::InvalidJustification));
    let paths = find_equivocation_paths(&m).unwrap();
    assert_eq!((paths.first_base_number, paths.second_base_number), (101, 5_000));
    let mut with_old_set = m.clone();
    with_old_set.second_finality_proof.justification =
        justification(&with_old_set.second_finality_proof.unknown_headers[1].clone(), &[1, 2, 4], 0);
    assert_eq!(client.verify_misbehaviour(&state, &with_old_set), Ok(()));
}

#[test]
fn forced_change_is_evidence_of_misbehaviour() {
    let client = GrandpaClient::new(Host::default());
    let state = genesis_state();
    for header in [
        update(&[forced_item(&authorities(&[5]), 0)], &[]),
        update(&[], &[forced_item(&authorities(&[5]), 0)]),
    ] {
        let message = ClientMessage::Header(header);
        assert_eq!(client.verify_client_message(&ctx(), &client_id(), &state, &message), Ok(()));
        assert_eq!(client.check_for_misbehaviour(&ctx(), &client_id(), &state, &message), Ok(true));
    }
    let scheduled = ClientMessage::Header(update(&[], &[scheduled_item(&authorities(&[5]), 0)]));
    assert_eq!(client.check_for_misbehaviour(&ctx(), &client_id(), &state, &scheduled), Ok(false));
}

#[test]
fn consensus_state_that_contradicts_the_host_is_evidence_of_misbehaviour() {
    let client = GrandpaClient::new(Host::default());
    let state = genesis_state();
    let message = ClientMessage::Header(update(&[], &[]));
    let mut held = ctx();
    held.states.insert((PARA as u64, 10), AnyConsensusState::Grandpa(state_at(10)));
    assert_eq!(client.check_for_misbehaviour(&held, &client_id(), &state, &message), Ok(false));
    let mut other = state_at(11);
    other.timestamp += 1;
    held.states.insert((PARA as u64, 11), AnyConsensusState::Grandpa(other));
    assert_eq!(client.check_for_misbehaviour(&held, &client_id(), &state, &message), Ok(true));
    held.states.insert((PARA as u64, 10), AnyConsensusState::Other);
    assert_eq!(
        client.check_for_misbehaviour(&held, &client_id(), &state, &message),
        Err(Error::TypeMismatch)
    );
}

#[test]
fn check_for_misbehaviour_needs_the_relay_header_of_each_proof() {
    let client = GrandpaClient::new(Host::default());
    let mut header = update(&[], &[]);
    header.parachain_headers[1].0 = [0x44u8; 32];
    assert_eq!(
        client.check_for_misbehaviour(
            &ctx(),
            &client_id(),
            &genesis_state(),
            &ClientMessage::Header(header)
        ),
        Err(Error::MissingHeader)
    );
}

fn upgrade_state() -> ClientState {
    let mut state = ClientState::new(
        RelayChain::Kusama,
        [0x42u8; 32],
        900,
        50,
        PARA,
        vec![AuthoritiesChange { height: 800, timestamp: 1, set_id: 9, authorities: authorities(&[8, 9]) }],
    )
    .unwrap();
    state.frozen_height = Some(at(3));
    state
}

fn any(value: &[u8]) -> Vec<u8> {
    let any = ibc_proto::google::protobuf::Any {
        type_url: "/ibc.lightclients.grandpa.v1".to_string(),
        value: value.to_vec(),
    };
    prost::Message::encode_to_vec(&any)
}

/// A host that holds a consensus state at the latest height of the genesis client whose
/// root commits to the upgrade; the two proofs of the upgrade.
fn upgrade_setup(client_value: &[u8], consensus_value: &[u8]) -> (Ctx, Vec<u8>, Vec<u8>) {
    let (db, root) = trie(&[
        (client_state_upgrade_key(), any(client_value)),
        (consensus_state_upgrade_key(), any(consensus_value)),
    ]);
    let proof = nodes(db).encode();
    let mut held = ctx();
    held.states.insert(
        (PARA as u64, 9),
        AnyConsensusState::Grandpa(ConsensusState { timestamp: 1, root }),
    );
    (held, proof.clone(), proof)
}

fn upgrade_consensus_state() -> ConsensusState {
    ConsensusState { timestamp: 77, root: [0x0cu8; 32] }
}

#[test]
fn upgrade_merges_the_states_and_unfreezes() {
    let client = GrandpaClient::new(Host::default());
    let mut old = genesis_state();
    old.frozen_height = Some(at(9));
    let upgrade = upgrade_state();
    let c = ctx();
    let (held, client_proof, consensus_proof) = upgrade_setup(
        &c.encode_client_state(&upgrade),
        &c.encode_consensus_state(&upgrade_consensus_state()),
    );
    let (next, update) = client
        .verify_upgrade_and_update_state(
            &held,
            &client_id(),
            &old,
            &upgrade,
            &upgrade_consensus_state(),
            &client_proof,
            &consensus_proof,
        )
        .unwrap();
    assert_eq!(next.relay_chain, RelayChain::Rococo);
    assert_eq!(next.frozen_height, None);
    assert_eq!(next.latest_relay_height, 900);
    assert_eq!(next.latest_relay_hash, [0x42u8; 32]);
    assert_eq!(next.latest_para_height, 50);
    assert_eq!(next.para_id, PARA);
    assert_eq!(next.authorities_changes, upgrade.authorities_changes);
    assert!(old.latest_height().lt(&next.latest_height()));
    assert_eq!(update, ConsensusUpdateResult::Single(upgrade_consensus_state()));
}

#[test]
fn upgrade_with_one_byte_off_is_refused() {
    let client = GrandpaClient::new(Host::default());
    let old = genesis_state();
    let upgrade = upgrade_state();
    let c = ctx();
    let mut committed = c.encode_client_state(&upgrade);
    let last = committed.len() - 1;
    committed[last] ^= 1;
    let (held, client_proof, consensus_proof) =
        upgrade_setup(&committed, &c.encode_consensus_state(&upgrade_consensus_state()));
    let before = old.clone();
    assert_eq!(
        client.verify_upgrade_and_update_state(
            &held,
            &client_id(),
            &old,
            &upgrade,
            &upgrade_consensus_state(),
            &client_proof,
            &consensus_proof,
        ),
        Err(Error::InvalidUpgradeProof)
    );
    assert_eq!(old, before);
    let (held, client_proof, consensus_proof) = upgrade_setup(&c.encode_client_state(&upgrade), b"something else");
    assert_eq!(
        client.verify_upgrade_and_update_state(
            &held,
            &client_id(),
            &old,
            &upgrade,
            &upgrade_consensus_state(),
            &client_proof,
            &consensus_proof,
        ),
        Err(Error::InvalidUpgradeProof)
    );
}

#[test]
fn upgrade_failures() {
    let client = GrandpaClient::new(Host::default());
    let old = genesis_state();
    let upgrade = upgrade_state();
    let c = ctx();
    let (mut held, client_proof, consensus_proof) = upgrade_setup(
        &c.encode_client_state(&upgrade),
        &c.encode_consensus_state(&upgrade_consensus_state()),
    );
    let run = |held: &Ctx, old: &ClientState, upgrade: &ClientState, client_proof: &[u8], consensus_proof: &[u8]| {
        client.verify_upgrade_and_update_state(
            held,
            &client_id(),
            old,
            upgrade,
            &upgrade_consensus_state(),
            client_proof,
            consensus_proof,
        )
    };
    let mut low = upgrade.clone();
    low.latest_para_height = 9;
    assert_eq!(run(&held, &old, &low, &client_proof, &consensus_proof), Err(Error::HeightRegression));
    low.latest_para_height = 8;
    assert_eq!(run(&held, &old, &low, &client_proof, &consensus_proof), Err(Error::HeightRegression));
    assert_eq!(run(&held, &old, &upgrade, &[1], &consensus_proof), Err(Error::Decode));
    assert_eq!(run(&held, &old, &upgrade, &client_proof, &[1]), Err(Error::Decode));
    assert_eq!(run(&ctx(), &old, &upgrade, &client_proof, &consensus_proof), Err(Error::ConsensusStateNotFound));
    held.states.insert((PARA as u64, 9), AnyConsensusState::Other);
    assert_eq!(run(&held, &old, &upgrade, &client_proof, &consensus_proof), Err(Error::TypeMismatch));
}

#[test]
fn substitute_is_not_provided() {
    let client = GrandpaClient::new(Host::default());
    assert_eq!(
        client.check_substitute_and_update_state(
            &ctx(),
            &client_id(),
            &client_id(),
            &genesis_state(),
            &genesis_state(),
        ),
        Err(Error::Unimplemented)
    );
}

/// A parachain state with IBC entries under the prefix `ibc/`: its root and its proof.
fn ibc_state() -> (H256, Vec<u8>) {
    let entries: Vec<(&str, Vec<u8>)> = vec![
        ("connections/connection-0", b"connection end".to_vec()),
        ("clients/10-grandpa-0/clientState", b"client state".to_vec()),
        ("clients/10-grandpa-0/consensusStates/2000-8", b"consensus state".to_vec()),
        ("channelEnds/ports/transfer/channels/channel-0", b"channel end".to_vec()),
        ("commitments/ports/transfer/channels/channel-0/sequences/5", b"commitment".to_vec()),
        ("acks/ports/transfer/channels/channel-0/sequences/5", b"ack".to_vec()),
        ("nextSequenceRecv/ports/transfer/channels/channel-0", 6u64.encode()),
    ];
    let data: Vec<(Vec<u8>, Vec<u8>)> =
        entries.into_iter().map(|(k, v)| (format!("ibc/{k}").into_bytes(), v)).collect();
    let (db, root) = trie(&data);
    (root, nodes(db).encode())
}

fn transfer() -> PortId {
    PortId { id: b"transfer".to_vec() }
}

fn channel0() -> ChannelId {
    ChannelId { id: b"channel-0".to_vec() }
}

fn connection_end(delay_period: u64) -> ConnectionEnd {
    ConnectionEnd { client_id: client_id(), delay_period, counterparty_prefix: b"ibc/".to_vec() }
}

#[test]
fn state_proofs_are_verified_under_their_paths() {
    let client = GrandpaClient::new(Host::default());
    let state = genesis_state();
    let (root, proof) = ibc_state();
    let c = ctx();
    assert_eq!(
        client.verify_connection_state(
            &c,
            &client_id(),
            &state,
            at(9),
            b"ibc/",
            &proof,
            &root,
            &ConnectionId { id: b"connection-0".to_vec() },
            b"connection end",
        ),
        Ok(())
    );
    assert_eq!(
        client.verify_connection_state(
            &c,
            &client_id(),
            &state,
            at(9),
            b"ibc/",
            &proof,
            &root,
            &ConnectionId { id: b"connection-1".to_vec() },
            b"connection end",
        ),
        Err(Error::InvalidMembershipProof)
    );
    assert_eq!(
        client.verify_client_full_state(&c, &state, at(9), b"ibc/", &proof, &root, &client_id(), b"client state"),
        Ok(())
    );
    assert_eq!(
        client.verify_client_consensus_state(
            &c,
            &state,
            at(9),
            b"ibc/",
            &proof,
            &root,
            &client_id(),
            at(8),
            b"consensus state",
        ),
        Ok(())
    );
    assert_eq!(
        client.verify_client_consensus_state(
            &c,
            &state,
            at(9),
            b"ibc/",
            &proof,
            &root,
            &client_id(),
            at(7),
            b"consensus state",
        ),
        Err(Error::InvalidMembershipProof)
    );
    assert_eq!(
        client.verify_channel_state(
            &c,
            &client_id(),
            &state,
            at(9),
            b"ibc/",
            &proof,
            &root,
            &transfer(),
            &channel0(),
            b"channel end",
        ),
        Ok(())
    );
}

#[test]
fn packet_proofs_are_verified_under_their_paths() {
    let client = GrandpaClient::new(Host::default());
    let state = genesis_state();
    let (root, proof) = ibc_state();
    let c = ctx();
    let end = connection_end(0);
    assert_eq!(
        client.verify_packet_data(&c, &client_id(), &state, at(9), &end, &proof, &root, &transfer(), &channel0(), 5, b"commitment"),
        Ok(())
    );
    assert_eq!(
        client.verify_packet_data(&c, &client_id(), &state, at(9), &end, &proof, &root, &transfer(), &channel0(), 6, b"commitment"),
        Err(Error::InvalidMembershipProof)
    );
    assert_eq!(
        client.verify_packet_acknowledgement(&c, &client_id(), &state, at(9), &end, &proof, &root, &transfer(), &channel0(), 5, b"ack"),
        Ok(())
    );
    assert_eq!(
        client.verify_next_sequence_recv(&c, &client_id(), &state, at(9), &end, &proof, &root, &transfer(), &channel0(), 6),
        Ok(())
    );
    assert_eq!(
        client.verify_next_sequence_recv(&c, &client_id(), &state, at(9), &end, &proof, &root, &transfer(), &channel0(), 7),
        Err(Error::InvalidMembershipProof)
    );
    assert_eq!(
        client.verify_packet_receipt_absence(&c, &client_id(), &state, at(9), &end, &proof, &root, &transfer(), &channel0(), 5),
        Ok(())
    );
}

#[test]
fn packet_proofs_wait_for_the_delay_of_the_connection() {
    let client = GrandpaClient::new(Host::default());
    let state = genesis_state();
    let (root, proof) = ibc_state();
    let mut c = ctx();
    c.update_time = NOW - 60_000_000_000;
    c.update_height = 490;
    let run = |c: &Ctx, delay: u64| {
        client.verify_packet_data(
            c,
            &client_id(),
            &state,
            at(9),
            &connection_end(delay),
            &proof,
            &root,
            &transfer(),
            &channel0(),
            5,
            b"commitment",
        )
    };
    assert_eq!(run(&c, 60_000_000_000), Ok(()));
    assert_eq!(run(&c, 60_000_000_001), Err(Error::DelayNotPassed));
    c.update_height = 491;
    assert_eq!(run(&c, 60_000_000_000), Err(Error::DelayNotPassed));
    assert_eq!(run(&c, 54_000_000_000), Ok(()));
}

#[test]
fn frozen_client_verifies_nothing_at_or_above_its_frozen_height() {
    let client = GrandpaClient::new(Host::default());
    let state = genesis_state();
    let message = ClientMessage::Misbehaviour(equivocation(&[1], &[2]));
    let frozen = client.update_state_on_misbehaviour(&state, &message).unwrap();
    let (root, proof) = ibc_state();
    let c = ctx();
    let connection = ConnectionId { id: b"connection-0".to_vec() };
    for height in [9u64, 10, 11, 1_000] {
        let expected = if height == 9 { Error::FrozenClient } else { Error::InsufficientHeight };
        assert_eq!(
            client.verify_connection_state(&c, &client_id(), &frozen, at(height), b"ibc/", &proof, &root, &connection, b"connection end"),
            Err(expected)
        );
        assert_eq!(
            client.verify_packet_data(&c, &client_id(), &frozen, at(height), &connection_end(0), &proof, &root, &transfer(), &channel0(), 5, b"commitment"),
            Err(expected)
        );
        assert_eq!(
            client.verify_packet_receipt_absence(&c, &client_id(), &frozen, at(height), &connection_end(0), &proof, &root, &transfer(), &channel0(), 5),
            Err(expected)
        );
    }
    assert_eq!(
        client.verify_connection_state(&c, &client_id(), &frozen, at(8), b"ibc/", &proof, &root, &connection, b"connection end"),
        Ok(())
    );
    assert_eq!(
        client.verify_connection_state(&c, &client_id(), &state, at(9), b"ibc/", &proof, &root, &connection, b"connection end"),
        Ok(())
    );
    assert_eq!(
        client.verify_connection_state(&c, &client_id(), &state, at(10), b"ibc/", &proof, &root, &connection, b"connection end"),
        Err(Error::InsufficientHeight)
    );
}

#[test]
fn updates_never_rewind() {
    let mut client = GrandpaClient::new(Host::default());
    let state = genesis_state();
    let first = update(&[], &[]);
    let (after_first, _) = client
        .update_state(&ctx(), &client_id(), &state, &ClientMessage::Header(first.clone()))
        .unwrap();
    assert!(after_first.latest_relay_height > state.latest_relay_height);
    assert!(after_first.latest_para_height > state.latest_para_height);
    // the same update again does not leave the latest block any more
    assert_eq!(
        client.update_state(&ctx(), &client_id(), &after_first, &ClientMessage::Header(first)),
        Err(Error::HeightRegression)
    );
    // one more block, without parachain headers
    let tip = relay_header(104, after_first.latest_relay_hash, [0x14u8; 32], &[]);
    let second = Header {
        finality_proof: FinalityProof {
            block: tip.hash(),
            justification: justification(&tip, &[2, 3, 4], 0),
            unknown_headers: vec![tip],
        },
        parachain_headers: vec![],
        height: at(11),
    };
    let message = ClientMessage::Header(second);
    assert_eq!(client.verify_client_message(&ctx(), &client_id(), &after_first, &message), Ok(()));
    let (after_second, update) =
        client.update_state(&ctx(), &client_id(), &after_first, &message).unwrap();
    assert_eq!(after_second.latest_relay_height, 104);
    assert_eq!(after_second.latest_para_height, 11);
    assert_eq!(update, ConsensusUpdateResult::Batch(vec![]));
}

#[test]
fn messages_with_too_many_headers_or_proofs_are_refused() {
    let mut client = GrandpaClient::new(host_that_knows_genesis());
    let state = genesis_state();
    let filler = relay_header(102, [7u8; 32], [7u8; 32], &[]);

    let mut header = update(&[], &[]);
    while header.finality_proof.unknown_headers.len() < 512 {
        header.finality_proof.unknown_headers.insert(0, filler.clone());
    }
    let (_, proofs, _) = parachain_block(12, 5);
    while header.parachain_headers.len() < 256 {
        let mut block = [0x44u8; 32];
        block[0] = header.parachain_headers.len() as u8;
        header.parachain_headers.push((block, proofs.clone()));
    }
    let message = ClientMessage::Header(header.clone());
    assert_eq!(client.verify_client_message(&ctx(), &client_id(), &state, &message), Ok(()));
    assert!(client.update_state(&ctx(), &client_id(), &state, &message).is_ok());

    let mut many_headers = header.clone();
    many_headers.finality_proof.unknown_headers.insert(0, filler.clone());
    let message = ClientMessage::Header(many_headers);
    assert_eq!(
        client.verify_client_message(&ctx(), &client_id(), &state, &message),
        Err(Error::InputTooLarge)
    );
    assert_eq!(
        client.update_state(&ctx(), &client_id(), &state, &message),
        Err(Error::InputTooLarge)
    );
    assert_eq!(
        client.check_for_misbehaviour(&ctx(), &client_id(), &state, &message),
        Err(Error::InputTooLarge)
    );

    let mut many_proofs = header;
    many_proofs.parachain_headers.push(([0x44u8; 32], proofs));
    let message = ClientMessage::Header(many_proofs);
    assert_eq!(
        client.verify_client_message(&ctx(), &client_id(), &state, &message),
        Err(Error::InputTooLarge)
    );
    assert_eq!(
        client.update_state(&ctx(), &client_id(), &state, &message),
        Err(Error::InputTooLarge)
    );

    let mut m = equivocation(&[1, 2, 3], &[2, 3, 4]);
    while m.second_finality_proof.unknown_headers.len() < 512 {
        m.second_finality_proof.unknown_headers.insert(0, filler.clone());
    }
    assert_eq!(client.verify_misbehaviour(&state, &m), Ok(()));
    m.second_finality_proof.unknown_headers.insert(0, filler.clone());
    assert_eq!(client.verify_misbehaviour(&state, &m), Err(Error::InputTooLarge));
    // what makes an accusation no equivocation is found before its size is looked at
    m.second_finality_proof.unknown_headers.push(filler);
    assert_eq!(client.verify_misbehaviour(&state, &m), Err(Error::InvalidEquivocation));
}

#[test]
fn proofs_with_too_many_nodes_are_refused() {
    let client = GrandpaClient::new(Host::default());
    let state = genesis_state();
    let mut header = update(&[], &[]);
    let node = header.parachain_headers[0].1.state_proof[0].clone();
    while header.parachain_headers[0].1.state_proof.len() < 16_384 {
        header.parachain_headers[0].1.state_proof.push(node.clone());
    }
    assert_eq!(client.verify_header(&state, &header), Ok(()));
    assert!(derive_states(&state, &header).is_ok());
    header.parachain_headers[0].1.state_proof.push(node.clone());
    assert_eq!(client.verify_header(&state, &header), Err(Error::InputTooLarge));
    assert_eq!(derive_states(&state, &header), Err(Error::InputTooLarge));
    let mut header = update(&[], &[]);
    header.parachain_headers[1].1.extrinsic_proof = vec![node; 16_385];
    assert_eq!(client.verify_header(&state, &header), Err(Error::InputTooLarge));

    let (root, _) = ibc_state();
    let many = vec![vec![1u8]; 16_385].encode();
    assert_eq!(
        client.verify_connection_state(
            &ctx(),
            &client_id(),
            &state,
            at(9),
            b"ibc/",
            &many,
            &root,
            &ConnectionId { id: b"connection-0".to_vec() },
            b"connection end",
        ),
        Err(Error::InputTooLarge)
    );
}

/// A proof for `target`, with the headers from the base up to it.
fn proof_of(headers: &[RelayHeader], target: &RelayHeader) -> FinalityProof {
    FinalityProof {
        block: target.hash(),
        justification: justification(target, &[1, 2, 3], 0),
        unknown_headers: headers.to_vec(),
    }
}

fn every_signature_good() -> Vec<(Vec<bool>, Vec<bool>)> {
    vec![(vec![true; 3], vec![true; 3]), (vec![true; 3], vec![true; 3])]
}

#[test]
fn two_blocks_on_one_chain_convict_nobody() {
    let client = GrandpaClient::new(host_that_knows_genesis());
    let state = genesis_state();
    let a1 = relay_header(101, genesis_block().hash(), [0xa1u8; 32], &[]);
    let a2 = relay_header(102, a1.hash(), [0xa2u8; 32], &[]);
    let a3 = relay_header(103, a2.hash(), [0xa3u8; 32], &[]);
    let lower = proof_of(&[a1.clone()], &a1);
    let middle = proof_of(&[a2.clone(), a1.clone()], &a2);
    let whole = proof_of(&[a1.clone(), a2.clone(), a3.clone()], &a3);
    for (first, second) in [(&lower, &whole), (&whole, &lower), (&middle, &whole), (&lower, &middle)] {
        let m = Misbehaviour {
            first_finality_proof: first.clone(),
            second_finality_proof: second.clone(),
        };
        assert_eq!(find_equivocation_paths(&m).err(), Some(Error::InvalidEquivocation));
        assert_eq!(client.verify_misbehaviour(&state, &m), Err(Error::InvalidEquivocation));
        assert_eq!(
            verify_misbehaviour_with(&state, &m, true, &every_signature_good()),
            Err(Error::InvalidEquivocation)
        );
        assert_eq!(
            client.verify_client_message(&ctx(), &client_id(), &state, &ClientMessage::Misbehaviour(m)),
            Err(Error::InvalidEquivocation)
        );
    }
}

#[test]
fn paths_that_part_above_a_shared_base_convict() {
    let client = GrandpaClient::new(host_that_knows_genesis());
    let state = genesis_state();
    let a1 = relay_header(101, genesis_block().hash(), [0xa1u8; 32], &[]);
    let a2 = relay_header(102, a1.hash(), [0xa2u8; 32], &[]);
    let a3 = relay_header(103, a2.hash(), [0xa3u8; 32], &[]);
    let c2 = relay_header(102, a1.hash(), [0xc2u8; 32], &[]);
    let long = proof_of(&[a1.clone(), a2.clone(), a3.clone()], &a3);
    let short = proof_of(&[c2.clone(), a1.clone()], &c2);
    for (first, second) in [(&long, &short), (&short, &long)] {
        let m = Misbehaviour {
            first_finality_proof: first.clone(),
            second_finality_proof: second.clone(),
        };
        let paths = find_equivocation_paths(&m).unwrap();
        assert_eq!(paths.parent, genesis_block().hash());
        assert_eq!(paths.first_finalized.last(), Some(&a1.hash()));
        assert_eq!(paths.second_finalized.last(), Some(&a1.hash()));
        assert_eq!(client.verify_misbehaviour(&state, &m), Ok(()));
    }
}

#[test]
fn bases_of_different_parents_are_no_equivocation_whatever_the_paths() {
    let client = GrandpaClient::new(host_that_knows_genesis());
    let state = genesis_state();
    let good = equivocation(&[1, 2, 3], &[2, 3, 4]);
    // the second proof starts from another parent, and its target does not descend
    // from its base
    let c1 = relay_header(101, [0x77u8; 32], [0xc1u8; 32], &[]);
    let far = relay_header(105, [0x31u8; 32], [0u8; 32], &[]);
    let mut m = good.clone();
    m.second_finality_proof = proof_of(&[c1.clone(), far.clone()], &far);
    assert_eq!(find_equivocation_paths(&m).err(), Some(Error::InvalidEquivocation));
    assert_eq!(client.verify_misbehaviour(&state, &m), Err(Error::InvalidEquivocation));
    let swapped = Misbehaviour {
        first_finality_proof: m.second_finality_proof.clone(),
        second_finality_proof: m.first_finality_proof.clone(),
    };
    assert_eq!(client.verify_misbehaviour(&state, &swapped), Err(Error::InvalidEquivocation));
    // with one parent, the path that cannot be rebuilt is what is wrong
    let d1 = relay_header(101, genesis_block().hash(), [0xd1u8; 32], &[]);
    m.second_finality_proof = proof_of(&[d1, far.clone()], &far);
    assert_eq!(client.verify_misbehaviour(&state, &m), Err(Error::InvalidAncestry));
}

#[test]
fn accusation_is_judged_alike_in_either_order() {
    let state = genesis_state();
    let m = equivocation(&[1, 2, 3], &[2, 3]);
    let swapped = Misbehaviour {
        first_finality_proof: m.second_finality_proof.clone(),
        second_finality_proof: m.first_finality_proof.clone(),
    };
    let answers = [
        (vec![true; 3], vec![true; 2]),
        (vec![true, false, true], vec![true; 2]),
        (vec![true; 3], vec![true; 3]),
        (vec![], vec![]),
    ];
    for known in [true, false] {
        for (first_ok, second_ok) in answers.iter() {
            let one = verify_misbehaviour_with(
                &state,
                &m,
                known,
                &vec![(first_ok.clone(), second_ok.clone())],
            );
            let other = verify_misbehaviour_with(
                &state,
                &swapped,
                known,
                &vec![(second_ok.clone(), first_ok.clone())],
            );
            assert_eq!(one, other);
        }
    }
    let good = equivocation(&[1, 2, 3], &[2, 3, 4]);
    let all = vec![(vec![true; 3], vec![true; 3])];
    assert_eq!(verify_misbehaviour_with(&state, &good, true, &all), Ok(()));
}

#[test]
fn frozen_client_takes_no_update() {
    let mut client = GrandpaClient::new(host_that_knows_genesis());
    let state = genesis_state();
    let header = update(&[], &[]);
    let message = ClientMessage::Header(header.clone());
    let accusation = ClientMessage::Misbehaviour(equivocation(&[1, 2, 3], &[2, 3, 4]));
    let frozen = client.update_state_on_misbehaviour(&state, &accusation).unwrap();
    assert_eq!(frozen.frozen_height, Some(at(9)));

    assert_eq!(client.verify_client_message(&ctx(), &client_id(), &state, &message), Ok(()));
    assert_eq!(
        client.verify_client_message(&ctx(), &client_id(), &frozen, &message),
        Err(Error::FrozenClient)
    );
    assert_eq!(client.verify_header(&frozen, &header), Err(Error::FrozenClient));
    assert_eq!(verify_header_with(&frozen, &header, &vec![true; 3]), Err(Error::FrozenClient));
    assert_eq!(plan_header(&frozen, &header).err(), Some(Error::FrozenClient));

    assert_eq!(
        client.update_state(&ctx(), &client_id(), &frozen, &message),
        Err(Error::FrozenClient)
    );
    assert!(client.host.inserted_at.is_empty());
    assert_eq!(derive_states(&frozen, &header), Err(Error::FrozenClient));
    let (finalized, derived) = derive_states(&state, &header).unwrap();
    let stored = vec![false; derived.len()];
    assert!(conclude_update(&state, &header, &finalized, &derived, &stored, NOW).is_ok());
    assert_eq!(
        conclude_update(&frozen, &header, &finalized, &derived, &stored, NOW),
        Err(Error::FrozenClient)
    );

    // a frozen client still hears accusations, and stays frozen
    assert_eq!(client.verify_client_message(&ctx(), &client_id(), &frozen, &accusation), Ok(()));
    assert_eq!(client.update_state_on_misbehaviour(&frozen, &accusation), Ok(frozen));
}

#[test]
fn update_that_names_a_block_in_two_proofs_is_refused() {
    let client = GrandpaClient::new(Host::default());
    let state = genesis_state();
    let mut header = update(&[], &[]);
    assert_eq!(client.verify_header(&state, &header), Ok(()));
    let again = header.parachain_headers[0].clone();
    header.parachain_headers.push(again);
    assert_eq!(client.verify_header(&state, &header), Err(Error::Decode));
    assert_eq!(verify_header_with(&state, &header, &vec![true; 3]), Err(Error::Decode));
    // the same proof under the hash of another block of the path is another entry
    let other = header.finality_proof.unknown_headers[1].hash();
    header.parachain_headers[2].0 = other;
    assert_eq!(client.verify_header(&state, &header), Err(Error::InvalidStorageProof));
    // and under a block off the path it is passed over
    header.parachain_headers[2].0 = [0x55u8; 32];
    assert_eq!(client.verify_header(&state, &header), Ok(()));
}

#[test]
fn order_of_the_proofs_of_an_update_decides_only_the_order_of_its_states() {
    let mut client = GrandpaClient::new(Host::default());
    let state = genesis_state();
    let forward = update(&[], &[]);
    let mut backward = forward.clone();
    backward.parachain_headers.reverse();
    assert_ne!(forward, backward);
    let mut results = Vec::new();
    for header in [forward, backward] {
        let message = ClientMessage::Header(header);
        assert_eq!(client.verify_client_message(&ctx(), &client_id(), &state, &message), Ok(()));
        assert_eq!(client.check_for_misbehaviour(&ctx(), &client_id(), &state, &message), Ok(false));
        results.push(client.update_state(&ctx(), &client_id(), &state, &message).unwrap());
    }
    assert_eq!(results[0].0, results[1].0);
    assert_eq!(
        results[0].1,
        ConsensusUpdateResult::Batch(vec![(at(10), state_at(10)), (at(11), state_at(11))])
    );
    assert_eq!(
        results[1].1,
        ConsensusUpdateResult::Batch(vec![(at(11), state_at(11)), (at(10), state_at(10))])
    );
}
