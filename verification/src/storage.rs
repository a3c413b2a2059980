//! Storage proofs of the relay chain and of the parachain: Merkle-Patricia proofs that
//! are checked by `sp_trie`, and the byte formats around them.

use crate::error::Error;
use crate::primitives::append_bytes;
use crate::primitives::H256;
use crate::primitives::MAX_TRIE_NODES;
use crate::scale::byte_strings;
use crate::scale::compact_u32;
use crate::scale::le_bytes;
use crate::scale::write_le;
use vstd::prelude::*;

verus! {

/// What a storage proof shows of a key under a state root: `None` where the proof is
/// invalid, `Some(None)` where it shows that the key is absent, `Some(Some(value))`
/// where it shows the value of the key.
pub uninterp spec fn trie_value(root: Seq<u8>, nodes: Seq<Seq<u8>>, key: Seq<u8>) -> Option<
    Option<Seq<u8>>,
>;

/// Whether a trie proof shows that `key` holds `value` under `root`.
pub uninterp spec fn trie_proof_valid(
    root: Seq<u8>,
    proof: Seq<Seq<u8>>,
    key: Seq<u8>,
    value: Seq<u8>,
) -> bool;

/// The 64-bit xxHash of a byte string, seed 0, as eight little-endian bytes.
pub uninterp spec fn twox_64(data: Seq<u8>) -> Seq<u8>;

/// The 128-bit xxHash of a byte string: seeds 0 and 1, sixteen bytes.
pub uninterp spec fn twox_128(data: Seq<u8>) -> Seq<u8>;

/// The list of byte strings that a byte string encodes, if it encodes one: a compact
/// count, then as many length-prefixed byte strings. What stands behind them is not
/// looked at.
pub open spec fn scale_node_list(bytes: Seq<u8>) -> Option<Seq<Seq<u8>>> {
    match compact_u32(bytes, 0) {
        Some((count, start)) => byte_strings(bytes, start, count as nat),
        None => None,
    }
}

/// The `value` field of the protobuf `Any` that a byte string encodes, if it encodes one.
pub uninterp spec fn any_value(bytes: Seq<u8>) -> Option<Seq<u8>>;

/// The byte strings of a list.
pub open spec fn nodes_view(nodes: Seq<Vec<u8>>) -> Seq<Seq<u8>> {
    nodes.map_values(|n: Vec<u8>| n@)
}

/// The outcome of a lookup, by its bytes.
pub open spec fn lookup_view(r: Option<Option<Vec<u8>>>) -> Option<Option<Seq<u8>>> {
    match r {
        None => None,
        Some(None) => Some(None),
        Some(Some(v)) => Some(Some(v@)),
    }
}

/// The byte strings of a list, if there is one.
pub open spec fn node_list_view(r: Option<Vec<Vec<u8>>>) -> Option<Seq<Seq<u8>>> {
    match r {
        None => None,
        Some(v) => Some(nodes_view(v@)),
    }
}

/// The bytes of an optional byte string.
pub open spec fn bytes_view(r: Option<Vec<u8>>) -> Option<Seq<u8>> {
    match r {
        None => None,
        Some(v) => Some(v@),
    }
}

/// Looks `key` up under `root` with `read_trie_value` of `sp_trie`, in the version-0
/// layout with BLAKE2b-256, over the nodes of the proof. The outcome depends on the root,
/// the set of nodes and the key alone; an error of the trie is an invalid proof.
#[verifier::external_body]
pub(crate) fn read_trie_proof(root: &H256, nodes: &Vec<Vec<u8>>, key: &[u8]) -> (r: Option<
    Option<Vec<u8>>,
>)
    ensures
        lookup_view(r) == trie_value(root@, nodes_view(nodes@), key@),
{
    let db = sp_trie::StorageProof::new(nodes.clone()).into_memory_db::<sp_core::Blake2Hasher>();
    sp_trie::read_trie_value::<sp_trie::LayoutV0<sp_core::Blake2Hasher>, _>(
        &db,
        &sp_core::H256(*root),
        key,
        None,
        None,
    ).ok()
}

/// Checks with `verify_trie_proof` of `sp_trie`, in the version-0 layout with
/// BLAKE2b-256, that the proof shows `value` at `key` under `root`. The answer depends
/// on the four arguments alone.
#[verifier::external_body]
pub(crate) fn check_trie_proof(root: &H256, proof: &Vec<Vec<u8>>, key: &[u8], value: &[u8]) -> (ok:
    bool)
    ensures
        ok == trie_proof_valid(root@, nodes_view(proof@), key@, value@),
{
    sp_trie::verify_trie_proof::<sp_trie::LayoutV0<sp_core::Blake2Hasher>, _, _, _>(
        &sp_core::H256(*root),
        proof.as_slice(),
        &[(key, Some(value))],
    ).is_ok()
}

/// Calls `twox_64` of `sp_crypto_hashing`: the xxHash64 of the input with seed 0.
#[verifier::external_body]
pub(crate) fn twox_64_digest(data: &[u8]) -> (digest: [u8; 8])
    ensures
        digest@ == twox_64(data@),
{
    sp_crypto_hashing::twox_64(data)
}

/// Calls `twox_128` of `sp_crypto_hashing`: the xxHash64 of the input with seeds 0 and 1.
#[verifier::external_body]
pub(crate) fn twox_128_digest(data: &[u8]) -> (digest: [u8; 16])
    ensures
        digest@ == twox_128(data@),
{
    sp_crypto_hashing::twox_128(data)
}

/// Decodes a list of byte strings with `Decode::decode` of `parity_scale_codec`: it
/// reads a compact count in its shortest form, then as many byte strings, each a
/// compact length in its shortest form and that many bytes. Bytes behind the list are
/// ignored; input that ends early, or a number that is not in its shortest form, gives
/// `None`.
#[verifier::external_body]
pub(crate) fn decode_node_list(bytes: &[u8]) -> (r: Option<Vec<Vec<u8>>>)
    ensures
        node_list_view(r) == scale_node_list(bytes@),
{
    <Vec<Vec<u8>> as parity_scale_codec::Decode>::decode(&mut &bytes[..]).ok()
}

/// The encoding of a 64-bit integer: its eight bytes, least significant first.
pub fn encode_u64(value: u64) -> (out: Vec<u8>)
    ensures
        out@ == le_bytes(value as nat, 8),
{
    let mut out: Vec<u8> = Vec::new();
    write_le(&mut out, value, 8);
    assert(out@ =~= le_bytes(value as nat, 8));
    out
}

/// Decodes a protobuf `Any` with `Message::decode` of `prost` and hands out its `value`
/// field. Malformed input gives `None`.
#[verifier::external_body]
pub(crate) fn decode_any_value(bytes: &[u8]) -> (r: Option<Vec<u8>>)
    ensures
        bytes_view(r) == any_value(bytes@),
{
    <ibc_proto::google::protobuf::Any as prost::Message>::decode(bytes).ok().map(|any| any.value)
}

/// The name of the parachains pallet in storage keys: `Paras`.
pub open spec fn paras_pallet() -> Seq<u8> {
    seq![0x50u8, 0x61u8, 0x72u8, 0x61u8, 0x73u8]
}

/// The name of the storage item that holds the parachain heads: `Heads`.
pub open spec fn heads_item() -> Seq<u8> {
    seq![0x48u8, 0x65u8, 0x61u8, 0x64u8, 0x73u8]
}

/// The storage key of the head of parachain `para_id` on the relay chain.
pub open spec fn parachain_header_key(para_id: u32) -> Seq<u8> {
    twox_128(paras_pallet()) + twox_128(heads_item()) + twox_64(le_bytes(para_id as nat, 4))
        + le_bytes(para_id as nat, 4)
}

/// The storage key under which the relay chain commits the client state of an upgrade.
pub open spec fn client_state_upgrade_path() -> Seq<u8> {
    seq![
        0x63u8, 0x6cu8, 0x69u8, 0x65u8, 0x6eu8, 0x74u8, 0x2du8, 0x73u8, 0x74u8, 0x61u8, 0x74u8,
        0x65u8, 0x2du8, 0x75u8, 0x70u8, 0x67u8, 0x72u8, 0x61u8, 0x64u8, 0x65u8, 0x2du8, 0x70u8,
        0x61u8, 0x74u8, 0x68u8,
    ]
}

/// The storage key under which the relay chain commits the consensus state of an upgrade.
pub open spec fn consensus_state_upgrade_path() -> Seq<u8> {
    seq![
        0x63u8, 0x6fu8, 0x6eu8, 0x73u8, 0x65u8, 0x6eu8, 0x73u8, 0x75u8, 0x73u8, 0x2du8, 0x73u8,
        0x74u8, 0x61u8, 0x74u8, 0x65u8, 0x2du8, 0x75u8, 0x70u8, 0x67u8, 0x72u8, 0x61u8, 0x64u8,
        0x65u8, 0x2du8, 0x70u8, 0x61u8, 0x74u8, 0x68u8,
    ]
}

/// The storage key of the head of parachain `para_id` on the relay chain.
pub fn parachain_header_storage_key(para_id: u32) -> (key: Vec<u8>)
    ensures
        key@ == parachain_header_key(para_id),
{
    let pallet: [u8; 5] = [0x50, 0x61, 0x72, 0x61, 0x73];
    let item: [u8; 5] = [0x48, 0x65, 0x61, 0x64, 0x73];
    assert(pallet@ =~= paras_pallet());
    assert(item@ =~= heads_item());
    let mut id: Vec<u8> = Vec::new();
    write_le(&mut id, para_id as u64, 4);
    assert(id@ =~= le_bytes(para_id as nat, 4));
    let mut key: Vec<u8> = Vec::new();
    append_bytes(&mut key, twox_128_digest(pallet.as_slice()).as_slice());
    append_bytes(&mut key, twox_128_digest(item.as_slice()).as_slice());
    append_bytes(&mut key, twox_64_digest(id.as_slice()).as_slice());
    append_bytes(&mut key, id.as_slice());
    assert(key@ =~= parachain_header_key(para_id));
    key
}

/// The key `client-state-upgrade-path`.
pub fn client_state_upgrade_key() -> (key: Vec<u8>)
    ensures
        key@ == client_state_upgrade_path(),
{
    let key: Vec<u8> = vec![
        0x63u8, 0x6cu8, 0x69u8, 0x65u8, 0x6eu8, 0x74u8, 0x2du8, 0x73u8, 0x74u8, 0x61u8, 0x74u8,
        0x65u8, 0x2du8, 0x75u8, 0x70u8, 0x67u8, 0x72u8, 0x61u8, 0x64u8, 0x65u8, 0x2du8, 0x70u8,
        0x61u8, 0x74u8, 0x68u8,
    ];
    assert(key@ =~= client_state_upgrade_path());
    key
}

/// The key `consensus-state-upgrade-path`.
pub fn consensus_state_upgrade_key() -> (key: Vec<u8>)
    ensures
        key@ == consensus_state_upgrade_path(),
{
    let key: Vec<u8> = vec![
        0x63u8, 0x6fu8, 0x6eu8, 0x73u8, 0x65u8, 0x6eu8, 0x73u8, 0x75u8, 0x73u8, 0x2du8, 0x73u8,
        0x74u8, 0x61u8, 0x74u8, 0x65u8, 0x2du8, 0x75u8, 0x70u8, 0x67u8, 0x72u8, 0x61u8, 0x64u8,
        0x65u8, 0x2du8, 0x70u8, 0x61u8, 0x74u8, 0x68u8,
    ];
    assert(key@ =~= consensus_state_upgrade_path());
    key
}

/// Reads the values of `keys` under `root` from a storage proof. A key that the proof
/// shows to be absent reads as `None`. Nodes that no lookup needs do no harm, but a
/// proof with too many nodes is refused.
pub fn read_proof_check(root: &H256, nodes: &Vec<Vec<u8>>, keys: &Vec<Vec<u8>>) -> (r: Result<
    Vec<Option<Vec<u8>>>,
    Error,
>)
    ensures
        nodes@.len() > MAX_TRIE_NODES ==> r == Err::<Vec<Option<Vec<u8>>>, Error>(
            Error::InputTooLarge,
        ),
        nodes@.len() <= MAX_TRIE_NODES ==> (r is Ok <==> forall|i: int|
            0 <= i < keys@.len() ==> (#[trigger] trie_value(
                root@,
                nodes_view(nodes@),
                keys@[i]@,
            )) is Some),
        r matches Ok(values) ==> values@.len() == keys@.len() && forall|i: int|
            0 <= i < keys@.len() ==> Some(bytes_view(#[trigger] values@[i])) == trie_value(
                root@,
                nodes_view(nodes@),
                keys@[i]@,
            ),
        nodes@.len() <= MAX_TRIE_NODES && r is Err ==> r == Err::<Vec<Option<Vec<u8>>>, Error>(
            Error::InvalidStorageProof,
        ),
{
    if nodes.len() > MAX_TRIE_NODES {
        return Err(Error::InputTooLarge);
    }
    let mut values: Vec<Option<Vec<u8>>> = Vec::new();
    let mut i: usize = 0;
    while i < keys.len()
        invariant
            i <= keys.len(),
            nodes@.len() <= MAX_TRIE_NODES,
            values@.len() == i,
            forall|k: int|
                0 <= k < i ==> Some(bytes_view(#[trigger] values@[k])) == trie_value(
                    root@,
                    nodes_view(nodes@),
                    keys@[k]@,
                ),
        decreases keys.len() - i,
    {
        match read_trie_proof(root, nodes, keys[i].as_slice()) {
            Some(v) => {
                values.push(v);
            },
            None => {
                return Err(Error::InvalidStorageProof);
            },
        }
        i += 1;
    }
    assert forall|k: int| 0 <= k < keys@.len() implies (#[trigger] trie_value(
        root@,
        nodes_view(nodes@),
        keys@[k]@,
    )) is Some by {
        assert(Some(bytes_view(values@[k])) == trie_value(root@, nodes_view(nodes@), keys@[k]@));
    }
    Ok(values)
}

} // verus!
