//! Relay-chain headers: their encoding, their hash, and how they are read from bytes.
//!
//! A header keeps its digest as the bytes of the encoded list of digest items, so that
//! encoding a header gives back exactly the bytes that were hashed on the relay chain.

use crate::hashing::blake2_256;
use crate::hashing::blake2_256_digest;
use crate::primitives::append_bytes;
use crate::primitives::array32;
use crate::primitives::copy_bytes;
use crate::primitives::lemma_array32;
use crate::primitives::H256;
use crate::scale::byte_string;
use crate::scale::compact_u32;
use crate::scale::compact_u32_bytes;
use crate::scale::decode_byte_string;
use crate::scale::decode_compact_u32;
use crate::scale::encode_compact_u32;
use crate::scale::read_hash;
use crate::scale::write_hash;
use vstd::prelude::*;
use vstd::slice::slice_subrange;

verus! {

/// A header of the relay chain.
#[derive(Clone, Debug, PartialEq, Eq)]
pub struct RelayHeader {
    pub parent_hash: H256,
    pub number: u32,
    pub state_root: H256,
    pub extrinsics_root: H256,
    /// The encoded list of digest items.
    pub digest: Vec<u8>,
}

/// What a `RelayHeader` holds.
pub struct RelayHeaderView {
    pub parent_hash: H256,
    pub number: u32,
    pub state_root: H256,
    pub extrinsics_root: H256,
    pub digest: Seq<u8>,
}

impl View for RelayHeader {
    type V = RelayHeaderView;

    open spec fn view(&self) -> RelayHeaderView {
        RelayHeaderView {
            parent_hash: self.parent_hash,
            number: self.number,
            state_root: self.state_root,
            extrinsics_root: self.extrinsics_root,
            digest: self.digest@,
        }
    }
}

/// The headers of a list, each by what it holds.
pub open spec fn headers_view(s: Seq<RelayHeader>) -> Seq<RelayHeaderView> {
    s.map_values(|h: RelayHeader| h@)
}

/// The encoding of a header: parent hash, compact number, state root, extrinsics root,
/// digest.
pub open spec fn header_encoding(h: RelayHeaderView) -> Seq<u8> {
    h.parent_hash@ + compact_u32_bytes(h.number) + h.state_root@ + h.extrinsics_root@ + h.digest
}

/// The hash of a header: the BLAKE2b-256 digest of its encoding.
pub open spec fn header_hash(h: RelayHeaderView) -> H256 {
    array32(blake2_256(header_encoding(h)))
}

/// The offset behind the digest item at `pos`, or `None` where the item is malformed.
pub open spec fn digest_item_end(b: Seq<u8>, pos: int) -> Option<int> {
    if pos < 0 || pos >= b.len() {
        None
    } else if b[pos] == 0 {
        match byte_string(b, pos + 1) {
            Some((_, end)) => Some(end),
            None => None,
        }
    } else if b[pos] == 4 || b[pos] == 5 || b[pos] == 6 {
        if pos + 5 > b.len() {
            None
        } else {
            match byte_string(b, pos + 5) {
                Some((_, end)) => Some(end),
                None => None,
            }
        }
    } else if b[pos] == 8 {
        Some(pos + 1)
    } else {
        None
    }
}

/// The offset behind `count` digest items that start at `pos`.
pub open spec fn digest_items_end(b: Seq<u8>, pos: int, count: nat) -> Option<int>
    decreases count,
{
    if count == 0 {
        Some(pos)
    } else {
        match digest_item_end(b, pos) {
            Some(next) => digest_items_end(b, next, (count - 1) as nat),
            None => None,
        }
    }
}

/// The offset behind the list of digest items that starts at `pos`.
pub open spec fn digest_end(b: Seq<u8>, pos: int) -> Option<int> {
    match compact_u32(b, pos) {
        Some((count, start)) => digest_items_end(b, start, count as nat),
        None => None,
    }
}

/// The header that is encoded at `pos`, and the offset behind it.
pub open spec fn header_at(b: Seq<u8>, pos: int) -> Option<(RelayHeaderView, int)> {
    if pos < 0 || pos + 32 > b.len() {
        None
    } else {
        match compact_u32(b, pos + 32) {
            Some((number, roots)) => if roots + 64 > b.len() {
                None
            } else {
                match digest_end(b, roots + 64) {
                    Some(end) => Some(
                        (
                            RelayHeaderView {
                                parent_hash: array32(b.subrange(pos, pos + 32)),
                                number,
                                state_root: array32(b.subrange(roots, roots + 32)),
                                extrinsics_root: array32(b.subrange(roots + 32, roots + 64)),
                                digest: b.subrange(roots + 64, end),
                            },
                            end,
                        ),
                    ),
                    None => None,
                }
            },
            None => None,
        }
    }
}

/// Finds the offset behind the digest item at `pos`.
pub fn find_digest_item_end(bytes: &[u8], pos: usize) -> (r: Option<usize>)
    ensures
        r matches Some(end) ==> digest_item_end(bytes@, pos as int) == Some(end as int) && pos < end
            <= bytes@.len(),
        r is None ==> digest_item_end(bytes@, pos as int) is None,
{
    if pos >= bytes.len() {
        return None;
    }
    let kind: u8 = bytes[pos];
    if kind == 0 {
        match decode_byte_string(bytes, pos + 1) {
            Some((_, end)) => Some(end),
            None => None,
        }
    } else if kind == 4 || kind == 5 || kind == 6 {
        if bytes.len() - pos < 5 {
            return None;
        }
        match decode_byte_string(bytes, pos + 5) {
            Some((_, end)) => Some(end),
            None => None,
        }
    } else if kind == 8 {
        Some(pos + 1)
    } else {
        None
    }
}

/// Finds the offset behind the list of digest items that starts at `pos`.
pub fn find_digest_end(bytes: &[u8], pos: usize) -> (r: Option<usize>)
    ensures
        r matches Some(end) ==> digest_end(bytes@, pos as int) == Some(end as int) && pos < end
            <= bytes@.len(),
        r is None ==> digest_end(bytes@, pos as int) is None,
{
    let (count, start) = match decode_compact_u32(bytes, pos) {
        Some(x) => x,
        None => { return None; },
    };
    let mut at: usize = start;
    let mut left: u32 = count;
    while left > 0
        invariant
            pos < start <= at <= bytes@.len(),
            compact_u32(bytes@, pos as int) == Some((count, start as int)),
            digest_items_end(bytes@, start as int, count as nat) == digest_items_end(
                bytes@,
                at as int,
                left as nat,
            ),
        decreases left,
    {
        match find_digest_item_end(bytes, at) {
            Some(next) => {
                at = next;
                left -= 1;
            },
            None => { return None; },
        }
    }
    Some(at)
}

impl RelayHeader {
    /// The encoding of the header.
    pub fn encode(&self) -> (out: Vec<u8>)
        ensures
            out@ == header_encoding(self@),
    {
        let mut out: Vec<u8> = Vec::new();
        write_hash(&mut out, &self.parent_hash);
        encode_compact_u32(&mut out, self.number);
        write_hash(&mut out, &self.state_root);
        write_hash(&mut out, &self.extrinsics_root);
        append_bytes(&mut out, self.digest.as_slice());
        assert(out@ =~= header_encoding(self@));
        out
    }

    /// The hash of the header.
    pub fn hash(&self) -> (h: H256)
        ensures
            h == header_hash(self@),
    {
        let encoded = self.encode();
        let h = blake2_256_digest(encoded.as_slice());
        proof {
            lemma_array32(h);
        }
        h
    }

    /// A copy of the header.
    pub fn duplicate(&self) -> (r: RelayHeader)
        ensures
            r@ == self@,
    {
        RelayHeader {
            parent_hash: self.parent_hash,
            number: self.number,
            state_root: self.state_root,
            extrinsics_root: self.extrinsics_root,
            digest: copy_bytes(self.digest.as_slice()),
        }
    }

    /// Reads the header that is encoded at `pos`. Bytes behind the header are left alone.
    pub fn decode(bytes: &[u8], pos: usize) -> (r: Option<(RelayHeader, usize)>)
        ensures
            r matches Some((h, end)) ==> header_at(bytes@, pos as int) == Some((h@, end as int))
                && pos < end <= bytes@.len(),
            r is None ==> header_at(bytes@, pos as int) is None,
    {
        if bytes.len() < 32 || pos > bytes.len() - 32 {
            return None;
        }
        let parent_hash = read_hash(bytes, pos);
        let (number, roots) = match decode_compact_u32(bytes, pos + 32) {
            Some(x) => x,
            None => { return None; },
        };
        if bytes.len() - roots < 64 {
            return None;
        }
        let state_root = read_hash(bytes, roots);
        let extrinsics_root = read_hash(bytes, roots + 32);
        let end = match find_digest_end(bytes, roots + 64) {
            Some(x) => x,
            None => { return None; },
        };
        let digest = copy_bytes(slice_subrange(bytes, roots + 64, end));
        proof {
            lemma_array32(parent_hash);
            lemma_array32(state_root);
            lemma_array32(extrinsics_root);
        }
        Some((RelayHeader { parent_hash, number, state_root, extrinsics_root, digest }, end))
    }
}

} // verus!
