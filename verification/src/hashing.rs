//! The hash functions of the relay chain, taken from `sp_core`.

use crate::primitives::H256;
use vstd::prelude::*;

verus! {

/// The BLAKE2b-256 digest of a byte string.
pub uninterp spec fn blake2_256(data: Seq<u8>) -> Seq<u8>;

/// Calls `hash` of `sp_core::Blake2Hasher`, which is BLAKE2b with a 256-bit output. The
/// digest is a function of the input bytes alone and is 32 bytes long.
#[verifier::external_body]
pub(crate) fn blake2_256_digest(data: &[u8]) -> (digest: H256)
    ensures
        digest@ == blake2_256(data@),
{
    <sp_core::Blake2Hasher as sp_core::Hasher>::hash(data).0
}

} // verus!
