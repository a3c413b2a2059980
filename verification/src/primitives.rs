//! Hashes, keys, heights and the byte-sequence notions that the rest of the crate shares.

use vstd::prelude::*;

verus! {

/// A 32-byte block hash or state root.
pub type H256 = [u8; 32];

/// An ed25519 public key of a GRANDPA authority.
pub type PublicKey = [u8; 32];

/// An ed25519 signature.
pub type Signature = [u8; 64];

/// How many relay-chain headers a finality proof may hold.
pub const MAX_UNKNOWN_HEADERS: usize = 512;

/// How many proofs of parachain headers an update may hold.
pub const MAX_PARACHAIN_HEADERS: usize = 256;

/// How many trie nodes a storage proof may hold.
pub const MAX_TRIE_NODES: usize = 16_384;

/// Nanoseconds in one millisecond.
pub const NANOS_PER_MILLI: u64 = 1_000_000;

/// The 32-byte array that holds the bytes of `s`.
pub open spec fn array32(s: Seq<u8>) -> H256 {
    choose|h: H256| h@ == s
}

/// The 64-byte array that holds the bytes of `s`.
pub open spec fn array64(s: Seq<u8>) -> Signature {
    choose|h: Signature| h@ == s
}

/// An array is the array of its bytes.
pub proof fn lemma_array32(h: H256)
    ensures
        array32(h@) == h,
{
    let k = array32(h@);
    assert(k@ == h@);
    assert(k@ =~= h@);
    assert(k =~= h);
}

/// An array is the array of its bytes.
pub proof fn lemma_array64(h: Signature)
    ensures
        array64(h@) == h,
{
    let k = array64(h@);
    assert(k@ == h@);
    assert(k =~= h);
}

/// Whether two hashes hold the same bytes.
pub fn hash_eq(a: &H256, b: &H256) -> (r: bool)
    ensures
        r == (a@ == b@),
        r == (*a == *b),
{
    let mut i: usize = 0;
    while i < 32
        invariant
            i <= 32,
            forall|j: int| 0 <= j < i ==> a@[j] == b@[j],
        decreases 32 - i,
    {
        if a[i] != b[i] {
            return false;
        }
        i += 1;
    }
    assert(a@ =~= b@);
    assert(*a =~= *b);
    true
}

/// Whether two byte strings are equal.
pub fn bytes_eq(a: &[u8], b: &[u8]) -> (r: bool)
    ensures
        r == (a@ == b@),
{
    if a.len() != b.len() {
        return false;
    }
    let mut i: usize = 0;
    while i < a.len()
        invariant
            i <= a.len(),
            a.len() == b.len(),
            forall|j: int| 0 <= j < i ==> a@[j] == b@[j],
        decreases a.len() - i,
    {
        if a[i] != b[i] {
            return false;
        }
        i += 1;
    }
    assert(a@ =~= b@);
    true
}

/// A copy of a byte string.
pub fn copy_bytes(a: &[u8]) -> (r: Vec<u8>)
    ensures
        r@ == a@,
{
    let mut out: Vec<u8> = Vec::new();
    let mut i: usize = 0;
    while i < a.len()
        invariant
            i <= a.len(),
            out@ == a@.take(i as int),
        decreases a.len() - i,
    {
        out.push(a[i]);
        assert(a@.take(i as int + 1) =~= a@.take(i as int).push(a@[i as int]));
        i += 1;
    }
    assert(a@.take(a.len() as int) =~= a@);
    out
}

/// Appends a byte string to a buffer.
pub fn append_bytes(out: &mut Vec<u8>, a: &[u8])
    ensures
        final(out)@ == old(out)@ + a@,
{
    let ghost before = out@;
    let mut i: usize = 0;
    while i < a.len()
        invariant
            i <= a.len(),
            out@ == before + a@.take(i as int),
        decreases a.len() - i,
    {
        out.push(a[i]);
        assert(a@.take(i as int + 1) =~= a@.take(i as int).push(a@[i as int]));
        assert(before + a@.take(i as int + 1) =~= (before + a@.take(i as int)).push(a@[i as int]));
        i += 1;
    }
    assert(a@.take(a.len() as int) =~= a@);
}

/// A height of the parachain as IBC counts it: the parachain id, then the block number.
#[derive(Clone, Copy, Debug, PartialEq, Eq, Structural)]
pub struct Height {
    pub revision_number: u64,
    pub revision_height: u64,
}

impl Height {
    /// Heights are ordered by revision number first, by revision height second.
    pub open spec fn spec_lt(self, other: Height) -> bool {
        self.revision_number < other.revision_number || (self.revision_number
            == other.revision_number && self.revision_height < other.revision_height)
    }

    pub open spec fn spec_le(self, other: Height) -> bool {
        self.spec_lt(other) || self == other
    }

    pub fn new(revision_number: u64, revision_height: u64) -> (h: Height)
        ensures
            h.revision_number == revision_number,
            h.revision_height == revision_height,
    {
        Height { revision_number, revision_height }
    }

    /// Whether `self` lies strictly below `other`.
    pub fn lt(&self, other: &Height) -> (r: bool)
        ensures
            r == self.spec_lt(*other),
    {
        self.revision_number < other.revision_number || (self.revision_number
            == other.revision_number && self.revision_height < other.revision_height)
    }

    /// Whether `self` lies at or below `other`.
    pub fn le(&self, other: &Height) -> (r: bool)
        ensures
            r == self.spec_le(*other),
    {
        self.revision_number < other.revision_number || (self.revision_number
            == other.revision_number && self.revision_height <= other.revision_height)
    }
}

} // verus!
