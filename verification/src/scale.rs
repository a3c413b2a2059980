//! The SCALE codec, as far as relay-chain headers and GRANDPA justifications use it:
//! little-endian integers, compact integers, and length-prefixed byte strings.
//!
//! Every decoder reads at an offset of a byte string and gives the value together with
//! the offset behind it. A decoder never reads past the end of its input.

use crate::primitives::append_bytes;
use crate::primitives::H256;
use crate::primitives::Signature;
use vstd::prelude::*;

verus! {

/// 256 to the power of `n`.
pub open spec fn pow256(n: nat) -> nat
    decreases n,
{
    if n == 0 {
        1
    } else {
        256 * pow256((n - 1) as nat)
    }
}

/// The number that a little-endian byte string stands for.
pub open spec fn le_value(b: Seq<u8>) -> nat
    decreases b.len(),
{
    if b.len() == 0 {
        0
    } else {
        b[0] as nat + 256 * le_value(b.skip(1))
    }
}

/// The first `n` little-endian bytes of `v`.
pub open spec fn le_bytes(v: nat, n: nat) -> Seq<u8>
    decreases n,
{
    if n == 0 {
        Seq::<u8>::empty()
    } else {
        seq![(v % 256) as u8] + le_bytes(v / 256, (n - 1) as nat)
    }
}

pub proof fn lemma_pow256_values()
    ensures
        pow256(0) == 1,
        pow256(1) == 0x100,
        pow256(2) == 0x1_0000,
        pow256(3) == 0x100_0000,
        pow256(4) == 0x1_0000_0000,
        pow256(5) == 0x100_0000_0000,
        pow256(6) == 0x1_0000_0000_0000,
        pow256(7) == 0x100_0000_0000_0000,
        pow256(8) == 0x1_0000_0000_0000_0000,
{
    reveal_with_fuel(pow256, 10);
}

/// A byte string of length `n` stands for a number below `256^n`.
pub proof fn lemma_le_value_bound(b: Seq<u8>)
    ensures
        le_value(b) < pow256(b.len()),
    decreases b.len(),
{
    if b.len() > 0 {
        lemma_le_value_bound(b.skip(1));
    }
}

pub proof fn lemma_le_bytes_len(v: nat, n: nat)
    ensures
        le_bytes(v, n).len() == n,
    decreases n,
{
    if n > 0 {
        lemma_le_bytes_len(v / 256, (n - 1) as nat);
    }
}

/// Writing a number that fits into `n` bytes and reading it back gives the number.
pub proof fn lemma_le_round_trip(v: nat, n: nat)
    requires
        v < pow256(n),
    ensures
        le_value(le_bytes(v, n)) == v,
    decreases n,
{
    if n > 0 {
        let rest = le_bytes(v / 256, (n - 1) as nat);
        let whole = le_bytes(v, n);
        assert(whole.skip(1) =~= rest);
        assert(whole[0] == (v % 256) as u8);
        lemma_le_bytes_len(v, n);
        lemma_le_round_trip(v / 256, (n - 1) as nat);
    }
}

/// Reads `n` little-endian bytes at `pos`.
pub fn read_le(bytes: &[u8], pos: usize, n: usize) -> (r: u64)
    requires
        n <= 8,
        pos + n <= bytes@.len(),
    ensures
        r as nat == le_value(bytes@.subrange(pos as int, pos + n)),
{
    let total: usize = bytes.len();
    let mut acc: u64 = 0;
    let mut i: usize = n;
    proof {
        lemma_pow256_values();
    }
    while i > 0
        invariant
            i <= n <= 8,
            pos + n <= total,
            total == bytes@.len(),
            acc as nat == le_value(bytes@.subrange(pos + i, pos + n)),
            acc < pow256((n - i) as nat),
        decreases i,
    {
        i -= 1;
        proof {
            lemma_pow256_values();
            let s = bytes@.subrange(pos + i, pos + n);
            assert(s.skip(1) =~= bytes@.subrange(pos + i + 1, pos + n));
            assert(s[0] == bytes@[pos + i]);
            assert(pow256((n - i) as nat) == 256 * pow256((n - i - 1) as nat));
            assert(pow256((n - i - 1) as nat) <= 0x100_0000_0000_0000);
        }
        let byte: u8 = bytes[pos + i];
        acc = acc * 256 + byte as u64;
    }
    acc
}

/// Appends the first `n` little-endian bytes of `v`.
pub fn write_le(out: &mut Vec<u8>, v: u64, n: usize)
    requires
        n <= 8,
    ensures
        final(out)@ == old(out)@ + le_bytes(v as nat, n as nat),
{
    let ghost before = out@;
    let mut rest: u64 = v;
    let mut i: usize = 0;
    assert(le_bytes(v as nat, n as nat) =~= Seq::<u8>::empty() + le_bytes(v as nat, n as nat));
    assert(before + Seq::<u8>::empty() =~= before);
    let ghost mut written = Seq::<u8>::empty();
    while i < n
        invariant
            i <= n <= 8,
            out@ == before + written,
            written.len() == i,
            le_bytes(v as nat, n as nat) == written + le_bytes(rest as nat, (n - i) as nat),
        decreases n - i,
    {
        let byte: u8 = (rest % 256) as u8;
        out.push(byte);
        proof {
            let tail = le_bytes(rest as nat / 256, (n - i - 1) as nat);
            assert(le_bytes(rest as nat, (n - i) as nat) == seq![byte] + tail);
            assert(written + (seq![byte] + tail) =~= written.push(byte) + tail);
            assert((before + written).push(byte) =~= before + written.push(byte));
            written = written.push(byte);
        }
        rest = rest / 256;
        i += 1;
    }
    assert(written + Seq::<u8>::empty() =~= written);
}

/// A compact 32-bit integer at `pos`: the value and the offset behind it, or `None`
/// where the input ends early or the number is not in its shortest form.
pub open spec fn compact_u32(b: Seq<u8>, pos: int) -> Option<(u32, int)> {
    if pos < 0 || pos >= b.len() {
        None
    } else {
        let prefix = b[pos] as int;
        if prefix % 4 == 0 {
            Some(((prefix / 4) as u32, pos + 1))
        } else if prefix % 4 == 1 {
            if pos + 2 > b.len() {
                None
            } else {
                let x = le_value(b.subrange(pos, pos + 2)) / 4;
                if x > 0x3f {
                    Some((x as u32, pos + 2))
                } else {
                    None
                }
            }
        } else if prefix % 4 == 2 {
            if pos + 4 > b.len() {
                None
            } else {
                let x = le_value(b.subrange(pos, pos + 4)) / 4;
                if x > 0x3fff {
                    Some((x as u32, pos + 4))
                } else {
                    None
                }
            }
        } else {
            if prefix != 3 || pos + 5 > b.len() {
                None
            } else {
                let x = le_value(b.subrange(pos + 1, pos + 5));
                if x > 0x3fff_ffff {
                    Some((x as u32, pos + 5))
                } else {
                    None
                }
            }
        }
    }
}

/// The least power of 256 that a compact integer of `n` payload bytes must reach.
pub open spec fn compact_floor(n: int) -> nat {
    if n == 4 {
        0x4000_0000
    } else {
        pow256((n - 1) as nat)
    }
}

/// A compact 64-bit integer at `pos`.
pub open spec fn compact_u64(b: Seq<u8>, pos: int) -> Option<(u64, int)> {
    if pos < 0 || pos >= b.len() {
        None
    } else {
        let prefix = b[pos] as int;
        if prefix % 4 != 3 {
            match compact_u32(b, pos) {
                Some((v, next)) => Some((v as u64, next)),
                None => None,
            }
        } else {
            let n = prefix / 4 + 4;
            if n > 8 || pos + 1 + n > b.len() {
                None
            } else {
                let x = le_value(b.subrange(pos + 1, pos + 1 + n));
                if x >= compact_floor(n) {
                    Some((x as u64, pos + 1 + n))
                } else {
                    None
                }
            }
        }
    }
}

/// The shortest compact form of a 32-bit integer.
pub open spec fn compact_u32_bytes(v: u32) -> Seq<u8> {
    if v < 0x40 {
        le_bytes(4 * v as nat, 1)
    } else if v < 0x4000 {
        le_bytes((4 * v + 1) as nat, 2)
    } else if v < 0x4000_0000 {
        le_bytes((4 * v + 2) as nat, 4)
    } else {
        seq![3u8] + le_bytes(v as nat, 4)
    }
}

/// A decoder's answer, with the offset as the specifications count it.
pub open spec fn at<T>(r: Option<(T, usize)>) -> Option<(T, int)> {
    match r {
        Some((v, next)) => Some((v, next as int)),
        None => None,
    }
}

/// Decodes a compact 32-bit integer at `pos`.
pub fn decode_compact_u32(bytes: &[u8], pos: usize) -> (r: Option<(u32, usize)>)
    ensures
        at(r) == compact_u32(bytes@, pos as int),
        r matches Some((_, next)) ==> pos < next <= bytes@.len(),
{
    if pos >= bytes.len() {
        return None;
    }
    let prefix: u8 = bytes[pos];
    let mode: u8 = prefix % 4;
    let room: usize = bytes.len() - pos;
    proof {
        lemma_pow256_values();
    }
    if mode == 0 {
        Some(((prefix / 4) as u32, pos + 1))
    } else if mode == 1 {
        if room < 2 {
            return None;
        }
        proof {
            lemma_le_value_bound(bytes@.subrange(pos as int, pos + 2));
        }
        let x: u64 = read_le(bytes, pos, 2) / 4;
        if x > 0x3f {
            Some((x as u32, pos + 2))
        } else {
            None
        }
    } else if mode == 2 {
        if room < 4 {
            return None;
        }
        proof {
            lemma_le_value_bound(bytes@.subrange(pos as int, pos + 4));
        }
        let x: u64 = read_le(bytes, pos, 4) / 4;
        if x > 0x3fff {
            Some((x as u32, pos + 4))
        } else {
            None
        }
    } else {
        if prefix != 3 || room < 5 {
            return None;
        }
        proof {
            lemma_le_value_bound(bytes@.subrange(pos + 1, pos + 5));
        }
        let x: u64 = read_le(bytes, pos + 1, 4);
        if x > 0x3fff_ffff {
            Some((x as u32, pos + 5))
        } else {
            None
        }
    }
}

/// Decodes a compact 64-bit integer at `pos`.
pub fn decode_compact_u64(bytes: &[u8], pos: usize) -> (r: Option<(u64, usize)>)
    ensures
        at(r) == compact_u64(bytes@, pos as int),
        r matches Some((_, next)) ==> pos < next <= bytes@.len(),
{
    if pos >= bytes.len() {
        return None;
    }
    let prefix: u8 = bytes[pos];
    if prefix % 4 != 3 {
        return match decode_compact_u32(bytes, pos) {
            Some((v, next)) => Some((v as u64, next)),
            None => None,
        };
    }
    let n: usize = (prefix / 4) as usize + 4;
    let room: usize = bytes.len() - pos;
    if n > 8 || room < 1 + n {
        return None;
    }
    proof {
        lemma_pow256_values();
        lemma_le_value_bound(bytes@.subrange(pos + 1, pos + 1 + n));
    }
    let x: u64 = read_le(bytes, pos + 1, n);
    let floor: u64 = if n == 4 {
        0x4000_0000
    } else if n == 5 {
        0x1_0000_0000
    } else if n == 6 {
        0x100_0000_0000
    } else if n == 7 {
        0x1_0000_0000_0000
    } else {
        0x100_0000_0000_0000
    };
    if x >= floor {
        Some((x, pos + 1 + n))
    } else {
        None
    }
}

/// Appends the shortest compact form of `v`.
pub fn encode_compact_u32(out: &mut Vec<u8>, v: u32)
    ensures
        final(out)@ == old(out)@ + compact_u32_bytes(v),
{
    if v < 0x40 {
        write_le(out, 4 * (v as u64), 1);
    } else if v < 0x4000 {
        write_le(out, 4 * (v as u64) + 1, 2);
    } else if v < 0x4000_0000 {
        write_le(out, 4 * (v as u64) + 2, 4);
    } else {
        let ghost before = out@;
        out.push(3u8);
        write_le(out, v as u64, 4);
        assert(before.push(3u8) + le_bytes(v as nat, 4) =~= before + (seq![3u8] + le_bytes(
            v as nat,
            4,
        )));
    }
}

/// The shortest compact form of a number decodes to that number, whatever follows it.
pub proof fn lemma_compact_u32_round_trip(v: u32, rest: Seq<u8>)
    ensures
        compact_u32(compact_u32_bytes(v) + rest, 0) == Some((v, compact_u32_bytes(v).len() as int)),
{
    lemma_pow256_values();
    let enc = compact_u32_bytes(v);
    let b = enc + rest;
    if v < 0x40 {
        lemma_le_bytes_len(4 * v as nat, 1);
        lemma_le_round_trip(4 * v as nat, 1);
        assert(enc[0] == ((4 * v) % 256) as u8);
        assert(b[0] == enc[0]);
    } else if v < 0x4000 {
        let w = (4 * v + 1) as nat;
        lemma_le_bytes_len(w, 2);
        lemma_le_round_trip(w, 2);
        assert(b.subrange(0, 2) =~= enc);
        assert(enc[0] == (w % 256) as u8);
        assert(b[0] == enc[0]);
    } else if v < 0x4000_0000 {
        let w = (4 * v + 2) as nat;
        lemma_le_bytes_len(w, 4);
        lemma_le_round_trip(w, 4);
        assert(b.subrange(0, 4) =~= enc);
        assert(enc[0] == (w % 256) as u8);
        assert(b[0] == enc[0]);
    } else {
        lemma_le_bytes_len(v as nat, 4);
        lemma_le_round_trip(v as nat, 4);
        assert(b.subrange(1, 5) =~= le_bytes(v as nat, 4));
        assert(b[0] == 3u8);
    }
}

/// A length-prefixed byte string at `pos`: its content and the offset behind it.
pub open spec fn byte_string(b: Seq<u8>, pos: int) -> Option<(Seq<u8>, int)> {
    match compact_u32(b, pos) {
        Some((len, start)) => if start + len <= b.len() {
            Some((b.subrange(start, start + len), start + len))
        } else {
            None
        },
        None => None,
    }
}

/// `n` length-prefixed byte strings, one behind the other from `pos` on.
pub open spec fn byte_strings(b: Seq<u8>, pos: int, n: nat) -> Option<Seq<Seq<u8>>>
    decreases n,
{
    if n == 0 {
        Some(Seq::empty())
    } else {
        match byte_string(b, pos) {
            Some((first, next)) => match byte_strings(b, next, (n - 1) as nat) {
                Some(rest) => Some(seq![first] + rest),
                None => None,
            },
            None => None,
        }
    }
}

/// Finds the bounds of a length-prefixed byte string at `pos`: where its content starts
/// and where it ends.
pub fn decode_byte_string(bytes: &[u8], pos: usize) -> (r: Option<(usize, usize)>)
    ensures
        r matches Some((start, end)) ==> pos < start <= end <= bytes@.len() && byte_string(
            bytes@,
            pos as int,
        ) == Some((bytes@.subrange(start as int, end as int), end as int)),
        r is None ==> byte_string(bytes@, pos as int) is None,
{
    match decode_compact_u32(bytes, pos) {
        Some((len, start)) => {
            if bytes.len() - start < len as usize {
                None
            } else {
                Some((start, start + len as usize))
            }
        },
        None => None,
    }
}

/// Reads the 32 bytes at `pos`.
pub fn read_hash(bytes: &[u8], pos: usize) -> (h: H256)
    requires
        pos + 32 <= bytes@.len(),
    ensures
        h@ == bytes@.subrange(pos as int, pos + 32),
{
    let total: usize = bytes.len();
    let mut h: H256 = [0u8; 32];
    let mut i: usize = 0;
    while i < 32
        invariant
            i <= 32,
            pos + 32 <= total,
            total == bytes@.len(),
            forall|j: int| 0 <= j < i ==> h@[j] == bytes@[pos + j],
        decreases 32 - i,
    {
        h[i] = bytes[pos + i];
        i += 1;
    }
    assert(h@ =~= bytes@.subrange(pos as int, pos + 32));
    h
}

/// Reads the 64 bytes at `pos`.
pub fn read_signature(bytes: &[u8], pos: usize) -> (s: Signature)
    requires
        pos + 64 <= bytes@.len(),
    ensures
        s@ == bytes@.subrange(pos as int, pos + 64),
{
    let total: usize = bytes.len();
    let mut s: Signature = [0u8; 64];
    let mut i: usize = 0;
    while i < 64
        invariant
            i <= 64,
            pos + 64 <= total,
            total == bytes@.len(),
            forall|j: int| 0 <= j < i ==> s@[j] == bytes@[pos + j],
        decreases 64 - i,
    {
        s[i] = bytes[pos + i];
        i += 1;
    }
    assert(s@ =~= bytes@.subrange(pos as int, pos + 64));
    s
}

/// Appends the bytes of a hash.
pub fn write_hash(out: &mut Vec<u8>, h: &H256)
    ensures
        final(out)@ == old(out)@ + h@,
{
    append_bytes(out, h.as_slice());
}

} // verus!
