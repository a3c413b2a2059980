//! The GRANDPA consensus logs in the digest of a relay-chain header: changes of the
//! authority set, either scheduled or forced.

use crate::authorities::Authority;
use crate::header::digest_item_end;
use crate::header::find_digest_item_end;
use crate::header::RelayHeader;
use crate::primitives::array32;
use crate::primitives::lemma_array32;
use crate::scale::byte_string;
use crate::scale::compact_u32;
use crate::scale::decode_byte_string;
use crate::scale::decode_compact_u32;
use crate::scale::le_value;
use crate::scale::lemma_le_value_bound;
use crate::scale::lemma_pow256_values;
use crate::scale::read_hash;
use crate::scale::read_le;
use vstd::prelude::*;
use vstd::slice::slice_subrange;

verus! {

/// A change of the authority set that takes effect `delay` blocks after its block.
#[derive(Clone, Debug, PartialEq, Eq)]
pub struct ScheduledChange {
    pub next_authorities: Vec<Authority>,
    pub delay: u32,
}

/// What a `ScheduledChange` holds.
pub struct ScheduledChangeView {
    pub next_authorities: Seq<Authority>,
    pub delay: u32,
}

impl View for ScheduledChange {
    type V = ScheduledChangeView;

    open spec fn view(&self) -> ScheduledChangeView {
        ScheduledChangeView { next_authorities: self.next_authorities@, delay: self.delay }
    }
}

/// A forced change of the authority set, with the block that it counts its delay from.
#[derive(Clone, Debug, PartialEq, Eq)]
pub struct ForcedChange {
    pub median_last_finalized: u32,
    pub change: ScheduledChange,
}

/// The engine id under which GRANDPA writes its consensus logs: `FRNK`.
pub open spec fn grandpa_engine_id() -> Seq<u8> {
    seq![0x46u8, 0x52u8, 0x4eu8, 0x4bu8]
}

/// The authority that is encoded at `pos`: its key, then its weight.
pub open spec fn authority_at(b: Seq<u8>, pos: int) -> Authority {
    Authority {
        key: array32(b.subrange(pos, pos + 32)),
        weight: le_value(b.subrange(pos + 32, pos + 40)) as u64,
    }
}

/// The scheduled change that is encoded at `pos`: the list of next authorities, then the
/// delay.
pub open spec fn scheduled_change_at(b: Seq<u8>, pos: int) -> Option<ScheduledChangeView> {
    match compact_u32(b, pos) {
        Some((n, start)) => if start + 40 * n + 4 <= b.len() {
            Some(
                ScheduledChangeView {
                    next_authorities: Seq::new(n as nat, |i: int| authority_at(b, start + 40 * i)),
                    delay: le_value(b.subrange(start + 40 * n, start + 40 * n + 4)) as u32,
                },
            )
        } else {
            None
        },
        None => None,
    }
}

/// The change that a consensus log announces, with the block that a forced change
/// counts from (0 for a scheduled one). With `forced` the log must be a forced change,
/// else a scheduled one.
pub open spec fn change_in_log(payload: Seq<u8>, forced: bool) -> Option<(u32, ScheduledChangeView)> {
    if !forced {
        if payload.len() >= 1 && payload[0] == 1 {
            match scheduled_change_at(payload, 1) {
                Some(c) => Some((0u32, c)),
                None => None,
            }
        } else {
            None
        }
    } else {
        if payload.len() >= 5 && payload[0] == 2 {
            match scheduled_change_at(payload, 5) {
                Some(c) => Some((le_value(payload.subrange(1, 5)) as u32, c)),
                None => None,
            }
        } else {
            None
        }
    }
}

/// The change that the digest item at `pos` announces, if it is a GRANDPA consensus log
/// that holds one.
pub open spec fn change_in_item(b: Seq<u8>, pos: int, forced: bool) -> Option<
    (u32, ScheduledChangeView),
> {
    if 0 <= pos && pos + 5 <= b.len() && b[pos] == 4 && b.subrange(pos + 1, pos + 5)
        == grandpa_engine_id() {
        match byte_string(b, pos + 5) {
            Some((payload, _)) => change_in_log(payload, forced),
            None => None,
        }
    } else {
        None
    }
}

/// The first change among the `count` digest items that start at `pos`. The search ends
/// at a malformed item.
pub open spec fn first_change(b: Seq<u8>, pos: int, count: nat, forced: bool) -> Option<
    (u32, ScheduledChangeView),
>
    decreases count,
{
    if count == 0 {
        None
    } else {
        match digest_item_end(b, pos) {
            Some(next) => match change_in_item(b, pos, forced) {
                Some(c) => Some(c),
                None => first_change(b, next, (count - 1) as nat, forced),
            },
            None => None,
        }
    }
}

/// The first change that an encoded digest announces.
pub open spec fn change_in_digest(digest: Seq<u8>, forced: bool) -> Option<
    (u32, ScheduledChangeView),
> {
    match compact_u32(digest, 0) {
        Some((count, start)) => first_change(digest, start, count as nat, forced),
        None => None,
    }
}

/// The scheduled change that a header announces, if any.
pub open spec fn scheduled_change_of(digest: Seq<u8>) -> Option<ScheduledChangeView> {
    match change_in_digest(digest, false) {
        Some((_, c)) => Some(c),
        None => None,
    }
}

/// Whether a header announces a forced change.
pub open spec fn has_forced_change(digest: Seq<u8>) -> bool {
    change_in_digest(digest, true) is Some
}

/// Reads the scheduled change that is encoded at `pos`.
pub fn decode_scheduled_change(bytes: &[u8], pos: usize) -> (r: Option<ScheduledChange>)
    ensures
        r matches Some(c) ==> scheduled_change_at(bytes@, pos as int) == Some(c@),
        r is None ==> scheduled_change_at(bytes@, pos as int) is None,
{
    let (n, start) = match decode_compact_u32(bytes, pos) {
        Some(x) => x,
        None => { return None; },
    };
    let room: usize = bytes.len() - start;
    if room < 4 || (n as usize) > (room - 4) / 40 {
        return None;
    }
    let count: usize = n as usize;
    let total: usize = bytes.len();
    let mut list: Vec<Authority> = Vec::new();
    let mut i: usize = 0;
    while i < count
        invariant
            i <= count,
            start + 40 * count + 4 <= total,
            total == bytes@.len(),
            list@.len() == i,
            forall|k: int| 0 <= k < i ==> list@[k] == authority_at(bytes@, start + 40 * k),
        decreases count - i,
    {
        let at: usize = start + 40 * i;
        let key = read_hash(bytes, at);
        let weight: u64 = read_le(bytes, at + 32, 8);
        proof {
            lemma_array32(key);
        }
        list.push(Authority { key, weight });
        i += 1;
    }
    let tail: usize = start + 40 * count;
    proof {
        lemma_pow256_values();
        lemma_le_value_bound(bytes@.subrange(tail as int, tail + 4));
    }
    let delay: u32 = read_le(bytes, tail, 4) as u32;
    proof {
        let want = scheduled_change_at(bytes@, pos as int).unwrap();
        assert(list@ =~= want.next_authorities);
    }
    Some(ScheduledChange { next_authorities: list, delay })
}

/// Reads the change that a consensus log announces.
pub fn decode_change_in_log(payload: &[u8], forced: bool) -> (r: Option<(u32, ScheduledChange)>)
    ensures
        r matches Some((m, c)) ==> change_in_log(payload@, forced) == Some((m, c@)),
        r is None ==> change_in_log(payload@, forced) is None,
{
    if !forced {
        if payload.len() >= 1 && payload[0] == 1 {
            match decode_scheduled_change(payload, 1) {
                Some(c) => Some((0u32, c)),
                None => None,
            }
        } else {
            None
        }
    } else {
        if payload.len() >= 5 && payload[0] == 2 {
            proof {
                lemma_pow256_values();
                lemma_le_value_bound(payload@.subrange(1, 5));
            }
            let median: u32 = read_le(payload, 1, 4) as u32;
            match decode_scheduled_change(payload, 5) {
                Some(c) => Some((median, c)),
                None => None,
            }
        } else {
            None
        }
    }
}

/// Whether the four bytes at `pos` are the engine id of GRANDPA.
fn is_grandpa_engine(bytes: &[u8], pos: usize) -> (r: bool)
    requires
        pos + 4 <= bytes@.len(),
    ensures
        r == (bytes@.subrange(pos as int, pos + 4) == grandpa_engine_id()),
{
    let total: usize = bytes.len();
    let r = bytes[pos] == 0x46 && bytes[pos + 1] == 0x52 && bytes[pos + 2] == 0x4e && bytes[pos
        + 3] == 0x4b;
    proof {
        let s = bytes@.subrange(pos as int, pos + 4);
        if r {
            assert(s =~= grandpa_engine_id());
        } else {
            assert(s[0] == bytes@[pos as int] && s[1] == bytes@[pos + 1] && s[2] == bytes@[pos + 2]
                && s[3] == bytes@[pos + 3]);
        }
    }
    r
}

/// Searches an encoded digest for the first change that it announces.
pub fn find_change(digest: &[u8], forced: bool) -> (r: Option<(u32, ScheduledChange)>)
    ensures
        r matches Some((m, c)) ==> change_in_digest(digest@, forced) == Some((m, c@)),
        r is None ==> change_in_digest(digest@, forced) is None,
{
    let (count, start) = match decode_compact_u32(digest, 0) {
        Some(x) => x,
        None => { return None; },
    };
    let mut at: usize = start;
    let mut left: u32 = count;
    while left > 0
        invariant
            at <= digest@.len(),
            compact_u32(digest@, 0) == Some((count, start as int)),
            first_change(digest@, start as int, count as nat, forced) == first_change(
                digest@,
                at as int,
                left as nat,
                forced,
            ),
        decreases left,
    {
        let next = match find_digest_item_end(digest, at) {
            Some(x) => x,
            None => { return None; },
        };
        if digest[at] == 4 && digest.len() - at >= 5 && is_grandpa_engine(digest, at + 1) {
            match decode_byte_string(digest, at + 5) {
                Some((from, to)) => {
                    let found = decode_change_in_log(slice_subrange(digest, from, to), forced);
                    if found.is_some() {
                        return found;
                    }
                },
                None => {},
            }
        }
        at = next;
        left -= 1;
    }
    None
}

impl RelayHeader {
    /// The scheduled change of the authority set that the header announces, if any.
    pub fn find_scheduled_change(&self) -> (r: Option<ScheduledChange>)
        ensures
            r matches Some(c) ==> scheduled_change_of(self.digest@) == Some(c@),
            r is None ==> scheduled_change_of(self.digest@) is None,
    {
        match find_change(self.digest.as_slice(), false) {
            Some((_, c)) => Some(c),
            None => None,
        }
    }

    /// The forced change of the authority set that the header announces, if any.
    pub fn find_forced_change(&self) -> (r: Option<ForcedChange>)
        ensures
            r is Some == has_forced_change(self.digest@),
            r matches Some(f) ==> change_in_digest(self.digest@, true) == Some(
                (f.median_last_finalized, f.change@),
            ),
    {
        match find_change(self.digest.as_slice(), true) {
            Some((m, c)) => Some(ForcedChange { median_last_finalized: m, change: c }),
            None => None,
        }
    }
}

} // verus!
