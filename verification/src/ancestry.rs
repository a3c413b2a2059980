//! An index over a batch of relay-chain headers, by hash, and the path of parent links
//! between two of them.
//!
//! Headers are found by hash, never by reference: a map leads from the first bytes of a
//! hash to the header, so that a step along the parent links costs one look into the
//! map. A walk takes at most as many steps as there are headers, so that it ends on any
//! input.

use crate::header::header_hash;
use crate::header::headers_view;
use crate::header::RelayHeader;
use crate::header::RelayHeaderView;
use crate::primitives::hash_eq;
use crate::primitives::H256;
use crate::scale::le_value;
use crate::scale::read_le;
use std::collections::HashMap;
use vstd::prelude::*;

verus! {

broadcast use vstd::std_specs::hash::group_hash_axioms;

/// The last position of a header with the given hash, or -1 where there is none.
pub open spec fn index_of(hs: Seq<RelayHeaderView>, hash: H256) -> int
    decreases hs.len(),
{
    if hs.len() == 0 {
        -1
    } else if header_hash(hs.last()) == hash {
        hs.len() - 1
    } else {
        index_of(hs.drop_last(), hash)
    }
}

/// The path of parent links from `cur` back to `from`, both included, `cur` first. It is
/// `None` where a header on the way is not among `hs`, or where `from` is not reached
/// within `fuel` steps.
pub open spec fn walk(hs: Seq<RelayHeaderView>, from: H256, cur: H256, fuel: nat) -> Option<
    Seq<H256>,
>
    decreases fuel,
{
    if cur == from {
        Some(seq![cur])
    } else if fuel == 0 {
        None
    } else {
        let i = index_of(hs, cur);
        if i < 0 {
            None
        } else {
            match walk(hs, from, hs[i].parent_hash, (fuel - 1) as nat) {
                Some(rest) => Some(seq![cur] + rest),
                None => None,
            }
        }
    }
}

/// The path of parent links from `to` back to `from`, both included, `to` first.
pub open spec fn ancestry_of(hs: Seq<RelayHeaderView>, from: H256, to: H256) -> Option<Seq<H256>> {
    walk(hs, from, to, hs.len())
}

/// The last position among the headers with the greatest number, or -1 for no headers.
pub open spec fn last_max(hs: Seq<RelayHeaderView>) -> int
    decreases hs.len(),
{
    if hs.len() == 0 {
        -1
    } else {
        let k = last_max(hs.drop_last());
        if k < 0 || hs.last().number >= hs[k].number {
            hs.len() - 1
        } else {
            k
        }
    }
}

/// The first position among the headers with the least number, or -1 for no headers.
pub open spec fn first_min(hs: Seq<RelayHeaderView>) -> int
    decreases hs.len(),
{
    if hs.len() == 0 {
        -1
    } else {
        let k = first_min(hs.drop_last());
        if k < 0 || hs.last().number < hs[k].number {
            hs.len() - 1
        } else {
            k
        }
    }
}

/// A path has at least one entry, starts at the block asked for and ends at the base.
pub proof fn lemma_walk_ends(hs: Seq<RelayHeaderView>, from: H256, cur: H256, fuel: nat)
    ensures
        walk(hs, from, cur, fuel) matches Some(path) ==> path.len() >= 1 && path.len() <= fuel
            + 1 && path[0] == cur && path.last() == from && (path.len() == 1 <==> cur == from),
    decreases fuel,
{
    if cur != from && fuel > 0 {
        let i = index_of(hs, cur);
        if i >= 0 {
            lemma_walk_ends(hs, from, hs[i].parent_hash, (fuel - 1) as nat);
        }
    }
}

/// The key under which a hash is entered in the map: its first eight bytes as a number.
pub open spec fn index_key(hash: H256) -> u64 {
    le_value(hash@.subrange(0, 8)) as u64
}

/// Whether the map leads from the key of each of the first `upto` hashes to the last
/// position among them of a hash with that key, and holds nothing else.
pub open spec fn indexed(hashes: Seq<H256>, index: Map<u64, usize>, upto: int) -> bool {
    &&& forall|p: int|
        0 <= p < upto ==> index.contains_key(index_key(#[trigger] hashes[p])) && p
            <= index[index_key(hashes[p])]
    &&& forall|k: u64| #[trigger]
        index.contains_key(k) ==> index[k] < upto && index_key(hashes[index[k] as int]) == k
}

/// A header behind which no header has the same hash is the one that is found.
pub proof fn lemma_index_of_last(hs: Seq<RelayHeaderView>, hash: H256, p: int)
    requires
        0 <= p < hs.len(),
        header_hash(hs[p]) == hash,
        forall|q: int| p < q < hs.len() ==> header_hash(#[trigger] hs[q]) != hash,
    ensures
        index_of(hs, hash) == p,
    decreases hs.len(),
{
    if p < hs.len() - 1 {
        let front = hs.drop_last();
        assert(header_hash(hs[hs.len() - 1]) != hash);
        assert forall|q: int| p < q < front.len() implies header_hash(#[trigger] front[q])
            != hash by {
            assert(front[q] == hs[q]);
        }
        lemma_index_of_last(front, hash, p);
    }
}

/// Where no header has the hash, none is found.
pub proof fn lemma_index_of_none(hs: Seq<RelayHeaderView>, hash: H256)
    requires
        forall|q: int| 0 <= q < hs.len() ==> header_hash(#[trigger] hs[q]) != hash,
    ensures
        index_of(hs, hash) == -1,
    decreases hs.len(),
{
    if hs.len() > 0 {
        let front = hs.drop_last();
        assert(header_hash(hs[hs.len() - 1]) != hash);
        assert forall|q: int| 0 <= q < front.len() implies header_hash(#[trigger] front[q])
            != hash by {
            assert(front[q] == hs[q]);
        }
        lemma_index_of_none(front, hash);
    }
}

/// The key under which a hash is entered in the map.
fn key_of(hash: &H256) -> (key: u64)
    ensures
        key == index_key(*hash),
{
    read_le(hash.as_slice(), 0, 8)
}

/// The index over a batch of headers.
pub struct AncestryChain {
    hashes: Vec<H256>,
    headers: Vec<RelayHeader>,
    index: HashMap<u64, usize>,
}

impl View for AncestryChain {
    type V = Seq<RelayHeaderView>;

    closed spec fn view(&self) -> Seq<RelayHeaderView> {
        headers_view(self.headers@)
    }
}

impl AncestryChain {
    /// Every header is stored with its hash, and the map leads to the last header of
    /// each key.
    #[verifier::type_invariant]
    spec fn wf(self) -> bool {
        &&& self.hashes@.len() == self.headers@.len()
        &&& forall|i: int|
            0 <= i < self.hashes@.len() ==> self.hashes@[i] == header_hash(
                #[trigger] self.headers@[i]@,
            )
        &&& indexed(self.hashes@, self.index@, self.hashes@.len() as int)
    }

    /// Builds the index over `headers`.
    pub fn new(headers: &Vec<RelayHeader>) -> (chain: AncestryChain)
        ensures
            chain@ == headers_view(headers@),
    {
        let mut hashes: Vec<H256> = Vec::new();
        let mut copies: Vec<RelayHeader> = Vec::new();
        let mut index: HashMap<u64, usize> = HashMap::new();
        let mut i: usize = 0;
        while i < headers.len()
            invariant
                i <= headers.len(),
                hashes@.len() == i,
                copies@.len() == i,
                forall|k: int| 0 <= k < i ==> hashes@[k] == header_hash(#[trigger] copies@[k]@),
                forall|k: int| 0 <= k < i ==> (#[trigger] copies@[k])@ == headers@[k]@,
                indexed(hashes@, index@, i as int),
            decreases headers.len() - i,
        {
            let hash = headers[i].hash();
            let key = key_of(&hash);
            let ghost before = hashes@;
            let ghost entered = index@;
            hashes.push(hash);
            copies.push(headers[i].duplicate());
            index.insert(key, i);
            proof {
                assert forall|p: int| 0 <= p < i + 1 implies index@.contains_key(
                    index_key(#[trigger] hashes@[p]),
                ) && p <= index@[index_key(hashes@[p])] by {
                    if p < i {
                        assert(hashes@[p] == before[p]);
                    }
                }
                assert forall|k: u64| #[trigger] index@.contains_key(k) implies index@[k] < i + 1
                    && index_key(hashes@[index@[k] as int]) == k by {
                    if k != key {
                        assert(entered.contains_key(k));
                        assert(hashes@[entered[k] as int] == before[entered[k] as int]);
                    }
                }
            }
            i += 1;
        }
        assert(headers_view(copies@) =~= headers_view(headers@));
        AncestryChain { hashes, headers: copies, index }
    }

    /// How many headers the index holds.
    pub fn len(&self) -> (n: usize)
        ensures
            n == self@.len(),
    {
        self.headers.len()
    }

    /// The position of the header with the given hash: where the map leads. Only where
    /// another hash with the same first bytes stands there are the headers searched.
    fn position(&self, hash: &H256) -> (r: Option<usize>)
        ensures
            r matches Some(i) ==> i == index_of(self@, *hash) && i < self.headers@.len() && self@[i as int]
                == self.headers@[i as int]@,
            r is None ==> index_of(self@, *hash) < 0,
    {
        let ghost hs = self@;
        proof {
            use_type_invariant(self);
        }
        let key = key_of(hash);
        match self.index.get(&key) {
            Some(found) => {
                let p: usize = *found;
                if hash_eq(&self.hashes[p], hash) {
                    proof {
                        assert forall|q: int| p < q < hs.len() implies header_hash(
                            #[trigger] hs[q],
                        ) != *hash by {
                            assert(hs[q] == self.headers@[q]@);
                            if self.hashes@[q] == *hash {
                                assert(index_key(self.hashes@[q]) == key);
                            }
                        }
                        assert(hs[p as int] == self.headers@[p as int]@);
                        lemma_index_of_last(hs, *hash, p as int);
                    }
                    Some(p)
                } else {
                    self.search(hash)
                }
            },
            None => {
                proof {
                    assert forall|q: int| 0 <= q < hs.len() implies header_hash(#[trigger] hs[q])
                        != *hash by {
                        assert(hs[q] == self.headers@[q]@);
                        if self.hashes@[q] == *hash {
                            assert(index_key(self.hashes@[q]) == key);
                        }
                    }
                    lemma_index_of_none(hs, *hash);
                }
                None
            },
        }
    }

    /// The position of the header with the given hash, by a search from the last header
    /// down.
    fn search(&self, hash: &H256) -> (r: Option<usize>)
        ensures
            r matches Some(i) ==> i == index_of(self@, *hash) && i < self.headers@.len() && self@[i as int]
                == self.headers@[i as int]@,
            r is None ==> index_of(self@, *hash) < 0,
    {
        let ghost hs = self@;
        proof {
            use_type_invariant(self);
            assert(hs.take(hs.len() as int) =~= hs);
        }
        let mut i: usize = self.hashes.len();
        while i > 0
            invariant
                self.wf(),
                hs == self@,
                i <= self.hashes@.len(),
                index_of(hs, *hash) == index_of(hs.take(i as int), *hash),
            decreases i,
        {
            i -= 1;
            assert(hs.take(i + 1).drop_last() =~= hs.take(i as int));
            assert(hs.take(i + 1).last() == self.headers@[i as int]@);
            if hash_eq(&self.hashes[i], hash) {
                return Some(i);
            }
        }
        None
    }

    /// The header with the given hash.
    pub fn header(&self, hash: &H256) -> (r: Option<&RelayHeader>)
        ensures
            r matches Some(h) ==> index_of(self@, *hash) >= 0 && h@ == self@[index_of(
                self@,
                *hash,
            )],
            r is None ==> index_of(self@, *hash) < 0,
    {
        match self.position(hash) {
            Some(i) => Some(&self.headers[i]),
            None => None,
        }
    }

    /// The path of parent links from `to` back to `from`, both included, `to` first.
    pub fn ancestry(&self, from: &H256, to: &H256) -> (r: Option<Vec<H256>>)
        ensures
            r matches Some(path) ==> ancestry_of(self@, *from, *to) == Some(path@),
            r is None ==> ancestry_of(self@, *from, *to) is None,
    {
        let ghost hs = self@;
        let mut route: Vec<H256> = Vec::new();
        let mut cur: H256 = *to;
        let mut fuel: usize = self.headers.len();
        proof {
            use_type_invariant(self);
        }
        loop
            invariant
                hs == self@,
                fuel <= hs.len(),
                ancestry_of(hs, *from, *to) == match walk(hs, *from, cur, fuel as nat) {
                    Some(rest) => Some(route@ + rest),
                    None => None,
                },
            decreases fuel,
        {
            if hash_eq(&cur, from) {
                let ghost before = route@;
                route.push(cur);
                assert(before + seq![cur] =~= route@);
                return Some(route);
            }
            if fuel == 0 {
                return None;
            }
            let next: H256 = match self.position(&cur) {
                Some(i) => self.headers[i].parent_hash,
                None => { return None; },
            };
            proof {
                let rest = walk(hs, *from, next, (fuel - 1) as nat);
                assert(walk(hs, *from, cur, fuel as nat) == match rest {
                    Some(r) => Some(seq![cur] + r),
                    None => None,
                });
                if rest is Some {
                    assert(route@ + (seq![cur] + rest.unwrap()) =~= route@.push(cur)
                        + rest.unwrap());
                }
            }
            route.push(cur);
            cur = next;
            fuel -= 1;
        }
    }
}

/// Whether `hash` is on the path.
pub fn path_contains(path: &Vec<H256>, hash: &H256) -> (r: bool)
    ensures
        r == path@.contains(*hash),
{
    let mut i: usize = 0;
    while i < path.len()
        invariant
            i <= path.len(),
            forall|k: int| 0 <= k < i ==> path@[k] != *hash,
        decreases path.len() - i,
    {
        if hash_eq(&path[i], hash) {
            return true;
        }
        i += 1;
    }
    false
}

/// The position of the target of a batch: the last header with the greatest number.
pub fn target_position(headers: &Vec<RelayHeader>) -> (r: Option<usize>)
    ensures
        r matches Some(i) ==> i == last_max(headers_view(headers@)) && i < headers@.len(),
        r is None ==> headers@.len() == 0,
{
    let ghost hs = headers_view(headers@);
    if headers.len() == 0 {
        return None;
    }
    let mut best: usize = 0;
    let mut i: usize = 1;
    assert(hs.take(1).drop_last() =~= hs.take(0));
    assert(last_max(hs.take(0)) == -1);
    assert(last_max(hs.take(1)) == 0);
    while i < headers.len()
        invariant
            1 <= i <= headers.len(),
            hs == headers_view(headers@),
            best < i,
            best == last_max(hs.take(i as int)),
        decreases headers.len() - i,
    {
        assert(hs.take(i + 1).drop_last() =~= hs.take(i as int));
        if headers[i].number >= headers[best].number {
            best = i;
        }
        i += 1;
    }
    assert(hs.take(hs.len() as int) =~= hs);
    Some(best)
}

/// The position of the base of a batch: the first header with the least number.
pub fn base_position(headers: &Vec<RelayHeader>) -> (r: Option<usize>)
    ensures
        r matches Some(i) ==> i == first_min(headers_view(headers@)) && i < headers@.len(),
        r is None ==> headers@.len() == 0,
{
    let ghost hs = headers_view(headers@);
    if headers.len() == 0 {
        return None;
    }
    let mut best: usize = 0;
    let mut i: usize = 1;
    assert(hs.take(1).drop_last() =~= hs.take(0));
    assert(first_min(hs.take(0)) == -1);
    assert(first_min(hs.take(1)) == 0);
    while i < headers.len()
        invariant
            1 <= i <= headers.len(),
            hs == headers_view(headers@),
            best < i,
            best == first_min(hs.take(i as int)),
        decreases headers.len() - i,
    {
        assert(hs.take(i + 1).drop_last() =~= hs.take(i as int));
        if headers[i].number < headers[best].number {
            best = i;
        }
        i += 1;
    }
    assert(hs.take(hs.len() as int) =~= hs);
    Some(best)
}

} // verus!
