//! GRANDPA justifications: how they are read from bytes, and when one proves that the
//! block it commits to is final under an authority set.
//!
//! A justification is valid when every precommit carries a signature of its advertised
//! signer, the signers are distinct members of the authority set, every precommit is for
//! the committed block or a descendant of it, and the signers hold more than two thirds
//! of the voting weight.

use crate::ancestry::ancestry_of;
use crate::ancestry::AncestryChain;
use crate::authorities::Authority;
use crate::error::Error;
use crate::header::header_at;
use crate::header::headers_view;
use crate::header::RelayHeader;
use crate::header::RelayHeaderView;
use crate::host::HostCapabilities;
use crate::primitives::array32;
use crate::primitives::array64;
use crate::primitives::hash_eq;
use crate::primitives::lemma_array32;
use crate::primitives::lemma_array64;
use crate::primitives::PublicKey;
use crate::primitives::Signature;
use crate::primitives::H256;
use crate::scale::compact_u32;
use crate::scale::decode_compact_u32;
use crate::scale::le_bytes;
use crate::scale::le_value;
use crate::scale::lemma_le_value_bound;
use crate::scale::lemma_pow256_values;
use crate::scale::read_hash;
use crate::scale::read_le;
use crate::scale::read_signature;
use crate::scale::write_hash;
use crate::scale::write_le;
use vstd::prelude::*;

verus! {

/// A vote for a block as final, signed by an authority.
#[derive(Clone, Copy, Debug, PartialEq, Eq)]
pub struct SignedPrecommit {
    pub target_hash: H256,
    pub target_number: u32,
    pub signature: Signature,
    pub id: PublicKey,
}

/// A proof that a block is final: the votes of a round, and the headers that join the
/// voted blocks to the committed one.
#[derive(Clone, Debug, PartialEq, Eq)]
pub struct Justification {
    pub round: u64,
    pub target_hash: H256,
    pub target_number: u32,
    pub precommits: Vec<SignedPrecommit>,
    pub votes_ancestries: Vec<RelayHeader>,
}

/// What a `Justification` holds.
pub struct JustificationView {
    pub round: u64,
    pub target_hash: H256,
    pub target_number: u32,
    pub precommits: Seq<SignedPrecommit>,
    pub votes_ancestries: Seq<RelayHeaderView>,
}

impl View for Justification {
    type V = JustificationView;

    open spec fn view(&self) -> JustificationView {
        JustificationView {
            round: self.round,
            target_hash: self.target_hash,
            target_number: self.target_number,
            precommits: self.precommits@,
            votes_ancestries: headers_view(self.votes_ancestries@),
        }
    }
}

/// The signed precommit that is encoded at `pos`: target hash, target number, signature,
/// signer.
pub open spec fn precommit_at(b: Seq<u8>, pos: int) -> SignedPrecommit {
    SignedPrecommit {
        target_hash: array32(b.subrange(pos, pos + 32)),
        target_number: le_value(b.subrange(pos + 32, pos + 36)) as u32,
        signature: array64(b.subrange(pos + 36, pos + 100)),
        id: array32(b.subrange(pos + 100, pos + 132)),
    }
}

/// The `count` headers that are encoded from `pos` on, and the offset behind them.
pub open spec fn headers_at(b: Seq<u8>, pos: int, count: nat) -> Option<
    (Seq<RelayHeaderView>, int),
>
    decreases count,
{
    if count == 0 {
        Some((Seq::empty(), pos))
    } else {
        match header_at(b, pos) {
            Some((h, next)) => match headers_at(b, next, (count - 1) as nat) {
                Some((rest, end)) => Some((seq![h] + rest, end)),
                None => None,
            },
            None => None,
        }
    }
}

/// The justification that a byte string encodes: round, committed block, precommits,
/// ancestry headers. Bytes behind the justification are ignored.
pub open spec fn justification_of(b: Seq<u8>) -> Option<JustificationView> {
    if b.len() < 44 {
        None
    } else {
        match compact_u32(b, 44) {
            Some((n, start)) => if start + 132 * n > b.len() {
                None
            } else {
                match compact_u32(b, start + 132 * n) {
                    Some((m, first)) => match headers_at(b, first, m as nat) {
                        Some((headers, _)) => Some(
                            JustificationView {
                                round: le_value(b.subrange(0, 8)) as u64,
                                target_hash: array32(b.subrange(8, 40)),
                                target_number: le_value(b.subrange(40, 44)) as u32,
                                precommits: Seq::new(
                                    n as nat,
                                    |i: int| precommit_at(b, start + 132 * i),
                                ),
                                votes_ancestries: headers,
                            },
                        ),
                        None => None,
                    },
                    None => None,
                }
            },
            None => None,
        }
    }
}

/// The message that an authority signs to precommit to a block in a round of a set.
pub open spec fn precommit_payload(
    target_hash: H256,
    target_number: u32,
    round: u64,
    set_id: u64,
) -> Seq<u8> {
    seq![1u8] + target_hash@ + le_bytes(target_number as nat, 4) + le_bytes(round as nat, 8)
        + le_bytes(set_id as nat, 8)
}

/// The first position of an authority with the given key, or -1 where there is none.
pub open spec fn authority_index(authorities: Seq<Authority>, id: PublicKey) -> int
    decreases authorities.len(),
{
    if authorities.len() == 0 {
        -1
    } else {
        let k = authority_index(authorities.drop_last(), id);
        if k >= 0 {
            k
        } else if authorities.last().key == id {
            authorities.len() - 1
        } else {
            -1
        }
    }
}

/// The voting weight of all authorities.
pub open spec fn total_weight(authorities: Seq<Authority>) -> nat
    decreases authorities.len(),
{
    if authorities.len() == 0 {
        0
    } else {
        total_weight(authorities.drop_last()) + authorities.last().weight as nat
    }
}

/// The voting weight of the signers of the precommits.
pub open spec fn signed_weight(precommits: Seq<SignedPrecommit>, authorities: Seq<Authority>) -> nat
    decreases precommits.len(),
{
    if precommits.len() == 0 {
        0
    } else {
        let k = authority_index(authorities, precommits.last().id);
        signed_weight(precommits.drop_last(), authorities) + if k >= 0 {
            authorities[k].weight as nat
        } else {
            0
        }
    }
}

/// Whether the precommit at position `k` counts: its signature was found good, the
/// signer is an authority that has not signed an earlier precommit, and the block voted
/// for is the committed block or descends from it.
pub open spec fn precommit_counts(
    j: JustificationView,
    k: int,
    authorities: Seq<Authority>,
    signature_ok: Seq<bool>,
) -> bool {
    let p = j.precommits[k];
    &&& signature_ok[k]
    &&& authority_index(authorities, p.id) >= 0
    &&& forall|e: int| 0 <= e < k ==> (#[trigger] j.precommits[e]).id != p.id
    &&& ancestry_of(j.votes_ancestries, j.target_hash, p.target_hash) is Some
}

/// Whether `signed` is more than two thirds of `total`.
pub open spec fn supermajority(signed: nat, total: nat) -> bool {
    3 * signed > 2 * total
}

/// Whether a justification proves its block final under an authority set, given for
/// each precommit whether its signature is good.
pub open spec fn justification_valid(
    j: JustificationView,
    authorities: Seq<Authority>,
    signature_ok: Seq<bool>,
) -> bool {
    &&& signature_ok.len() == j.precommits.len()
    &&& forall|k: int|
        0 <= k < j.precommits.len() ==> #[trigger] precommit_counts(
            j,
            k,
            authorities,
            signature_ok,
        )
    &&& supermajority(signed_weight(j.precommits, authorities), total_weight(authorities))
}

/// As many good signatures as there are precommits.
pub open spec fn all_good(n: nat) -> Seq<bool> {
    Seq::new(n, |i: int| true)
}

/// A justification is valid only with every signature good.
pub proof fn lemma_valid_with_all_good(
    j: JustificationView,
    authorities: Seq<Authority>,
    signature_ok: Seq<bool>,
)
    requires
        justification_valid(j, authorities, signature_ok),
    ensures
        signature_ok == all_good(j.precommits.len()),
{
    assert forall|k: int| 0 <= k < signature_ok.len() implies signature_ok[k] by {
        assert(precommit_counts(j, k, authorities, signature_ok));
    }
    assert(signature_ok =~= all_good(j.precommits.len()));
}

/// Finds the first authority with the given key.
pub fn find_authority(authorities: &Vec<Authority>, id: &PublicKey) -> (r: Option<usize>)
    ensures
        r matches Some(i) ==> i == authority_index(authorities@, *id) && i < authorities@.len(),
        r is None ==> authority_index(authorities@, *id) < 0,
{
    let ghost s = authorities@;
    let mut i: usize = 0;
    assert(authority_index(s.take(0), *id) == -1);
    while i < authorities.len()
        invariant
            i <= authorities.len(),
            s == authorities@,
            authority_index(s.take(i as int), *id) == -1,
        decreases authorities.len() - i,
    {
        assert(s.take(i + 1).drop_last() =~= s.take(i as int));
        if hash_eq(&authorities[i].key, id) {
            proof {
                lemma_index_stays(s, i + 1, *id);
            }
            return Some(i);
        }
        i += 1;
    }
    assert(s.take(s.len() as int) =~= s);
    None
}

/// An authority found among the first `upto` entries is the one found among all.
pub proof fn lemma_index_stays(s: Seq<Authority>, upto: int, id: PublicKey)
    requires
        0 <= upto <= s.len(),
        authority_index(s.take(upto), id) >= 0,
    ensures
        authority_index(s, id) == authority_index(s.take(upto), id),
    decreases s.len() - upto,
{
    if upto < s.len() {
        assert(s.take(upto + 1).drop_last() =~= s.take(upto));
        lemma_index_stays(s, upto + 1, id);
    } else {
        assert(s.take(upto) =~= s);
    }
}

/// The voting weight of all authorities.
pub fn sum_weights(authorities: &Vec<Authority>) -> (total: u128)
    ensures
        total == total_weight(authorities@),
{
    let ghost s = authorities@;
    let mut total: u128 = 0;
    let mut i: usize = 0;
    while i < authorities.len()
        invariant
            i <= authorities.len(),
            s == authorities@,
            total == total_weight(s.take(i as int)),
            total <= i * 0xffff_ffff_ffff_ffff,
        decreases authorities.len() - i,
    {
        assert(s.take(i + 1).drop_last() =~= s.take(i as int));
        total = total + authorities[i].weight as u128;
        i += 1;
    }
    assert(s.take(s.len() as int) =~= s);
    total
}

/// Whether `signed` is more than two thirds of `total`.
pub fn is_supermajority(signed: u128, total: u128) -> (r: bool)
    ensures
        r == supermajority(signed as nat, total as nat),
{
    if signed == 0 {
        false
    } else if total <= signed {
        true
    } else {
        total - signed <= (signed - 1) / 2
    }
}

/// The message that an authority signs to precommit to a block in a round of a set.
pub fn encode_precommit_payload(precommit: &SignedPrecommit, round: u64, set_id: u64) -> (out: Vec<
    u8,
>)
    ensures
        out@ == precommit_payload(precommit.target_hash, precommit.target_number, round, set_id),
{
    let mut out: Vec<u8> = Vec::new();
    out.push(1u8);
    write_hash(&mut out, &precommit.target_hash);
    write_le(&mut out, precommit.target_number as u64, 4);
    write_le(&mut out, round, 8);
    write_le(&mut out, set_id, 8);
    assert(out@ =~= precommit_payload(
        precommit.target_hash,
        precommit.target_number,
        round,
        set_id,
    ));
    out
}

impl Justification {
    /// Reads a justification from its encoding. Malformed bytes give `None`.
    pub fn decode(bytes: &[u8]) -> (r: Option<Justification>)
        ensures
            r matches Some(j) ==> justification_of(bytes@) == Some(j@),
            r is None ==> justification_of(bytes@) is None,
    {
        let total: usize = bytes.len();
        if total < 44 {
            return None;
        }
        proof {
            lemma_pow256_values();
            lemma_le_value_bound(bytes@.subrange(40, 44));
        }
        let round: u64 = read_le(bytes, 0, 8);
        let target_hash = read_hash(bytes, 8);
        let target_number: u32 = read_le(bytes, 40, 4) as u32;
        let (n, start) = match decode_compact_u32(bytes, 44) {
            Some(x) => x,
            None => { return None; },
        };
        if (n as usize) > (total - start) / 132 {
            return None;
        }
        let count: usize = n as usize;
        let mut precommits: Vec<SignedPrecommit> = Vec::new();
        let mut i: usize = 0;
        while i < count
            invariant
                i <= count,
                start + 132 * count <= total,
                total == bytes@.len(),
                precommits@.len() == i,
                forall|k: int|
                    0 <= k < i ==> precommits@[k] == precommit_at(bytes@, start + 132 * k),
            decreases count - i,
        {
            let at: usize = start + 132 * i;
            proof {
                lemma_pow256_values();
                lemma_le_value_bound(bytes@.subrange(at + 32, at + 36));
            }
            let p = SignedPrecommit {
                target_hash: read_hash(bytes, at),
                target_number: read_le(bytes, at + 32, 4) as u32,
                signature: read_signature(bytes, at + 36),
                id: read_hash(bytes, at + 100),
            };
            proof {
                lemma_array32(p.target_hash);
                lemma_array64(p.signature);
                lemma_array32(p.id);
            }
            precommits.push(p);
            i += 1;
        }
        let (m, first) = match decode_compact_u32(bytes, start + 132 * count) {
            Some(x) => x,
            None => { return None; },
        };
        let mut headers: Vec<RelayHeader> = Vec::new();
        let mut at: usize = first;
        let mut left: u32 = m;
        assert(Seq::<RelayHeaderView>::empty() =~= headers_view(headers@));
        while left > 0
            invariant
                total == bytes@.len(),
                total >= 44,
                count == n,
                start + 132 * count <= total,
                compact_u32(bytes@, 44) == Some((n, start as int)),
                compact_u32(bytes@, start + 132 * count) == Some((m, first as int)),
                headers_at(bytes@, first as int, m as nat) == match headers_at(
                    bytes@,
                    at as int,
                    left as nat,
                ) {
                    Some((rest, end)) => Some((headers_view(headers@) + rest, end)),
                    None => None,
                },
            decreases left,
        {
            match RelayHeader::decode(bytes, at) {
                Some((h, next)) => {
                    proof {
                        let rest = headers_at(bytes@, next as int, (left - 1) as nat);
                        if rest is Some {
                            assert(headers_view(headers@) + (seq![h@] + rest.unwrap().0)
                                =~= headers_view(headers@.push(h)) + rest.unwrap().0);
                        }
                    }
                    headers.push(h);
                    at = next;
                    left -= 1;
                },
                None => { return None; },
            }
        }
        proof {
            lemma_array32(target_hash);
            let want = justification_of(bytes@).unwrap();
            assert(headers_view(headers@) + Seq::<RelayHeaderView>::empty() =~= headers_view(
                headers@,
            ));
            assert(precommits@ =~= want.precommits);
        }
        Some(
            Justification {
                round,
                target_hash,
                target_number,
                precommits,
                votes_ancestries: headers,
            },
        )
    }

    /// Asks the host, for each precommit, whether its signature is one of the signer
    /// over the precommit in this round of the authority set `set_id`.
    pub fn check_signatures<H: HostCapabilities>(&self, host: &H, set_id: u64) -> (r: Vec<bool>)
        ensures
            r@.len() == self.precommits@.len(),
    {
        let mut r: Vec<bool> = Vec::new();
        let mut k: usize = 0;
        while k < self.precommits.len()
            invariant
                k <= self.precommits.len(),
                r@.len() == k,
            decreases self.precommits.len() - k,
        {
            let p = &self.precommits[k];
            let payload = encode_precommit_payload(p, self.round, set_id);
            r.push(host.ed25519_verify(&p.signature, payload.as_slice(), &p.id));
            k += 1;
        }
        r
    }

    /// Decides whether the justification proves its block final under the authorities,
    /// given for each precommit whether its signature is good.
    pub fn verify_with(&self, authorities: &Vec<Authority>, signature_ok: &Vec<bool>) -> (r: Result<
        (),
        Error,
    >)
        ensures
            r is Ok <==> justification_valid(self@, authorities@, signature_ok@),
            r is Err ==> r == Err::<(), Error>(Error::InvalidJustification),
    {
        let ghost j = self@;
        let ghost auth = authorities@;
        let ghost sigs = signature_ok@;
        if signature_ok.len() != self.precommits.len() {
            return Err(Error::InvalidJustification);
        }
        let chain = AncestryChain::new(&self.votes_ancestries);
        let mut signed: u128 = 0;
        let mut k: usize = 0;
        while k < self.precommits.len()
            invariant
                k <= self.precommits.len(),
                j == self@,
                auth == authorities@,
                sigs == signature_ok@,
                sigs.len() == j.precommits.len(),
                chain@ == j.votes_ancestries,
                forall|e: int| 0 <= e < k ==> #[trigger] precommit_counts(j, e, auth, sigs),
                signed == signed_weight(j.precommits.take(k as int), auth),
                signed <= k * 0xffff_ffff_ffff_ffff,
            decreases self.precommits.len() - k,
        {
            let p = &self.precommits[k];
            if !signature_ok[k] {
                assert(!precommit_counts(j, k as int, auth, sigs));
                return Err(Error::InvalidJustification);
            }
            let weight: u64 = match find_authority(authorities, &p.id) {
                Some(a) => authorities[a].weight,
                None => {
                    assert(!precommit_counts(j, k as int, auth, sigs));
                    return Err(Error::InvalidJustification);
                },
            };
            let mut e: usize = 0;
            while e < k
                invariant
                    e <= k < self.precommits.len(),
                    j == self@,
                    auth == authorities@,
                    sigs == signature_ok@,
                    *p == j.precommits[k as int],
                    forall|x: int| 0 <= x < e ==> (#[trigger] j.precommits[x]).id != p.id,
                decreases k - e,
            {
                if hash_eq(&self.precommits[e].id, &p.id) {
                    assert(!precommit_counts(j, k as int, auth, sigs));
                    return Err(Error::InvalidJustification);
                }
                e += 1;
            }
            if chain.ancestry(&self.target_hash, &p.target_hash).is_none() {
                assert(!precommit_counts(j, k as int, auth, sigs));
                return Err(Error::InvalidJustification);
            }
            assert(precommit_counts(j, k as int, auth, sigs));
            assert(j.precommits.take(k + 1).drop_last() =~= j.precommits.take(k as int));
            signed = signed + weight as u128;
            k += 1;
        }
        assert(j.precommits.take(j.precommits.len() as int) =~= j.precommits);
        let total = sum_weights(authorities);
        if is_supermajority(signed, total) {
            Ok(())
        } else {
            Err(Error::InvalidJustification)
        }
    }

    /// Checks that the justification proves its block final under the authority set
    /// `set_id`: the signatures are checked by the host, the rest is decided here. It
    /// is accepted only if it is valid with every signature good.
    pub fn verify<H: HostCapabilities>(
        &self,
        host: &H,
        set_id: u64,
        authorities: &Vec<Authority>,
    ) -> (r: Result<(), Error>)
        ensures
            r is Ok ==> justification_valid(
                self@,
                authorities@,
                all_good(self.precommits@.len()),
            ),
            r is Err ==> r == Err::<(), Error>(Error::InvalidJustification),
    {
        let signature_ok = self.check_signatures(host, set_id);
        let r = self.verify_with(authorities, &signature_ok);
        proof {
            if r is Ok {
                assert forall|k: int| 0 <= k < signature_ok@.len() implies signature_ok@[k] by {
                    assert(precommit_counts(self@, k, authorities@, signature_ok@));
                }
                assert(signature_ok@ =~= all_good(self.precommits@.len()));
            }
        }
        r
    }
}

} // verus!
