//! The ledger of authority-set changes: which GRANDPA authorities sign from which
//! relay-chain height on.
//!
//! The ledger is never empty and is ordered by activation height. A lookup resolves a
//! height to the change in force at it. A scheduled change is inserted at its place, and
//! entries that have outlived their lifetime are dropped, except for the most recent ones.

use crate::primitives::PublicKey;
use vstd::prelude::*;

verus! {

/// How long an entry of the ledger is kept, in nanoseconds (thirty days).
pub const AUTHORITIES_CHANGE_ITEM_LIFETIME: u64 = 2_592_000_000_000_000;

/// How many of the most recent entries are kept whatever their age.
pub const AUTHORITIES_CHANGE_ITEM_MIN_COUNT: usize = 100;

/// A GRANDPA authority and its voting weight.
#[derive(Clone, Copy, Debug, PartialEq, Eq)]
pub struct Authority {
    pub key: PublicKey,
    pub weight: u64,
}

/// An authority set and the relay-chain height from which it signs.
#[derive(Clone, Debug, PartialEq, Eq)]
pub struct AuthoritiesChange {
    pub height: u32,
    /// Host time at which the change was recorded, in nanoseconds.
    pub timestamp: u64,
    pub set_id: u64,
    pub authorities: Vec<Authority>,
}

/// What an `AuthoritiesChange` holds.
pub struct AuthoritiesChangeView {
    pub height: u32,
    pub timestamp: u64,
    pub set_id: u64,
    pub authorities: Seq<Authority>,
}

impl View for AuthoritiesChange {
    type V = AuthoritiesChangeView;

    open spec fn view(&self) -> AuthoritiesChangeView {
        AuthoritiesChangeView {
            height: self.height,
            timestamp: self.timestamp,
            set_id: self.set_id,
            authorities: self.authorities@,
        }
    }
}

/// The entries of a ledger, each by what it holds.
pub open spec fn changes_view(s: Seq<AuthoritiesChange>) -> Seq<AuthoritiesChangeView> {
    s.map_values(|c: AuthoritiesChange| c@)
}

/// The ledger is ordered by activation height.
pub open spec fn sorted_by_height(s: Seq<AuthoritiesChangeView>) -> bool {
    forall|i: int, j: int| 0 <= i < j < s.len() ==> s[i].height <= s[j].height
}

/// Heights and set ids both grow strictly along the ledger.
pub open spec fn strictly_increasing(s: Seq<AuthoritiesChangeView>) -> bool {
    forall|i: int, j: int|
        0 <= i < j < s.len() ==> s[i].height < s[j].height && s[i].set_id < s[j].set_id
}

/// The last position whose entry is active at `height`, or -1 where none is.
pub open spec fn last_at_or_below(s: Seq<AuthoritiesChangeView>, height: u32) -> int
    decreases s.len(),
{
    if s.len() == 0 {
        -1
    } else if s.last().height <= height {
        s.len() - 1
    } else {
        last_at_or_below(s.drop_last(), height)
    }
}

/// The position of the change in force at `height`: the last entry active at that
/// height, or the last entry of the ledger where no entry is active yet.
pub open spec fn resolve_index(s: Seq<AuthoritiesChangeView>, height: u32) -> int {
    let k = last_at_or_below(s, height);
    if k < 0 {
        s.len() - 1
    } else {
        k
    }
}

/// Whether an entry recorded at `timestamp` has outlived its lifetime at `now`. An
/// entry whose end of life does not fit the clock never expires.
pub open spec fn expired(timestamp: u64, now: u64) -> bool {
    timestamp + AUTHORITIES_CHANGE_ITEM_LIFETIME <= u64::MAX && now > timestamp
        + AUTHORITIES_CHANGE_ITEM_LIFETIME
}

/// Whether the entry at position `i` survives a pruning at `now`, one more entry being
/// about to join the ledger.
pub open spec fn keeps(s: Seq<AuthoritiesChangeView>, now: u64, i: int) -> bool {
    s.len() - i < AUTHORITIES_CHANGE_ITEM_MIN_COUNT || !expired(s[i].timestamp, now)
}

/// The first `upto` entries of the ledger after a pruning at `now`.
pub open spec fn pruned_prefix(s: Seq<AuthoritiesChangeView>, now: u64, upto: int) -> Seq<
    AuthoritiesChangeView,
>
    decreases upto,
{
    if upto <= 0 {
        Seq::empty()
    } else if keeps(s, now, upto - 1) {
        pruned_prefix(s, now, upto - 1).push(s[upto - 1])
    } else {
        pruned_prefix(s, now, upto - 1)
    }
}

/// The ledger after a pruning at `now`.
pub open spec fn pruned(s: Seq<AuthoritiesChangeView>, now: u64) -> Seq<AuthoritiesChangeView> {
    pruned_prefix(s, now, s.len() as int)
}

/// The ledger with `entry` put behind the last entry that is active at its height.
pub open spec fn inserted(s: Seq<AuthoritiesChangeView>, entry: AuthoritiesChangeView) -> Seq<
    AuthoritiesChangeView,
> {
    s.insert(last_at_or_below(s, entry.height) + 1, entry)
}

/// The ledger after a change was scheduled at `now`: pruned, then with the new entry.
pub open spec fn with_scheduled(
    s: Seq<AuthoritiesChangeView>,
    entry: AuthoritiesChangeView,
    now: u64,
) -> Seq<AuthoritiesChangeView> {
    inserted(pruned(s, now), entry)
}

pub proof fn lemma_last_at_or_below_range(s: Seq<AuthoritiesChangeView>, height: u32)
    ensures
        -1 <= last_at_or_below(s, height) < s.len(),
        last_at_or_below(s, height) >= 0 ==> s[last_at_or_below(s, height)].height <= height,
        forall|j: int| last_at_or_below(s, height) < j < s.len() ==> s[j].height > height,
    decreases s.len(),
{
    if s.len() > 0 && s.last().height > height {
        let front = s.drop_last();
        lemma_last_at_or_below_range(front, height);
        assert forall|j: int| last_at_or_below(s, height) < j < s.len() implies s[j].height
            > height by {
            if j < s.len() - 1 {
                assert(front[j] == s[j]);
            }
        }
    }
}

/// A position that splits the ledger into the entries active at `height` and the
/// entries above it is the one that the lookup finds.
pub proof fn lemma_split_is_last_at_or_below(s: Seq<AuthoritiesChangeView>, height: u32, p: int)
    requires
        0 <= p <= s.len(),
        p > 0 ==> s[p - 1].height <= height,
        forall|j: int| p <= j < s.len() ==> s[j].height > height,
    ensures
        last_at_or_below(s, height) == p - 1,
    decreases s.len(),
{
    if s.len() > 0 && p < s.len() {
        lemma_split_is_last_at_or_below(s.drop_last(), height, p);
    }
}

/// In an ordered ledger the resolved entry has the greatest activation height that does
/// not exceed the query, and where no entry qualifies the last entry is resolved.
pub proof fn lemma_resolve_is_greatest(s: Seq<AuthoritiesChangeView>, height: u32)
    requires
        s.len() > 0,
        sorted_by_height(s),
    ensures
        0 <= resolve_index(s, height) < s.len(),
        (exists|i: int| 0 <= i < s.len() && s[i].height <= height) ==> {
            &&& s[resolve_index(s, height)].height <= height
            &&& forall|i: int|
                0 <= i < s.len() && (#[trigger] s[i]).height <= height ==> s[i].height
                    <= s[resolve_index(s, height)].height
            &&& forall|i: int| resolve_index(s, height) < i < s.len() ==> s[i].height > height
        },
        (forall|i: int| 0 <= i < s.len() ==> s[i].height > height) ==> resolve_index(s, height)
            == s.len() - 1,
{
    lemma_last_at_or_below_range(s, height);
    let k = last_at_or_below(s, height);
    if exists|i: int| 0 <= i < s.len() && s[i].height <= height {
        let w = choose|i: int| 0 <= i < s.len() && s[i].height <= height;
        assert(k >= 0) by {
            if k < 0 {
                assert(s[w].height > height);
            }
        }
        assert forall|i: int| 0 <= i < s.len() && (#[trigger] s[i]).height <= height implies s[i].height
            <= s[k].height by {
            if i > k {
                assert(s[i].height > height);
            }
        }
    }
}

/// Whether `v` is an entry among the first `upto` that a pruning at `now` keeps.
pub open spec fn kept_entry(
    s: Seq<AuthoritiesChangeView>,
    now: u64,
    upto: int,
    v: AuthoritiesChangeView,
) -> bool {
    exists|i: int| 0 <= i < upto && keeps(s, now, i) && v == #[trigger] s[i]
}

/// A pruning keeps entries of the ledger, in their order.
pub proof fn lemma_pruned_prefix_facts(s: Seq<AuthoritiesChangeView>, now: u64, upto: int)
    requires
        0 <= upto <= s.len(),
    ensures
        pruned_prefix(s, now, upto).len() <= upto,
        forall|k: int|
            0 <= k < pruned_prefix(s, now, upto).len() ==> kept_entry(
                s,
                now,
                upto,
                #[trigger] pruned_prefix(s, now, upto)[k],
            ),
        sorted_by_height(s) ==> sorted_by_height(pruned_prefix(s, now, upto)),
        strictly_increasing(s) ==> strictly_increasing(pruned_prefix(s, now, upto)),
    decreases upto,
{
    if upto > 0 {
        lemma_pruned_prefix_facts(s, now, upto - 1);
        let before = pruned_prefix(s, now, upto - 1);
        let after = pruned_prefix(s, now, upto);
        assert forall|k: int| 0 <= k < after.len() implies kept_entry(
            s,
            now,
            upto,
            #[trigger] after[k],
        ) by {
            if k < before.len() {
                assert(kept_entry(s, now, upto - 1, before[k]));
                let i = choose|i: int|
                    0 <= i < upto - 1 && keeps(s, now, i) && before[k] == #[trigger] s[i];
                assert(after[k] == s[i]);
            } else {
                assert(after[k] == s[upto - 1]);
            }
        }
        if keeps(s, now, upto - 1) {
            assert forall|i: int, j: int| 0 <= i < j < after.len() && sorted_by_height(
                s,
            ) implies after[i].height <= after[j].height by {
                if j == before.len() {
                    assert(kept_entry(s, now, upto - 1, before[i]));
                    let w = choose|w: int|
                        0 <= w < upto - 1 && keeps(s, now, w) && before[i] == #[trigger] s[w];
                    assert(s[w].height <= s[upto - 1].height);
                }
            }
            assert forall|i: int, j: int| 0 <= i < j < after.len() && strictly_increasing(
                s,
            ) implies after[i].height < after[j].height && after[i].set_id
                < after[j].set_id by {
                if j == before.len() {
                    assert(kept_entry(s, now, upto - 1, before[i]));
                    let w = choose|w: int|
                        0 <= w < upto - 1 && keeps(s, now, w) && before[i] == #[trigger] s[w];
                    assert(s[w].height < s[upto - 1].height);
                }
            }
        }
    }
}

/// The entries that a pruning keeps for their place alone: the last ones of the ledger.
pub proof fn lemma_pruned_keeps_recent(s: Seq<AuthoritiesChangeView>, now: u64, upto: int)
    requires
        0 <= upto <= s.len(),
    ensures
        pruned_prefix(s, now, upto).len() >= upto - recent_start(s),
        upto > recent_start(s) ==> pruned_prefix(s, now, upto).last() == s[upto - 1],
    decreases upto,
{
    if upto > 0 {
        lemma_pruned_keeps_recent(s, now, upto - 1);
    }
}

/// The first position that a pruning keeps whatever the age of its entry.
pub open spec fn recent_start(s: Seq<AuthoritiesChangeView>) -> int {
    if s.len() + 1 <= AUTHORITIES_CHANGE_ITEM_MIN_COUNT {
        0
    } else {
        s.len() + 1 - AUTHORITIES_CHANGE_ITEM_MIN_COUNT
    }
}

/// A ledger is not empty after a change was scheduled.
pub proof fn lemma_with_scheduled_len(
    s: Seq<AuthoritiesChangeView>,
    entry: AuthoritiesChangeView,
    now: u64,
)
    ensures
        with_scheduled(s, entry, now).len() == pruned(s, now).len() + 1,
{
    lemma_last_at_or_below_range(pruned(s, now), entry.height);
}

/// Scheduling a change keeps the ledger ordered, keeps at least the required number of
/// entries (all of them and the new one, while there are fewer), and the new entry is in
/// the ledger afterwards.
pub proof fn lemma_with_scheduled_keeps_ledger(
    s: Seq<AuthoritiesChangeView>,
    entry: AuthoritiesChangeView,
    now: u64,
)
    requires
        sorted_by_height(s),
    ensures
        sorted_by_height(with_scheduled(s, entry, now)),
        with_scheduled(s, entry, now).len() >= 1,
        with_scheduled(s, entry, now).len() <= s.len() + 1,
        with_scheduled(s, entry, now).len() >= AUTHORITIES_CHANGE_ITEM_MIN_COUNT
            || with_scheduled(s, entry, now).len() == s.len() + 1,
        with_scheduled(s, entry, now).contains(entry),
{
    let p = pruned(s, now);
    lemma_pruned_prefix_facts(s, now, s.len() as int);
    lemma_pruned_keeps_recent(s, now, s.len() as int);
    lemma_last_at_or_below_range(p, entry.height);
    let at = last_at_or_below(p, entry.height) + 1;
    let r = p.insert(at, entry);
    assert(r[at] == entry);
    assert forall|i: int, j: int| 0 <= i < j < r.len() implies r[i].height <= r[j].height by {
        if i < at && j > at {
            assert(r[i] == p[i] && r[j] == p[j - 1]);
        } else if i == at {
            assert(r[j] == p[j - 1]);
        } else if j == at {
            assert(r[i] == p[i]);
            assert(p[at - 1].height <= entry.height);
        } else if j < at {
            assert(r[i] == p[i] && r[j] == p[j]);
        } else {
            assert(r[i] == p[i - 1] && r[j] == p[j - 1]);
        }
    }
}

/// Where heights and set ids grow strictly along the ledger, and the new entry lies
/// above the last entry in both, they still grow strictly after the change was
/// scheduled, and the new entry is the last one.
pub proof fn lemma_with_scheduled_strict(
    s: Seq<AuthoritiesChangeView>,
    entry: AuthoritiesChangeView,
    now: u64,
)
    requires
        s.len() > 0,
        strictly_increasing(s),
        entry.height > s.last().height,
        entry.set_id > s.last().set_id,
    ensures
        strictly_increasing(with_scheduled(s, entry, now)),
        with_scheduled(s, entry, now).last() == entry,
        with_scheduled(s, entry, now) == pruned(s, now).push(entry),
{
    let p = pruned(s, now);
    lemma_pruned_prefix_facts(s, now, s.len() as int);
    lemma_pruned_keeps_recent(s, now, s.len() as int);
    assert forall|k: int| 0 <= k < p.len() implies (#[trigger] p[k]).height < entry.height && p[k].set_id
        < entry.set_id by {
        assert(kept_entry(s, now, s.len() as int, p[k]));
        let i = choose|i: int| 0 <= i < s.len() && keeps(s, now, i) && p[k] == #[trigger] s[i];
        if i < s.len() - 1 {
            assert(s[i].height < s[s.len() - 1].height);
        }
    }
    lemma_split_is_last_at_or_below(p, entry.height, p.len() as int);
    assert(p.insert(p.len() as int, entry) =~= p.push(entry));
}

/// A copy of an authority list.
pub fn clone_authorities(list: &Vec<Authority>) -> (r: Vec<Authority>)
    ensures
        r@ == list@,
{
    let mut out: Vec<Authority> = Vec::new();
    let mut i: usize = 0;
    while i < list.len()
        invariant
            i <= list.len(),
            out@ == list@.take(i as int),
        decreases list.len() - i,
    {
        out.push(list[i]);
        assert(list@.take(i as int + 1) =~= list@.take(i as int).push(list@[i as int]));
        i += 1;
    }
    assert(list@.take(list.len() as int) =~= list@);
    out
}

impl AuthoritiesChange {
    /// A copy of the entry.
    pub fn duplicate(&self) -> (r: AuthoritiesChange)
        ensures
            r@ == self@,
    {
        AuthoritiesChange {
            height: self.height,
            timestamp: self.timestamp,
            set_id: self.set_id,
            authorities: clone_authorities(&self.authorities),
        }
    }
}

/// Whether the entries are ordered by activation height.
pub fn is_sorted_by_height(changes: &Vec<AuthoritiesChange>) -> (r: bool)
    ensures
        r == sorted_by_height(changes_view(changes@)),
{
    let ghost s = changes_view(changes@);
    if changes.len() < 2 {
        return true;
    }
    let mut i: usize = 1;
    while i < changes.len()
        invariant
            1 <= i <= changes.len(),
            s == changes_view(changes@),
            forall|a: int, b: int| 0 <= a < b < i ==> s[a].height <= s[b].height,
        decreases changes.len() - i,
    {
        if changes[i - 1].height > changes[i].height {
            assert(s[i - 1].height > s[i as int].height);
            return false;
        }
        assert forall|a: int, b: int| 0 <= a < b < i + 1 implies s[a].height <= s[b].height by {
            if b == i && a < i - 1 {
                assert(s[a].height <= s[i - 1].height);
            }
        }
        i += 1;
    }
    true
}

/// Finds the position of the change in force at `height` by bisection.
pub fn find_authorities(changes: &Vec<AuthoritiesChange>, height: u32) -> (idx: usize)
    requires
        changes@.len() > 0,
        sorted_by_height(changes_view(changes@)),
    ensures
        idx == resolve_index(changes_view(changes@), height),
        idx < changes@.len(),
{
    let ghost s = changes_view(changes@);
    let mut lo: usize = 0;
    let mut hi: usize = changes.len();
    while lo < hi
        invariant
            0 <= lo <= hi <= changes.len(),
            s == changes_view(changes@),
            sorted_by_height(s),
            forall|i: int| 0 <= i < lo ==> s[i].height <= height,
            forall|i: int| hi <= i < s.len() ==> s[i].height > height,
        decreases hi - lo,
    {
        let mid: usize = lo + (hi - lo) / 2;
        if changes[mid].height <= height {
            assert forall|i: int| 0 <= i < mid + 1 implies s[i].height <= height by {
                if i < mid {
                    assert(s[i].height <= s[mid as int].height);
                }
            }
            lo = mid + 1;
        } else {
            assert forall|i: int| mid <= i < s.len() implies s[i].height > height by {
                if i > mid {
                    assert(s[mid as int].height <= s[i].height);
                }
            }
            hi = mid;
        }
    }
    proof {
        lemma_split_is_last_at_or_below(s, height, lo as int);
    }
    if lo == 0 {
        changes.len() - 1
    } else {
        lo - 1
    }
}

/// Whether an entry recorded at `timestamp` has outlived its lifetime at `now`.
pub fn is_expired(timestamp: u64, now: u64) -> (r: bool)
    ensures
        r == expired(timestamp, now),
{
    match timestamp.checked_add(AUTHORITIES_CHANGE_ITEM_LIFETIME) {
        Some(end) => now > end,
        None => false,
    }
}

/// Prunes the ledger at `now` and puts `entry` at its place.
pub fn prune_and_insert(changes: &Vec<AuthoritiesChange>, entry: AuthoritiesChange, now: u64) -> (r:
    Vec<AuthoritiesChange>)
    ensures
        changes_view(r@) == with_scheduled(changes_view(changes@), entry@, now),
{
    let ghost s = changes_view(changes@);
    let len: usize = changes.len();
    let mut out: Vec<AuthoritiesChange> = Vec::new();
    let mut i: usize = 0;
    while i < len
        invariant
            i <= len,
            len == changes.len(),
            s == changes_view(changes@),
            changes_view(out@) == pruned_prefix(s, now, i as int),
        decreases len - i,
    {
        let recent: bool = len - i < AUTHORITIES_CHANGE_ITEM_MIN_COUNT;
        if recent || !is_expired(changes[i].timestamp, now) {
            let ghost before = out@;
            out.push(changes[i].duplicate());
            assert(changes_view(out@) =~= changes_view(before).push(s[i as int]));
        }
        i += 1;
    }
    // the place of the new entry: behind the last entry active at its height
    let ghost p = changes_view(out@);
    let mut at: usize = out.len();
    while at > 0 && out[at - 1].height > entry.height
        invariant
            at <= out.len(),
            p == changes_view(out@),
            forall|j: int| at <= j < p.len() ==> p[j].height > entry.height,
        decreases at,
    {
        at -= 1;
    }
    proof {
        lemma_split_is_last_at_or_below(p, entry.height, at as int);
    }
    let ghost e = entry@;
    out.insert(at, entry);
    assert(changes_view(out@) =~= p.insert(at as int, e));
    out
}

} // verus!
