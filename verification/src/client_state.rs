//! The state of the light client: where it stands on the relay chain and on the
//! parachain, whether it is frozen, and its ledger of authority sets.

use crate::authorities::changes_view;
use crate::authorities::clone_authorities;
use crate::authorities::find_authorities;
use crate::authorities::is_sorted_by_height;
use crate::authorities::lemma_with_scheduled_keeps_ledger;
use crate::authorities::lemma_with_scheduled_len;
use crate::authorities::prune_and_insert;
use crate::authorities::resolve_index;
use crate::authorities::sorted_by_height;
use crate::authorities::with_scheduled;
use crate::authorities::AuthoritiesChange;
use crate::authorities::AuthoritiesChangeView;
use crate::authorities::Authority;
use crate::error::Error;
use crate::primitives::Height;
use crate::primitives::H256;
use vstd::pervasive::unreached;
use vstd::prelude::*;

verus! {

/// `Vec1` of the crate `vec1`: a vector that is never empty.
#[verifier::external_type_specification]
#[verifier::external_body]
#[verifier::reject_recursive_types(T)]
pub struct ExVec1<T>(vec1::Vec1<T>);

/// `Size0Error` of the crate `vec1`: the error of making a `Vec1` of no elements.
#[verifier::external_type_specification]
#[verifier::external_body]
pub struct ExSize0Error(vec1::Size0Error);

/// `clone` of `Vec1`. Nothing is claimed of the copy.
pub assume_specification<I: Clone>[ <vec1::Vec1<I> as Clone>::clone ](
    ledger: &vec1::Vec1<I>,
) -> vec1::Vec1<I>
;

/// The entries that a ledger holds, in their order.
pub uninterp spec fn ledger_entries(ledger: vec1::Vec1<AuthoritiesChange>) -> Seq<
    AuthoritiesChange,
>;

/// Calls `as_vec` of `Vec1`: the vector inside, which holds the entries of the ledger
/// and is never empty.
#[verifier::external_body]
pub(crate) fn ledger_as_vec(ledger: &vec1::Vec1<AuthoritiesChange>) -> (v: &Vec<
    AuthoritiesChange,
>)
    ensures
        v@ == ledger_entries(*ledger),
        v@.len() >= 1,
{
    ledger.as_vec()
}

/// Calls `try_from_vec` of `Vec1`: a ledger with the entries of the vector, or an error
/// where the vector is empty.
#[verifier::external_body]
pub(crate) fn ledger_from_vec(v: Vec<AuthoritiesChange>) -> (r: Result<
    vec1::Vec1<AuthoritiesChange>,
    vec1::Size0Error,
>)
    ensures
        r is Ok <==> v@.len() >= 1,
        r matches Ok(ledger) ==> ledger_entries(ledger) == v@,
{
    vec1::Vec1::try_from_vec(v)
}

/// The relay chain that a client follows.
#[derive(Clone, Copy, Debug, PartialEq, Eq, Structural)]
pub enum RelayChain {
    Polkadot,
    Kusama,
    Rococo,
}

/// The state of the light client.
#[derive(Clone, Debug, PartialEq, Eq)]
pub struct ClientState {
    pub relay_chain: RelayChain,
    /// The latest relay-chain block that was verified as final.
    pub latest_relay_hash: H256,
    pub latest_relay_height: u32,
    /// Set once misbehaviour was found.
    pub frozen_height: Option<Height>,
    /// The highest parachain height that a consensus state was committed for.
    pub latest_para_height: u32,
    pub para_id: u32,
    pub authorities_changes: vec1::Vec1<AuthoritiesChange>,
}

/// What a `ClientState` holds.
pub struct ClientStateView {
    pub relay_chain: RelayChain,
    pub latest_relay_hash: H256,
    pub latest_relay_height: u32,
    pub frozen_height: Option<Height>,
    pub latest_para_height: u32,
    pub para_id: u32,
    pub authorities_changes: Seq<AuthoritiesChangeView>,
}

impl View for ClientState {
    type V = ClientStateView;

    open spec fn view(&self) -> ClientStateView {
        ClientStateView {
            relay_chain: self.relay_chain,
            latest_relay_hash: self.latest_relay_hash,
            latest_relay_height: self.latest_relay_height,
            frozen_height: self.frozen_height,
            latest_para_height: self.latest_para_height,
            para_id: self.para_id,
            authorities_changes: changes_view(ledger_entries(self.authorities_changes)),
        }
    }
}

impl ClientStateView {
    /// The ledger is not empty and is ordered by activation height.
    pub open spec fn wf(self) -> bool {
        self.authorities_changes.len() >= 1 && sorted_by_height(self.authorities_changes)
    }

    /// The latest height of the parachain, as IBC counts it.
    pub open spec fn latest_height(self) -> Height {
        Height {
            revision_number: self.para_id as u64,
            revision_height: self.latest_para_height as u64,
        }
    }

    /// Whether proofs may be checked at `height`: it must not lie above the latest
    /// height, nor at or above the height at which the client was frozen.
    pub open spec fn height_verdict(self, height: Height) -> Result<(), Error> {
        if self.latest_height().spec_lt(height) {
            Err(Error::InsufficientHeight)
        } else if self.frozen_height matches Some(frozen) && frozen.spec_le(height) {
            Err(Error::FrozenClient)
        } else {
            Ok(())
        }
    }

    /// The state after it was frozen at its latest height.
    pub open spec fn frozen(self) -> ClientStateView {
        ClientStateView { frozen_height: Some(self.latest_height()), ..self }
    }
}

impl ClientState {
    /// A client state with the given ledger, not frozen. There is none where the ledger
    /// is empty or not ordered by activation height.
    pub fn new(
        relay_chain: RelayChain,
        latest_relay_hash: H256,
        latest_relay_height: u32,
        latest_para_height: u32,
        para_id: u32,
        changes: Vec<AuthoritiesChange>,
    ) -> (r: Option<ClientState>)
        ensures
            r is Some <==> changes@.len() >= 1 && sorted_by_height(changes_view(changes@)),
            r matches Some(state) ==> state@ == (ClientStateView {
                relay_chain,
                latest_relay_hash,
                latest_relay_height,
                frozen_height: None,
                latest_para_height,
                para_id,
                authorities_changes: changes_view(changes@),
            }),
    {
        if !is_sorted_by_height(&changes) {
            return None;
        }
        match ledger_from_vec(changes) {
            Ok(ledger) => Some(
                ClientState {
                    relay_chain,
                    latest_relay_hash,
                    latest_relay_height,
                    frozen_height: None,
                    latest_para_height,
                    para_id,
                    authorities_changes: ledger,
                },
            ),
            Err(_) => None,
        }
    }

    /// Whether the ledger is ordered by activation height.
    pub fn is_well_formed(&self) -> (r: bool)
        ensures
            r == self@.wf(),
    {
        is_sorted_by_height(ledger_as_vec(&self.authorities_changes))
    }

    /// The latest height of the parachain, as IBC counts it.
    pub fn latest_height(&self) -> (h: Height)
        ensures
            h == self@.latest_height(),
    {
        Height::new(self.para_id as u64, self.latest_para_height as u64)
    }

    /// The id of the authority set of the last entry of the ledger.
    pub fn last_set_id(&self) -> (id: u64)
        ensures
            self@.authorities_changes.len() >= 1,
            id == self@.authorities_changes.last().set_id,
    {
        let v = ledger_as_vec(&self.authorities_changes);
        v[v.len() - 1].set_id
    }

    /// The authority set in force at `height`: the last entry of the ledger that is
    /// active at that height, or the last entry where none is active yet.
    pub fn get_authorities(&self, height: u32) -> (r: (u64, Vec<Authority>))
        requires
            self@.wf(),
        ensures
            r.0 == self@.authorities_changes[resolve_index(self@.authorities_changes, height)].set_id,
            r.1@ == self@.authorities_changes[resolve_index(
                self@.authorities_changes,
                height,
            )].authorities,
    {
        let v = ledger_as_vec(&self.authorities_changes);
        let i = find_authorities(v, height);
        (v[i].set_id, clone_authorities(&v[i].authorities))
    }

    /// Whether proofs may be checked at `height`.
    pub fn verify_height(&self, height: Height) -> (r: Result<(), Error>)
        ensures
            r == self@.height_verdict(height),
    {
        let latest = self.latest_height();
        if latest.lt(&height) {
            return Err(Error::InsufficientHeight);
        }
        match self.frozen_height {
            Some(frozen) => {
                if frozen.le(&height) {
                    Err(Error::FrozenClient)
                } else {
                    Ok(())
                }
            },
            None => Ok(()),
        }
    }

    /// A copy of the state.
    pub fn duplicate(&self) -> (r: ClientState)
        ensures
            r@ == self@,
    {
        let v = ledger_as_vec(&self.authorities_changes);
        let mut copy: Vec<AuthoritiesChange> = Vec::new();
        let mut i: usize = 0;
        while i < v.len()
            invariant
                i <= v.len(),
                copy@.len() == i,
                forall|k: int| 0 <= k < i ==> (#[trigger] copy@[k])@ == v@[k]@,
            decreases v.len() - i,
        {
            copy.push(v[i].duplicate());
            i += 1;
        }
        assert(changes_view(copy@) =~= changes_view(v@));
        let ledger = match ledger_from_vec(copy) {
            Ok(l) => l,
            Err(_) => unreached(),
        };
        ClientState {
            relay_chain: self.relay_chain,
            latest_relay_hash: self.latest_relay_hash,
            latest_relay_height: self.latest_relay_height,
            frozen_height: self.frozen_height,
            latest_para_height: self.latest_para_height,
            para_id: self.para_id,
            authorities_changes: ledger,
        }
    }
}

/// The ledger after a change that block `target_number` schedules: the new set takes
/// effect `delay` blocks behind the next block, under the next set id. It is an error
/// where the height or the set id does not fit its type.
pub open spec fn ledger_with_change(
    ledger: Seq<AuthoritiesChangeView>,
    target_number: u32,
    delay: u32,
    next_authorities: Seq<Authority>,
    now: u64,
) -> Result<Seq<AuthoritiesChangeView>, Error> {
    if target_number + delay + 1 > u32::MAX || ledger.last().set_id + 1 > u64::MAX {
        Err(Error::Overflow)
    } else {
        Ok(
            with_scheduled(
                ledger,
                AuthoritiesChangeView {
                    height: (target_number + delay + 1) as u32,
                    timestamp: now,
                    set_id: (ledger.last().set_id + 1) as u64,
                    authorities: next_authorities,
                },
                now,
            ),
        )
    }
}

/// Enters a scheduled change into a ledger and prunes the ledger at `now`.
pub fn insert_scheduled(
    ledger: &vec1::Vec1<AuthoritiesChange>,
    target_number: u32,
    delay: u32,
    next_authorities: Vec<Authority>,
    now: u64,
) -> (r: Result<vec1::Vec1<AuthoritiesChange>, Error>)
    ensures
        match ledger_with_change(
            changes_view(ledger_entries(*ledger)),
            target_number,
            delay,
            next_authorities@,
            now,
        ) {
            Ok(after) => r matches Ok(l) && changes_view(ledger_entries(l)) == after,
            Err(e) => r matches Err(x) && x == e,
        },
        sorted_by_height(changes_view(ledger_entries(*ledger))) && r is Ok ==> sorted_by_height(
            changes_view(ledger_entries(r->Ok_0)),
        ),
{
    let v = ledger_as_vec(ledger);
    let ghost before = changes_view(v@);
    let last_set_id: u64 = v[v.len() - 1].set_id;
    if target_number as u64 + delay as u64 + 1 > u32::MAX as u64 || last_set_id == u64::MAX {
        return Err(Error::Overflow);
    }
    let entry = AuthoritiesChange {
        height: target_number + delay + 1,
        timestamp: now,
        set_id: last_set_id + 1,
        authorities: next_authorities,
    };
    proof {
        lemma_with_scheduled_len(before, entry@, now);
        if sorted_by_height(before) {
            lemma_with_scheduled_keeps_ledger(before, entry@, now);
        }
    }
    let after = prune_and_insert(v, entry, now);
    match ledger_from_vec(after) {
        Ok(l) => Ok(l),
        Err(_) => unreached(),
    }
}

} // verus!
