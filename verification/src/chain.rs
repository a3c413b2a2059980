//! The interfaces of a chain towards a relayer.

use vstd::prelude::*;

verus! {

/// Provides an interface for accessing new events on the chain which must be relayed to
/// the counterparty chain.
pub trait IbcEventProvider {

}

/// Provides an interface for managing key management for signing.
pub trait KeyProvider {

}

} // verus!
