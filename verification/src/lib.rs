//! A synchronization pipeline for competitive-game player statistics.
//!
//! The crate keeps a durable ledger of per-player match counts, stored
//! player records and follower relationships on top of an embedded
//! transactional store, and supplies the pacing and merge decisions of the
//! periodic fetch cycle that refreshes those records from a remote ranking
//! service.

use vstd::prelude::*;

pub mod codec;
pub mod ledger;
pub mod record;
pub mod store;
pub mod sync;

verus! {

/// An error surfaced by the ledger to its callers.
#[derive(Debug)]
pub enum LedgerError {
    /// A read or write transaction of the underlying store failed
    /// (I/O, a poisoned transaction, store corruption) before anything
    /// was committed: the stored contents are unchanged.
    Storage(String),
    /// A transaction's commit failed after its writes were staged. The
    /// store holds either the whole transaction or none of it, never a
    /// part, but which of the two cannot be assumed.
    CommitUnresolved(String),
    /// A stored byte sequence does not decode into a player record;
    /// distinct from a key that was never set.
    Encoding,
}

} // verus!
