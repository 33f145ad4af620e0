//! The durable ledger: match counts, stored player records and follow
//! edges, each operation one committed transaction.

use vstd::prelude::*;

use crate::codec::{
    deserialize_player_response, lemma_encode_decode, serialize_player_response, spec_decode,
    spec_encode,
};
use crate::record::{PlayerRecord, RecordModel};
use crate::store::{
    db_token, edges_without, empty_counts, empty_edges, empty_records, follow_edges_of,
    match_counts_of,
    pending_follow_edges_of, pending_match_counts_of, pending_player_records_of,
    player_records_of, raw_begin_write, raw_commit, raw_get_match_count, raw_get_record,
    raw_abort, raw_list_followers, raw_list_match_counts, raw_list_records, raw_open_memory,
    raw_open_path, raw_txn_add_follow, raw_txn_remove_all_follow, raw_txn_remove_follow,
    raw_txn_remove_match_count, raw_txn_remove_record, raw_txn_set_match_count,
    raw_txn_set_record, seq_matches_map, txn_token, write_slot_free,
};
use crate::LedgerError;

verus! {

/// A handle on the durable store. Every mutation commits one transaction;
/// a batch call covers all of its entries with a single transaction, so a
/// failed batch is never partially visible.
pub struct Ledger {
    db: redb::Database,
}

/// A map of match-count updates applied in order, later entries winning.
pub open spec fn apply_count_updates(m: Map<u64, u64>, s: Seq<(u64, u64)>) -> Map<u64, u64>
    decreases s.len(),
{
    if s.len() == 0 {
        m
    } else {
        apply_count_updates(m, s.drop_last()).insert(s.last().0, s.last().1)
    }
}

/// A map of record updates applied in order, each record stored in its
/// encoded form, later entries winning.
pub open spec fn apply_record_updates(m: Map<u64, Seq<u8>>, s: Seq<(u64, RecordModel)>) -> Map<
    u64,
    Seq<u8>,
>
    decreases s.len(),
{
    if s.len() == 0 {
        m
    } else {
        apply_record_updates(m, s.drop_last()).insert(s.last().0, spec_encode(s.last().1))
    }
}

/// Both ledgers hold the same contents in every table.
pub open spec fn tables_unchanged(pre: Ledger, post: Ledger) -> bool {
    post.match_counts() == pre.match_counts() && post.player_records() == pre.player_records()
        && post.follow_edges() == pre.follow_edges()
}

/// The second ledger differs from the first by one match-count entry.
pub open spec fn count_set(pre: Ledger, post: Ledger, uid: u64, count: u64) -> bool {
    post.match_counts() == pre.match_counts().insert(uid, count) && post.player_records()
        == pre.player_records() && post.follow_edges() == pre.follow_edges()
}

/// The second ledger lacks one match-count entry of the first.
pub open spec fn count_removed(pre: Ledger, post: Ledger, uid: u64) -> bool {
    post.match_counts() == pre.match_counts().remove(uid) && post.player_records()
        == pre.player_records() && post.follow_edges() == pre.follow_edges()
}

/// The second ledger holds all the given match-count updates of the first.
pub open spec fn counts_batched(pre: Ledger, post: Ledger, s: Seq<(u64, u64)>) -> bool {
    post.match_counts() == apply_count_updates(pre.match_counts(), s) && post.player_records()
        == pre.player_records() && post.follow_edges() == pre.follow_edges()
}

/// The second ledger differs from the first by one stored record.
pub open spec fn record_set(pre: Ledger, post: Ledger, uid: u64, m: RecordModel) -> bool {
    post.player_records() == pre.player_records().insert(uid, spec_encode(m))
        && post.match_counts() == pre.match_counts() && post.follow_edges() == pre.follow_edges()
}

/// The second ledger lacks one stored record of the first.
pub open spec fn record_removed(pre: Ledger, post: Ledger, uid: u64) -> bool {
    post.player_records() == pre.player_records().remove(uid) && post.match_counts()
        == pre.match_counts() && post.follow_edges() == pre.follow_edges()
}

/// The second ledger holds all the given record updates of the first.
pub open spec fn records_batched(pre: Ledger, post: Ledger, s: Seq<(u64, RecordModel)>) -> bool {
    post.player_records() == apply_record_updates(pre.player_records(), s) && post.match_counts()
        == pre.match_counts() && post.follow_edges() == pre.follow_edges()
}

/// The second ledger holds one more follow edge than the first.
pub open spec fn edge_added(pre: Ledger, post: Ledger, followee: u64, follower: u64) -> bool {
    post.follow_edges() == pre.follow_edges().insert((followee, follower)) && post.match_counts()
        == pre.match_counts() && post.player_records() == pre.player_records()
}

/// The second ledger lacks one follow edge of the first.
pub open spec fn edge_removed(pre: Ledger, post: Ledger, followee: u64, follower: u64) -> bool {
    post.follow_edges() == pre.follow_edges().remove((followee, follower)) && post.match_counts()
        == pre.match_counts() && post.player_records() == pre.player_records()
}

/// The second ledger lacks every follow edge of the given followee.
pub open spec fn edges_cleared(pre: Ledger, post: Ledger, followee: u64) -> bool {
    post.follow_edges() == edges_without(pre.follow_edges(), followee) && post.match_counts()
        == pre.match_counts() && post.player_records() == pre.player_records()
}

proof fn lemma_apply_counts_take_step(m: Map<u64, u64>, s: Seq<(u64, u64)>, i: int)
    requires
        0 <= i < s.len(),
    ensures
        apply_count_updates(m, s.take(i + 1)) == apply_count_updates(m, s.take(i)).insert(
            s[i].0,
            s[i].1,
        ),
{
    assert(s.take(i + 1).drop_last() =~= s.take(i));
    assert(s.take(i + 1).last() == s[i]);
}

proof fn lemma_apply_records_take_step(m: Map<u64, Seq<u8>>, s: Seq<(u64, RecordModel)>, i: int)
    requires
        0 <= i < s.len(),
    ensures
        apply_record_updates(m, s.take(i + 1)) == apply_record_updates(m, s.take(i)).insert(
            s[i].0,
            spec_encode(s[i].1),
        ),
{
    assert(s.take(i + 1).drop_last() =~= s.take(i));
    assert(s.take(i + 1).last() == s[i]);
}

impl Ledger {
    /// The committed match-count table: player to match count.
    pub closed spec fn match_counts(self) -> Map<u64, u64> {
        match_counts_of(self.db)
    }

    /// The committed record table: player to stored record bytes.
    pub closed spec fn player_records(self) -> Map<u64, Seq<u8>> {
        player_records_of(self.db)
    }

    /// The committed follow edges: pairs of followed player and follower.
    pub closed spec fn follow_edges(self) -> Set<(u64, u64)> {
        follow_edges_of(self.db)
    }

    /// Well-formed between operations: no write transaction of this
    /// ledger's store is live. The constructors establish it, and every
    /// operation preserves it by committing or aborting its transaction
    /// before returning.
    pub closed spec fn wf(self) -> bool {
        write_slot_free(self.db)
    }

    /// The followers recorded for one followed player.
    pub open spec fn followers_of(self, followee: u64) -> Set<u64> {
        Set::new(|b: u64| self.follow_edges().contains((followee, b)))
    }

    /// The match count stored for a player, or nothing when never set.
    pub open spec fn spec_count_lookup(self, uid: u64) -> Option<u64> {
        if self.match_counts().dom().contains(uid) {
            Some(self.match_counts()[uid])
        } else {
            None
        }
    }

    /// Open the ledger's store file at the given path, creating it when
    /// absent. The tables hold whatever the file already held, so nothing
    /// can be promised of the contents.
    pub fn open(path: &str) -> (r: Result<Ledger, LedgerError>)
        ensures
            r matches Ok(l) ==> l.wf(),
    {
        match raw_open_path(path) {
            Ok(db) => Ok(Ledger { db }),
            Err(e) => Err(e),
        }
    }

    /// Open a ledger over a fresh in-memory store: every table starts
    /// empty, and nothing outlives the ledger.
    pub fn open_in_memory() -> (r: Result<Ledger, LedgerError>)
        ensures
            r matches Ok(l) ==> l.match_counts() == empty_counts() && l.player_records()
                == empty_records() && l.follow_edges() == empty_edges() && l.wf(),
    {
        match raw_open_memory() {
            Ok(db) => Ok(Ledger { db }),
            Err(e) => Err(e),
        }
    }

    /// List the followers recorded for a player; a player nobody follows
    /// has an empty listing, each follower appears once, in no promised
    /// order.
    pub fn query_follow_table(&self, uid: u64) -> (r: Result<Vec<u64>, LedgerError>)
        ensures
            r matches Ok(v) ==> v@.no_duplicates() && (forall|b: u64|
                v@.contains(b) <==> self.followers_of(uid).contains(b)),
    {
        raw_list_followers(&self.db, uid)
    }

    /// Record that `follower` follows `followee`, in one committed
    /// transaction; recording a pair that is already present changes
    /// nothing.
    pub fn insert_follow_table(&mut self, followee: u64, follower: u64) -> (r: Result<
        (),
        LedgerError,
    >)
        requires
            old(self).wf(),
        ensures
            final(self).wf(),
            r matches Err(e) ==> (e matches LedgerError::CommitUnresolved(_)
                || tables_unchanged(*old(self), *final(self))),
            r is Ok ==> edge_added(*old(self), *final(self), followee, follower),
            r is Err ==> tables_unchanged(*old(self), *final(self)) || edge_added(
                *old(self),
                *final(self),
                followee,
                follower,
            ),
    {
        let mut txn = match raw_begin_write(&mut self.db) {
            Ok(t) => t,
            Err(e) => return Err(e),
        };
        match raw_txn_add_follow(&mut txn, followee, follower) {
            Ok(()) => {}
            Err(e) => {
                raw_abort(&mut self.db, txn);
                return Err(e);
            }
        }
        raw_commit(&mut self.db, txn)
    }

    /// Remove exactly the pair (`followee`, `follower`) in one committed
    /// transaction; the pair's absence is not an error.
    pub fn remove_follow_table(&mut self, followee: u64, follower: u64) -> (r: Result<
        (),
        LedgerError,
    >)
        requires
            old(self).wf(),
        ensures
            final(self).wf(),
            r matches Err(e) ==> (e matches LedgerError::CommitUnresolved(_)
                || tables_unchanged(*old(self), *final(self))),
            r is Ok ==> edge_removed(*old(self), *final(self), followee, follower),
            r is Err ==> tables_unchanged(*old(self), *final(self)) || edge_removed(
                *old(self),
                *final(self),
                followee,
                follower,
            ),
    {
        let mut txn = match raw_begin_write(&mut self.db) {
            Ok(t) => t,
            Err(e) => return Err(e),
        };
        match raw_txn_remove_follow(&mut txn, followee, follower) {
            Ok(_) => {}
            Err(e) => {
                raw_abort(&mut self.db, txn);
                return Err(e);
            }
        }
        raw_commit(&mut self.db, txn)
    }

    /// Remove every follower recorded for `followee` in one committed
    /// transaction.
    pub fn remove_all_follow_table(&mut self, followee: u64) -> (r: Result<(), LedgerError>)
        requires
            old(self).wf(),
        ensures
            final(self).wf(),
            r matches Err(e) ==> (e matches LedgerError::CommitUnresolved(_)
                || tables_unchanged(*old(self), *final(self))),
            r is Ok ==> edges_cleared(*old(self), *final(self), followee),
            r is Err ==> tables_unchanged(*old(self), *final(self)) || edges_cleared(
                *old(self),
                *final(self),
                followee,
            ),
    {
        let mut txn = match raw_begin_write(&mut self.db) {
            Ok(t) => t,
            Err(e) => return Err(e),
        };
        match raw_txn_remove_all_follow(&mut txn, followee) {
            Ok(()) => {}
            Err(e) => {
                raw_abort(&mut self.db, txn);
                return Err(e);
            }
        }
        raw_commit(&mut self.db, txn)
    }

    /// Look up a player's stored match count; a player never written is
    /// absent, not an error.
    pub fn get_player_matchcount_table(&self, uid: u64) -> (r: Result<Option<u64>, LedgerError>)
        ensures
            r matches Ok(o) ==> o == self.spec_count_lookup(uid),
    {
        raw_get_match_count(&self.db, uid)
    }

    /// Create or overwrite a player's match count in one committed
    /// transaction.
    pub fn insert_player_matchcount_table(&mut self, uid: u64, match_count: u64) -> (r: Result<
        (),
        LedgerError,
    >)
        requires
            old(self).wf(),
        ensures
            final(self).wf(),
            r matches Err(e) ==> (e matches LedgerError::CommitUnresolved(_)
                || tables_unchanged(*old(self), *final(self))),
            r is Ok ==> count_set(*old(self), *final(self), uid, match_count),
            r is Err ==> tables_unchanged(*old(self), *final(self)) || count_set(
                *old(self),
                *final(self),
                uid,
                match_count,
            ),
    {
        let mut txn = match raw_begin_write(&mut self.db) {
            Ok(t) => t,
            Err(e) => return Err(e),
        };
        match raw_txn_set_match_count(&mut txn, uid, match_count) {
            Ok(()) => {}
            Err(e) => {
                raw_abort(&mut self.db, txn);
                return Err(e);
            }
        }
        raw_commit(&mut self.db, txn)
    }

    /// Overwrite a player's match count; the store upserts, so this is the
    /// same operation as inserting.
    pub fn update_player_matchcount_table(&mut self, uid: u64, match_count: u64) -> (r: Result<
        (),
        LedgerError,
    >)
        requires
            old(self).wf(),
        ensures
            final(self).wf(),
            r matches Err(e) ==> (e matches LedgerError::CommitUnresolved(_)
                || tables_unchanged(*old(self), *final(self))),
            r is Ok ==> count_set(*old(self), *final(self), uid, match_count),
            r is Err ==> tables_unchanged(*old(self), *final(self)) || count_set(
                *old(self),
                *final(self),
                uid,
                match_count,
            ),
    {
        self.insert_player_matchcount_table(uid, match_count)
    }

    /// Remove a player's match count in one committed transaction,
    /// reporting whether an entry was present.
    pub fn remove_player_matchcount_table(&mut self, uid: u64) -> (r: Result<bool, LedgerError>)
        requires
            old(self).wf(),
        ensures
            final(self).wf(),
            r matches Err(e) ==> (e matches LedgerError::CommitUnresolved(_)
                || tables_unchanged(*old(self), *final(self))),
            r matches Ok(was) ==> was == old(self).match_counts().dom().contains(uid)
                && count_removed(*old(self), *final(self), uid),
            r is Err ==> tables_unchanged(*old(self), *final(self)) || count_removed(
                *old(self),
                *final(self),
                uid,
            ),
    {
        let mut txn = match raw_begin_write(&mut self.db) {
            Ok(t) => t,
            Err(e) => return Err(e),
        };
        let was = match raw_txn_remove_match_count(&mut txn, uid) {
            Ok(b) => b,
            Err(e) => {
                raw_abort(&mut self.db, txn);
                return Err(e);
            }
        };
        match raw_commit(&mut self.db, txn) {
            Ok(()) => Ok(was),
            Err(e) => Err(e),
        }
    }

    /// List every stored (player, match count) pair under one read
    /// transaction, each tracked player exactly once, in no promised
    /// order.
    pub fn get_all_player_matchcounts(&self) -> (r: Result<Vec<(u64, u64)>, LedgerError>)
        ensures
            r matches Ok(v) ==> seq_matches_map(v@, self.match_counts()),
    {
        raw_list_match_counts(&self.db)
    }

    /// Write every given (player, match count) pair in one committed
    /// transaction, later entries winning over earlier ones for the same
    /// player. On an error no entry of the batch is partially visible:
    /// either the prior contents stand, or the whole batch does.
    pub fn batch_update_player_matchcounts(&mut self, updates: &Vec<(u64, u64)>) -> (r: Result<
        (),
        LedgerError,
    >)
        requires
            old(self).wf(),
        ensures
            final(self).wf(),
            r matches Err(e) ==> (e matches LedgerError::CommitUnresolved(_)
                || tables_unchanged(*old(self), *final(self))),
            r is Ok ==> counts_batched(*old(self), *final(self), updates@),
            r is Err ==> tables_unchanged(*old(self), *final(self)) || counts_batched(
                *old(self),
                *final(self),
                updates@,
            ),
    {
        let mut txn = match raw_begin_write(&mut self.db) {
            Ok(t) => t,
            Err(e) => return Err(e),
        };
        let mut i: usize = 0;
        #[verifier::loop_isolation(false)]
        while i < updates.len()
            invariant
                i <= updates@.len(),
                txn_token(txn) == db_token(self.db),
                tables_unchanged(*old(self), *self),
                pending_match_counts_of(txn) == apply_count_updates(
                    old(self).match_counts(),
                    updates@.take(i as int),
                ),
                pending_player_records_of(txn) == old(self).player_records(),
                pending_follow_edges_of(txn) == old(self).follow_edges(),
            decreases updates@.len() - i,
        {
            let (uid, count) = updates[i];
            match raw_txn_set_match_count(&mut txn, uid, count) {
                Ok(()) => {}
                Err(e) => {
                    raw_abort(&mut self.db, txn);
                    return Err(e);
                }
            }
            proof {
                lemma_apply_counts_take_step(old(self).match_counts(), updates@, i as int);
            }
            i = i + 1;
        }
        proof {
            assert(updates@.take(updates@.len() as int) =~= updates@);
        }
        raw_commit(&mut self.db, txn)
    }

    /// Read and decode a player's stored record. An absent player yields
    /// nothing; stored bytes that no longer decode are reported as corrupt,
    /// distinctly from absence.
    pub fn get_player_data(&self, uid: u64) -> (r: Result<Option<PlayerRecord>, LedgerError>)
        ensures
            r matches Ok(o) ==> (match o {
                Some(rec) => self.player_records().dom().contains(uid) && spec_decode(
                    self.player_records()[uid],
                ) == Some(rec@),
                None => !self.player_records().dom().contains(uid),
            }),
            r matches Err(e) ==> (e matches LedgerError::Encoding ==> self.player_records(
            ).dom().contains(uid) && spec_decode(self.player_records()[uid]) is None),
    {
        let found = match raw_get_record(&self.db, uid) {
            Ok(f) => f,
            Err(e) => return Err(e),
        };
        match found {
            None => Ok(None),
            Some(bytes) => match deserialize_player_response(&bytes) {
                Ok(rec) => Ok(Some(rec)),
                Err(e) => Err(e),
            },
        }
    }

    /// Encode and store a player's record in one committed transaction,
    /// creating or overwriting the entry.
    pub fn insert_player_data(&mut self, uid: u64, player: &PlayerRecord) -> (r: Result<
        (),
        LedgerError,
    >)
        requires
            old(self).wf(),
        ensures
            final(self).wf(),
            r matches Err(e) ==> (e matches LedgerError::CommitUnresolved(_)
                || tables_unchanged(*old(self), *final(self))),
            r is Ok ==> record_set(*old(self), *final(self), uid, player@),
            r is Err ==> tables_unchanged(*old(self), *final(self)) || record_set(
                *old(self),
                *final(self),
                uid,
                player@,
            ),
    {
        let bytes = serialize_player_response(player);
        let mut txn = match raw_begin_write(&mut self.db) {
            Ok(t) => t,
            Err(e) => return Err(e),
        };
        match raw_txn_set_record(&mut txn, uid, &bytes) {
            Ok(()) => {}
            Err(e) => {
                raw_abort(&mut self.db, txn);
                return Err(e);
            }
        }
        raw_commit(&mut self.db, txn)
    }

    /// Overwrite a player's stored record; the store upserts, so this is
    /// the same operation as inserting.
    pub fn update_player_data(&mut self, uid: u64, player: &PlayerRecord) -> (r: Result<
        (),
        LedgerError,
    >)
        requires
            old(self).wf(),
        ensures
            final(self).wf(),
            r matches Err(e) ==> (e matches LedgerError::CommitUnresolved(_)
                || tables_unchanged(*old(self), *final(self))),
            r is Ok ==> record_set(*old(self), *final(self), uid, player@),
            r is Err ==> tables_unchanged(*old(self), *final(self)) || record_set(
                *old(self),
                *final(self),
                uid,
                player@,
            ),
    {
        self.insert_player_data(uid, player)
    }

    /// Remove a player's stored record in one committed transaction,
    /// reporting whether an entry was present.
    pub fn remove_player_data(&mut self, uid: u64) -> (r: Result<bool, LedgerError>)
        requires
            old(self).wf(),
        ensures
            final(self).wf(),
            r matches Err(e) ==> (e matches LedgerError::CommitUnresolved(_)
                || tables_unchanged(*old(self), *final(self))),
            r matches Ok(was) ==> was == old(self).player_records().dom().contains(uid)
                && record_removed(*old(self), *final(self), uid),
            r is Err ==> tables_unchanged(*old(self), *final(self)) || record_removed(
                *old(self),
                *final(self),
                uid,
            ),
    {
        let mut txn = match raw_begin_write(&mut self.db) {
            Ok(t) => t,
            Err(e) => return Err(e),
        };
        let was = match raw_txn_remove_record(&mut txn, uid) {
            Ok(b) => b,
            Err(e) => {
                raw_abort(&mut self.db, txn);
                return Err(e);
            }
        };
        match raw_commit(&mut self.db, txn) {
            Ok(()) => Ok(was),
            Err(e) => Err(e),
        }
    }

    /// Read and decode every stored record under one read transaction,
    /// each player exactly once, in no promised order. One stored entry
    /// that no longer decodes fails the whole listing as corrupt.
    pub fn get_all_player_data(&self) -> (r: Result<Vec<(u64, PlayerRecord)>, LedgerError>)
        ensures
            r matches Ok(v) ==> (forall|i: int|
                0 <= i < v@.len() ==> self.player_records().dom().contains(#[trigger] v@[i].0)
                    && spec_decode(self.player_records()[v@[i].0]) == Some(v@[i].1@)) && (
            forall|k: u64|
                self.player_records().dom().contains(k) ==> exists|i: int|
                    0 <= i < v@.len() && #[trigger] v@[i].0 == k) && (forall|i: int, j: int|
                0 <= i < j < v@.len() ==> v@[i].0 != v@[j].0),
            r matches Err(e) ==> (e matches LedgerError::Encoding ==> exists|k: u64|
                self.player_records().dom().contains(k) && spec_decode(
                    #[trigger] self.player_records()[k],
                ) is None),
    {
        let listed = match raw_list_records(&self.db) {
            Ok(v) => v,
            Err(e) => return Err(e),
        };
        let ghost pairs = listed@.map_values(|p: (u64, Vec<u8>)| (p.0, p.1@));
        let mut out: Vec<(u64, PlayerRecord)> = Vec::new();
        let mut i: usize = 0;
        #[verifier::loop_isolation(false)]
        while i < listed.len()
            invariant
                i <= listed@.len(),
                out@.len() == i,
                forall|j: int|
                    0 <= j < i ==> #[trigger] out@[j].0 == listed@[j].0 && spec_decode(
                        self.player_records()[out@[j].0],
                    ) == Some(out@[j].1@),
            decreases listed@.len() - i,
        {
            let entry = &listed[i];
            let rec = match deserialize_player_response(&entry.1) {
                Ok(rec) => rec,
                Err(e) => {
                    proof {
                        assert(pairs[i as int].0 == listed@[i as int].0);
                        assert(self.player_records().dom().contains(listed@[i as int].0));
                        assert(self.player_records()[listed@[i as int].0] == listed@[i as int].1@);
                    }
                    return Err(e);
                }
            };
            proof {
                assert(pairs[i as int].0 == listed@[i as int].0);
                assert(self.player_records()[listed@[i as int].0] == listed@[i as int].1@);
            }
            out.push((entry.0, rec));
            i = i + 1;
        }
        proof {
            assert(out@.len() == pairs.len());
            assert(forall|j: int|
                0 <= j < out@.len() ==> #[trigger] out@[j].0 == pairs[j].0 && pairs[j].0
                    == listed@[j].0);
            assert forall|k: u64| self.player_records().dom().contains(k) implies exists|j: int|
                0 <= j < out@.len() && #[trigger] out@[j].0 == k by {
                let j = choose|j: int| 0 <= j < pairs.len() && #[trigger] pairs[j].0 == k;
                assert(out@[j].0 == k);
            }
        }
        Ok(out)
    }

    /// Encode and write every given (player, record) pair in one committed
    /// transaction, later entries winning over earlier ones for the same
    /// player. On an error no entry of the batch is partially visible:
    /// either the prior contents stand, or the whole batch does.
    pub fn batch_update_player_data(&mut self, updates: &Vec<(u64, PlayerRecord)>) -> (r: Result<
        (),
        LedgerError,
    >)
        requires
            old(self).wf(),
        ensures
            final(self).wf(),
            r matches Err(e) ==> (e matches LedgerError::CommitUnresolved(_)
                || tables_unchanged(*old(self), *final(self))),
            r is Ok ==> records_batched(
                *old(self),
                *final(self),
                updates@.map_values(|p: (u64, PlayerRecord)| (p.0, p.1@)),
            ),
            r is Err ==> tables_unchanged(*old(self), *final(self)) || records_batched(
                *old(self),
                *final(self),
                updates@.map_values(|p: (u64, PlayerRecord)| (p.0, p.1@)),
            ),
    {
        let ghost ms = updates@.map_values(|p: (u64, PlayerRecord)| (p.0, p.1@));
        let mut txn = match raw_begin_write(&mut self.db) {
            Ok(t) => t,
            Err(e) => return Err(e),
        };
        let mut i: usize = 0;
        #[verifier::loop_isolation(false)]
        while i < updates.len()
            invariant
                i <= updates@.len(),
                txn_token(txn) == db_token(self.db),
                tables_unchanged(*old(self), *self),
                pending_player_records_of(txn) == apply_record_updates(
                    old(self).player_records(),
                    ms.take(i as int),
                ),
                pending_match_counts_of(txn) == old(self).match_counts(),
                pending_follow_edges_of(txn) == old(self).follow_edges(),
            decreases updates@.len() - i,
        {
            let entry = &updates[i];
            let bytes = serialize_player_response(&entry.1);
            match raw_txn_set_record(&mut txn, entry.0, &bytes) {
                Ok(()) => {}
                Err(e) => {
                    raw_abort(&mut self.db, txn);
                    return Err(e);
                }
            }
            proof {
                assert(ms[i as int] == (updates@[i as int].0, updates@[i as int].1@));
                lemma_apply_records_take_step(old(self).player_records(), ms, i as int);
            }
            i = i + 1;
        }
        proof {
            assert(ms.take(ms.len() as int) =~= ms);
        }
        raw_commit(&mut self.db, txn)
    }
}

/// Law: adding the same follow edge twice yields the same ledger contents
/// as adding it once, and the follower then stands in the followee's
/// follower set.
pub proof fn lemma_add_follow_edge_idempotent(
    pre: Ledger,
    mid: Ledger,
    post: Ledger,
    followee: u64,
    follower: u64,
)
    requires
        edge_added(pre, mid, followee, follower),
        edge_added(mid, post, followee, follower),
    ensures
        post.follow_edges() == mid.follow_edges(),
        post.followers_of(followee).contains(follower),
{
    assert(post.follow_edges() =~= mid.follow_edges());
}

/// Law: a follower listing holds each listed follower exactly once: a
/// listing without duplicates that contains a follower counts it once.
pub proof fn lemma_listing_counts_once(listing: Seq<u64>, follower: u64)
    requires
        listing.no_duplicates(),
        listing.contains(follower),
    ensures
        listing.to_multiset().count(follower) == 1,
{
    broadcast use vstd::seq_lib::group_to_multiset_ensures;

    listing.lemma_multiset_has_no_duplicates();
    assert(listing.to_multiset().count(follower) > 0);
}

/// Law: after removing every follow edge of a player, that player's
/// follower set is empty.
pub proof fn lemma_remove_all_clears_followers(pre: Ledger, post: Ledger, followee: u64)
    requires
        edges_cleared(pre, post, followee),
    ensures
        post.followers_of(followee) == Set::<u64>::empty(),
{
    assert(post.followers_of(followee) =~= Set::<u64>::empty());
}

/// Law: storing a record and reading the same player back yields that
/// record. Writing a record stores its encoding, and those bytes decode
/// to the same record again, for any record whose rating list fits the
/// 64-bit length field of the stored form.
pub proof fn lemma_record_round_trip(pre: Ledger, post: Ledger, uid: u64, rec: RecordModel)
    requires
        record_set(pre, post, uid, rec),
        rec.ratings matches Some(s) ==> s.len() <= u64::MAX,
    ensures
        post.player_records().dom().contains(uid),
        spec_decode(post.player_records()[uid]) == Some(rec),
{
    lemma_encode_decode(rec);
}

} // verus!
