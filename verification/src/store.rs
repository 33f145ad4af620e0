//! The trusted boundary to the embedded transactional store.
//!
//! The durable store is a `redb` database holding three tables: match
//! counts by player, encoded player records by player, and a multimap of
//! follow edges keyed by the followed player. Verus sees the database and
//! its write transactions as opaque values; the spec functions below name
//! their contents, and each wrapper states over those names what the
//! `redb` call it makes does.

use vstd::prelude::*;

use redb::ReadableDatabase;

use crate::LedgerError;

verus! {

/// An empty match-count table.
pub open spec fn empty_counts() -> Map<u64, u64> {
    Map::empty()
}

/// An empty player-record table.
pub open spec fn empty_records() -> Map<u64, Seq<u8>> {
    Map::empty()
}

/// An empty set of follow edges.
pub open spec fn empty_edges() -> Set<(u64, u64)> {
    Set::empty()
}

/// The follow edges that remain once every edge of one followee is gone.
pub open spec fn edges_without(edges: Set<(u64, u64)>, followee: u64) -> Set<(u64, u64)> {
    edges.filter(|p: (u64, u64)| p.0 != followee)
}

/// The committed match-count table of a database: player to match count.
pub uninterp spec fn match_counts_of(db: redb::Database) -> Map<u64, u64>;

/// The committed player-record table of a database: player to stored bytes.
pub uninterp spec fn player_records_of(db: redb::Database) -> Map<u64, Seq<u8>>;

/// The committed follow edges of a database: pairs of followed player and
/// follower.
pub uninterp spec fn follow_edges_of(db: redb::Database) -> Set<(u64, u64)>;

/// The match-count table as a pending write transaction sees it.
pub uninterp spec fn pending_match_counts_of(txn: redb::WriteTransaction) -> Map<u64, u64>;

/// The player-record table as a pending write transaction sees it.
pub uninterp spec fn pending_player_records_of(txn: redb::WriteTransaction) -> Map<u64, Seq<u8>>;

/// The follow edges as a pending write transaction sees them.
pub uninterp spec fn pending_follow_edges_of(txn: redb::WriteTransaction) -> Set<(u64, u64)>;

/// The identity of the underlying store behind a database handle.
pub uninterp spec fn db_token(db: redb::Database) -> int;

/// The identity of the store that a write transaction was begun on: a
/// commit or abort is only admitted on the database with the same token.
pub uninterp spec fn txn_token(txn: redb::WriteTransaction) -> int;

/// Whether no write transaction of this database is live. redb admits one
/// write transaction at a time and blocks a second begin until the first
/// ends, so beginning one demands the slot free, and a commit or abort
/// frees it again.
pub uninterp spec fn write_slot_free(db: redb::Database) -> bool;

#[verifier::external_type_specification]
#[verifier::external_body]
pub struct ExDatabase(redb::Database);

#[verifier::external_type_specification]
#[verifier::external_body]
pub struct ExWriteTransaction(redb::WriteTransaction);

/// A sequence of key-value pairs that lists a map exactly: every pair is
/// in the map, every key of the map appears, and no key appears twice.
pub open spec fn seq_matches_map<V>(s: Seq<(u64, V)>, m: Map<u64, V>) -> bool {
    (forall|i: int|
        0 <= i < s.len() ==> m.dom().contains(#[trigger] s[i].0) && m[s[i].0] == s[i].1)
        && (forall|k: u64|
        m.dom().contains(k) ==> exists|i: int| 0 <= i < s.len() && #[trigger] s[i].0 == k)
        && (forall|i: int, j: int| 0 <= i < j < s.len() ==> s[i].0 != s[j].0)
}

/// Relies on redb::Builder::create_with_backend over a fresh
/// redb::backends::InMemoryBackend: a database over an all-new empty
/// backend holds no tables, so every view is empty.
#[verifier::external_body]
pub(crate) fn raw_open_memory() -> (r: Result<redb::Database, LedgerError>)
    ensures
        r is Ok ==> match_counts_of(r->Ok_0) == empty_counts(),
        r is Ok ==> player_records_of(r->Ok_0) == empty_records(),
        r is Ok ==> follow_edges_of(r->Ok_0) == empty_edges(),
        r is Ok ==> write_slot_free(r->Ok_0),
{
    redb::Database::builder()
        .create_with_backend(redb::backends::InMemoryBackend::new())
        .map_err(|e| LedgerError::Storage(format!("{e}")))
}

/// Relies on redb::Database::create: opens the store file at the given
/// path, creating it when absent. What the file already holds decides the
/// tables' contents, so nothing is promised of the views; a freshly
/// opened database has no live write transaction.
#[verifier::external_body]
pub(crate) fn raw_open_path(path: &str) -> (r: Result<redb::Database, LedgerError>)
    ensures
        r is Ok ==> write_slot_free(r->Ok_0),
{
    redb::Database::create(path).map_err(|e| LedgerError::Storage(format!("{e}")))
}

/// Relies on redb::Database::begin_write: a new write transaction whose
/// view of every table is the committed contents, carrying this
/// database's token. redb blocks a second write transaction until the
/// first ends, so the write slot must be free; on success the new
/// transaction takes it, and the committed contents are untouched.
#[verifier::external_body]
pub(crate) fn raw_begin_write(db: &mut redb::Database) -> (r: Result<
    redb::WriteTransaction,
    LedgerError,
>)
    requires
        write_slot_free(*old(db)),
    ensures
        match_counts_of(*final(db)) == match_counts_of(*old(db)),
        player_records_of(*final(db)) == player_records_of(*old(db)),
        follow_edges_of(*final(db)) == follow_edges_of(*old(db)),
        db_token(*final(db)) == db_token(*old(db)),
        r matches Ok(txn) ==> pending_match_counts_of(txn) == match_counts_of(*final(db))
            && pending_player_records_of(txn) == player_records_of(*final(db))
            && pending_follow_edges_of(txn) == follow_edges_of(*final(db)) && txn_token(txn)
            == db_token(*final(db)),
        r is Ok ==> !write_slot_free(*final(db)),
        r is Err ==> write_slot_free(*final(db)),
{
    db.begin_write().map_err(|e| LedgerError::Storage(format!("{e}")))
}

/// Relies on redb::WriteTransaction::commit on a transaction begun on
/// this database (the matching tokens admit no other): on success the
/// pending contents become the committed contents. redb documents that a
/// failed commit must not be assumed rolled back, only that the
/// transaction is applied fully or not at all, so a commit failure is
/// reported as unresolved. Either way the transaction ends and the write
/// slot is free again.
#[verifier::external_body]
pub(crate) fn raw_commit(db: &mut redb::Database, txn: redb::WriteTransaction) -> (r: Result<
    (),
    LedgerError,
>)
    requires
        txn_token(txn) == db_token(*old(db)),
    ensures
        db_token(*final(db)) == db_token(*old(db)),
        write_slot_free(*final(db)),
        r matches Err(e) ==> e matches LedgerError::CommitUnresolved(_),
        r is Ok ==> match_counts_of(*final(db)) == pending_match_counts_of(txn)
            && player_records_of(*final(db)) == pending_player_records_of(txn)
            && follow_edges_of(*final(db)) == pending_follow_edges_of(txn),
        r is Err ==> (match_counts_of(*final(db)) == pending_match_counts_of(txn)
            && player_records_of(*final(db)) == pending_player_records_of(txn)
            && follow_edges_of(*final(db)) == pending_follow_edges_of(txn)) || (
        match_counts_of(*final(db)) == match_counts_of(*old(db)) && player_records_of(*final(db))
            == player_records_of(*old(db)) && follow_edges_of(*final(db)) == follow_edges_of(
            *old(db),
        )),
{
    txn.commit().map_err(|e| LedgerError::CommitUnresolved(format!("{e}")))
}

/// Relies on redb::WriteTransaction::abort on a transaction begun on this
/// database (the matching tokens admit no other): the pending changes are
/// discarded, the committed contents stay as they were, and the write
/// slot is free again; even an error while aborting ends the transaction
/// and cannot commit anything.
#[verifier::external_body]
pub(crate) fn raw_abort(db: &mut redb::Database, txn: redb::WriteTransaction)
    requires
        txn_token(txn) == db_token(*old(db)),
    ensures
        match_counts_of(*final(db)) == match_counts_of(*old(db)),
        player_records_of(*final(db)) == player_records_of(*old(db)),
        follow_edges_of(*final(db)) == follow_edges_of(*old(db)),
        db_token(*final(db)) == db_token(*old(db)),
        write_slot_free(*final(db)),
{
    let _ = txn.abort();
}

/// Relies on redb::Table::insert on the match-count table: the pending
/// mapping gains the key or overwrites its prior value; the other tables
/// are untouched.
#[verifier::external_body]
pub(crate) fn raw_txn_set_match_count(
    txn: &mut redb::WriteTransaction,
    uid: u64,
    count: u64,
) -> (r: Result<(), LedgerError>)
    ensures
        txn_token(*final(txn)) == txn_token(*old(txn)),
        r is Ok ==> pending_match_counts_of(*final(txn)) == pending_match_counts_of(
            *old(txn),
        ).insert(uid, count) && pending_player_records_of(*final(txn))
            == pending_player_records_of(*old(txn)) && pending_follow_edges_of(*final(txn))
            == pending_follow_edges_of(*old(txn)),
{
    let def: redb::TableDefinition<u64, u64> = redb::TableDefinition::new(
        "player_matchcount_table",
    );
    let mut table = match txn.open_table(def) {
        Ok(t) => t,
        Err(e) => return Err(LedgerError::Storage(format!("{e}"))),
    };
    let outcome = match table.insert(uid, count) {
        Ok(_) => Ok(()),
        Err(e) => Err(LedgerError::Storage(format!("{e}"))),
    };
    outcome
}

/// Relies on redb::Table::remove on the match-count table: the key leaves
/// the pending mapping, and the call reports whether it was present.
#[verifier::external_body]
pub(crate) fn raw_txn_remove_match_count(txn: &mut redb::WriteTransaction, uid: u64) -> (r: Result<
    bool,
    LedgerError,
>)
    ensures
        txn_token(*final(txn)) == txn_token(*old(txn)),
        r matches Ok(was) ==> was == pending_match_counts_of(*old(txn)).dom().contains(uid)
            && pending_match_counts_of(*final(txn)) == pending_match_counts_of(*old(txn)).remove(
            uid,
        ) && pending_player_records_of(*final(txn)) == pending_player_records_of(*old(txn))
            && pending_follow_edges_of(*final(txn)) == pending_follow_edges_of(*old(txn)),
{
    let def: redb::TableDefinition<u64, u64> = redb::TableDefinition::new(
        "player_matchcount_table",
    );
    let mut table = match txn.open_table(def) {
        Ok(t) => t,
        Err(e) => return Err(LedgerError::Storage(format!("{e}"))),
    };
    let outcome = match table.remove(uid) {
        Ok(prior) => Ok(prior.is_some()),
        Err(e) => Err(LedgerError::Storage(format!("{e}"))),
    };
    outcome
}

/// Relies on redb::Table::insert on the player-record table: the pending
/// mapping gains the key with the given bytes; the other tables are
/// untouched.
#[verifier::external_body]
pub(crate) fn raw_txn_set_record(
    txn: &mut redb::WriteTransaction,
    uid: u64,
    bytes: &Vec<u8>,
) -> (r: Result<(), LedgerError>)
    ensures
        txn_token(*final(txn)) == txn_token(*old(txn)),
        r is Ok ==> pending_player_records_of(*final(txn)) == pending_player_records_of(
            *old(txn),
        ).insert(uid, bytes@) && pending_match_counts_of(*final(txn)) == pending_match_counts_of(
            *old(txn),
        ) && pending_follow_edges_of(*final(txn)) == pending_follow_edges_of(*old(txn)),
{
    let def: redb::TableDefinition<u64, Vec<u8>> = redb::TableDefinition::new("player_data_table");
    let mut table = match txn.open_table(def) {
        Ok(t) => t,
        Err(e) => return Err(LedgerError::Storage(format!("{e}"))),
    };
    let outcome = match table.insert(uid, bytes) {
        Ok(_) => Ok(()),
        Err(e) => Err(LedgerError::Storage(format!("{e}"))),
    };
    outcome
}

/// Relies on redb::Table::remove on the player-record table: the key
/// leaves the pending mapping, and the call reports whether it was
/// present.
#[verifier::external_body]
pub(crate) fn raw_txn_remove_record(txn: &mut redb::WriteTransaction, uid: u64) -> (r: Result<
    bool,
    LedgerError,
>)
    ensures
        txn_token(*final(txn)) == txn_token(*old(txn)),
        r matches Ok(was) ==> was == pending_player_records_of(*old(txn)).dom().contains(uid)
            && pending_player_records_of(*final(txn)) == pending_player_records_of(
            *old(txn),
        ).remove(uid) && pending_match_counts_of(*final(txn)) == pending_match_counts_of(
            *old(txn),
        ) && pending_follow_edges_of(*final(txn)) == pending_follow_edges_of(*old(txn)),
{
    let def: redb::TableDefinition<u64, Vec<u8>> = redb::TableDefinition::new("player_data_table");
    let mut table = match txn.open_table(def) {
        Ok(t) => t,
        Err(e) => return Err(LedgerError::Storage(format!("{e}"))),
    };
    let outcome = match table.remove(uid) {
        Ok(prior) => Ok(prior.is_some()),
        Err(e) => Err(LedgerError::Storage(format!("{e}"))),
    };
    outcome
}

/// Relies on redb::MultimapTable::insert on the followers table: the
/// pending edge set gains the pair, which is a no-op when it is already
/// present; the other tables are untouched.
#[verifier::external_body]
pub(crate) fn raw_txn_add_follow(
    txn: &mut redb::WriteTransaction,
    followee: u64,
    follower: u64,
) -> (r: Result<(), LedgerError>)
    ensures
        txn_token(*final(txn)) == txn_token(*old(txn)),
        r is Ok ==> pending_follow_edges_of(*final(txn)) == pending_follow_edges_of(
            *old(txn),
        ).insert((followee, follower)) && pending_match_counts_of(*final(txn))
            == pending_match_counts_of(*old(txn)) && pending_player_records_of(*final(txn))
            == pending_player_records_of(*old(txn)),
{
    let def: redb::MultimapTableDefinition<u64, u64> = redb::MultimapTableDefinition::new(
        "followers_table",
    );
    let mut table = match txn.open_multimap_table(def) {
        Ok(t) => t,
        Err(e) => return Err(LedgerError::Storage(format!("{e}"))),
    };
    let outcome = match table.insert(followee, follower) {
        Ok(_) => Ok(()),
        Err(e) => Err(LedgerError::Storage(format!("{e}"))),
    };
    outcome
}

/// Relies on redb::MultimapTable::remove on the followers table: the pair
/// leaves the pending edge set, and the call reports whether it was
/// present; the other tables are untouched.
#[verifier::external_body]
pub(crate) fn raw_txn_remove_follow(
    txn: &mut redb::WriteTransaction,
    followee: u64,
    follower: u64,
) -> (r: Result<bool, LedgerError>)
    ensures
        txn_token(*final(txn)) == txn_token(*old(txn)),
        r matches Ok(was) ==> was == pending_follow_edges_of(*old(txn)).contains(
            (followee, follower),
        ) && pending_follow_edges_of(*final(txn)) == pending_follow_edges_of(*old(txn)).remove(
            (followee, follower),
        ) && pending_match_counts_of(*final(txn)) == pending_match_counts_of(*old(txn))
            && pending_player_records_of(*final(txn)) == pending_player_records_of(*old(txn)),
{
    let def: redb::MultimapTableDefinition<u64, u64> = redb::MultimapTableDefinition::new(
        "followers_table",
    );
    let mut table = match txn.open_multimap_table(def) {
        Ok(t) => t,
        Err(e) => return Err(LedgerError::Storage(format!("{e}"))),
    };
    let outcome = match table.remove(followee, follower) {
        Ok(was) => Ok(was),
        Err(e) => Err(LedgerError::Storage(format!("{e}"))),
    };
    outcome
}

/// Relies on redb::MultimapTable::remove_all on the followers table: every
/// pair whose followed player is the given one leaves the pending edge
/// set; the other tables are untouched.
#[verifier::external_body]
pub(crate) fn raw_txn_remove_all_follow(txn: &mut redb::WriteTransaction, followee: u64) -> (r:
    Result<(), LedgerError>)
    ensures
        txn_token(*final(txn)) == txn_token(*old(txn)),
        r is Ok ==> pending_follow_edges_of(*final(txn)) == edges_without(
            pending_follow_edges_of(*old(txn)),
            followee,
        ) && pending_match_counts_of(*final(txn))
            == pending_match_counts_of(*old(txn)) && pending_player_records_of(*final(txn))
            == pending_player_records_of(*old(txn)),
{
    let def: redb::MultimapTableDefinition<u64, u64> = redb::MultimapTableDefinition::new(
        "followers_table",
    );
    let mut table = match txn.open_multimap_table(def) {
        Ok(t) => t,
        Err(e) => return Err(LedgerError::Storage(format!("{e}"))),
    };
    let outcome = match table.remove_all(followee) {
        Ok(removed) => {
            drop(removed);
            Ok(())
        }
        Err(e) => Err(LedgerError::Storage(format!("{e}"))),
    };
    outcome
}

/// Relies on redb::ReadTransaction::open_table and redb::ReadOnlyTable::get
/// on the match-count table: the committed value under the key, or nothing
/// when the key was never set; a table never written to is empty.
#[verifier::external_body]
pub(crate) fn raw_get_match_count(db: &redb::Database, uid: u64) -> (r: Result<
    Option<u64>,
    LedgerError,
>)
    ensures
        r matches Ok(o) ==> o == (if match_counts_of(*db).dom().contains(uid) {
            Some(match_counts_of(*db)[uid])
        } else {
            None::<u64>
        }),
{
    let rt = db.begin_read().map_err(|e| LedgerError::Storage(format!("{e}")))?;
    let def: redb::TableDefinition<u64, u64> = redb::TableDefinition::new("player_matchcount_table");
    let table = match rt.open_table(def) {
        Ok(t) => t,
        Err(redb::TableError::TableDoesNotExist(_)) => return Ok(None),
        Err(e) => return Err(LedgerError::Storage(format!("{e}"))),
    };
    let outcome = match table.get(uid) {
        Ok(found) => Ok(found.map(|g| g.value())),
        Err(e) => Err(LedgerError::Storage(format!("{e}"))),
    };
    outcome
}

/// Relies on redb::ReadOnlyTable::iter on the match-count table: one pair
/// per committed key, each key once; a table never written to is empty.
#[verifier::external_body]
pub(crate) fn raw_list_match_counts(db: &redb::Database) -> (r: Result<
    Vec<(u64, u64)>,
    LedgerError,
>)
    ensures
        r matches Ok(v) ==> seq_matches_map(v@, match_counts_of(*db)),
{
    let rt = db.begin_read().map_err(|e| LedgerError::Storage(format!("{e}")))?;
    let def: redb::TableDefinition<u64, u64> = redb::TableDefinition::new("player_matchcount_table");
    let table = match rt.open_table(def) {
        Ok(t) => t,
        Err(redb::TableError::TableDoesNotExist(_)) => return Ok(Vec::new()),
        Err(e) => return Err(LedgerError::Storage(format!("{e}"))),
    };
    let iter = redb::ReadableTable::iter(&table).map_err(|e| LedgerError::Storage(format!("{e}")))?;
    iter.map(|kv| kv.map(|(k, v)| (k.value(), v.value())).map_err(|e| LedgerError::Storage(format!("{e}")))).collect()
}

/// Relies on redb::ReadOnlyTable::get on the player-record table: the
/// committed bytes under the key, or nothing when the key was never set; a
/// table never written to is empty. The only errors this body builds are
/// storage errors.
#[verifier::external_body]
pub(crate) fn raw_get_record(db: &redb::Database, uid: u64) -> (r: Result<
    Option<Vec<u8>>,
    LedgerError,
>)
    ensures
        r matches Err(e) ==> e matches LedgerError::Storage(_),
        r matches Ok(o) ==> (match o {
            Some(bytes) => player_records_of(*db).dom().contains(uid) && bytes@
                == player_records_of(*db)[uid],
            None => !player_records_of(*db).dom().contains(uid),
        }),
{
    let rt = db.begin_read().map_err(|e| LedgerError::Storage(format!("{e}")))?;
    let def: redb::TableDefinition<u64, Vec<u8>> = redb::TableDefinition::new("player_data_table");
    let table = match rt.open_table(def) {
        Ok(t) => t,
        Err(redb::TableError::TableDoesNotExist(_)) => return Ok(None),
        Err(e) => return Err(LedgerError::Storage(format!("{e}"))),
    };
    let outcome = match table.get(uid) {
        Ok(found) => Ok(found.map(|g| g.value())),
        Err(e) => Err(LedgerError::Storage(format!("{e}"))),
    };
    outcome
}

/// Relies on redb::ReadOnlyTable::iter on the player-record table: one
/// pair per committed key, each key once; a table never written to is
/// empty. The only errors this body builds are storage errors.
#[verifier::external_body]
pub(crate) fn raw_list_records(db: &redb::Database) -> (r: Result<
    Vec<(u64, Vec<u8>)>,
    LedgerError,
>)
    ensures
        r matches Err(e) ==> e matches LedgerError::Storage(_),
        r matches Ok(v) ==> seq_matches_map(
            v@.map_values(|p: (u64, Vec<u8>)| (p.0, p.1@)),
            player_records_of(*db),
        ),
{
    let rt = db.begin_read().map_err(|e| LedgerError::Storage(format!("{e}")))?;
    let def: redb::TableDefinition<u64, Vec<u8>> = redb::TableDefinition::new("player_data_table");
    let table = match rt.open_table(def) {
        Ok(t) => t,
        Err(redb::TableError::TableDoesNotExist(_)) => return Ok(Vec::new()),
        Err(e) => return Err(LedgerError::Storage(format!("{e}"))),
    };
    let iter = redb::ReadableTable::iter(&table).map_err(|e| LedgerError::Storage(format!("{e}")))?;
    iter.map(|kv| kv.map(|(k, v)| (k.value(), v.value())).map_err(|e| LedgerError::Storage(format!("{e}")))).collect()
}

/// Relies on redb::ReadOnlyMultimapTable::get on the followers table: the
/// distinct committed followers of the given player, an empty listing for
/// a player nobody follows; a table never written to is empty.
#[verifier::external_body]
pub(crate) fn raw_list_followers(db: &redb::Database, followee: u64) -> (r: Result<
    Vec<u64>,
    LedgerError,
>)
    ensures
        r matches Ok(v) ==> v@.no_duplicates() && (forall|b: u64|
            v@.contains(b) <==> follow_edges_of(*db).contains((followee, b))),
{
    let rt = db.begin_read().map_err(|e| LedgerError::Storage(format!("{e}")))?;
    let def: redb::MultimapTableDefinition<u64, u64> = redb::MultimapTableDefinition::new("followers_table");
    let table = match rt.open_multimap_table(def) {
        Ok(t) => t,
        Err(redb::TableError::TableDoesNotExist(_)) => return Ok(Vec::new()),
        Err(e) => return Err(LedgerError::Storage(format!("{e}"))),
    };
    let values = table.get(followee).map_err(|e| LedgerError::Storage(format!("{e}")))?;
    values.map(|g| g.map(|x| x.value()).map_err(|e| LedgerError::Storage(format!("{e}")))).collect()
}

} // verus!
