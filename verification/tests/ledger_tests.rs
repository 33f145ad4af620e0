//! Ledger behaviour over a fresh in-memory store: follow edges, match
//! counts, and batch updates.

use puddle_sync::ledger::Ledger;
use puddle_sync::LedgerError;

#[test]
fn opening_an_unusable_path_is_a_storage_error() {
    // "." names a directory, which the store cannot open as its file.
    assert!(matches!(Ledger::open("."), Err(LedgerError::Storage(_))));
}

#[test]
fn follow_edge_added_twice_lists_one_follower() {
    let mut ledger = Ledger::open_in_memory().unwrap();
    ledger.insert_follow_table(1, 2).unwrap();
    ledger.insert_follow_table(1, 2).unwrap();
    let followers = ledger.query_follow_table(1).unwrap();
    assert_eq!(followers, vec![2]);
}

#[test]
fn remove_all_follow_edges_leaves_no_followers() {
    let mut ledger = Ledger::open_in_memory().unwrap();
    ledger.insert_follow_table(1, 2).unwrap();
    ledger.insert_follow_table(1, 3).unwrap();
    ledger.insert_follow_table(1, 4).unwrap();
    ledger.remove_all_follow_table(1).unwrap();
    let followers = ledger.query_follow_table(1).unwrap();
    assert!(followers.is_empty());
}

#[test]
fn remove_all_follow_edges_spares_other_followees() {
    let mut ledger = Ledger::open_in_memory().unwrap();
    ledger.insert_follow_table(1, 2).unwrap();
    ledger.insert_follow_table(5, 6).unwrap();
    ledger.remove_all_follow_table(1).unwrap();
    assert!(ledger.query_follow_table(1).unwrap().is_empty());
    assert_eq!(ledger.query_follow_table(5).unwrap(), vec![6]);
}

#[test]
fn remove_follow_edge_removes_exactly_that_pair() {
    let mut ledger = Ledger::open_in_memory().unwrap();
    ledger.insert_follow_table(1, 2).unwrap();
    ledger.insert_follow_table(1, 3).unwrap();
    ledger.remove_follow_table(1, 2).unwrap();
    assert_eq!(ledger.query_follow_table(1).unwrap(), vec![3]);
}

#[test]
fn remove_absent_follow_edge_is_not_an_error() {
    let mut ledger = Ledger::open_in_memory().unwrap();
    ledger.remove_follow_table(1, 2).unwrap();
    assert!(ledger.query_follow_table(1).unwrap().is_empty());
}

#[test]
fn follower_listing_of_untouched_player_is_empty() {
    let ledger = Ledger::open_in_memory().unwrap();
    assert!(ledger.query_follow_table(9).unwrap().is_empty());
}

#[test]
fn match_count_set_then_get() {
    let mut ledger = Ledger::open_in_memory().unwrap();
    ledger.insert_player_matchcount_table(100, 5).unwrap();
    assert_eq!(ledger.get_player_matchcount_table(100).unwrap(), Some(5));
    assert_eq!(ledger.get_player_matchcount_table(200).unwrap(), None);
}

#[test]
fn match_count_update_overwrites() {
    let mut ledger = Ledger::open_in_memory().unwrap();
    ledger.insert_player_matchcount_table(7, 1).unwrap();
    ledger.update_player_matchcount_table(7, 9).unwrap();
    assert_eq!(ledger.get_player_matchcount_table(7).unwrap(), Some(9));
}

#[test]
fn match_count_remove_reports_presence() {
    let mut ledger = Ledger::open_in_memory().unwrap();
    ledger.insert_player_matchcount_table(7, 1).unwrap();
    assert!(ledger.remove_player_matchcount_table(7).unwrap());
    assert_eq!(ledger.get_player_matchcount_table(7).unwrap(), None);
    assert!(!ledger.remove_player_matchcount_table(7).unwrap());
}

#[test]
fn all_match_counts_lists_every_entry_once() {
    let mut ledger = Ledger::open_in_memory().unwrap();
    ledger.insert_player_matchcount_table(3, 30).unwrap();
    ledger.insert_player_matchcount_table(1, 10).unwrap();
    ledger.insert_player_matchcount_table(2, 20).unwrap();
    let mut listed = ledger.get_all_player_matchcounts().unwrap();
    listed.sort();
    assert_eq!(listed, vec![(1, 10), (2, 20), (3, 30)]);
}

#[test]
fn batch_update_match_counts_is_visible_whole() {
    let mut ledger = Ledger::open_in_memory().unwrap();
    ledger.insert_player_matchcount_table(1, 0).unwrap();
    let updates = vec![(1, 11), (2, 22), (3, 33)];
    ledger.batch_update_player_matchcounts(&updates).unwrap();
    assert_eq!(ledger.get_player_matchcount_table(1).unwrap(), Some(11));
    assert_eq!(ledger.get_player_matchcount_table(2).unwrap(), Some(22));
    assert_eq!(ledger.get_player_matchcount_table(3).unwrap(), Some(33));
}

#[test]
fn batch_update_later_entry_wins_for_same_player() {
    let mut ledger = Ledger::open_in_memory().unwrap();
    let updates = vec![(4, 1), (4, 2)];
    ledger.batch_update_player_matchcounts(&updates).unwrap();
    assert_eq!(ledger.get_player_matchcount_table(4).unwrap(), Some(2));
}

#[test]
fn empty_batch_changes_nothing() {
    let mut ledger = Ledger::open_in_memory().unwrap();
    ledger.insert_player_matchcount_table(1, 1).unwrap();
    ledger.batch_update_player_matchcounts(&Vec::new()).unwrap();
    assert_eq!(ledger.get_player_matchcount_table(1).unwrap(), Some(1));
}
