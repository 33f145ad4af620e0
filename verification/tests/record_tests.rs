//! Player records: the stored byte form, its round trip through the
//! ledger, and the derived match count.

use puddle_sync::codec::{deserialize_player_response, serialize_player_response};
use puddle_sync::ledger::Ledger;
use puddle_sync::record::{derived_match_count, PlayerRecord, RatingEntry};
use puddle_sync::LedgerError;

fn record(id: Option<u64>, counts: &[Option<u64>]) -> PlayerRecord {
    PlayerRecord {
        id,
        ratings: Some(counts.iter().map(|c| RatingEntry { match_count: *c }).collect()),
    }
}

#[test]
fn stored_record_round_trips_through_the_ledger() {
    let mut ledger = Ledger::open_in_memory().unwrap();
    let rec = record(Some(5), &[Some(2), None, Some(3)]);
    ledger.insert_player_data(10, &rec).unwrap();
    assert_eq!(ledger.get_player_data(10).unwrap(), Some(rec));
}

#[test]
fn bare_record_round_trips_through_the_ledger() {
    let mut ledger = Ledger::open_in_memory().unwrap();
    let rec = PlayerRecord { id: None, ratings: None };
    ledger.insert_player_data(11, &rec).unwrap();
    assert_eq!(ledger.get_player_data(11).unwrap(), Some(rec));
}

#[test]
fn empty_rating_list_is_kept_distinct_from_no_list() {
    let mut ledger = Ledger::open_in_memory().unwrap();
    let with_empty_list = record(Some(1), &[]);
    ledger.insert_player_data(12, &with_empty_list).unwrap();
    let back = ledger.get_player_data(12).unwrap().unwrap();
    assert_eq!(back, with_empty_list);
    assert_ne!(back, PlayerRecord { id: Some(1), ratings: None });
}

#[test]
fn update_player_data_overwrites() {
    let mut ledger = Ledger::open_in_memory().unwrap();
    ledger.insert_player_data(9, &record(Some(9), &[Some(1)])).unwrap();
    let newer = record(Some(9), &[Some(4)]);
    ledger.update_player_data(9, &newer).unwrap();
    assert_eq!(ledger.get_player_data(9).unwrap(), Some(newer));
}

#[test]
fn absent_player_data_reads_as_none() {
    let ledger = Ledger::open_in_memory().unwrap();
    assert_eq!(ledger.get_player_data(42).unwrap(), None);
}

#[test]
fn remove_player_data_reports_presence() {
    let mut ledger = Ledger::open_in_memory().unwrap();
    ledger.insert_player_data(3, &record(Some(3), &[])).unwrap();
    assert!(ledger.remove_player_data(3).unwrap());
    assert_eq!(ledger.get_player_data(3).unwrap(), None);
    assert!(!ledger.remove_player_data(3).unwrap());
}

#[test]
fn all_player_data_lists_every_record_once() {
    let mut ledger = Ledger::open_in_memory().unwrap();
    let first = record(Some(1), &[Some(1)]);
    let second = record(Some(2), &[None]);
    ledger.insert_player_data(1, &first).unwrap();
    ledger.insert_player_data(2, &second).unwrap();
    let mut listed = ledger.get_all_player_data().unwrap();
    listed.sort_by_key(|p| p.0);
    assert_eq!(listed, vec![(1, first), (2, second)]);
}

#[test]
fn batch_update_player_data_stores_every_record() {
    let mut ledger = Ledger::open_in_memory().unwrap();
    let first = record(Some(1), &[Some(7)]);
    let second = record(Some(2), &[Some(8)]);
    let updates = vec![(1, first.clone()), (2, second.clone())];
    ledger.batch_update_player_data(&updates).unwrap();
    assert_eq!(ledger.get_player_data(1).unwrap(), Some(first));
    assert_eq!(ledger.get_player_data(2).unwrap(), Some(second));
}

#[test]
fn encoding_of_the_bare_record_is_two_absent_tags() {
    let bytes = serialize_player_response(&PlayerRecord { id: None, ratings: None });
    assert_eq!(bytes, vec![0, 0]);
}

#[test]
fn encoding_writes_little_endian_fields() {
    let rec = record(Some(1), &[Some(2)]);
    let bytes = serialize_player_response(&rec);
    assert_eq!(
        bytes,
        vec![
            1, 1, 0, 0, 0, 0, 0, 0, 0, // the identifier, present
            1, 1, 0, 0, 0, 0, 0, 0, 0, // the rating list, one entry
            1, 2, 0, 0, 0, 0, 0, 0, 0, // the entry's count, present
        ]
    );
}

#[test]
fn decoding_rejects_junk_as_corrupt() {
    let junk = vec![9, 9, 9];
    assert!(matches!(deserialize_player_response(&junk), Err(LedgerError::Encoding)));
}

#[test]
fn decoding_rejects_trailing_bytes() {
    let mut bytes = serialize_player_response(&PlayerRecord { id: None, ratings: None });
    bytes.push(0);
    assert!(matches!(deserialize_player_response(&bytes), Err(LedgerError::Encoding)));
}

#[test]
fn decoding_rejects_a_truncated_record() {
    let bytes = serialize_player_response(&record(Some(1), &[Some(2)]));
    let cut = bytes[..bytes.len() - 1].to_vec();
    assert!(matches!(deserialize_player_response(&cut), Err(LedgerError::Encoding)));
}

#[test]
fn decoding_inverts_encoding() {
    let rec = record(Some(77), &[None, Some(1), Some(u64::MAX)]);
    let bytes = serialize_player_response(&rec);
    assert_eq!(deserialize_player_response(&bytes).unwrap(), rec);
}

#[test]
fn derived_count_sums_categories_with_absent_as_zero() {
    let rec = record(Some(1), &[Some(1), None, Some(2)]);
    assert_eq!(derived_match_count(&rec), 3);
}

#[test]
fn derived_count_of_a_record_without_ratings_is_zero() {
    assert_eq!(derived_match_count(&PlayerRecord { id: Some(1), ratings: None }), 0);
    assert_eq!(derived_match_count(&record(Some(1), &[])), 0);
}

#[test]
fn derived_count_saturates_at_the_maximum() {
    let rec = record(Some(1), &[Some(u64::MAX), Some(1)]);
    assert_eq!(derived_match_count(&rec), u64::MAX);
}
