//! The fetch cycle's decisions: pacing, population, keying, and the merge
//! of one cycle's successes into the ledger.

use puddle_sync::ledger::Ledger;
use puddle_sync::record::{PlayerRecord, RatingEntry};
use puddle_sync::sync::{
    apply_cycle_results, counts_from_records, cycle_population, keyed_records,
    launch_delay_millis, launch_plan,
};

fn record(id: Option<u64>, counts: &[u64]) -> PlayerRecord {
    PlayerRecord {
        id,
        ratings: Some(counts.iter().map(|c| RatingEntry { match_count: Some(*c) }).collect()),
    }
}

#[test]
fn plan_launches_one_fetch_per_player_with_even_spacing() {
    let population = vec![1, 2, 3];
    let plan = launch_plan(&population, 60_000);
    assert_eq!(plan, vec![(1, 20_000), (2, 20_000), (3, 20_000)]);
}

#[test]
fn plan_for_an_empty_population_is_empty() {
    let plan = launch_plan(&Vec::new(), 60_000);
    assert!(plan.is_empty());
}

#[test]
fn delay_is_the_budget_spread_over_the_population() {
    assert_eq!(launch_delay_millis(60_000, 4), 15_000);
}

#[test]
fn a_large_population_degrades_to_zero_delay() {
    assert_eq!(launch_delay_millis(10, 100), 0);
    let population: Vec<u64> = (0..100).collect();
    let plan = launch_plan(&population, 10);
    assert_eq!(plan.len(), 100);
    assert!(plan.iter().all(|p| p.1 == 0));
}

#[test]
fn population_is_the_match_count_key_set() {
    let mut ledger = Ledger::open_in_memory().unwrap();
    ledger.insert_player_matchcount_table(100, 0).unwrap();
    ledger.insert_player_matchcount_table(200, 7).unwrap();
    let mut population = cycle_population(&ledger).unwrap();
    population.sort();
    assert_eq!(population, vec![100, 200]);
}

#[test]
fn keyed_records_drop_records_without_an_identifier() {
    let fetched = vec![record(Some(1), &[2]), record(None, &[3]), record(Some(4), &[5])];
    let keyed = keyed_records(&fetched);
    let keys: Vec<u64> = keyed.iter().map(|p| p.0).collect();
    assert_eq!(keys, vec![1, 4]);
    assert_eq!(keyed[0].1, fetched[0]);
    assert_eq!(keyed[1].1, fetched[2]);
}

#[test]
fn counts_follow_the_keyed_records() {
    let fetched = vec![record(Some(1), &[2, 3]), record(Some(4), &[])];
    let keyed = keyed_records(&fetched);
    let counts = counts_from_records(&keyed);
    assert_eq!(counts, vec![(1, 5), (4, 0)]);
}

#[test]
fn one_cycle_updates_successes_and_spares_failures() {
    // The tracked population is {100, 200}; the fake fetch succeeded for
    // player 100 with five matches and failed for 200, so 200's record is
    // simply missing from the cycle's results.
    let mut ledger = Ledger::open_in_memory().unwrap();
    ledger.insert_player_matchcount_table(100, 0).unwrap();
    ledger.insert_player_matchcount_table(200, 0).unwrap();
    let fetched = vec![record(Some(100), &[5])];
    let (records, counts) = apply_cycle_results(&mut ledger, &fetched);
    records.unwrap();
    counts.unwrap();
    assert_eq!(ledger.get_player_matchcount_table(100).unwrap(), Some(5));
    assert_eq!(ledger.get_player_matchcount_table(200).unwrap(), Some(0));
    assert_eq!(ledger.get_player_data(100).unwrap(), Some(record(Some(100), &[5])));
    assert_eq!(ledger.get_player_data(200).unwrap(), None);
}

#[test]
fn a_cycle_with_no_successes_writes_nothing() {
    let mut ledger = Ledger::open_in_memory().unwrap();
    ledger.insert_player_matchcount_table(1, 3).unwrap();
    let (records, counts) = apply_cycle_results(&mut ledger, &Vec::new());
    records.unwrap();
    counts.unwrap();
    assert_eq!(ledger.get_player_matchcount_table(1).unwrap(), Some(3));
    assert_eq!(ledger.get_all_player_data().unwrap(), Vec::new());
}

#[test]
fn overlapping_cycles_leave_the_last_committed_batch() {
    // Two cycles both fetched player 300: the cycle that started first saw
    // ten matches but finished second; the later cycle saw twenty matches
    // and finished first. The store keeps whatever batch committed last --
    // here the earlier cycle's stale ten -- because each key is
    // last-write-wins and nothing orders overlapping cycles.
    let mut ledger = Ledger::open_in_memory().unwrap();
    ledger.insert_player_matchcount_table(300, 0).unwrap();
    let earlier_cycle = vec![record(Some(300), &[10])];
    let later_cycle = vec![record(Some(300), &[20])];
    let (r1, c1) = apply_cycle_results(&mut ledger, &later_cycle);
    r1.unwrap();
    c1.unwrap();
    let (r2, c2) = apply_cycle_results(&mut ledger, &earlier_cycle);
    r2.unwrap();
    c2.unwrap();
    assert_eq!(ledger.get_player_matchcount_table(300).unwrap(), Some(10));
    assert_eq!(ledger.get_player_data(300).unwrap(), Some(record(Some(300), &[10])));
}
