//! The decisions of the periodic fetch cycle: how launches are paced over
//! the cycle budget, which fetched records are kept, and how a cycle's
//! successes are merged into the ledger.
//!
//! The waiting itself, the concurrent fetches and the outer timer are
//! I/O and stay with the caller; everything here is a function from plain
//! values to plain values, so the caller's loop carries no logic of its
//! own.

use vstd::prelude::*;

use crate::ledger::{apply_count_updates, apply_record_updates, Ledger};
use crate::record::{
    derived_match_count, spec_derived_match_count, PlayerRecord, RatingEntry, RecordModel,
};
use crate::LedgerError;

verus! {

/// The fetched records that carry a player identifier, keyed by that
/// identifier, in fetch-result order.
pub open spec fn spec_keyed(s: Seq<RecordModel>) -> Seq<(u64, RecordModel)>
    decreases s.len(),
{
    if s.len() == 0 {
        Seq::empty()
    } else {
        let rest = spec_keyed(s.drop_last());
        match s.last().id {
            Some(id) => rest.push((id, s.last())),
            None => rest,
        }
    }
}

/// The match-count updates derived from keyed records: each player paired
/// with the count derived from that player's record.
pub open spec fn spec_counts_of_keyed(s: Seq<(u64, RecordModel)>) -> Seq<(u64, u64)> {
    s.map_values(|p: (u64, RecordModel)| (p.0, spec_derived_match_count(p.1) as u64))
}

proof fn lemma_spec_keyed_take_step(s: Seq<RecordModel>, i: int)
    requires
        0 <= i < s.len(),
    ensures
        spec_keyed(s.take(i + 1)) == (match s[i].id {
            Some(id) => spec_keyed(s.take(i)).push((id, s[i])),
            None => spec_keyed(s.take(i)),
        }),
{
    assert(s.take(i + 1).drop_last() =~= s.take(i));
    assert(s.take(i + 1).last() == s[i]);
}

fn clone_record(record: &PlayerRecord) -> (copy: PlayerRecord)
    ensures
        copy@ == record@,
        copy.id == record.id,
{
    match &record.ratings {
        None => PlayerRecord { id: record.id, ratings: None },
        Some(entries) => {
            let mut out: Vec<RatingEntry> = Vec::new();
            let mut i: usize = 0;
            #[verifier::loop_isolation(false)]
            while i < entries.len()
                invariant
                    i <= entries@.len(),
                    out@ == entries@.take(i as int),
                decreases entries@.len() - i,
            {
                out.push(RatingEntry { match_count: entries[i].match_count });
                proof {
                    assert(entries@[i as int] == RatingEntry {
                        match_count: entries@[i as int].match_count,
                    });
                    assert(out@ =~= entries@.take(i as int + 1));
                }
                i = i + 1;
            }
            proof {
                assert(entries@.take(entries@.len() as int) =~= entries@);
            }
            PlayerRecord { id: record.id, ratings: Some(out) }
        }
    }
}

/// Keep the fetched records that carry a player identifier, keyed by it,
/// in fetch-result order; a record without an identifier is dropped.
pub fn keyed_records(fetched: &Vec<PlayerRecord>) -> (keyed: Vec<(u64, PlayerRecord)>)
    ensures
        keyed@.map_values(|p: (u64, PlayerRecord)| (p.0, p.1@)) == spec_keyed(
            fetched@.map_values(|r: PlayerRecord| r@),
        ),
{
    let ghost models = fetched@.map_values(|r: PlayerRecord| r@);
    let mut keyed: Vec<(u64, PlayerRecord)> = Vec::new();
    let mut i: usize = 0;
    #[verifier::loop_isolation(false)]
    while i < fetched.len()
        invariant
            i <= fetched@.len(),
            keyed@.map_values(|p: (u64, PlayerRecord)| (p.0, p.1@)) == spec_keyed(
                models.take(i as int),
            ),
        decreases fetched@.len() - i,
    {
        let record = &fetched[i];
        proof {
            assert(models[i as int] == fetched@[i as int]@);
            lemma_spec_keyed_take_step(models, i as int);
        }
        match record.id {
            Some(id) => {
                let copy = clone_record(record);
                let ghost before = keyed@.map_values(|p: (u64, PlayerRecord)| (p.0, p.1@));
                keyed.push((id, copy));
                proof {
                    assert(keyed@.map_values(|p: (u64, PlayerRecord)| (p.0, p.1@)) =~= before.push(
                        (id, copy@),
                    ));
                }
            }
            None => {}
        }
        i = i + 1;
    }
    proof {
        assert(models.take(models.len() as int) =~= models);
    }
    keyed
}

/// Derive the match-count updates for keyed records: each player paired
/// with the count summed from that player's record.
pub fn counts_from_records(keyed: &Vec<(u64, PlayerRecord)>) -> (counts: Vec<(u64, u64)>)
    ensures
        counts@ == spec_counts_of_keyed(keyed@.map_values(|p: (u64, PlayerRecord)| (p.0, p.1@))),
{
    let ghost pairs = keyed@.map_values(|p: (u64, PlayerRecord)| (p.0, p.1@));
    let mut counts: Vec<(u64, u64)> = Vec::new();
    let mut i: usize = 0;
    #[verifier::loop_isolation(false)]
    while i < keyed.len()
        invariant
            i <= keyed@.len(),
            counts@ == spec_counts_of_keyed(pairs).take(i as int),
        decreases keyed@.len() - i,
    {
        let entry = &keyed[i];
        let derived = derived_match_count(&entry.1);
        counts.push((entry.0, derived));
        proof {
            assert(pairs[i as int] == (keyed@[i as int].0, keyed@[i as int].1@));
            assert(spec_counts_of_keyed(pairs)[i as int] == (pairs[i as int].0,
            spec_derived_match_count(pairs[i as int].1) as u64));
            assert(counts@ =~= spec_counts_of_keyed(pairs).take(i as int + 1));
        }
        i = i + 1;
    }
    proof {
        assert(spec_counts_of_keyed(pairs).take(keyed@.len() as int) =~= spec_counts_of_keyed(
            pairs,
        ));
    }
    counts
}

/// The delay between successive fetch launches: the cycle budget spread
/// evenly over the population. A delay of zero merely removes the pacing;
/// the launches themselves all still happen.
pub fn launch_delay_millis(budget_millis: u64, population: usize) -> (delay: u64)
    requires
        population >= 1,
    ensures
        delay == budget_millis / (population as u64),
{
    budget_millis / (population as u64)
}

/// The launch plan of one cycle: one entry per tracked player, in
/// population order, each paired with the delay to sleep after launching
/// that player's fetch. An empty population yields an empty plan at once:
/// nothing is launched and there is nothing to sleep for.
pub fn launch_plan(population: &Vec<u64>, budget_millis: u64) -> (plan: Vec<(u64, u64)>)
    ensures
        plan@.len() == population@.len(),
        forall|i: int|
            0 <= i < plan@.len() ==> #[trigger] plan@[i] == (population@[i], budget_millis / (
            population@.len() as u64)),
{
    if population.len() == 0 {
        return Vec::new();
    }
    let delay = launch_delay_millis(budget_millis, population.len());
    let mut plan: Vec<(u64, u64)> = Vec::new();
    let mut i: usize = 0;
    #[verifier::loop_isolation(false)]
    while i < population.len()
        invariant
            i <= population@.len(),
            plan@.len() == i,
            forall|j: int| 0 <= j < i ==> #[trigger] plan@[j] == (population@[j], delay),
        decreases population@.len() - i,
    {
        let uid = population[i];
        plan.push((uid, delay));
        i = i + 1;
    }
    plan
}

/// Read the tracked population: the players present in the match-count
/// table, each exactly once, in no promised order.
pub fn cycle_population(ledger: &Ledger) -> (r: Result<Vec<u64>, LedgerError>)
    ensures
        r matches Ok(v) ==> v@.no_duplicates() && (forall|k: u64|
            v@.contains(k) <==> ledger.match_counts().dom().contains(k)),
{
    let listed = match ledger.get_all_player_matchcounts() {
        Ok(v) => v,
        Err(e) => return Err(e),
    };
    let mut population: Vec<u64> = Vec::new();
    let mut i: usize = 0;
    #[verifier::loop_isolation(false)]
    while i < listed.len()
        invariant
            i <= listed@.len(),
            population@.len() == i,
            forall|j: int| 0 <= j < i ==> #[trigger] population@[j] == listed@[j].0,
        decreases listed@.len() - i,
    {
        let entry = &listed[i];
        population.push(entry.0);
        i = i + 1;
    }
    proof {
        assert forall|k: u64|
            population@.contains(k) implies ledger.match_counts().dom().contains(k) by {
            let j = choose|j: int| 0 <= j < population@.len() && population@[j] == k;
            assert(listed@[j].0 == k);
        }
        assert forall|k: u64|
            ledger.match_counts().dom().contains(k) implies population@.contains(k) by {
            let j = choose|j: int| 0 <= j < listed@.len() && #[trigger] listed@[j].0 == k;
            assert(population@[j] == k);
        }
    }
    Ok(population)
}

/// One cycle's merge step: store every fetched record that carries a
/// player identifier, then the match counts derived from those same
/// records, each batch one committed transaction. The first result
/// reports the record batch, the second the count batch; an error in one
/// does not keep the other from being attempted, and a cycle with no
/// keyed records writes nothing. Fetch failures never reach this point:
/// the scheduler's caller already dropped them.
pub fn apply_cycle_results(ledger: &mut Ledger, fetched: &Vec<PlayerRecord>) -> (r: (
    Result<(), LedgerError>,
    Result<(), LedgerError>,
))
    requires
        old(ledger).wf(),
    ensures
        final(ledger).wf(),
        final(ledger).follow_edges() == old(ledger).follow_edges(),
        spec_keyed(fetched@.map_values(|rec: PlayerRecord| rec@)).len() == 0 ==> r.0 is Ok
            && r.1 is Ok,
        r.0 matches Err(e) ==> (e matches LedgerError::CommitUnresolved(_)
            || final(ledger).player_records() == old(ledger).player_records()),
        r.1 matches Err(e) ==> (e matches LedgerError::CommitUnresolved(_)
            || final(ledger).match_counts() == old(ledger).match_counts()),
        r.0 is Ok ==> final(ledger).player_records() == apply_record_updates(
            old(ledger).player_records(),
            spec_keyed(fetched@.map_values(|rec: PlayerRecord| rec@)),
        ),
        r.0 is Err ==> final(ledger).player_records() == old(ledger).player_records() || final(ledger).player_records() == apply_record_updates(
            old(ledger).player_records(),
            spec_keyed(fetched@.map_values(|rec: PlayerRecord| rec@)),
        ),
        r.1 is Ok ==> final(ledger).match_counts() == apply_count_updates(
            old(ledger).match_counts(),
            spec_counts_of_keyed(spec_keyed(fetched@.map_values(|rec: PlayerRecord| rec@))),
        ),
        r.1 is Err ==> final(ledger).match_counts() == old(ledger).match_counts() || final(ledger).match_counts() == apply_count_updates(
            old(ledger).match_counts(),
            spec_counts_of_keyed(spec_keyed(fetched@.map_values(|rec: PlayerRecord| rec@))),
        ),
{
    let keyed = keyed_records(fetched);
    let ghost keyed_models = spec_keyed(fetched@.map_values(|rec: PlayerRecord| rec@));
    if keyed.len() == 0 {
        proof {
            assert(keyed_models.len() == 0);
            assert(apply_record_updates(old(ledger).player_records(), keyed_models) == old(
                ledger,
            ).player_records());
            assert(spec_counts_of_keyed(keyed_models).len() == 0);
            assert(apply_count_updates(
                old(ledger).match_counts(),
                spec_counts_of_keyed(keyed_models),
            ) == old(ledger).match_counts());
        }
        return (Ok(()), Ok(()));
    }
    let record_outcome = ledger.batch_update_player_data(&keyed);
    let counts = counts_from_records(&keyed);
    let count_outcome = ledger.batch_update_player_matchcounts(&counts);
    (record_outcome, count_outcome)
}

} // verus!
