//! Player statistics records and the match count derived from them.

use vstd::prelude::*;

verus! {

/// One rating category of a player's statistics, reduced to what the
/// synchronization pipeline reads from it: the category's ranked-match
/// count, absent when the ranking service reported none for the category.
#[derive(Debug, Clone, PartialEq, Eq)]
pub struct RatingEntry {
    pub match_count: Option<u64>,
}

/// A player statistics snapshot as the pipeline stores it: the player's
/// identifier as the ranking service reported it (absent in anonymous
/// responses) and the per-category rating entries (absent when the service
/// reported no rating list at all).
#[derive(Debug, Clone, PartialEq, Eq)]
pub struct PlayerRecord {
    pub id: Option<u64>,
    pub ratings: Option<Vec<RatingEntry>>,
}

/// The mathematical value of a player record: the identifier and the
/// per-category match counts.
pub ghost struct RecordModel {
    pub id: Option<u64>,
    pub ratings: Option<Seq<Option<u64>>>,
}

impl View for PlayerRecord {
    type V = RecordModel;

    open spec fn view(&self) -> RecordModel {
        RecordModel {
            id: self.id,
            ratings: match self.ratings {
                Some(v) => Some(v@.map_values(|e: RatingEntry| e.match_count)),
                None => None,
            },
        }
    }
}

/// The count one category contributes to the derived total: an absent
/// count is treated as zero.
pub open spec fn spec_category_count(c: Option<u64>) -> u64 {
    match c {
        Some(n) => n,
        None => 0,
    }
}

/// The mathematical sum of the per-category match counts of a rating list.
pub open spec fn sum_category_counts(s: Seq<Option<u64>>) -> int
    decreases s.len(),
{
    if s.len() == 0 {
        0
    } else {
        sum_category_counts(s.drop_last()) + spec_category_count(s.last())
    }
}

/// The match count derived from a record: the sum of its per-category
/// counts, an absent rating list or count contributing zero, clamped at
/// `u64::MAX`.
pub open spec fn spec_derived_match_count(m: RecordModel) -> int {
    let total = match m.ratings {
        Some(s) => sum_category_counts(s),
        None => 0,
    };
    if total > u64::MAX {
        u64::MAX as int
    } else {
        total
    }
}

proof fn lemma_sum_nonneg(s: Seq<Option<u64>>)
    ensures
        sum_category_counts(s) >= 0,
    decreases s.len(),
{
    if s.len() > 0 {
        lemma_sum_nonneg(s.drop_last());
    }
}

proof fn lemma_sum_take_step(s: Seq<Option<u64>>, i: int)
    requires
        0 <= i < s.len(),
    ensures
        sum_category_counts(s.take(i + 1)) == sum_category_counts(s.take(i))
            + spec_category_count(s[i]),
{
    assert(s.take(i + 1).drop_last() =~= s.take(i));
    assert(s.take(i + 1).last() == s[i]);
}

/// Derive a record's match count: the sum of the match counts over all of
/// its rating categories, where an absent rating list or an absent count
/// contributes zero; the sum saturates at `u64::MAX`.
pub fn derived_match_count(record: &PlayerRecord) -> (count: u64)
    ensures
        count == spec_derived_match_count(record@),
{
    match &record.ratings {
        None => 0,
        Some(entries) => {
            let ghost s: Seq<Option<u64>> = entries@.map_values(|e: RatingEntry| e.match_count);
            let mut total: u64 = 0;
            let mut i: usize = 0;
            while i < entries.len()
                invariant
                    i <= entries@.len(),
                    s == entries@.map_values(|e: RatingEntry| e.match_count),
                    total as int == (if sum_category_counts(s.take(i as int)) > u64::MAX {
                        u64::MAX as int
                    } else {
                        sum_category_counts(s.take(i as int))
                    }),
                decreases entries@.len() - i,
            {
                let c: u64 = match entries[i].match_count {
                    Some(n) => n,
                    None => 0,
                };
                proof {
                    lemma_sum_take_step(s, i as int);
                    lemma_sum_nonneg(s.take(i as int));
                    assert(c == spec_category_count(s[i as int]));
                }
                if total <= u64::MAX - c {
                    total = total + c;
                } else {
                    total = u64::MAX;
                }
                i = i + 1;
            }
            proof {
                assert(s.take(entries@.len() as int) =~= s);
            }
            total
        }
    }
}

} // verus!
