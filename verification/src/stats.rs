use crate::date::CalendarDay;
use std::collections::HashMap;
use vstd::prelude::*;

verus! {

broadcast use vstd::std_specs::hash::group_hash_axioms;

/// The per-day count of all messages, whoever sent them.
pub struct Stats;

/// The stored counts: at most one for each calendar date, kept under the
/// date's day number.
pub struct DailyCounts {
    rows: HashMap<i32, i64>,
}

impl View for DailyCounts {
    type V = Map<int, int>;

    closed spec fn view(&self) -> Map<int, int> {
        Map::new(
            |day: int| i32::MIN <= day <= i32::MAX && self.rows@.contains_key(day as i32),
            |day: int| self.rows@[day as i32] as int,
        )
    }
}

/// The count of a date after one more message: 1 for a date without a count,
/// else one more than before.
pub open spec fn bumped(existing: Option<int>) -> int {
    match existing {
        None => 1,
        Some(count) => count + 1,
    }
}

/// The count stored for `day`, if any.
pub open spec fn count_on(counts: Map<int, int>, day: int) -> Option<int> {
    if counts.contains_key(day) {
        Some(counts[day])
    } else {
        None
    }
}

/// The counts after one more message on `day`.
pub open spec fn after_message_on(counts: Map<int, int>, day: int) -> Map<int, int> {
    counts.insert(day, bumped(count_on(counts, day)))
}

/// The counts after messages on each of `days`, in that order, starting with
/// no counts at all.
pub open spec fn tallied(days: Seq<int>) -> Map<int, int>
    decreases days.len(),
{
    if days.len() == 0 {
        Map::empty()
    } else {
        after_message_on(tallied(days.drop_last()), days.last())
    }
}

/// How many of `days` are `day`.
pub open spec fn occurrences(days: Seq<int>, day: int) -> nat
    decreases days.len(),
{
    if days.len() == 0 {
        0
    } else {
        let rest = occurrences(days.drop_last(), day);
        if days.last() == day {
            rest + 1
        } else {
            rest
        }
    }
}

/// However the messages of different dates are mixed, a date has a count
/// exactly if a message was sent on it, and that count is the number of the
/// messages sent on it: none is lost and none is counted twice.
pub proof fn lemma_tally_counts_every_message(days: Seq<int>, day: int)
    ensures
        tallied(days).contains_key(day) <==> occurrences(days, day) > 0,
        tallied(days).contains_key(day) ==> tallied(days)[day] == occurrences(days, day),
    decreases days.len(),
{
    if days.len() > 0 {
        lemma_tally_counts_every_message(days.drop_last(), day);
    }
}

/// `n` messages that all fall on one date leave that date with the count `n`.
pub proof fn lemma_same_day_messages_all_counted(days: Seq<int>, day: int)
    requires
        days.len() > 0,
        forall|i: int| 0 <= i < days.len() ==> days[i] == day,
    ensures
        count_on(tallied(days), day) == Some(days.len() as int),
{
    lemma_tally_counts_every_message(days, day);
    lemma_occurrences_of_constant(days, day);
}

/// In a sequence that holds `day` alone, every element is an occurrence.
pub proof fn lemma_occurrences_of_constant(days: Seq<int>, day: int)
    requires
        forall|i: int| 0 <= i < days.len() ==> days[i] == day,
    ensures
        occurrences(days, day) == days.len(),
    decreases days.len(),
{
    if days.len() > 0 {
        lemma_occurrences_of_constant(days.drop_last(), day);
    }
}

impl DailyCounts {
    /// A table without counts.
    pub fn new() -> (r: DailyCounts)
        ensures
            r@ == Map::<int, int>::empty(),
    {
        let r = DailyCounts { rows: HashMap::new() };
        assert(r@ =~= Map::<int, int>::empty());
        r
    }
}

impl Stats {
    /// Counts one more message on the date `d`: a date without a count gets
    /// the count 1, any other date one more than it had. No other date
    /// changes.
    pub fn increment_message_count(table: &mut DailyCounts, d: CalendarDay)
        requires
            old(table)@.contains_key(d@) ==> old(table)@[d@] < i64::MAX,
        ensures
            final(table)@ == after_message_on(old(table)@, d@),
    {
        let next: i64 = match Stats::message_count(table, d) {
            Some(count) => count + 1,
            None => 1,
        };
        table.rows.insert(d.day_number, next);
        assert(table@ =~= after_message_on(old(table)@, d@));
    }

    /// Whether one more message can be counted on the date `d`: a stored
    /// count must have room for one more.
    pub fn can_increment(table: &DailyCounts, d: CalendarDay) -> (r: bool)
        ensures
            r == (table@.contains_key(d@) ==> table@[d@] < i64::MAX),
    {
        match Stats::message_count(table, d) {
            Some(count) => count < i64::MAX,
            None => true,
        }
    }

    /// The count stored for the date `d`, or `None` for a date on which no
    /// message was counted.
    pub fn message_count(table: &DailyCounts, d: CalendarDay) -> (r: Option<i64>)
        ensures
            match r {
                Some(count) => count_on(table@, d@) == Some(count as int),
                None => count_on(table@, d@) is None,
            },
    {
        match table.rows.get(&d.day_number) {
            Some(count) => Some(*count),
            None => None,
        }
    }
}

} // verus!
