//! Spaced-repetition scheduling of a single card.
use vstd::prelude::*;

verus! {

/// Upper bound on the review interval used when nothing else is configured.
pub const DEFAULT_MAX_INTERVAL_DAYS: u64 = 180;

/// A card's next review slot: the interval in days and the day it is due.
#[derive(Clone, Copy, Debug, PartialEq, Eq, Structural)]
pub struct Schedule {
    pub interval_days: u64,
    pub next_review_date: u64,
}

/// The interval that follows `interval` after an answer.
///
/// A correct answer doubles the interval, capped at `max_interval`; a wrong
/// answer resets it to one day. It is never below one day.
pub open spec fn next_interval_spec(interval: int, was_correct: bool, max_interval: int) -> int {
    let doubled = if 2 * interval > max_interval {
        max_interval
    } else {
        2 * interval
    };
    if !was_correct || doubled < 1 {
        1
    } else {
        doubled
    }
}

/// `today + days`, held at the largest day number the type can carry.
pub open spec fn due_day(today: int, days: int) -> int {
    if today + days > u64::MAX {
        u64::MAX as int
    } else {
        today + days
    }
}

/// Computes the schedule of a card whose current interval is `interval_days`
/// after it was answered on day `today`.
pub fn next_schedule(interval_days: u64, was_correct: bool, today: u64, max_interval: u64) -> (r:
    Schedule)
    ensures
        r.interval_days == next_interval_spec(interval_days as int, was_correct, max_interval as int),
        r.next_review_date == due_day(today as int, r.interval_days as int),
        1 <= r.interval_days,
        max_interval >= 1 ==> r.interval_days <= max_interval,
        r.next_review_date >= today,
{
    let doubled: u64 = if interval_days > max_interval / 2 {
        max_interval
    } else {
        2 * interval_days
    };
    assert(doubled as int == (if 2 * interval_days > max_interval {
        max_interval as int
    } else {
        2 * interval_days
    })) by (nonlinear_arith)
        requires
            interval_days > max_interval / 2 ==> doubled == max_interval,
            interval_days <= max_interval / 2 ==> doubled == 2 * interval_days,
    ;
    let interval: u64 = if !was_correct || doubled == 0 {
        1
    } else {
        doubled
    };
    Schedule { interval_days: interval, next_review_date: today.saturating_add(interval) }
}

/// Two correct answers in a row lengthen the interval, as long as the first
/// one left it below the cap; a wrong answer brings it back to one day
/// whatever came before.
pub proof fn lemma_correct_streak_grows(interval: int, max_interval: int)
    requires
        next_interval_spec(interval, true, max_interval) < max_interval,
    ensures
        next_interval_spec(next_interval_spec(interval, true, max_interval), true, max_interval)
            > next_interval_spec(interval, true, max_interval),
        forall|i: int| next_interval_spec(i, false, max_interval) == 1,
{
}

} // verus!
