//! Day-bucket arithmetic and the streak/points accrual rules for check-ins.

use vstd::prelude::*;

verus! {

/// The day-bucket of a timestamp: the start of the UTC calendar day that
/// contains it, by epoch arithmetic.
pub open spec fn day_bucket(ts: int) -> int {
    ts - ts % 86400
}

/// Start of the UTC calendar day containing `ts`.
pub fn day_start(ts: i64) -> (r: i64)
    requires
        0 <= ts,
    ensures
        r == day_bucket(ts as int),
        0 <= r <= ts,
        r % 86400 == 0,
        ts - r < 86400,
{
    ts - (ts % 86400)
}

/// Start of the UTC calendar day containing `timestamp`.
pub fn get_day_start(timestamp: i64) -> (r: i64)
    requires
        0 <= timestamp,
    ensures
        r == day_bucket(timestamp as int),
{
    timestamp - (timestamp % 86400)
}

/// The streak a check-in today earns, given the user's current streak and the
/// day-buckets of the last check-in and of today: a check-in on the very next
/// day extends the streak, a gap resets it to one, and anything else (a clock
/// that moved backward) keeps it.
pub open spec fn next_streak(current_streak: int, last_day: int, today: int) -> int {
    if last_day == today - 86400 {
        current_streak + 1
    } else if last_day < today - 86400 {
        1
    } else {
        current_streak
    }
}

/// Points for one check-in at the given streak: a base reward of ten plus a
/// linear streak bonus.
pub open spec fn points_for(streak: int) -> int {
    10 + 2 * streak
}

/// Streak and points for one check-in by a user whose previous check-in day
/// and current streak are known. `last_day` and `today` are day-buckets;
/// callers reject a same-day repeat before calling, so `last_day == today`
/// never earns anything here.
pub fn accrue(current_streak: i64, last_day: i64, today: i64) -> (r: (i64, i64))
    requires
        1 <= current_streak < 0x1000_0000_0000_0000,
        0 <= today,
    ensures
        r.0 == next_streak(current_streak as int, last_day as int, today as int),
        r.1 == points_for(r.0 as int),
        1 <= r.0 <= current_streak + 1,
{
    let new_streak: i64 = if last_day == today - 86400 {
        current_streak + 1
    } else if last_day < today - 86400 {
        1
    } else {
        current_streak
    };
    let points: i64 = 10 + new_streak * 2;
    (new_streak, points)
}

} // verus!
