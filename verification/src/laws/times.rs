//! Days, midnights and ranges, in seconds since 1970-01-01T00:00:00 UTC.

use vstd::prelude::*;

use crate::time;
use crate::time::Timestamp;

verus! {

/// The second at which a day begins, where 0001-01-01 is day one: 1970-01-01 is day 719163, and a
/// day has 86400 seconds.
pub open spec fn first_second(day: int) -> int {
    (day - 719163) * 86400
}

/// The day that an endpoint's date names, written as year, month and day.
pub open spec fn named_day(date: Seq<char>) -> Option<i32> {
    time::calendar_day(date, "%Y-%m-%d"@)
}

/// A day begins within a range, whose two ends belong to it.
pub open spec fn begins_within(day: int, start: Timestamp, end: Timestamp) -> bool {
    &&& start.secs < first_second(day) || (start.secs == first_second(day) && start.nanos == 0)
    &&& first_second(day) <= end.secs
}

/// The date names a day that begins within the range.
pub open spec fn dated_within(date: Seq<char>, start: Timestamp, end: Timestamp) -> bool {
    named_day(date) matches Some(day) && begins_within(day as int, start, end)
}

/// Dates are read as year, month and day.
pub proof fn dates_are_years_months_and_days(date: Seq<char>)
    ensures
        time::endpoint_day(date) == named_day(date),
{
}

/// The midnight of a day is the second at which it begins, and no nanosecond more.
pub proof fn midnights_are_whole_days(day: i32)
    ensures
        Timestamp::midnight_of(day as int).secs == first_second(day as int),
        Timestamp::midnight_of(day as int).nanos == 0,
{
}

/// A point in time lies on the day whose first second it has reached and whose last it has not
/// passed.
pub proof fn days_last_from_midnight_to_midnight(moment: Timestamp, day: int)
    ensures
        moment.day() == day <==> first_second(day) <= moment.secs < first_second(day + 1),
{
}

/// A point in time is earlier than another if its second is, or if the second is the same and the
/// nanosecond is earlier; and a range holds all but what is earlier than its start or later than
/// its end.
pub proof fn ranges_hold_their_ends(moment: Timestamp, start: Timestamp, end: Timestamp)
    ensures
        start.earlier(end) <==> start.secs < end.secs || (start.secs == end.secs && start.nanos
            < end.nanos),
        moment.within(start, end) <==> {
            &&& moment.secs > start.secs || (moment.secs == start.secs && moment.nanos
                >= start.nanos)
            &&& moment.secs < end.secs || (moment.secs == end.secs && moment.nanos <= end.nanos)
        },
        moment.within(moment, moment),
{
}

/// The midnight of a day lies within a range if the day begins within it.
pub proof fn lemma_begins_within(day: i32, start: Timestamp, end: Timestamp)
    ensures
        Timestamp::midnight_of(day as int).within(start, end) <==> begins_within(
            day as int,
            start,
            end,
        ),
{
}

} // verus!
