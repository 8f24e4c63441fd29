//! Points in time and calendar days.

use std::time::SystemTime;

use chrono::{DateTime, Datelike, NaiveDate, Utc};
use vstd::prelude::*;

verus! {

/// The number of the day 1970-01-01, where 0001-01-01 is day one.
pub const UNIX_EPOCH_DAY: i64 = 719163;

/// The seconds of a day.
pub const DAY_SECONDS: i64 = 86400;

/// The form in which the endpoints write a date.
pub const DATE_FORMAT: &'static str = "%Y-%m-%d";

/// A point in time in UTC: whole seconds since 1970-01-01T00:00:00, and the nanoseconds within
/// the second, which go beyond a whole second during a leap second.
#[derive(Debug, Clone, Copy, PartialEq, Eq, Structural)]
pub struct Timestamp {
    pub secs: i64,
    pub nanos: u32,
}

impl Timestamp {
    /// `self` lies before `other`.
    pub open spec fn earlier(self, other: Timestamp) -> bool {
        self.secs < other.secs || (self.secs == other.secs && self.nanos < other.nanos)
    }

    /// `self` lies neither before `start` nor after `end`.
    pub open spec fn within(self, start: Timestamp, end: Timestamp) -> bool {
        !self.earlier(start) && !end.earlier(self)
    }

    /// The midnight with which a day begins.
    pub open spec fn midnight_of(day: int) -> Timestamp {
        Timestamp { secs: ((day - UNIX_EPOCH_DAY) * DAY_SECONDS) as i64, nanos: 0 }
    }

    /// The day that `self` lies on.
    pub open spec fn day(self) -> int {
        self.secs as int / DAY_SECONDS as int + UNIX_EPOCH_DAY
    }

    /// `self` lies before `other`.
    pub fn is_before(&self, other: &Timestamp) -> (answer: bool)
        ensures
            answer == self.earlier(*other),
    {
        self.secs < other.secs || (self.secs == other.secs && self.nanos < other.nanos)
    }

    /// `self` lies neither before `start` nor after `end`.
    pub fn is_within(&self, start: &Timestamp, end: &Timestamp) -> (answer: bool)
        ensures
            answer == self.within(*start, *end),
    {
        !self.is_before(start) && !end.is_before(self)
    }

    /// The midnight with which a day begins.
    pub fn midnight(day: i32) -> (midnight: Timestamp)
        ensures
            midnight == Timestamp::midnight_of(day as int),
            midnight.secs == (day - UNIX_EPOCH_DAY) * DAY_SECONDS,
    {
        Timestamp { secs: (day as i64 - UNIX_EPOCH_DAY) * DAY_SECONDS, nanos: 0 }
    }
}

/// Each day has a midnight of its own, and a later day a later one.
pub proof fn midnights_are_in_order(day: i32, other: i32)
    ensures
        day < other <==> Timestamp::midnight_of(day as int).earlier(
            Timestamp::midnight_of(other as int),
        ),
        day == other <==> Timestamp::midnight_of(day as int) == Timestamp::midnight_of(
            other as int,
        ),
{
}

/// The midnight of a day lies on that day, and no other midnight does.
pub proof fn midnight_lies_on_its_day(day: i32, other: i32)
    ensures
        Timestamp::midnight_of(day as int).day() == day,
        Timestamp::midnight_of(other as int).day() == day <==> other == day,
{
}

/// Of two points in time one is earlier, or they are the same.
pub proof fn timestamps_are_in_order(a: Timestamp, b: Timestamp)
    ensures
        a.earlier(b) || b.earlier(a) || a == b,
        !(a.earlier(b) && b.earlier(a)),
        !a.earlier(a),
{
}

/// The day that a text names in a given form, counted from 0001-01-01 as day one; `None` where
/// the text names none.
pub uninterp spec fn calendar_day(text: Seq<char>, format: Seq<char>) -> Option<i32>;

/// Reads a date with `chrono::NaiveDate::parse_from_str` and counts its day with
/// `chrono::Datelike::num_days_from_ce`. Trusted: the result is a function of the two texts alone,
/// and is named [`calendar_day`].
#[verifier::external_body]
fn parse_from_str(text: &str, format: &str) -> (day: Option<i32>)
    ensures
        day == calendar_day(text@, format@),
{
    NaiveDate::parse_from_str(text, format).ok().map(|date: NaiveDate| date.num_days_from_ce())
}

/// Reads the clock with `std::time::SystemTime::now`, and the time as one in UTC with `chrono`'s
/// conversion into `chrono::DateTime<Utc>`, which takes clocks before 1970 too. Nothing is claimed
/// of the time that the clock shows. The conversion panics only where the clock stands beyond the
/// years that a `chrono::DateTime` can hold, some 262,000 before and after year zero.
#[verifier::external_body]
fn utc_now() -> (now: Timestamp) {
    let now = DateTime::<Utc>::from(SystemTime::now());
    Timestamp { secs: now.timestamp(), nanos: now.timestamp_subsec_nanos() }
}

/// `now` is a time that [`utc_now`] may give: one that the clock shows when it is read.
pub closed spec fn is_read_from_the_clock(now: Timestamp) -> bool {
    call_ensures(utc_now, (), now)
}

/// Calls `clock`, and gives what it gives.
fn ask<F: Fn() -> Timestamp>(clock: F) -> (now: Timestamp)
    requires
        call_requires(clock, ()),
    ensures
        call_ensures(clock, (), now),
{
    clock()
}

/// The time that the clock shows.
pub(crate) fn read_clock() -> (now: Timestamp)
    ensures
        is_read_from_the_clock(now),
{
    ask(utc_now)
}

/// The day that an endpoint's date names.
pub open spec fn endpoint_day(date: Seq<char>) -> Option<i32> {
    calendar_day(date, DATE_FORMAT@)
}

/// The day that an endpoint's date names.
pub fn day_of(date: &str) -> (day: Option<i32>)
    ensures
        day == endpoint_day(date@),
{
    parse_from_str(date, DATE_FORMAT)
}

} // verus!
