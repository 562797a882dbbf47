//! Instants on the UTC time line, held as whole seconds since the Unix epoch.

use chrono::Datelike;
use vstd::prelude::*;

verus! {

/// Earliest instant that chrono can represent as a `DateTime<Utc>`
/// (-262143-01-01T00:00:00Z), in seconds since the Unix epoch.
pub const MIN_UNIX_SECONDS: i64 = -8334601228800;

/// Latest whole-second instant that chrono can represent as a `DateTime<Utc>`
/// (262142-12-31T23:59:59Z), in seconds since the Unix epoch.
pub const MAX_UNIX_SECONDS: i64 = 8210266876799;

pub const SECONDS_PER_MINUTE: i64 = 60;

pub const SECONDS_PER_HOUR: i64 = 3600;

/// The proleptic Gregorian (year, month, day) on which an instant falls in UTC.
pub uninterp spec fn calendar_date_of(secs: int) -> (i32, u32, u32);

/// Relies on chrono's `DateTime::from_timestamp` (with no nanoseconds): it gives a
/// value exactly for the seconds from `MIN_UNIX_SECONDS` to `MAX_UNIX_SECONDS`;
/// and on `Datelike::{year, month, day}`, which read that instant's UTC date.
#[verifier::external_body]
fn utc_calendar_date(secs: i64) -> (r: Option<(i32, u32, u32)>)
    ensures
        r.is_some() == (MIN_UNIX_SECONDS <= secs <= MAX_UNIX_SECONDS),
        r.is_some() ==> r.unwrap() == calendar_date_of(secs as int),
{
    match chrono::DateTime::from_timestamp(secs, 0) {
        Some(instant) => Some((instant.year(), instant.month(), instant.day())),
        None => None,
    }
}

pub open spec fn in_time_range(secs: int) -> bool {
    MIN_UNIX_SECONDS <= secs <= MAX_UNIX_SECONDS
}

/// True when two instants fall on the same UTC calendar day.
pub open spec fn same_day(a: int, b: int) -> bool {
    calendar_date_of(a) == calendar_date_of(b)
}

/// An instant, in whole seconds since 1970-01-01T00:00:00Z, that chrono can
/// represent as a UTC date and time.
#[derive(Clone, Copy, Debug, PartialEq, Eq, Structural, Hash)]
pub struct Timestamp {
    secs: i64,
}

impl View for Timestamp {
    type V = int;

    closed spec fn view(&self) -> int {
        self.secs as int
    }
}

impl Timestamp {
    #[verifier::type_invariant]
    spec fn representable(self) -> bool {
        in_time_range(self.secs as int)
    }

    /// The instant `secs` seconds after the Unix epoch, if chrono can represent it.
    pub fn from_unix_seconds(secs: i64) -> (r: Option<Timestamp>)
        ensures
            r.is_some() == in_time_range(secs as int),
            r.is_some() ==> r.unwrap()@ == secs as int,
    {
        match utc_calendar_date(secs) {
            Some(_) => Some(Timestamp { secs }),
            None => None,
        }
    }

    pub fn unix_seconds(&self) -> (r: i64)
        ensures
            r as int == self@,
            in_time_range(r as int),
    {
        proof {
            use_type_invariant(self);
        }
        self.secs
    }

    /// The instant `delta` seconds later (earlier when `delta` is negative), if it
    /// can be represented.
    pub fn checked_add_seconds(&self, delta: i64) -> (r: Option<Timestamp>)
        ensures
            r.is_some() == in_time_range(self@ + delta),
            r.is_some() ==> r.unwrap()@ == self@ + delta,
    {
        let secs = self.unix_seconds();
        let sum = secs as i128 + delta as i128;
        if MIN_UNIX_SECONDS as i128 <= sum && sum <= MAX_UNIX_SECONDS as i128 {
            Some(Timestamp { secs: sum as i64 })
        } else {
            None
        }
    }

    /// The UTC calendar date of this instant, as (year, month, day).
    pub fn calendar_date(&self) -> (r: (i32, u32, u32))
        ensures
            r == calendar_date_of(self@),
    {
        match utc_calendar_date(self.unix_seconds()) {
            Some(date) => date,
            // never taken: every Timestamp lies in chrono's range
            None => (0, 0, 0),
        }
    }
}

/// Whole hours in a duration of `seconds`, and the whole minutes past them.
pub fn hours_and_minutes(seconds: i64) -> (r: (i64, i64))
    requires
        seconds >= 0,
    ensures
        r.0 == seconds as int / SECONDS_PER_HOUR as int,
        r.1 == seconds as int / SECONDS_PER_MINUTE as int - 60 * r.0,
        0 <= r.1 < 60,
{
    let hours = seconds / SECONDS_PER_HOUR;
    let minutes = seconds / SECONDS_PER_MINUTE - hours * 60;
    (hours, minutes)
}

/// True when both instants fall on the same UTC calendar day.
pub fn same_work_day(starting_time: Timestamp, last_clock_out: Timestamp) -> (r: bool)
    ensures
        r == same_day(starting_time@, last_clock_out@),
{
    let a = starting_time.calendar_date();
    let b = last_clock_out.calendar_date();
    a.0 == b.0 && a.1 == b.1 && a.2 == b.2
}

} // verus!
