//! Plain-value model of the dates and instants that the calendar works with.
//!
//! A calendar date is its day number counted from the common era: 0001-01-01
//! is day 1 (chrono's `num_days_from_ce`).  An instant is a UNIX timestamp in
//! seconds together with the nanoseconds since that second; during a leap
//! second the nanoseconds run from one to two billion (chrono's
//! `timestamp` / `timestamp_subsec_nanos`).

use vstd::prelude::*;
use chrono::{DateTime, Datelike, NaiveDate, TimeZone, Utc};
use chrono_tz::Europe::Oslo;

verus! {

/// Day number of the first date chrono can represent (January 1, 262143 BCE).
pub const FIRST_DAY: i32 = -95_746_129;

/// Day number of the last date chrono can represent (December 31, 262142 CE).
pub const LAST_DAY: i32 = 95_745_399;

/// Day number of 1970-01-01.
pub const UNIX_EPOCH_DAY: i64 = 719_163;

/// A day number that names a representable calendar date.
pub open spec fn is_valid_day(day: int) -> bool {
    FIRST_DAY <= day <= LAST_DAY
}

/// A point in time, as UNIX seconds and the nanoseconds past that second.
#[derive(Clone, Copy, Debug, PartialEq, Eq, Structural)]
pub struct Instant {
    pub unix_seconds: i64,
    pub nanos: u32,
}

impl Instant {
    /// The UTC calendar date on which the instant falls.
    pub open spec fn utc_day(self) -> int {
        self.unix_seconds as int / 86400 + UNIX_EPOCH_DAY
    }

    /// The nanosecond part is well formed: below two billion, and at or above
    /// one billion only during the last second of a minute (a leap second).
    pub open spec fn has_valid_nanos(self) -> bool {
        &&& self.nanos < 2_000_000_000
        &&& self.nanos >= 1_000_000_000 ==> (self.unix_seconds as int % 86400) % 60 == 59
    }

    /// Well formed, and at least one day away from both ends of the
    /// representable range, so that any time zone shift stays representable.
    pub open spec fn is_interior(self) -> bool {
        &&& self.has_valid_nanos()
        &&& FIRST_DAY + 1 <= self.utc_day() <= LAST_DAY - 1
    }

    pub open spec fn as_pair(self) -> (int, int) {
        (self.unix_seconds as int, self.nanos as int)
    }
}

pub open spec fn instant_pair(i: Option<Instant>) -> Option<(int, int)> {
    match i {
        Some(t) => Some(t.as_pair()),
        None => None,
    }
}

pub open spec fn day_option(d: Option<i32>) -> Option<int> {
    match d {
        Some(x) => Some(x as int),
        None => None,
    }
}

/// What chrono's `NaiveDate::parse_from_str(text, "%Y-%m-%d")` yields for
/// `text`, as a day number.
pub uninterp spec fn parsed_ymd_date(text: Seq<char>) -> Option<int>;

/// What chrono's `DateTime::parse_from_rfc3339(text)` yields for `text`, as
/// (UNIX seconds, nanoseconds).
pub uninterp spec fn parsed_rfc3339_instant(text: Seq<char>) -> Option<(int, int)>;

/// The day number of the date in the Europe/Oslo time zone at the instant
/// (chrono-tz's `Oslo` and chrono's `date_naive`).
pub uninterp spec fn oslo_day_at(unix_seconds: int, nanos: int) -> int;

/// chrono's text for a date (`Display` of `NaiveDate`, `%Y-%m-%d`).
pub uninterp spec fn day_text(day: int) -> Seq<char>;

/// Parses `text` with chrono's `NaiveDate::parse_from_str` and the format
/// `%Y-%m-%d`.  Trusted: the result is the named `parsed_ymd_date`, and a
/// parsed date is always a representable one (chrono's `NaiveDate` invariant).
#[verifier::external_body]
pub(crate) fn parse_ymd_date(text: &str) -> (day: Option<i32>)
    ensures
        day_option(day) == parsed_ymd_date(text@),
        day matches Some(d) ==> is_valid_day(d as int),
{
    match NaiveDate::parse_from_str(text, "%Y-%m-%d") {
        Ok(date) => Some(date.num_days_from_ce()),
        Err(_) => None,
    }
}

/// Parses `text` with chrono's `DateTime::parse_from_rfc3339`.  Trusted: the
/// result is the named `parsed_rfc3339_instant`; chrono's RFC 3339 parser
/// reads a four-digit year, so a parsed instant lies within a day of the
/// years 0000 to 9999, far inside the representable range, and its
/// nanoseconds are chrono's (round-tripping through `from_timestamp`).
#[verifier::external_body]
pub(crate) fn parse_rfc3339_instant(text: &str) -> (instant: Option<Instant>)
    ensures
        instant_pair(instant) == parsed_rfc3339_instant(text@),
        instant matches Some(i) ==> {
            &&& i.has_valid_nanos()
            &&& FIRST_DAY + 2 <= i.utc_day() <= LAST_DAY - 2
        },
{
    match DateTime::parse_from_rfc3339(text) {
        Ok(t) => Some(Instant { unix_seconds: t.timestamp(), nanos: t.timestamp_subsec_nanos() }),
        Err(_) => None,
    }
}

/// The instant one nanosecond earlier, as chrono's
/// `DateTime::checked_sub_signed(TimeDelta::nanoseconds(1))` computes it on
/// this model: inside a second (leap seconds included) only the nanoseconds
/// drop by one; at the start of a second the result is the last nanosecond
/// of the second before.  For an interior instant it always exists.
pub(crate) fn nanosecond_earlier(at: Instant) -> (earlier: Option<Instant>)
    requires
        at.is_interior(),
    ensures
        earlier == Some(
            if at.nanos > 0 {
                Instant { unix_seconds: at.unix_seconds, nanos: (at.nanos - 1) as u32 }
            } else {
                Instant { unix_seconds: (at.unix_seconds - 1) as i64, nanos: 999_999_999 }
            },
        ),
{
    if at.nanos > 0 {
        Some(Instant { unix_seconds: at.unix_seconds, nanos: at.nanos - 1 })
    } else {
        assert(at.unix_seconds > i64::MIN);
        Some(Instant { unix_seconds: at.unix_seconds - 1, nanos: 999_999_999 })
    }
}

/// The date in Europe/Oslo at the instant, by chrono's
/// `with_timezone(&chrono_tz::Europe::Oslo).date_naive()`.  Trusted: for an
/// interior instant the conversion succeeds, its result is the named
/// `oslo_day_at`, and it is a representable date.
#[verifier::external_body]
pub(crate) fn oslo_day(at: Instant) -> (day: Option<i32>)
    requires
        at.is_interior(),
    ensures
        day == Some(oslo_day_at(at.unix_seconds as int, at.nanos as int) as i32),
        day matches Some(d) ==> is_valid_day(d as int) && d as int == oslo_day_at(
            at.unix_seconds as int,
            at.nanos as int,
        ),
{
    match DateTime::from_timestamp(at.unix_seconds, at.nanos) {
        Some(t) => Some(t.with_timezone(&Oslo).date_naive().num_days_from_ce()),
        None => None,
    }
}

/// chrono's text of a date (`NaiveDate::to_string`).  Trusted: the result
/// is the named `day_text` of the day number.
#[verifier::external_body]
pub(crate) fn date_text(day: i32) -> (text: String)
    requires
        is_valid_day(day as int),
    ensures
        text@ == day_text(day as int),
{
    match NaiveDate::from_num_days_from_ce_opt(day) {
        Some(date) => date.to_string(),
        None => String::new(),
    }
}

/// The UNIX time of midnight at the start of a date in Europe/Oslo, when
/// that local time exists exactly once (chrono-tz).
pub uninterp spec fn oslo_midnight_at(day: int) -> Option<(int, int)>;

/// chrono's RFC 3339 text (`DateTime::<Utc>::to_rfc3339`) of an instant,
/// none when chrono cannot represent it.
pub uninterp spec fn utc_rfc3339_at(unix_seconds: int, nanos: int) -> Option<Seq<char>>;

/// The instant of midnight at the start of a date in Europe/Oslo, by
/// chrono-tz's `Oslo.from_local_datetime(..).single()`.  Trusted: the result
/// is the named `oslo_midnight_at` of the day number.
#[verifier::external_body]
pub(crate) fn oslo_midnight(day: i32) -> (at: Option<Instant>)
    requires
        is_valid_day(day as int),
    ensures
        instant_pair(at) == oslo_midnight_at(day as int),
{
    match NaiveDate::from_num_days_from_ce_opt(day) {
        Some(date) => match Oslo.from_local_datetime(&date.and_time(chrono::NaiveTime::MIN)).single() {
            Some(t) => Some(Instant { unix_seconds: t.timestamp(), nanos: t.timestamp_subsec_nanos() }),
            None => None,
        },
        None => None,
    }
}

/// chrono's RFC 3339 text of an instant in UTC (`DateTime::<Utc>::
/// from_timestamp` and `to_rfc3339`).  Trusted: the result is the named
/// `utc_rfc3339_at`.
#[verifier::external_body]
pub(crate) fn utc_rfc3339(at: Instant) -> (text: Option<String>)
    ensures
        match text {
            Some(t) => utc_rfc3339_at(at.unix_seconds as int, at.nanos as int) == Some(t@),
            None => utc_rfc3339_at(at.unix_seconds as int, at.nanos as int) is None,
        },
{
    match DateTime::<Utc>::from_timestamp(at.unix_seconds, at.nanos) {
        Some(t) => Some(t.to_rfc3339()),
        None => None,
    }
}

} // verus!
