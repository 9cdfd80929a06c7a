//! Exchange-local wall-clock time: the conversion from absolute instants,
//! the regular-session test and the arithmetic of hourly buckets.

use chrono::{Datelike, Timelike};
use vstd::prelude::*;

verus! {

/// A calendar date in the exchange's local time zone.
#[derive(Clone, Copy, Debug, PartialEq, Eq, Structural)]
pub struct LocalDate {
    pub year: i32,
    pub month: u32,
    pub day: u32,
}

/// An instant seen on the exchange's wall clock (America/New_York).
#[derive(Clone, Copy, Debug, PartialEq, Eq, Structural)]
pub struct LocalStamp {
    pub date: LocalDate,
    pub hour: u32,
    pub minute: u32,
    pub second: u32,
}

/// A reading that a clock can show: month 1 to 12, day 1 to 31, hour 0 to
/// 23, minute and second 0 to 59.
pub open spec fn valid_reading(l: LocalStamp) -> bool {
    &&& 1 <= l.date.month <= 12
    &&& 1 <= l.date.day <= 31
    &&& l.hour < 24
    &&& l.minute < 60
    &&& l.second < 60
}

/// Strict chronological order of calendar dates.
pub open spec fn date_lt(a: LocalDate, b: LocalDate) -> bool {
    a.year < b.year || (a.year == b.year && (a.month < b.month || (a.month == b.month
        && a.day < b.day)))
}

/// Decides `date_lt`.
pub fn date_before(a: &LocalDate, b: &LocalDate) -> (r: bool)
    ensures
        r == date_lt(*a, *b),
{
    a.year < b.year || (a.year == b.year && (a.month < b.month || (a.month == b.month && a.day
        < b.day)))
}

/// The exchange-local wall-clock reading of the instant `utc_seconds`
/// seconds after the Unix epoch, or `None` where the instant cannot be
/// represented.
pub uninterp spec fn exchange_local_of(utc_seconds: int) -> Option<LocalStamp>;

/// Relies on chrono's `DateTime::from_timestamp` (UTC instant from Unix
/// seconds, `None` out of range) and on chrono-tz's America/New_York table
/// through `with_timezone`, whose calendar and clock fields are read back with
/// chrono's `Datelike` / `Timelike` getters (month 1..=12, day 1..=31, hour
/// 0..=23, minute and second 0..=59).
#[verifier::external_body]
pub(crate) fn to_exchange_local(utc_seconds: i64) -> (r: Option<LocalStamp>)
    ensures
        r == exchange_local_of(utc_seconds as int),
        r matches Some(l) ==> valid_reading(l),
{
    match chrono::DateTime::from_timestamp(utc_seconds, 0) {
        Some(t) => {
            let l = t.with_timezone(&chrono_tz::America::New_York);
            let date = LocalDate { year: l.year(), month: l.month(), day: l.day() };
            Some(LocalStamp { date, hour: l.hour(), minute: l.minute(), second: l.second() })
        },
        None => None,
    }
}

/// Minute of the day at which the regular session opens (09:30).
pub const SESSION_OPEN_MINUTE: i64 = 570;

/// Width of one bucket in minutes.
pub const BUCKET_MINUTES: i64 = 60;

/// A wall-clock time lies in the regular session `[09:30, 16:00)`.
pub open spec fn in_session(hour: int, minute: int) -> bool {
    (hour > 9 || (hour == 9 && minute >= 30)) && hour < 16
}

/// Whether a wall-clock reading lies in the regular session, 09:30 inclusive
/// to 16:00 exclusive; seconds do not matter.
pub fn is_regular_session(local: &LocalStamp) -> (r: bool)
    ensures
        r == in_session(local.hour as int, local.minute as int),
{
    let h = local.hour;
    let m = local.minute;
    if h < 9 || (h == 9 && m < 30) {
        return false;
    }
    if h >= 16 {
        return false;
    }
    true
}

/// Index of the bucket holding the wall-clock time `hour:minute`: the
/// minutes since 09:30 divided by 60, rounded toward negative infinity.
pub open spec fn bucket_of(hour: int, minute: int) -> int {
    (hour * 60 + minute - 570) / 60
}

/// Computes `bucket_of` for a valid clock time.
pub fn bucket_index(hour: u32, minute: u32) -> (r: i64)
    requires
        hour < 24,
        minute < 60,
    ensures
        r == bucket_of(hour as int, minute as int),
{
    let since_open: i64 = (hour as i64) * 60 + (minute as i64) - SESSION_OPEN_MINUTE;
    if since_open >= 0 {
        since_open / BUCKET_MINUTES
    } else {
        let r: i64 = -((-since_open + BUCKET_MINUTES - 1) / BUCKET_MINUTES);
        assert(r == since_open / 60) by {
            let q = (-since_open + 59) / 60;
            assert(60 * q <= -since_open + 59 < 60 * q + 60);
            assert(-60 * q <= since_open < -60 * q + 60) by (nonlinear_arith)
                requires 60 * q <= -since_open + 59 < 60 * q + 60;
        }
        r
    }
}

/// The RFC 3339 rendering, with the exchange's UTC offset, of the local time
/// `hour:minute:00` on the given date, or `None` where that date or time does
/// not exist or does not name exactly one instant in the exchange's zone.
pub uninterp spec fn exchange_rfc3339_of(year: int, month: int, day: int, hour: int, minute: int) -> Option<Seq<char>>;

/// Relies on chrono's `NaiveDate::from_ymd_opt`, `NaiveTime::from_hms_opt`,
/// `NaiveDateTime::and_local_timezone` with chrono-tz's America/New_York
/// (kept only when `single`) and `DateTime::to_rfc3339`.
#[verifier::external_body]
fn local_rfc3339(date: &LocalDate, hour: u32, minute: u32) -> (r: Option<String>)
    ensures
        match r {
            Some(s) => exchange_rfc3339_of(date.year as int, date.month as int, date.day as int, hour as int, minute as int) == Some(s@),
            None => exchange_rfc3339_of(date.year as int, date.month as int, date.day as int, hour as int, minute as int) is None,
        },
{
    let d = chrono::NaiveDate::from_ymd_opt(date.year, date.month, date.day)?;
    let t = chrono::NaiveTime::from_hms_opt(hour, minute, 0)?;
    let local = chrono::NaiveDateTime::new(d, t).and_local_timezone(chrono_tz::America::New_York);
    Some(local.single()?.to_rfc3339())
}

/// The rendered start of bucket `k` on `date`: 09:30 plus `k` hours, local
/// time; `None` for an index whose start is not a time of that day, or a
/// start the zone cannot resolve.
pub open spec fn bucket_label(date: LocalDate, k: int) -> Option<Seq<char>> {
    if k < -9 || k > 14 {
        None
    } else {
        exchange_rfc3339_of(date.year as int, date.month as int, date.day as int, 9 + k, 30)
    }
}

/// The rendered start of bucket `k` on `date`.
pub fn bucket_start_label(date: &LocalDate, k: i64) -> (r: Option<String>)
    ensures
        match r {
            Some(s) => bucket_label(*date, k as int) == Some(s@),
            None => bucket_label(*date, k as int) is None,
        },
{
    if k < -9 || k > 14 {
        return None;
    }
    let start: i64 = SESSION_OPEN_MINUTE + k * BUCKET_MINUTES;
    let start_h = (start / 60) as u32;
    let start_m = (start % 60) as u32;
    assert(start_h == 9 + k && start_m == 30);
    local_rfc3339(date, start_h, start_m)
}

/// The rendered start instant of the bucket that holds `local`.
pub fn get_bucket_start(local: &LocalStamp) -> (r: Option<String>)
    requires
        local.hour < 24,
        local.minute < 60,
    ensures
        match r {
            Some(s) => bucket_label(local.date, bucket_of(local.hour as int, local.minute as int)) == Some(s@),
            None => bucket_label(local.date, bucket_of(local.hour as int, local.minute as int)) is None,
        },
{
    let k = bucket_index(local.hour, local.minute);
    bucket_start_label(&local.date, k)
}

} // verus!
