//! Temporal values from text and from epoch numbers, through the
//! outside parser.
//!
//! The text grammar for dates, times, datetimes and durations is an
//! external collaborator contract: its results are named here, not
//! restated. Where the outside function's result is a short formula of
//! its arguments, the contract states it exactly instead.

use vstd::prelude::*;

use crate::temporal::{Date, DateTime, Duration, Time};

verus! {

/// How fractions of a second beyond microsecond precision are handled
/// when parsing: silently truncated, or refused.
#[derive(Clone, Copy, Debug, PartialEq, Eq, Structural)]
pub enum MicrosecondsPrecision {
    Truncate,
    Error,
}

/// The date the outside parser reads from a byte text, if any.
pub uninterp spec fn speedate_date(b: Seq<u8>) -> Option<Date>;

/// The time the outside parser reads from a byte text, if any.
pub uninterp spec fn speedate_time(b: Seq<u8>, truncate_micro: bool) -> Option<Time>;

/// The datetime the outside parser reads from a byte text, if any.
pub uninterp spec fn speedate_datetime(b: Seq<u8>, truncate_micro: bool) -> Option<DateTime>;

/// The duration the outside parser reads from a byte text, if any.
pub uninterp spec fn speedate_duration(b: Seq<u8>, truncate_micro: bool) -> Option<Duration>;

/// The datetime the outside parser derives from an epoch number, if
/// any; the magnitude decides whether it is read as seconds or as
/// milliseconds.
pub uninterp spec fn speedate_datetime_from_ts(ts: i64) -> Option<DateTime>;

/// Relies on speedate::Date::parse_bytes: the date a byte text spells,
/// with the documented field ranges.
#[verifier::external_body]
pub fn parse_date_bytes(b: &[u8]) -> (r: Option<Date>)
    ensures
        r == speedate_date(b@),
        r matches Some(d) ==> d.wf(),
{
    match speedate::Date::parse_bytes(b) {
        Ok(d) => Some(Date { year: d.year, month: d.month, day: d.day }),
        Err(_) => None,
    }
}

/// Relies on speedate::Time::parse_bytes_with_config: the time a byte
/// text spells, with the documented field ranges.
#[verifier::external_body]
pub fn parse_time_bytes(b: &[u8], truncate_micro: bool) -> (r: Option<Time>)
    ensures
        r == speedate_time(b@, truncate_micro),
        r matches Some(t) ==> t.wf(),
{
    let behavior = if truncate_micro { speedate::MicrosecondsPrecisionOverflowBehavior::Truncate } else { speedate::MicrosecondsPrecisionOverflowBehavior::Error };
    let config = speedate::TimeConfig::builder().microseconds_precision_overflow_behavior(behavior).build();
    match speedate::Time::parse_bytes_with_config(b, &config) {
        Ok(t) => Some(Time { hour: t.hour, minute: t.minute, second: t.second, microsecond: t.microsecond, has_tz: t.tz_offset.is_some(), tz_offset: t.tz_offset.unwrap_or(0) }),
        Err(_) => None,
    }
}

/// Relies on speedate::DateTime::parse_bytes_with_config: the datetime
/// a byte text spells, with the documented field ranges.
#[verifier::external_body]
pub fn parse_datetime_bytes(b: &[u8], truncate_micro: bool) -> (r: Option<DateTime>)
    ensures
        r == speedate_datetime(b@, truncate_micro),
        r matches Some(dt) ==> dt.wf(),
{
    let behavior = if truncate_micro { speedate::MicrosecondsPrecisionOverflowBehavior::Truncate } else { speedate::MicrosecondsPrecisionOverflowBehavior::Error };
    let tc = speedate::TimeConfig::builder().microseconds_precision_overflow_behavior(behavior).build();
    let config = speedate::DateTimeConfig::builder().time_config(tc).build();
    match speedate::DateTime::parse_bytes_with_config(b, &config) {
        Ok(dt) => Some(DateTime {
            date: Date { year: dt.date.year, month: dt.date.month, day: dt.date.day },
            time: Time { hour: dt.time.hour, minute: dt.time.minute, second: dt.time.second, microsecond: dt.time.microsecond, has_tz: dt.time.tz_offset.is_some(), tz_offset: dt.time.tz_offset.unwrap_or(0) },
        }),
        Err(_) => None,
    }
}

/// Relies on speedate::Duration::parse_bytes_with_config: the duration
/// a byte text spells, with the documented field ranges.
#[verifier::external_body]
pub fn parse_duration_bytes(b: &[u8], truncate_micro: bool) -> (r: Option<Duration>)
    ensures
        r == speedate_duration(b@, truncate_micro),
        r matches Some(d) ==> d.wf(),
{
    let behavior = if truncate_micro { speedate::MicrosecondsPrecisionOverflowBehavior::Truncate } else { speedate::MicrosecondsPrecisionOverflowBehavior::Error };
    let config = speedate::TimeConfig::builder().microseconds_precision_overflow_behavior(behavior).build();
    match speedate::Duration::parse_bytes_with_config(b, &config) {
        Ok(d) => Some(Duration { positive: d.positive, day: d.day, second: d.second, microsecond: d.microsecond }),
        Err(_) => None,
    }
}

/// Relies on speedate::Time::from_timestamp: a second count within one
/// day becomes a plain wall-clock time, split exactly as documented;
/// a count of a day or more is refused.
#[verifier::external_body]
pub fn time_from_seconds(seconds: u32) -> (r: Option<Time>)
    ensures
        seconds < 86400 ==> r == Some(
            Time {
                hour: (seconds / 3600) as u8,
                minute: ((seconds % 3600) / 60) as u8,
                second: (seconds % 60) as u8,
                microsecond: 0,
                has_tz: false,
                tz_offset: 0,
            },
        ),
        seconds >= 86400 ==> r is None,
{
    match speedate::Time::from_timestamp(seconds, 0) {
        Ok(t) => Some(Time { hour: t.hour, minute: t.minute, second: t.second, microsecond: t.microsecond, has_tz: t.tz_offset.is_some(), tz_offset: t.tz_offset.unwrap_or(0) }),
        Err(_) => None,
    }
}

/// Relies on speedate::DateTime::from_timestamp: the datetime an epoch
/// number stands for, if it is in range.
#[verifier::external_body]
pub fn datetime_from_timestamp(ts: i64) -> (r: Option<DateTime>)
    ensures
        r == speedate_datetime_from_ts(ts),
        r matches Some(dt) ==> dt.wf(),
{
    match speedate::DateTime::from_timestamp(ts, 0) {
        Ok(dt) => Some(DateTime {
            date: Date { year: dt.date.year, month: dt.date.month, day: dt.date.day },
            time: Time { hour: dt.time.hour, minute: dt.time.minute, second: dt.time.second, microsecond: dt.time.microsecond, has_tz: dt.time.tz_offset.is_some(), tz_offset: dt.time.tz_offset.unwrap_or(0) },
        }),
        Err(_) => None,
    }
}

} // verus!
