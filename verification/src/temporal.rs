//! Plain temporal values: calendar dates, wall-clock times, datetimes and
//! signed durations, carried as integer fields.
//!
//! Parsing from text and conversion from epoch numbers are delegated to an
//! outside parser; the types here only hold the resulting fields, so that
//! validator logic over them can be verified.

use vstd::prelude::*;

verus! {

/// A calendar date.
#[derive(Clone, Copy, Debug, PartialEq, Eq, Structural)]
pub struct Date {
    /// Year: four digits.
    pub year: u16,
    /// Month: 1 to 12.
    pub month: u8,
    /// Day: 1 to 31, within the month's length.
    pub day: u8,
}

/// A wall-clock time with optional timezone offset.
#[derive(Clone, Copy, Debug, PartialEq, Eq, Structural)]
pub struct Time {
    /// Hour: 0 to 23.
    pub hour: u8,
    /// Minute: 0 to 59.
    pub minute: u8,
    /// Second: 0 to 59.
    pub second: u8,
    /// Microsecond: 0 to 999999.
    pub microsecond: u32,
    /// Whether a timezone offset is attached.
    pub has_tz: bool,
    /// Timezone offset in seconds; meaningful only when `has_tz`.
    pub tz_offset: i32,
}

/// A date and a time.
#[derive(Clone, Copy, Debug, PartialEq, Eq, Structural)]
pub struct DateTime {
    pub date: Date,
    pub time: Time,
}

/// A signed duration, split into days, seconds and microseconds.
#[derive(Clone, Copy, Debug, PartialEq, Eq, Structural)]
pub struct Duration {
    /// The sign of the duration.
    pub positive: bool,
    /// Days: any size.
    pub day: u32,
    /// Seconds: 0 to 86399.
    pub second: u32,
    /// Microseconds: 0 to 999999.
    pub microsecond: u32,
}

impl Date {
    /// Well-formedness of the carried fields.
    pub open spec fn wf(self) -> bool {
        1 <= self.month <= 12 && 1 <= self.day <= 31
    }
}

impl Time {
    pub open spec fn wf(self) -> bool {
        self.hour <= 23 && self.minute <= 59 && self.second <= 59 && self.microsecond
            <= 999999
    }
}

impl DateTime {
    pub open spec fn wf(self) -> bool {
        self.date.wf() && self.time.wf()
    }

    /// The datetime at midnight of a date, used when a plain date is
    /// accepted where a datetime was requested.
    pub fn at_midnight(date: Date) -> (r: DateTime)
        ensures
            r.date == date,
            r.time == (Time {
                hour: 0,
                minute: 0,
                second: 0,
                microsecond: 0,
                has_tz: false,
                tz_offset: 0,
            }),
            date.wf() ==> r.wf(),
    {
        DateTime {
            date,
            time: Time { hour: 0, minute: 0, second: 0, microsecond: 0, has_tz: false, tz_offset: 0 },
        }
    }
}

impl Duration {
    pub open spec fn wf(self) -> bool {
        self.second <= 86399 && self.microsecond <= 999999
    }

    /// The magnitude of a whole-second count.
    pub open spec fn spec_magnitude_int(seconds: int) -> int {
        if seconds >= 0 {
            seconds
        } else {
            -seconds
        }
    }

    /// The magnitude of a whole-second count, as a mathematical integer.
    pub open spec fn spec_magnitude(seconds: i64) -> int {
        Self::spec_magnitude_int(seconds as int)
    }

    /// A whole number of seconds as a duration: the sign is kept apart and
    /// the magnitude is split into days and leftover seconds. Fails only
    /// when the day count does not fit its field.
    pub fn from_seconds(seconds: i64) -> (r: Option<Duration>)
        ensures
            match r {
                Some(d) => {
                    &&& d.positive == (seconds >= 0)
                    &&& d.microsecond == 0
                    &&& d.day * 86400 + d.second == Self::spec_magnitude(seconds)
                    &&& d.wf()
                },
                None => Self::spec_magnitude(seconds) / 86400 > u32::MAX,
            },
    {
        let positive: bool = seconds >= 0;
        let magnitude: u64 = if seconds >= 0 {
            seconds as u64
        } else if seconds == i64::MIN {
            9223372036854775808u64
        } else {
            (-seconds) as u64
        };
        let day: u64 = magnitude / 86400;
        let second: u64 = magnitude % 86400;
        if day > u32::MAX as u64 {
            return None;
        }
        proof {
            assert(day * 86400 + second == magnitude);
        }
        Some(Duration { positive, day: day as u32, second: second as u32, microsecond: 0 })
    }
}

} // verus!
