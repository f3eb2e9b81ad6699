//! The packed timestamp of a row: four date bytes and, where the date says
//! so, six time bytes.
//!
//! Bits are counted from the least significant bit of each byte. A field
//! that crosses a byte takes its low bits from the earlier byte.

use vstd::prelude::*;
use crate::errors::DriverError;
use crate::errors::ErrorKind;

verus! {

/// A UTC instant: whole seconds since 1970-01-01T00:00:00Z and the
/// nanoseconds past that second.
#[derive(Clone, Copy, Debug, PartialEq, Eq, Structural)]
pub struct Timestamp {
    pub seconds: i64,
    pub nanoseconds: u32,
}

impl View for Timestamp {
    type V = Timestamp;

    open spec fn view(&self) -> Timestamp {
        *self
    }
}

/// The fields of the date part, as the four bytes spell them.
#[derive(Clone, Copy, Debug, PartialEq, Eq, Structural)]
pub struct DatePart {
    /// Whether six time bytes follow the date.
    pub has_time_part: bool,
    /// Day of the week, 0 to 7.
    pub day_of_week: u8,
    /// Day of the month, counted from 1.
    pub day_of_month: u8,
    /// Month, counted from 1.
    pub month: u8,
    /// Year: the 19 bits of the field, never negative.
    pub year: i32,
}

/// The fields of the time part, as the six bytes spell them.
#[derive(Clone, Copy, Debug, PartialEq, Eq, Structural)]
pub struct TimePart {
    pub hours: u8,
    pub minutes: u8,
    pub seconds: u8,
    pub nanoseconds: u32,
}

/// The date that the bytes `d0` to `d3` spell:
/// bit 0 of `d0` says whether a time part follows;
/// bits 1 to 3 of `d0` are the day of the week;
/// bits 4 to 7 of `d0` and bit 0 of `d1` are the day of the month less one;
/// bits 1 to 4 of `d1` are the month less one;
/// bits 5 to 7 of `d1`, all of `d2` and all of `d3` are the year.
pub open spec fn date_part(d0: u8, d1: u8, d2: u8, d3: u8) -> DatePart {
    DatePart {
        has_time_part: d0 % 2 == 1,
        day_of_week: (d0 / 2 % 8) as u8,
        day_of_month: (d0 / 16 + 16 * (d1 % 2) + 1) as u8,
        month: (d1 / 2 % 16 + 1) as u8,
        year: (d1 / 32 + 8 * d2 + 2048 * d3) as i32,
    }
}

/// The time that the bytes `t0` to `t5` spell:
/// bits 1 to 7 of `t0`, all of `t1` and `t2` and bits 0 to 6 of `t3` are the
/// nanoseconds;
/// bit 7 of `t3` and bits 0 to 4 of `t4` are the seconds;
/// bits 5 to 7 of `t4` and bits 0 to 2 of `t5` are the minutes;
/// bits 3 to 7 of `t5` are the hours.
pub open spec fn time_part(t0: u8, t1: u8, t2: u8, t3: u8, t4: u8, t5: u8) -> TimePart {
    TimePart {
        hours: (t5 / 8) as u8,
        minutes: (t4 / 32 + 8 * (t5 % 8)) as u8,
        seconds: (t3 / 128 + 2 * (t4 % 32)) as u8,
        nanoseconds: (t0 / 2 + 128 * t1 + 32768 * t2 + 8388608 * (t3 % 128)) as u32,
    }
}

/// Midnight: the time of a timestamp without a time part.
pub open spec fn midnight() -> TimePart {
    TimePart { hours: 0, minutes: 0, seconds: 0, nanoseconds: 0 }
}

impl DatePart {
    /// Takes the date part apart.
    pub fn decode(d0: u8, d1: u8, d2: u8, d3: u8) -> (r: DatePart)
        ensures
            r == date_part(d0, d1, d2, d3),
            r.day_of_week <= 7,
            1 <= r.day_of_month <= 32,
            1 <= r.month <= 16,
            0 <= r.year < 524288,
    {
        DatePart {
            has_time_part: d0 % 2 == 1,
            day_of_week: d0 / 2 % 8,
            day_of_month: d0 / 16 + 16 * (d1 % 2) + 1,
            month: d1 / 2 % 16 + 1,
            year: (d1 / 32) as i32 + 8 * (d2 as i32) + 2048 * (d3 as i32),
        }
    }
}

impl TimePart {
    /// Takes the time part apart.
    pub fn decode(t0: u8, t1: u8, t2: u8, t3: u8, t4: u8, t5: u8) -> (r: TimePart)
        ensures
            r == time_part(t0, t1, t2, t3, t4, t5),
            r.hours <= 31,
            r.minutes <= 63,
            r.seconds <= 63,
            r.nanoseconds < 0x4000_0000,
    {
        TimePart {
            hours: t5 / 8,
            minutes: t4 / 32 + 8 * (t5 % 8),
            seconds: t3 / 128 + 2 * (t4 % 32),
            nanoseconds: (t0 / 2) as u32 + 128 * (t1 as u32) + 32768 * (t2 as u32) + 8388608 * ((t3
                % 128) as u32),
        }
    }

    /// The time of a timestamp without a time part.
    pub fn midnight() -> (r: TimePart)
        ensures
            r == midnight(),
    {
        TimePart { hours: 0, minutes: 0, seconds: 0, nanoseconds: 0 }
    }
}

/// The UTC instant of a calendar date and a time of day, as chrono computes
/// it; `None` where chrono knows no such date or no such time.
pub uninterp spec fn utc_instant(
    year: i32,
    month: u32,
    day: u32,
    hour: u32,
    minute: u32,
    second: u32,
    nanosecond: u32,
) -> Option<(i64, u32)>;

/// The instant that a date part and a time part name together.
pub open spec fn instant_of(date: DatePart, time: TimePart) -> Option<(i64, u32)> {
    utc_instant(
        date.year,
        date.month as u32,
        date.day_of_month as u32,
        time.hours as u32,
        time.minutes as u32,
        time.seconds as u32,
        time.nanoseconds,
    )
}

/// chrono's `NaiveDate::from_ymd_opt`, `NaiveDate::and_hms_nano_opt`,
/// `NaiveDateTime::and_utc`, `DateTime::timestamp` and
/// `DateTime::timestamp_subsec_nanos`, one after the other. The contract
/// claims only that the outcome depends on the seven numbers alone: `None`
/// where either of the first two refuses them, else the seconds and
/// nanoseconds of the instant. None of the five panics.
#[verifier::external_body]
pub(crate) fn chrono_utc_instant(
    year: i32,
    month: u32,
    day: u32,
    hour: u32,
    minute: u32,
    second: u32,
    nanosecond: u32,
) -> (r: Option<(i64, u32)>)
    ensures
        r == utc_instant(year, month, day, hour, minute, second, nanosecond),
{
    let date = chrono::NaiveDate::from_ymd_opt(year, month, day)?;
    let moment = date.and_hms_nano_opt(hour, minute, second, nanosecond)?.and_utc();
    Some((moment.timestamp(), moment.timestamp_subsec_nanos()))
}

/// The text that chrono writes for the UTC instant of these seconds and
/// nanoseconds; `None` where its calendar does not reach that far.
pub uninterp spec fn instant_text(seconds: i64, nanoseconds: u32) -> Option<Seq<char>>;

/// chrono's `DateTime::from_timestamp`, and the `to_string` of the
/// `DateTime<Utc>` it gave. The contract claims only that the outcome
/// depends on the two numbers alone. Neither panics.
#[verifier::external_body]
pub(crate) fn chrono_instant_text(seconds: i64, nanoseconds: u32) -> (r: Option<String>)
    ensures
        r.deep_view() == instant_text(seconds, nanoseconds),
{
    chrono::DateTime::from_timestamp(seconds, nanoseconds).map(|moment| moment.to_string())
}

impl Timestamp {
    /// The instant as text, date and time of day in UTC; `None` where the
    /// calendar does not reach that far.
    pub fn to_text(&self) -> (r: Option<String>)
        ensures
            r.deep_view() == instant_text(self.seconds, self.nanoseconds),
    {
        chrono_instant_text(self.seconds, self.nanoseconds)
    }

    /// The timestamp of an instant that the calendar gave, or a protocol
    /// error where it gave none.
    pub fn from_instant(instant: Option<(i64, u32)>) -> (r: Result<Timestamp, DriverError>)
        ensures
            match instant {
                Some((seconds, nanoseconds)) => r == Ok::<Timestamp, DriverError>(
                    Timestamp { seconds, nanoseconds },
                ),
                None => r matches Err(e) && e.kind == ErrorKind::Protocol,
            },
    {
        match instant {
            Some((seconds, nanoseconds)) => Ok(Timestamp { seconds, nanoseconds }),
            None => Err(
                DriverError::with_kind(ErrorKind::Protocol, "read_data | No such date and time."),
            ),
        }
    }

    /// The instant that a date part and a time part name, or a protocol
    /// error where the calendar has no such date or the clock no such time.
    pub fn from_parts(date: DatePart, time: TimePart) -> (r: Result<Timestamp, DriverError>)
        ensures
            match instant_of(date, time) {
                Some((seconds, nanoseconds)) => r == Ok::<Timestamp, DriverError>(
                    Timestamp { seconds, nanoseconds },
                ),
                None => r matches Err(e) && e.kind == ErrorKind::Protocol,
            },
    {
        Timestamp::from_instant(
            chrono_utc_instant(
                date.year,
                date.month as u32,
                date.day_of_month as u32,
                time.hours as u32,
                time.minutes as u32,
                time.seconds as u32,
                time.nanoseconds,
            ),
        )
    }
}

} // verus!
