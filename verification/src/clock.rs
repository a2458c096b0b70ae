//! Local time: clock times in twelve hours, days and weekdays counted from the epoch.
use crate::text::{decimal_text, two_digit_text};
use vstd::prelude::*;
use vstd::string::*;

verus! {

/// The seconds of a day.
pub const DAY_SECONDS: i64 = 86_400;

/// The minutes of a day.
pub const DAY_MINUTES: i64 = 1_440;

/// The hour of a clock of twelve hours.
pub open spec fn dial_hour(hour: nat) -> nat {
    if hour % 12 == 0 {
        12
    } else {
        hour % 12
    }
}

/// The half of the day that an hour lies in.
pub open spec fn half_of_day(hour: nat) -> Seq<char> {
    if hour < 12 {
        "AM"@
    } else {
        "PM"@
    }
}

/// A clock time in twelve hours.
pub open spec fn clock_time(hour: nat, minute: nat) -> Seq<char> {
    crate::text::decimal(dial_hour(hour)) + ":"@ + crate::text::two_digits(minute) + " "@
        + half_of_day(hour)
}

/// The clock time of a minute of the day.
pub open spec fn minute_clock(minute: nat) -> Seq<char> {
    clock_time(minute / 60, minute % 60)
}

/// Spells a clock time in twelve hours.
pub fn format_clock_time(hour: u16, minute: u16) -> (text: String)
    ensures
        text@ == clock_time(hour as nat, minute as nat),
{
    let suffix = if hour < 12 {
        "AM"
    } else {
        "PM"
    };
    let dial: u16 = if hour % 12 == 0 {
        12
    } else {
        hour % 12
    };
    let mut text = decimal_text(dial as u64);
    text.append(":");
    text.append(two_digit_text(minute as u64).as_str());
    text.append(" ");
    text.append(suffix);
    text
}

/// Spells the clock time of a minute of the day.
pub fn format_minute(minute: u16) -> (text: String)
    ensures
        text@ == minute_clock(minute as nat),
{
    format_clock_time(minute / 60, minute % 60)
}

/// The seconds since local midnight.
pub open spec fn seconds_of_day(timestamp: int, utc_offset_seconds: int) -> int {
    (timestamp + utc_offset_seconds) % 86_400
}

/// The local day, counted from the epoch.
pub open spec fn day_of(timestamp: int, utc_offset_seconds: int) -> int {
    (timestamp + utc_offset_seconds) / 86_400
}

/// The remainder of a division by a positive number, never negative.
pub fn remainder(value: i128, divisor: i128) -> (result: i128)
    requires
        divisor > 0,
    ensures
        result == value as int % divisor as int,
        0 <= result < divisor,
{
    match value.checked_rem_euclid(divisor) {
        Some(result) => result,
        None => 0,
    }
}

/// The quotient of a division by a positive number, rounded down.
pub fn quotient(value: i128, divisor: i128) -> (result: i128)
    requires
        divisor > 0,
    ensures
        result == value as int / divisor as int,
{
    proof {
        assert(i128::MIN <= value as int / divisor as int <= i128::MAX) by (nonlinear_arith)
            requires
                divisor > 0,
                i128::MIN <= value <= i128::MAX,
        ;
    }
    match value.checked_div_euclid(divisor) {
        Some(result) => result,
        None => 0,
    }
}

/// The seconds since local midnight.
pub fn local_seconds(timestamp: i64, utc_offset_seconds: i32) -> (seconds: i64)
    ensures
        seconds == seconds_of_day(timestamp as int, utc_offset_seconds as int),
        0 <= seconds < 86_400,
{
    remainder(timestamp as i128 + utc_offset_seconds as i128, DAY_SECONDS as i128) as i64
}

/// The local day, counted from the epoch.
pub fn local_day(timestamp: i64, utc_offset_seconds: i32) -> (day: i64)
    ensures
        day == day_of(timestamp as int, utc_offset_seconds as int),
{
    quotient(timestamp as i128 + utc_offset_seconds as i128, DAY_SECONDS as i128) as i64
}

/// The minute of the local day.
pub fn local_minute(timestamp: i64, utc_offset_seconds: i32) -> (minute: u16)
    ensures
        minute == seconds_of_day(timestamp as int, utc_offset_seconds as int) / 60,
        minute < 1_440,
{
    (local_seconds(timestamp, utc_offset_seconds) / 60) as u16
}

/// The clock time of a moment.
pub open spec fn local_clock(timestamp: int, utc_offset_seconds: int) -> Seq<char> {
    minute_clock((seconds_of_day(timestamp, utc_offset_seconds) / 60) as nat)
}

/// Spells the clock time of a moment.
pub fn local_time(timestamp: i64, utc_offset_seconds: i32) -> (text: String)
    ensures
        text@ == local_clock(timestamp as int, utc_offset_seconds as int),
{
    let seconds: i64 = local_seconds(timestamp, utc_offset_seconds);
    format_clock_time((seconds / 3_600) as u16, ((seconds % 3_600) / 60) as u16)
}

/// Whether a day is one that a time in sixty-four bits can fall on, or near one.
pub open spec fn day_in_range(day: int) -> bool {
    i64::MIN - 100 <= day <= i64::MAX + 100
}

/// The day of the week, Sunday first.
pub open spec fn weekday(day: int) -> int {
    (day + 4) % 7
}

/// The day of the week, Sunday first. The epoch was a Thursday.
pub fn weekday_index(day: i128) -> (index: usize)
    requires
        day_in_range(day as int),
    ensures
        index == weekday(day as int),
        index < 7,
{
    remainder(day + 4, 7) as usize
}

} // verus!
