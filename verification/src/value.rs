//! Values that the date-time functions read and produce.
//!
//! A date-time is held as its calendar and clock fields: a date in the
//! proleptic Gregorian calendar, a time of day with nanoseconds, and,
//! where the value has a time zone, its offset from UTC in whole
//! seconds (positive east of UTC).
use vstd::prelude::*;

verus! {

/// A calendar date.
#[derive(Clone, Copy, PartialEq, Eq, Debug)]
pub struct Date {
    pub year: i32,
    /// 1 to 12.
    pub month: u8,
    /// 1 to the number of days in the month.
    pub day: u8,
}

/// A time of day.
#[derive(Clone, Copy, PartialEq, Eq, Debug)]
pub struct Time {
    pub hour: u8,
    pub minute: u8,
    pub second: u8,
    pub nanosecond: u32,
}

/// A date, a time, or both, with or without a UTC offset in seconds.
#[derive(Clone, Copy, Debug)]
pub enum DateTime {
    Date(Date),
    Time(Time),
    TimeWithTz(Time, i32),
    Timestamp(Date, Time),
    TimestampWithTz(Date, Time, i32),
}

/// A value as the date-time functions see it.
#[derive(Debug)]
pub enum Value {
    Null,
    Missing,
    Boolean(bool),
    Integer(i64),
    Decimal(rust_decimal::Decimal),
    String(String),
    DateTime(Box<DateTime>),
}

pub open spec fn is_leap_year(y: int) -> bool {
    (y % 4 == 0 && y % 100 != 0) || y % 400 == 0
}

pub open spec fn days_in_month(y: int, m: int) -> int {
    if m == 2 {
        if is_leap_year(y) {
            29
        } else {
            28
        }
    } else if m == 4 || m == 6 || m == 9 || m == 11 {
        30
    } else {
        31
    }
}

/// Largest UTC offset, in seconds, in either direction: 25:59:59.
pub open spec fn max_offset() -> int {
    93599
}

pub open spec fn valid_offset(o: int) -> bool {
    -max_offset() <= o <= max_offset()
}

impl Date {
    /// A real calendar date in the years -9999 to 9999.
    pub open spec fn valid(self) -> bool {
        &&& -9999 <= self.year <= 9999
        &&& 1 <= self.month <= 12
        &&& 1 <= self.day <= days_in_month(self.year as int, self.month as int)
    }
}

impl Time {
    pub open spec fn valid(self) -> bool {
        &&& self.hour < 24
        &&& self.minute < 60
        &&& self.second < 60
        &&& self.nanosecond < 1_000_000_000
    }
}

impl DateTime {
    /// Every field is in range.
    pub open spec fn valid(self) -> bool {
        match self {
            DateTime::Date(d) => d.valid(),
            DateTime::Time(t) => t.valid(),
            DateTime::TimeWithTz(t, o) => t.valid() && valid_offset(o as int),
            DateTime::Timestamp(d, t) => d.valid() && t.valid(),
            DateTime::TimestampWithTz(d, t, o) => d.valid() && t.valid() && valid_offset(o as int),
        }
    }
}

fn days_in_month_exec(y: i32, m: u8) -> (r: u8)
    requires
        1 <= m <= 12,
    ensures
        r == days_in_month(y as int, m as int),
{
    if m == 2 {
        if (y % 4 == 0 && y % 100 != 0) || y % 400 == 0 {
            29
        } else {
            28
        }
    } else if m == 4 || m == 6 || m == 9 || m == 11 {
        30
    } else {
        31
    }
}

impl Date {
    /// Whether this is a real calendar date in the years -9999 to 9999.
    pub fn is_valid(&self) -> (r: bool)
        ensures
            r == self.valid(),
    {
        -9999 <= self.year && self.year <= 9999 && 1 <= self.month && self.month <= 12
            && 1 <= self.day && self.day <= days_in_month_exec(self.year, self.month)
    }
}

impl Time {
    /// Whether every clock field is in range.
    pub fn is_valid(&self) -> (r: bool)
        ensures
            r == self.valid(),
    {
        self.hour < 24 && self.minute < 60 && self.second < 60 && self.nanosecond < 1_000_000_000
    }
}

fn is_valid_offset(o: i32) -> (r: bool)
    ensures
        r == valid_offset(o as int),
{
    -93599 <= o && o <= 93599
}

impl DateTime {
    /// Whether every field is in range.
    pub fn is_valid(&self) -> (r: bool)
        ensures
            r == self.valid(),
    {
        match self {
            DateTime::Date(d) => d.is_valid(),
            DateTime::Time(t) => t.is_valid(),
            DateTime::TimeWithTz(t, o) => t.is_valid() && is_valid_offset(*o),
            DateTime::Timestamp(d, t) => d.is_valid() && t.is_valid(),
            DateTime::TimestampWithTz(d, t, o) => d.is_valid() && t.is_valid() && is_valid_offset(*o),
        }
    }
}

/// Midnight.
pub fn midnight() -> (r: Time)
    ensures
        r == (Time { hour: 0, minute: 0, second: 0, nanosecond: 0 }),
        r.valid(),
{
    Time { hour: 0, minute: 0, second: 0, nanosecond: 0 }
}

} // verus!
