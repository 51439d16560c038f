//! `CURRENT_TIME`, `CURRENT_TIMESTAMP`, `UNIX_TIMESTAMP` and
//! `FROM_UNIXTIME`.
//!
//! Unix timestamps are seconds since 1970-01-01T00:00:00Z: an integer
//! when the instant has no fractional second, a decimal otherwise.
use crate::eval::expr::{arity_error, arity_error2, is_arity_error, BindError};
use crate::value::{midnight, Date, DateTime, Time, Value};
use rust_decimal::prelude::ToPrimitive;
use vstd::prelude::*;

verus! {

// ── Calls into `time` and `rust_decimal` ───────────────────────────────

/// The Unix timestamp that the `time` crate gives for a date and time of
/// day at a UTC offset (in seconds).
pub uninterp spec fn spec_unix_timestamp(
    year: int,
    month: int,
    day: int,
    hour: int,
    minute: int,
    second: int,
    offset: int,
) -> int;

/// The UTC date and time that the `time` crate gives for a Unix
/// timestamp in nanoseconds; none when the instant is out of its range.
pub uninterp spec fn spec_utc_from_unix_nanos(total: int) -> Option<(Date, Time)>;

/// The decimal `seconds + nanos / 10^9` as `rust_decimal` builds it.
pub uninterp spec fn spec_decimal_seconds(seconds: int, nanos: int) -> rust_decimal::Decimal;

/// `d` with trailing fractional zeros removed, as `rust_decimal`
/// normalises it.
pub uninterp spec fn spec_normalize(d: rust_decimal::Decimal) -> rust_decimal::Decimal;

/// `d` times 10^9 as a whole number, when `rust_decimal` can multiply
/// without overflow.
pub uninterp spec fn spec_decimal_nanos(d: rust_decimal::Decimal) -> Option<int>;

/// Calls `time::OffsetDateTime::unix_timestamp` on the given date and time
/// at the given offset. As the `time` source computes it, the result is
/// the timestamp of midnight UTC of that date plus the time of day in
/// seconds, minus the offset; nanoseconds do not count.
#[verifier::external_body]
fn unix_timestamp(d: Date, t: Time, offset: i32) -> (r: i64)
    requires
        d.valid(),
        t.valid(),
        crate::value::valid_offset(offset as int),
    ensures
        r == spec_unix_timestamp(
            d.year as int,
            d.month as int,
            d.day as int,
            t.hour as int,
            t.minute as int,
            t.second as int,
            offset as int,
        ),
        r == spec_unix_timestamp(d.year as int, d.month as int, d.day as int, 0, 0, 0, 0) + t.hour
            * 3600 + t.minute * 60 + t.second - offset,
{
    let month = time::Month::try_from(d.month).unwrap();
    let date = time::Date::from_calendar_date(d.year, month, d.day).unwrap();
    let clock = time::Time::from_hms_nano(t.hour, t.minute, t.second, t.nanosecond).unwrap();
    let off = time::UtcOffset::from_whole_seconds(offset).unwrap();
    time::PrimitiveDateTime::new(date, clock).assume_offset(off).unix_timestamp()
}

/// The first nanosecond of -9999-01-01 UTC, as a Unix timestamp in
/// nanoseconds.
pub open spec fn min_unix_nanos() -> int {
    -377_705_203_200int * 1_000_000_000
}

/// The last nanosecond of 9999-12-31 UTC, as a Unix timestamp in
/// nanoseconds.
pub open spec fn max_unix_nanos() -> int {
    253_402_300_799int * 1_000_000_000 + 999_999_999
}

/// Calls `time::OffsetDateTime::from_unix_timestamp_nanos` and reads the
/// UTC date and time of the result. As the `time` source shows, that
/// result's own timestamp in nanoseconds (its Unix timestamp times 10^9
/// plus its nanosecond) is `total`; it fails when the instant is out of
/// range. That range holds every instant from -9999-01-01T00:00:00Z to
/// the last nanosecond of 9999-12-31 (the years that `time` always
/// supports; a build with its `large-dates` feature supports more).
#[verifier::external_body]
fn utc_from_unix_nanos(total: i128) -> (r: Option<(Date, Time)>)
    ensures
        r == spec_utc_from_unix_nanos(total as int),
        min_unix_nanos() <= total <= max_unix_nanos() ==> r is Some,
        r matches Some((d, t)) ==> d.valid() && t.valid() && spec_unix_timestamp(
            d.year as int,
            d.month as int,
            d.day as int,
            t.hour as int,
            t.minute as int,
            t.second as int,
            0,
        ) * 1_000_000_000 + t.nanosecond == total,
{
    match time::OffsetDateTime::from_unix_timestamp_nanos(total) {
        Ok(dt) => Some((
            Date { year: dt.year(), month: u8::from(dt.month()), day: dt.day() },
            Time { hour: dt.hour(), minute: dt.minute(), second: dt.second(), nanosecond: dt.nanosecond() },
        )),
        Err(_) => None,
    }
}

/// Calls `rust_decimal`: `Decimal::from(seconds) + Decimal::new(nanos, 9)`.
#[verifier::external_body]
fn decimal_seconds(seconds: i64, nanos: u32) -> (r: rust_decimal::Decimal)
    requires
        nanos < 1_000_000_000,
    ensures
        r == spec_decimal_seconds(seconds as int, nanos as int),
{
    rust_decimal::Decimal::from(seconds) + rust_decimal::Decimal::new(nanos as i64, 9)
}

/// Calls `rust_decimal::Decimal::normalize`.
#[verifier::external_body]
fn normalize(d: rust_decimal::Decimal) -> (r: rust_decimal::Decimal)
    ensures
        r == spec_normalize(d),
{
    d.normalize()
}

/// Calls `rust_decimal::Decimal::checked_mul` by 10^9, then `to_i128`.
/// None when the product overflows.
#[verifier::external_body]
fn decimal_nanos(d: &rust_decimal::Decimal) -> (r: Option<i128>)
    ensures
        match r {
            Some(v) => spec_decimal_nanos(*d) == Some(v as int),
            None => spec_decimal_nanos(*d) is None,
        },
{
    d.checked_mul(rust_decimal::Decimal::from(1_000_000_000i64))?.to_i128()
}

// ── Conversions ────────────────────────────────────────────────────────

/// 1970-01-01T00:00:00Z.
pub open spec fn unix_epoch() -> DateTime {
    DateTime::TimestampWithTz(
        Date { year: 1970, month: 1, day: 1 },
        Time { hour: 0, minute: 0, second: 0, nanosecond: 0 },
        0,
    )
}

/// Whole seconds and nanoseconds as a value: an integer when there are
/// no nanoseconds, else the normalised decimal.
pub open spec fn seconds_value(seconds: int, nanos: int) -> Value {
    if nanos == 0 {
        Value::Integer(seconds as i64)
    } else {
        Value::Decimal(spec_normalize(spec_decimal_seconds(seconds, nanos)))
    }
}

/// The Unix timestamp of a date and time at an offset.
pub open spec fn unix_of(d: Date, t: Time, offset: int) -> int {
    spec_unix_timestamp(
        d.year as int,
        d.month as int,
        d.day as int,
        t.hour as int,
        t.minute as int,
        t.second as int,
        offset,
    )
}

/// The Unix timestamp of a date-time: a timestamp without offset is taken
/// as UTC, a date as its midnight UTC; a time alone has none (`MISSING`).
pub open spec fn spec_unix_value(dt: DateTime) -> Value {
    match dt {
        DateTime::TimestampWithTz(d, t, o) => seconds_value(unix_of(d, t, o as int), t.nanosecond as int),
        DateTime::Timestamp(d, t) => seconds_value(unix_of(d, t, 0), t.nanosecond as int),
        DateTime::Date(d) => Value::Integer(unix_of(d, Time { hour: 0, minute: 0, second: 0, nanosecond: 0 }, 0) as i64),
        _ => Value::Missing,
    }
}

/// The date-time at a Unix timestamp of `seconds` and `nanos`, in UTC;
/// the epoch when the instant is out of range.
pub open spec fn spec_from_unix(seconds: int, nanos: int) -> DateTime {
    match spec_utc_from_unix_nanos(seconds * 1_000_000_000 + nanos) {
        Some((d, t)) => DateTime::TimestampWithTz(d, t, 0),
        None => unix_epoch(),
    }
}

/// Seconds (and fractional seconds) since the Unix epoch of `dt`.
///
/// An integer when the instant has no fractional second, else a decimal
/// with trailing zeros removed. A timestamp without time zone is taken
/// as UTC, a date as midnight UTC. A time has no date, so `MISSING`.
pub fn datetime_to_unix_timestamp(dt: &DateTime) -> (r: Value)
    requires
        dt.valid(),
    ensures
        r == spec_unix_value(*dt),
{
    match dt {
        DateTime::TimestampWithTz(d, t, o) => {
            let seconds = unix_timestamp(*d, *t, *o);
            if t.nanosecond == 0 {
                Value::Integer(seconds)
            } else {
                Value::Decimal(normalize(decimal_seconds(seconds, t.nanosecond)))
            }
        },
        DateTime::Timestamp(d, t) => {
            let seconds = unix_timestamp(*d, *t, 0);
            if t.nanosecond == 0 {
                Value::Integer(seconds)
            } else {
                Value::Decimal(normalize(decimal_seconds(seconds, t.nanosecond)))
            }
        },
        DateTime::Date(d) => Value::Integer(unix_timestamp(*d, midnight(), 0)),
        _ => Value::Missing,
    }
}

/// The UTC date-time `seconds` and `nanos` after the Unix epoch; the
/// epoch itself when the instant is beyond what can be represented.
///
/// Converting back gives the same timestamp: for `nanos` under a second
/// and an instant within the years -9999 to 9999,
/// `datetime_to_unix_timestamp` of the result is `seconds` (an integer)
/// when `nanos` is zero, else the decimal of both.
pub fn unix_timestamp_to_datetime(seconds: i64, nanos: u32) -> (r: DateTime)
    ensures
        r == spec_from_unix(seconds as int, nanos as int),
        r.valid(),
        nanos < 1_000_000_000 && min_unix_nanos() <= seconds * 1_000_000_000 + nanos <= max_unix_nanos()
            ==> spec_unix_value(r) == seconds_value(seconds as int, nanos as int),
{
    let total = (seconds as i128) * 1_000_000_000 + (nanos as i128);
    match utc_from_unix_nanos(total) {
        Some((d, t)) => {
            proof {
                let u = unix_of(d, t, 0);
                if nanos < 1_000_000_000 {
                    assert(u * 1_000_000_000 + t.nanosecond == seconds * 1_000_000_000 + nanos);
                    assert(u == seconds) by (nonlinear_arith)
                        requires
                            u * 1_000_000_000 + t.nanosecond == seconds * 1_000_000_000 + nanos,
                            0 <= t.nanosecond < 1_000_000_000,
                            0 <= nanos < 1_000_000_000,
                    ;
                }
            }
            DateTime::TimestampWithTz(d, t, 0)
        },
        None => DateTime::TimestampWithTz(Date { year: 1970, month: 1, day: 1 }, midnight(), 0),
    }
}

// ── Functions ──────────────────────────────────────────────────────────

/// `CURRENT_TIME`: the time part of the evaluation's current instant.
#[derive(Debug, Clone, Copy, PartialEq, Eq)]
pub struct EvalFnCurrentTime;

/// `CURRENT_TIME` bound to its (no) arguments.
#[derive(Debug)]
pub struct EvalExprCurrentTime;

/// The time part of `now`, with its offset if it has one; none for a date.
pub open spec fn spec_current_time(now: DateTime) -> Value {
    match now {
        DateTime::Time(t) => Value::DateTime(Box::new(DateTime::Time(t))),
        DateTime::TimeWithTz(t, o) => Value::DateTime(Box::new(DateTime::TimeWithTz(t, o))),
        DateTime::Timestamp(d, t) => Value::DateTime(Box::new(DateTime::Time(t))),
        DateTime::TimestampWithTz(d, t, o) => Value::DateTime(Box::new(DateTime::TimeWithTz(t, o))),
        DateTime::Date(d) => Value::Missing,
    }
}

impl EvalFnCurrentTime {
    /// Bind `CURRENT_TIME`: it takes no arguments.
    pub fn bind<const STRICT: bool>(self, args: Vec<Value>) -> (r: Result<EvalExprCurrentTime, BindError>)
        ensures
            r is Ok <==> args.len() == 0,
            r matches Err(e) ==> is_arity_error(e, seq![0usize], args.len() as nat),
    {
        if args.len() != 0 {
            return Err(arity_error(0, args.len()));
        }
        Ok(EvalExprCurrentTime)
    }
}

impl EvalExprCurrentTime {
    /// The time part of `now`.
    pub fn evaluate(&self, now: &DateTime) -> (r: Value)
        ensures
            r == spec_current_time(*now),
    {
        match now {
            DateTime::Time(t) => Value::DateTime(Box::new(DateTime::Time(*t))),
            DateTime::TimeWithTz(t, o) => Value::DateTime(Box::new(DateTime::TimeWithTz(*t, *o))),
            DateTime::Timestamp(_, t) => Value::DateTime(Box::new(DateTime::Time(*t))),
            DateTime::TimestampWithTz(_, t, o) => Value::DateTime(Box::new(DateTime::TimeWithTz(*t, *o))),
            DateTime::Date(_) => Value::Missing,
        }
    }
}

/// `CURRENT_TIMESTAMP`: the evaluation's current instant.
#[derive(Debug, Clone, Copy, PartialEq, Eq)]
pub struct EvalFnCurrentTimestamp;

/// `CURRENT_TIMESTAMP` bound to its (no) arguments.
#[derive(Debug)]
pub struct EvalExprCurrentTimestamp;

impl EvalFnCurrentTimestamp {
    /// Bind `CURRENT_TIMESTAMP`: it takes no arguments.
    pub fn bind<const STRICT: bool>(self, args: Vec<Value>) -> (r: Result<EvalExprCurrentTimestamp, BindError>)
        ensures
            r is Ok <==> args.len() == 0,
            r matches Err(e) ==> is_arity_error(e, seq![0usize], args.len() as nat),
    {
        if args.len() != 0 {
            return Err(arity_error(0, args.len()));
        }
        Ok(EvalExprCurrentTimestamp)
    }
}

impl EvalExprCurrentTimestamp {
    /// `now`, unchanged.
    pub fn evaluate(&self, now: &DateTime) -> (r: Value)
        ensures
            r == Value::DateTime(Box::new(*now)),
    {
        Value::DateTime(Box::new(*now))
    }
}

/// `UNIX_TIMESTAMP()` and `UNIX_TIMESTAMP(t)`.
#[derive(Debug, Clone, Copy, PartialEq, Eq)]
pub struct EvalFnUnixTimestamp;

/// `UNIX_TIMESTAMP()`: the current instant's timestamp.
#[derive(Debug)]
pub struct EvalExprUnixTimestampNoArgs;

/// `UNIX_TIMESTAMP(t)`: the timestamp of the argument.
#[derive(Debug)]
pub struct EvalExprUnixTimestampWithArgs {
    pub arg: Value,
}

/// `UNIX_TIMESTAMP` bound to none or one argument.
#[derive(Debug)]
pub enum EvalExprUnixTimestamp {
    NoArgs(EvalExprUnixTimestampNoArgs),
    WithArgs(EvalExprUnixTimestampWithArgs),
}

impl EvalFnUnixTimestamp {
    /// Bind `UNIX_TIMESTAMP`: none or one argument.
    pub fn bind<const STRICT: bool>(self, args: Vec<Value>) -> (r: Result<EvalExprUnixTimestamp, BindError>)
        ensures
            args.len() == 0 ==> (r matches Ok(EvalExprUnixTimestamp::NoArgs(_))),
            args.len() == 1 ==> (r matches Ok(EvalExprUnixTimestamp::WithArgs(e)) && e.arg == args@[0]),
            args.len() > 1 ==> (r matches Err(e) && is_arity_error(e, seq![0usize, 1usize], args.len() as nat)),
    {
        let n = args.len();
        if n == 0 {
            Ok(EvalExprUnixTimestamp::NoArgs(EvalExprUnixTimestampNoArgs))
        } else if n == 1 {
            let mut args = args;
            let arg = args.remove(0);
            Ok(EvalExprUnixTimestamp::WithArgs(EvalExprUnixTimestampWithArgs { arg }))
        } else {
            Err(arity_error2(0, 1, n))
        }
    }
}

impl EvalExprUnixTimestampNoArgs {
    /// The Unix timestamp of `now`.
    pub fn evaluate(&self, now: &DateTime) -> (r: Value)
        requires
            now.valid(),
        ensures
            r == spec_unix_value(*now),
    {
        datetime_to_unix_timestamp(now)
    }
}

impl EvalExprUnixTimestampWithArgs {
    /// The Unix timestamp of the argument; `MISSING` unless it is a
    /// date-time.
    pub fn evaluate(&self) -> (r: Value)
        requires
            self.arg matches Value::DateTime(dt) ==> dt.valid(),
        ensures
            r == match self.arg {
                Value::DateTime(dt) => spec_unix_value(*dt),
                _ => Value::Missing,
            },
    {
        match &self.arg {
            Value::DateTime(dt) => datetime_to_unix_timestamp(dt),
            _ => Value::Missing,
        }
    }
}

/// `FROM_UNIXTIME(seconds)`.
#[derive(Debug, Clone, Copy, PartialEq, Eq)]
pub struct EvalFnFromUnixtime;

/// `FROM_UNIXTIME` bound to its argument.
#[derive(Debug)]
pub struct EvalExprFromUnixtime {
    pub arg: Value,
}

impl EvalFnFromUnixtime {
    /// Bind `FROM_UNIXTIME`: exactly one argument.
    pub fn bind<const STRICT: bool>(self, args: Vec<Value>) -> (r: Result<EvalExprFromUnixtime, BindError>)
        ensures
            args.len() == 1 ==> (r matches Ok(e) && e.arg == args@[0]),
            args.len() != 1 ==> (r matches Err(e) && is_arity_error(e, seq![1usize], args.len() as nat)),
    {
        if args.len() != 1 {
            return Err(arity_error(1, args.len()));
        }
        let mut args = args;
        let arg = args.remove(0);
        Ok(EvalExprFromUnixtime { arg })
    }
}

/// `FROM_UNIXTIME` of a value: an integer is whole seconds; a decimal is
/// split into whole seconds (rounded down) and nanoseconds; anything else
/// has no date-time (`MISSING`). None where the decimal times 10^9
/// overflows.
pub open spec fn spec_from_unixtime(arg: Value) -> Option<Value> {
    match arg {
        Value::Integer(s) => Some(Value::DateTime(Box::new(spec_from_unix(s as int, 0)))),
        Value::Decimal(d) => match spec_decimal_nanos(d) {
            Some(total) => Some(Value::DateTime(Box::new(spec_from_unix(
                (total / 1_000_000_000) as i64 as int,
                total % 1_000_000_000,
            )))),
            None => None,
        },
        _ => Some(Value::Missing),
    }
}

impl EvalExprFromUnixtime {
    /// The UTC date-time of the argument's Unix timestamp.
    ///
    /// None when the argument is a decimal so large that it cannot be
    /// taken to nanoseconds: there is no result for it.
    pub fn evaluate(&self) -> (r: Option<Value>)
        ensures
            r == spec_from_unixtime(self.arg),
    {
        match &self.arg {
            Value::Integer(s) => Some(Value::DateTime(Box::new(unix_timestamp_to_datetime(*s, 0)))),
            Value::Decimal(d) => match decimal_nanos(d) {
                Some(total) => {
                    let (seconds, nanos) = split_nanos(total);
                    Some(Value::DateTime(Box::new(unix_timestamp_to_datetime(seconds, nanos))))
                },
                None => None,
            },
            _ => Some(Value::Missing),
        }
    }
}

/// Whole seconds (rounded down, then cut to 64 bits) and the remaining
/// nanoseconds of a count of nanoseconds.
fn split_nanos(total: i128) -> (r: (i64, u32))
    ensures
        r.0 == (total / 1_000_000_000) as i64,
        r.1 == total % 1_000_000_000,
{
    let billion: i128 = 1_000_000_000;
    let mut q = total / billion;
    let mut m = total % billion;
    if m < 0 {
        q = q - 1;
        m = m + billion;
    }
    proof {
        assert(q == total / 1_000_000_000 && m == total % 1_000_000_000) by (nonlinear_arith)
            requires
                q * 1_000_000_000 + m == total,
                0 <= m < 1_000_000_000,
        ;
    }
    (q as i64, m as u32)
}

} // verus!
