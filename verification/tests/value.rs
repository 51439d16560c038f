use partiql_winnow_parser::value::{midnight, Date, DateTime, Time};

#[test]
fn date_validity_follows_the_calendar() {
    assert!(Date { year: 2024, month: 2, day: 29 }.is_valid());
    assert!(!Date { year: 2023, month: 2, day: 29 }.is_valid());
    assert!(Date { year: 2000, month: 2, day: 29 }.is_valid());
    assert!(!Date { year: 1900, month: 2, day: 29 }.is_valid());
    assert!(!Date { year: 2024, month: 4, day: 31 }.is_valid());
    assert!(Date { year: 2024, month: 12, day: 31 }.is_valid());
    assert!(!Date { year: 2024, month: 13, day: 1 }.is_valid());
    assert!(!Date { year: 2024, month: 1, day: 0 }.is_valid());
    assert!(!Date { year: 10000, month: 1, day: 1 }.is_valid());
    assert!(Date { year: -9999, month: 1, day: 1 }.is_valid());
}

#[test]
fn time_validity_checks_each_field() {
    assert!(midnight().is_valid());
    assert!(Time { hour: 23, minute: 59, second: 59, nanosecond: 999_999_999 }.is_valid());
    assert!(!Time { hour: 24, minute: 0, second: 0, nanosecond: 0 }.is_valid());
    assert!(!Time { hour: 0, minute: 60, second: 0, nanosecond: 0 }.is_valid());
    assert!(!Time { hour: 0, minute: 0, second: 60, nanosecond: 0 }.is_valid());
    assert!(!Time { hour: 0, minute: 0, second: 0, nanosecond: 1_000_000_000 }.is_valid());
}

#[test]
fn datetime_validity_bounds_the_offset() {
    let d = Date { year: 2024, month: 1, day: 15 };
    let t = Time { hour: 10, minute: 30, second: 0, nanosecond: 0 };
    assert!(DateTime::TimestampWithTz(d, t, 93599).is_valid());
    assert!(!DateTime::TimestampWithTz(d, t, 93600).is_valid());
    assert!(DateTime::TimeWithTz(t, -93599).is_valid());
    assert!(!DateTime::TimeWithTz(t, -93600).is_valid());
    assert!(DateTime::Timestamp(d, t).is_valid());
    assert!(!DateTime::Date(Date { year: 2024, month: 2, day: 30 }).is_valid());
}
