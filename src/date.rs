//! Dates of content items, and their parsing from front matter text.
use vstd::prelude::*;
use chrono::{Datelike, Timelike};
use crate::frontmatter::{FieldValue, field_of, lookup};

verus! {

/// A calendar date and a time of day, to the second.
#[derive(Clone, Copy, Debug, PartialEq, Eq, Structural, PartialOrd, Ord, Hash)]
pub struct DateTime {
    pub year: i32,
    pub month: u32,
    pub day: u32,
    pub hour: u32,
    pub minute: u32,
    pub second: u32,
}

/// The fields are in their ranges: a month of the year, a day of the
/// month's at most 31, an hour, a minute and a second of the clock.
pub open spec fn is_valid(d: DateTime) -> bool {
    1 <= d.month <= 12 && 1 <= d.day <= 31 && d.hour < 24 && d.minute < 60 && d.second < 60
}

/// `a` comes strictly before `b` in time.
pub open spec fn before(a: DateTime, b: DateTime) -> bool {
    if a.year != b.year {
        a.year < b.year
    } else if a.month != b.month {
        a.month < b.month
    } else if a.day != b.day {
        a.day < b.day
    } else if a.hour != b.hour {
        a.hour < b.hour
    } else if a.minute != b.minute {
        a.minute < b.minute
    } else {
        a.second < b.second
    }
}

/// What chrono's date-time parser reads from `s` under format `fmt`, as
/// year, month, day, hour, minute and second.
pub uninterp spec fn datetime_parse(s: Seq<char>, fmt: Seq<char>) -> Option<
    (i32, u32, u32, u32, u32, u32),
>;

/// What chrono's date parser reads from `s` under format `fmt`, as year,
/// month and day.
pub uninterp spec fn date_parse(s: Seq<char>, fmt: Seq<char>) -> Option<(i32, u32, u32)>;

/// Relies on `chrono::NaiveDateTime::parse_from_str`: the date and time that
/// `s` gives under `fmt`, if it matches, read through `Datelike` and
/// `Timelike` (month 1 to 12, day 1 to 31, hour 0 to 23, minute and second
/// 0 to 59).
#[verifier::external_body]
fn chrono_datetime(s: &str, fmt: &str) -> (r: Option<(i32, u32, u32, u32, u32, u32)>)
    ensures
        r == datetime_parse(s@, fmt@),
        r is Some ==> is_valid(from_parts(r->0)),
{
    chrono::NaiveDateTime::parse_from_str(s, fmt).ok().map(
        |d| (d.year(), d.month(), d.day(), d.hour(), d.minute(), d.second()),
    )
}

/// Relies on `chrono::NaiveDate::parse_from_str`: the date that `s` gives
/// under `fmt`, if it matches, read through `Datelike` (month 1 to 12, day
/// 1 to 31).
#[verifier::external_body]
fn chrono_date(s: &str, fmt: &str) -> (r: Option<(i32, u32, u32)>)
    ensures
        r == date_parse(s@, fmt@),
        r is Some ==> 1 <= (r->0).1 <= 12 && 1 <= (r->0).2 <= 31,
{
    chrono::NaiveDate::parse_from_str(s, fmt).ok().map(|d| (d.year(), d.month(), d.day()))
}

/// The date of a (year, month, day, hour, minute, second) tuple.
pub open spec fn from_parts(t: (i32, u32, u32, u32, u32, u32)) -> DateTime {
    DateTime { year: t.0, month: t.1, day: t.2, hour: t.3, minute: t.4, second: t.5 }
}

/// The date that `s` gives under the first of `%Y-%m-%d %H:%M:%S`,
/// `%Y-%m-%d %H:%M` and `%Y-%m-%d` that it matches; a bare date stands for
/// its midnight.
pub open spec fn parsed_date(s: Seq<char>) -> Option<DateTime> {
    match datetime_parse(s, "%Y-%m-%d %H:%M:%S"@) {
        Some(t) => Some(from_parts(t)),
        None => match datetime_parse(s, "%Y-%m-%d %H:%M"@) {
            Some(t) => Some(from_parts(t)),
            None => match date_parse(s, "%Y-%m-%d"@) {
                Some(d) => Some(from_parts((d.0, d.1, d.2, 0, 0, 0))),
                None => None,
            },
        },
    }
}

/// Parses a date written in one of the three accepted formats.
pub fn parse_date(s: &str) -> (r: Option<DateTime>)
    ensures
        r == parsed_date(s@),
        r is Some ==> is_valid(r->0),
{
    match chrono_datetime(s, "%Y-%m-%d %H:%M:%S") {
        Some(t) => Some(DateTime { year: t.0, month: t.1, day: t.2, hour: t.3, minute: t.4, second: t.5 }),
        None => match chrono_datetime(s, "%Y-%m-%d %H:%M") {
            Some(t) => Some(DateTime { year: t.0, month: t.1, day: t.2, hour: t.3, minute: t.4, second: t.5 }),
            None => match chrono_date(s, "%Y-%m-%d") {
                Some(d) => Some(DateTime { year: d.0, month: d.1, day: d.2, hour: 0, minute: 0, second: 0 }),
                None => None,
            },
        },
    }
}

/// A front matter `date` value that is not a date in an accepted format.
#[derive(Debug)]
pub struct InvalidDate {
    pub value: FieldValue,
}

/// The text of a front matter value that a date is read from: a string's
/// own text, or the textual representation of a value that is neither a
/// string nor an array.
pub open spec fn date_text(v: FieldValue) -> Option<Seq<char>> {
    match v {
        FieldValue::Text(t) => Some(t@),
        FieldValue::Other(t) => Some(t@),
        FieldValue::List(_) => None,
    }
}

/// The date that a front matter `date` value resolves to: none when the
/// value is absent, the parsed date when its text is in an accepted format,
/// and an error for any other present value.
pub open spec fn date_ok(field: Option<FieldValue>, r: Result<Option<DateTime>, InvalidDate>) -> bool {
    match field {
        None => r == Ok::<Option<DateTime>, InvalidDate>(None),
        Some(v) => match r {
            Ok(d) => date_text(v) is Some && parsed_date(date_text(v)->0) is Some && d == parsed_date(
                date_text(v)->0,
            ),
            Err(e) => e.value == v && !(date_text(v) is Some && parsed_date(date_text(v)->0) is Some),
        },
    }
}

/// Resolves a front matter `date` value.
pub fn resolve_date(field: Option<FieldValue>) -> (r: Result<Option<DateTime>, InvalidDate>)
    ensures
        date_ok(field, r),
{
    match field {
        None => Ok(None),
        Some(FieldValue::Text(t)) => match parse_date(t.as_str()) {
            Some(d) => Ok(Some(d)),
            None => Err(InvalidDate { value: FieldValue::Text(t) }),
        },
        Some(FieldValue::Other(t)) => match parse_date(t.as_str()) {
            Some(d) => Ok(Some(d)),
            None => Err(InvalidDate { value: FieldValue::Other(t) }),
        },
        Some(v) => Err(InvalidDate { value: v }),
    }
}

/// Resolves the date of a content item.
pub fn get_date(fm: &frontmatter_gen::Frontmatter) -> (r: Result<Option<DateTime>, InvalidDate>)
    ensures
        date_ok(field_of(*fm, "date"@), r),
{
    resolve_date(lookup(fm, "date"))
}

/// Whether `a` comes strictly before `b`.
pub fn is_before(a: &DateTime, b: &DateTime) -> (r: bool)
    ensures
        r == before(*a, *b),
{
    if a.year != b.year {
        a.year < b.year
    } else if a.month != b.month {
        a.month < b.month
    } else if a.day != b.day {
        a.day < b.day
    } else if a.hour != b.hour {
        a.hour < b.hour
    } else if a.minute != b.minute {
        a.minute < b.minute
    } else {
        a.second < b.second
    }
}

} // verus!
