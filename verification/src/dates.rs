//! Dates in text and as milliseconds since 1970-01-01 00:00:00 UTC.
use vstd::prelude::*;

verus! {

/// The format of a date with a time.
pub open spec fn time_format() -> Seq<char> {
    "%Y-%m-%d %H:%M:%S"@
}

/// The format of a date.
pub open spec fn day_format() -> Seq<char> {
    "%Y-%m-%d"@
}

/// The moment, in milliseconds, that a text gives in a format, read as UTC.
pub uninterp spec fn moment(s: Seq<char>, format: Seq<char>) -> Option<int>;

/// The start of the day, in milliseconds, that a text gives in a format, read as UTC.
pub uninterp spec fn day_start(s: Seq<char>, format: Seq<char>) -> Option<int>;

/// A moment as a text in a format, in UTC.
pub uninterp spec fn utc_text(ms: int, format: Seq<char>) -> Option<Seq<char>>;

/// Calls `NaiveDateTime::parse_from_str` of chrono and takes the result as UTC. What
/// it gives for a text and a format is named `moment`: a number of milliseconds, or
/// none where the text does not fit the format. Which texts fit is left unsaid.
#[verifier::external_body]
fn read_moment(s: &str, format: &str) -> (r: Option<i64>)
    ensures
        moment(s@, format@) == (match r {
            Some(n) => Some(n as int),
            None => None,
        }),
{
    match chrono::NaiveDateTime::parse_from_str(s, format) {
        Ok(t) => Some(t.and_utc().timestamp_millis()),
        Err(_) => None,
    }
}

/// Calls `NaiveDate::parse_from_str` of chrono and takes the start of that day as
/// UTC. What it gives for a text and a format is named `day_start`: a number of
/// milliseconds, or none where the text does not fit the format. Which texts fit is
/// left unsaid.
#[verifier::external_body]
fn read_day(s: &str, format: &str) -> (r: Option<i64>)
    ensures
        day_start(s@, format@) == (match r {
            Some(n) => Some(n as int),
            None => None,
        }),
{
    match chrono::NaiveDate::parse_from_str(s, format) {
        Ok(d) => match d.and_hms_opt(0, 0, 0) {
            Some(t) => Some(t.and_utc().timestamp_millis()),
            None => None,
        },
        Err(_) => None,
    }
}

/// Calls `DateTime::from_timestamp_millis` and `DateTime::format` of chrono. The text
/// for a moment and a format is named `utc_text`: none where the moment is out of
/// range. How the text is made is left unsaid.
#[verifier::external_body]
fn write_moment(ms: i64, format: &str) -> (r: Option<String>)
    requires
        format@ == time_format() || format@ == day_format(),
    ensures
        utc_text(ms as int, format@) == (match r {
            Some(s) => Some(s@),
            None => None,
        }),
{
    match chrono::DateTime::from_timestamp_millis(ms) {
        Some(t) => Some(t.format(format).to_string()),
        None => None,
    }
}

/// The moment that a date with a time gives; zero where it is none.
pub fn parse_date_to_ms(s: &str) -> (r: i64)
    ensures
        r == (match moment(s@, time_format()) {
            Some(n) => n,
            None => 0,
        }),
{
    match read_moment(s, "%Y-%m-%d %H:%M:%S") {
        Some(n) => n,
        None => 0,
    }
}

/// The start of the day that a date gives.
pub fn date_to_ms(s: &str) -> (r: Option<i64>)
    ensures
        day_start(s@, day_format()) == (match r {
            Some(n) => Some(n as int),
            None => None,
        }),
{
    read_day(s, "%Y-%m-%d")
}

/// A moment as a date with a time. One that is out of range counts as the first moment
/// of 1970.
pub fn fmt_utc_date(ms: i64) -> (r: String)
    ensures
        r@ == (match utc_text(ms as int, time_format()) {
            Some(s) => s,
            None => "1970-01-01 00:00:00"@,
        }),
{
    match write_moment(ms, "%Y-%m-%d %H:%M:%S") {
        Some(s) => s,
        None => "1970-01-01 00:00:00".to_owned(),
    }
}

/// A moment as a date. One that is out of range counts as the first day of 1970.
pub fn fmt_utc_day(ms: i64) -> (r: String)
    ensures
        r@ == (match utc_text(ms as int, day_format()) {
            Some(s) => s,
            None => "1970-01-01"@,
        }),
{
    match write_moment(ms, "%Y-%m-%d") {
        Some(s) => s,
        None => "1970-01-01".to_owned(),
    }
}

} // verus!
