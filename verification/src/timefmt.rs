//! Times as text, by the `time` crate: moments are seconds since the epoch,
//! shown and read in UTC.

use vstd::prelude::*;

verus! {

/// The format in which times are shown.
pub open spec fn time_format() -> Seq<char> {
    "[year]/[month]/[day] [hour]:[minute]:[second]"@
}

/// What the `time` crate makes of the moment `unix_seconds` (seconds since
/// the epoch, UTC) under the format description `format`; `None` where the
/// description is not one, the moment is out of the crate's range, or the
/// formatting fails.
pub uninterp spec fn formatted_time(unix_seconds: int, format: Seq<char>) -> Option<Seq<char>>;

/// The moment `unix_seconds` as listings and log lines show it: formatted,
/// or empty where it cannot be formatted.
pub open spec fn shown_time(unix_seconds: int) -> Seq<char> {
    match formatted_time(unix_seconds, time_format()) {
        Some(t) => t,
        None => Seq::empty(),
    }
}

/// Calls `time::format_description::parse_borrowed`,
/// `time::OffsetDateTime::from_unix_timestamp` and
/// `time::OffsetDateTime::format`. The moment is taken in UTC, so the text
/// depends on the two arguments alone.
#[verifier::external_body]
fn format_time(unix_seconds: i64, format: &str) -> (text: Option<String>)
    ensures
        text is Some <==> formatted_time(unix_seconds as int, format@) is Some,
        text matches Some(t) ==> formatted_time(unix_seconds as int, format@) == Some(t@),
{
    let items = time::format_description::parse_borrowed::<1>(format).ok()?;
    let moment = time::OffsetDateTime::from_unix_timestamp(unix_seconds).ok()?;
    moment.format(&items).ok()
}

/// What the `time` crate reads out of the RFC 3339 text `text`: the moment it
/// names, in seconds since the epoch, or `None` where it names none.
pub uninterp spec fn rfc3339_seconds(text: Seq<char>) -> Option<int>;

/// Calls `time::OffsetDateTime::parse` with the RFC 3339 format, and
/// `time::OffsetDateTime::unix_timestamp` on what it read.
#[verifier::external_body]
fn parse_rfc3339(text: &str) -> (seconds: Option<i64>)
    ensures
        seconds is Some <==> rfc3339_seconds(text@) is Some,
        seconds matches Some(s) ==> rfc3339_seconds(text@) == Some(s as int),
{
    let format = time::format_description::well_known::Rfc3339;
    match time::OffsetDateTime::parse(text, &format) {
        Ok(moment) => Some(moment.unix_timestamp()),
        Err(_) => None,
    }
}

/// The moment that `text` names, and the epoch where it names none.
pub open spec fn seconds_or_epoch(text: Seq<char>) -> int {
    match rfc3339_seconds(text) {
        Some(s) => s,
        None => 0,
    }
}

/// Reads an RFC 3339 time; text that is none counts as the epoch.
pub fn read_time(text: &str) -> (seconds: i64)
    ensures
        seconds as int == seconds_or_epoch(text@),
{
    match parse_rfc3339(text) {
        Some(s) => s,
        None => 0,
    }
}

/// The moment `unix_seconds` as it is shown.
pub fn show_time(unix_seconds: i64) -> (text: String)
    ensures
        text@ == shown_time(unix_seconds as int),
{
    match format_time(unix_seconds, "[year]/[month]/[day] [hour]:[minute]:[second]") {
        Some(t) => t,
        None => String::new(),
    }
}

} // verus!
