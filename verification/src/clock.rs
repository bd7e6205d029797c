//! The wall clock and calendar texts, read through `chrono`.

use vstd::prelude::*;
use crate::text::seq_ends_with;

verus! {

/// The shape of every `%Y-%m-%d` text chrono writes: not empty, and made
/// of digits, signs and dashes only, so without `:` or `T`.
pub open spec fn date_text_shape(s: Seq<char>) -> bool {
    s.len() > 0 && !s.contains(':') && !s.contains('T')
}

/// The shape of every `%Y-%m-%dT%H:%M:00` text chrono writes: it holds the
/// `T` and ends in `:00`.
pub open spec fn minute_text_shape(s: Seq<char>) -> bool {
    s.contains('T') && seq_ends_with(s, ":00"@)
}

/// An instant as whole seconds since the Unix epoch and the nanoseconds
/// past that second.
pub struct Instant {
    pub secs: i64,
    pub nanos: u32,
}

/// `a` is strictly earlier than `b`.
pub open spec fn instant_before(a: Instant, b: Instant) -> bool {
    a.secs < b.secs || (a.secs == b.secs && a.nanos < b.nanos)
}

/// `a` is strictly earlier than `b`.
pub fn is_before(a: &Instant, b: &Instant) -> (r: bool)
    ensures
        r == instant_before(*a, *b),
{
    a.secs < b.secs || (a.secs == b.secs && a.nanos < b.nanos)
}

/// Today's local date as `YYYY-MM-DD`, from `chrono::Local::now()`.
/// Which date depends on the clock and the machine's time zone; what is
/// stated is the shape that the format gives every date.
#[verifier::external_body]
pub(crate) fn local_today() -> (r: String)
    ensures
        date_text_shape(r@),
{
    chrono::Local::now().format("%Y-%m-%d").to_string()
}

/// The current instant, from `chrono::Local::now()`. It depends on the clock;
/// what is stated is the range that chrono's dates can take (years within
/// ±262143) and that the sub-second part is below two seconds (chrono keeps
/// leap seconds there).
#[verifier::external_body]
pub(crate) fn local_now() -> (r: Instant)
    ensures
        -10_000_000_000_000 <= r.secs <= 10_000_000_000_000,
        r.nanos < 2_000_000_000,
{
    let now = chrono::Local::now();
    Instant { secs: now.timestamp(), nanos: now.timestamp_subsec_nanos() }
}

/// The local minute of a Unix timestamp as `YYYY-MM-DDTHH:MM:00`, through
/// `chrono::DateTime::from_timestamp` and the machine's time zone. Which
/// minute depends on the time zone; what is stated is the shape that the
/// format gives every minute.
#[verifier::external_body]
pub(crate) fn local_minute_text(ts: i64) -> (r: String)
    ensures
        minute_text_shape(r@),
{
    chrono::DateTime::from_timestamp(ts, 0).unwrap_or_default().with_timezone(
        &chrono::Local,
    ).format("%Y-%m-%dT%H:%M:00").to_string()
}

/// The local date of a Unix timestamp as `YYYY-MM-DD`, through
/// `chrono::DateTime::from_timestamp` and the machine's time zone. Which
/// date depends on the time zone; what is stated is the shape that the
/// format gives every date.
#[verifier::external_body]
pub(crate) fn local_date_text(ts: i64) -> (r: String)
    ensures
        date_text_shape(r@),
{
    chrono::DateTime::from_timestamp(ts, 0).unwrap_or_default().with_timezone(
        &chrono::Local,
    ).format("%Y-%m-%d").to_string()
}

/// The Monday of the current local week as `YYYY-MM-DD`, from
/// `chrono::Local::now()`, `NaiveDate::week(Weekday::Mon)` and
/// `NaiveWeek::first_day`. Which date depends on the clock and the time
/// zone; what is stated is the shape that the format gives every date.
#[verifier::external_body]
pub(crate) fn local_week_start() -> (r: String)
    ensures
        date_text_shape(r@),
{
    chrono::Local::now().date_naive().week(chrono::Weekday::Mon).first_day().format("%Y-%m-%d").to_string()
}

/// The instant (seconds since the epoch, nanoseconds past the second) that
/// `chrono::DateTime::parse_from_rfc3339` reads from a text, or `None` where
/// it refuses the text.
pub uninterp spec fn rfc3339_instant(s: Seq<char>) -> Option<(i64, u32)>;

/// `chrono::DateTime::parse_from_rfc3339`, taken to its UTC instant
/// (`timestamp`, `timestamp_subsec_nanos`); the result depends on the text
/// alone.
#[verifier::external_body]
pub(crate) fn parse_rfc3339(s: &str) -> (r: Option<(i64, u32)>)
    ensures
        r == rfc3339_instant(s@),
{
    match chrono::DateTime::parse_from_rfc3339(s) {
        Ok(t) => Some((t.timestamp(), t.timestamp_subsec_nanos())),
        Err(_) => None,
    }
}

} // verus!
