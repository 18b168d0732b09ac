//! Timestamps: the current time in UTC as RFC 3339 text.
//!
//! The clock and the calendar are `chrono`'s. A point in time is held here
//! as seconds and nanoseconds since the Unix epoch.

use vstd::prelude::*;

verus! {

/// How exactly a timestamp states the seconds.
#[derive(Debug, Clone, Copy, PartialEq, Eq)]
pub enum SecondsFormat {
    /// Whole seconds.
    Secs,
    /// Seconds with nine decimals.
    Nanos,
}

/// A point in time: seconds since 1970-01-01T00:00:00Z, and nanoseconds
/// since the last full second.
#[derive(Debug, Clone, Copy, PartialEq, Eq)]
pub struct UnixTime {
    pub secs: i64,
    pub nanos: u32,
}

/// The RFC 3339 text, with `Z` for the offset, that `chrono` writes for a
/// point in time; `None` for a point that `chrono` cannot represent.
pub uninterp spec fn rfc3339_utc(secs: i64, nanos: u32, format: SecondsFormat) -> Option<
    Seq<char>,
>;

/// Calls `chrono::Utc::now` and reads the time off with `DateTime::timestamp`
/// and `DateTime::timestamp_subsec_nanos`. Nothing is claimed of which time
/// comes back, only that it is one that `chrono` can represent and so can
/// write. `Utc::now` does not return on a machine whose clock stands before
/// 1970.
#[verifier::external_body]
fn utc_now() -> (now: UnixTime)
    ensures
        rfc3339_utc(now.secs, now.nanos, SecondsFormat::Secs) is Some,
        rfc3339_utc(now.secs, now.nanos, SecondsFormat::Nanos) is Some,
{
    let now = chrono::Utc::now();
    UnixTime { secs: now.timestamp(), nanos: now.timestamp_subsec_nanos() }
}

/// Calls `chrono::DateTime::from_timestamp` and, where that yields a time,
/// `DateTime::to_rfc3339_opts` with `Z` for the offset. The contract claims
/// only that the outcome is a function of the arguments.
#[verifier::external_body]
fn write_rfc3339(secs: i64, nanos: u32, format: SecondsFormat) -> (text: Option<String>)
    ensures
        match text {
            Some(t) => rfc3339_utc(secs, nanos, format) == Some(t@),
            None => rfc3339_utc(secs, nanos, format) is None,
        },
{
    let seconds_format = match format {
        SecondsFormat::Secs => chrono::SecondsFormat::Secs,
        SecondsFormat::Nanos => chrono::SecondsFormat::Nanos,
    };
    match chrono::DateTime::from_timestamp(secs, nanos) {
        Some(time) => Some(time.to_rfc3339_opts(seconds_format, true)),
        None => None,
    }
}

/// Writes a point in time as RFC 3339 text in UTC, or nothing where the
/// point lies outside the calendar.
pub fn timestamp_text(time: UnixTime, format: SecondsFormat) -> (text: Option<String>)
    ensures
        match text {
            Some(t) => rfc3339_utc(time.secs, time.nanos, format) == Some(t@),
            None => rfc3339_utc(time.secs, time.nanos, format) is None,
        },
{
    write_rfc3339(time.secs, time.nanos, format)
}

/// Whether `text` is what some point in time is written as in `format`.
pub open spec fn is_timestamp(text: Seq<char>, format: SecondsFormat) -> bool {
    exists|time: UnixTime| rfc3339_utc(time.secs, time.nanos, format) == Some(text)
}

/// The current time in UTC, to the second.
pub fn gen_timestamp_secs() -> (text: String)
    ensures
        is_timestamp(text@, SecondsFormat::Secs),
{
    let now = utc_now();
    let text = timestamp_text(now, SecondsFormat::Secs).unwrap();
    assert(rfc3339_utc(now.secs, now.nanos, SecondsFormat::Secs) == Some(text@));
    text
}

/// The current time in UTC, to the nanosecond.
pub fn gen_timestamp_nanos() -> (text: String)
    ensures
        is_timestamp(text@, SecondsFormat::Nanos),
{
    let now = utc_now();
    let text = timestamp_text(now, SecondsFormat::Nanos).unwrap();
    assert(rfc3339_utc(now.secs, now.nanos, SecondsFormat::Nanos) == Some(text@));
    text
}

} // verus!
