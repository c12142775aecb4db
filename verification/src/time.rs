//! Times as the API writes them: RFC 3339 text in the offset a time was
//! recorded with. `jiff` does the calendar work; which instant and offset
//! are written, and where they come from, is decided here.
use vstd::prelude::*;

use crate::repo::meta::opt_view;
use crate::repo::sort::{parse_instant, timestamp_instant};
use crate::text::lacks;

verus! {

/// How every time in a response is written: RFC 3339 with the offset.
pub const RFC3339_FORMAT: &'static str = "%Y-%m-%dT%H:%M:%S%:z";

/// The space-separated form `git for-each-ref` writes
/// (`2026-07-24 13:06:00 +0900`).
pub const GIT_DATE_FORMAT: &'static str = "%Y-%m-%d %H:%M:%S %z";

/// Nanoseconds in a second.
pub const NANOS_PER_SECOND: i128 = 1_000_000_000;

/// The text `jiff::fmt::strtime::format(format, ..)` writes for the instant
/// `instant_ns` (nanoseconds since the epoch) at the fixed UTC offset
/// `offset_seconds`; none where the instant or the offset is out of
/// `jiff`'s range or the format cannot be written.
pub uninterp spec fn zoned_text_of(format: Seq<char>, instant_ns: i128, offset_seconds: i32) -> Option<Seq<char>>;

/// The instant and UTC offset (in seconds) that
/// `jiff::fmt::strtime::parse(format, text)` and `to_zoned` read from
/// `text`; none where it does not parse.
pub uninterp spec fn strtime_zoned_of(format: Seq<char>, text: Seq<char>) -> Option<(i128, i32)>;

/// Whether `jiff` holds the instant `instant_ns` at the fixed offset
/// `offset_seconds`: the instant, when both are in its range.
pub uninterp spec fn fixed_instant_of(instant_ns: i128, offset_seconds: i32) -> Option<i128>;

/// Calls `jiff::Timestamp::from_nanosecond`, `tz::Offset::from_seconds`,
/// `Timestamp::to_zoned` with that fixed offset, and
/// `jiff::fmt::strtime::format`. The contract names the text.
#[verifier::external_body]
fn zoned_text(format: &str, instant_ns: i128, offset_seconds: i32) -> (r: Option<String>)
    ensures
        opt_view(r) == zoned_text_of(format@, instant_ns, offset_seconds),
{
    let ts = jiff::Timestamp::from_nanosecond(instant_ns).ok()?;
    let offset = jiff::tz::Offset::from_seconds(offset_seconds).ok()?;
    let zoned = ts.to_zoned(jiff::tz::TimeZone::fixed(offset));
    jiff::fmt::strtime::format(format, &zoned).ok()
}

/// Calls `jiff::fmt::strtime::parse(format, text)` and `to_zoned`, and
/// gives the instant in nanoseconds and the offset in seconds. A format
/// without `Q` has no `%Q`, the one directive that reads a time zone name
/// (and so the system's time zone database); without it the result
/// depends on the arguments alone.
#[verifier::external_body]
fn strtime_zoned(format: &str, text: &str) -> (r: Option<(i128, i32)>)
    requires
        lacks(format@, 'Q'),
    ensures
        r == strtime_zoned_of(format@, text@),
{
    let zoned = jiff::fmt::strtime::parse(format, text).ok()?.to_zoned().ok()?;
    Some((zoned.timestamp().as_nanosecond(), zoned.offset().seconds()))
}

/// Calls `jiff::Timestamp::from_nanosecond`, `tz::Offset::from_seconds`
/// and `Timestamp::to_zoned`, and reads the instant back. Attaching a time
/// zone keeps the instant, so a result is `instant_ns` itself.
#[verifier::external_body]
fn fixed_instant(instant_ns: i128, offset_seconds: i32) -> (r: Option<i128>)
    ensures
        r == fixed_instant_of(instant_ns, offset_seconds),
        r matches Some(n) ==> n == instant_ns,
{
    let ts = jiff::Timestamp::from_nanosecond(instant_ns).ok()?;
    let offset = jiff::tz::Offset::from_seconds(offset_seconds).ok()?;
    Some(ts.to_zoned(jiff::tz::TimeZone::fixed(offset)).timestamp().as_nanosecond())
}

/// A git time's offset in seconds, when it fits an `i32`.
pub open spec fn git_offset_seconds(offset_minutes: i32) -> Option<i32> {
    if i32::MIN <= offset_minutes * 60 <= i32::MAX {
        Some((offset_minutes * 60) as i32)
    } else {
        None
    }
}

/// The RFC 3339 text of a git time (seconds since the epoch, offset in
/// minutes), in its own offset.
pub open spec fn git_time_text_of(seconds: i64, offset_minutes: i32) -> Option<Seq<char>> {
    match git_offset_seconds(offset_minutes) {
        Some(off) => zoned_text_of(RFC3339_FORMAT@, (seconds * NANOS_PER_SECOND) as i128, off),
        None => None,
    }
}

/// A git time's offset in seconds.
fn offset_seconds(offset_minutes: i32) -> (r: Option<i32>)
    ensures
        r == git_offset_seconds(offset_minutes),
{
    offset_minutes.checked_mul(60)
}

/// Writes a git time (a commit's author or committer date, a tagger date)
/// as RFC 3339 in the offset it was recorded with.
pub fn git_time_text(seconds: i64, offset_minutes: i32) -> (r: Option<String>)
    ensures
        opt_view(r) == git_time_text_of(seconds, offset_minutes),
{
    match offset_seconds(offset_minutes) {
        Some(off) => zoned_text(RFC3339_FORMAT, seconds as i128 * NANOS_PER_SECOND, off),
        None => None,
    }
}

/// The instant of a git time, in nanoseconds, when `jiff` holds it with
/// its offset; `None` for a time or offset out of range.
pub fn git_time_instant(seconds: i64, offset_minutes: i32) -> (r: Option<i128>)
    ensures
        r == match git_offset_seconds(offset_minutes) {
            Some(off) => fixed_instant_of((seconds * NANOS_PER_SECOND) as i128, off),
            None => None,
        },
        r matches Some(n) ==> n == seconds * NANOS_PER_SECOND,
{
    match offset_seconds(offset_minutes) {
        Some(off) => fixed_instant(seconds as i128 * NANOS_PER_SECOND, off),
        None => None,
    }
}

/// The time an agefile's text names: RFC 3339 or the `git for-each-ref`
/// form, keeping the offset written; else any timestamp `jiff` reads
/// (fractional seconds, `Z`), taken as UTC.
pub open spec fn agefile_time_of(text: Seq<char>) -> Option<(i128, i32)> {
    match strtime_zoned_of(RFC3339_FORMAT@, text) {
        Some(z) => Some(z),
        None => match strtime_zoned_of(GIT_DATE_FORMAT@, text) {
            Some(z) => Some(z),
            None => match timestamp_instant(text) {
                Some(n) => Some((n, 0i32)),
                None => None,
            },
        },
    }
}

/// Reads the time an agefile's text names (see [`agefile_time_of`]).
pub fn agefile_time(text: &str) -> (r: Option<(i128, i32)>)
    ensures
        r == agefile_time_of(text@),
{
    proof {
        reveal_strlit("%Y-%m-%dT%H:%M:%S%:z");
        reveal_strlit("%Y-%m-%d %H:%M:%S %z");
        assert(lacks(RFC3339_FORMAT@, 'Q'));
        assert(lacks(GIT_DATE_FORMAT@, 'Q'));
    }
    match strtime_zoned(RFC3339_FORMAT, text) {
        Some(z) => Some(z),
        None => match strtime_zoned(GIT_DATE_FORMAT, text) {
            Some(z) => Some(z),
            None => match parse_instant(text) {
                Some(n) => Some((n, 0i32)),
                None => None,
            },
        },
    }
}

/// Writes an instant with an offset as RFC 3339.
pub fn rfc3339_text(instant_ns: i128, offset_seconds: i32) -> (r: Option<String>)
    ensures
        opt_view(r) == zoned_text_of(RFC3339_FORMAT@, instant_ns, offset_seconds),
{
    zoned_text(RFC3339_FORMAT, instant_ns, offset_seconds)
}

} // verus!
