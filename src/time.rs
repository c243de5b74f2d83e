//! Commit timestamps and the relative phrases shown next to them.

use vstd::prelude::*;

verus! {

/// The seconds since the Unix epoch of an RFC 3339 date as chrono reads it
/// (which also takes a space or a lower-case `t` between date and time), or
/// `None` where the text is not one.
pub uninterp spec fn rfc3339_seconds(s: Seq<char>) -> Option<i64>;

/// The English phrase for a signed span of seconds ("now", "in an hour",
/// "4 years ago").
pub uninterp spec fn humanized(seconds: i64) -> Seq<char>;

/// The widest span, in seconds, that a duration can hold.
pub const MAX_SPAN_SECS: i64 = 9_223_372_036_854_775;

/// Relies on chrono's `DateTime::parse_from_rfc3339` and `DateTime::timestamp`:
/// the text is parsed as an RFC 3339 date and read as Unix seconds.
#[verifier::external_body]
pub(crate) fn parse_rfc3339(s: &str) -> (r: Option<i64>)
    ensures
        r == rfc3339_seconds(s@),
{
    match chrono::DateTime::parse_from_rfc3339(s) {
        Ok(d) => Some(d.timestamp()),
        Err(_) => None,
    }
}

/// Relies on chrono_humanize's `Display` of a `HumanTime` made from chrono's
/// `Duration::seconds`, which panics beyond `MAX_SPAN_SECS`; the phrase depends
/// on the span alone.
#[verifier::external_body]
fn humanize_span(seconds: i64) -> (r: String)
    requires
        -MAX_SPAN_SECS <= seconds <= MAX_SPAN_SECS,
    ensures
        r@ == humanized(seconds),
{
    chrono_humanize::HumanTime::from(chrono::Duration::seconds(seconds)).to_string()
}

/// Whether a span from `now` to `at` can be put in words.
pub open spec fn span_in_range(at: i64, now: i64) -> bool {
    -MAX_SPAN_SECS <= at - now <= MAX_SPAN_SECS
}

/// The phrase for the moment `at` seen from `now` (both Unix seconds), or
/// `None` where the two lie too far apart to be put in words.
pub fn relative_time(at: i64, now: i64) -> (r: Option<String>)
    ensures
        span_in_range(at, now) ==> (r matches Some(s) && s@ == humanized((at - now) as i64)),
        !span_in_range(at, now) ==> r is None,
{
    let span: i128 = at as i128 - now as i128;
    if span < -(MAX_SPAN_SECS as i128) || span > MAX_SPAN_SECS as i128 {
        None
    } else {
        Some(humanize_span(span as i64))
    }
}

} // verus!
