//! Time stamps through `chrono`.
use vstd::prelude::*;

verus! {

/// The instant (whole seconds since the Unix epoch, and nanoseconds) that
/// `chrono::DateTime::parse_from_rfc3339` reads from a string, or `None`
/// when it rejects the string. The offset is part of the string, so the
/// result depends on the characters alone.
pub uninterp spec fn rfc3339_instant(s: Seq<char>) -> Option<(i64, u32)>;

/// Calls `chrono::DateTime::parse_from_rfc3339` and converts the result to
/// `(timestamp, subsecond nanoseconds)`; the result is `rfc3339_instant` of the input.
#[verifier::external_body]
pub(crate) fn parse_rfc3339(s: &str) -> (r: Option<(i64, u32)>)
    ensures
        r == rfc3339_instant(s@),
{
    match chrono::DateTime::parse_from_rfc3339(s) {
        Ok(t) => Some((t.timestamp(), t.timestamp_subsec_nanos())),
        Err(_) => None,
    }
}

/// The whole hours (`chrono::TimeDelta::num_hours`) from the given instant to
/// `chrono::Utc::now()`, or `None` when `chrono::DateTime::from_timestamp`
/// cannot represent the instant. The result depends on the clock, so nothing
/// is stated of it.
#[verifier::external_body]
pub(crate) fn hours_since(secs: i64, nanos: u32) -> (r: Option<i64>) {
    match chrono::DateTime::from_timestamp(secs, nanos) {
        Some(then) => Some(chrono::Utc::now().signed_duration_since(then).num_hours()),
        None => None,
    }
}

/// The current time, `chrono::Utc::now()`, as an RFC 3339 string
/// (`to_rfc3339`). Which time it is depends on the clock and is not stated;
/// what is stated is that the text is RFC 3339, which
/// `chrono::DateTime::parse_from_rfc3339` reads back.
#[verifier::external_body]
pub(crate) fn now_rfc3339() -> (r: String)
    ensures
        rfc3339_instant(r@) is Some,
{
    chrono::Utc::now().to_rfc3339()
}

} // verus!
