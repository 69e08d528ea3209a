//! Instants on the UTC time line, and the calendar arithmetic that `chrono`
//! does for them.

use vstd::prelude::*;

verus! {

/// An instant in UTC: whole seconds since 1970-01-01T00:00:00Z, and the
/// nanoseconds past the start of that second. The nanoseconds are below one
/// thousand million, but for an instant within a leap second, which `chrono`
/// counts as nanoseconds from one thousand million up in the second before
/// it. Two instants are ordered by their seconds, then by their nanoseconds.
#[derive(Clone, Copy, Debug, PartialEq, Eq, Structural)]
pub struct Timestamp {
    pub secs: i64,
    pub nanos: u32,
}

/// The second in which the earliest instant that `chrono` represents lies
/// (the start of the year -262143).
pub const MIN_EPOCH_SECONDS: i64 = -8_334_601_228_800;

/// The second in which the latest instant that `chrono` represents lies
/// (the end of the year 262142).
pub const MAX_EPOCH_SECONDS: i64 = 8_210_266_876_799;

/// A number above this one is read as milliseconds since the epoch, any
/// other as seconds.
pub const MILLISECOND_THRESHOLD: i64 = 1_000_000_000_000;

impl Timestamp {
    /// `self` is strictly earlier than `other`.
    pub open spec fn precedes(self, other: Timestamp) -> bool {
        self.secs < other.secs || (self.secs == other.secs && self.nanos < other.nanos)
    }

    /// Whether `self` is strictly earlier than `other`.
    pub fn is_before(&self, other: &Timestamp) -> (earlier: bool)
        ensures
            earlier == self.precedes(*other),
    {
        self.secs < other.secs || (self.secs == other.secs && self.nanos < other.nanos)
    }

    /// Whether `self` is strictly later than `other`.
    pub fn is_after(&self, other: &Timestamp) -> (later: bool)
        ensures
            later == other.precedes(*self),
    {
        other.is_before(self)
    }
}

/// The instant a whole number of seconds after the epoch, where `chrono`
/// represents it.
pub open spec fn instant_of_seconds(secs: int) -> Option<Timestamp> {
    if MIN_EPOCH_SECONDS <= secs <= MAX_EPOCH_SECONDS {
        Some(Timestamp { secs: secs as i64, nanos: 0 })
    } else {
        None
    }
}

/// The instant a whole number of milliseconds after the epoch, where
/// `chrono` represents it. Division rounds toward minus infinity.
pub open spec fn instant_of_millis(millis: int) -> Option<Timestamp> {
    if MIN_EPOCH_SECONDS <= millis / 1000 <= MAX_EPOCH_SECONDS {
        Some(
            Timestamp {
                secs: (millis / 1000) as i64,
                nanos: ((millis % 1000) * 1_000_000) as u32,
            },
        )
    } else {
        None
    }
}

/// What `chrono::DateTime::parse_from_str` makes of a text under a format:
/// the instant it denotes, or nothing where it reports an error.
pub uninterp spec fn parse_with_format(text: Seq<char>, format: Seq<char>) -> Option<Timestamp>;

/// What `chrono::DateTime::parse_from_rfc3339` makes of a text: the instant
/// it denotes, or nothing where it reports an error.
pub uninterp spec fn parse_rfc3339(text: Seq<char>) -> Option<Timestamp>;

/// Parses a text with `chrono::DateTime::parse_from_str`. The grammar of
/// formats is not restated: the outcome is named [`parse_with_format`].
#[verifier::external_body]
pub(crate) fn instant_with_format(text: &str, format: &str) -> (r: Option<Timestamp>)
    ensures
        r == parse_with_format(text@, format@),
{
    match chrono::DateTime::parse_from_str(text, format) {
        Ok(at) => Some(Timestamp { secs: at.timestamp(), nanos: at.timestamp_subsec_nanos() }),
        Err(_) => None,
    }
}

/// Parses a text with `chrono::DateTime::parse_from_rfc3339`. The grammar is
/// not restated: the outcome is named [`parse_rfc3339`].
#[verifier::external_body]
pub(crate) fn instant_from_rfc3339(text: &str) -> (r: Option<Timestamp>)
    ensures
        r == parse_rfc3339(text@),
{
    match chrono::DateTime::parse_from_rfc3339(text) {
        Ok(at) => Some(Timestamp { secs: at.timestamp(), nanos: at.timestamp_subsec_nanos() }),
        Err(_) => None,
    }
}

/// `chrono::DateTime::from_timestamp` with no nanoseconds: the instant that
/// many seconds after the epoch, or nothing where the date lies outside the
/// years that `chrono` represents.
#[verifier::external_body]
pub(crate) fn instant_from_seconds(secs: i64) -> (r: Option<Timestamp>)
    ensures
        r == instant_of_seconds(secs as int),
{
    match chrono::DateTime::from_timestamp(secs, 0) {
        Some(at) => Some(Timestamp { secs: at.timestamp(), nanos: at.timestamp_subsec_nanos() }),
        None => None,
    }
}

/// `chrono::DateTime::from_timestamp_millis`: the instant that many
/// milliseconds after the epoch, or nothing where the date lies outside the
/// years that `chrono` represents.
#[verifier::external_body]
pub(crate) fn instant_from_millis(millis: i64) -> (r: Option<Timestamp>)
    ensures
        r == instant_of_millis(millis as int),
{
    match chrono::DateTime::from_timestamp_millis(millis) {
        Some(at) => Some(Timestamp { secs: at.timestamp(), nanos: at.timestamp_subsec_nanos() }),
        None => None,
    }
}

} // verus!
