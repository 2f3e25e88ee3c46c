//! Wall-clock timestamps as plain values: non-leap seconds since the Unix
//! epoch plus a nanosecond part, always understood as UTC.
//!
//! Rendering to and parsing from the RFC 3339 text form is delegated to the
//! `chrono` crate behind trusted wrappers; everything else about timestamps
//! is plain integer data.

use vstd::prelude::*;

verus! {

/// The first instant whose RFC 3339 rendering has a four-digit year:
/// 0000-01-01T00:00:00Z.
pub const TS_SECONDS_MIN: i64 = -62_167_219_200;

/// The last whole second whose RFC 3339 rendering has a four-digit year:
/// 9999-12-31T23:59:59Z.
pub const TS_SECONDS_MAX: i64 = 253_402_300_799;

pub const NANOS_PER_SECOND: u32 = 1_000_000_000;

/// A point in wall-clock time, normalized to UTC.
#[derive(Clone, Copy, Debug, PartialEq, Eq, Structural)]
pub struct Timestamp {
    /// Non-leap seconds since 1970-01-01T00:00:00Z; may be negative.
    pub epoch_seconds: i64,
    /// Nanoseconds since the last whole second.
    pub nanos: u32,
}

impl Timestamp {
    /// The timestamp's RFC 3339 rendering has a four-digit year (years 0000
    /// through 9999). On this range the text form both renders and parses:
    /// outside it the year is written with a sign and extra digits, which
    /// the RFC 3339 parser does not accept.
    pub open spec fn wf(self) -> bool {
        &&& TS_SECONDS_MIN <= self.epoch_seconds <= TS_SECONDS_MAX
        &&& self.nanos < NANOS_PER_SECOND
    }

    /// Builds a timestamp, rejecting values outside the supported range.
    pub fn new(epoch_seconds: i64, nanos: u32) -> (r: Option<Timestamp>)
        ensures
            match r {
                Some(t) => t == (Timestamp { epoch_seconds, nanos }) && t.wf(),
                None => !(Timestamp { epoch_seconds, nanos }).wf(),
            },
    {
        if TS_SECONDS_MIN <= epoch_seconds && epoch_seconds <= TS_SECONDS_MAX && nanos
            < NANOS_PER_SECOND {
            Some(Timestamp { epoch_seconds, nanos })
        } else {
            None
        }
    }
}

/// The RFC 3339 rendering, with UTC offset, of the given instant.
pub uninterp spec fn rfc3339_of(epoch_seconds: i64, nanos: u32) -> Seq<char>;

/// The instant an RFC 3339 string denotes, normalized to UTC, if the string
/// is well formed: seconds since the epoch and the nanosecond part.
pub uninterp spec fn parsed_rfc3339(s: Seq<char>) -> Option<(i64, u32)>;

/// The RFC 3339 rendering of this instant parses back to the same instant.
pub open spec fn timestamp_roundtrips(t: Timestamp) -> bool {
    parsed_rfc3339(rfc3339_of(t.epoch_seconds, t.nanos)) == Some((t.epoch_seconds, t.nanos))
}

/// Relies on chrono's `DateTime::<Utc>::from_timestamp` (total on the range
/// `Timestamp::wf` admits) composed with `DateTime::to_rfc3339`, which
/// renders the instant as an RFC 3339 string with a four-digit zero-padded
/// year and a `+00:00` offset; on exactly that form
/// `DateTime::parse_from_rfc3339` gives the same instant back.
#[verifier::external_body]
pub fn format_rfc3339(t: &Timestamp) -> (r: String)
    requires
        t.wf(),
    ensures
        r@ == rfc3339_of(t.epoch_seconds, t.nanos),
        parsed_rfc3339(r@) == Some((t.epoch_seconds, t.nanos)),
{
    chrono::DateTime::<chrono::Utc>::from_timestamp(t.epoch_seconds, t.nanos)
        .unwrap()
        .to_rfc3339()
}

/// Relies on chrono's `DateTime::parse_from_rfc3339`: the result depends on
/// the characters alone, and the nanosecond part of any parsed instant is
/// below two billion (values above one billion stand for a leap second).
#[verifier::external_body]
pub fn parse_rfc3339(s: &str) -> (r: Option<(i64, u32)>)
    ensures
        r == parsed_rfc3339(s@),
        r matches Some(p) ==> p.1 < 2_000_000_000,
{
    match chrono::DateTime::parse_from_rfc3339(s) {
        Ok(dt) => Some((dt.timestamp(), dt.timestamp_subsec_nanos())),
        Err(_) => None,
    }
}

} // verus!
