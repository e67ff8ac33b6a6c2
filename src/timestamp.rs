//! Instants in time, as seconds and nanoseconds since the Unix epoch, and
//! their RFC 3339 text.
use std::fmt::Write;
use vstd::prelude::*;

verus! {

/// An instant: whole seconds since 1970-01-01T00:00:00Z and the nanoseconds
/// past that second (up to 1_999_999_999 inside a leap second).
#[derive(Clone, Copy, Debug, PartialEq, Eq, Structural)]
pub struct Timestamp {
    pub secs: i64,
    pub nanos: u32,
}

impl Timestamp {
    /// `self` comes strictly after `other`.
    pub open spec fn after(self, other: Timestamp) -> bool {
        self.secs > other.secs || (self.secs == other.secs && self.nanos > other.nanos)
    }

    pub fn new(secs: i64, nanos: u32) -> (r: Timestamp)
        ensures
            r.secs == secs,
            r.nanos == nanos,
    {
        Timestamp { secs, nanos }
    }

    /// Whether `self` comes strictly after `other`.
    pub fn is_after(&self, other: &Timestamp) -> (r: bool)
        ensures
            r == self.after(*other),
    {
        self.secs > other.secs || (self.secs == other.secs && self.nanos > other.nanos)
    }
}

/// The instant that an RFC 3339 text denotes, as seconds and nanoseconds
/// since the epoch, or `None` where the text is not RFC 3339.
pub uninterp spec fn rfc3339_instant(s: Seq<char>) -> Option<(i64, u32)>;

/// The text of the UTC instant `secs` seconds after the epoch, laid out by
/// the strftime-style `pattern`, or `None` where the instant is out of range
/// or the pattern cannot be rendered.
pub uninterp spec fn utc_text(secs: int, pattern: Seq<char>) -> Option<Seq<char>>;

/// The instant of `s` as a `Timestamp`, if `s` is RFC 3339.
pub open spec fn parsed_instant(s: Seq<char>) -> Option<Timestamp> {
    match rfc3339_instant(s) {
        Some(p) => Some(Timestamp { secs: p.0, nanos: p.1 }),
        None => None,
    }
}

/// Relies on `chrono::DateTime::parse_from_rfc3339`, with `timestamp` and
/// `timestamp_subsec_nanos` on its result: the instant depends on the text
/// alone.
#[verifier::external_body]
fn parse_rfc3339_instant(s: &str) -> (r: Option<(i64, u32)>)
    ensures
        r == rfc3339_instant(s@),
{
    match chrono::DateTime::parse_from_rfc3339(s) {
        Ok(d) => Some((d.timestamp(), d.timestamp_subsec_nanos())),
        Err(_) => None,
    }
}

/// Parses an RFC 3339 text into the instant it denotes; `None` where the
/// text is not RFC 3339.
pub fn parse_timestamp(s: &str) -> (r: Option<Timestamp>)
    ensures
        r == parsed_instant(s@),
{
    match parse_rfc3339_instant(s) {
        Some(p) => Some(Timestamp { secs: p.0, nanos: p.1 }),
        None => None,
    }
}

/// Relies on `chrono::DateTime::<Utc>::from_timestamp` and on `format` with
/// `pattern`: the text depends on the two arguments alone.  A pattern that
/// chrono cannot render gives `None` rather than a panic.  With the ledger's
/// pattern `%FT%TZ` and an instant from 1970 to the end of year 9999, chrono
/// writes `YYYY-MM-DDTHH:MM:SSZ` (a four-digit year, two-digit fields),
/// which holds no newline and which `DateTime::parse_from_rfc3339` reads
/// back as the same second.
#[verifier::external_body]
fn format_utc(secs: i64, pattern: &str) -> (r: Option<String>)
    ensures
        match r {
            Some(t) => utc_text(secs as int, pattern@) == Some(t@),
            None => utc_text(secs as int, pattern@) is None,
        },
        pattern@ == STAMP_PATTERN@ && 0 <= secs <= LAST_STAMP_SECS ==> (r matches Some(t)
            && rfc3339_instant(t@) == Some((secs, 0u32)) && forall|i: int|
            0 <= i < t@.len() ==> t@[i] != '\n'),
{
    let mut out = String::new();
    match chrono::DateTime::<chrono::Utc>::from_timestamp(secs, 0) {
        Some(d) => match write!(out, "{}", d.format(pattern)) {
            Ok(()) => Some(out),
            Err(_) => None,
        },
        None => None,
    }
}

/// The strftime pattern of the ledger's timestamps: date, `T`, time to the
/// second, `Z`.
pub const STAMP_PATTERN: &'static str = "%FT%TZ";

/// The last second of year 9999 (9999-12-31T23:59:59Z), after the epoch.
pub const LAST_STAMP_SECS: i64 = 253402300799;

/// The ledger text of the instant `secs` seconds after the epoch (to the
/// second, in UTC); `None` where chrono cannot represent that instant.
/// From 1970 to the end of year 9999 the text is one line that reads back
/// as the same instant.
pub fn format_timestamp(secs: i64) -> (r: Option<String>)
    ensures
        match r {
            Some(t) => utc_text(secs as int, STAMP_PATTERN@) == Some(t@),
            None => utc_text(secs as int, STAMP_PATTERN@) is None,
        },
        0 <= secs <= LAST_STAMP_SECS ==> (r matches Some(t) && parsed_instant(t@) == Some(
            Timestamp { secs, nanos: 0 },
        ) && forall|i: int| 0 <= i < t@.len() ==> t@[i] != '\n'),
{
    format_utc(secs, STAMP_PATTERN)
}

} // verus!
