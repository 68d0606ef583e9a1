//! Instants and their textual forms.
//!
//! The library models an instant as whole seconds since the Unix epoch, in
//! UTC.  Rendering to and parsing from RFC 3339 (the form stored inside flat
//! backup names) and parsing the hypervisor CLI's timestamp format are done
//! by chrono behind the trusted wrappers below; everything that reasons about
//! those texts speaks of the named results `rfc3339_of`, `rfc3339_parse_of`
//! and `xe_time_of`.

use vstd::prelude::*;

use crate::error::XApiParseError;

verus! {

/// Latest instant the codec renders: 9999-12-31T23:59:59Z.  Beyond it chrono
/// switches to a signed five-digit year form.
pub const MAX_TIMESTAMP_SECS: i64 = 253402300799;

/// One instant in UTC, in whole seconds since the Unix epoch.
#[derive(Debug, Clone, Copy, PartialEq, Eq, Structural, Hash)]
pub struct Timestamp {
    pub secs: i64,
}

impl Timestamp {
    /// The instants whose RFC 3339 rendering the codec relies on: the years
    /// 1970 through 9999.
    pub open spec fn wf(self) -> bool {
        0 <= self.secs <= MAX_TIMESTAMP_SECS
    }

    pub fn new(secs: i64) -> (r: Timestamp)
        ensures
            r.secs == secs,
    {
        Timestamp { secs }
    }
}

/// What chrono renders for the instant `secs`: the RFC 3339 text of
/// `DateTime::<Utc>::from_timestamp(secs, 0)`.
pub uninterp spec fn rfc3339_of(secs: i64) -> Seq<char>;

/// What chrono's RFC 3339 parser yields for the text `s`, reduced to whole
/// seconds: `None` where parsing fails.
pub uninterp spec fn rfc3339_parse_of(s: Seq<char>) -> Option<i64>;

/// The rendering of `secs` has the fixed 25-character shape
/// `YYYY-MM-DDTHH:MM:SS+00:00` and is free of `'_'` and `'.'`: it can stand
/// as the last field of a separator-delimited flat name, in front of dotted
/// extensions, without colliding with either delimiter or with an extension
/// token.
pub open spec fn rfc3339_clean(secs: i64) -> bool {
    &&& rfc3339_of(secs).len() == 25
    &&& forall|i: int|
        0 <= i < rfc3339_of(secs).len() ==> rfc3339_of(secs)[i] != '_' && rfc3339_of(
            secs,
        )[i] != '.'
}

/// Parsing the rendering of `secs` gives back `secs`.
pub open spec fn rfc3339_inverts(secs: i64) -> bool {
    rfc3339_parse_of(rfc3339_of(secs)) == Some(secs)
}

/// Relies on chrono's `DateTime::<Utc>::from_timestamp` and
/// `DateTime::to_rfc3339`: for a whole-second instant of the years 1970
/// through 9999 the rendering is the fixed 25-character form
/// `YYYY-MM-DDTHH:MM:SS+00:00` — no fractional part, no `'_'`, no `'.'`.
#[verifier::external_body]
pub fn format_rfc3339(ts: Timestamp) -> (r: String)
    requires
        ts.wf(),
    ensures
        r@ == rfc3339_of(ts.secs),
        r@.len() == 25,
        forall|i: int| 0 <= i < r@.len() ==> r@[i] != '_' && r@[i] != '.',
{
    match chrono::DateTime::<chrono::Utc>::from_timestamp(ts.secs, 0) {
        Some(dt) => dt.to_rfc3339(),
        None => String::new(),
    }
}

/// Relies on chrono's `DateTime::parse_from_rfc3339`, with the parsed instant
/// reduced to whole seconds by `DateTime::timestamp`: the parser accepts
/// every text that `DateTime::to_rfc3339` produces and gives back the same
/// instant.
#[verifier::external_body]
pub fn parse_rfc3339(s: &str) -> (r: Option<Timestamp>)
    ensures
        r matches Some(t) ==> rfc3339_parse_of(s@) == Some(t.secs),
        r is None ==> rfc3339_parse_of(s@) is None,
        forall|t: i64|
            0 <= t <= MAX_TIMESTAMP_SECS && s@ == rfc3339_of(t) ==> r == Some(
                Timestamp { secs: t },
            ),
{
    match chrono::DateTime::parse_from_rfc3339(s) {
        Ok(dt) => Some(Timestamp { secs: dt.to_utc().timestamp() }),
        Err(_) => None,
    }
}

/// What chrono's `NaiveDateTime::parse_from_str` with the hypervisor CLI's
/// format `%Y%m%dT%H:%M:%S%Z` yields for the text `s`, taken as UTC and
/// reduced to whole seconds: `None` where parsing fails.
pub uninterp spec fn xe_time_of(s: Seq<char>) -> Option<i64>;

/// Relies on chrono's `NaiveDateTime::parse_from_str` (format
/// `%Y%m%dT%H:%M:%S%Z`, the `xe` CLI's timestamp shape), with the result
/// taken as UTC and reduced to whole seconds.
#[verifier::external_body]
pub fn parse_timestamp(timestamp: &str) -> (r: Result<Timestamp, XApiParseError>)
    ensures
        r matches Ok(t) ==> xe_time_of(timestamp@) == Some(t.secs),
        r is Err ==> xe_time_of(timestamp@) is None,
        r matches Err(e) ==> e == XApiParseError::TimestampParseError,
{
    match chrono::NaiveDateTime::parse_from_str(timestamp, "%Y%m%dT%H:%M:%S%Z") {
        Ok(naive) => Ok(Timestamp {
            secs: chrono::DateTime::<chrono::Utc>::from_naive_utc_and_offset(naive, chrono::Utc)
                .timestamp(),
        }),
        Err(_) => Err(XApiParseError::TimestampParseError),
    }
}

} // verus!
