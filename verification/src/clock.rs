//! The wall clock, read through chrono.

use vstd::prelude::*;

verus! {

/// The current UTC time as RFC 3339 text (`chrono::Utc::now().to_rfc3339()`):
/// the text `rfc3339_text` names for the instant of the call (`Utc::now` is
/// `DateTime::from_timestamp` of the system time). Which instant it is, is
/// not stated.
#[verifier::external_body]
pub(crate) fn now_rfc3339() -> (r: String)
    ensures
        exists|secs: i64, nanos: u32| #[trigger] rfc3339_text(secs, nanos) == Some(r@),
{
    chrono::Utc::now().to_rfc3339()
}

/// Milliseconds past the current second (`chrono::Utc::now().timestamp_subsec_millis()`):
/// below 1000, since `Utc::now` takes the system time's nanoseconds, which
/// stay below a second. Which millisecond it is, is not stated.
#[verifier::external_body]
pub(crate) fn now_subsec_millis() -> (r: u32)
    ensures
        r < 1000,
{
    chrono::Utc::now().timestamp_subsec_millis()
}

/// Today's UTC date as `YYYY-MM-DD` (`chrono::Utc::now().date_naive().to_string()`):
/// the text `utc_date_text` names for the second of the call (the date does
/// not depend on the nanoseconds). Which day it is, is not stated.
#[verifier::external_body]
pub(crate) fn utc_day_key() -> (r: String)
    ensures
        exists|secs: i64| #[trigger] utc_date_text(secs) == Some(r@),
{
    chrono::Utc::now().date_naive().to_string()
}

/// The UTC date of the instant `secs` seconds after the epoch as chrono's
/// `NaiveDate::to_string` writes it (`YYYY-MM-DD` within the years 0 to
/// 9999), or `None` when chrono cannot represent the instant.
pub uninterp spec fn utc_date_text(secs: i64) -> Option<Seq<char>>;

/// `DateTime::from_timestamp(secs, 0)`, then `date_naive().to_string()`, as
/// `utc_date_text` names it.
#[verifier::external_body]
pub(crate) fn utc_date(secs: i64) -> (r: Option<String>)
    ensures
        utc_date_text(secs) == crate::text::opt_view(r),
{
    match chrono::DateTime::from_timestamp(secs, 0) {
        Some(dt) => Some(dt.date_naive().to_string()),
        None => None,
    }
}

/// A point in time: whole seconds since 1970-01-01 00:00 UTC and the
/// nanoseconds past that second (1_000_000_000 and more during a leap second).
#[derive(Clone, Copy)]
pub struct Instant {
    pub secs: i64,
    pub nanos: u32,
}

/// The instant as nanoseconds since the epoch.
pub open spec fn nanos_of(i: Instant) -> int {
    i.secs * 1_000_000_000 + i.nanos
}

/// An optional instant as an optional (seconds, nanoseconds) pair.
pub open spec fn opt_pair(r: Option<Instant>) -> Option<(i64, u32)> {
    match r {
        Some(c) => Some((c.secs, c.nanos)),
        None => None,
    }
}

/// Seconds of any instant that chrono's `DateTime` can hold (years -262143 to
/// 262142) stay below this bound in absolute value.
pub const CHRONO_SECS_BOUND: i64 = 8_796_093_022_208;

/// The current instant (`chrono::Utc::now()`, its `timestamp()` and
/// `timestamp_subsec_nanos()`). Only that it lies in chrono's range is
/// stated: it is the time of the call.
#[verifier::external_body]
pub(crate) fn now_instant() -> (r: Instant)
    ensures
        -CHRONO_SECS_BOUND < r.secs < CHRONO_SECS_BOUND,
{
    let now = chrono::Utc::now();
    Instant { secs: now.timestamp(), nanos: now.timestamp_subsec_nanos() }
}

/// The instant that an RFC 3339 text denotes, as (seconds, nanoseconds), or
/// `None` when chrono's `DateTime::parse_from_rfc3339` refuses the text.
/// A parsed `DateTime` lies in chrono's range.
pub uninterp spec fn rfc3339_instant(text: Seq<char>) -> Option<(i64, u32)>;

/// Reads an RFC 3339 time stamp with `chrono::DateTime::parse_from_rfc3339`;
/// the result is the parsed instant (whatever offset the text gives), by
/// `timestamp()` and `timestamp_subsec_nanos()`, as `rfc3339_instant` names it.
#[verifier::external_body]
pub(crate) fn parse_rfc3339(text: &str) -> (r: Option<Instant>)
    ensures
        match r {
            Some(i) => rfc3339_instant(text@) == Some((i.secs, i.nanos)) && -CHRONO_SECS_BOUND < i.secs < CHRONO_SECS_BOUND,
            None => rfc3339_instant(text@) is None,
        },
{
    match chrono::DateTime::parse_from_rfc3339(text) {
        Ok(dt) => Some(Instant { secs: dt.timestamp(), nanos: dt.timestamp_subsec_nanos() }),
        Err(_) => None,
    }
}

/// The RFC 3339 text of an instant in UTC, as chrono's `to_rfc3339` writes
/// it, or `None` when chrono cannot represent the instant.
pub uninterp spec fn rfc3339_text(secs: i64, nanos: u32) -> Option<Seq<char>>;

/// Writes an instant with `chrono::DateTime::from_timestamp(secs, nanos)` and
/// `to_rfc3339()`, as `rfc3339_text` names it.
#[verifier::external_body]
pub(crate) fn format_rfc3339(i: Instant) -> (r: Option<String>)
    ensures
        rfc3339_text(i.secs, i.nanos) == match r {
            Some(t) => Some(t@),
            None => None,
        },
{
    match chrono::DateTime::from_timestamp(i.secs, i.nanos) {
        Some(dt) => Some(dt.to_rfc3339()),
        None => None,
    }
}

} // verus!
