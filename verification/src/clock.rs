//! Wall-clock instants: a reading of chrono's clock, and the
//! plain `Timestamp` value with the elapsed-seconds arithmetic of chrono's
//! `TimeDelta::num_seconds`.
use vstd::prelude::*;

verus! {

/// One reading of the system clock: the instant and its RFC 3339 text.
pub struct ClockReading {
    pub instant: Timestamp,
    pub rfc3339: String,
}

/// What chrono's `to_rfc3339` writes for the UTC instant `secs` seconds and
/// `nanos` nanoseconds past the Unix epoch.
pub uninterp spec fn rfc3339_text(secs: i64, nanos: u32) -> Seq<char>;

/// `chrono::Utc::now`, read once and handed back as plain values: the
/// instant's `timestamp` and `timestamp_subsec_nanos`, and its `to_rfc3339`
/// text. chrono builds the reading from the time since the Unix epoch, so
/// the seconds are not negative and the nanoseconds stay below one second;
/// the text is the RFC 3339 rendering of that same instant, which for a UTC
/// value depends on the instant alone. Which instant it is is left unsaid:
/// it is the system clock's. (chrono panics if that clock reads before
/// 1970, or past the last year it can represent, which no precondition here
/// can rule out.)
#[verifier::external_body]
pub(crate) fn read_clock() -> (r: ClockReading)
    ensures
        r.instant.secs >= 0,
        r.instant.nanos < 1_000_000_000,
        r.rfc3339@ == rfc3339_text(r.instant.secs, r.instant.nanos),
{
    let now = chrono::Utc::now();
    ClockReading {
        instant: Timestamp { secs: now.timestamp(), nanos: now.timestamp_subsec_nanos() },
        rfc3339: now.to_rfc3339(),
    }
}

/// An instant as whole seconds since the Unix epoch and nanoseconds past
/// that second.
#[derive(Debug, Clone, Copy, PartialEq, Eq, Structural)]
pub struct Timestamp {
    pub secs: i64,
    pub nanos: u32,
}

/// Nanoseconds from `earlier` to `later` (negative when `later` is before).
pub open spec fn nanos_between(later: Timestamp, earlier: Timestamp) -> int {
    (later.secs - earlier.secs) * 1_000_000_000 + (later.nanos - earlier.nanos)
}

/// Whole seconds in a span of `d` nanoseconds, rounded toward zero.
pub open spec fn whole_seconds(d: int) -> int {
    if d >= 0 {
        d / 1_000_000_000
    } else {
        -((-d) / 1_000_000_000)
    }
}

/// Whole seconds from `earlier` to `later`, rounded toward zero.
pub open spec fn seconds_between(later: Timestamp, earlier: Timestamp) -> int {
    whole_seconds(nanos_between(later, earlier))
}

/// Whole seconds from `earlier` to `later`, rounded toward zero.
pub fn elapsed_seconds(later: Timestamp, earlier: Timestamp) -> (s: i128)
    ensures
        s == seconds_between(later, earlier),
{
    let ds: i128 = (later.secs as i128) - (earlier.secs as i128);
    let dn: i128 = (later.nanos as i128) - (earlier.nanos as i128);
    assert(-18446744073709551616 <= ds <= 18446744073709551616);
    assert(-18446744073709551616000000000 <= ds * 1_000_000_000 <= 18446744073709551616000000000)
        by (nonlinear_arith)
        requires
            -18446744073709551616 <= ds <= 18446744073709551616,
    ;
    let d: i128 = ds * 1_000_000_000 + dn;
    if d >= 0 {
        d / 1_000_000_000
    } else {
        -((-d) / 1_000_000_000)
    }
}


} // verus!
