//! Wall-clock time, from chrono.
//!
//! A point in time is held as a Unix timestamp: whole seconds and the
//! nanoseconds past them.  The clock itself is outside the library; nothing
//! is stated of the time it reads.

use vstd::prelude::*;

verus! {

/// A point in time: seconds since the Unix epoch and the nanoseconds past them.
#[derive(Clone, Copy, Debug, PartialEq, Eq, Structural)]
pub struct Timestamp {
    pub secs: i64,
    pub nanos: u32,
}

/// The latest second chrono's `Utc::now()` can read: the end of the year
/// 262143.
pub const LATEST_SECOND: i64 = 8_210_298_412_799i64;

/// The current UTC time, `chrono::Utc::now()`, as seconds and nanoseconds
/// (`timestamp()` and `timestamp_subsec_nanos()`).  The value is the
/// machine's clock; all that is claimed is its range: chrono panics on a
/// clock set before 1970 or past the latest date it holds, and the
/// nanoseconds come from a duration's sub-second part.
#[verifier::external_body]
pub(crate) fn utc_now() -> (t: Timestamp)
    ensures
        0 <= t.secs <= LATEST_SECOND,
        t.nanos < 1_000_000_000,
{
    let t = chrono::Utc::now();
    Timestamp { secs: t.timestamp(), nanos: t.timestamp_subsec_nanos() }
}

/// The current UTC time as RFC 3339 text, `chrono::Utc::now().to_rfc3339()`.
/// Nothing is claimed of the text, which depends on the machine's clock.
#[verifier::external_body]
pub(crate) fn now_rfc3339() -> String {
    chrono::Utc::now().to_rfc3339()
}

} // verus!
