//! Points in time.
//!
//! The books record when each thing happened and nothing is ever decided by
//! it, so a moment is carried as plain numbers.

use vstd::prelude::*;

verus! {

/// A moment on the wall clock of the machine that recorded it.
#[derive(Clone, Copy, PartialEq, Eq, Structural, Debug)]
pub struct Timestamp {
    /// Whole seconds since the start of 1970, UTC, leap seconds not counted.
    pub seconds: i64,
    /// Nanoseconds since the last whole second. During a leap second this
    /// goes beyond 999,999,999.
    pub nanos: u32,
    /// Seconds that the recording machine's local time was ahead of UTC.
    pub offset: i32,
}

impl Timestamp {
    /// The present moment, which is a different one at every call.
    pub fn now() -> Timestamp {
        local_now()
    }
}

/// `chrono::Local::now`, taken apart with `timestamp`,
/// `timestamp_subsec_nanos` and the `local_minus_utc` of its offset. Nothing
/// is claimed of what the clock says.
#[verifier::external_body]
fn local_now() -> Timestamp {
    let now = chrono::Local::now();
    Timestamp {
        seconds: now.timestamp(),
        nanos: now.timestamp_subsec_nanos(),
        offset: now.offset().local_minus_utc(),
    }
}

} // verus!
