//! Clock readings as plain integers.
//!
//! A reading is a count of nanoseconds. Intervals are configured in whole
//! seconds, so every comparison between the two goes through the whole
//! seconds of a reading or of a difference of readings.

use vstd::prelude::*;

verus! {

/// Nanoseconds in one second.
pub const NANOS_PER_SEC: u64 = 1_000_000_000;

/// The whole seconds contained in `nanos` nanoseconds.
pub open spec fn whole_seconds(nanos: int) -> int {
    nanos / 1_000_000_000
}

/// The time that has passed from `earlier` to `now`, in nanoseconds; zero
/// when `earlier` is not in the past.
pub open spec fn elapsed_nanos(now: int, earlier: int) -> int {
    if now >= earlier {
        now - earlier
    } else {
        0
    }
}

/// The whole seconds of a clock reading.
pub fn seconds_of(nanos: u64) -> (secs: u64)
    ensures
        secs == whole_seconds(nanos as int),
{
    nanos / NANOS_PER_SEC
}

} // verus!
