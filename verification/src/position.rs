//! Geographic coordinates as fixed-point integers.
//!
//! A coordinate is a signed count of units of one ten-millionth of a degree,
//! so that every comparison the forwarder makes is exact integer arithmetic.
//! Positive latitudes are north, positive longitudes are east.

use vstd::prelude::*;

verus! {

/// Coordinate units in one degree.
pub const UNITS_PER_DEGREE: i64 = 10_000_000;

/// The change of a coordinate, in units, that must be exceeded for a vessel to
/// count as moving: one thousandth of a degree.
pub const MOTION_THRESHOLD: i64 = 10_000;

/// The distance between two coordinates on one axis.
pub open spec fn axis_distance(a: int, b: int) -> int {
    if a >= b {
        a - b
    } else {
        b - a
    }
}

/// Whether a position is the origin `(0, 0)`, which receivers report while
/// they have no fix.
pub open spec fn is_origin(lat: int, long: int) -> bool {
    lat == 0 && long == 0
}

/// Whether `(lat, long)` differs from `(prev_lat, prev_long)` by more than the
/// motion threshold on at least one axis.
pub open spec fn moved(lat: int, long: int, prev_lat: int, prev_long: int) -> bool {
    axis_distance(lat, prev_lat) > MOTION_THRESHOLD || axis_distance(long, prev_long)
        > MOTION_THRESHOLD
}

/// Executable form of [`axis_distance`], widened so that it cannot overflow.
fn distance(a: i64, b: i64) -> (d: i128)
    ensures
        d == axis_distance(a as int, b as int),
{
    let wide_a: i128 = a as i128;
    let wide_b: i128 = b as i128;
    if wide_a >= wide_b {
        wide_a - wide_b
    } else {
        wide_b - wide_a
    }
}

/// Decides whether a vessel at `(lat, long)` has moved away from
/// `(prev_lat, prev_long)`.
pub fn is_moving(lat: i64, long: i64, prev_lat: i64, prev_long: i64) -> (moving: bool)
    ensures
        moving == moved(lat as int, long as int, prev_lat as int, prev_long as int),
{
    let lat_diff: i128 = distance(lat, prev_lat);
    let long_diff: i128 = distance(long, prev_long);
    lat_diff > MOTION_THRESHOLD as i128 || long_diff > MOTION_THRESHOLD as i128
}

/// A position never counts as moved away from itself.
pub proof fn lemma_same_position_is_not_moving(lat: int, long: int)
    ensures
        !moved(lat, long, lat, long),
{
}

} // verus!
