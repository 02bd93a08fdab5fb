//! When the own vessel's position is reported.
//!
//! Two deadlines are kept, one for each configured interval. A fix is
//! reported when the anchor deadline has passed, or when the regular deadline
//! has passed and the vessel has moved away from the position that was
//! reported last. Each report moves both deadlines to the next boundary of
//! their interval's grid of whole multiples since the epoch, so that reports
//! keep their phase on the wall clock whenever the forwarder is started.

use vstd::prelude::*;
use vstd::arithmetic::div_mod::lemma_div_plus_one;
use vstd::arithmetic::div_mod::lemma_fundamental_div_mod;
use vstd::arithmetic::div_mod::lemma_mod_add_multiples_vanish;
use crate::clock::seconds_of;
use crate::clock::whole_seconds;
use crate::position::is_moving;
use crate::position::moved;

verus! {

/// For how long after a position fix sentence a dynamic report that is
/// flagged as the own vessel's is believed to be the own vessel's: 30
/// seconds, in nanoseconds.
pub const RMC_MESSAGE_TIMEOUT: u64 = 30_000_000_000;

/// The deadline that follows `now_secs` for a report that is due every
/// `interval` seconds: `now_secs + interval`, moved back onto the grid of
/// whole multiples of `interval` since the epoch.
pub open spec fn grid_deadline(now_secs: int, interval: int) -> int {
    (now_secs + interval) - (now_secs + interval) % interval
}

/// The number of the grid cell of width `interval` that holds `now_secs`.
pub open spec fn window(now_secs: int, interval: int) -> int {
    now_secs / interval
}

/// What the scheduler knows, as mathematical integers. Times are wall-clock:
/// the deadlines in seconds since the epoch, `last_seen_rmc` in nanoseconds.
pub struct Cadence {
    pub location_interval: int,
    pub location_anchor_interval: int,
    pub prev_lat: int,
    pub prev_long: int,
    pub next_location: int,
    pub next_location_anchor: int,
    pub last_seen_rmc: int,
}

impl Cadence {
    /// The state right after start at `now` nanoseconds: nothing reported,
    /// no position fix seen, both deadlines on the boundary that follows.
    pub open spec fn start(
        location_interval: int,
        location_anchor_interval: int,
        now: int,
    ) -> Cadence {
        Cadence {
            location_interval,
            location_anchor_interval,
            prev_lat: 0,
            prev_long: 0,
            next_location: grid_deadline(whole_seconds(now), location_interval),
            next_location_anchor: grid_deadline(whole_seconds(now), location_anchor_interval),
            last_seen_rmc: 0,
        }
    }

    /// Whether a fix at `(lat, long)` taken at `now` nanoseconds is reported.
    pub open spec fn due(self, now: int, lat: int, long: int) -> bool {
        whole_seconds(now) >= self.next_location_anchor || (whole_seconds(now)
            >= self.next_location && moved(lat, long, self.prev_lat, self.prev_long))
    }

    /// The state after a report of `(lat, long)` at `now` nanoseconds.
    pub open spec fn reported(self, now: int, lat: int, long: int) -> Cadence {
        Cadence {
            prev_lat: lat,
            prev_long: long,
            next_location: grid_deadline(whole_seconds(now), self.location_interval),
            next_location_anchor: grid_deadline(whole_seconds(now), self.location_anchor_interval),
            ..self
        }
    }

    /// The state after a fix at `(lat, long)` taken at `now` nanoseconds was
    /// offered: reported if due, else unchanged.
    pub open spec fn offered(self, now: int, lat: int, long: int) -> Cadence {
        if self.due(now, lat, long) {
            self.reported(now, lat, long)
        } else {
            self
        }
    }

    /// The state after a position fix sentence was seen at `now` nanoseconds.
    pub open spec fn fix_seen(self, now: int) -> Cadence {
        Cadence { last_seen_rmc: now, ..self }
    }

    /// Whether at `now` nanoseconds the last position fix sentence is recent
    /// enough to vouch for a dynamic report of the own vessel.
    pub open spec fn corroborates(self, now: int) -> bool {
        self.last_seen_rmc + RMC_MESSAGE_TIMEOUT > now
    }

    /// Both intervals are positive and both deadlines lie on their grid.
    pub open spec fn aligned(self) -> bool {
        &&& self.location_interval > 0
        &&& self.location_anchor_interval > 0
        &&& self.next_location % self.location_interval == 0
        &&& self.next_location_anchor % self.location_anchor_interval == 0
    }
}

/// The scheduler of own-vessel location reports.
pub struct CadenceState {
    location_interval: u64,
    location_anchor_interval: u64,
    prev_lat: i64,
    prev_long: i64,
    next_location: u128,
    next_location_anchor: u128,
    last_seen_rmc: u64,
}

impl View for CadenceState {
    type V = Cadence;

    closed spec fn view(&self) -> Cadence {
        Cadence {
            location_interval: self.location_interval as int,
            location_anchor_interval: self.location_anchor_interval as int,
            prev_lat: self.prev_lat as int,
            prev_long: self.prev_long as int,
            next_location: self.next_location as int,
            next_location_anchor: self.next_location_anchor as int,
            last_seen_rmc: self.last_seen_rmc as int,
        }
    }
}

/// Computes [`grid_deadline`] for the seconds of a clock reading.
pub fn next_deadline(now: u64, interval: u64) -> (deadline: u128)
    requires
        interval > 0,
    ensures
        deadline == grid_deadline(whole_seconds(now as int), interval as int),
{
    let next: u128 = seconds_of(now) as u128 + interval as u128;
    next - next % (interval as u128)
}

impl CadenceState {
    #[verifier::type_invariant]
    spec fn inv(self) -> bool {
        self@.aligned()
    }

    /// Starts the scheduler at wall-clock time `now`, in nanoseconds since
    /// the epoch, with the regular and the anchor interval in seconds.
    pub fn new(location_interval: u64, location_anchor_interval: u64, now: u64) -> (state: Self)
        requires
            location_interval > 0,
            location_anchor_interval > 0,
        ensures
            state@ == Cadence::start(
                location_interval as int,
                location_anchor_interval as int,
                now as int,
            ),
            state@.aligned(),
    {
        proof {
            lemma_grid_deadline(whole_seconds(now as int), location_interval as int);
            lemma_grid_deadline(whole_seconds(now as int), location_anchor_interval as int);
        }
        CadenceState {
            location_interval,
            location_anchor_interval,
            prev_lat: 0,
            prev_long: 0,
            next_location: next_deadline(now, location_interval),
            next_location_anchor: next_deadline(now, location_anchor_interval),
            last_seen_rmc: 0,
        }
    }

    /// The regular deadline that a report at `now` would set.
    pub fn next_location_system_time(&self, now: u64) -> (deadline: u128)
        ensures
            self@.location_interval > 0,
            deadline == grid_deadline(whole_seconds(now as int), self@.location_interval),
    {
        proof {
            use_type_invariant(self);
        }
        next_deadline(now, self.location_interval)
    }

    /// The anchor deadline that a report at `now` would set.
    pub fn next_location_anchor_system_time(&self, now: u64) -> (deadline: u128)
        ensures
            self@.location_anchor_interval > 0,
            deadline == grid_deadline(whole_seconds(now as int), self@.location_anchor_interval),
    {
        proof {
            use_type_invariant(self);
        }
        next_deadline(now, self.location_anchor_interval)
    }

    /// The regular deadline, in seconds since the epoch.
    pub fn next_location(&self) -> (deadline: u128)
        ensures
            deadline == self@.next_location,
    {
        self.next_location
    }

    /// The anchor deadline, in seconds since the epoch.
    pub fn next_location_anchor(&self) -> (deadline: u128)
        ensures
            deadline == self@.next_location_anchor,
    {
        self.next_location_anchor
    }

    /// The position that was reported last as `(latitude, longitude)`; the
    /// origin where none was.
    pub fn last_position(&self) -> (position: (i64, i64))
        ensures
            position.0 == self@.prev_lat,
            position.1 == self@.prev_long,
    {
        (self.prev_lat, self.prev_long)
    }

    /// Records that a position fix sentence was seen at `now`.
    pub fn note_position_fix(&mut self, now: u64)
        ensures
            final(self)@ == old(self)@.fix_seen(now as int),
            old(self)@.aligned(),
            final(self)@.aligned(),
    {
        proof {
            use_type_invariant(&*self);
        }
        self.last_seen_rmc = now;
    }

    /// Whether a dynamic report that claims to be the own vessel's is
    /// believed at `now`: a position fix sentence was seen less than
    /// [`RMC_MESSAGE_TIMEOUT`] ago.
    pub fn corroborates(&self, now: u64) -> (fresh: bool)
        ensures
            fresh == self@.corroborates(now as int),
    {
        let limit: u128 = self.last_seen_rmc as u128 + RMC_MESSAGE_TIMEOUT as u128;
        limit > now as u128
    }

    /// Offers an own-vessel fix at `(lat, long)`, taken at `now`, and answers
    /// whether it is to be reported. A report moves both deadlines and
    /// remembers the position; otherwise nothing changes.
    pub fn check_location(&mut self, now: u64, lat: i64, long: i64) -> (report: bool)
        ensures
            report == old(self)@.due(now as int, lat as int, long as int),
            final(self)@ == old(self)@.offered(now as int, lat as int, long as int),
            old(self)@.aligned(),
            final(self)@.aligned(),
    {
        proof {
            use_type_invariant(&*self);
            lemma_grid_deadline(whole_seconds(now as int), self.location_interval as int);
            lemma_grid_deadline(whole_seconds(now as int), self.location_anchor_interval as int);
        }
        let now_secs: u128 = seconds_of(now) as u128;
        if now_secs >= self.next_location_anchor || (now_secs >= self.next_location && is_moving(
            lat,
            long,
            self.prev_lat,
            self.prev_long,
        )) {
            let next_location: u128 = next_deadline(now, self.location_interval);
            let next_location_anchor: u128 = next_deadline(now, self.location_anchor_interval);
            self.prev_lat = lat;
            self.prev_long = long;
            self.next_location = next_location;
            self.next_location_anchor = next_location_anchor;
            true
        } else {
            false
        }
    }
}

/// A deadline lies on the grid, after `now_secs` and at most one interval
/// after it: it is the start of the window that follows the one of `now_secs`.
pub proof fn lemma_grid_deadline(now_secs: int, interval: int)
    requires
        interval > 0,
    ensures
        grid_deadline(now_secs, interval) == interval * (window(now_secs, interval) + 1),
        grid_deadline(now_secs, interval) % interval == 0,
        now_secs < grid_deadline(now_secs, interval) <= now_secs + interval,
{
    let next = now_secs + interval;
    lemma_fundamental_div_mod(next, interval);
    lemma_div_plus_one(now_secs, interval);
    lemma_fundamental_div_mod(now_secs, interval);
    lemma_mod_add_multiples_vanish(now_secs, interval);
    let k = window(now_secs, interval) + 1;
    assert(grid_deadline(now_secs, interval) == interval * k);
    assert((interval * k) % interval == 0) by (nonlinear_arith)
        requires
            interval > 0,
    ;
    assert(interval * k == interval * (k - 1) + interval) by (nonlinear_arith);
}

/// A time has reached the deadline that was set at `set_secs` exactly when it
/// lies in a later window than `set_secs`.
pub proof fn lemma_deadline_reached_in_later_window(set_secs: int, now_secs: int, interval: int)
    requires
        interval > 0,
    ensures
        now_secs >= grid_deadline(set_secs, interval) <==> window(now_secs, interval) > window(
            set_secs,
            interval,
        ),
{
    lemma_grid_deadline(set_secs, interval);
    lemma_fundamental_div_mod(now_secs, interval);
    let k = window(set_secs, interval) + 1;
    let q = window(now_secs, interval);
    assert(now_secs >= interval * k <==> q >= k) by (nonlinear_arith)
        requires
            interval > 0,
            now_secs == interval * q + now_secs % interval,
            0 <= now_secs % interval < interval,
    ;
}

/// A deadline of the longer interval is also a boundary of the shorter one
/// when the longer is a whole multiple of the shorter: a time in a later
/// window of the longer interval is in a later window of the shorter.
pub proof fn lemma_later_window_of_multiple(set_secs: int, now_secs: int, short: int, long: int)
    requires
        short > 0,
        long > 0,
        long % short == 0,
        window(now_secs, long) > window(set_secs, long),
    ensures
        window(now_secs, short) > window(set_secs, short),
{
    lemma_deadline_reached_in_later_window(set_secs, now_secs, long);
    lemma_grid_deadline(set_secs, long);
    let deadline = grid_deadline(set_secs, long);
    let cells = long / short;
    lemma_fundamental_div_mod(long, short);
    let k = cells * (window(set_secs, long) + 1);
    assert(deadline == short * k) by (nonlinear_arith)
        requires
            deadline == long * (window(set_secs, long) + 1),
            long == short * cells,
            k == cells * (window(set_secs, long) + 1),
    ;
    lemma_fundamental_div_mod(now_secs, short);
    lemma_fundamental_div_mod(set_secs, short);
    let q = window(now_secs, short);
    let p = window(set_secs, short);
    assert(q > p) by (nonlinear_arith)
        requires
            short > 0,
            now_secs >= short * k,
            set_secs < short * k,
            now_secs == short * q + now_secs % short,
            set_secs == short * p + set_secs % short,
            0 <= now_secs % short < short,
            0 <= set_secs % short < short,
    ;
}

/// A vessel that stays where it was reported is reported once per window of
/// the anchor interval: after a report at `reported_at`, a fix at the same
/// position is reported exactly when it falls into a later anchor window.
pub proof fn lemma_stationary_vessel_reports_once_per_anchor_window(
    cadence: Cadence,
    reported_at: int,
    now: int,
    lat: int,
    long: int,
)
    requires
        cadence.location_interval > 0,
        cadence.location_anchor_interval > 0,
    ensures
        cadence.reported(reported_at, lat, long).due(now, lat, long) <==> window(
            whole_seconds(now),
            cadence.location_anchor_interval,
        ) > window(whole_seconds(reported_at), cadence.location_anchor_interval),
{
    lemma_deadline_reached_in_later_window(
        whole_seconds(reported_at),
        whole_seconds(now),
        cadence.location_anchor_interval,
    );
}

/// A vessel that has moved since it was reported is reported once per window
/// of the regular interval, where the anchor interval is a whole multiple of
/// the regular one: after a report at `reported_at`, a fix that has moved
/// away from the reported position is reported exactly when it falls into a
/// later regular window.
pub proof fn lemma_moving_vessel_reports_once_per_window(
    cadence: Cadence,
    reported_at: int,
    now: int,
    lat: int,
    long: int,
    new_lat: int,
    new_long: int,
)
    requires
        cadence.location_interval > 0,
        cadence.location_anchor_interval > 0,
        cadence.location_anchor_interval % cadence.location_interval == 0,
        moved(new_lat, new_long, lat, long),
    ensures
        cadence.reported(reported_at, lat, long).due(now, new_lat, new_long) <==> window(
            whole_seconds(now),
            cadence.location_interval,
        ) > window(whole_seconds(reported_at), cadence.location_interval),
{
    let set = whole_seconds(reported_at);
    let secs = whole_seconds(now);
    lemma_deadline_reached_in_later_window(set, secs, cadence.location_interval);
    lemma_deadline_reached_in_later_window(set, secs, cadence.location_anchor_interval);
    if window(secs, cadence.location_anchor_interval) > window(
        set,
        cadence.location_anchor_interval,
    ) {
        lemma_later_window_of_multiple(
            set,
            secs,
            cadence.location_interval,
            cadence.location_anchor_interval,
        );
    }
}

/// Both deadlines lie on their interval's grid from the start on, and every
/// step keeps them there.
pub proof fn lemma_deadlines_stay_aligned(cadence: Cadence, now: int, lat: int, long: int)
    requires
        cadence.location_interval > 0,
        cadence.location_anchor_interval > 0,
    ensures
        Cadence::start(
            cadence.location_interval,
            cadence.location_anchor_interval,
            now,
        ).aligned(),
        cadence.reported(now, lat, long).aligned(),
        cadence.aligned() ==> cadence.offered(now, lat, long).aligned() && cadence.fix_seen(
            now,
        ).aligned(),
{
    lemma_grid_deadline(whole_seconds(now), cadence.location_interval);
    lemma_grid_deadline(whole_seconds(now), cadence.location_anchor_interval);
}

} // verus!
