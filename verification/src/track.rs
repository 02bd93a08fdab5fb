//! What the location scheduler does with a whole track.
//!
//! A track is the sequence of own-vessel fixes in the order in which they
//! are offered to the scheduler. The laws here say how many of them are
//! reported: a vessel that lies still is reported once in every window of
//! the anchor interval in which a fix arrives, a vessel under way once in
//! every window of the regular interval.

use vstd::prelude::*;
use vstd::arithmetic::div_mod::lemma_div_is_ordered;
use crate::cadence::lemma_deadline_reached_in_later_window;
use crate::cadence::lemma_later_window_of_multiple;
use crate::cadence::grid_deadline;
use crate::cadence::window;
use crate::cadence::Cadence;
use crate::clock::whole_seconds;
use crate::position::moved;

verus! {

/// One fix of the own vessel: the wall-clock time in nanoseconds at which it
/// is offered, and the position.
pub struct Fix {
    pub at: int,
    pub lat: int,
    pub long: int,
}

/// The state after every fix of `track` was offered in order.
pub open spec fn offered_all(cadence: Cadence, track: Seq<Fix>) -> Cadence
    decreases track.len(),
{
    if track.len() == 0 {
        cadence
    } else {
        offered_all(cadence, track.drop_last()).offered(
            track.last().at,
            track.last().lat,
            track.last().long,
        )
    }
}

/// Whether fix `i` of `track` is reported when the track is offered in
/// order.
pub open spec fn reports_fix(cadence: Cadence, track: Seq<Fix>, i: int) -> bool {
    offered_all(cadence, track.take(i)).due(track[i].at, track[i].lat, track[i].long)
}

/// The fixes of `track` are not older than `since` and come in the order of
/// their times.
pub open spec fn in_time_order(since: int, track: Seq<Fix>) -> bool {
    &&& forall|i: int| 0 <= i < track.len() ==> since <= (#[trigger] track[i]).at
    &&& forall|i: int, j: int|
        0 <= i <= j < track.len() ==> (#[trigger] track[i]).at <= (#[trigger] track[j]).at
}

/// Every fix of `track` is at `(lat, long)`.
pub open spec fn stays_at(track: Seq<Fix>, lat: int, long: int) -> bool {
    forall|i: int|
        0 <= i < track.len() ==> (#[trigger] track[i]).lat == lat && track[i].long == long
}

/// Both deadlines of `cadence` are those that a start or a report at `since`
/// has set.
pub open spec fn set_at(cadence: Cadence, since: int) -> bool {
    &&& cadence.location_interval > 0
    &&& cadence.location_anchor_interval > 0
    &&& cadence.next_location == grid_deadline(whole_seconds(since), cadence.location_interval)
    &&& cadence.next_location_anchor == grid_deadline(
        whole_seconds(since),
        cadence.location_anchor_interval,
    )
}

/// The anchor window of a time in nanoseconds.
pub open spec fn anchor_window(cadence: Cadence, at: int) -> int {
    window(whole_seconds(at), cadence.location_anchor_interval)
}

/// The regular window of a time in nanoseconds.
pub open spec fn regular_window(cadence: Cadence, at: int) -> int {
    window(whole_seconds(at), cadence.location_interval)
}

/// The index of the fix of `track` that is reported last, or -1 where none
/// is reported.
spec fn last_report(cadence: Cadence, track: Seq<Fix>) -> int
    decreases track.len(),
{
    if track.len() == 0 {
        -1
    } else if reports_fix(cadence, track, track.len() - 1) {
        track.len() - 1
    } else {
        last_report(cadence, track.drop_last())
    }
}

/// The state that a report of `fix` leaves.
spec fn set_by(cadence: Cadence, fix: Fix) -> Cadence {
    cadence.reported(fix.at, fix.lat, fix.long)
}

/// Whether a fix is reported depends on the fixes before it alone.
proof fn lemma_prefix_decides(cadence: Cadence, track: Seq<Fix>, n: int, i: int)
    requires
        0 <= i < n <= track.len(),
    ensures
        reports_fix(cadence, track.take(n), i) == reports_fix(cadence, track, i),
{
    assert(track.take(n).take(i) == track.take(i));
}

/// The windows of a grid follow the order of time.
proof fn lemma_windows_follow_time(earlier: int, later: int, interval: int)
    requires
        earlier <= later,
        interval > 0,
    ensures
        window(whole_seconds(earlier), interval) <= window(whole_seconds(later), interval),
{
    lemma_div_is_ordered(earlier, later, 1_000_000_000);
    lemma_div_is_ordered(whole_seconds(earlier), whole_seconds(later), interval);
}

/// After a track, the scheduler is in the state that the last reported fix
/// has set, or in the state it began with where no fix was reported.
proof fn lemma_state_after_track(cadence: Cadence, track: Seq<Fix>)
    ensures
        -1 <= last_report(cadence, track) < track.len(),
        last_report(cadence, track) == -1 ==> offered_all(cadence, track) == cadence,
        last_report(cadence, track) >= 0 ==> {
            &&& reports_fix(cadence, track, last_report(cadence, track))
            &&& offered_all(cadence, track) == set_by(
                cadence,
                track[last_report(cadence, track)],
            )
        },
        forall|i: int|
            last_report(cadence, track) < i < track.len() ==> !reports_fix(cadence, track, i),
    decreases track.len(),
{
    if track.len() > 0 {
        let n = track.len() - 1;
        let front = track.drop_last();
        assert(front == track.take(n));
        lemma_state_after_track(cadence, front);
        let before = offered_all(cadence, front);
        if reports_fix(cadence, track, n) {
            let k = last_report(cadence, front);
            if k >= 0 {
                assert(front[k] == track[k]);
            }
        } else {
            let k = last_report(cadence, front);
            assert(last_report(cadence, track) == k);
            if k >= 0 {
                assert(front[k] == track[k]);
                lemma_prefix_decides(cadence, track, n, k);
            }
            assert forall|i: int| k < i < track.len() implies !reports_fix(cadence, track, i) by {
                if i < n {
                    lemma_prefix_decides(cadence, track, n, i);
                }
            }
        }
    }
}

/// The state in which fix `j` of a track is met: set by the last report
/// before it, which is no older than any report before `j`.
proof fn lemma_state_before_fix(cadence: Cadence, since: int, track: Seq<Fix>, j: int) -> (set: Fix)
    requires
        set_at(cadence, since),
        in_time_order(since, track),
        0 <= j < track.len(),
    ensures
        offered_all(cadence, track.take(j)).location_interval == cadence.location_interval,
        offered_all(cadence, track.take(j)).location_anchor_interval
            == cadence.location_anchor_interval,
        offered_all(cadence, track.take(j)).prev_lat == set.lat,
        offered_all(cadence, track.take(j)).prev_long == set.long,
        set_at(offered_all(cadence, track.take(j)), set.at),
        since <= set.at <= track[j].at,
        set == (Fix { at: since, lat: cadence.prev_lat, long: cadence.prev_long }) || exists|k: int|
            0 <= k < j && set == #[trigger] track[k],
        forall|i: int|
            0 <= i < j && reports_fix(cadence, track, i) ==> (#[trigger] track[i]).at <= set.at,
        forall|i: int|
            0 <= i < j && reports_fix(cadence, track, i) ==> exists|k: int|
                0 <= k < j && set == #[trigger] track[k],
{
    let front = track.take(j);
    lemma_state_after_track(cadence, front);
    let k = last_report(cadence, front);
    assert forall|i: int| 0 <= i < j && reports_fix(cadence, track, i) implies i <= k by {
        lemma_prefix_decides(cadence, track, j, i);
    }
    if k >= 0 {
        assert(front[k] == track[k]);
        assert(track[k].at <= track[j].at);
        assert forall|i: int| 0 <= i < j && reports_fix(cadence, track, i) implies (
        #[trigger] track[i]).at <= track[k].at by {
            lemma_prefix_decides(cadence, track, j, i);
            assert(i <= k);
        }
        track[k]
    } else {
        assert(since <= track[j].at);
        Fix { at: since, lat: cadence.prev_lat, long: cadence.prev_long }
    }
}

/// A vessel that lies still is reported at most once per window of the
/// anchor interval: on a track that stays at one position, two fixes that
/// are both reported fall into different anchor windows.
pub proof fn lemma_still_vessel_at_most_once_per_anchor_window(
    cadence: Cadence,
    since: int,
    track: Seq<Fix>,
    lat: int,
    long: int,
    i: int,
    j: int,
)
    requires
        set_at(cadence, since),
        in_time_order(since, track),
        stays_at(track, lat, long),
        0 <= i < j < track.len(),
        reports_fix(cadence, track, i),
        reports_fix(cadence, track, j),
    ensures
        anchor_window(cadence, track[i].at) < anchor_window(cadence, track[j].at),
{
    let set = lemma_state_before_fix(cadence, since, track, j);
    let k = choose|k: int| 0 <= k < j && set == #[trigger] track[k];
    assert(!moved(lat, long, set.lat, set.long));
    lemma_deadline_reached_in_later_window(
        whole_seconds(set.at),
        whole_seconds(track[j].at),
        cadence.location_anchor_interval,
    );
    assert(track[i].at <= set.at);
    lemma_windows_follow_time(track[i].at, set.at, cadence.location_anchor_interval);
}

/// A vessel that lies still is reported at least once per window of the
/// anchor interval in which a fix arrives: on a track that stays where the
/// vessel was reported last, the first fix of every anchor window after that
/// of `since` is reported.
pub proof fn lemma_still_vessel_once_per_anchor_window(
    cadence: Cadence,
    since: int,
    track: Seq<Fix>,
    j: int,
)
    requires
        set_at(cadence, since),
        in_time_order(since, track),
        0 <= j < track.len(),
        anchor_window(cadence, since) < anchor_window(cadence, track[j].at),
        forall|i: int|
            0 <= i < j ==> anchor_window(cadence, (#[trigger] track[i]).at) < anchor_window(
                cadence,
                track[j].at,
            ),
    ensures
        reports_fix(cadence, track, j),
{
    let set = lemma_state_before_fix(cadence, since, track, j);
    lemma_deadline_reached_in_later_window(
        whole_seconds(set.at),
        whole_seconds(track[j].at),
        cadence.location_anchor_interval,
    );
}

/// No vessel is reported twice in one window of the regular interval, where
/// the anchor interval is a whole multiple of the regular one: two fixes of
/// a track that are both reported fall into different regular windows.
pub proof fn lemma_at_most_once_per_regular_window(
    cadence: Cadence,
    since: int,
    track: Seq<Fix>,
    i: int,
    j: int,
)
    requires
        set_at(cadence, since),
        cadence.location_anchor_interval % cadence.location_interval == 0,
        in_time_order(since, track),
        0 <= i < j < track.len(),
        reports_fix(cadence, track, i),
        reports_fix(cadence, track, j),
    ensures
        regular_window(cadence, track[i].at) < regular_window(cadence, track[j].at),
{
    let set = lemma_state_before_fix(cadence, since, track, j);
    let set_secs = whole_seconds(set.at);
    let now_secs = whole_seconds(track[j].at);
    lemma_deadline_reached_in_later_window(set_secs, now_secs, cadence.location_interval);
    lemma_deadline_reached_in_later_window(set_secs, now_secs, cadence.location_anchor_interval);
    if window(now_secs, cadence.location_anchor_interval) > window(
        set_secs,
        cadence.location_anchor_interval,
    ) {
        lemma_later_window_of_multiple(
            set_secs,
            now_secs,
            cadence.location_interval,
            cadence.location_anchor_interval,
        );
    }
    assert(track[i].at <= set.at);
    lemma_windows_follow_time(track[i].at, set.at, cadence.location_interval);
}

/// A vessel under way is reported at least once per window of the regular
/// interval in which a fix arrives: the first fix of every regular window
/// after that of `since` is reported, where it has moved away from the
/// position the scheduler began with and from every fix before it.
pub proof fn lemma_moving_vessel_once_per_regular_window(
    cadence: Cadence,
    since: int,
    track: Seq<Fix>,
    j: int,
)
    requires
        set_at(cadence, since),
        in_time_order(since, track),
        0 <= j < track.len(),
        moved(track[j].lat, track[j].long, cadence.prev_lat, cadence.prev_long),
        forall|i: int|
            0 <= i < j ==> moved(
                track[j].lat,
                track[j].long,
                (#[trigger] track[i]).lat,
                track[i].long,
            ),
        regular_window(cadence, since) < regular_window(cadence, track[j].at),
        forall|i: int|
            0 <= i < j ==> regular_window(cadence, (#[trigger] track[i]).at) < regular_window(
                cadence,
                track[j].at,
            ),
    ensures
        reports_fix(cadence, track, j),
{
    let set = lemma_state_before_fix(cadence, since, track, j);
    lemma_deadline_reached_in_later_window(
        whole_seconds(set.at),
        whole_seconds(track[j].at),
        cadence.location_interval,
    );
}

} // verus!
