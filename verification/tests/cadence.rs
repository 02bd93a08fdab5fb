use ais_forwarder::cadence::next_deadline;
use ais_forwarder::cadence::CadenceState;
use ais_forwarder::cadence::RMC_MESSAGE_TIMEOUT;
use ais_forwarder::clock::seconds_of;
use ais_forwarder::clock::NANOS_PER_SEC;

const S: u64 = 1_000_000_000;

#[test]
fn seconds_of_drops_the_fraction() {
    assert_eq!(NANOS_PER_SEC, 1_000_000_000);
    assert_eq!(seconds_of(0), 0);
    assert_eq!(seconds_of(999_999_999), 0);
    assert_eq!(seconds_of(1_000_000_000), 1);
    assert_eq!(seconds_of(u64::MAX), 18_446_744_073);
}

#[test]
fn deadline_is_the_next_grid_boundary() {
    assert_eq!(next_deadline(1000 * S, 600), 1200);
    assert_eq!(next_deadline(1199 * S + 999_999_999, 600), 1200);
    assert_eq!(next_deadline(1000 * S, 86400), 86400);
    assert_eq!(next_deadline(0, 600), 600);
    assert_eq!(next_deadline(1_700_000_123 * S, 600), 1_700_000_400);
    assert_eq!(next_deadline(1_700_000_123 * S, 86400), 1_700_006_400);
}

#[test]
fn deadline_on_a_boundary_is_one_interval_later() {
    assert_eq!(next_deadline(1200 * S, 600), 1800);
    assert_eq!(next_deadline(86400 * S, 86400), 172_800);
}

#[test]
fn deadline_with_interval_one_is_the_next_second() {
    assert_eq!(next_deadline(41 * S + 5, 1), 42);
}

#[test]
fn deadline_does_not_overflow_with_the_largest_interval() {
    assert_eq!(next_deadline(u64::MAX, u64::MAX), u64::MAX as u128);
    assert_eq!(next_deadline(5 * S, u64::MAX), u64::MAX as u128);
}

#[test]
fn new_scheduler_aligns_both_deadlines() {
    let state = CadenceState::new(600, 86400, 1_700_000_123 * S);
    assert_eq!(state.next_location(), 1_700_000_400);
    assert_eq!(state.next_location_anchor(), 1_700_006_400);
    assert_eq!(state.last_position(), (0, 0));
    assert_eq!(state.next_location_system_time(1000 * S), 1200);
    assert_eq!(state.next_location_anchor_system_time(1000 * S), 86400);
}

#[test]
fn nothing_is_reported_before_the_regular_deadline() {
    let mut state = CadenceState::new(600, 86400, 1000 * S);
    assert!(!state.check_location(1100 * S, 520_000_000, 40_000_000));
    assert!(!state.check_location(1199 * S + 999_999_999, 520_000_000, 40_000_000));
    assert_eq!(state.next_location(), 1200);
    assert_eq!(state.last_position(), (0, 0));
}

#[test]
fn moving_vessel_is_reported_at_the_regular_deadline() {
    let mut state = CadenceState::new(600, 86400, 1000 * S);
    assert!(state.check_location(1200 * S, 520_000_000, 40_000_000));
    assert_eq!(state.last_position(), (520_000_000, 40_000_000));
    assert_eq!(state.next_location(), 1800);
    assert_eq!(state.next_location_anchor(), 86400);
}

#[test]
fn moving_vessel_is_reported_once_per_regular_window() {
    let mut state = CadenceState::new(600, 86400, 0);
    let mut reports = 0;
    let mut lat: i64 = 520_000_000;
    // one fix every 10 seconds for an hour, each 0.002 degrees on
    for tick in 0..360u64 {
        lat += 20_000;
        if state.check_location((600 + tick * 10) * S, lat, 40_000_000) {
            reports += 1;
        }
    }
    assert_eq!(reports, 6);
}

#[test]
fn stationary_vessel_waits_for_the_anchor_deadline() {
    let mut state = CadenceState::new(600, 86400, 1000 * S);
    assert!(state.check_location(1200 * S, 520_000_000, 40_000_000));
    assert!(!state.check_location(1800 * S, 520_000_000, 40_000_000));
    assert!(!state.check_location(86399 * S + 999_999_999, 520_000_000, 40_000_000));
    assert!(state.check_location(86400 * S, 520_000_000, 40_000_000));
    assert_eq!(state.next_location(), 87000);
    assert_eq!(state.next_location_anchor(), 172_800);
}

#[test]
fn stationary_vessel_is_reported_once_per_anchor_window() {
    let mut state = CadenceState::new(600, 86400, 0);
    assert!(state.check_location(86400 * S, 520_000_000, 40_000_000));
    let mut reports = 0;
    // one fix every five minutes for three days, always the same position
    for tick in 1..=864u64 {
        if state.check_location((86400 + tick * 300) * S, 520_000_000, 40_000_000) {
            reports += 1;
        }
    }
    assert_eq!(reports, 3);
}

#[test]
fn drifting_less_than_the_threshold_counts_as_stationary() {
    let mut state = CadenceState::new(600, 86400, 1000 * S);
    assert!(state.check_location(1200 * S, 520_000_000, 40_000_000));
    assert!(!state.check_location(1800 * S, 520_010_000, 40_010_000));
    assert!(state.check_location(1800 * S, 520_010_001, 40_000_000));
}

#[test]
fn motion_is_measured_from_the_last_reported_position() {
    let mut state = CadenceState::new(600, 86400, 1000 * S);
    assert!(state.check_location(1200 * S, 520_000_000, 40_000_000));
    // creeps on by 0.0006 degrees per fix; not reported before the deadline
    assert!(!state.check_location(1300 * S, 520_006_000, 40_000_000));
    assert!(!state.check_location(1400 * S, 520_012_000, 40_000_000));
    assert_eq!(state.last_position(), (520_000_000, 40_000_000));
    // 0.0012 degrees from the reported position, though 0.0006 from the last fix
    assert!(state.check_location(1800 * S, 520_012_000, 40_000_000));
}

#[test]
fn anchor_deadline_reports_without_motion() {
    let mut state = CadenceState::new(600, 86400, 86000 * S);
    assert!(state.check_location(86400 * S, 0, 0));
}

#[test]
fn position_fix_corroborates_for_thirty_seconds() {
    assert_eq!(RMC_MESSAGE_TIMEOUT, 30 * S);
    let mut state = CadenceState::new(600, 86400, 1000 * S);
    assert!(!state.corroborates(1000 * S));
    state.note_position_fix(1000 * S);
    assert!(state.corroborates(1000 * S));
    assert!(state.corroborates(1030 * S - 1));
    assert!(!state.corroborates(1030 * S));
    assert!(!state.corroborates(2000 * S));
}

#[test]
fn corroboration_does_not_overflow_at_the_end_of_time() {
    let mut state = CadenceState::new(600, 86400, 0);
    state.note_position_fix(u64::MAX);
    assert!(state.corroborates(u64::MAX));
}

#[test]
fn noting_a_fix_leaves_the_deadlines() {
    let mut state = CadenceState::new(600, 86400, 1000 * S);
    state.note_position_fix(5000 * S);
    assert_eq!(state.next_location(), 1200);
    assert_eq!(state.next_location_anchor(), 86400);
    assert_eq!(state.last_position(), (0, 0));
}
