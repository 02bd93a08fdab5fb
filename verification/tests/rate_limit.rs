use ais_forwarder::message::DecodedMessage;
use ais_forwarder::rate_limit::LastSent;
use ais_forwarder::rate_limit::RateLimiter;

const SEC: u64 = 1_000_000_000;

fn dynamic(mmsi: u32) -> DecodedMessage {
    DecodedMessage::VesselDynamicData {
        mmsi,
        latitude: Some(521_000_000),
        longitude: Some(43_000_000),
        own_vessel: false,
    }
}

fn static_data(mmsi: u32) -> DecodedMessage {
    DecodedMessage::VesselStaticData { mmsi }
}

#[test]
fn first_report_of_each_category_is_forwarded() {
    let mut limiter = RateLimiter::new(60);
    assert!(limiter.check_last_sent(&dynamic(244_660_000), 5 * SEC));
    assert!(limiter.check_last_sent(&static_data(244_660_000), 6 * SEC));
    assert!(limiter.check_last_sent(&static_data(211_000_001), 6 * SEC));
    assert!(limiter.check_last_sent(&dynamic(211_000_001), 7 * SEC));
}

#[test]
fn first_report_is_forwarded_with_the_largest_interval() {
    let mut limiter = RateLimiter::new(u64::MAX);
    assert!(limiter.check_last_sent(&dynamic(1), 0));
    assert!(limiter.check_last_sent(&static_data(1), u64::MAX));
    assert!(!limiter.check_last_sent(&dynamic(1), u64::MAX));
}

#[test]
fn reports_59_seconds_apart_give_one_forward() {
    let mut limiter = RateLimiter::new(60);
    assert!(limiter.check_last_sent(&dynamic(7), 100 * SEC));
    assert!(!limiter.check_last_sent(&dynamic(7), 159 * SEC));
}

#[test]
fn reports_61_seconds_apart_give_two_forwards() {
    let mut limiter = RateLimiter::new(60);
    assert!(limiter.check_last_sent(&dynamic(7), 100 * SEC));
    assert!(limiter.check_last_sent(&dynamic(7), 161 * SEC));
}

#[test]
fn the_interval_counts_whole_seconds() {
    let mut limiter = RateLimiter::new(60);
    assert!(limiter.check_last_sent(&dynamic(7), 100 * SEC));
    assert!(!limiter.check_last_sent(&dynamic(7), 160 * SEC - 1));
    assert!(limiter.check_last_sent(&dynamic(7), 160 * SEC));
    assert!(!limiter.check_last_sent(&dynamic(7), 160 * SEC + 1));
}

#[test]
fn a_refused_report_does_not_move_the_timer() {
    let mut limiter = RateLimiter::new(60);
    assert!(limiter.check_last_sent(&dynamic(7), 100 * SEC));
    assert!(!limiter.check_last_sent(&dynamic(7), 130 * SEC));
    assert_eq!(
        limiter.last_sent(7),
        Some(LastSent {
            vessel_dynamic_data: (100 * SEC) as i128,
            vessel_static_data: (40 * SEC) as i128,
        })
    );
    assert!(limiter.check_last_sent(&dynamic(7), 160 * SEC));
}

#[test]
fn categories_have_their_own_timers() {
    let mut limiter = RateLimiter::new(60);
    assert!(limiter.check_last_sent(&dynamic(7), 100 * SEC));
    assert!(limiter.check_last_sent(&static_data(7), 110 * SEC));
    assert!(!limiter.check_last_sent(&dynamic(7), 159 * SEC));
    assert!(limiter.check_last_sent(&dynamic(7), 160 * SEC));
    assert!(!limiter.check_last_sent(&static_data(7), 169 * SEC));
    assert!(limiter.check_last_sent(&static_data(7), 170 * SEC));
}

#[test]
fn new_record_is_backdated_by_one_interval() {
    let mut limiter = RateLimiter::new(60);
    assert_eq!(limiter.last_sent(9), None);
    assert!(limiter.check_last_sent(&static_data(9), 10 * SEC));
    assert_eq!(
        limiter.last_sent(9),
        Some(LastSent {
            vessel_dynamic_data: -((50 * SEC) as i128),
            vessel_static_data: (10 * SEC) as i128,
        })
    );
}

#[test]
fn vessels_do_not_share_timers() {
    let mut limiter = RateLimiter::new(60);
    assert!(limiter.check_last_sent(&dynamic(1), 100 * SEC));
    assert!(limiter.check_last_sent(&dynamic(2), 101 * SEC));
    assert!(!limiter.check_last_sent(&dynamic(1), 102 * SEC));
}

#[test]
fn other_messages_are_never_forwarded_by_the_limiter() {
    let mut limiter = RateLimiter::new(0);
    assert!(!limiter.check_last_sent(&DecodedMessage::Other, 100 * SEC));
    let fix = DecodedMessage::PositionFix { latitude: Some(1), longitude: Some(2) };
    assert!(!limiter.check_last_sent(&fix, 100 * SEC));
}

#[test]
fn interval_zero_forwards_everything() {
    let mut limiter = RateLimiter::new(0);
    assert_eq!(limiter.interval(), 0);
    assert!(limiter.check_last_sent(&dynamic(1), 100));
    assert!(limiter.check_last_sent(&dynamic(1), 100));
    assert!(limiter.check_last_sent(&dynamic(1), 50));
}

#[test]
fn a_clock_that_runs_backwards_counts_as_no_time_passed() {
    let mut limiter = RateLimiter::new(1);
    assert!(limiter.check_last_sent(&dynamic(1), 100 * SEC));
    assert!(!limiter.check_last_sent(&dynamic(1), 50 * SEC));
}
