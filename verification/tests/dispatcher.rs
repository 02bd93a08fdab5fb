use ais_forwarder::dispatcher::Dispatch;
use ais_forwarder::dispatcher::Dispatcher;
use ais_forwarder::endpoint::NetworkEndpoint;
use ais_forwarder::endpoint::Protocol;
use ais_forwarder::endpoint::SendAction;
use ais_forwarder::fanout::FanOutStep;
use ais_forwarder::message::DecodeOutcome;
use ais_forwarder::message::DecodedMessage;
use ais_forwarder::rate_limit::LastSent;

const S: u64 = 1_000_000_000;

fn dispatcher_at(now: u64) -> Dispatcher {
    Dispatcher::new(Vec::new(), 60, 600, 86400, now)
}

fn report(mmsi: u32, lat: i64, long: i64, own_vessel: bool) -> DecodeOutcome {
    DecodeOutcome::Complete(DecodedMessage::VesselDynamicData {
        mmsi,
        latitude: Some(lat),
        longitude: Some(long),
        own_vessel,
    })
}

fn fix(lat: i64, long: i64) -> DecodeOutcome {
    DecodeOutcome::Complete(DecodedMessage::PositionFix {
        latitude: Some(lat),
        longitude: Some(long),
    })
}

fn nothing() -> Dispatch {
    Dispatch { broadcast: None, report_location: false }
}

#[test]
fn new_dispatcher_holds_nothing() {
    let dispatcher = dispatcher_at(1000 * S);
    assert_eq!(dispatcher.fragments().pending(), 0);
    assert_eq!(dispatcher.last_sent().interval(), 60);
    assert_eq!(dispatcher.last_sent().last_sent(1), None);
    assert_eq!(dispatcher.location().next_location(), 1200);
    assert_eq!(dispatcher.location().next_location_anchor(), 86400);
    assert_eq!(dispatcher.ais().len(), 0);
}

#[test]
fn report_of_another_vessel_is_broadcast_and_not_reported() {
    let mut dispatcher = dispatcher_at(1000 * S);
    let dispatch = dispatcher.handle_line("!AIVDM,A", &report(7, 520_000_000, 40_000_000, false), 5 * S, 2000 * S);
    assert_eq!(dispatch, Dispatch { broadcast: Some(b"!AIVDM,A".to_vec()), report_location: false });
    assert_eq!(dispatcher.location().next_location(), 1200);
}

#[test]
fn second_report_within_the_interval_is_not_broadcast() {
    let mut dispatcher = dispatcher_at(1000 * S);
    let first = dispatcher.handle_line("!AIVDM,A", &report(7, 520_000_000, 40_000_000, false), 100 * S, 2000 * S);
    assert_eq!(first.broadcast, Some(b"!AIVDM,A".to_vec()));
    let second = dispatcher.handle_line("!AIVDM,B", &report(7, 520_000_100, 40_000_000, false), 159 * S, 2059 * S);
    assert_eq!(second, nothing());
    let third = dispatcher.handle_line("!AIVDM,C", &report(7, 520_000_200, 40_000_000, false), 160 * S, 2060 * S);
    assert_eq!(third.broadcast, Some(b"!AIVDM,C".to_vec()));
}

#[test]
fn fragments_are_broadcast_with_the_line_that_completes_them() {
    let mut dispatcher = dispatcher_at(1000 * S);
    assert_eq!(dispatcher.handle_line("!AIVDM,2,1,", &DecodeOutcome::Incomplete, 1 * S, 1001 * S), nothing());
    assert_eq!(dispatcher.fragments().pending(), 11);
    let dispatch = dispatcher.handle_line("!AIVDM,2,2,", &report(7, 1, 1, false), 2 * S, 1002 * S);
    assert_eq!(dispatch.broadcast, Some(b"!AIVDM,2,1,!AIVDM,2,2,".to_vec()));
    assert_eq!(dispatcher.fragments().pending(), 0);
}

#[test]
fn failed_line_drops_the_fragments_and_nothing_else() {
    let mut dispatcher = dispatcher_at(1000 * S);
    dispatcher.handle_line("!AIVDM,2,1,", &DecodeOutcome::Incomplete, 1 * S, 1001 * S);
    assert_eq!(dispatcher.handle_line("x", &DecodeOutcome::Failed, 2 * S, 1002 * S), nothing());
    assert_eq!(dispatcher.fragments().pending(), 0);
    let dispatch = dispatcher.handle_line("!AIVDM,1,1,", &report(7, 1, 1, false), 3 * S, 1003 * S);
    assert_eq!(dispatch.broadcast, Some(b"!AIVDM,1,1,".to_vec()));
}

#[test]
fn every_complete_message_clears_the_fragments() {
    let mut dispatcher = dispatcher_at(1000 * S);
    dispatcher.handle_line("!AIVDM,2,1,", &DecodeOutcome::Incomplete, 1 * S, 1001 * S);
    let other = DecodeOutcome::Complete(DecodedMessage::Other);
    assert_eq!(dispatcher.handle_line("$GPGGA", &other, 2 * S, 1002 * S), nothing());
    assert_eq!(dispatcher.fragments().pending(), 0);
}

#[test]
fn position_at_the_origin_is_ignored() {
    let mut dispatcher = dispatcher_at(1000 * S);
    // far past both deadlines, first sighting of the vessel, own vessel
    assert_eq!(dispatcher.handle_line("$GPRMC", &fix(0, 0), 1 * S, 200_000 * S), nothing());
    assert_eq!(dispatcher.handle_line("!AIVDO", &report(7, 0, 0, true), 2 * S, 200_001 * S), nothing());
    assert_eq!(dispatcher.last_sent().last_sent(7), None);
    assert_eq!(dispatcher.location().next_location(), 1200);
    assert_eq!(dispatcher.location().next_location_anchor(), 86400);
    assert_eq!(dispatcher.location().last_position(), (0, 0));
}

#[test]
fn message_without_position_is_ignored() {
    let mut dispatcher = dispatcher_at(1000 * S);
    let no_position = DecodeOutcome::Complete(DecodedMessage::VesselDynamicData {
        mmsi: 7,
        latitude: None,
        longitude: Some(5),
        own_vessel: false,
    });
    assert_eq!(dispatcher.handle_line("!AIVDM", &no_position, 1 * S, 200_000 * S), nothing());
    assert_eq!(dispatcher.last_sent().last_sent(7), None);
}

#[test]
fn static_data_carries_no_position_and_is_not_broadcast() {
    let mut dispatcher = dispatcher_at(1000 * S);
    let static_data = DecodeOutcome::Complete(DecodedMessage::VesselStaticData { mmsi: 7 });
    assert_eq!(dispatcher.handle_line("!AIVDM", &static_data, 1 * S, 2000 * S), nothing());
    assert_eq!(dispatcher.last_sent().last_sent(7), None);
}

#[test]
fn position_fix_is_reported_and_never_broadcast() {
    let mut dispatcher = dispatcher_at(1000 * S);
    let dispatch = dispatcher.handle_line("$GPRMC", &fix(520_000_000, 40_000_000), 1 * S, 1200 * S);
    assert_eq!(dispatch, Dispatch { broadcast: None, report_location: true });
    assert_eq!(dispatcher.location().last_position(), (520_000_000, 40_000_000));
    assert_eq!(dispatcher.location().next_location(), 1800);
}

#[test]
fn position_fix_before_the_deadline_is_not_reported() {
    let mut dispatcher = dispatcher_at(1000 * S);
    assert_eq!(dispatcher.handle_line("$GPRMC", &fix(520_000_000, 40_000_000), 1 * S, 1199 * S), nothing());
}

#[test]
fn own_report_needs_a_recent_position_fix() {
    let mut dispatcher = dispatcher_at(1000 * S);
    // no position fix was seen: broadcast like any vessel, not reported
    let alone = dispatcher.handle_line("!AIVDO,A", &report(7, 520_000_000, 40_000_000, true), 1 * S, 1200 * S);
    assert_eq!(alone, Dispatch { broadcast: Some(b"!AIVDO,A".to_vec()), report_location: false });
    // a position fix without coordinates still vouches for the transponder
    let empty_fix = DecodeOutcome::Complete(DecodedMessage::PositionFix { latitude: None, longitude: None });
    assert_eq!(dispatcher.handle_line("$GPRMC", &empty_fix, 2 * S, 1201 * S), nothing());
    let vouched = dispatcher.handle_line("!AIVDO,B", &report(7, 520_000_000, 40_000_000, true), 3 * S, 1230 * S);
    assert_eq!(vouched, Dispatch { broadcast: None, report_location: true });
}

#[test]
fn own_report_is_not_believed_thirty_seconds_after_the_fix() {
    let mut dispatcher = dispatcher_at(1000 * S);
    let empty_fix = DecodeOutcome::Complete(DecodedMessage::PositionFix { latitude: None, longitude: None });
    dispatcher.handle_line("$GPRMC", &empty_fix, 2 * S, 1201 * S);
    let late = dispatcher.handle_line("!AIVDO", &report(7, 520_000_000, 40_000_000, true), 3 * S, 1231 * S);
    assert_eq!(late, Dispatch { broadcast: Some(b"!AIVDO".to_vec()), report_location: false });
}

#[test]
fn report_of_another_vessel_is_never_reported_as_location() {
    let mut dispatcher = dispatcher_at(1000 * S);
    dispatcher.handle_line("$GPRMC", &fix(1, 1), 1 * S, 1100 * S);
    let dispatch = dispatcher.handle_line("!AIVDM", &report(7, 520_000_000, 40_000_000, false), 2 * S, 200_000 * S);
    assert_eq!(dispatch, Dispatch { broadcast: Some(b"!AIVDM".to_vec()), report_location: false });
}

#[test]
fn broadcast_and_location_report_can_come_together() {
    let mut dispatcher = dispatcher_at(1000 * S);
    dispatcher.handle_line("$GPRMC", &fix(1, 1), 1 * S, 1190 * S);
    let dispatch = dispatcher.handle_line("!AIVDO", &report(7, 520_000_000, 40_000_000, true), 2 * S, 1200 * S);
    assert_eq!(dispatch, Dispatch { broadcast: Some(b"!AIVDO".to_vec()), report_location: true });
    assert_eq!(
        dispatcher.last_sent().last_sent(7),
        Some(LastSent { vessel_dynamic_data: 2_000_000_000, vessel_static_data: -58_000_000_000 })
    );
}

#[test]
fn rate_limit_and_cadence_use_their_own_clocks() {
    let mut dispatcher = dispatcher_at(1000 * S);
    dispatcher.handle_line("$GPRMC", &fix(1, 1), 0, 1100 * S);
    // the monotonic clock stands still, the wall clock jumps a day
    let first = dispatcher.handle_line("!AIVDO", &report(7, 520_000_000, 40_000_000, true), 0, 1101 * S);
    assert_eq!(first, Dispatch { broadcast: Some(b"!AIVDO".to_vec()), report_location: false });
    dispatcher.handle_line("$GPRMC", &fix(1, 1), 0, 90_000 * S);
    let second = dispatcher.handle_line("!AIVDO", &report(7, 520_000_000, 40_000_000, true), 0, 90_001 * S);
    assert_eq!(second, nothing());
}

#[test]
fn dispatcher_steers_the_broadcast() {
    let endpoints = vec![NetworkEndpoint::new(Protocol::UDP), NetworkEndpoint::new(Protocol::TCP)];
    let mut dispatcher = Dispatcher::new(endpoints, 60, 600, 86400, 0);
    assert_eq!(dispatcher.ais().len(), 2);
    assert_eq!(dispatcher.broadcast_ais(), FanOutStep::Perform { endpoint: 0, action: SendAction::Bind });
    assert_eq!(dispatcher.advance_broadcast(false), FanOutStep::Perform { endpoint: 1, action: SendAction::Connect });
    assert_eq!(dispatcher.advance_broadcast(true), FanOutStep::Perform { endpoint: 1, action: SendAction::Write });
    assert_eq!(dispatcher.advance_broadcast(true), FanOutStep::Finished);
    assert!(dispatcher.ais().endpoint(1).unwrap().is_connected());
    assert!(!dispatcher.ais().endpoint(0).unwrap().is_bound());
}
