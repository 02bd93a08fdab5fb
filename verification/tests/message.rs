use ais_forwarder::message::DecodedMessage;

#[test]
fn dynamic_data_with_both_coordinates_has_a_position() {
    let message = DecodedMessage::VesselDynamicData {
        mmsi: 1,
        latitude: Some(-5),
        longitude: Some(7),
        own_vessel: false,
    };
    assert_eq!(message.usable_position(), Some((-5, 7)));
}

#[test]
fn position_fix_with_both_coordinates_has_a_position() {
    let message = DecodedMessage::PositionFix { latitude: Some(492_741_667), longitude: Some(-1_231_853_333) };
    assert_eq!(message.usable_position(), Some((492_741_667, -1_231_853_333)));
}

#[test]
fn one_missing_coordinate_is_no_position() {
    let no_lat = DecodedMessage::PositionFix { latitude: None, longitude: Some(7) };
    let no_long = DecodedMessage::VesselDynamicData {
        mmsi: 1,
        latitude: Some(7),
        longitude: None,
        own_vessel: true,
    };
    assert_eq!(no_lat.usable_position(), None);
    assert_eq!(no_long.usable_position(), None);
}

#[test]
fn the_origin_is_no_position() {
    let message = DecodedMessage::PositionFix { latitude: Some(0), longitude: Some(0) };
    assert_eq!(message.usable_position(), None);
}

#[test]
fn one_zero_coordinate_is_a_position() {
    let on_equator = DecodedMessage::PositionFix { latitude: Some(0), longitude: Some(1) };
    let on_meridian = DecodedMessage::PositionFix { latitude: Some(-1), longitude: Some(0) };
    assert_eq!(on_equator.usable_position(), Some((0, 1)));
    assert_eq!(on_meridian.usable_position(), Some((-1, 0)));
}

#[test]
fn static_data_and_other_messages_have_no_position() {
    assert_eq!(DecodedMessage::VesselStaticData { mmsi: 9 }.usable_position(), None);
    assert_eq!(DecodedMessage::Other.usable_position(), None);
}
