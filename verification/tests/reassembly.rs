use ais_forwarder::message::DecodeOutcome;
use ais_forwarder::message::DecodedMessage;
use ais_forwarder::reassembly::Reassembler;

#[test]
fn new_buffer_is_empty() {
    let buffer = Reassembler::new();
    assert_eq!(buffer.pending(), 0);
}

#[test]
fn fragment_is_kept_and_gives_no_message() {
    let mut buffer = Reassembler::new();
    assert_eq!(buffer.accept("!AIVDM,2,1,1,A,AAAA,0*00", &DecodeOutcome::Incomplete), None);
    assert_eq!(buffer.pending(), 24);
}

#[test]
fn two_fragments_give_one_message_of_both_lines() {
    let mut buffer = Reassembler::new();
    let message = DecodeOutcome::Complete(DecodedMessage::VesselStaticData { mmsi: 5 });
    assert_eq!(buffer.accept("!AIVDM,2,1,...", &DecodeOutcome::Incomplete), None);
    assert_eq!(
        buffer.accept("!AIVDM,2,2,...", &message),
        Some(b"!AIVDM,2,1,...!AIVDM,2,2,...".to_vec())
    );
    assert_eq!(buffer.pending(), 0);
}

#[test]
fn single_line_message_is_the_line() {
    let mut buffer = Reassembler::new();
    let message = DecodeOutcome::Complete(DecodedMessage::Other);
    assert_eq!(buffer.accept("$GPGGA,1", &message), Some(b"$GPGGA,1".to_vec()));
    assert_eq!(buffer.pending(), 0);
}

#[test]
fn rejected_line_discards_the_fragments() {
    let mut buffer = Reassembler::new();
    let message = DecodeOutcome::Complete(DecodedMessage::VesselStaticData { mmsi: 5 });
    assert_eq!(buffer.accept("!AIVDM,2,1,...", &DecodeOutcome::Incomplete), None);
    assert_eq!(buffer.accept("garbage", &DecodeOutcome::Failed), None);
    assert_eq!(buffer.pending(), 0);
    assert_eq!(buffer.accept("!AIVDM,1,1,...", &message), Some(b"!AIVDM,1,1,...".to_vec()));
}

#[test]
fn three_fragments_are_joined_in_order() {
    let mut buffer = Reassembler::new();
    let message = DecodeOutcome::Complete(DecodedMessage::Other);
    assert_eq!(buffer.accept("a", &DecodeOutcome::Incomplete), None);
    assert_eq!(buffer.accept("bc", &DecodeOutcome::Incomplete), None);
    assert_eq!(buffer.accept("def", &message), Some(b"abcdef".to_vec()));
}

#[test]
fn lines_beyond_ascii_keep_their_bytes() {
    let mut buffer = Reassembler::new();
    let message = DecodeOutcome::Complete(DecodedMessage::Other);
    assert_eq!(buffer.accept("é", &DecodeOutcome::Incomplete), None);
    assert_eq!(buffer.pending(), 2);
    assert_eq!(buffer.accept("ß!", &message), Some("éß!".as_bytes().to_vec()));
}

#[test]
fn empty_line_can_complete_a_message() {
    let mut buffer = Reassembler::new();
    let message = DecodeOutcome::Complete(DecodedMessage::Other);
    assert_eq!(buffer.accept("", &message), Some(Vec::new()));
}
