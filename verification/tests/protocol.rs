use lofi::protocol::{DecodeError, Frame, MessageKind, MAGIC, WIRE_LEN};

#[test]
fn round_trips() {
    let frame = Frame {
        kind: MessageKind::Sync,
        node_id: 7,
        root_id: 1,
        sequence: 42,
        root_time_us: 123_456,
        beat_period_us: 500_000,
        flags: 0,
    };
    assert_eq!(Frame::decode(&frame.encode()), Ok(frame));
}

#[test]
fn frame_errors_are_reported_in_order() {
    let frame = Frame {
        kind: MessageKind::Beat,
        node_id: 1,
        root_id: 1,
        sequence: 1,
        root_time_us: -1,
        beat_period_us: 1,
        flags: 7,
    };
    let bytes = frame.encode();
    assert_eq!(&bytes[..4], &MAGIC);
    assert_eq!(bytes[5], 2);
    assert_eq!(Frame::decode(&bytes[..WIRE_LEN - 1]), Err(DecodeError::Length));
    let mut bad = bytes;
    bad[0] = b'X';
    assert_eq!(Frame::decode(&bad), Err(DecodeError::Magic));
    let mut bad = bytes;
    bad[4] = 9;
    assert_eq!(Frame::decode(&bad), Err(DecodeError::Version));
    let mut bad = bytes;
    bad[5] = 3;
    assert_eq!(Frame::decode(&bad), Err(DecodeError::Kind));
}
