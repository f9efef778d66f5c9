use aurelius::frame::{classify, decode, DecodeError, Frame, RawFrame};

const KEY: [u8; 4] = [0x37, 0xfa, 0x21, 0x3d];

/// A masked frame as a client sends it, built by hand.
fn masked(first: u8, payload: &[u8]) -> Vec<u8> {
    let mut bytes = vec![first];
    if payload.len() <= 125 {
        bytes.push(0x80 | payload.len() as u8);
    } else {
        bytes.push(0x80 | 126);
        bytes.push((payload.len() >> 8) as u8);
        bytes.push((payload.len() & 0xff) as u8);
    }
    bytes.extend_from_slice(&KEY);
    for (i, byte) in payload.iter().enumerate() {
        bytes.push(byte ^ KEY[i % 4]);
    }
    bytes
}

fn raw(finished: bool, reserved: bool, opcode: u8, payload: &[u8]) -> RawFrame {
    RawFrame { finished, rsv1: false, rsv2: reserved, rsv3: false, opcode, payload: payload.to_vec() }
}

#[test]
fn close_is_two_bytes() {
    assert_eq!(Frame::Close.encode(), Some(vec![0x88, 0x00]));
}

#[test]
fn short_text_is_encoded_with_one_length_byte() {
    let frame = Frame::text("hi");
    assert_eq!(frame, Frame::Text(vec![b'h', b'i']));
    assert_eq!(frame.encode(), Some(vec![0x81, 0x02, b'h', b'i']));
}

#[test]
fn text_is_carried_as_utf8() {
    assert_eq!(Frame::text("é"), Frame::Text(vec![0xc3, 0xa9]));
    assert_eq!(Frame::text(""), Frame::Text(vec![]));
    assert_eq!(Frame::text("").encode(), Some(vec![0x81, 0x00]));
}

#[test]
fn longest_short_text() {
    let mut expected = vec![0x81, 125];
    expected.extend_from_slice(&[b'x'; 125]);
    assert_eq!(Frame::Text(vec![b'x'; 125]).encode(), Some(expected));
}

#[test]
fn medium_text_is_encoded_with_two_length_bytes() {
    let mut expected = vec![0x81, 126, 0x00, 0x7e];
    expected.extend_from_slice(&[b'x'; 126]);
    assert_eq!(Frame::Text(vec![b'x'; 126]).encode(), Some(expected));
    let mut expected = vec![0x81, 126, 0xff, 0xff];
    expected.extend_from_slice(&[b'y'; 65535]);
    assert_eq!(Frame::Text(vec![b'y'; 65535]).encode(), Some(expected));
}

#[test]
fn long_text_is_encoded_with_eight_length_bytes() {
    let mut expected = vec![0x81, 127, 0, 0, 0, 0, 0, 1, 0, 0];
    expected.extend_from_slice(&[b'z'; 65536]);
    assert_eq!(Frame::Text(vec![b'z'; 65536]).encode(), Some(expected));
}

#[test]
fn ping_and_pong_are_encoded_with_their_opcodes() {
    assert_eq!(Frame::Ping(vec![1, 2, 3]).encode(), Some(vec![0x89, 0x03, 1, 2, 3]));
    assert_eq!(Frame::Pong(vec![1, 2, 3]).encode(), Some(vec![0x8a, 0x03, 1, 2, 3]));
    assert_eq!(Frame::Pong(vec![7; 125]).encode().map(|bytes| bytes.len()), Some(127));
}

#[test]
fn long_control_frame_is_not_encoded() {
    assert_eq!(Frame::Ping(vec![0; 126]).encode(), None);
    assert_eq!(Frame::Pong(vec![0; 126]).encode(), None);
}

#[test]
fn encoded_text_is_read_by_a_client() {
    let bytes = Frame::text("<p>Hello world!</p>\n").encode().unwrap();
    let read = websocket::dataframe::DataFrame::read_dataframe(&mut &bytes[..], false).unwrap();
    assert!(read.finished);
    assert_eq!(read.opcode, websocket::dataframe::Opcode::Text);
    assert_eq!(String::from_utf8(read.data).unwrap(), "<p>Hello world!</p>\n");
}

#[test]
fn masked_ping_is_decoded() {
    let bytes = masked(0x89, b"hello");
    assert_eq!(bytes.len(), 11);
    assert_eq!(decode(&bytes, 1024), Ok(Some((Frame::Ping(b"hello".to_vec()), 11))));
}

#[test]
fn each_kind_is_decoded() {
    assert_eq!(decode(&masked(0x81, b"text"), 1024), Ok(Some((Frame::Text(b"text".to_vec()), 10))));
    assert_eq!(decode(&masked(0x8a, b""), 1024), Ok(Some((Frame::Pong(vec![]), 6))));
    assert_eq!(decode(&masked(0x88, b""), 1024), Ok(Some((Frame::Close, 6))));
}

#[test]
fn close_with_a_status_is_a_close() {
    assert_eq!(decode(&masked(0x88, &[0x03, 0xe8]), 1024), Ok(Some((Frame::Close, 8))));
}

#[test]
fn medium_text_is_decoded() {
    let payload = vec![b'm'; 300];
    let bytes = masked(0x81, &payload);
    assert_eq!(decode(&bytes, 1024), Ok(Some((Frame::Text(payload), 308))));
}

#[test]
fn decoding_takes_one_frame_and_leaves_the_rest() {
    let mut bytes = masked(0x89, b"one");
    bytes.extend_from_slice(&masked(0x89, b"second"));
    assert_eq!(decode(&bytes, 1024), Ok(Some((Frame::Ping(b"one".to_vec()), 9))));
    assert_eq!(decode(&bytes[9..], 1024), Ok(Some((Frame::Ping(b"second".to_vec()), 12))));
}

#[test]
fn incomplete_bytes_give_nothing_yet() {
    let bytes = masked(0x89, b"hello");
    assert_eq!(decode(&[], 1024), Ok(None));
    for end in 0..bytes.len() {
        assert_eq!(decode(&bytes[..end], 1024), Ok(None));
    }
}

#[test]
fn unmasked_frame_is_malformed() {
    assert_eq!(decode(&[0x89, 0x02, b'h', b'i'], 1024), Err(DecodeError::Malformed));
}

#[test]
fn overlong_length_encoding_is_malformed() {
    let mut bytes = vec![0x81, 0x80 | 126, 0x00, 0x05];
    bytes.extend_from_slice(&KEY);
    bytes.extend_from_slice(b"hello");
    assert_eq!(decode(&bytes, 1024), Err(DecodeError::Malformed));
}

#[test]
fn long_or_fragmented_control_frame_is_malformed() {
    assert_eq!(decode(&masked(0x89, &[0; 126]), 1024), Err(DecodeError::Malformed));
    assert_eq!(decode(&masked(0x09, b"ping"), 1024), Err(DecodeError::Malformed));
}

#[test]
fn payload_over_the_limit_is_oversized() {
    let bytes = masked(0x81, b"hello");
    assert_eq!(decode(&bytes, 4), Err(DecodeError::Oversized));
    assert_eq!(decode(&bytes, 5), Ok(Some((Frame::Text(b"hello".to_vec()), 11))));
    assert_eq!(decode(&bytes[..6], 4), Err(DecodeError::Oversized));
    assert_eq!(decode(&bytes[..4], 4), Ok(None));
}

#[test]
fn reserved_bits_are_refused() {
    assert_eq!(decode(&masked(0xc1, b"x"), 1024), Err(DecodeError::ReservedBits));
    assert_eq!(decode(&masked(0xa9, b"x"), 1024), Err(DecodeError::ReservedBits));
    assert_eq!(decode(&masked(0x92, b"x"), 1024), Err(DecodeError::ReservedBits));
}

#[test]
fn other_opcodes_are_unrecognized() {
    assert_eq!(decode(&masked(0x82, b"binary"), 1024), Err(DecodeError::Unrecognized(2)));
    assert_eq!(decode(&masked(0x80, b"more"), 1024), Err(DecodeError::Unrecognized(0)));
    assert_eq!(decode(&masked(0x83, b""), 1024), Err(DecodeError::Unrecognized(3)));
    assert_eq!(decode(&masked(0x8b, b""), 1024), Err(DecodeError::Unrecognized(11)));
}

#[test]
fn fragment_of_a_text_is_refused() {
    assert_eq!(decode(&masked(0x01, b"part"), 1024), Err(DecodeError::Fragmented));
}

#[test]
fn frame_written_by_a_client_is_decoded() {
    let frame = websocket::dataframe::DataFrame::new(
        true,
        websocket::dataframe::Opcode::Ping,
        b"keep-alive".to_vec(),
    );
    let mut bytes: Vec<u8> = Vec::new();
    websocket::ws::dataframe::DataFrame::write_to(&frame, &mut bytes, true).unwrap();
    assert_eq!(bytes.len(), 16);
    assert_eq!(decode(&bytes, 1024), Ok(Some((Frame::Ping(b"keep-alive".to_vec()), 16))));
}

#[test]
fn decoded_ping_can_be_answered() {
    let bytes = masked(0x89, &[9; 125]);
    match decode(&bytes, 1024) {
        Ok(Some((Frame::Ping(payload), 131))) => {
            assert!(Frame::Pong(payload).encode().is_some());
        },
        other => panic!("unexpected {:?}", other),
    }
}

#[test]
fn classification_follows_the_opcode() {
    assert_eq!(classify(raw(true, false, 1, b"t")), Ok(Frame::Text(b"t".to_vec())));
    assert_eq!(classify(raw(true, false, 8, b"")), Ok(Frame::Close));
    assert_eq!(classify(raw(true, false, 8, &[3, 232])), Ok(Frame::Close));
    assert_eq!(classify(raw(true, false, 9, b"p")), Ok(Frame::Ping(b"p".to_vec())));
    assert_eq!(classify(raw(true, false, 10, b"q")), Ok(Frame::Pong(b"q".to_vec())));
}

#[test]
fn classification_refuses_in_order() {
    assert_eq!(classify(raw(false, true, 2, b"")), Err(DecodeError::ReservedBits));
    assert_eq!(classify(raw(false, false, 2, b"")), Err(DecodeError::Unrecognized(2)));
    assert_eq!(classify(raw(false, false, 1, b"")), Err(DecodeError::Fragmented));
    assert_eq!(classify(raw(false, false, 9, b"")), Err(DecodeError::Fragmented));
    assert_eq!(classify(raw(true, false, 200, b"")), Err(DecodeError::Unrecognized(200)));
    let first = RawFrame { finished: true, rsv1: true, rsv2: false, rsv3: false, opcode: 1, payload: vec![] };
    assert_eq!(classify(first), Err(DecodeError::ReservedBits));
    let third = RawFrame { finished: true, rsv1: false, rsv2: false, rsv3: true, opcode: 1, payload: vec![] };
    assert_eq!(classify(third), Err(DecodeError::ReservedBits));
}
