use siodb::framing::read_message;
use siodb::framing::write_message;
use siodb::framing::BEGIN_SESSION_REQUEST;
use siodb::framing::BEGIN_SESSION_RESPONSE;
use siodb::framing::CLIENT_AUTHENTICATION_REQUEST;
use siodb::framing::CLIENT_AUTHENTICATION_RESPONSE;
use siodb::framing::COMMAND;
use siodb::framing::SERVER_RESPONSE;
use siodb::ErrorKind;

fn protobuf_frame(message_type: u32, body: &[u8]) -> Vec<u8> {
    let mut out = Vec::new();
    {
        let mut stream = protobuf::CodedOutputStream::vec(&mut out);
        stream.write_raw_varint32(message_type).unwrap();
        stream.write_raw_varint32(body.len() as u32).unwrap();
        stream.write_raw_bytes(body).unwrap();
        stream.flush().unwrap();
    }
    out
}

#[test]
fn message_types_are_those_of_the_protocol() {
    assert_eq!(COMMAND, 1);
    assert_eq!(SERVER_RESPONSE, 2);
    assert_eq!(BEGIN_SESSION_REQUEST, 5);
    assert_eq!(BEGIN_SESSION_RESPONSE, 6);
    assert_eq!(CLIENT_AUTHENTICATION_REQUEST, 7);
    assert_eq!(CLIENT_AUTHENTICATION_RESPONSE, 8);
}

#[test]
fn frame_is_type_length_body() {
    let frame = write_message(1, b"abc").unwrap();
    assert_eq!(frame, vec![0x01, 0x03, b'a', b'b', b'c']);
}

#[test]
fn frame_of_an_empty_body() {
    let frame = write_message(5, b"").unwrap();
    assert_eq!(frame, vec![0x05, 0x00]);
    assert_eq!(read_message(5, &frame).unwrap(), Some((Vec::new(), 2)));
}

#[test]
fn frame_with_long_varints() {
    let body = vec![0x5a_u8; 200];
    let frame = write_message(300, &body).unwrap();
    assert_eq!(&frame[..4], &[0xac, 0x02, 0xc8, 0x01]);
    assert_eq!(frame.len(), 204);
    assert_eq!(frame, protobuf_frame(300, &body));
    assert_eq!(read_message(300, &frame).unwrap(), Some((body, 204)));
}

#[test]
fn frame_round_trip() {
    for message_type in [0_u32, 1, 2, 8, 127, 128, 16383, 16384, u32::MAX] {
        for len in [0_usize, 1, 127, 128, 1000] {
            let body: Vec<u8> = (0..len).map(|i| (i * 7 + 3) as u8).collect();
            let frame = write_message(message_type, &body).unwrap();
            assert_eq!(frame, protobuf_frame(message_type, &body));
            let read = read_message(message_type, &frame).unwrap();
            assert_eq!(read, Some((body, frame.len())));
        }
    }
}

#[test]
fn frame_is_read_with_bytes_after_it() {
    let mut input = write_message(2, b"hello").unwrap();
    let frame_len = input.len();
    input.extend_from_slice(&[0x09, 0x08, 0x07]);
    assert_eq!(read_message(2, &input).unwrap(), Some((b"hello".to_vec(), frame_len)));
}

#[test]
fn frame_of_another_type_is_a_protocol_error() {
    let frame = write_message(6, b"xyz").unwrap();
    let e = read_message(8, &frame).unwrap_err();
    assert_eq!(e.kind(), ErrorKind::Protocol);
}

#[test]
fn wrong_type_is_told_before_the_body_arrives() {
    let e = read_message(2, &[0x06]).unwrap_err();
    assert_eq!(e.kind(), ErrorKind::Protocol);
}

#[test]
fn every_proper_prefix_of_a_frame_is_incomplete() {
    let frame = write_message(2, &vec![0x11_u8; 300]).unwrap();
    for cut in 0..frame.len() {
        assert_eq!(read_message(2, &frame[..cut]).unwrap(), None, "cut at {}", cut);
    }
    assert!(read_message(2, &frame).unwrap().is_some());
}

#[test]
fn ten_continuation_bytes_are_a_protocol_error() {
    let e = read_message(1, &[0x80; 10]).unwrap_err();
    assert_eq!(e.kind(), ErrorKind::Protocol);
    let mut input = vec![0x01];
    input.extend_from_slice(&[0xff; 10]);
    let e = read_message(1, &input).unwrap_err();
    assert_eq!(e.kind(), ErrorKind::Protocol);
}

#[test]
fn nine_continuation_bytes_wait_for_more() {
    assert_eq!(read_message(1, &[0x80; 9]).unwrap(), None);
}

#[test]
fn message_type_is_the_low_32_bits_of_its_varint() {
    // 2^32 + 2, in five groups of seven bits.
    let input = [0x82, 0x80, 0x80, 0x80, 0x10, 0x01, 0xaa];
    assert_eq!(read_message(2, &input).unwrap(), Some((vec![0xaa], 7)));
}

#[test]
fn body_longer_than_the_input_waits_for_more() {
    // Length 2^63: no input can hold it.
    let input = [0x02, 0x80, 0x80, 0x80, 0x80, 0x80, 0x80, 0x80, 0x80, 0x80, 0x01, 0x00];
    assert_eq!(read_message(2, &input).unwrap(), None);
}
