use salticidae::checksum::check_sum;
use salticidae::stream::MemTransport;
use salticidae::{Deserializable, Error, Message, Stream};

#[test]
fn test_end_to_end_round_trip() {
    let mut transport = MemTransport::new();
    let original = Message::Hello {
        name: "alice".to_string(),
        text: "Hello there!".to_string(),
    };
    transport.write_message(&original, 0).unwrap();
    let (header, received_bytes) = transport.read_message().unwrap();
    assert_eq!(header.opcode, 0);
    assert_eq!(header.length as usize, received_bytes.len());
    assert_eq!(Message::deserialize(&received_bytes, header.opcode), original);
}

#[test]
fn test_wire_format_hello_payload() {
    // One frame for payload "hello" under opcode 7: the header is the zero
    // magic, the opcode, the little-endian payload length, and the first
    // four digest bytes of "hello"; the payload follows verbatim.
    let mut transport = MemTransport::new();
    transport.write_frame(7, b"hello").unwrap();
    let mut expected = vec![0u8, 0, 0, 0, 7, 5, 0, 0, 0, 0xaa, 0xf4, 0xc6, 0x1d];
    expected.extend_from_slice(b"hello");
    assert_eq!(transport.sent, expected);

    let (header, payload) = transport.read_message().unwrap();
    assert_eq!(header.opcode, 7);
    assert_eq!(header.length, 5);
    assert_eq!(payload, b"hello");
}

#[test]
fn test_two_frames_in_order() {
    let mut transport = MemTransport::new();
    transport.write_frame(1, b"first").unwrap();
    transport.write_frame(2, b"second").unwrap();
    let (first_header, first_payload) = transport.read_message().unwrap();
    let (second_header, second_payload) = transport.read_message().unwrap();
    assert_eq!((first_header.opcode, first_payload), (1, b"first".to_vec()));
    assert_eq!((second_header.opcode, second_payload), (2, b"second".to_vec()));
    assert_eq!(transport.read_message(), Err(Error::StreamClosed));
}

#[test]
fn test_unrecognized_opcode_is_delivered() {
    // The framing layer has no notion of an unknown opcode: it delivers the
    // raw pair and leaves interpretation to the caller's codec.
    let mut transport = MemTransport::new();
    transport.write_frame(250, b"xyz").unwrap();
    let (header, payload) = transport.read_message().unwrap();
    assert_eq!(header.opcode, 250);
    assert_eq!(payload, b"xyz");
}

#[test]
fn test_corruption_detected() {
    let mut transport = MemTransport::new();
    transport.write_frame(3, b"precious data").unwrap();
    // Flip a single bit inside the payload portion.
    transport.sent[15] ^= 0x20;
    assert_eq!(transport.read_message(), Err(Error::InvalidChecksum));
}

#[test]
fn test_corruption_detected_any_payload_bit() {
    for bit_position in 0..(8 * 5) {
        let mut transport = MemTransport::new();
        transport.write_frame(9, b"hello").unwrap();
        transport.sent[13 + bit_position / 8] ^= 1 << (bit_position % 8);
        assert_eq!(transport.read_message(), Err(Error::InvalidChecksum));
    }
}

#[test]
fn test_clean_close() {
    let mut transport = MemTransport::new();
    assert_eq!(transport.read_message(), Err(Error::StreamClosed));
}

#[test]
fn test_truncated_header() {
    let mut transport = MemTransport::new();
    transport.write_all(&[0u8, 0, 0, 0, 7]).unwrap();
    match transport.read_message() {
        Err(Error::IOError { .. }) => {}
        other => panic!("expected an IOError, got {:?}", other),
    }
}

#[test]
fn test_truncated_payload() {
    // A valid header declares five payload bytes, but the peer closes after
    // three: that is an IOError, not a clean close.
    let mut transport = MemTransport::new();
    let header = salticidae::Header {
        magic: 0,
        opcode: 1,
        length: 5,
        check_sum: check_sum(b"abcde"),
    };
    transport.write_all(&header.encode()).unwrap();
    transport.write_all(b"abc").unwrap();
    match transport.read_message() {
        Err(Error::IOError { .. }) => {}
        other => panic!("expected an IOError, got {:?}", other),
    }
}

#[test]
fn test_empty_payload_frame() {
    let mut transport = MemTransport::new();
    transport.write_frame(1, b"").unwrap();
    let (header, payload) = transport.read_message().unwrap();
    assert_eq!(header.length, 0);
    assert_eq!(payload, Vec::<u8>::new());
}
