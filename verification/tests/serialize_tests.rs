use salticidae::{Deserializable, Message, Serializable};

#[test]
fn test_serialize_empty() {
    assert_eq!(Message::Ack {}.serialize(), []);
}

#[test]
fn test_round_trip() {
    let message = Message::Hello {
        name: "name".to_string(),
        text: "text".to_string(),
    };
    let message_bytes = message.serialize();

    println!("{:?}", message_bytes);
    assert_eq!(message, Message::deserialize(&message_bytes, 0));
}

#[test]
fn test_serialize_hello_layout() {
    let message = Message::Hello {
        name: "alice".to_string(),
        text: "hi".to_string(),
    };
    let bytes = message.serialize();
    let mut expected = vec![5u8, 0, 0, 0];
    expected.extend_from_slice(b"alice");
    expected.extend_from_slice(b"hi");
    assert_eq!(bytes, expected);
}

#[test]
fn test_round_trip_multibyte_text() {
    let message = Message::Hello {
        name: "Åse".to_string(),
        text: "påskeøl — 祝你好运".to_string(),
    };
    let message_bytes = message.serialize();
    assert_eq!(message, Message::deserialize(&message_bytes, 0));
}

#[test]
fn test_deserialize_ack_ignores_payload() {
    assert_eq!(Message::Ack {}, Message::deserialize(b"ignored", 1));
}

#[test]
fn test_try_decode_accepts_well_formed() {
    let message = Message::Hello {
        name: "bob".to_string(),
        text: "hi".to_string(),
    };
    let bytes = message.serialize();
    assert_eq!(Message::try_decode(&bytes, 0), Some(message));
}

#[test]
fn test_try_decode_rejects_unrecognized_opcode() {
    assert_eq!(Message::try_decode(b"anything", 77), None);
}

#[test]
fn test_try_decode_rejects_short_payload() {
    // Too short to even hold the name's length.
    assert_eq!(Message::try_decode(b"ab", 0), None);
}

#[test]
fn test_try_decode_rejects_overlong_name_length() {
    // The declared name length runs past the payload's end.
    let bytes = vec![200u8, 0, 0, 0, b'x', b'y'];
    assert_eq!(Message::try_decode(&bytes, 0), None);
}

#[test]
fn test_try_decode_rejects_invalid_utf8() {
    // A name of two bytes that are not valid UTF-8.
    let bytes = vec![2u8, 0, 0, 0, 0xff, 0xfe];
    assert_eq!(Message::try_decode(&bytes, 0), None);
}
