use salticidae::checksum::{check_sum, verify_checksum};
use salticidae::{Error, Header};

#[test]
fn test_check_sum_known_digest() {
    // The digest of "hello" starts aa f4 c6 1d; the checksum is that prefix.
    assert_eq!(check_sum(b"hello"), [0xaa, 0xf4, 0xc6, 0x1d]);
}

#[test]
fn test_check_sum_empty_payload() {
    // The digest of the empty input starts da 39 a3 ee.
    assert_eq!(check_sum(b""), [0xda, 0x39, 0xa3, 0xee]);
}

#[test]
fn test_check_sum_deterministic() {
    let first = check_sum(b"some payload bytes");
    let second = check_sum(b"some payload bytes");
    assert_eq!(first, second);
}

#[test]
fn test_check_sum_changes_with_payload() {
    assert_ne!(check_sum(b"payload a"), check_sum(b"payload b"));
}

#[test]
fn test_verify_checksum_accepts_matching() {
    let payload = b"greetings";
    let header = Header {
        magic: 0,
        opcode: 2,
        length: payload.len() as u32,
        check_sum: check_sum(payload),
    };
    assert_eq!(verify_checksum(&header, payload), Ok(()));
}

#[test]
fn test_verify_checksum_rejects_mismatch() {
    let payload = b"greetings";
    let mut wrong = check_sum(payload);
    wrong[0] ^= 0x01;
    let header = Header {
        magic: 0,
        opcode: 2,
        length: payload.len() as u32,
        check_sum: wrong,
    };
    assert_eq!(verify_checksum(&header, payload), Err(Error::InvalidChecksum));
}
