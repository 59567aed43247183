//! The message codec: round trips, failure cases, and agreement with the
//! ecosystem's base64 and binary encodings.

use desktus::base64::{b64_decode, b64_encode};
use desktus::codec::{decode, encode, DecodeError};
use desktus::message::Message;

#[test]
fn round_trip_small_message() {
    let m: u64 = 7;
    let s = encode(&m);
    assert_eq!(decode::<u64>(s.as_str()), Ok(7));
}

#[test]
fn round_trip_zero_and_max() {
    for m in [0u64, 1, 255, 256, u64::MAX, u64::MAX - 1, 0x0123_4567_89ab_cdef] {
        let s = encode(&m);
        assert_eq!(decode::<u64>(s.as_str()), Ok(m));
    }
}

#[test]
fn encode_is_deterministic() {
    assert_eq!(encode(&42u64), encode(&42u64));
}

#[test]
fn encode_matches_binary_then_base64() {
    // The codec's text is standard base64 over the message's little-endian
    // binary form, byte for byte what the usual crates produce.
    for m in [0u64, 5, 1 << 40, u64::MAX] {
        let bytes = bincode::serialize(&m).unwrap();
        assert_eq!(bytes, m.to_bytes());
        assert_eq!(encode(&m), base64::encode(&bytes));
    }
}

#[test]
fn decode_rejects_non_base64() {
    assert_eq!(decode::<u64>("!!!"), Err(DecodeError::NotBase64));
    assert_eq!(decode::<u64>("A"), Err(DecodeError::NotBase64));
    assert_eq!(decode::<u64>("AAA=AAA="), Err(DecodeError::NotBase64));
    assert_eq!(decode::<u64>("===="), Err(DecodeError::NotBase64));
    assert_eq!(decode::<u64>("AAAA\n"), Err(DecodeError::NotBase64));
}

#[test]
fn decode_rejects_truncated_payload() {
    // Valid base64, but the bytes are too short for the message schema.
    assert_eq!(decode::<u64>("QQ=="), Err(DecodeError::Schema));
    assert_eq!(decode::<u64>("AAAA"), Err(DecodeError::Schema));
    assert_eq!(decode::<u64>(""), Err(DecodeError::Schema));
}

#[test]
fn decode_rejects_oversized_payload() {
    // Nine bytes: one too many for the schema.
    let s = base64::encode(&[0u8; 9]);
    assert_eq!(decode::<u64>(s.as_str()), Err(DecodeError::Schema));
}

#[test]
fn base64_encode_matches_reference_crate() {
    let cases: Vec<Vec<u8>> = vec![
        vec![],
        vec![0],
        vec![255],
        vec![1, 2],
        vec![1, 2, 3],
        vec![1, 2, 3, 4],
        vec![251, 252, 253, 254, 255],
        (0..=255u8).collect(),
    ];
    for bytes in cases {
        assert_eq!(b64_encode(&bytes), base64::encode(&bytes));
    }
}

#[test]
fn base64_decode_round_trip_and_rejects() {
    let data: Vec<u8> = (0..=255u8).collect();
    let text = b64_encode(&data);
    assert_eq!(b64_decode(text.as_str()), Some(data));
    // Non-canonical padding bits: both this codec and the reference crate
    // refuse them.
    assert_eq!(b64_decode("AB=="), None);
    assert!(base64::decode("AB==").is_err());
    assert_eq!(b64_decode("AAB="), None);
    assert!(base64::decode("AAB=").is_err());
    // Canonical forms agree with the reference crate.
    assert_eq!(b64_decode("AQ==").unwrap(), base64::decode("AQ==").unwrap());
    assert_eq!(b64_decode("AQI=").unwrap(), base64::decode("AQI=").unwrap());
    assert_eq!(b64_decode("AQID").unwrap(), base64::decode("AQID").unwrap());
}

#[test]
fn message_bytes_round_trip() {
    let m: u64 = 0xdead_beef_0102_0304;
    let bytes = m.to_bytes();
    assert_eq!(bytes.len(), 8);
    assert_eq!(u64::from_bytes(&bytes), Some(m));
    assert_eq!(u64::from_bytes(&vec![1, 2, 3]), None);
}
