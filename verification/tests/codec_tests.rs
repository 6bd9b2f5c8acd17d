use net_common::codec::{CodecError, Message, SmallArray, TimeStamp};
use net_common::epoch::Epoch;

fn crc32_of(bytes: &[u8]) -> u32 {
    crc::Crc::<u32>::new(&crc::CRC_32_ISCSI).checksum(bytes)
}

fn sample_timestamp() -> TimeStamp {
    TimeStamp {
        epoch: Epoch { seconds: 1_700_000_000, nanoseconds: 0 },
        counter: 7,
        tick_ms: 1234,
        ntp_offset: -500_000,
        ntp_seconds: 0,
        ntp_seconds_fraction: 0,
        ntp_roundtrip: 12000,
    }
}

#[test]
fn timestamp_round_trip() {
    let msg = Message::TimeStamp(sample_timestamp());
    let frame = msg.encode(128).unwrap();
    assert_eq!(frame.len(), 60);
    let decoded = Message::decode(&frame).unwrap();
    assert_eq!(decoded, msg);
}

#[test]
fn timestamp_frame_layout() {
    let msg = Message::TimeStamp(sample_timestamp());
    let frame = msg.encode(128).unwrap();
    assert_eq!(&frame[0..4], &[0x5E, 0xA7, 0x00, 0x01]);
    assert_eq!(&frame[4..12], &1_700_000_000u64.to_le_bytes());
    assert_eq!(&frame[12..16], &0u32.to_le_bytes());
    assert_eq!(&frame[16..24], &7u64.to_le_bytes());
    assert_eq!(&frame[24..32], &1234u64.to_le_bytes());
    assert_eq!(&frame[32..40], &(-500_000i64).to_le_bytes());
    assert_eq!(&frame[48..56], &12000u64.to_le_bytes());
    let expected_crc = crc32_of(&frame[0..56]);
    assert_eq!(&frame[56..60], &expected_crc.to_le_bytes());
}

#[test]
fn array_round_trip() {
    let mut array = SmallArray { data: [0u8; 32] };
    array.data[6] = 0x23;
    array.data[31] = 0xFF;
    let msg = Message::Array(array);
    let frame = msg.encode(128).unwrap();
    assert_eq!(frame.len(), 40);
    assert_eq!(&frame[0..4], &[0x5E, 0xA7, 0x00, 0x02]);
    let decoded = Message::decode(&frame).unwrap();
    assert_eq!(decoded, msg);
}

#[test]
fn hand_built_array_frame_decodes() {
    let mut frame: Vec<u8> = vec![0x5E, 0xA7, 0x00, 0x02];
    let mut data = [0u8; 32];
    data[0] = 0xAB;
    data[15] = 0x42;
    frame.extend_from_slice(&data);
    let crc = crc32_of(&frame);
    frame.extend_from_slice(&crc.to_le_bytes());
    let decoded = Message::decode(&frame).unwrap();
    assert_eq!(decoded, Message::Array(SmallArray { data }));
}

#[test]
fn decode_short_known_header_is_truncated() {
    let bytes = [0x5E, 0xA7, 0x00, 0x01, 0x89];
    assert_eq!(Message::decode(&bytes), Err(CodecError::Truncated));
}

#[test]
fn decode_short_garbage_is_truncated() {
    let bytes = [0x12, 0x34, 0x45, 0x67, 0x89];
    assert_eq!(Message::decode(&bytes), Err(CodecError::Truncated));
    assert_eq!(Message::decode(&[]), Err(CodecError::Truncated));
}

#[test]
fn decode_foreign_traffic_is_sentinel() {
    let bytes = [0x12, 0x34, 0x45, 0x67, 0x89, 0x00, 0x11, 0x22];
    assert_eq!(Message::decode(&bytes), Ok(Message::DecodeError));
    let long = [0xFFu8; 200];
    assert_eq!(Message::decode(&long), Ok(Message::DecodeError));
}

#[test]
fn payload_corruption_is_rejected() {
    let msg = Message::TimeStamp(sample_timestamp());
    let frame = msg.encode(128).unwrap();
    for i in 4..56 {
        let mut bad = frame.clone();
        bad[i] ^= 0x01;
        assert_eq!(Message::decode(&bad), Err(CodecError::IntegrityMismatch));
    }
}

#[test]
fn trailer_bit_flips_are_rejected() {
    let msg = Message::TimeStamp(sample_timestamp());
    let frame = msg.encode(128).unwrap();
    for i in 56..60 {
        for bit in 0..8 {
            let mut bad = frame.clone();
            bad[i] ^= 1 << bit;
            assert_eq!(Message::decode(&bad), Err(CodecError::IntegrityMismatch));
        }
    }
}

#[test]
fn wrong_payload_length_is_malformed() {
    // A known header and a valid CRC over a 2-byte payload: the integrity
    // check passes but the timestamp layout wants 52 payload bytes.
    let mut frame: Vec<u8> = vec![0x5E, 0xA7, 0x00, 0x01, 0x10, 0x20];
    let crc = crc32_of(&frame);
    frame.extend_from_slice(&crc.to_le_bytes());
    assert_eq!(frame.len(), 10);
    assert_eq!(Message::decode(&frame), Err(CodecError::MalformedPayload));
}

#[test]
fn sentinel_is_unencodable() {
    assert_eq!(Message::DecodeError.encode(128), Err(CodecError::Unencodable));
}

#[test]
fn capacity_is_enforced() {
    let msg = Message::TimeStamp(sample_timestamp());
    assert_eq!(msg.encode(59), Err(CodecError::BufferFull));
    assert!(msg.encode(60).is_ok());
    let arr = Message::Array(SmallArray { data: [0u8; 32] });
    assert_eq!(arr.encode(39), Err(CodecError::BufferFull));
    assert!(arr.encode(40).is_ok());
}

#[test]
fn extreme_field_values_round_trip() {
    let msg = Message::TimeStamp(TimeStamp {
        epoch: Epoch { seconds: u64::MAX, nanoseconds: 999_999_999 },
        counter: u64::MAX,
        tick_ms: u64::MAX,
        ntp_offset: i64::MIN,
        ntp_seconds: u32::MAX,
        ntp_seconds_fraction: u32::MAX,
        ntp_roundtrip: u64::MAX,
    });
    let frame = msg.encode(128).unwrap();
    assert_eq!(Message::decode(&frame).unwrap(), msg);
}
