use rf_telemetry::codec::{decode_espnow, decode_frame, encode_espnow, encode_frame, ESP_NOW_VENDOR_ID};
use rf_telemetry::frame::{DecodeError, Payload, TelemetryFrame};
use rf_telemetry::gwlink::{decode_gw_espnow, encode_gw_espnow, GW_LINK_VENDOR_ID};
use rf_telemetry::replay::ReplayGuard;
use rf_telemetry::uart::split_cobs_frames;

/// Postcard bytes of a telemetry frame, written field by field in the order
/// the serialized form has them (an enum is its variant index, then fields).
fn frame_payload(frame: &TelemetryFrame) -> Vec<u8> {
    match frame.payload {
        Payload::BoolCmd(b) => postcard::to_allocvec(&(frame.seq, frame.timestamp_ms, frame.node_id, 0u32, b)).unwrap(),
        Payload::ByteCmd(v) => postcard::to_allocvec(&(frame.seq, frame.timestamp_ms, frame.node_id, 1u32, v)).unwrap(),
    }
}

fn frame_from_payload(bytes: &[u8]) -> TelemetryFrame {
    let (seq, timestamp_ms, node_id, variant, rest): (u32, u64, u8, u32, u8) = postcard::from_bytes(bytes).unwrap();
    let payload = match variant {
        0 => Payload::BoolCmd(rest == 1),
        _ => Payload::ByteCmd(rest),
    };
    TelemetryFrame { seq, timestamp_ms, node_id, payload }
}

#[test]
fn test_roundtrip() {
    let frame = TelemetryFrame {
        seq: 42,
        timestamp_ms: 1234567890,
        node_id: 0xAB,
        payload: Payload::BoolCmd(true),
    };

    let encoded = encode_frame(&frame_payload(&frame));
    let decoded = frame_from_payload(&decode_frame(&encoded).unwrap());
    assert_eq!(frame, decoded);
}

#[test]
fn test_false_roundtrip() {
    let frame = TelemetryFrame {
        seq: 1,
        timestamp_ms: 0,
        node_id: 0x01,
        payload: Payload::BoolCmd(false),
    };

    let encoded = encode_frame(&frame_payload(&frame));
    let decoded = frame_from_payload(&decode_frame(&encoded).unwrap());
    assert_eq!(frame, decoded);
}

#[test]
fn test_crc_corruption() {
    let frame = TelemetryFrame {
        seq: 1,
        timestamp_ms: 0,
        node_id: 0x01,
        payload: Payload::BoolCmd(true),
    };

    let mut encoded = encode_frame(&frame_payload(&frame));
    if !encoded.is_empty() {
        encoded[0] ^= 0xFF;
    }
    assert!(decode_frame(&encoded).is_err());
}

#[test]
fn encoded_frame_has_no_zero_byte() {
    let frame = TelemetryFrame { seq: 0, timestamp_ms: 0, node_id: 0, payload: Payload::BoolCmd(false) };
    let encoded = encode_frame(&frame_payload(&frame));
    assert!(!encoded.is_empty());
    assert!(encoded.iter().all(|b| *b != 0));
}

#[test]
fn encode_frame_appends_little_endian_crc_before_cobs() {
    let payload = [0x01u8, 0x02, 0x03];
    let encoded = encode_frame(&payload);
    let body = cobs::decode_vec(&encoded).unwrap();
    let crc = crc16::State::<crc16::XMODEM>::calculate(&payload);
    assert_eq!(&body[..3], &payload);
    assert_eq!(&body[3..], &crc.to_le_bytes());
    assert_ne!(encoded, payload.to_vec());
}

#[test]
fn decode_frame_reports_each_error() {
    // Not valid COBS: a code byte pointing past the end.
    assert_eq!(decode_frame(&[0x05, 0x01]), Err(DecodeError::Cobs));
    // Valid COBS holding a single byte: no room for the CRC.
    assert_eq!(decode_frame(&cobs::encode_vec(&[0x07])), Err(DecodeError::TooShort));
    // Payload with a wrong CRC.
    assert_eq!(decode_frame(&cobs::encode_vec(&[0x01, 0x00, 0x00])), Err(DecodeError::CrcMismatch));
}

#[test]
fn espnow_frame_starts_with_vendor_id() {
    let frame = TelemetryFrame { seq: 3, timestamp_ms: 9, node_id: 2, payload: Payload::ByteCmd(0xB2) };
    let payload = frame_payload(&frame);
    let wire = encode_espnow(&payload);
    assert_eq!(wire[0], ESP_NOW_VENDOR_ID);
    assert_eq!(wire.len(), payload.len() + 3);
    assert_eq!(frame_from_payload(&decode_espnow(&wire).unwrap()), frame);
    assert_eq!(decode_espnow(&[]), Err(DecodeError::TooShort));
    assert_eq!(decode_espnow(&[ESP_NOW_VENDOR_ID, 0x00]), Err(DecodeError::TooShort));
    assert_eq!(decode_gw_espnow(&wire), Err(DecodeError::VendorMismatch));
}

fn roundtrip(payload: Vec<u8>) {
    let wire = encode_gw_espnow(&payload);
    assert_eq!(wire[0], GW_LINK_VENDOR_ID);
    assert_eq!(decode_gw_espnow(&wire).unwrap(), payload);
}

#[test]
fn health_roundtrip() {
    roundtrip(postcard::to_allocvec(&0u32).unwrap());
    roundtrip(postcard::to_allocvec(&(1u32, 180_224u32, 42_000u64, 7u32, 1u32)).unwrap());
}

#[test]
fn toggle_and_deauth_roundtrip() {
    roundtrip(postcard::to_allocvec(&2u32).unwrap());
    roundtrip(postcard::to_allocvec(&(3u32, false, 0u32)).unwrap());
    roundtrip(postcard::to_allocvec(&4u32).unwrap());
    roundtrip(postcard::to_allocvec(&(5u32, 2u32)).unwrap());
}

#[test]
fn snmp_roundtrip() {
    roundtrip(postcard::to_allocvec(&(8u32, "1.3.6.1.4.1.custom.isolate", "true")).unwrap());
    roundtrip(postcard::to_allocvec(&(9u32, "1.3.6.1.4.1.custom.relay")).unwrap());
    roundtrip(postcard::to_allocvec(&(10u32, "1.3.6.1.4.1.custom.relay", Some("on"), true)).unwrap());
}

#[test]
fn rejects_telemetry_vendor_id() {
    let frame = TelemetryFrame { seq: 1, timestamp_ms: 0, node_id: 1, payload: Payload::BoolCmd(true) };
    let wire = encode_espnow(&frame_payload(&frame));
    assert_eq!(decode_gw_espnow(&wire), Err(DecodeError::VendorMismatch));
}

#[test]
fn rejects_crc_corruption() {
    let mut wire = encode_gw_espnow(&postcard::to_allocvec(&0u32).unwrap());
    let last = wire.len() - 1;
    wire[last] ^= 0xFF;
    assert_eq!(decode_gw_espnow(&wire), Err(DecodeError::CrcMismatch));
}

#[test]
fn accepts_increasing_seq() {
    let mut guard = ReplayGuard::new();
    assert!(guard.accept(1, 1));
    assert!(guard.accept(1, 2));
    assert_eq!(guard.last_seq(1), Some(2));
}

#[test]
fn rejects_replay() {
    let mut guard = ReplayGuard::new();
    assert!(guard.accept(1, 2));
    assert!(!guard.accept(1, 2));
    assert!(!guard.accept(1, 1));
}

#[test]
fn independent_per_node() {
    let mut guard = ReplayGuard::new();
    assert!(guard.accept(1, 5));
    assert!(guard.accept(2, 1));
    assert!(!guard.accept(1, 5));
    assert!(guard.accept(2, 2));
}

#[test]
fn replay_guard_rejects_duplicate_seq() {
    let mut guard = ReplayGuard::new();
    assert!(guard.accept(1, 1));
    assert!(guard.accept(1, 2));
    assert!(!guard.accept(1, 2));
}

#[test]
fn refused_frame_leaves_guard_unchanged() {
    let mut guard = ReplayGuard::default();
    assert_eq!(guard.last_seq(4), None);
    assert!(guard.accept(4, 10));
    assert!(!guard.accept(4, 3));
    assert_eq!(guard.last_seq(4), Some(10));
    assert!(guard.accept(4, 11));
    assert_eq!(guard.last_seq(4), Some(11));
}

#[test]
fn splits_delimited_frames() {
    let frame = TelemetryFrame {
        seq: 1,
        timestamp_ms: 0,
        node_id: 1,
        payload: Payload::BoolCmd(true),
    };
    let mut wire = encode_frame(&frame_payload(&frame));
    wire.push(0);
    wire.extend_from_slice(&encode_frame(&frame_payload(&frame)));
    wire.push(0);

    let mut buffer = wire;
    let frames = split_cobs_frames(&mut buffer);
    assert_eq!(frames.len(), 2);
    assert!(decode_frame(&frames[0]).is_ok());
}

#[test]
fn split_keeps_open_tail_and_skips_empty_frames() {
    let mut buffer = vec![0u8, 0, 1, 2, 0, 3, 4];
    let frames = split_cobs_frames(&mut buffer);
    assert_eq!(frames, vec![vec![1u8, 2]]);
    assert_eq!(buffer, vec![3u8, 4]);
    let mut all_closed = vec![5u8, 0];
    let frames = split_cobs_frames(&mut all_closed);
    assert_eq!(frames, vec![vec![5u8]]);
    assert!(all_closed.is_empty());
}

#[test]
fn either_crc_byte_corruption_is_detected() {
    let frame = TelemetryFrame { seq: 77, timestamp_ms: 5, node_id: 3, payload: Payload::BoolCmd(true) };
    let wire = encode_espnow(&frame_payload(&frame));
    for k in [wire.len() - 2, wire.len() - 1] {
        let mut bad = wire.clone();
        bad[k] ^= 0x01;
        assert_eq!(decode_espnow(&bad), Err(DecodeError::CrcMismatch));
    }
}
