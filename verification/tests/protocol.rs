//! Wire-protocol round trips and decoder behavior.

use orbit::device::DeviceId;
use orbit::time::UtcTime;
use orbit::wire::{CapturedFrame, Request, SnapResponse, StreamResponse, WireError};

fn sample_frame(device: u32, payload: Vec<u8>) -> CapturedFrame {
    let len = payload.len();
    CapturedFrame::from_frame(
        &payload,
        len,
        640,
        360,
        *b"MJPG",
        12,
        500_000,
        UtcTime::new(1_700_000_000, 250_000_000),
        DeviceId(device),
    )
}

#[test]
fn frame_stream_response_round_trip() {
    let payload = vec![7u8, 13, 255, 0, 42, 99];
    let frame = sample_frame(3, payload.clone());
    let response = StreamResponse::Frame(frame);

    let mut bytes: Vec<u8> = Vec::new();
    response.serialize_into(&mut bytes);

    let (decoded, consumed) = StreamResponse::deserialize_from(&bytes, 0).unwrap();
    assert_eq!(consumed, bytes.len());
    match decoded {
        StreamResponse::Frame(f) => {
            assert_eq!(f.device_id().0, 3);
            assert_eq!(f.width(), 640);
            assert_eq!(f.height(), 360);
            assert_eq!(f.encoding_repr(), *b"MJPG");
            let at = f.captured_at();
            assert_eq!(at.secs, 1_700_000_012);
            assert_eq!(at.nanos, 750_000_000);
            assert_eq!(f.frame_data().clone(), payload);
        },
        StreamResponse::Stop(_) => panic!("decoded the wrong variant"),
    }
}

#[test]
fn stop_stream_response_round_trip() {
    let response = StreamResponse::Stop(DeviceId(9));
    let mut bytes: Vec<u8> = Vec::new();
    response.serialize_into(&mut bytes);
    assert_eq!(bytes.len(), 9);

    let (decoded, consumed) = StreamResponse::deserialize_from(&bytes, 0).unwrap();
    assert_eq!(consumed, 9);
    match decoded {
        StreamResponse::Stop(id) => assert_eq!(id.0, 9),
        StreamResponse::Frame(_) => panic!("decoded the wrong variant"),
    }
}

#[test]
fn request_round_trips() {
    let mut bytes: Vec<u8> = Vec::new();
    Request::Stream.serialize_into(&mut bytes);
    let target = UtcTime::new(1_700_000_100, 123_456_789);
    Request::Snap(target).serialize_into(&mut bytes);

    let (first, n1) = Request::deserialize_from(&bytes, 0).unwrap();
    assert!(matches!(first, Request::Stream));
    let (second, n2) = Request::deserialize_from(&bytes, n1).unwrap();
    match second {
        Request::Snap(t) => {
            assert_eq!(t.secs, 1_700_000_100);
            assert_eq!(t.nanos, 123_456_789);
        },
        Request::Stream => panic!("decoded the wrong variant"),
    }
    assert_eq!(n1 + n2, bytes.len());
}

#[test]
fn snap_response_round_trip() {
    let stills = vec![sample_frame(1, vec![1, 2, 3]), sample_frame(2, vec![9, 8, 7, 6])];
    let response = SnapResponse { stills };
    let mut bytes: Vec<u8> = Vec::new();
    response.serialize_into(&mut bytes);

    let (decoded, consumed) = SnapResponse::deserialize_from(&bytes, 0).unwrap();
    assert_eq!(consumed, bytes.len());
    assert_eq!(decoded.stills.len(), 2);
    assert_eq!(decoded.stills[0].device_id().0, 1);
    assert_eq!(decoded.stills[0].frame_data().clone(), vec![1, 2, 3]);
    assert_eq!(decoded.stills[1].device_id().0, 2);
    assert_eq!(decoded.stills[1].frame_data().clone(), vec![9, 8, 7, 6]);
}

#[test]
fn truncated_message_reports_truncation() {
    let payload = vec![5u8; 40];
    let frame = sample_frame(1, payload);
    let response = StreamResponse::Frame(frame);
    let mut bytes: Vec<u8> = Vec::new();
    response.serialize_into(&mut bytes);

    for cut in [0usize, 4, 8, 36, bytes.len() - 1] {
        let partial: Vec<u8> = bytes[..cut].to_vec();
        assert_eq!(
            StreamResponse::deserialize_from(&partial, 0).unwrap_err(),
            WireError::Truncated,
        );
    }
}

#[test]
fn bad_tag_reports_malformed() {
    let response = StreamResponse::Stop(DeviceId(1));
    let mut bytes: Vec<u8> = Vec::new();
    response.serialize_into(&mut bytes);
    bytes[4] = 7;
    assert_eq!(StreamResponse::deserialize_from(&bytes, 0).unwrap_err(), WireError::Malformed);
}

#[test]
fn denormalized_timestamp_reports_malformed() {
    let mut bytes: Vec<u8> = Vec::new();
    Request::Snap(UtcTime::new(5, 1)).serialize_into(&mut bytes);
    // Overwrite the nanosecond field with a value of a second or more.
    let bad = 2_000_000_000u32.to_le_bytes();
    bytes[13..17].copy_from_slice(&bad);
    assert_eq!(Request::deserialize_from(&bytes, 0).unwrap_err(), WireError::Malformed);
}

#[test]
fn from_frame_keeps_only_used_bytes() {
    let buffer = vec![1u8, 2, 3, 4, 5, 6, 7, 8];
    let frame = CapturedFrame::from_frame(
        &buffer,
        5,
        1280,
        720,
        *b"MJPG",
        0,
        0,
        UtcTime::new(0, 0),
        DeviceId(1),
    );
    assert_eq!(frame.frame_data().clone(), vec![1, 2, 3, 4, 5]);
    assert_eq!(frame.width(), 1280);
    assert_eq!(frame.height(), 720);
}
