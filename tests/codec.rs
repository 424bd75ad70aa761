use hdp::codec::{
    build_hdp_packet, build_udp_packet, decode, decode_hdp, decode_udp, encode, CodecError, Frame,
    FrameKind, DEST_PORT, HDP_HEADER_LEN, SOURCE_PORT, UDP_HEADER_LEN,
};
use std::time::{SystemTime, UNIX_EPOCH};

fn now_ns() -> u64 {
    SystemTime::now().duration_since(UNIX_EPOCH).unwrap().as_nanos() as u64
}

#[test]
fn encoded_length_is_header_plus_payload() {
    for len in [0usize, 1, 7, 300] {
        let payload = vec![1u8; len];
        assert_eq!(encode(FrameKind::Hdp, &payload, 5).len(), 12 + len);
        assert_eq!(encode(FrameKind::UdpShaped, &payload, 5).len(), 8 + len);
    }
    assert_eq!(FrameKind::Hdp.header_len(), HDP_HEADER_LEN);
    assert_eq!(FrameKind::UdpShaped.header_len(), UDP_HEADER_LEN);
}

#[test]
fn hdp_frame_bytes_exact() {
    let frame = build_hdp_packet(&[9, 8], 0x0102_0304_0506_0708);
    assert_eq!(
        frame,
        vec![0x01, 0xA4, 0x01, 0xA4, 1, 2, 3, 4, 5, 6, 7, 8, 9, 8]
    );
}

#[test]
fn hdp_timestamp_within_clock_interval() {
    let before = now_ns();
    let ts = now_ns();
    let frame = encode(FrameKind::Hdp, &[1, 1, 1], ts);
    let after = now_ns();
    assert_eq!(u16::from_be_bytes([frame[0], frame[1]]), SOURCE_PORT);
    assert_eq!(u16::from_be_bytes([frame[2], frame[3]]), DEST_PORT);
    let mut t = [0u8; 8];
    t.copy_from_slice(&frame[4..12]);
    let decoded = u64::from_be_bytes(t);
    assert!(before <= decoded && decoded <= after);
}

#[test]
fn udp_frame_bytes_exact() {
    let frame = build_udp_packet(&[1, 1, 1]);
    assert_eq!(frame, vec![0x01, 0xA4, 0x01, 0xA4, 0x00, 0x0B, 0x00, 0x00, 1, 1, 1]);
}

#[test]
fn udp_length_and_checksum_fields() {
    for len in [0usize, 1, 100, 65527] {
        let payload = vec![1u8; len];
        let frame = build_udp_packet(&payload);
        assert_eq!(u16::from_be_bytes([frame[4], frame[5]]) as usize, 8 + len);
        assert_eq!(&frame[6..8], &[0, 0]);
    }
}

#[test]
fn udp_length_field_wraps_past_sixteen_bits() {
    let payload = vec![1u8; 65528];
    let frame = build_udp_packet(&payload);
    assert_eq!(&frame[4..6], &[0, 0]);
    assert_eq!(frame.len(), 65536);
}

#[test]
fn hdp_round_trip() {
    let payload = vec![1u8, 2, 3, 4];
    let frame = encode(FrameKind::Hdp, &payload, 123_456_789);
    let f = decode_hdp(&frame).unwrap();
    assert_eq!(f.src_port, 420);
    assert_eq!(f.dst_port, 420);
    assert_eq!(f.timestamp_ns, 123_456_789);
    assert_eq!(f.payload, payload);
}

#[test]
fn udp_round_trip() {
    let payload = vec![1u8, 1];
    let frame = encode(FrameKind::UdpShaped, &payload, 0);
    match decode(FrameKind::UdpShaped, &frame).unwrap() {
        Frame::Udp(f) => {
            assert_eq!(f.src_port, 420);
            assert_eq!(f.dst_port, 420);
            assert_eq!(f.length, 10);
            assert_eq!(f.checksum, 0);
            assert_eq!(f.payload, payload);
        }
        Frame::Hdp(_) => panic!("wrong frame kind"),
    }
}

#[test]
fn decode_header_only_gives_empty_payload() {
    let f = decode_udp(&[0, 1, 0, 2, 0, 8, 0xAB, 0xCD]).unwrap();
    assert_eq!(f.src_port, 1);
    assert_eq!(f.dst_port, 2);
    assert_eq!(f.length, 8);
    assert_eq!(f.checksum, 0xABCD);
    assert!(f.payload.is_empty());
}

#[test]
fn decode_truncated_frames() {
    assert_eq!(decode_hdp(&[0u8; 11]), Err(CodecError::TruncatedFrame));
    assert_eq!(decode_udp(&[0u8; 7]), Err(CodecError::TruncatedFrame));
    assert_eq!(decode(FrameKind::Hdp, &[]), Err(CodecError::TruncatedFrame));
    assert!(decode(FrameKind::UdpShaped, &[0u8; 11]).is_ok());
}

#[test]
fn frame_kind_tokens() {
    assert_eq!(FrameKind::from_token("hdp"), Some(FrameKind::Hdp));
    assert_eq!(FrameKind::from_token("udp"), Some(FrameKind::UdpShaped));
    assert_eq!(FrameKind::from_token("tcp"), None);
    assert_eq!(FrameKind::from_token("HDP"), None);
    assert_eq!(FrameKind::from_token(""), None);
    assert_eq!(FrameKind::from_token("hdpx"), None);
}
