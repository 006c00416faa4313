use bytes::{BufMut, BytesMut};
use skhoron_vbf_core::framing::{Frame, FrameType, MAX_FRAME_SIZE};
use skhoron_vbf_core::{VbfError, VBF_VERSION};

#[test]
fn roundtrip() {
    let frame = Frame::new(FrameType::Data, vec![1, 2, 3, 4]);
    let mut encoded = frame.encode().unwrap();
    let decoded = Frame::decode(&mut encoded).unwrap();
    assert_eq!(decoded.payload, vec![1, 2, 3, 4]);
    assert_eq!(decoded.version, VBF_VERSION);
}

#[test]
fn rejects_oversized_payload_on_encode() {
    let frame = Frame::new(FrameType::Data, vec![0u8; MAX_FRAME_SIZE + 1]);
    assert!(frame.encode().is_err());
}

#[test]
fn rejects_oversized_declared_length_on_decode() {
    let mut buf = BytesMut::new();
    buf.put_u8(VBF_VERSION);
    buf.put_u8(0x02);
    buf.put_u32((MAX_FRAME_SIZE + 1) as u32);
    assert!(matches!(
        Frame::decode(&mut buf),
        Err(VbfError::MalformedFrame(_))
    ));
}

#[test]
fn rejects_unknown_version() {
    let mut buf = BytesMut::new();
    buf.put_u8(99);
    buf.put_u8(0x02);
    buf.put_u32(0);
    assert!(matches!(
        Frame::decode(&mut buf),
        Err(VbfError::UnsupportedVersion(99))
    ));
}

#[test]
fn encode_writes_header_then_payload() {
    let frame = Frame::new(FrameType::KeepAlive, vec![0xaa, 0xbb]);
    let encoded = frame.encode().unwrap();
    assert_eq!(&encoded[..], &[1, 0x03, 0, 0, 0, 2, 0xaa, 0xbb]);
}

#[test]
fn encode_accepts_payload_of_exactly_max_size() {
    let frame = Frame::new(FrameType::Data, vec![7u8; MAX_FRAME_SIZE]);
    let encoded = frame.encode().unwrap();
    assert_eq!(encoded.len(), 6 + MAX_FRAME_SIZE);
    assert_eq!(&encoded[2..6], &[0x01, 0x00, 0x00, 0x00]);
}

#[test]
fn decode_leaves_bytes_after_the_frame() {
    let frame = Frame::new(FrameType::Control, vec![9, 8, 7]);
    let mut buf = frame.encode().unwrap();
    buf.put_slice(&[0x42, 0x43]);
    let decoded = Frame::decode(&mut buf).unwrap();
    assert_eq!(decoded.frame_type, FrameType::Control);
    assert_eq!(decoded.payload, vec![9, 8, 7]);
    assert_eq!(&buf[..], &[0x42, 0x43]);
}

#[test]
fn decode_two_frames_in_a_row() {
    let mut buf = Frame::new(FrameType::Handshake, vec![1]).encode().unwrap();
    buf.extend_from_slice(&Frame::new(FrameType::Extension(0x80), vec![2, 3]).encode().unwrap());
    let first = Frame::decode(&mut buf).unwrap();
    let second = Frame::decode(&mut buf).unwrap();
    assert_eq!(first.frame_type, FrameType::Handshake);
    assert_eq!(first.payload, vec![1]);
    assert_eq!(second.frame_type, FrameType::Extension(0x80));
    assert_eq!(second.payload, vec![2, 3]);
    assert!(buf.is_empty());
}

#[test]
fn frame_type_bytes_map_to_named_kinds() {
    for (byte, kind) in [
        (0x01u8, FrameType::Handshake),
        (0x02, FrameType::Data),
        (0x03, FrameType::KeepAlive),
        (0x04, FrameType::Control),
        (0x00, FrameType::Extension(0x00)),
        (0xff, FrameType::Extension(0xff)),
    ] {
        let mut buf = BytesMut::new();
        buf.put_slice(&[1, byte, 0, 0, 0, 0]);
        let decoded = Frame::decode(&mut buf).unwrap();
        assert_eq!(decoded.frame_type, kind);
        assert_eq!(&decoded.encode().unwrap()[..], &[1, byte, 0, 0, 0, 0]);
    }
}

#[test]
fn extension_with_named_byte_decodes_as_named_kind() {
    let frame = Frame::new(FrameType::Extension(0x02), vec![]);
    let mut buf = frame.encode().unwrap();
    let decoded = Frame::decode(&mut buf).unwrap();
    assert_eq!(decoded.frame_type, FrameType::Data);
}

#[test]
fn decode_rejects_short_header_and_keeps_buffer() {
    let mut buf = BytesMut::new();
    buf.put_slice(&[1, 2, 0, 0, 0]);
    assert!(matches!(
        Frame::decode(&mut buf),
        Err(VbfError::MalformedFrame("buffer shorter than header"))
    ));
    assert_eq!(buf.len(), 5);
}

#[test]
fn decode_rejects_truncated_payload() {
    let mut buf = BytesMut::new();
    buf.put_slice(&[1, 2, 0, 0, 0, 3, 0xaa]);
    assert!(matches!(
        Frame::decode(&mut buf),
        Err(VbfError::MalformedFrame("payload shorter than declared length"))
    ));
    assert_eq!(&buf[..], &[0xaa]);
}

#[test]
fn decode_unknown_version_consumes_only_version_byte() {
    let mut buf = BytesMut::new();
    buf.put_slice(&[2, 2, 0, 0, 0, 0]);
    assert!(matches!(Frame::decode(&mut buf), Err(VbfError::UnsupportedVersion(2))));
    assert_eq!(buf.len(), 5);
}
