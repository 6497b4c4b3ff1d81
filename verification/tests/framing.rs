//! The wire framing: length prefixes, partial reads, and the round trip.

use playwright_core::transport::{decode_le32, encode_frame, encode_le32, FrameBuffer};

#[test]
fn le32_encodes_little_endian() {
    let b = encode_le32(0x01020304);
    assert_eq!(b, vec![0x04, 0x03, 0x02, 0x01]);
    assert_eq!(decode_le32(0x04, 0x03, 0x02, 0x01), 0x01020304);
    assert_eq!(decode_le32(0xff, 0xff, 0xff, 0xff), u32::MAX);
    assert_eq!(encode_le32(0), vec![0, 0, 0, 0]);
}

#[test]
fn frame_round_trip() {
    let payload = b"{\"id\":1}".to_vec();
    let framed = encode_frame(&payload);
    assert_eq!(framed.len(), payload.len() + 4);
    assert_eq!(&framed[..4], &[8, 0, 0, 0]);

    let mut buf = FrameBuffer::new();
    buf.push_chunk(&framed);
    let got = buf.take_frame().expect("one complete frame");
    assert_eq!(got, payload);
    assert_eq!(buf.len(), 0);
    assert!(buf.take_frame().is_none());
}

#[test]
fn partial_frames_wait_for_more_bytes() {
    let payload = b"hello frame".to_vec();
    let framed = encode_frame(&payload);
    let mut buf = FrameBuffer::new();

    // Too short for the prefix.
    buf.push_chunk(&framed[..3]);
    assert!(buf.take_frame().is_none());

    // Prefix there, payload incomplete.
    buf.push_chunk(&framed[3..7]);
    assert!(buf.take_frame().is_none());

    // The rest arrives, together with the start of the next frame.
    let second = encode_frame(&b"x".to_vec());
    buf.push_chunk(&framed[7..]);
    buf.push_chunk(&second[..2]);
    assert_eq!(buf.take_frame().expect("first frame complete"), payload);
    assert!(buf.take_frame().is_none());
    buf.push_chunk(&second[2..]);
    assert_eq!(buf.take_frame().expect("second frame complete"), b"x".to_vec());
}

#[test]
fn two_frames_in_one_chunk_come_out_in_order() {
    let mut wire: Vec<u8> = Vec::new();
    wire.extend_from_slice(&encode_frame(&b"first".to_vec()));
    wire.extend_from_slice(&encode_frame(&b"second".to_vec()));
    let mut buf = FrameBuffer::new();
    buf.push_chunk(&wire);
    assert_eq!(buf.take_frame().unwrap(), b"first".to_vec());
    assert_eq!(buf.take_frame().unwrap(), b"second".to_vec());
    assert!(buf.take_frame().is_none());
}
