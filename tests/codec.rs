use bytes::BytesMut;
use rustchat::codec::LengthCodec;

#[test]
fn encode_writes_big_endian_prefix() {
    let mut codec = LengthCodec;
    let mut dst = BytesMut::new();
    let payload = b"abc".to_vec();
    assert_eq!(codec.encode(&payload, &mut dst), Ok(()));
    assert_eq!(&dst[..], &[0u8, 0, 0, 3, b'a', b'b', b'c'][..]);
}

#[test]
fn encode_large_length_prefix() {
    let mut codec = LengthCodec;
    let mut dst = BytesMut::new();
    let payload = vec![7u8; 0x0102];
    assert_eq!(codec.encode(&payload, &mut dst), Ok(()));
    assert_eq!(&dst[..4], &[0u8, 0, 1, 2][..]);
    assert_eq!(dst.len(), 4 + 0x0102);
}

#[test]
fn frame_round_trip() {
    let mut codec = LengthCodec;
    let mut buf = BytesMut::new();
    let payload = br#"{"Clientmsg":{"Register":{"name":"A"}}}"#.to_vec();
    codec.encode(&payload, &mut buf).unwrap();
    buf.extend_from_slice(&[9, 9]);
    assert_eq!(codec.decode(&mut buf), Some(payload));
    assert_eq!(&buf[..], &[9u8, 9][..]);
}

#[test]
fn empty_payload_round_trip() {
    let mut codec = LengthCodec;
    let mut buf = BytesMut::new();
    codec.encode(&Vec::new(), &mut buf).unwrap();
    assert_eq!(&buf[..], &[0u8, 0, 0, 0][..]);
    assert_eq!(codec.decode(&mut buf), Some(Vec::new()));
    assert!(buf.is_empty());
}

#[test]
fn fragmented_reassembly_yields_one_frame() {
    let mut codec = LengthCodec;
    let payload = b"hello, world".to_vec();
    let mut frame = BytesMut::new();
    codec.encode(&payload, &mut frame).unwrap();
    let bytes = frame.to_vec();
    for cut in [1usize, 2, 3, 4, 5, 10] {
        let mut buf = BytesMut::new();
        let mut out = Vec::new();
        for piece in [&bytes[..cut], &bytes[cut..]] {
            buf.extend_from_slice(piece);
            while let Some(p) = codec.decode(&mut buf) {
                out.push(p);
            }
        }
        assert_eq!(out, vec![payload.clone()]);
        assert!(buf.is_empty());
    }
    let mut buf = BytesMut::new();
    let mut out = Vec::new();
    for b in &bytes {
        buf.extend_from_slice(&[*b]);
        while let Some(p) = codec.decode(&mut buf) {
            out.push(p);
        }
    }
    assert_eq!(out, vec![payload]);
}

#[test]
fn incomplete_input_is_not_consumed() {
    let mut codec = LengthCodec;
    let mut buf = BytesMut::new();
    buf.extend_from_slice(&[0, 0]);
    assert_eq!(codec.decode(&mut buf), None);
    assert_eq!(buf.len(), 2);
    buf.extend_from_slice(&[0, 5, b'x']);
    assert_eq!(codec.decode(&mut buf), None);
    assert_eq!(&buf[..], &[0u8, 0, 0, 5, b'x'][..]);
}

