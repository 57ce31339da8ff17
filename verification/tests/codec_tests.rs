use bytes::{Bytes, BytesMut};
use pong::add;
use pong::codec::{check_type_num, encode_frame, route_body, PongCodec, PongCodecError};

#[test]
fn it_works() {
    let result = add(2, 2);
    assert_eq!(result, 4);
}

#[test]
fn type_numbers_one_to_five_are_known() {
    assert!(!check_type_num(0));
    for n in 1..6u16 {
        assert!(check_type_num(n));
    }
    assert!(!check_type_num(6));
    assert!(!check_type_num(u16::MAX));
}

#[test]
fn decode_empty_buffer_gives_none() {
    let mut codec = PongCodec;
    let mut buf = BytesMut::new();
    assert!(codec.can_decode(&buf));
    let r = codec.decode(&mut buf).unwrap();
    assert!(r.is_none());
    assert_eq!(buf.len(), 0);
}

#[test]
fn decode_get_frame_of_test_send() {
    let mut codec = PongCodec;
    let mut buf = BytesMut::from(&[0u8, 1, 0, 0, 0, 2, 99, 49, 13, 10][..]);
    assert!(codec.can_decode(&buf));
    let (n, body) = codec.decode(&mut buf).unwrap().unwrap();
    assert_eq!(n, 1);
    assert_eq!(body, b"c1".to_vec());
    assert_eq!(buf.len(), 0);
}

#[test]
fn decode_two_frames_in_a_row() {
    let mut codec = PongCodec;
    let mut bytes = encode_frame(5, b"alice");
    bytes.extend_from_slice(&encode_frame(3, b"key"));
    let mut buf = BytesMut::from(&bytes[..]);
    let (n, body) = codec.decode(&mut buf).unwrap().unwrap();
    assert_eq!((n, body), (5, b"alice".to_vec()));
    assert_eq!(buf.len(), 11);
    let (n, body) = codec.decode(&mut buf).unwrap().unwrap();
    assert_eq!((n, body), (3, b"key".to_vec()));
    assert!(codec.decode(&mut buf).unwrap().is_none());
}

#[test]
fn decode_unknown_type_consumes_type_number() {
    let mut codec = PongCodec;
    let mut buf = BytesMut::from(&[0u8, 9, 0, 0, 0, 0, 13, 10][..]);
    assert!(codec.can_decode(&buf));
    match codec.decode(&mut buf) {
        Err(PongCodecError::WrongTypeNum) => {}
        _ => panic!("expected WrongTypeNum"),
    }
    assert_eq!(&buf[..], &[0u8, 0, 0, 0, 13, 10][..]);
}

#[test]
fn decode_zero_type_is_unknown() {
    let mut codec = PongCodec;
    let mut buf = BytesMut::from(&[0u8, 0][..]);
    assert!(matches!(codec.decode(&mut buf), Err(PongCodecError::WrongTypeNum)));
    assert_eq!(buf.len(), 0);
}

#[test]
fn can_decode_refuses_partial_frames() {
    let codec = PongCodec;
    assert!(!codec.can_decode(&BytesMut::from(&[0u8][..])));
    assert!(!codec.can_decode(&BytesMut::from(&[0u8, 1, 0, 0][..])));
    assert!(!codec.can_decode(&BytesMut::from(&[0u8, 1, 0, 0, 0, 2, 99, 49, 13][..])));
    assert!(codec.can_decode(&BytesMut::from(&[0u8, 1, 0, 0, 0, 2, 99, 49, 13, 10][..])));
    assert!(codec.can_decode(&BytesMut::from(&[0u8, 7][..])));
}

#[test]
fn decode_reads_big_endian_length() {
    let mut codec = PongCodec;
    let body = vec![7u8; 300];
    let mut bytes = vec![0u8, 3, 0, 0, 1, 44];
    bytes.extend_from_slice(&body);
    bytes.extend_from_slice(b"\r\n");
    let mut buf = BytesMut::from(&bytes[..]);
    let (n, got) = codec.decode(&mut buf).unwrap().unwrap();
    assert_eq!(n, 3);
    assert_eq!(got, body);
}

#[test]
fn encode_appends_bytes() {
    let mut codec = PongCodec;
    let mut buf = BytesMut::from(&b"ab"[..]);
    assert!(codec.encode(Bytes::from_static(b"ok"), &mut buf).is_ok());
    assert_eq!(&buf[..], b"abok");
}

#[test]
fn encode_bytes_mut_appends_bytes() {
    let mut codec = PongCodec;
    let mut buf = BytesMut::new();
    assert!(codec
        .encode_bytes_mut(BytesMut::from(&b"hello"[..]), &mut buf)
        .is_ok());
    assert_eq!(&buf[..], b"hello");
}

#[test]
fn encode_frame_writes_header_body_and_trailer() {
    assert_eq!(encode_frame(5, b"c1"), vec![0u8, 5, 0, 0, 0, 2, 99, 49, 13, 10]);
    assert_eq!(encode_frame(4, b""), vec![0u8, 4, 0, 0, 0, 0, 13, 10]);
    assert_eq!(encode_frame(0x0102, &[9u8; 3])[..6], [1u8, 2, 0, 0, 0, 3]);
}

#[test]
fn encoded_frames_decode_back() {
    let mut codec = PongCodec;
    for t in 1..6u16 {
        let body: Vec<u8> = (0..(t as u8 * 7)).collect();
        let mut buf = BytesMut::from(&encode_frame(t, &body)[..]);
        let (n, got) = codec.decode(&mut buf).unwrap().unwrap();
        assert_eq!(n, t);
        assert_eq!(got, body);
        assert!(buf.is_empty());
    }
}

#[test]
fn route_body_puts_a_space_between() {
    assert_eq!(route_body(b"c1", b"hi there"), b"c1 hi there".to_vec());
    assert_eq!(route_body(b"", b""), b" ".to_vec());
}

#[test]
fn error_descriptions() {
    assert_eq!(PongCodecError::EndOfBuf.describe(), "end of buf");
    assert_eq!(PongCodecError::WrongTypeNum.describe(), "write num");
    let e = std::io::Error::new(std::io::ErrorKind::Other, "boom");
    assert_eq!(PongCodecError::Io(e).describe(), "boom");
}

#[test]
fn io_errors_convert() {
    let e = std::io::Error::new(std::io::ErrorKind::Other, "boom");
    let c: PongCodecError = e.into();
    assert!(matches!(c, PongCodecError::Io(_)));
}

#[test]
fn can_encode_small_buffers() {
    let codec = PongCodec;
    assert!(codec.can_encode(&Bytes::from_static(b"ok"), &BytesMut::from(&b"ab"[..])));
    assert!(codec.can_encode_bytes_mut(&BytesMut::from(&b"ok"[..]), &BytesMut::new()));
}
