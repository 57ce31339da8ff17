use pong::codec::encode_frame;
use pong::message::{can_parse_msg, parse_msg, type_num, Message};
use std::io::Cursor;

#[test]
fn type_num_of_empty_cursor_is_zero() {
    let data: [u8; 0] = [];
    let mut c = Cursor::new(&data[..]);
    assert_eq!(type_num(&mut c), 0);
    assert_eq!(c.position(), 0);
}

#[test]
fn type_num_reads_two_bytes() {
    let data = [0u8, 5, 1, 2];
    let mut c = Cursor::new(&data[..]);
    assert_eq!(type_num(&mut c), 5);
    assert_eq!(c.position(), 2);
    assert_eq!(type_num(&mut c), 0x0102);
    assert_eq!(type_num(&mut c), 0);
}

#[test]
fn parse_registration_message() {
    let data = encode_frame(5, b"c1");
    let mut c = Cursor::new(&data[..]);
    match Message::parse(&mut c) {
        Message::StringMsg(s) => assert_eq!(s, "c1"),
        _ => panic!("expected a registration"),
    }
    assert_eq!(c.position(), 6);
}

#[test]
fn parse_other_types_is_null() {
    let data = encode_frame(4, b"c1 hi");
    let mut c = Cursor::new(&data[..]);
    assert!(matches!(Message::parse(&mut c), Message::NULL));
    assert_eq!(c.position(), 2);
}

#[test]
fn parse_empty_is_null() {
    let data: Vec<u8> = Vec::new();
    let mut c = Cursor::new(&data[..]);
    assert!(matches!(Message::parse(&mut c), Message::NULL));
}

#[test]
fn parse_msg_reads_from_the_start() {
    match parse_msg(&encode_frame(5, "名前".as_bytes())) {
        Message::StringMsg(s) => assert_eq!(s, "名前"),
        _ => panic!("expected a registration"),
    }
    assert!(matches!(parse_msg(&[0u8, 1, 0, 0]), Message::NULL));
}

#[test]
fn can_parse_msg_cases() {
    assert!(can_parse_msg(&[]));
    assert!(!can_parse_msg(&[0u8]));
    assert!(can_parse_msg(&[0u8, 1]));
    assert!(!can_parse_msg(&[0u8, 5, 0, 0]));
    assert!(!can_parse_msg(&[0u8, 5, 0, 0, 0, 3, 97]));
    assert!(can_parse_msg(&encode_frame(5, b"abc")));
    assert!(!can_parse_msg(&[0u8, 5, 0, 0, 0, 1, 0xff]));
}
