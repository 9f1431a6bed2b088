use aqua::mqtt::mqtt::parse_fixed_header;
use aqua::mqtt::{decode_variable_byte, Connect, ControlPacket, ParseError};

fn bytes_of(v: &[u8]) -> bytes::BytesMut {
    bytes::BytesMut::from(v)
}

#[test]
fn first_parser_reads_the_user_name_flag_from_bit_7() {
    let mut c = Connect::default();
    let r = c.parse_variable_header(&bytes_of(&[0, 4, b'M', b'Q', b'T', b'T', 4, 0xC2, 0, 10]));
    assert_eq!(r.unwrap(), 10);
    assert!(c.user_password_flag);
    assert!(c.user_name_flag);
    let mut d = Connect::default();
    let r = d.parse_variable_header(&bytes_of(&[0, 4, b'M', b'Q', b'T', b'T', 4, 0x42, 0, 10]));
    assert_eq!(r.unwrap(), 10);
    assert!(d.user_password_flag);
    assert!(!d.user_name_flag);
}

#[test]
fn first_parser_reads_receive_maximum_into_session_expiry() {
    let mut c = Connect::default();
    let r = c.parse_variable_header(&bytes_of(&[0, 4, b'M', b'Q', b'T', b'T', 5, 0, 0, 10, 5, 0x21, 0, 0, 0, 20]));
    assert_eq!(r.unwrap(), 16);
    assert_eq!(c.properties.session_expiry_interval, 20);
    assert_eq!(c.properties.receive_maximum, u16::MAX);
}

#[test]
fn first_parser_disconnect_has_no_remaining_length() {
    let (p, consumed) = parse_fixed_header(&bytes_of(&[0xE0, 0x05, 0, 0, 0, 0, 0])).unwrap();
    assert_eq!(consumed, 2);
    assert_eq!(p.remaining_length, 0);
    assert!(matches!(p.control_packet, ControlPacket::DISCONNECT(_)));
    assert!(matches!(parse_fixed_header(&bytes_of(&[0x30, 0x00])), Err(ParseError::ControlPacketType(3))));
    assert_eq!(decode_variable_byte(&bytes_of(&[0xC1, 0x02]), 0), (321, 1));
}
