use aqua::mqtt::mqtt::parse_fixed_header;
use aqua::mqtt::{ControlPacket, ProtocolVersion};
use bytes::Buf;

fn decode_hex(str: &str) -> bytes::BytesMut {
    let digits: Vec<u8> = str
        .bytes()
        .map(|c| match c {
            b'0'..=b'9' => c - b'0',
            b'a'..=b'f' => c - b'a' + 10,
            b'A'..=b'F' => c - b'A' + 10,
            _ => panic!("not a hex digit"),
        })
        .collect();
    let decoded: Vec<u8> = digits.chunks(2).map(|p| p[0] * 16 + p[1]).collect();
    bytes::BytesMut::from(&decoded[..])
}

#[test]
fn connect_minimum() {
    let input = "101800044d5154540502003c00000b7075626c6973682d353439";
    let mut b = decode_hex(input);
    let ret = parse_fixed_header(&b);
    assert!(ret.is_ok());
    let (packet, consumed) = ret.unwrap();
    b.advance(consumed);
    if let ControlPacket::CONNECT(mut connect) = packet.control_packet {
        // variable header
        let ret = connect.parse_variable_header(&b);
        assert!(ret.is_ok(), "Error: {:?}", ret.unwrap_err());
        match connect.protocol_ver {
            ProtocolVersion::V5 => {}
            _ => panic!("Protocol unmatch"),
        }
        assert_eq!(connect.clean_session, true);
        assert_eq!(connect.will, false);
        assert_eq!(connect.will_qos, 0);
        assert_eq!(connect.will_retain, false);
        assert_eq!(connect.user_name_flag, false);
        assert_eq!(connect.user_name_flag, false);
        assert_eq!(connect.keepalive_timer, 60);
        let consumed = ret.unwrap();
        println!("variable {}", consumed);
        b.advance(consumed);

        let res = connect.parse_payload(&b);
        assert!(res.is_ok());
        assert_eq!(connect.client_id, "publish-549".to_string());
    } else {
        panic!("packet type error")
    }
}
