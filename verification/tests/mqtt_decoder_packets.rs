use aqua::mqtt_decoder::mqtt::parser::parse_fixed_header;
use aqua::mqtt_decoder::mqtt::{
    Connack, ConnackProperties, ConnackReason, ControlPacket, MqttPacket, ProtocolVersion,
};
use bytes::Buf;

fn decode_hex(str: &str) -> bytes::BytesMut {
    let digits: Vec<u8> = str
        .bytes()
        .map(|c| match c {
            b'0'..=b'9' => c - b'0',
            b'a'..=b'f' => c - b'a' + 10,
            b'A'..=b'F' => c - b'A' + 10,
            _ => panic!("not a hex digit"),
        })
        .collect();
    let decoded: Vec<u8> = digits.chunks(2).map(|p| p[0] * 16 + p[1]).collect();
    bytes::BytesMut::from(&decoded[..])
}

/* v5 */
#[test]
fn connect_minimum_parse() {
    let input = "101800044d5154540502003c00000b7075626c6973682d353439";
    let mut b = decode_hex(input);
    let ret = parse_fixed_header(&b);
    assert!(ret.is_ok());
    let (packet, consumed) = ret.unwrap();
    b.advance(consumed);
    if let ControlPacket::CONNECT(mut connect) = packet {
        // variable header
        let ret = connect.parse_variable_header(&b);
        assert!(ret.is_ok(), "Error: {:?}", ret.unwrap_err());
        match connect.protocol_ver {
            ProtocolVersion::V5 => {}
            _ => panic!("Protocol unmatch"),
        }
        assert_eq!(connect.clean_session, true);
        assert_eq!(connect.will, false);
        assert_eq!(connect.will_qos, 0);
        assert_eq!(connect.will_retain, false);
        assert_eq!(connect.user_name_flag, false);
        assert_eq!(connect.user_password_flag, false);
        assert_eq!(connect.keepalive_timer, 60);
        let consumed = ret.unwrap();
        println!("variable {}", consumed);
        b.advance(consumed);

        let res = connect.parse_payload(&b);
        assert!(res.is_ok());
        assert_eq!(connect.client_id, "publish-549".to_string());
    } else {
        panic!("packet type error")
    }
}

#[test]
fn mqtt_mqtt5_connect_all_parse() {
    let input = "10bd0200044d51545405ce003c7c110000007\
    81500136578616d706c655f617574685f6d6574686f6416001\
    16578616d706c655f617574685f64617461170119012100142\
    2000a26000c636f6e6e6563745f6b657931000e636f6e6e656\
    3745f76616c75653126000c636f6e6e6563745f6b657932000\
    e636f6e6e6563745f76616c7565322700040000000b7075626\
    c6973682d373130710101020000001e03000a746578742f706\
    c61696e08000d746573742f726573706f6e7365090018636f7\
    272656c6174696f6e5f646174615f6578616d706c651800000\
    00a2600046b657931000676616c7565312600046b657932000\
    676616c7565322600046b657933000676616c7565330009746\
    573742f77696c6c000c57696c6c206d657373616765000d796\
    f75725f757365726e616d65000d796f75725f70617373776f7264";

    let mut b = decode_hex(input);
    let ret = parse_fixed_header(&b);
    assert!(ret.is_ok());
    let (packet, consumed) = ret.unwrap();
    b.advance(consumed);
    if let ControlPacket::CONNECT(mut connect) = packet {
        let ret = connect.parse_variable_header(&b);
        assert!(ret.is_ok(), "Error: {:?}", ret.unwrap_err());
        match connect.protocol_ver {
            ProtocolVersion::V5 => {}
            _ => panic!("Protocol unmatch"),
        }
        let consumed = ret.unwrap();
        println!("variable {}", consumed);
        b.advance(consumed);

        let res = connect.parse_payload(&b);
        assert!(res.is_ok());
        assert_eq!(connect.client_id, "publish-710".to_string());
        println!(">>>> {:?}", connect);

        assert_eq!(connect.clean_session, true);
        assert_eq!(connect.will, true);
        assert_eq!(connect.will_qos, 1);
        assert_eq!(connect.will_retain, false);
        assert_eq!(connect.user_name_flag, true);
        assert_eq!(connect.user_password_flag, true);
        assert_eq!(connect.keepalive_timer, 60);

        assert_eq!(connect.properties.session_expiry_interval, 120);
        assert_eq!(connect.properties.receive_maximum, 20);
        assert_eq!(connect.properties.maximum_packet_size, 256 * 1024);
        assert_eq!(connect.properties.topic_alias_maximum, 10);
        assert_eq!(connect.properties.request_problem_infromation, true);
        assert_eq!(connect.properties.request_response_information, true);
        assert_eq!(
            connect.properties.user_properties,
            [
                ("connect_key1".to_string(), "connect_value1".to_string()),
                ("connect_key2".to_string(), "connect_value2".to_string())
            ]
        );
        assert_eq!(
            connect.properties.authentication_method,
            Some("example_auth_method".to_string())
        );
        assert_eq!(
            connect.properties.authentication_data,
            Some(bytes::Bytes::copy_from_slice(
                "example_auth_data".as_bytes()
            ))
        );
        /* will */
        assert_eq!(connect.will_properties.will_delay_interval, 10);
        assert_eq!(connect.will_properties.message_expiry_interval, Some(30));
        assert_eq!(
            connect.will_properties.content_type,
            Some("text/plain".to_string())
        );
        assert_eq!(connect.will_properties.payload_format_indicator, Some(true));
        assert_eq!(
            connect.will_properties.response_topic,
            Some("test/response".to_string())
        );
        assert_eq!(
            connect.will_properties.correlation_data,
            Some(bytes::Bytes::copy_from_slice(
                "correlation_data_example".as_bytes()
            ))
        );
        assert_eq!(
            connect.will_properties.user_properties,
            [
                ("key1".to_string(), "value1".to_string()),
                ("key2".to_string(), "value2".to_string()),
                ("key3".to_string(), "value3".to_string())
            ]
        );
    }
}

#[test]
fn mqtt_write_connack_success() {
    let expected: &[u8] = &[0x20, 0x03, 0x00, 0x00, 0x00];
    let mut connack = Connack {
        remaining_length: 0,
        acknowledge_flag: false,
        session_present: false,
        connect_reason: ConnackReason::Success,
        connack_properties: None,
    };
    let result_bytes = connack.build_bytes().unwrap();
    assert_eq!(result_bytes.as_ref(), expected);
}

#[test]
fn mqtt_write_connack_reject() {
    let expected: &[u8] = &[0x20, 0x03, 0x00, 0x87, 0x00];
    let mut connack = Connack {
        remaining_length: 0,
        acknowledge_flag: false,
        session_present: false,
        connect_reason: ConnackReason::NotAuthorized,
        connack_properties: None,
    };
    let result_bytes = connack.build_bytes().unwrap();
    assert_eq!(result_bytes.as_ref(), expected);
}

#[test]
fn mqtt_write_connack_success_with_properties() {
    let expected: &[u8] = &[
        0x20, 0x0D, 0x00, 0x00, 0x0A, 0x11, 0x00, 0x00, 0x0E, 0x10, 0x27, 0x00, 0x00, 0x00, 0x0A,
    ];
    let mut p = ConnackProperties::default();
    p.session_expiry_interval = Some(3600);
    p.maximum_packet_size = Some(10);
    let mut connack = Connack {
        remaining_length: 0,
        acknowledge_flag: false,
        session_present: false,
        connect_reason: ConnackReason::Success,
        connack_properties: Some(p),
    };

    let result_bytes = connack.build_bytes().unwrap();
    assert_eq!(result_bytes.as_ref(), expected);
}
