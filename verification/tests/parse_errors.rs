use aqua::mqtt_decoder::mqtt::parser::parse_fixed_header;
use aqua::mqtt_decoder::mqtt::{
    decode_u32_bytes_sliced, decode_variable_length, ControlPacket, Connect, HeaderFault, MqttError, MqttPacket, ParseError,
    PropertyKind, Publish, QoS,
};

fn bytes_of(v: &[u8]) -> bytes::BytesMut {
    bytes::BytesMut::from(v)
}

#[test]
fn parser_refuses_an_unknown_packet_type() {
    assert!(matches!(parse_fixed_header(&bytes_of(&[0x20, 0x02, 0, 0])), Err(ParseError::ControlPacketType(2))));
    match parse_fixed_header(&bytes_of(&[0xE0, 0x00])) {
        Ok((ControlPacket::DISCONNECT(_), consumed)) => assert_eq!(consumed, 2),
        _ => panic!("expected DISCONNECT"),
    }
    // a variable byte integer that starts past the end of the buffer
    assert!(matches!(decode_variable_length(&bytes_of(&[1]), 3), Err(MqttError::InsufficientBytes)));
    assert_eq!(decode_variable_length(&bytes_of(&[0xFF, 0xFF, 0xFF, 0x7F]), 0).unwrap(), (268435455, 3));
}

#[test]
fn parser_refuses_an_unknown_protocol() {
    let mut c = Connect::new(0);
    // name length 4 but "MQTX"
    let r = c.parse_variable_header(&bytes_of(&[0, 4, b'M', b'Q', b'T', b'X', 5, 0, 0, 60]));
    assert!(matches!(r, Err(ParseError::ProtocolHeader(HeaderFault::ProtocolName))));
    assert_eq!(r.unwrap_err().message(), "Connect Protocol Header Error, length 6 not 4");
    // "MQTT" level 6
    let mut c = Connect::new(0);
    let r = c.parse_variable_header(&bytes_of(&[0, 4, b'M', b'Q', b'T', b'T', 6, 0, 0, 60]));
    assert!(matches!(r, Err(ParseError::ProtocolHeader(HeaderFault::MqttLevel))));
    assert_eq!(r.unwrap_err().message(), "Connect Protocol Header Error, length 4");
    // "MQIsdp" level 3 is MQTT 3.1
    let mut c = Connect::new(0);
    let r = c.parse_variable_header(&bytes_of(&[0, 6, b'M', b'Q', b'I', b's', b'd', b'p', 3, 0xC2, 0, 30]));
    assert_eq!(r.unwrap(), 12);
    assert!(c.user_name_flag && c.user_password_flag && c.clean_session);
    assert_eq!(c.keepalive_timer, 30);
}

#[test]
fn parser_refuses_bad_properties() {
    // MQTT 5 with a property list of 2 bytes holding an unknown identifier
    let mut c = Connect::new(0);
    let r = c.parse_variable_header(&bytes_of(&[0, 4, b'M', b'Q', b'T', b'T', 5, 0, 0, 60, 2, 0x7F, 0]));
    assert!(matches!(r, Err(ParseError::UnknownConnectProperty(0x7F))));
    assert_eq!(r.unwrap_err().message(), "Unknown Connect Property 0x7f");
    // a Session Expiry Interval that runs past the announced length
    let mut c = Connect::new(0);
    let r = c.parse_variable_header(&bytes_of(&[0, 4, b'M', b'Q', b'T', b'T', 5, 0, 0, 60, 3, 0x11, 0, 0, 0, 1]));
    assert!(matches!(r, Err(ParseError::PropertyLength)));
    assert_eq!(r.unwrap_err().message(), "Property Length Error");
    assert_eq!(c.properties.session_expiry_interval, 1);
    // an Authentication Method twice
    let mut c = Connect::new(0);
    let r = c.parse_variable_header(&bytes_of(&[
        0, 4, b'M', b'Q', b'T', b'T', 5, 0, 0, 60, 8, 0x15, 0, 1, b'a', 0x15, 0, 1, b'b',
    ]));
    assert!(matches!(r, Err(ParseError::DuplicateProperty(PropertyKind::AuthenticationMethod))));
    assert_eq!(r.unwrap_err().message(), "Protocol Error: Duplicateauthentication method");
}

#[test]
fn parser_refuses_a_client_id_that_is_not_utf8() {
    let mut c = Connect::new(0);
    let r = c.parse_payload(&bytes_of(&[0, 2, 0xFF, 0xFE]));
    assert!(matches!(r, Err(ParseError::ClientIdNotUtf8)));
    assert_eq!(r.unwrap_err().message(), "Protocol: Client ID parse Error, not utf8");
    let mut c = Connect::new(0);
    assert_eq!(c.parse_payload(&bytes_of(&[0, 2, b'i', b'd'])).unwrap(), 4);
    assert_eq!(c.client_id, "id");
    assert_eq!(c.remain_length(), 0);
}

#[test]
fn parser_reads_a_publish_header() {
    let mut p = Publish {
        remain_length: 9,
        dup: false,
        qos: QoS::QoS1,
        retain: false,
        topic_name: None,
        pub_properties: vec![],
        packet_id: 0,
    };
    assert_eq!(p.parse_variable_header(&bytes_of(&[0, 3, b'a', b'/', b'b', 0x12, 0x34])).unwrap(), 7);
    assert_eq!(p.topic_name, Some("a/b".to_string()));
    assert_eq!(p.packet_id, 0x1234);
    assert!(matches!(p.parse_payload(&bytes_of(&[])), Err(ParseError::NotImplemented)));
    assert_eq!(p.remain_length(), 9);
    // QoS 1 without any byte of the packet identifier
    let mut q = Publish { packet_id: 0, topic_name: None, ..p };
    assert!(matches!(
        q.parse_variable_header(&bytes_of(&[0, 1, b'a'])),
        Err(ParseError::Mqtt(MqttError::InsufficientBytes))
    ));
    assert!(matches!(QoS::try_from(7), Err(MqttError::DecodeError)));
    assert!(matches!(decode_u32_bytes_sliced(&[1]), Err(ParseError::InvalidSliceLength)));
}

#[test]
fn refusals_carry_their_text() {
    let e = decode_u32_bytes_sliced(&[0x00, 0x00, 0x0e]).unwrap_err();
    assert_eq!(e.message(), "Invalid slice length for u32");
    assert_eq!(ParseError::ControlPacketType(2).message(), "Control packet decode error 2");
    assert_eq!(ParseError::ControlPacketType(15).message(), "Control packet decode error 15");
    assert_eq!(ParseError::UnknownProperty(127).message(), "Unknown Property 127");
    assert_eq!(ParseError::UnknownProperty(0).message(), "Unknown Property 0");
    assert_eq!(ParseError::UnknownWillProperty(0x0c).message(), "Protocol: Unknown Will Property Error 0xc");
    assert_eq!(ParseError::UnknownConnectProperty(0xff).message(), "Unknown Connect Property 0xff");
    assert_eq!(ParseError::Mqtt(MqttError::InsufficientBytes).message(), "Insufficient Bytes");
    assert_eq!(MqttError::DecodeError.message(), "Decode Error Invalid Parameter");
    assert_eq!(ParseError::NotImplemented.message(), "Not Implemented");
    assert_eq!(ParseError::InvalidUtf8.message(), "Protocol Error: Invalid utf8");
    assert_eq!(ParseError::WillPropertyLength.message(), "Protocol: Protocol Length ( will properties)");
    assert_eq!(ParseError::WillPropertyOverrun.message(), "Protocol: Protocol Length overrun (will properties)");
    assert_eq!(
        ParseError::ProtocolHeader(HeaderFault::MqisdpLevel).message(),
        "Connect Protocol Header Error, length 6"
    );
    assert_eq!(
        ParseError::DuplicateProperty(PropertyKind::CorrelationData).message(),
        "Protocol: Duplicate will properties correlation data"
    );
}
