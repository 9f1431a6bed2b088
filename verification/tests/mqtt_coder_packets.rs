use aqua::mqtt_coder::mqtt::decoder::decode_fixed_header;
use aqua::mqtt_coder::mqtt::{
    AuthenticationData, AuthenticationMethod, Connack, ConnackProperties, ConnackReason,
    ContentType, ControlPacket, CorrelationData, MaximumPacketSize, MessageExpiryInterval,
    MqttPacket, PayloadFormatIndicator, QoS, ReceiveMaximum, RequestProblemInformation,
    RequestResponseInformation, ResponseTopic, Retain, SessionExpiryInterval, TopicAliasMaximum,
    TopicName, UserProperty, WillDelayInterval,
};
use bytes::Buf;

fn decode_hex(str: &str) -> bytes::BytesMut {
    let digits: Vec<u8> = str
        .bytes()
        .map(|c| match c {
            b'0'..=b'9' => c - b'0',
            b'a'..=b'f' => c - b'a' + 10,
            b'A'..=b'F' => c - b'A' + 10,
            _ => panic!("not a hex digit"),
        })
        .collect();
    let decoded: Vec<u8> = digits.chunks(2).map(|p| p[0] * 16 + p[1]).collect();
    bytes::BytesMut::from(&decoded[..])
}

/* v5 */
#[test]
fn connect_minimum_decode() {
    let input = "101800044d5154540502003c00000b7075626c6973682d353439";
    let mut b = decode_hex(input);
    let ret = decode_fixed_header(&b, 0);
    assert!(ret.is_ok());
    let (packet, next_pos) = ret.unwrap();
    b.advance(next_pos);
    if let ControlPacket::CONNECT(mut connect) = packet {
        // variable header
        let ret = connect.decode_variable_header(&b, 0);
        assert!(ret.is_ok(), "Error: {:?}", ret.unwrap_err());
        match connect.protocol_ver.into_inner() {
            0x05 => {}
            _ => panic!("Protocol unmatch"),
        }
        assert_eq!(connect.connect_flags.clean_start, true);
        assert_eq!(connect.connect_flags.will_flag, false);
        assert_eq!(connect.connect_flags.will_qos, QoS::QoS0);
        assert_eq!(connect.connect_flags.will_retain, false);
        assert_eq!(connect.connect_flags.user_name_flag, false);
        assert_eq!(connect.connect_flags.password_flag, false);
        assert_eq!(connect.keepalive.clone().into_inner(), 60);
        let next_pos = ret.unwrap();
        println!("variable {}", next_pos);
        b.advance(next_pos);

        let res = connect.decode_payload(&b, 0);
        assert!(res.is_ok());
        assert_eq!(connect.client_id.into_inner(), "publish-549".to_string());
    } else {
        panic!("packet type error")
    }
}

#[test]
fn mqtt_publish() {
    let input = "3328000b68656c6c6f2f746f70696300011123\
    000126000161000132260001630001337061796c6f6164";
    let mut b = decode_hex(input);
    let ret = decode_fixed_header(&b, 0);
    assert!(ret.is_ok());
    let (packet, consumed) = ret.unwrap();
    b.advance(consumed);
    if let ControlPacket::PUBLISH(mut publish) = packet {
        let ret = publish.decode_variable_header(&b, 0);
        assert!(ret.is_ok(), "Error: {:?}", ret.unwrap_err());
        let consumed = ret.unwrap();
        b.advance(consumed);
        let _res = publish.decode_payload(&b, 0);
        assert_eq!(publish.qos, QoS::QoS1);
        assert_eq!(publish.retain, Retain(true));
        assert_eq!(
            publish.topic_name,
            Some(TopicName("hello/topic".to_string()))
        );
        assert_eq!(
            publish.pub_properties.user_properties,
            Some(vec![
                UserProperty(("a".to_string(), "2".to_string())),
                UserProperty(("c".to_string(), "3".to_string()))
            ])
        );
    }
}

#[test]
fn mqtt_publish_full() {
    let input = "3352000b68656c6c6f2f746f70696300013b01010\
    20000003c03000a746578742f706c61696e08000e726573706f6e7\
    3652f746f706963090005313233343526000161000132260001630\
    001337061796c6f6164";
    let mut b = decode_hex(input);
    let ret = decode_fixed_header(&b, 0);
    assert!(ret.is_ok());
    let (packet, consumed) = ret.unwrap();
    b.advance(consumed);
    if let ControlPacket::PUBLISH(mut publish) = packet {
        let ret = publish.decode_variable_header(&b, 0);
        assert!(ret.is_ok(), "Error: {:?}", ret.unwrap_err());
        let consumed = ret.unwrap();
        b.advance(consumed);
        let _res = publish.decode_payload(&b, 0);
        assert_eq!(publish.qos, QoS::QoS1);
        assert_eq!(publish.retain, Retain(true));
        assert_eq!(
            publish.topic_name,
            Some(TopicName("hello/topic".to_string()))
        );
        assert_eq!(
            publish.pub_properties.user_properties,
            Some(vec![
                UserProperty(("a".to_string(), "2".to_string())),
                UserProperty(("c".to_string(), "3".to_string()))
            ])
        );
        assert_eq!(
            publish.pub_properties.message_expiry_interval,
            Some(MessageExpiryInterval(60))
        );
        assert_eq!(
            publish.pub_properties.payload_format_indicator,
            Some(PayloadFormatIndicator::UTF8)
        );
        assert_eq!(
            publish.pub_properties.content_type,
            Some(ContentType("text/plain".to_string()))
        );
        assert_eq!(
            publish.pub_properties.response_topic,
            Some(ResponseTopic("response/topic".to_string()))
        );
        assert_eq!(
            publish.pub_properties.correlation_data,
            Some(CorrelationData(bytes::Bytes::copy_from_slice(
                "12345".as_bytes()
            )))
        )
    }
}

#[test]
fn mqtt5_connect_all_parse() {
    let input = "10bd0200044d51545405ce003c7c110000007\
    81500136578616d706c655f617574685f6d6574686f6416001\
    16578616d706c655f617574685f64617461170119012100142\
    2000a26000c636f6e6e6563745f6b657931000e636f6e6e656\
    3745f76616c75653126000c636f6e6e6563745f6b657932000\
    e636f6e6e6563745f76616c7565322700040000000b7075626\
    c6973682d373130710101020000001e03000a746578742f706\
    c61696e08000d746573742f726573706f6e7365090018636f7\
    272656c6174696f6e5f646174615f6578616d706c651800000\
    00a2600046b657931000676616c7565312600046b657932000\
    676616c7565322600046b657933000676616c7565330009746\
    573742f77696c6c000c57696c6c206d657373616765000d796\
    f75725f757365726e616d65000d796f75725f70617373776f7264";

    let mut b = decode_hex(input);
    let ret = decode_fixed_header(&b, 0);
    assert!(ret.is_ok());
    let (packet, consumed) = ret.unwrap();
    println!("aaaaaa:{}", consumed);
    b.advance(consumed);
    if let ControlPacket::CONNECT(mut connect) = packet {
        let ret = connect.decode_variable_header(&b, 0);
        assert!(ret.is_ok(), "Error: {:?}", ret.unwrap_err());
        match connect.protocol_ver.into_inner() {
            0x05 => {}
            _ => panic!("Protocol unmatch"),
        }
        let next_pos = ret.unwrap();
        b.advance(next_pos);

        let res = connect.decode_payload(&b, 0);
        assert!(res.is_ok());
        assert_eq!(
            connect.client_id.clone().into_inner(),
            "publish-710".to_string()
        );
        println!(">>>> {:?}", connect);

        assert_eq!(connect.connect_flags.clean_start, true);
        assert_eq!(connect.connect_flags.will_flag, true);
        assert_eq!(connect.connect_flags.will_qos, QoS::QoS1);
        assert_eq!(connect.connect_flags.will_retain, false);
        assert_eq!(connect.connect_flags.user_name_flag, true);
        assert_eq!(connect.connect_flags.password_flag, true);
        assert_eq!(connect.keepalive.into_inner(), 60);

        assert_eq!(
            connect.properties.session_expiry_interval,
            Some(SessionExpiryInterval(120))
        );
        assert_eq!(connect.properties.receive_maximum, Some(ReceiveMaximum(20)));
        assert_eq!(
            connect.properties.maximum_packet_size,
            Some(MaximumPacketSize(256 * 1024))
        );
        assert_eq!(
            connect.properties.topic_alias_maximum,
            Some(TopicAliasMaximum(10))
        );
        assert_eq!(
            connect.properties.request_problem_information,
            Some(RequestProblemInformation(true))
        );
        assert_eq!(
            connect.properties.request_response_information,
            Some(RequestResponseInformation(true))
        );
        assert_eq!(
            connect.properties.user_properties,
            Some(vec![
                UserProperty(("connect_key1".to_string(), "connect_value1".to_string())),
                UserProperty(("connect_key2".to_string(), "connect_value2".to_string()))
            ])
        );
        assert_eq!(
            connect.properties.authentication_method,
            Some(AuthenticationMethod("example_auth_method".to_string()))
        );
        assert_eq!(
            connect.properties.authentication_data,
            Some(AuthenticationData(bytes::Bytes::copy_from_slice(
                "example_auth_data".as_bytes()
            )))
        );
        /* will */
        assert_eq!(
            connect.will_properties.will_delay_interval,
            Some(WillDelayInterval(10))
        );
        assert_eq!(
            connect.will_properties.message_expiry_interval,
            Some(MessageExpiryInterval(30))
        );
        assert_eq!(
            connect.will_properties.content_type,
            Some(ContentType("text/plain".to_string()))
        );
        assert_eq!(
            connect.will_properties.payload_format_indicator,
            Some(PayloadFormatIndicator::UTF8)
        );
        assert_eq!(
            connect.will_properties.response_topic,
            Some(ResponseTopic("test/response".to_string()))
        );
        assert_eq!(
            connect.will_properties.correlation_data,
            Some(CorrelationData(bytes::Bytes::copy_from_slice(
                "correlation_data_example".as_bytes()
            )))
        );
        assert_eq!(
            connect.will_properties.user_properties,
            Some(vec![
                UserProperty(("key1".to_string(), "value1".to_string())),
                UserProperty(("key2".to_string(), "value2".to_string())),
                UserProperty(("key3".to_string(), "value3".to_string()))
            ])
        );
    }
}

#[test]
fn write_connack_success() {
    let expected: &[u8] = &[0x20, 0x03, 0x00, 0x00, 0x00];
    let mut connack = Connack {
        remaining_length: 0,
        acknowledge_flag: false,
        session_present: false,
        connect_reason: ConnackReason::Success,
        connack_properties: None,
    };
    let result_bytes = connack.build_bytes().unwrap();
    assert_eq!(result_bytes.as_ref(), expected);
}

#[test]
fn write_connack_reject() {
    let expected: &[u8] = &[0x20, 0x03, 0x00, 0x87, 0x00];
    let mut connack = Connack {
        remaining_length: 0,
        acknowledge_flag: false,
        session_present: false,
        connect_reason: ConnackReason::NotAuthorized,
        connack_properties: None,
    };
    let result_bytes = connack.build_bytes().unwrap();
    assert_eq!(result_bytes.as_ref(), expected);
}

#[test]
fn write_connack_success_with_properties() {
    let expected: &[u8] = &[
        0x20, 0x0D, 0x00, 0x00, 0x0A, 0x11, 0x00, 0x00, 0x0E, 0x10, 0x27, 0x00, 0x00, 0x00,
        0x0A,
    ];
    let mut p = ConnackProperties::default();
    p.session_expiry_interval = Some(3600);
    p.maximum_packet_size = Some(10);
    let mut connack = Connack {
        remaining_length: 0,
        acknowledge_flag: false,
        session_present: false,
        connect_reason: ConnackReason::Success,
        connack_properties: Some(p),
    };

    let result_bytes = connack.build_bytes().unwrap();
    assert_eq!(result_bytes.as_ref(), expected);
}
