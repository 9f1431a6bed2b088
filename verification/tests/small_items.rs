use aqua::aqua::connection::response::Response;
use aqua::hello_mqtt_world::HelloWorld;
use aqua::mqtt_coder::encoder::Encoder;
use aqua::mqtt_coder::mqtt::{Connack, ConnackProperties, ConnackReason, ControlPacket, Disconnect, MqttError};
use aqua::timeout::{Timeout, TimeoutError, TimeoutLayer};
use aqua::{ConnackError, ConnackResponse};
use std::task::{Context, Poll};
use std::time::Duration;

#[test]
fn responses_keep_their_packets_in_order() {
    assert!(Response::default().packets.is_empty());
    let one = Response::new(ControlPacket::DISCONNECT(Disconnect::new(0)));
    assert_eq!(one.packets.len(), 1);
    let two = Response::new_packets(vec![ControlPacket::UNDEFINED, ControlPacket::DISCONNECT(Disconnect::new(0))]);
    assert!(matches!(two.packets[0], ControlPacket::UNDEFINED));
    assert!(matches!(two.packets[1], ControlPacket::DISCONNECT(_)));
}

#[test]
fn connack_response_becomes_a_successful_connack() {
    let mut props = ConnackProperties::default();
    props.session_expiry_interval = Some(60);
    let res = ConnackResponse { session_present: true, connack_properties: Some(props) };
    let mut connack = res.to_connack();
    assert!(connack.session_present);
    assert_eq!(connack.connect_reason, ConnackReason::Success);
    let bytes = connack.build_bytes().unwrap();
    assert_eq!(bytes.as_ref(), &[0x20, 0x08, 0x01, 0x00, 0x05, 0x11, 0x00, 0x00, 0x00, 0x3C]);
    let back = ConnackResponse::from(Connack {
        remaining_length: 0,
        acknowledge_flag: false,
        session_present: false,
        connect_reason: ConnackReason::Banned,
        connack_properties: None,
    });
    assert!(!back.session_present);
    assert!(back.connack_properties.is_none());
    assert_eq!(ConnackError::from_io_failure().reason_code, ConnackReason::UnspecifiedError);
    assert_eq!(ConnackError::from_io_failure().message(), "CONNACK error: UnspecifiedError");
    assert_eq!(
        ConnackError { reason_code: ConnackReason::QoSNotSupported }.message(),
        "CONNACK error: QoSNotSupported"
    );
}

#[test]
fn hello_world_says_hello() {
    assert_eq!(HelloWorld.message(), "Hello");
}

#[test]
fn timeout_keeps_its_service_and_delay() {
    let mut t = Timeout::new(5u32, Duration::from_millis(250));
    assert_eq!(t.timeout(), Duration::from_millis(250));
    *t.inner_mut() = 6;
    assert_eq!(*t.inner_mut(), 6);
    let layer = TimeoutLayer::new(Duration::from_secs(2));
    let wrapped = layer.layer("svc");
    assert_eq!(wrapped.timeout(), Duration::from_secs(2));
    assert_eq!(TimeoutError::default().message(), "request timed out");
}

#[test]
fn encoder_does_not_encode_yet() {
    let waker = futures_util::task::noop_waker();
    let mut cx = Context::from_waker(&waker);
    let mut enc = Encoder::new();
    let mut buf = bytes::BytesMut::new();
    let pkt = ControlPacket::DISCONNECT(Disconnect::new(0));
    assert!(matches!(enc.encode_all(&pkt, &mut buf), Err(MqttError::NotImplemented)));
    assert!(matches!(enc.poll_encode(&mut cx, &pkt, &mut buf), Poll::Ready(Err(MqttError::NotImplemented))));
    assert!(buf.is_empty());
}
