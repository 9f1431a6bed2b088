use aqua::mqtt_coder::decoder::Decoder;
use aqua::mqtt_coder::mqtt::decoder::decode_fixed_header;
use aqua::mqtt_coder::mqtt::{
    bool_to_bytes, byte_pair_to_u16, decode_u32_bytes_sliced, decode_variable_length, encode_variable_bytes,
    ControlPacket, MqttError, QoS,
};
use std::task::{Context, Poll};

fn bytes_of(v: &[u8]) -> bytes::BytesMut {
    bytes::BytesMut::from(v)
}

#[test]
fn variable_length_round_trips() {
    for n in [0usize, 1, 127, 128, 16383, 16384, 2097151, 2097152, 268435455] {
        let enc = encode_variable_bytes(n);
        let (v, end) = decode_variable_length(&bytes_of(&enc), 0).unwrap();
        assert_eq!(v, n);
        assert_eq!(end, enc.len());
    }
    assert_eq!(encode_variable_bytes(321), vec![0xC1, 0x02]);
    assert_eq!(encode_variable_bytes(0), vec![0x00]);
}

#[test]
fn fixed_width_helpers() {
    assert_eq!(byte_pair_to_u16(0x01, 0x02), 0x0102);
    assert_eq!(bool_to_bytes(true), &[1u8]);
    assert_eq!(bool_to_bytes(false), &[0u8]);
    assert_eq!(decode_u32_bytes_sliced(&[0, 0, 0x0E, 0x10]).unwrap(), 3600);
    assert!(matches!(decode_u32_bytes_sliced(&[1, 2, 3]), Err(MqttError::InvalidFormat)));
    assert!(matches!(QoS::try_from(3), Err(MqttError::InvalidFormat)));
    assert_eq!(QoS::try_from(2).unwrap(), QoS::QoS2);
}

#[test]
fn fixed_header_of_unknown_type_is_refused() {
    // a CONNACK is not decoded
    assert!(decode_fixed_header(&bytes_of(&[0x20, 0x03, 0, 0, 0]), 0).is_err());
    // a DISCONNECT is
    match decode_fixed_header(&bytes_of(&[0xE0, 0x00]), 0) {
        Ok((ControlPacket::DISCONNECT(_), next)) => assert_eq!(next, 2),
        _ => panic!("expected DISCONNECT"),
    }
}

fn decode_hex(str: &str) -> Vec<u8> {
    let digits: Vec<u8> = str
        .bytes()
        .map(|c| match c {
            b'0'..=b'9' => c - b'0',
            b'a'..=b'f' => c - b'a' + 10,
            _ => panic!("not a hex digit"),
        })
        .collect();
    digits.chunks(2).map(|p| p[0] * 16 + p[1]).collect()
}

#[test]
fn decoder_reads_a_connect_step_by_step() {
    let waker = futures_util::task::noop_waker();
    let mut cx = Context::from_waker(&waker);
    let mut decoder = Decoder::new();
    // nothing to read yet
    assert!(matches!(decoder.poll_decode(&mut cx), Poll::Pending));
    let input = decode_hex("101800044d5154540502003c00000b7075626c6973682d353439");
    decoder.buf.extend_from_slice(&input);
    // fixed header
    assert!(matches!(decoder.poll_decode(&mut cx), Poll::Pending));
    assert_eq!(decoder.buf.len(), input.len() - 2);
    // variable header
    assert!(matches!(decoder.poll_decode(&mut cx), Poll::Pending));
    assert_eq!(decoder.buf.len(), 13);
    // payload: the packet is complete
    match decoder.poll_decode(&mut cx) {
        Poll::Ready(Ok(ControlPacket::CONNECT(connect))) => {
            assert_eq!(connect.client_id.into_inner(), "publish-549".to_string());
        }
        _ => panic!("expected a CONNECT"),
    }
    assert!(decoder.buf.is_empty());
}

#[test]
fn decoder_reports_an_unknown_packet_type() {
    let waker = futures_util::task::noop_waker();
    let mut cx = Context::from_waker(&waker);
    let mut decoder = Decoder::new();
    decoder.buf.extend_from_slice(&[0x20, 0x03, 0x00, 0x00, 0x00]);
    assert!(matches!(decoder.poll_decode(&mut cx), Poll::Ready(Err(MqttError::InvalidFormat))));
    // one byte is not enough for a fixed header
    let mut short = Decoder::new();
    short.buf.extend_from_slice(&[0x10]);
    assert!(matches!(short.poll_decode(&mut cx), Poll::Pending));
}

#[test]
fn fixed_header_reads_the_qos_bits() {
    // QoS bits 10: a PUBLISH with QoS 2
    match decode_fixed_header(&bytes_of(&[0x34, 0x00]), 0) {
        Ok((ControlPacket::PUBLISH(p), next)) => {
            assert_eq!(p.qos, QoS::QoS2);
            assert!(!p.dup.0);
            assert!(!p.retain.0);
            assert_eq!(p.remain_length, 0);
            assert_eq!(next, 2);
        },
        _ => panic!("expected PUBLISH"),
    }
    // QoS bits 01 with DUP and RETAIN: QoS 1
    match decode_fixed_header(&bytes_of(&[0x3B, 0x00]), 0) {
        Ok((ControlPacket::PUBLISH(p), _)) => {
            assert_eq!(p.qos, QoS::QoS1);
            assert!(p.dup.0);
            assert!(p.retain.0);
        },
        _ => panic!("expected PUBLISH"),
    }
    // QoS bits 11 are malformed
    assert!(matches!(decode_fixed_header(&bytes_of(&[0x36, 0x00]), 0), Err(MqttError::InvalidFormat)));
}

#[test]
fn decoder_step_asks_to_be_polled_again_while_bytes_wait() {
    let mut decoder = Decoder::new();
    // an empty buffer: nothing to do, no wake-up
    let (r, wake) = decoder.decode_step();
    assert!(matches!(r, Poll::Pending));
    assert!(!wake);
    // a single byte waits for the second byte of a fixed header
    decoder.feed(&[0x10]);
    let (r, wake) = decoder.decode_step();
    assert!(matches!(r, Poll::Pending));
    assert!(wake);
    assert_eq!(&decoder.buf[..], &[0x10]);
    // the fixed header is read: more is to come
    let input = decode_hex("1800044d5154540502003c00000b7075626c6973682d353439");
    decoder.feed(&input);
    let (r, wake) = decoder.decode_step();
    assert!(matches!(r, Poll::Pending));
    assert!(wake);
    // the variable header is read: the payload is to come
    let (r, wake) = decoder.decode_step();
    assert!(matches!(r, Poll::Pending));
    assert!(wake);
    // the payload completes the packet
    let (r, _) = decoder.decode_step();
    assert!(matches!(r, Poll::Ready(Ok(ControlPacket::CONNECT(_)))));
}

#[test]
fn codec_errors_carry_their_text() {
    assert_eq!(MqttError::InsufficientBytes.message(), "Insufficient Bytes");
    assert_eq!(MqttError::InvalidFormat.message(), "Decode Error Invalid Parameter");
    assert_eq!(MqttError::NotImplemented.message(), "Not Implemented");
    assert_eq!(MqttError::Unexpected.message(), "Unexpected");
}
