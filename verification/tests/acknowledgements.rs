use aqua::aqua::acknowledgements::{publish_ack, suback_reason_codes, PublishAck, SubackReasonCode};
use aqua::mqtt_coder::mqtt::{PacketId, QoS};

#[test]
fn publish_is_acknowledged_by_its_qos() {
    assert_eq!(publish_ack(QoS::QoS0, Some(PacketId(3))), PublishAck::NoAck);
    assert_eq!(publish_ack(QoS::QoS1, Some(PacketId(3))), PublishAck::Puback(PacketId(3)));
    assert_eq!(publish_ack(QoS::QoS2, Some(PacketId(4))), PublishAck::Pubrec(PacketId(4)));
    assert_eq!(publish_ack(QoS::QoS1, None), PublishAck::NoAck);
}

#[test]
fn subscribe_is_granted_the_qos_it_asks_for() {
    let codes = suback_reason_codes(&vec![None, Some(QoS::QoS2), Some(QoS::QoS1), Some(QoS::QoS0)]);
    assert_eq!(
        codes,
        vec![
            SubackReasonCode::GrantedQoS0,
            SubackReasonCode::GrantedQoS2,
            SubackReasonCode::GrantedQoS1,
            SubackReasonCode::GrantedQoS0
        ]
    );
    assert!(suback_reason_codes(&vec![]).is_empty());
}
