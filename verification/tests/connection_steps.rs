use aqua::aqua::connection::{
    connection_step, write_event_for, ConnectionError, ConnectionEvent, ConnectionState, ConnectionStep, PacketKind,
};
use aqua::aqua::{is_connection_error, IoErrorKind, MqttPacketBody};
use aqua::mqtt_coder::mqtt::ControlPacket;

#[test]
fn connection_connect_comes_first() {
    assert_eq!(
        connection_step(ConnectionState::PreConnection, ConnectionEvent::PacketRead(PacketKind::Connect)),
        ConnectionStep::Next(ConnectionState::ProcessingConnect)
    );
    assert_eq!(
        connection_step(ConnectionState::PreConnection, ConnectionEvent::PacketRead(PacketKind::Other)),
        ConnectionStep::Fail(ConnectionError::Unexpected)
    );
    assert_eq!(
        connection_step(ConnectionState::PreConnection, ConnectionEvent::NotReady),
        ConnectionStep::Wait
    );
}

#[test]
fn connection_runs_through_a_request() {
    let mut state = ConnectionState::PreConnection;
    let events = [
        ConnectionEvent::PacketRead(PacketKind::Connect),
        ConnectionEvent::ServiceDone,
        ConnectionEvent::Sent,
        ConnectionEvent::PacketRead(PacketKind::Other),
        ConnectionEvent::ServiceDone,
        ConnectionEvent::QueueFull,
        ConnectionEvent::PacketRead(PacketKind::Other),
        ConnectionEvent::ServiceDone,
    ];
    for e in events {
        match connection_step(state, e) {
            ConnectionStep::Next(s) => state = s,
            other => panic!("unexpected step {:?}", other),
        }
    }
    assert_eq!(state, ConnectionState::WritingPacket);
    let e = write_event_for(PacketKind::Disconnect).unwrap();
    assert_eq!(connection_step(state, e), ConnectionStep::Finish);
}

#[test]
fn connection_errors_end_it() {
    assert_eq!(
        connection_step(ConnectionState::ReadingPacket, ConnectionEvent::ReadFailed),
        ConnectionStep::Fail(ConnectionError::Read)
    );
    assert_eq!(
        connection_step(ConnectionState::ProcessingService, ConnectionEvent::ServiceFailed),
        ConnectionStep::Fail(ConnectionError::Service)
    );
    assert_eq!(
        connection_step(ConnectionState::ResponseConnect, ConnectionEvent::ChannelClosed),
        ConnectionStep::Fail(ConnectionError::ChannelClosed)
    );
    assert_eq!(
        connection_step(ConnectionState::WritingPacket, ConnectionEvent::NothingToSend),
        ConnectionStep::Next(ConnectionState::ReadingPacket)
    );
    assert_eq!(write_event_for(PacketKind::NoOperation), Some(ConnectionEvent::NothingToSend));
    assert_eq!(write_event_for(PacketKind::Other), None);
}

#[test]
fn accept_errors_of_the_connection_retry_at_once() {
    assert!(is_connection_error(IoErrorKind::ConnectionRefused));
    assert!(is_connection_error(IoErrorKind::ConnectionAborted));
    assert!(is_connection_error(IoErrorKind::ConnectionReset));
    assert!(!is_connection_error(IoErrorKind::Other));
}

#[test]
fn packet_body_starts_undefined() {
    let body = MqttPacketBody::new(vec![1u8, 2, 3]);
    assert!(matches!(body.mqttpacket, ControlPacket::UNDEFINED));
}

#[test]
fn connection_failed_connect_service_never_reaches_the_service() {
    let mut state = ConnectionState::PreConnection;
    for e in [ConnectionEvent::NotReady, ConnectionEvent::PacketRead(PacketKind::Connect), ConnectionEvent::NotReady] {
        match connection_step(state, e) {
            ConnectionStep::Next(s) => state = s,
            ConnectionStep::Wait => {},
            other => panic!("unexpected step {:?}", other),
        }
    }
    assert_eq!(state, ConnectionState::ProcessingConnect);
    assert_eq!(
        connection_step(state, ConnectionEvent::ServiceFailed),
        ConnectionStep::Fail(ConnectionError::Service)
    );
    // a packet read before the CONNACK is out does not reach the service
    assert_eq!(
        connection_step(ConnectionState::ResponseConnect, ConnectionEvent::PacketRead(PacketKind::Other)),
        ConnectionStep::Wait
    );
}
