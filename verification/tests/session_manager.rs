use aqua::aqua::connection::session_manager::{Outbound, SendFailure, SessionManager, WriteRequest};
use aqua::mqtt_coder::mqtt::{ControlPacket, Dup, MqttError, PacketId, ProtocolVersion, Publish, QoS};

fn publish_with(id: Option<u16>, qos: QoS) -> Publish {
    let mut p = Publish::default();
    p.packet_id = id.map(PacketId);
    p.qos = qos;
    p
}

#[test]
fn session_staged_packet_is_fetched_then_committed() {
    let mut sm = SessionManager::new();
    sm.add_staging_packet("client-a", publish_with(Some(10), QoS::QoS1), QoS::QoS1);
    let fetched = sm.fetch_packet("client-a", PacketId(10)).unwrap();
    assert_eq!(fetched.packet_id, Some(PacketId(10)));
    assert!(matches!(sm.fetch_packet("client-b", PacketId(10)), Err(MqttError::Unexpected)));
    assert!(sm.commit_packet("client-a", PacketId(10)).is_ok());
    assert!(matches!(sm.commit_packet("client-a", PacketId(10)), Err(MqttError::Unexpected)));
    assert!(matches!(sm.fetch_packet("client-a", PacketId(10)), Err(MqttError::Unexpected)));
}

#[test]
fn session_packet_without_id_is_not_staged() {
    let mut sm = SessionManager::new();
    sm.add_staging_packet("client-a", publish_with(None, QoS::QoS1), QoS::QoS1);
    assert!(sm.drain_packets_by_mqtt_id("client-a").is_empty());
}

#[test]
fn session_drain_takes_only_that_client() {
    let mut sm = SessionManager::new();
    sm.add_staging_packet("a", publish_with(Some(1), QoS::QoS1), QoS::QoS1);
    sm.add_staging_packet("a", publish_with(Some(2), QoS::QoS2), QoS::QoS2);
    sm.add_staging_packet("b", publish_with(Some(1), QoS::QoS1), QoS::QoS1);
    let mut drained: Vec<(u16, QoS)> = sm
        .drain_packets_by_mqtt_id("a")
        .into_iter()
        .map(|(pid, p, q)| {
            assert_eq!(p.packet_id, Some(pid));
            (pid.0, q)
        })
        .collect();
    drained.sort_by_key(|d| d.0);
    assert_eq!(drained, vec![(1, QoS::QoS1), (2, QoS::QoS2)]);
    assert!(sm.drain_packets_by_mqtt_id("a").is_empty());
    assert!(sm.fetch_packet("b", PacketId(1)).is_ok());
}

#[test]
fn session_remove_all_keeps_other_clients() {
    let mut sm = SessionManager::new();
    sm.add_staging_packet("a", publish_with(Some(1), QoS::QoS1), QoS::QoS1);
    sm.add_staging_packet("b", publish_with(Some(2), QoS::QoS1), QoS::QoS1);
    sm.remove_all_for_mqtt_id("a");
    assert!(sm.fetch_packet("a", PacketId(1)).is_err());
    assert!(sm.fetch_packet("b", PacketId(2)).is_ok());
}

#[test]
fn session_replay_sets_dup_and_skips_qos0() {
    let mut sm = SessionManager::new();
    sm.add_staging_packet("a", publish_with(Some(1), QoS::QoS1), QoS::QoS1);
    sm.add_staging_packet("a", publish_with(Some(2), QoS::QoS2), QoS::QoS2);
    sm.add_staging_packet("a", publish_with(Some(3), QoS::QoS0), QoS::QoS0);
    sm.add_staging_packet("b", publish_with(Some(4), QoS::QoS1), QoS::QoS1);
    let mut ids: Vec<u16> = sm
        .replay_inflight("a")
        .into_iter()
        .map(|p| match p {
            ControlPacket::PUBLISH(publish) => {
                assert_eq!(publish.dup, Dup(true));
                publish.packet_id.unwrap().0
            }
            _ => panic!("not a PUBLISH"),
        })
        .collect();
    ids.sort();
    assert_eq!(ids, vec![1, 2]);
    // replaying leaves the packets in flight
    assert!(sm.fetch_packet("a", PacketId(1)).is_ok());
}

#[test]
fn session_register_mqtt_id_round_trips() {
    let mut sm = SessionManager::new();
    sm.register_mqtt_id("client-a".to_string(), 7);
    assert_eq!(sm.get_mqtt_id(&7), Some("client-a".to_string()));
    // the same client on another connection: the old connection is dropped
    sm.register_mqtt_id("client-a".to_string(), 8);
    assert_eq!(sm.get_mqtt_id(&7), None);
    assert_eq!(sm.get_mqtt_id(&8), Some("client-a".to_string()));
    sm.unregister_mqtt_id("client-a".to_string());
    assert_eq!(sm.get_mqtt_id(&8), None);
}

#[test]
fn session_protocol_versions() {
    let mut sm = SessionManager::new();
    assert_eq!(sm.get_protocol_version("a"), None);
    sm.set_protocol_version("a", ProtocolVersion(5));
    sm.set_protocol_version("b", ProtocolVersion(4));
    assert_eq!(sm.get_protocol_version("a"), Some(ProtocolVersion(5)));
    sm.set_protocol_version("a", ProtocolVersion(4));
    assert_eq!(sm.get_protocol_version("a"), Some(ProtocolVersion(4)));
}

fn request(id: &str) -> WriteRequest {
    WriteRequest { packet: ControlPacket::UNDEFINED, mqtt_id: id.to_string() }
}

#[test]
fn session_send_to_unknown_connection_is_closed() {
    let sm = SessionManager::new();
    match sm.send_by_client_id(&1, request("x")) {
        Err(SendFailure::Closed(req)) => assert_eq!(req.mqtt_id, "x"),
        _ => panic!("expected Closed"),
    }
}

#[test]
fn session_send_reaches_the_writer_queue() {
    let mut sm = SessionManager::new();
    let (tx, mut rx) = tokio::sync::mpsc::channel(1);
    sm.register_client_id(1, Outbound::new(tx));
    assert!(sm.send_by_client_id(&1, request("x")).is_ok());
    assert_eq!(rx.try_recv().unwrap().mqtt_id, "x");
    // a full queue gives the request back
    assert!(sm.send_by_client_id(&1, request("y")).is_ok());
    match sm.send_by_client_id(&1, request("z")) {
        Err(SendFailure::Full(req)) => assert_eq!(req.mqtt_id, "z"),
        _ => panic!("expected Full"),
    }
    // a gone writer gives it back as closed
    drop(rx);
    match sm.send_by_client_id(&1, request("w")) {
        Err(SendFailure::Closed(req)) => assert_eq!(req.mqtt_id, "w"),
        _ => panic!("expected Closed"),
    }
    sm.unregister_client_id(1);
    assert!(matches!(sm.send_by_client_id(&1, request("v")), Err(SendFailure::Closed(_))));
}

#[test]
fn session_send_to_closed_connection_drops_the_client() {
    let mut sm = SessionManager::new();
    let (tx, rx) = tokio::sync::mpsc::channel(4);
    sm.register_client_id(3, Outbound::new(tx));
    sm.register_mqtt_id("client-c".to_string(), 3);
    assert!(sm.send_by_mqtt_id(&"client-c".to_string(), ControlPacket::UNDEFINED).is_ok());
    assert_eq!(sm.get_mqtt_id(&3), Some("client-c".to_string()));
    drop(rx);
    assert!(sm.send_by_mqtt_id(&"client-c".to_string(), ControlPacket::UNDEFINED).is_ok());
    assert_eq!(sm.get_mqtt_id(&3), None);
}

#[test]
fn session_send_qos1_stages_the_publish() {
    let mut sm = SessionManager::new();
    let (tx, mut rx) = tokio::sync::mpsc::channel(4);
    sm.register_client_id(5, Outbound::new(tx));
    sm.register_mqtt_id("client-q".to_string(), 5);
    let pkt = ControlPacket::PUBLISH(publish_with(Some(42), QoS::QoS1));
    assert!(sm.send_by_mqtt_id_qos1(&"client-q".to_string(), pkt).is_ok());
    assert!(sm.fetch_packet("client-q", PacketId(42)).is_ok());
    assert!(matches!(rx.try_recv().unwrap().packet, ControlPacket::PUBLISH(_)));
    let pkt2 = ControlPacket::PUBLISH(publish_with(Some(43), QoS::QoS2));
    assert!(sm.send_by_mqtt_id_qos2(&"client-q".to_string(), pkt2).is_ok());
    assert!(sm.fetch_packet("client-q", PacketId(43)).is_ok());
}

#[test]
fn session_send_goes_to_the_bound_connection_only() {
    let mut sm = SessionManager::new();
    let (tx1, mut rx1) = tokio::sync::mpsc::channel(4);
    let (tx2, mut rx2) = tokio::sync::mpsc::channel(4);
    sm.register_client_id(1, Outbound::new(tx1));
    sm.register_client_id(2, Outbound::new(tx2));
    sm.register_mqtt_id("a".to_string(), 1);
    sm.register_mqtt_id("b".to_string(), 2);
    let pkt = ControlPacket::PUBLISH(publish_with(Some(7), QoS::QoS1));
    assert!(sm.send_by_mqtt_id(&"b".to_string(), pkt).is_ok());
    let got = rx2.try_recv().unwrap();
    assert_eq!(got.mqtt_id, "b");
    match got.packet {
        ControlPacket::PUBLISH(p) => assert_eq!(p.packet_id, Some(PacketId(7))),
        _ => panic!("expected the PUBLISH that was sent"),
    }
    assert!(rx1.try_recv().is_err());
    // binding "a" to the second connection drops the first one
    sm.register_mqtt_id("a".to_string(), 2);
    assert_eq!(sm.get_mqtt_id(&1), None);
    assert!(matches!(sm.send_by_client_id(&1, request("x")), Err(SendFailure::Closed(_))));
    assert!(sm.send_by_mqtt_id(&"a".to_string(), ControlPacket::UNDEFINED).is_ok());
    assert_eq!(rx2.try_recv().unwrap().mqtt_id, "a");
}

#[test]
fn session_dropped_mqtt_id_reaches_nothing() {
    let mut sm = SessionManager::new();
    let (tx, rx) = tokio::sync::mpsc::channel(4);
    sm.register_client_id(9, Outbound::new(tx));
    sm.register_mqtt_id("gone".to_string(), 9);
    drop(rx);
    assert!(sm.send_by_mqtt_id(&"gone".to_string(), ControlPacket::UNDEFINED).is_ok());
    assert_eq!(sm.get_mqtt_id(&9), None);
    assert!(matches!(sm.send_by_client_id(&9, request("later")), Err(SendFailure::Closed(_))));
    // a later send to the identifier is dropped and changes nothing
    assert!(sm.send_by_mqtt_id(&"gone".to_string(), ControlPacket::UNDEFINED).is_ok());
    assert_eq!(sm.get_mqtt_id(&9), None);
}
