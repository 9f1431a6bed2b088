//! The sessions of the broker: the writer queue of each connection, the
//! MQTT client identifier of each connection, the protocol version of each
//! client, and the QoS 1 and 2 PUBLISH packets that wait for their
//! acknowledgement. A connection is known by a 128-bit identifier.
use vstd::prelude::*;
use dashmap::DashMap;
use tokio::sync::mpsc;
use crate::mqtt_coder::mqtt::{
    ControlPacket, ControlPacketModel, Dup, MqttError, PacketId, ProtocolVersion, Publish, PublishModel, QoS,
};

verus! {

#[verifier::external_type_specification]
#[verifier::external_body]
#[verifier::reject_recursive_types(T)]
pub struct ExSender<T>(mpsc::Sender<T>);

/// A packet on its way to the writer of a connection, with the MQTT client
/// identifier it is meant for.
pub struct WriteRequest {
    pub packet: ControlPacket,
    pub mqtt_id: String,
}

/// Why a value could not be handed to a connection's writer: its queue is
/// full, or the connection is gone. The value comes back.
pub enum SendFailure<T> {
    Full(T),
    Closed(T),
}

/// How an offer of a request to a writer queue ended: queued, refused
/// because the queue is full, or refused because the connection is gone.
#[derive(PartialEq, Eq, Structural, Clone, Copy, Debug)]
pub enum SendOutcome {
    Queued,
    Full,
    Closed,
}

/// The outcome that a send result stands for.
pub open spec fn outcome_of<T>(r: Result<(), SendFailure<T>>) -> SendOutcome {
    match r {
        Ok(_) => SendOutcome::Queued,
        Err(SendFailure::Full(_)) => SendOutcome::Full,
        Err(SendFailure::Closed(_)) => SendOutcome::Closed,
    }
}

/// Whether `try_send` of a request (its packet and MQTT client identifier)
/// on the writer queue registered for `connection` may end in `outcome`.
/// Which outcome comes depends on the other end of the channel (how full
/// the queue is, whether the writer is gone), so this is a relation that
/// may admit several outcomes; nothing more is said of it.
pub uninterp spec fn offered(
    connection: Option<u128>,
    packet: ControlPacketModel,
    mqtt_id: Seq<char>,
    outcome: SendOutcome,
) -> bool;

/// `mpsc::Sender::try_send` on the queue's channel: queues the request
/// without waiting, or gives it back with the reason (a full queue, a closed
/// channel). The request is offered to this queue; which outcome comes
/// depends on the other end and is not stated.
#[verifier::external_body]
fn channel_try_send(queue: &Outbound, req: WriteRequest) -> (r: Result<(), SendFailure<WriteRequest>>)
    ensures
        match r {
            Ok(_) => true,
            Err(SendFailure::Full(x)) => x == req,
            Err(SendFailure::Closed(x)) => x == req,
        },
        offered(queue.connection(), req.packet@, req.mqtt_id@, outcome_of(r)),
{
    match queue.tx.try_send(req) {
        Ok(()) => Ok(()),
        Err(mpsc::error::TrySendError::Full(x)) => Err(SendFailure::Full(x)),
        Err(mpsc::error::TrySendError::Closed(x)) => Err(SendFailure::Closed(x)),
    }
}

/// The queue of packets to the writer of one connection.
pub struct Outbound {
    tx: mpsc::Sender<WriteRequest>,
    /// The connection the queue is registered for, once it is.
    registered_for: Ghost<Option<u128>>,
}

impl Outbound {
    /// The sending end of the writer's channel that the queue sends on.
    pub closed spec fn sender(&self) -> mpsc::Sender<WriteRequest> {
        self.tx
    }

    /// The connection the queue is registered for (none until it is).
    pub closed spec fn connection(&self) -> Option<u128> {
        self.registered_for@
    }

    /// The queue that sends on this end of a writer's channel, not yet
    /// registered for a connection.
    pub fn new(tx: mpsc::Sender<WriteRequest>) -> (r: Self)
        ensures
            r.sender() == tx,
            r.connection() is None,
    {
        Self { tx, registered_for: Ghost(None) }
    }

    /// Offers the request to this queue without waiting; a full queue or a
    /// closed connection gives it back.
    pub fn send(&self, req: WriteRequest) -> (r: Result<(), SendFailure<WriteRequest>>)
        ensures
            match r {
                Ok(_) => true,
                Err(SendFailure::Full(x)) => x == req,
                Err(SendFailure::Closed(x)) => x == req,
            },
            offered(self.connection(), req.packet@, req.mqtt_id@, outcome_of(r)),
    {
        channel_try_send(self, req)
    }
}

/// The writer queue of each connection that has one, as the connection the
/// queue was registered for.
pub uninterp spec fn outbound_connections(m: DashMap<u128, Outbound>) -> Map<u128, Option<u128>>;

/// `DashMap::new`: no connection.
#[verifier::external_body]
fn outbounds_new() -> (r: DashMap<u128, Outbound>)
    ensures
        outbound_connections(r).dom().is_empty(),
{
    DashMap::new()
}

/// `DashMap::insert`: the connection has this queue now.
#[verifier::external_body]
fn outbounds_insert(m: &mut DashMap<u128, Outbound>, client_id: u128, outbound: Outbound)
    ensures
        outbound_connections(*final(m)) == outbound_connections(*old(m)).insert(client_id, outbound.connection()),
{
    m.insert(client_id, outbound);
}

/// `DashMap::remove`: the connection has no queue any more (the queue it
/// had is dropped).
#[verifier::external_body]
fn outbounds_remove(m: &mut DashMap<u128, Outbound>, client_id: &u128)
    ensures
        outbound_connections(*final(m)) == outbound_connections(*old(m)).remove(*client_id),
{
    m.remove(client_id);
}

/// `DashMap::get`, the entry mapped to a copy of its queue (a copy sends to
/// the same connection's channel and is registered for the same connection).
#[verifier::external_body]
fn outbounds_get(m: &DashMap<u128, Outbound>, client_id: &u128) -> (r: Option<Outbound>)
    ensures
        r is Some <==> outbound_connections(*m).dom().contains(*client_id),
        r matches Some(o) ==> o.connection() == outbound_connections(*m)[*client_id],
{
    m.get(client_id).map(|entry| Outbound { tx: entry.value().tx.clone(), registered_for: entry.value().registered_for })
}

/// The connection of each MQTT client identifier.
pub uninterp spec fn clients_by_mqtt_id(m: DashMap<String, u128>) -> Map<Seq<char>, u128>;

/// `DashMap::new`: no client.
#[verifier::external_body]
fn by_mqtt_id_new() -> (r: DashMap<String, u128>)
    ensures
        clients_by_mqtt_id(r).dom().is_empty(),
{
    DashMap::new()
}

/// `DashMap::insert`: the client is at this connection now.
#[verifier::external_body]
fn by_mqtt_id_insert(m: &mut DashMap<String, u128>, mqtt_id: String, client_id: u128)
    ensures
        clients_by_mqtt_id(*final(m)) == clients_by_mqtt_id(*old(m)).insert(mqtt_id@, client_id),
{
    m.insert(mqtt_id, client_id);
}

/// `DashMap::remove`: the client is at no connection any more; returns the
/// connection it was at.
#[verifier::external_body]
fn by_mqtt_id_remove(m: &mut DashMap<String, u128>, mqtt_id: &str) -> (r: Option<u128>)
    ensures
        clients_by_mqtt_id(*final(m)) == clients_by_mqtt_id(*old(m)).remove(mqtt_id@),
        r == (if clients_by_mqtt_id(*old(m)).dom().contains(mqtt_id@) {
            Some(clients_by_mqtt_id(*old(m))[mqtt_id@])
        } else {
            None
        }),
{
    m.remove(mqtt_id).map(|(_, client_id)| client_id)
}

/// `DashMap::get`, the entry mapped to its connection.
#[verifier::external_body]
fn by_mqtt_id_get(m: &DashMap<String, u128>, mqtt_id: &str) -> (r: Option<u128>)
    ensures
        r == (if clients_by_mqtt_id(*m).dom().contains(mqtt_id@) {
            Some(clients_by_mqtt_id(*m)[mqtt_id@])
        } else {
            None
        }),
{
    m.get(mqtt_id).map(|entry| *entry.value())
}

/// The MQTT client identifier of each connection.
pub uninterp spec fn mqtt_ids_by_client(m: DashMap<u128, String>) -> Map<u128, Seq<char>>;

/// `DashMap::new`: no connection.
#[verifier::external_body]
fn by_client_new() -> (r: DashMap<u128, String>)
    ensures
        mqtt_ids_by_client(r).dom().is_empty(),
{
    DashMap::new()
}

/// `DashMap::insert`: the connection serves this client now.
#[verifier::external_body]
fn by_client_insert(m: &mut DashMap<u128, String>, client_id: u128, mqtt_id: String)
    ensures
        mqtt_ids_by_client(*final(m)) == mqtt_ids_by_client(*old(m)).insert(client_id, mqtt_id@),
{
    m.insert(client_id, mqtt_id);
}

/// `DashMap::remove`: the connection serves no client any more.
#[verifier::external_body]
fn by_client_remove(m: &mut DashMap<u128, String>, client_id: &u128)
    ensures
        mqtt_ids_by_client(*final(m)) == mqtt_ids_by_client(*old(m)).remove(*client_id),
{
    m.remove(client_id);
}

/// `DashMap::get`, the entry mapped to a copy of its client identifier.
#[verifier::external_body]
fn by_client_get(m: &DashMap<u128, String>, client_id: &u128) -> (r: Option<String>)
    ensures
        match r {
            Some(s) => mqtt_ids_by_client(*m).dom().contains(*client_id) && s@ == mqtt_ids_by_client(*m)[*client_id],
            None => !mqtt_ids_by_client(*m).dom().contains(*client_id),
        },
{
    m.get(client_id).map(|entry| entry.value().clone())
}

/// The PUBLISH packets that wait for their acknowledgement, with their QoS,
/// by MQTT client identifier and packet identifier.
pub uninterp spec fn inflight_packets(m: DashMap<(String, u16), (Publish, QoS)>) -> Map<(Seq<char>, u16), (PublishModel, QoS)>;

/// The view of an in-flight key.
pub open spec fn inflight_key_view(k: (String, u16)) -> (Seq<char>, u16) {
    (k.0@, k.1)
}

/// The views of in-flight keys.
pub open spec fn keys_view(v: Seq<(String, u16)>) -> Seq<(Seq<char>, u16)> {
    v.map_values(|k: (String, u16)| inflight_key_view(k))
}

/// `DashMap::new`: nothing in flight.
#[verifier::external_body]
fn inflight_new() -> (r: DashMap<(String, u16), (Publish, QoS)>)
    ensures
        inflight_packets(r).dom().is_empty(),
{
    DashMap::new()
}

/// `DashMap::insert`: the key maps to this packet and QoS now.
#[verifier::external_body]
fn inflight_insert(m: &mut DashMap<(String, u16), (Publish, QoS)>, key: (String, u16), value: (Publish, QoS))
    ensures
        inflight_packets(*final(m)) == inflight_packets(*old(m)).insert(inflight_key_view(key), (value.0@, value.1)),
{
    m.insert(key, value);
}

/// `DashMap::remove`: the key maps to nothing any more; returns the packet
/// and QoS it mapped to.
#[verifier::external_body]
fn inflight_remove(m: &mut DashMap<(String, u16), (Publish, QoS)>, key: &(String, u16)) -> (r: Option<(Publish, QoS)>)
    ensures
        inflight_packets(*final(m)) == inflight_packets(*old(m)).remove(inflight_key_view(*key)),
        match r {
            Some(v) => inflight_packets(*old(m)).dom().contains(inflight_key_view(*key))
                && (v.0@, v.1) == inflight_packets(*old(m))[inflight_key_view(*key)],
            None => !inflight_packets(*old(m)).dom().contains(inflight_key_view(*key)),
        },
{
    m.remove(key).map(|(_, value)| value)
}

/// `DashMap::get`, the entry mapped to a copy of its packet and QoS.
#[verifier::external_body]
fn inflight_get(m: &DashMap<(String, u16), (Publish, QoS)>, key: &(String, u16)) -> (r: Option<(Publish, QoS)>)
    ensures
        match r {
            Some(v) => inflight_packets(*m).dom().contains(inflight_key_view(*key))
                && (v.0@, v.1) == inflight_packets(*m)[inflight_key_view(*key)],
            None => !inflight_packets(*m).dom().contains(inflight_key_view(*key)),
        },
{
    m.get(key).map(|entry| (entry.value().0.clone(), entry.value().1))
}

/// `DashMap::iter`, each entry mapped to a copy of its key: every key once,
/// in an order that the contract leaves open.
#[verifier::external_body]
fn inflight_keys(m: &DashMap<(String, u16), (Publish, QoS)>) -> (r: Vec<(String, u16)>)
    ensures
        keys_view(r@).no_duplicates(),
        keys_view(r@).to_set() == inflight_packets(*m).dom(),
{
    m.iter().map(|entry| entry.key().clone()).collect()
}

/// The protocol version of each MQTT client identifier.
pub uninterp spec fn versions_by_mqtt_id(m: DashMap<String, ProtocolVersion>) -> Map<Seq<char>, ProtocolVersion>;

/// `DashMap::new`: no version known.
#[verifier::external_body]
fn versions_new() -> (r: DashMap<String, ProtocolVersion>)
    ensures
        versions_by_mqtt_id(r).dom().is_empty(),
{
    DashMap::new()
}

/// `DashMap::insert`: the client speaks this version now.
#[verifier::external_body]
fn versions_insert(m: &mut DashMap<String, ProtocolVersion>, mqtt_id: String, version: ProtocolVersion)
    ensures
        versions_by_mqtt_id(*final(m)) == versions_by_mqtt_id(*old(m)).insert(mqtt_id@, version),
{
    m.insert(mqtt_id, version);
}

/// `DashMap::get`, the entry mapped to its version.
#[verifier::external_body]
fn versions_get(m: &DashMap<String, ProtocolVersion>, mqtt_id: &str) -> (r: Option<ProtocolVersion>)
    ensures
        r == (if versions_by_mqtt_id(*m).dom().contains(mqtt_id@) {
            Some(versions_by_mqtt_id(*m)[mqtt_id@])
        } else {
            None
        }),
{
    m.get(mqtt_id).map(|entry| *entry.value())
}


/// The sessions of the broker.
pub struct SessionManager {
    /* connection : writer queue */
    by_client_id: DashMap<u128, Outbound>,
    by_mqtt_id: DashMap<String, u128>,
    by_client_mqtt: DashMap<u128, String>,
    /* (MQTT client identifier, packet identifier) : packet and QoS */
    qos_tmp: DashMap<(String, u16), (Publish, QoS)>,
    mqtt_version: DashMap<String, ProtocolVersion>,
}

/// The sessions as values.
pub struct SessionModel {
    /// The writer queue of each connection that has one, as the connection
    /// the queue was registered for.
    pub queues: Map<u128, Option<u128>>,
    /// The connection of each MQTT client identifier.
    pub by_mqtt_id: Map<Seq<char>, u128>,
    /// The MQTT client identifier of each connection.
    pub by_client_mqtt: Map<u128, Seq<char>>,
    /// The PUBLISH packets that wait for an acknowledgement.
    pub inflight: Map<(Seq<char>, u16), (PublishModel, QoS)>,
    /// The protocol version of each MQTT client identifier.
    pub versions: Map<Seq<char>, ProtocolVersion>,
}

impl View for SessionManager {
    type V = SessionModel;

    closed spec fn view(&self) -> SessionModel {
        SessionModel {
            queues: outbound_connections(self.by_client_id),
            by_mqtt_id: clients_by_mqtt_id(self.by_mqtt_id),
            by_client_mqtt: mqtt_ids_by_client(self.by_client_mqtt),
            inflight: inflight_packets(self.qos_tmp),
            versions: versions_by_mqtt_id(self.mqtt_version),
        }
    }
}

/// The in-flight packets without those of one MQTT client identifier.
pub open spec fn spec_inflight_without(m: Map<(Seq<char>, u16), (PublishModel, QoS)>, mqtt_id: Seq<char>) -> Map<
    (Seq<char>, u16),
    (PublishModel, QoS),
> {
    Map::new(|k: (Seq<char>, u16)| m.dom().contains(k) && k.0 != mqtt_id, |k: (Seq<char>, u16)| m[k])
}

/// The sessions after a PUBLISH is staged for an acknowledgement: kept under
/// its packet identifier, when it has one.
pub open spec fn spec_add_staging(s: SessionModel, mqtt_id: Seq<char>, pkt: PublishModel, qos: QoS) -> SessionModel {
    match pkt.packet_id {
        Some(id) => SessionModel { inflight: s.inflight.insert((mqtt_id, id.0), (pkt, qos)), ..s },
        None => s,
    }
}

/// The sessions after the MQTT client identifier is dropped: the connection
/// it was at serves no client and loses its writer queue.
pub open spec fn spec_drop_mqtt_id(s: SessionModel, mqtt_id: Seq<char>) -> SessionModel {
    if s.by_mqtt_id.dom().contains(mqtt_id) {
        let c = s.by_mqtt_id[mqtt_id];
        SessionModel {
            queues: s.queues.remove(c),
            by_mqtt_id: s.by_mqtt_id.remove(mqtt_id),
            by_client_mqtt: s.by_client_mqtt.remove(c),
            ..s
        }
    } else {
        s
    }
}

/// The sessions after the MQTT client identifier is bound to a connection:
/// a connection it was at before is dropped first.
pub open spec fn spec_register_mqtt_id(s: SessionModel, mqtt_id: Seq<char>, client_id: u128) -> SessionModel {
    let s1 = spec_drop_mqtt_id(s, mqtt_id);
    SessionModel {
        by_mqtt_id: s1.by_mqtt_id.insert(mqtt_id, client_id),
        by_client_mqtt: s1.by_client_mqtt.insert(client_id, mqtt_id),
        ..s1
    }
}

/// The sessions after the connection is given a writer queue, which is
/// then registered for it.
pub open spec fn spec_register_client_id(s: SessionModel, client_id: u128) -> SessionModel {
    SessionModel { queues: s.queues.insert(client_id, Some(client_id)), ..s }
}

/// The writer queue that a send to the MQTT client identifier is offered
/// to, as the connection the queue was registered for: that of the
/// identifier's connection, when the identifier has a connection with a
/// queue.
pub open spec fn spec_send_queue(s: SessionModel, mqtt_id: Seq<char>) -> Option<Option<u128>> {
    if s.by_mqtt_id.dom().contains(mqtt_id) && s.queues.dom().contains(s.by_mqtt_id[mqtt_id]) {
        Some(s.queues[s.by_mqtt_id[mqtt_id]])
    } else {
        None
    }
}

/// What a send of `pkt` to an MQTT client identifier leaves: nothing
/// changes when the identifier has no connection; when its connection has
/// no writer queue, the identifier is dropped; otherwise the packet is
/// offered to that queue, and the identifier is dropped when the offer finds
/// the connection closed, while nothing changes when the packet is queued
/// or the queue is full.
pub open spec fn spec_send_outcome(s: SessionModel, mqtt_id: Seq<char>, pkt: ControlPacketModel, after: SessionModel) -> bool {
    match spec_send_queue(s, mqtt_id) {
        Some(queue) => exists|k: SendOutcome|
            #[trigger] offered(queue, pkt, mqtt_id, k) && after == (if k == SendOutcome::Closed {
                spec_drop_mqtt_id(s, mqtt_id)
            } else {
                s
            }),
        None => after == spec_drop_mqtt_id(s, mqtt_id),
    }
}

/// The packet that stands for a PUBLISH of an MQTT client identifier when it
/// is sent again: the PUBLISH with its DUP flag set.
pub open spec fn spec_replayed(pkt: PublishModel) -> ControlPacketModel {
    ControlPacketModel::PUBLISH(PublishModel { dup: Dup(true), ..pkt })
}

/// Whether `keys` holds each in-flight key of the MQTT client identifier
/// (of a packet whose QoS passes `keep`) once, in some order.
pub open spec fn is_inflight_keys_of(
    keys: Seq<(Seq<char>, u16)>,
    inflight: Map<(Seq<char>, u16), (PublishModel, QoS)>,
    mqtt_id: Seq<char>,
) -> bool {
    &&& keys.no_duplicates()
    &&& forall|k: (Seq<char>, u16)| #[trigger] keys.contains(k) <==> inflight.dom().contains(k) && k.0 == mqtt_id
}

/// The sessions after a packet is staged with the given QoS when it is a
/// PUBLISH (other packets are not staged).
pub open spec fn spec_stage_packet(s: SessionModel, mqtt_id: Seq<char>, pkt: ControlPacketModel, qos: QoS) -> SessionModel {
    match pkt {
        ControlPacketModel::PUBLISH(p) => spec_add_staging(s, mqtt_id, p, qos),
        _ => s,
    }
}

/// Whether `packets` are the in-flight packets of the MQTT client
/// identifier, each once in some order, as their packet identifier, packet
/// and QoS.
pub open spec fn is_drained_from(
    packets: Seq<(PacketId, PublishModel, QoS)>,
    inflight: Map<(Seq<char>, u16), (PublishModel, QoS)>,
    mqtt_id: Seq<char>,
) -> bool {
    exists|keys: Seq<(Seq<char>, u16)>|
        {
            &&& is_inflight_keys_of(keys, inflight, mqtt_id)
            &&& keys.len() == packets.len()
            &&& forall|i: int|
                0 <= i < packets.len() ==> packets[i] == (
                    PacketId(#[trigger] keys[i].1),
                    inflight[keys[i]].0,
                    inflight[keys[i]].1,
                )
        }
}

/// Whether `packets` are the in-flight PUBLISH packets of QoS 1 and 2 of the
/// MQTT client identifier, each once in some order, with DUP set.
pub open spec fn is_replay_of(
    packets: Seq<ControlPacketModel>,
    inflight: Map<(Seq<char>, u16), (PublishModel, QoS)>,
    mqtt_id: Seq<char>,
) -> bool {
    exists|keys: Seq<(Seq<char>, u16)>|
        {
            &&& keys.no_duplicates()
            &&& forall|k: (Seq<char>, u16)| #[trigger] keys.contains(k) <==> inflight.dom().contains(k) && k.0 == mqtt_id
                && inflight[k].1 != QoS::QoS0
            &&& keys.len() == packets.len()
            &&& forall|i: int| 0 <= i < packets.len() ==> packets[i] == spec_replayed(inflight[#[trigger] keys[i]].0)
        }
}

/// The views of drained packets.
pub open spec fn drained_view(v: Seq<(PacketId, Publish, QoS)>) -> Seq<(PacketId, PublishModel, QoS)> {
    v.map_values(|x: (PacketId, Publish, QoS)| (x.0, x.1@, x.2))
}

/// The views of packets.
pub open spec fn packets_view(v: Seq<ControlPacket>) -> Seq<ControlPacketModel> {
    v.map_values(|p: ControlPacket| p@)
}

impl SessionManager {
    pub fn new() -> (r: Self)
        ensures
            r@.queues.dom().is_empty(),
            r@.by_mqtt_id.dom().is_empty(),
            r@.by_client_mqtt.dom().is_empty(),
            r@.inflight.dom().is_empty(),
            r@.versions.dom().is_empty(),
    {
        SessionManager {
            by_client_id: outbounds_new(),
            by_mqtt_id: by_mqtt_id_new(),
            by_client_mqtt: by_client_new(),
            qos_tmp: inflight_new(),
            mqtt_version: versions_new(),
        }
    }

    /// The in-flight keys of the MQTT client identifier, each once.
    fn inflight_keys_of(&self, mqtt_id: &str) -> (r: Vec<(String, u16)>)
        ensures
            is_inflight_keys_of(keys_view(r@), self@.inflight, mqtt_id@),
    {
        let id: String = mqtt_id.to_owned();
        let keys = inflight_keys(&self.qos_tmp);
        let ghost kv = keys_view(keys@);
        let mut r: Vec<(String, u16)> = Vec::new();
        let mut i: usize = 0;
        while i < keys.len()
            invariant
                i <= keys.len(),
                id@ == mqtt_id@,
                kv == keys_view(keys@),
                kv.no_duplicates(),
                kv.to_set() == self@.inflight.dom(),
                keys_view(r@).no_duplicates(),
                forall|k: (Seq<char>, u16)| #[trigger] keys_view(r@).contains(k)
                    <==> kv.subrange(0, i as int).contains(k) && k.0 == mqtt_id@,
            decreases keys.len() - i,
        {
            let ghost rv0 = keys_view(r@);
            let ghost key = kv[i as int];
            proof {
                assert(kv.subrange(0, i + 1) =~= kv.subrange(0, i as int).push(key));
                assert(!kv.subrange(0, i as int).contains(key)) by {
                    if kv.subrange(0, i as int).contains(key) {
                        let j = choose|j: int| 0 <= j < i && #[trigger] kv.subrange(0, i as int)[j] == key;
                        assert(kv[j] == kv[i as int]);
                    }
                }
            }
            let same = keys[i].0 == id;
            if same {
                let k = (keys[i].0.clone(), keys[i].1);
                r.push(k);
                proof {
                    let rv = keys_view(r@);
                    assert(rv =~= rv0.push(key));
                    assert(!rv0.contains(key));
                    assert forall|a: int, b: int| 0 <= a < b < rv.len() implies rv[a] != rv[b] by {
                        if b == rv.len() - 1 {
                            assert(rv0.contains(rv0[a]));
                        }
                    }
                }
            }
            proof {
                let rv = keys_view(r@);
                assert(rv == if same { rv0.push(key) } else { rv0 });
                assert forall|k: (Seq<char>, u16)| #[trigger] rv.contains(k) <==> kv.subrange(0, i + 1).contains(k) && k.0
                    == mqtt_id@ by {
                    if k == key {
                        assert(kv.subrange(0, i + 1)[i as int] == k);
                        if same {
                            assert(rv[rv.len() - 1] == k);
                        }
                    } else {
                        if rv.contains(k) {
                            let j = choose|j: int| 0 <= j < rv.len() && #[trigger] rv[j] == k;
                            if same {
                                assert(j < rv0.len());
                                assert(rv0.push(key)[j] == rv0[j]);
                            }
                            assert(rv0[j] == k);
                            assert(rv0.contains(k));
                            let m = choose|m: int| 0 <= m < i && #[trigger] kv.subrange(0, i as int)[m] == k;
                            assert(kv.subrange(0, i + 1)[m] == k);
                        }
                        if kv.subrange(0, i + 1).contains(k) && k.0 == mqtt_id@ {
                            let j = choose|j: int| 0 <= j < i + 1 && #[trigger] kv.subrange(0, i + 1)[j] == k;
                            assert(kv.subrange(0, i as int)[j] == k);
                            assert(kv.subrange(0, i as int).contains(k));
                            assert(rv0.contains(k));
                            let m = choose|m: int| 0 <= m < rv0.len() && #[trigger] rv0[m] == k;
                            assert(0 <= m < rv0.len());
                            if same {
                                assert(rv0.push(key)[m] == rv0[m]);
                            }
                            assert(rv[m] == k);
                        }
                    }
                }
            }
            i += 1;
        }
        proof {
            assert(kv.subrange(0, kv.len() as int) =~= kv);
            let rv = keys_view(r@);
            assert forall|k: (Seq<char>, u16)| #[trigger] rv.contains(k) <==> self@.inflight.dom().contains(k) && k.0
                == mqtt_id@ by {
                if self@.inflight.dom().contains(k) {
                    assert(kv.to_set().contains(k));
                }
                if rv.contains(k) {
                    assert(kv.contains(k));
                }
            }
        }
        r
    }

    /// Drops every in-flight packet of the MQTT client identifier.
    pub fn remove_all_for_mqtt_id(&mut self, mqtt_id: &str)
        ensures
            final(self)@ == (SessionModel { inflight: spec_inflight_without(old(self)@.inflight, mqtt_id@), ..old(self)@ }),
    {
        let keys = self.inflight_keys_of(mqtt_id);
        let ghost kv = keys_view(keys@);
        let mut i: usize = 0;
        while i < keys.len()
            invariant
                i <= keys.len(),
                kv == keys_view(keys@),
                is_inflight_keys_of(kv, old(self)@.inflight, mqtt_id@),
                self@ == (SessionModel { inflight: self@.inflight, ..old(self)@ }),
                forall|k: (Seq<char>, u16)| #[trigger] self@.inflight.dom().contains(k) <==> old(self)@.inflight.dom().contains(k)
                    && !kv.subrange(0, i as int).contains(k),
                forall|k: (Seq<char>, u16)| #[trigger] self@.inflight.dom().contains(k) ==> self@.inflight[k] == old(self)@.inflight[k],
            decreases keys.len() - i,
        {
            let ghost prev = self@.inflight;
            let _ = inflight_remove(&mut self.qos_tmp, &keys[i]);
            proof {
                let key = kv[i as int];
                assert(kv.subrange(0, i + 1) =~= kv.subrange(0, i as int).push(key));
                assert(inflight_key_view(keys@[i as int]) == key);
                assert(self@.inflight == prev.remove(key));
                assert forall|k: (Seq<char>, u16)| #[trigger] self@.inflight.dom().contains(k) <==> old(self)@.inflight.dom().contains(k)
                    && !kv.subrange(0, i + 1).contains(k) by {
                    if kv.subrange(0, i + 1).contains(k) && k != key {
                        let j = choose|j: int| 0 <= j < i + 1 && #[trigger] kv.subrange(0, i + 1)[j] == k;
                        assert(kv.subrange(0, i as int)[j] == k);
                    }
                    if k != key && kv.subrange(0, i as int).contains(k) {
                        let j = choose|j: int| 0 <= j < i && #[trigger] kv.subrange(0, i as int)[j] == k;
                        assert(kv.subrange(0, i + 1)[j] == k);
                    }
                    if k == key {
                        assert(kv.subrange(0, i + 1)[i as int] == k);
                    }
                }
            }
            i += 1;
        }
        proof {
            assert(kv.subrange(0, kv.len() as int) =~= kv);
            assert(self@.inflight =~= spec_inflight_without(old(self)@.inflight, mqtt_id@));
        }
    }

    /// Keeps a PUBLISH for a resend until its acknowledgement, under its
    /// packet identifier (a PUBLISH without one is not kept).
    pub fn add_staging_packet(&mut self, mqtt_id: &str, pkt: Publish, qos: QoS)
        ensures
            final(self)@ == spec_add_staging(old(self)@, mqtt_id@, pkt@, qos),
    {
        if let Some(id) = pkt.packet_id {
            inflight_insert(&mut self.qos_tmp, (mqtt_id.to_owned(), id.0), (pkt, qos));
        }
    }

    /// A copy of the in-flight PUBLISH of the MQTT client identifier with
    /// this packet identifier.
    pub fn fetch_packet(&self, mqtt_id: &str, pid: PacketId) -> (r: Result<Publish, MqttError>)
        ensures
            match r {
                Ok(p) => self@.inflight.dom().contains((mqtt_id@, pid.0)) && p@ == self@.inflight[(mqtt_id@, pid.0)].0,
                Err(e) => e == MqttError::Unexpected && !self@.inflight.dom().contains((mqtt_id@, pid.0)),
            },
    {
        if let Some(entry) = inflight_get(&self.qos_tmp, &(mqtt_id.to_owned(), pid.0)) {
            let (publish, _) = entry;
            Ok(publish)
        } else {
            Err(MqttError::Unexpected)
        }
    }

    /// Drops the in-flight PUBLISH with this packet identifier once it is
    /// acknowledged; refused when there is none.
    pub fn commit_packet(&mut self, mqtt_id: &str, pid: PacketId) -> (r: Result<(), MqttError>)
        ensures
            final(self)@ == (SessionModel { inflight: old(self)@.inflight.remove((mqtt_id@, pid.0)), ..old(self)@ }),
            r == (if old(self)@.inflight.dom().contains((mqtt_id@, pid.0)) {
                Ok::<(), MqttError>(())
            } else {
                Err(MqttError::Unexpected)
            }),
    {
        if inflight_remove(&mut self.qos_tmp, &(mqtt_id.to_owned(), pid.0)).is_some() {
            Ok(())
        } else {
            Err(MqttError::Unexpected)
        }
    }

    /// Takes every in-flight packet of the MQTT client identifier out.
    pub fn drain_packets_by_mqtt_id(&mut self, mqtt_id: &str) -> (r: Vec<(PacketId, Publish, QoS)>)
        ensures
            final(self)@ == (SessionModel { inflight: spec_inflight_without(old(self)@.inflight, mqtt_id@), ..old(self)@ }),
            is_drained_from(drained_view(r@), old(self)@.inflight, mqtt_id@),
    {
        let mut removed: Vec<(PacketId, Publish, QoS)> = Vec::new();
        let keys = self.inflight_keys_of(mqtt_id);
        let ghost kv = keys_view(keys@);
        let ghost before = old(self)@.inflight;
        let mut i: usize = 0;
        while i < keys.len()
            invariant
                i <= keys.len(),
                kv == keys_view(keys@),
                before == old(self)@.inflight,
                is_inflight_keys_of(kv, before, mqtt_id@),
                self@ == (SessionModel { inflight: self@.inflight, ..old(self)@ }),
                forall|k: (Seq<char>, u16)| #[trigger] self@.inflight.dom().contains(k) <==> before.dom().contains(k)
                    && !kv.subrange(0, i as int).contains(k),
                forall|k: (Seq<char>, u16)| #[trigger] self@.inflight.dom().contains(k) ==> self@.inflight[k] == before[k],
                removed@.len() == i,
                forall|j: int|
                    0 <= j < i ==> drained_view(removed@)[j] == (
                        PacketId(#[trigger] kv[j].1),
                        before[kv[j]].0,
                        before[kv[j]].1,
                    ),
            decreases keys.len() - i,
        {
            let ghost key = kv[i as int];
            proof {
                assert(inflight_key_view(keys@[i as int]) == key);
                assert(kv.contains(key));
                assert(!kv.subrange(0, i as int).contains(key)) by {
                    if kv.subrange(0, i as int).contains(key) {
                        let j = choose|j: int| 0 <= j < i && #[trigger] kv.subrange(0, i as int)[j] == key;
                        assert(kv[j] == kv[i as int]);
                    }
                }
                assert(self@.inflight.dom().contains(key));
            }
            let removed_entry = inflight_remove(&mut self.qos_tmp, &keys[i]);
            if let Some((publish, qos)) = removed_entry {
                let ghost prev = removed@;
                removed.push((PacketId(keys[i].1), publish, qos));
                proof {
                    assert forall|j: int| 0 <= j < i + 1 implies drained_view(removed@)[j] == (
                        PacketId(#[trigger] kv[j].1),
                        before[kv[j]].0,
                        before[kv[j]].1,
                    ) by {
                        if j < i {
                            assert(removed@[j] == prev[j]);
                            assert(drained_view(prev)[j] == drained_view(removed@)[j]);
                        }
                    }
                }
            }
            proof {
                assert(kv.subrange(0, i + 1) =~= kv.subrange(0, i as int).push(key));
                assert forall|k: (Seq<char>, u16)| #[trigger] self@.inflight.dom().contains(k) <==> before.dom().contains(k)
                    && !kv.subrange(0, i + 1).contains(k) by {
                    if kv.subrange(0, i + 1).contains(k) && k != key {
                        let j = choose|j: int| 0 <= j < i + 1 && #[trigger] kv.subrange(0, i + 1)[j] == k;
                        assert(kv.subrange(0, i as int)[j] == k);
                    }
                    if k != key && kv.subrange(0, i as int).contains(k) {
                        let j = choose|j: int| 0 <= j < i && #[trigger] kv.subrange(0, i as int)[j] == k;
                        assert(kv.subrange(0, i + 1)[j] == k);
                    }
                    if k == key {
                        assert(kv.subrange(0, i + 1)[i as int] == k);
                    }
                }
            }
            i += 1;
        }
        proof {
            assert(kv.subrange(0, kv.len() as int) =~= kv);
            assert(self@.inflight =~= spec_inflight_without(before, mqtt_id@));
            assert(drained_view(removed@).len() == kv.len());
        }
        removed
    }

    /// The in-flight PUBLISH packets of QoS 1 and 2 of the MQTT client
    /// identifier, to send again with DUP set.
    pub fn replay_inflight(&self, mqtt_id: &str) -> (r: Vec<ControlPacket>)
        ensures
            is_replay_of(packets_view(r@), self@.inflight, mqtt_id@),
    {
        let mut packets: Vec<ControlPacket> = Vec::new();
        let keys = self.inflight_keys_of(mqtt_id);
        let ghost kv = keys_view(keys@);
        let ghost inflight = self@.inflight;
        let ghost mut chosen: Seq<(Seq<char>, u16)> = Seq::empty();
        let mut i: usize = 0;
        while i < keys.len()
            invariant
                i <= keys.len(),
                kv == keys_view(keys@),
                inflight == self@.inflight,
                is_inflight_keys_of(kv, inflight, mqtt_id@),
                chosen.no_duplicates(),
                forall|k: (Seq<char>, u16)| #[trigger] chosen.contains(k) <==> kv.subrange(0, i as int).contains(k)
                    && inflight[k].1 != QoS::QoS0,
                chosen.len() == packets@.len(),
                forall|j: int| 0 <= j < packets@.len() ==> packets@[j]@ == spec_replayed(inflight[#[trigger] chosen[j]].0),
            decreases keys.len() - i,
        {
            let ghost key = kv[i as int];
            let ghost old_chosen = chosen;
            proof {
                assert(inflight_key_view(keys@[i as int]) == key);
                assert(kv.contains(key));
                assert(!kv.subrange(0, i as int).contains(key)) by {
                    if kv.subrange(0, i as int).contains(key) {
                        let j = choose|j: int| 0 <= j < i && #[trigger] kv.subrange(0, i as int)[j] == key;
                        assert(kv[j] == kv[i as int]);
                    }
                }
                assert(!old_chosen.contains(key));
            }
            let entry = inflight_get(&self.qos_tmp, &keys[i]);
            let mut replayed = false;
            if let Some((mut publish, qos)) = entry {
                match qos {
                    QoS::QoS1 | QoS::QoS2 => {
                        // resend with the DUP flag
                        publish.dup = Dup::new(true);
                        let ghost prev = packets@;
                        packets.push(ControlPacket::PUBLISH(publish));
                        replayed = true;
                        proof {
                            chosen = chosen.push(key);
                            assert forall|a: int, b: int| 0 <= a < b < chosen.len() implies chosen[a] != chosen[b] by {
                                if b == chosen.len() - 1 {
                                    assert(old_chosen.contains(old_chosen[a]));
                                }
                            }
                            assert forall|j: int| 0 <= j < packets@.len() implies packets@[j]@ == spec_replayed(
                                inflight[#[trigger] chosen[j]].0,
                            ) by {
                                if j < prev.len() {
                                    assert(packets@[j] == prev[j]);
                                }
                            }
                        }
                    },
                    QoS::QoS0 => {},
                }
            }
            proof {
                assert(kv.subrange(0, i + 1) =~= kv.subrange(0, i as int).push(key));
                assert(replayed <==> inflight[key].1 != QoS::QoS0);
                assert(chosen == if replayed { old_chosen.push(key) } else { old_chosen });
                assert forall|k: (Seq<char>, u16)| #[trigger] chosen.contains(k) <==> kv.subrange(0, i + 1).contains(k)
                    && inflight[k].1 != QoS::QoS0 by {
                    if k == key {
                        assert(kv.subrange(0, i + 1)[i as int] == k);
                        if replayed {
                            assert(chosen[chosen.len() - 1] == k);
                        }
                    } else {
                        if chosen.contains(k) {
                            let j = choose|j: int| 0 <= j < chosen.len() && #[trigger] chosen[j] == k;
                            if replayed {
                                assert(old_chosen.push(key)[j] == old_chosen[j]);
                            }
                            assert(old_chosen[j] == k);
                            assert(old_chosen.contains(k));
                            let m = choose|m: int| 0 <= m < i && #[trigger] kv.subrange(0, i as int)[m] == k;
                            assert(kv.subrange(0, i + 1)[m] == k);
                        }
                        if kv.subrange(0, i + 1).contains(k) && inflight[k].1 != QoS::QoS0 {
                            let j = choose|j: int| 0 <= j < i + 1 && #[trigger] kv.subrange(0, i + 1)[j] == k;
                            assert(kv.subrange(0, i as int)[j] == k);
                            assert(kv.subrange(0, i as int).contains(k));
                            assert(old_chosen.contains(k));
                            let m = choose|m: int| 0 <= m < old_chosen.len() && #[trigger] old_chosen[m] == k;
                            if replayed {
                                assert(old_chosen.push(key)[m] == old_chosen[m]);
                            }
                            assert(chosen[m] == k);
                        }
                    }
                }
            }
            i += 1;
        }
        proof {
            assert(kv.subrange(0, kv.len() as int) =~= kv);
            assert forall|k: (Seq<char>, u16)| #[trigger] chosen.contains(k) <==> inflight.dom().contains(k) && k.0 == mqtt_id@
                && inflight[k].1 != QoS::QoS0 by {
                if chosen.contains(k) {
                    assert(kv.contains(k));
                }
            }
            assert(packets_view(packets@).len() == chosen.len());
            assert forall|j: int| 0 <= j < packets_view(packets@).len() implies packets_view(packets@)[j] == spec_replayed(
                inflight[#[trigger] chosen[j]].0,
            ) by {}
        }
        packets
    }

    /// Gives the connection a writer queue, registered for it.
    pub fn register_client_id(&mut self, client_id: u128, outbound: Outbound)
        ensures
            final(self)@ == spec_register_client_id(old(self)@, client_id),
    {
        let mut outbound = outbound;
        outbound.registered_for = Ghost(Some(client_id));
        outbounds_insert(&mut self.by_client_id, client_id, outbound);
    }

    /// Drops the writer queue of the connection (which closes it).
    pub fn unregister_client_id(&mut self, client_id: u128)
        ensures
            final(self)@ == (SessionModel { queues: old(self)@.queues.remove(client_id), ..old(self)@ }),
    {
        outbounds_remove(&mut self.by_client_id, &client_id);
        outbounds_remove(&mut self.by_client_id, &client_id);
        assert(old(self)@.queues.remove(client_id).remove(client_id) =~= old(self)@.queues.remove(client_id));
    }

    /// Offers the request to the writer queue of the connection; a connection
    /// without a queue counts as closed.
    pub fn send_by_client_id(&self, client_id: &u128, req: WriteRequest) -> (r: Result<(), SendFailure<WriteRequest>>)
        ensures
            !self@.queues.dom().contains(*client_id) ==> r == Err::<(), SendFailure<WriteRequest>>(SendFailure::Closed(req)),
            self@.queues.dom().contains(*client_id) ==> offered(self@.queues[*client_id], req.packet@, req.mqtt_id@, outcome_of(r)),
            match r {
                Ok(_) => true,
                Err(SendFailure::Full(x)) => x == req,
                Err(SendFailure::Closed(x)) => x == req,
            },
    {
        if let Some(outbound) = outbounds_get(&self.by_client_id, client_id) {
            outbound.send(req)
        } else {
            Err(SendFailure::Closed(req))
        }
    }

    /// Keeps a PUBLISH for a resend until its QoS 1 acknowledgement, then
    /// sends the packet to the MQTT client identifier.
    pub fn send_by_mqtt_id_qos1(&mut self, mqtt_id: &String, pkt: ControlPacket) -> (r: Result<(), SendFailure<ControlPacket>>)
        ensures
            r == Ok::<(), SendFailure<ControlPacket>>(()),
            spec_send_outcome(spec_stage_packet(old(self)@, mqtt_id@, pkt@, QoS::QoS1), mqtt_id@, pkt@, final(self)@),
    {
        if let ControlPacket::PUBLISH(publish) = &pkt {
            self.add_staging_packet(mqtt_id.as_str(), publish.clone(), QoS::QoS1);
        }
        self.send_by_mqtt_id(mqtt_id, pkt)
    }

    /// Keeps a PUBLISH for a resend until its QoS 2 exchange completes, then
    /// sends the packet to the MQTT client identifier.
    pub fn send_by_mqtt_id_qos2(&mut self, mqtt_id: &String, pkt: ControlPacket) -> (r: Result<(), SendFailure<ControlPacket>>)
        ensures
            r == Ok::<(), SendFailure<ControlPacket>>(()),
            spec_send_outcome(spec_stage_packet(old(self)@, mqtt_id@, pkt@, QoS::QoS2), mqtt_id@, pkt@, final(self)@),
    {
        if let ControlPacket::PUBLISH(publish) = &pkt {
            self.add_staging_packet(mqtt_id.as_str(), publish.clone(), QoS::QoS2);
        }
        self.send_by_mqtt_id(mqtt_id, pkt)
    }

    /// Sends the packet to the connection of the MQTT client identifier: it
    /// is offered to that connection's writer queue. A closed connection is
    /// dropped with the identifier; a full queue drops the packet; an
    /// identifier without a connection drops it too. It always answers `Ok`.
    pub fn send_by_mqtt_id(&mut self, mqtt_id: &String, pkt: ControlPacket) -> (r: Result<(), SendFailure<ControlPacket>>)
        ensures
            r == Ok::<(), SendFailure<ControlPacket>>(()),
            spec_send_outcome(old(self)@, mqtt_id@, pkt@, final(self)@),
    {
        let ghost s0 = self@;
        let ghost packet = pkt@;
        if let Some(client_id) = by_mqtt_id_get(&self.by_mqtt_id, mqtt_id.as_str()) {
            let sent = self.send_by_client_id(&client_id, WriteRequest { packet: pkt, mqtt_id: mqtt_id.clone() });
            let ghost k = outcome_of(sent);
            match sent {
                Ok(_) => {},
                Err(SendFailure::Closed(_)) => {
                    let _ = by_mqtt_id_remove(&mut self.by_mqtt_id, mqtt_id.as_str());
                    by_client_remove(&mut self.by_client_mqtt, &client_id);
                    self.unregister_client_id(client_id);
                },
                Err(SendFailure::Full(_)) => {
                    // the queue is full: the packet is dropped
                },
            }
            proof {
                if s0.queues.dom().contains(client_id) {
                    assert(offered(s0.queues[client_id], packet, mqtt_id@, k));
                }
            }
            Ok(())
        } else {
            // no connection for this client: the packet is dropped
            Ok(())
        }
    }

    /// Binds the MQTT client identifier to the connection; a connection it
    /// was bound to before is dropped.
    pub fn register_mqtt_id(&mut self, mqtt_id: String, client_id: u128)
        ensures
            final(self)@ == spec_register_mqtt_id(old(self)@, mqtt_id@, client_id),
    {
        if let Some(old_client_id) = by_mqtt_id_remove(&mut self.by_mqtt_id, mqtt_id.as_str()) {
            by_client_remove(&mut self.by_client_mqtt, &old_client_id);
            self.unregister_client_id(old_client_id);
        } else {
            assert(old(self)@.by_mqtt_id.remove(mqtt_id@) =~= old(self)@.by_mqtt_id);
        }
        assert(self@ == spec_drop_mqtt_id(old(self)@, mqtt_id@));
        by_mqtt_id_insert(&mut self.by_mqtt_id, mqtt_id.clone(), client_id);
        by_client_insert(&mut self.by_client_mqtt, client_id, mqtt_id);
    }

    /// Drops the MQTT client identifier and the connection it is bound to.
    pub fn unregister_mqtt_id(&mut self, mqtt_id: String)
        ensures
            final(self)@ == spec_drop_mqtt_id(old(self)@, mqtt_id@),
    {
        if let Some(client_id) = by_mqtt_id_remove(&mut self.by_mqtt_id, mqtt_id.as_str()) {
            by_client_remove(&mut self.by_client_mqtt, &client_id);
            self.unregister_client_id(client_id);
        } else {
            assert(old(self)@.by_mqtt_id.remove(mqtt_id@) =~= old(self)@.by_mqtt_id);
        }
    }

    /// The MQTT client identifier that the connection serves.
    pub fn get_mqtt_id(&self, client_id: &u128) -> (r: Option<String>)
        ensures
            match r {
                Some(s) => self@.by_client_mqtt.dom().contains(*client_id) && s@ == self@.by_client_mqtt[*client_id],
                None => !self@.by_client_mqtt.dom().contains(*client_id),
            },
    {
        by_client_get(&self.by_client_mqtt, client_id)
    }

    /// The protocol version of the MQTT client identifier.
    pub fn get_protocol_version(&self, mqtt_id: &str) -> (r: Option<ProtocolVersion>)
        ensures
            r == (if self@.versions.dom().contains(mqtt_id@) {
                Some(self@.versions[mqtt_id@])
            } else {
                None
            }),
    {
        versions_get(&self.mqtt_version, mqtt_id)
    }

    /// Records the protocol version of the MQTT client identifier.
    pub fn set_protocol_version(&mut self, mqtt_id: &str, version: ProtocolVersion)
        ensures
            final(self)@ == (SessionModel { versions: old(self)@.versions.insert(mqtt_id@, version), ..old(self)@ }),
    {
        versions_insert(&mut self.mqtt_version, mqtt_id.to_owned(), version);
    }
}


/// The packet identifier of a PUBLISH that has one.
pub open spec fn packet_id_of(pkt: PublishModel) -> u16 {
    match pkt.packet_id {
        Some(id) => id.0,
        None => 0,
    }
}

/// Law: a PUBLISH staged under its packet identifier is what a fetch of that
/// identifier gives back, with its QoS, until it is committed.
pub proof fn law_staged_packet_is_fetched(s: SessionModel, mqtt_id: Seq<char>, pkt: PublishModel, qos: QoS)
    requires
        pkt.packet_id is Some,
    ensures
        spec_add_staging(s, mqtt_id, pkt, qos).inflight.dom().contains((mqtt_id, packet_id_of(pkt))),
        spec_add_staging(s, mqtt_id, pkt, qos).inflight[(mqtt_id, packet_id_of(pkt))] == (pkt, qos),
{
}

/// Law: once a packet is committed, it is no longer in flight (a second
/// commit or a fetch of it is refused), and nothing else changes.
pub proof fn law_commit_removes_only_that_packet(s: SessionModel, mqtt_id: Seq<char>, pid: u16, other: (Seq<char>, u16))
    requires
        other != (mqtt_id, pid),
    ensures
        !s.inflight.remove((mqtt_id, pid)).dom().contains((mqtt_id, pid)),
        s.inflight.remove((mqtt_id, pid)).dom().contains(other) <==> s.inflight.dom().contains(other),
{
}

/// Law: draining or dropping the packets of an MQTT client identifier leaves
/// none of its packets in flight and keeps those of every other identifier.
pub proof fn law_inflight_without_keeps_others(
    m: Map<(Seq<char>, u16), (PublishModel, QoS)>,
    mqtt_id: Seq<char>,
    k: (Seq<char>, u16),
)
    ensures
        k.0 == mqtt_id ==> !spec_inflight_without(m, mqtt_id).dom().contains(k),
        k.0 != mqtt_id ==> (spec_inflight_without(m, mqtt_id).dom().contains(k) <==> m.dom().contains(k)),
        k.0 != mqtt_id && m.dom().contains(k) ==> spec_inflight_without(m, mqtt_id)[k] == m[k],
{
}

/// Law: after an MQTT client identifier is bound to a connection, the
/// identifier leads to the connection and the connection back to the
/// identifier.
pub proof fn law_registered_mqtt_id_round_trips(s: SessionModel, mqtt_id: Seq<char>, client_id: u128)
    ensures
        spec_register_mqtt_id(s, mqtt_id, client_id).by_mqtt_id[mqtt_id] == client_id,
        spec_register_mqtt_id(s, mqtt_id, client_id).by_client_mqtt[client_id] == mqtt_id,
        spec_register_mqtt_id(s, mqtt_id, client_id).by_mqtt_id.dom().contains(mqtt_id),
        spec_register_mqtt_id(s, mqtt_id, client_id).by_client_mqtt.dom().contains(client_id),
{
}

/// Law: a send never adds a binding or a connection: whatever its outcome,
/// the bindings and writer queues after it are among those before it.
pub proof fn law_send_only_drops(s: SessionModel, mqtt_id: Seq<char>, pkt: ControlPacketModel, after: SessionModel)
    requires
        spec_send_outcome(s, mqtt_id, pkt, after),
    ensures
        after.by_mqtt_id.dom().subset_of(s.by_mqtt_id.dom()),
        after.by_client_mqtt.dom().subset_of(s.by_client_mqtt.dom()),
        after.queues.dom().subset_of(s.queues.dom()),
        after.inflight == s.inflight,
        after.versions == s.versions,
{
}

/// Law: once a connection has a writer queue and an MQTT client identifier
/// is bound to it, a send to the identifier is offered to the queue
/// registered for that connection. This holds unless the identifier was
/// bound to that same connection already: binding it again drops the
/// connection's queue.
pub proof fn law_send_reaches_registered_connection(s: SessionModel, mqtt_id: Seq<char>, client_id: u128)
    requires
        !(s.by_mqtt_id.dom().contains(mqtt_id) && s.by_mqtt_id[mqtt_id] == client_id),
    ensures
        spec_send_queue(spec_register_mqtt_id(spec_register_client_id(s, client_id), mqtt_id, client_id), mqtt_id)
            == Some(Some(client_id)),
{
}

/// Law: once an MQTT client identifier is dropped (as a send that finds its
/// connection closed does), a later send to it reaches no queue, its former
/// connection has no queue (a send to it is refused as closed) and serves no
/// client.
pub proof fn law_dropped_mqtt_id_reaches_nothing(s: SessionModel, mqtt_id: Seq<char>)
    requires
        s.by_mqtt_id.dom().contains(mqtt_id),
    ensures
        spec_send_queue(spec_drop_mqtt_id(s, mqtt_id), mqtt_id) is None,
        !spec_drop_mqtt_id(s, mqtt_id).queues.dom().contains(s.by_mqtt_id[mqtt_id]),
        !spec_drop_mqtt_id(s, mqtt_id).by_client_mqtt.dom().contains(s.by_mqtt_id[mqtt_id]),
{
}

/// Law: a send that finds the connection of the MQTT client identifier
/// closed (or without a writer queue), the one outcome that changes the
/// sessions, drops the identifier: its former connection then serves no
/// client and has no queue (a send to it is refused as closed), and any later
/// send to the identifier reaches no queue and changes nothing.
pub proof fn law_closed_send_stops_later_sends(
    s: SessionModel,
    mqtt_id: Seq<char>,
    pkt: ControlPacketModel,
    after: SessionModel,
    later_pkt: ControlPacketModel,
    later: SessionModel,
)
    requires
        s.by_mqtt_id.dom().contains(mqtt_id),
        spec_send_outcome(s, mqtt_id, pkt, after),
        after != s,
        spec_send_outcome(after, mqtt_id, later_pkt, later),
    ensures
        after == spec_drop_mqtt_id(s, mqtt_id),
        !after.by_client_mqtt.dom().contains(s.by_mqtt_id[mqtt_id]),
        !after.queues.dom().contains(s.by_mqtt_id[mqtt_id]),
        spec_send_queue(after, mqtt_id) is None,
        later == after,
{
    assert(!after.by_mqtt_id.dom().contains(mqtt_id));
    assert(after.by_mqtt_id.remove(mqtt_id) =~= after.by_mqtt_id);
}

} // verus!
