//! How the broker's service acknowledges what a client sends: a PUBLISH by
//! its QoS, a SUBSCRIBE by the QoS granted to each filter.
use vstd::prelude::*;
use crate::mqtt_coder::mqtt::{PacketId, QoS};

verus! {

/// The acknowledgement of a PUBLISH.
#[derive(Debug, PartialEq, Eq, Structural, Clone, Copy)]
pub enum PublishAck {
    /// QoS 0: nothing is sent back.
    NoAck,
    /// QoS 1: a PUBACK with the packet identifier.
    Puback(PacketId),
    /// QoS 2: a PUBREC with the packet identifier (first step of the
    /// exchange).
    Pubrec(PacketId),
}

/// The acknowledgement of a PUBLISH of this QoS and packet identifier: none
/// at QoS 0, PUBACK at QoS 1, PUBREC at QoS 2; a PUBLISH of QoS 1 or 2
/// without a packet identifier gets none.
pub open spec fn spec_publish_ack(qos: QoS, packet_id: Option<PacketId>) -> PublishAck {
    match (qos, packet_id) {
        (QoS::QoS1, Some(id)) => PublishAck::Puback(id),
        (QoS::QoS2, Some(id)) => PublishAck::Pubrec(id),
        _ => PublishAck::NoAck,
    }
}

pub fn publish_ack(qos: QoS, packet_id: Option<PacketId>) -> (r: PublishAck)
    ensures
        r == spec_publish_ack(qos, packet_id),
{
    match qos {
        QoS::QoS0 => PublishAck::NoAck,
        QoS::QoS1 => match packet_id {
            Some(id) => PublishAck::Puback(id),
            None => PublishAck::NoAck,
        },
        QoS::QoS2 => match packet_id {
            Some(id) => PublishAck::Pubrec(id),
            None => PublishAck::NoAck,
        },
    }
}

/// The reason code of one topic filter in a SUBACK.
#[derive(Debug, PartialEq, Eq, Structural, Clone, Copy)]
pub enum SubackReasonCode {
    GrantedQoS0,
    GrantedQoS1,
    GrantedQoS2,
}

/// The QoS granted to a filter: the one it asks for, QoS 0 when it asks for
/// none.
pub open spec fn spec_granted(requested: Option<QoS>) -> SubackReasonCode {
    match requested {
        Some(QoS::QoS1) => SubackReasonCode::GrantedQoS1,
        Some(QoS::QoS2) => SubackReasonCode::GrantedQoS2,
        _ => SubackReasonCode::GrantedQoS0,
    }
}

/// The reason codes of a SUBACK: one per topic filter of the SUBSCRIBE, in
/// order, each granting the QoS the filter asks for.
pub fn suback_reason_codes(requested: &Vec<Option<QoS>>) -> (r: Vec<SubackReasonCode>)
    ensures
        r@ == requested@.map_values(|q: Option<QoS>| spec_granted(q)),
{
    let mut reason_codes: Vec<SubackReasonCode> = Vec::new();
    let mut i: usize = 0;
    while i < requested.len()
        invariant
            i <= requested.len(),
            reason_codes@ == requested@.subrange(0, i as int).map_values(|q: Option<QoS>| spec_granted(q)),
        decreases requested.len() - i,
    {
        let qos = match requested[i] {
            Some(q) => q,
            None => QoS::QoS0,
        };
        let code = match qos {
            QoS::QoS0 => SubackReasonCode::GrantedQoS0,
            QoS::QoS1 => SubackReasonCode::GrantedQoS1,
            QoS::QoS2 => SubackReasonCode::GrantedQoS2,
        };
        reason_codes.push(code);
        proof {
            assert(requested@.subrange(0, i + 1) =~= requested@.subrange(0, i as int).push(requested@[i as int]));
        }
        i += 1;
    }
    proof {
        assert(requested@.subrange(0, requested@.len() as int) =~= requested@);
    }
    reason_codes
}

/// Law: the acknowledgement of a PUBLISH carries the packet identifier of
/// the PUBLISH, and only a QoS 0 PUBLISH (or one without identifier) goes
/// unacknowledged.
pub proof fn law_ack_echoes_packet_id(qos: QoS, id: PacketId)
    ensures
        qos == QoS::QoS0 <==> spec_publish_ack(qos, Some(id)) == PublishAck::NoAck,
        qos == QoS::QoS1 ==> spec_publish_ack(qos, Some(id)) == PublishAck::Puback(id),
        qos == QoS::QoS2 ==> spec_publish_ack(qos, Some(id)) == PublishAck::Pubrec(id),
{
}

} // verus!
