//! The broker: its connections, and the decisions of its accept loop.
use vstd::prelude::*;
use crate::mqtt_coder::mqtt::{ControlPacket, ControlPacketModel};

pub mod acknowledgements;
pub mod connection;

verus! {

/// The kinds of a failed accept that the accept loop tells apart.
#[derive(Debug, PartialEq, Eq, Structural, Clone, Copy)]
pub enum IoErrorKind {
    ConnectionRefused,
    ConnectionAborted,
    ConnectionReset,
    /// Any other kind.
    Other,
}

/// Whether a failed accept concerns only the connection being accepted
/// (refused, aborted or reset by the peer): the loop then accepts again at
/// once, rather than after a pause.
pub fn is_connection_error(kind: IoErrorKind) -> (r: bool)
    ensures
        r <==> (kind == IoErrorKind::ConnectionRefused || kind == IoErrorKind::ConnectionAborted
            || kind == IoErrorKind::ConnectionReset),
{
    match kind {
        IoErrorKind::ConnectionRefused | IoErrorKind::ConnectionAborted | IoErrorKind::ConnectionReset => true,
        IoErrorKind::Other => false,
    }
}

/// The body of a request as a packet.
pub struct MqttPacketBody {
    pub mqttpacket: ControlPacket,
}

impl MqttPacketBody {
    /// A body with no packet decoded yet (the raw body is not read).
    pub fn new<B>(_body: B) -> (r: Self)
        ensures
            r.mqttpacket@ == ControlPacketModel::UNDEFINED,
    {
        Self { mqttpacket: ControlPacket::UNDEFINED }
    }
}

} // verus!
