//! A request handed to a service: a parsed packet and the connection it came
//! from.
use vstd::prelude::*;
use crate::mqtt_decoder::mqtt::ControlPacket;

verus! {

/// A packet received on a connection.
pub struct Request {
    packet: ControlPacket,
    client_id: usize,
}

} // verus!
