//! What a service answers to a request: the packets to send back.
use vstd::prelude::*;
use crate::mqtt_coder::mqtt::ControlPacket;

verus! {

/// The packets that a service sends back, in order.
#[derive(Debug)]
pub struct Response {
    pub packets: Vec<ControlPacket>,
}

impl Response {
    pub fn default() -> (r: Response)
        ensures
            r.packets@.len() == 0,
    {
        Response { packets: Vec::new() }
    }

    /// A response of one packet.
    pub fn new(packet: ControlPacket) -> (r: Self)
        ensures
            r.packets@ == seq![packet],
    {
        let mut packets = Vec::new();
        packets.push(packet);
        assert(packets@ =~= seq![packet]);
        Self { packets }
    }

    /// A response of the given packets, in order.
    pub fn new_packets(packets: Vec<ControlPacket>) -> (r: Self)
        ensures
            r.packets@ == packets@,
    {
        Self { packets }
    }
}

} // verus!
