//! The fixed header of a packet at the start of a buffer.
use vstd::prelude::*;
use bytes::BytesMut;
use crate::buffers::{bytes_mut_view, bytes_mut_as_slice};
use super::{
    decode_variable_byte, spec_decode_variable_byte, spec_default_connect, Connect, ControlPacket,
    ControlPacketModel, Disconnect, MqttPacket, ParseError, Parsed,
};

verus! {

/// The fixed header at the start of `s`: the packet type is the high nibble
/// of the first byte (CONNECT 1, DISCONNECT 14; any other is refused), the
/// remaining length follows. A CONNECT comes back with nothing parsed and
/// the remaining length read; a DISCONNECT with remaining length 0. The
/// position returned is the length of the header.
pub open spec fn spec_parse_fixed_header(s: Seq<u8>) -> Parsed<(ControlPacketModel, usize)> {
    if s.len() == 0 {
        Parsed::Aborts
    } else {
        let kind = s[0] >> 4u8;
        if kind == 1 {
            match spec_decode_variable_byte(s, 1) {
                Parsed::Done(rl, end) => Parsed::Done((ControlPacketModel::CONNECT(spec_default_connect()), rl as usize), end + 1),
                _ => Parsed::Aborts,
            }
        } else if kind == 14 {
            match spec_decode_variable_byte(s, 1) {
                Parsed::Done(_, end) => Parsed::Done((ControlPacketModel::DISCONNECT, 0), end + 1),
                _ => Parsed::Aborts,
            }
        } else {
            Parsed::Failed(ParseError::ControlPacketType(kind))
        }
    }
}

/// Parses the fixed header at the start of the buffer; returns the packet
/// and the number of bytes the header takes.
pub fn parse_fixed_header(buf: &BytesMut) -> (r: Result<(MqttPacket, usize), ParseError>)
    requires
        !(spec_parse_fixed_header(bytes_mut_view(*buf)) is Aborts),
    ensures
        match spec_parse_fixed_header(bytes_mut_view(*buf)) {
            Parsed::Done((pkt, rl), consumed) => r matches Ok((p, n)) && p.control_packet@ == pkt
                && p.remaining_length == rl && n == consumed,
            Parsed::Failed(e) => r == Err::<(MqttPacket, usize), ParseError>(e),
            Parsed::Aborts => false,
        },
{
    let s = bytes_mut_as_slice(buf);
    let mut consumed_bytes: usize = 0;
    let control_type = s[0] >> 4;
    let packet: MqttPacket = if control_type == 0b0001 {
        let (remaining_length, endpos) = decode_variable_byte(buf, 1);
        consumed_bytes = 1 /* header */ + (endpos - 1) + 1;
        MqttPacket { control_packet: ControlPacket::CONNECT(Connect::default()), remaining_length: remaining_length }
    } else if control_type == 0b1110 {
        let (_remaining_length, endpos) = decode_variable_byte(buf, 1);
        consumed_bytes = 1 /* header */ + (endpos - 1) + 1;
        MqttPacket { control_packet: ControlPacket::DISCONNECT(Disconnect::default()), remaining_length: 0 }
    } else {
        return Err(ParseError::ControlPacketType(control_type));
    };
    Ok((packet, consumed_bytes))
}

} // verus!
