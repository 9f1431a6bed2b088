//! The fixed header of a packet at the start of a buffer.
use vstd::prelude::*;
use bytes::BytesMut;
use crate::buffers::{bytes_mut_view, bytes_mut_as_slice};
use super::{
    decode_variable_length, spec_decode_variable_length, spec_new_connect, Connect, ControlPacket,
    ControlPacketModel, Disconnect, ParseError, Parsed,
};

verus! {

/// The fixed header at the start of `s`: the packet type is the high nibble
/// of the first byte (CONNECT 1, DISCONNECT 14; any other is refused), the
/// remaining length follows. The packet comes back with its remaining length
/// set and nothing else parsed, with the length of the header.
pub open spec fn spec_parse_fixed_header(s: Seq<u8>) -> Parsed<ControlPacketModel> {
    if s.len() == 0 {
        Parsed::Aborts
    } else {
        let kind = s[0] >> 4u8;
        if kind == 1 {
            match spec_decode_variable_length(s, 1) {
                Parsed::Done(rl, end) => Parsed::Done(ControlPacketModel::CONNECT(spec_new_connect(rl as usize)), end + 1),
                Parsed::Failed(e) => Parsed::Failed(e),
                Parsed::Aborts => Parsed::Aborts,
            }
        } else if kind == 14 {
            match spec_decode_variable_length(s, 1) {
                Parsed::Done(rl, end) => Parsed::Done(ControlPacketModel::DISCONNECT(rl as usize), end + 1),
                Parsed::Failed(e) => Parsed::Failed(e),
                Parsed::Aborts => Parsed::Aborts,
            }
        } else {
            Parsed::Failed(ParseError::ControlPacketType(kind))
        }
    }
}

/// Parses the fixed header at the start of the buffer; returns the packet
/// and the number of bytes the header takes.
pub fn parse_fixed_header(buf: &BytesMut) -> (r: Result<(ControlPacket, usize), ParseError>)
    requires
        !(spec_parse_fixed_header(bytes_mut_view(*buf)) is Aborts),
    ensures
        match spec_parse_fixed_header(bytes_mut_view(*buf)) {
            Parsed::Done(pkt, consumed) => r matches Ok((p, n)) && p@ == pkt && n == consumed,
            Parsed::Failed(e) => r == Err::<(ControlPacket, usize), ParseError>(e),
            Parsed::Aborts => false,
        },
{
    let s = bytes_mut_as_slice(buf);
    let control_type = s[0] >> 4;
    if control_type == 0b0001 {
        let (remaining_length, endpos) = match decode_variable_length(buf, 1) {
            Ok(v) => v,
            Err(e) => return Err(ParseError::Mqtt(e)),
        };
        let consumed_bytes = 1 /* header */ + (endpos - 1) + 1;
        Ok((ControlPacket::CONNECT(Connect::new(remaining_length)), consumed_bytes))
    } else if control_type == 0b1110 {
        let (remaining_length, endpos) = match decode_variable_length(buf, 1) {
            Ok(v) => v,
            Err(e) => return Err(ParseError::Mqtt(e)),
        };
        let consumed_bytes = 1 /* header */ + (endpos - 1) + 1;
        Ok((ControlPacket::DISCONNECT(Disconnect::new(remaining_length)), consumed_bytes))
    } else {
        Err(ParseError::ControlPacketType(control_type))
    }
}

} // verus!
