//! The fixed header of a packet.
use vstd::prelude::*;
use bytes::BytesMut;
use crate::buffers::{bytes_mut_view, bytes_mut_as_slice};
use super::{
    decode_lower_fixed_header, decode_variable_length, spec_decode_variable_length,
    spec_lower_fixed_header, spec_default_connect, spec_default_publish, Connect, ControlPacket,
    ControlPacketModel, ConnectModel, Decoded, Disconnect, MqttError, Publish, PublishModel, QoS,
};

verus! {

/// The fixed header: the packet type is the high nibble of the first byte of
/// the buffer (CONNECT 1, PUBLISH 3, DISCONNECT 14; any other is refused),
/// the remaining length follows at `start + 1`. A PUBLISH takes DUP, QoS and
/// RETAIN from the byte at `start`. The packet comes back with its remaining
/// length set and every other field at its default, with the position after
/// the header.
pub open spec fn spec_decode_fixed_header(s: Seq<u8>, start: int) -> Decoded<ControlPacketModel> {
    if s.len() == 0 {
        Decoded::Overrun
    } else {
        let kind = s[0] >> 4u8;
        if kind == 1 {
            match spec_decode_variable_length(s, start + 1) {
                Decoded::Done(rl, p) => Decoded::Done(
                    ControlPacketModel::CONNECT(ConnectModel { remain_length: rl as usize, ..spec_default_connect() }),
                    p,
                ),
                Decoded::Failed(e) => Decoded::Failed(e),
                Decoded::Overrun => Decoded::Overrun,
            }
        } else if kind == 14 {
            match spec_decode_variable_length(s, start + 1) {
                Decoded::Done(rl, p) => Decoded::Done(ControlPacketModel::DISCONNECT(rl as usize), p),
                Decoded::Failed(e) => Decoded::Failed(e),
                Decoded::Overrun => Decoded::Overrun,
            }
        } else if kind == 3 {
            if start < 0 || start >= s.len() {
                Decoded::Overrun
            } else {
                match spec_lower_fixed_header(s[start]) {
                    Err(e) => Decoded::Failed(e),
                    Ok((dup, qos, retain)) => match spec_decode_variable_length(s, start + 1) {
                        Decoded::Done(rl, p) => Decoded::Done(
                            ControlPacketModel::PUBLISH(
                                PublishModel {
                                    remain_length: rl as usize,
                                    qos: qos,
                                    dup: dup,
                                    retain: retain,
                                    ..spec_default_publish()
                                },
                            ),
                            p,
                        ),
                        Decoded::Failed(e) => Decoded::Failed(e),
                        Decoded::Overrun => Decoded::Overrun,
                    },
                }
            }
        } else {
            Decoded::Failed(MqttError::InvalidFormat)
        }
    }
}

/// Decodes the fixed header at `start_pos` (the packet type is read from the
/// first byte of the buffer); returns the packet and the position after the
/// header.
pub fn decode_fixed_header(buf: &BytesMut, start_pos: usize) -> (r: Result<(ControlPacket, usize), MqttError>)
    requires
        start_pos + 4 <= usize::MAX,
        !(spec_decode_fixed_header(bytes_mut_view(*buf), start_pos as int) is Overrun),
    ensures
        match spec_decode_fixed_header(bytes_mut_view(*buf), start_pos as int) {
            Decoded::Done(v, p) => match r {
                Ok((x, q)) => x@ == v && q as int == p && q <= bytes_mut_view(*buf).len(),
                Err(_) => false,
            },
            Decoded::Failed(e) => r matches Err(x) && x == e,
            Decoded::Overrun => false,
        },
{
    let s = bytes_mut_as_slice(buf);
    match s[0] >> 4 {
        0b0001 => {
            let (remaining_length, next_pos) = decode_variable_length(buf, start_pos + 1)?;
            let mut c = Connect::default();
            c.remain_length = remaining_length;
            return Ok((ControlPacket::CONNECT(c), next_pos));
        },
        0b1110 => {
            let (remaining_length, next_pos) = decode_variable_length(buf, start_pos + 1)?;
            return Ok((ControlPacket::DISCONNECT(Disconnect::new(remaining_length)), next_pos));
        },
        // PUBLISH
        0b0011 => {
            let (dup, qos, retain) = decode_lower_fixed_header(buf, start_pos)?;
            let (remain_length, next_pos) = decode_variable_length(buf, start_pos + 1)?;
            let mut p = Publish::default();
            p.remain_length = remain_length;
            p.qos = qos;
            p.dup = dup;
            p.retain = retain;
            return Ok((ControlPacket::PUBLISH(p), next_pos));
        },
        _ => return Err(MqttError::InvalidFormat),
    }
}

/// The bits of the first byte of a fixed header, as numbers: the packet
/// type is the high nibble, and the PUBLISH flags are bits 3, 2-1 and 0.
proof fn lemma_first_byte_bits(b: u8)
    by (bit_vector)
    ensures
        b >> 4u8 == b / 16,
        (b & 0b00001000 != 0) == ((b / 8) % 2 == 1),
        (b & 0b0000110) >> 1u8 == (b / 2) % 4,
        (b & 0b00000001 != 0) == (b % 2 == 1),
{
}

/// Law: the flags of a PUBLISH fixed header byte: refused exactly when the
/// QoS bits 2-1 are 3; otherwise DUP is bit 3, QoS is bits 2-1 and RETAIN is
/// bit 0.
pub proof fn law_publish_flag_bits(b: u8)
    ensures
        spec_lower_fixed_header(b) is Err <==> (b / 2) % 4 == 3,
        spec_lower_fixed_header(b) matches Ok((dup, qos, retain)) ==> {
            &&& dup.0 == ((b / 8) % 2 == 1)
            &&& retain.0 == (b % 2 == 1)
            &&& (qos == QoS::QoS0 <==> (b / 2) % 4 == 0)
            &&& (qos == QoS::QoS1 <==> (b / 2) % 4 == 1)
            &&& (qos == QoS::QoS2 <==> (b / 2) % 4 == 2)
        },
{
    lemma_first_byte_bits(b);
}

/// Law: the packet that a fixed header at the start of the buffer stands for
/// is chosen by the high nibble of its first byte (1 CONNECT, 3 PUBLISH, 14
/// DISCONNECT; any other nibble is refused as malformed), and its remaining
/// length is the variable byte integer that follows that byte, after which
/// the header ends.
pub proof fn law_fixed_header_packet_type(s: Seq<u8>)
    requires
        s.len() > 0,
    ensures
        (s[0] / 16 != 1 && s[0] / 16 != 3 && s[0] / 16 != 14) ==> spec_decode_fixed_header(s, 0) == Decoded::<
            ControlPacketModel,
        >::Failed(MqttError::InvalidFormat),
        spec_decode_fixed_header(s, 0) matches Decoded::Done(pkt, p) ==> {
            &&& spec_decode_variable_length(s, 1) matches Decoded::Done(rl, q)
            &&& p == q
            &&& (s[0] / 16 == 1 ==> (pkt matches ControlPacketModel::CONNECT(c) && c.remain_length == rl as usize))
            &&& (s[0] / 16 == 3 ==> (pkt matches ControlPacketModel::PUBLISH(x) && x.remain_length == rl as usize))
            &&& (s[0] / 16 == 14 ==> pkt == ControlPacketModel::DISCONNECT(rl as usize))
        },
{
    lemma_first_byte_bits(s[0]);
}

} // verus!
