//! Reading packets from an incoming buffer, section by section.
use vstd::prelude::*;
use bytes::BytesMut;
use std::task::{Context, Poll};
use crate::buffers::{
    bytes_mut_advance, bytes_mut_as_slice, bytes_mut_extend_from_slice, bytes_mut_new, bytes_mut_view, wake_by_ref,
};
use crate::mqtt_coder::mqtt::decoder::{decode_fixed_header, spec_decode_fixed_header};
use crate::mqtt_coder::mqtt::{
    spec_packet_payload, spec_packet_variable_header, ControlPacket, ControlPacketModel, Decoded, MqttError,
    MqttPacket, ProtocolVersion,
};

verus! {

/// Where a decoder stands in reading a packet.
#[derive(Debug, PartialEq, Eq, Structural, Clone, Copy)]
pub enum DecoderState {
    FixedHeaderDecoded,
    VariableHeaderDecoded,
    /// The last packet is complete (or none was begun).
    Done,
}

/// Reads packets from the bytes that arrive in `buf`: the fixed header, the
/// variable header, then the payload, one step per poll.
pub struct Decoder {
    state: DecoderState,
    tmp_packet: ControlPacket,
    protocol_version: Option<ProtocolVersion>,
    remaining_length: usize,
    remain_length_counter: usize,
    pub buf: BytesMut,
}

/// A decoder as values.
pub struct DecoderModel {
    pub state: DecoderState,
    pub tmp_packet: ControlPacketModel,
    pub protocol_version: Option<ProtocolVersion>,
    pub remaining_length: usize,
    pub remain_length_counter: usize,
    pub buf: Seq<u8>,
}

impl View for Decoder {
    type V = DecoderModel;

    closed spec fn view(&self) -> DecoderModel {
        DecoderModel {
            state: self.state,
            tmp_packet: self.tmp_packet@,
            protocol_version: self.protocol_version,
            remaining_length: self.remaining_length,
            remain_length_counter: self.remain_length_counter,
            buf: bytes_mut_view(self.buf),
        }
    }
}

/// The outcome of a poll, as a value.
pub enum PollDecode {
    Pending,
    Ready(Result<ControlPacketModel, MqttError>),
}

/// The view of a poll's outcome.
pub open spec fn poll_decode_view(r: Poll<Result<ControlPacket, MqttError>>) -> PollDecode {
    match r {
        Poll::Pending => PollDecode::Pending,
        Poll::Ready(Ok(p)) => PollDecode::Ready(Ok(p@)),
        Poll::Ready(Err(e)) => PollDecode::Ready(Err(e)),
    }
}

/// The remaining length that a fixed header gave its packet.
pub open spec fn spec_packet_remaining_length(p: ControlPacketModel) -> usize {
    match p {
        ControlPacketModel::CONNECT(c) => c.remain_length,
        ControlPacketModel::PUBLISH(p) => p.remain_length,
        ControlPacketModel::DISCONNECT(n) => n,
        _ => 0,
    }
}

/// A decoder whose variable header step starts its byte count from zero.
pub open spec fn decoder_wf(d: DecoderModel) -> bool {
    d.state == DecoderState::FixedHeaderDecoded ==> d.remain_length_counter == 0
}

/// Whether the section that the next poll reads is all in `buf` (the
/// decoders of the sections do not stop at the end of the buffer).
pub open spec fn spec_poll_decode_in_bounds(d: DecoderModel) -> bool {
    let buf = d.buf;
    buf.len() > 0 ==> match d.state {
        DecoderState::Done => buf.len() >= 2 ==> !(spec_decode_fixed_header(buf, 0) is Overrun),
        DecoderState::FixedHeaderDecoded => !(spec_packet_variable_header(d.tmp_packet, buf, 0).1 is Overrun),
        DecoderState::VariableHeaderDecoded => !(spec_packet_payload(d.tmp_packet, buf, 0).1 is Overrun),
    }
}

/// One poll of a decoder `d`: the decoder after it and the outcome. Nothing happens on an empty buffer. Done: with
/// at least two bytes, the fixed header is read and dropped from the buffer
/// (Pending); FixedHeaderDecoded: the variable header is read and dropped,
/// and the packet is complete when the bytes read so far are its remaining
/// length; VariableHeaderDecoded: the payload is read and dropped and the
/// packet is complete. A complete packet is handed out and the decoder
/// starts afresh. An error is handed out as it comes; an error in the
/// payload leaves the buffer empty.
pub open spec fn spec_poll_decode(d: DecoderModel) -> (DecoderModel, PollDecode) {
    let buf = d.buf;
    if buf.len() == 0 {
        (d, PollDecode::Pending)
    } else {
        match d.state {
            DecoderState::Done => {
                if buf.len() < 2 {
                    (d, PollDecode::Pending)
                } else {
                    match spec_decode_fixed_header(buf, 0) {
                        Decoded::Done(pkt, p) => (
                            DecoderModel {
                                state: DecoderState::FixedHeaderDecoded,
                                tmp_packet: pkt,
                                remaining_length: spec_packet_remaining_length(pkt),
                                remain_length_counter: 0,
                                buf: buf.skip(p),
                                ..d
                            },
                            PollDecode::Pending,
                        ),
                        Decoded::Failed(e) => (d, PollDecode::Ready(Err(e))),
                        Decoded::Overrun => (d, PollDecode::Pending),
                    }
                }
            },
            DecoderState::FixedHeaderDecoded => {
                let (pkt, out) = spec_packet_variable_header(d.tmp_packet, buf, 0);
                match out {
                    Decoded::Done(_, size) => {
                        let counter = d.remain_length_counter + size;
                        if counter == d.remaining_length {
                            (
                                DecoderModel {
                                    state: DecoderState::Done,
                                    tmp_packet: ControlPacketModel::UNDEFINED,
                                    remain_length_counter: counter as usize,
                                    buf: buf.skip(size),
                                    ..d
                                },
                                PollDecode::Ready(Ok(pkt)),
                            )
                        } else {
                            (
                                DecoderModel {
                                    state: DecoderState::VariableHeaderDecoded,
                                    tmp_packet: pkt,
                                    remain_length_counter: counter as usize,
                                    buf: buf.skip(size),
                                    ..d
                                },
                                PollDecode::Pending,
                            )
                        }
                    },
                    Decoded::Failed(e) => (DecoderModel { tmp_packet: pkt, ..d }, PollDecode::Ready(Err(e))),
                    Decoded::Overrun => (d, PollDecode::Pending),
                }
            },
            DecoderState::VariableHeaderDecoded => {
                let (pkt, out) = spec_packet_payload(d.tmp_packet, buf, 0);
                match out {
                    Decoded::Done(_, size) => (
                        DecoderModel {
                            state: DecoderState::Done,
                            tmp_packet: ControlPacketModel::UNDEFINED,
                            buf: buf.skip(size),
                            ..d
                        },
                        PollDecode::Ready(Ok(pkt)),
                    ),
                    Decoded::Failed(e) => (
                        DecoderModel { tmp_packet: pkt, buf: Seq::empty(), ..d },
                        PollDecode::Ready(Err(e)),
                    ),
                    Decoded::Overrun => (d, PollDecode::Pending),
                }
            },
        }
    }
}

/// Whether a poll of the decoder `d` asks the task to be polled again: it
/// does when it reads a section and more is to come (the fixed header, a
/// variable header that is not the whole packet), when it reads a payload,
/// and when a single byte waits for the second byte of a fixed header. An
/// empty buffer, an error and a packet completed by its variable header do
/// not ask.
pub open spec fn spec_poll_wakes(d: DecoderModel) -> bool {
    let buf = d.buf;
    buf.len() > 0 && match d.state {
        DecoderState::Done => buf.len() < 2 || spec_decode_fixed_header(buf, 0) is Done,
        DecoderState::FixedHeaderDecoded => match spec_packet_variable_header(d.tmp_packet, buf, 0).1 {
            Decoded::Done(_, size) => d.remain_length_counter + size != d.remaining_length,
            _ => false,
        },
        DecoderState::VariableHeaderDecoded => spec_packet_payload(d.tmp_packet, buf, 0).1 is Done,
    }
}

/// Law: a poll that reads nothing to hand out while bytes wait in the buffer
/// asks the task to be polled again, so that a reader is not left waiting on
/// bytes it already has.
pub proof fn law_pending_step_asks_again(d: DecoderModel)
    requires
        decoder_wf(d),
        spec_poll_decode_in_bounds(d),
        d.buf.len() > 0,
        spec_poll_decode(d).1 is Pending,
    ensures
        spec_poll_wakes(d),
{
}

/// Law: a poll that reads a variable header of `n` bytes drops exactly
/// those `n` bytes from the front of the buffer, whether the header
/// completes the packet or a payload follows: the bytes after it stay, in
/// order, for the payload or for the next packet. When the header completes
/// the packet, the packet is handed out and the decoder waits for the fixed
/// header of the next one.
pub proof fn law_variable_header_consumes_its_bytes(d: DecoderModel, n: int)
    requires
        d.state == DecoderState::FixedHeaderDecoded,
        d.buf.len() > 0,
        spec_packet_variable_header(d.tmp_packet, d.buf, 0).1 == Decoded::Done((), n),
        0 <= n <= d.buf.len(),
    ensures
        spec_poll_decode(d).0.buf.len() == d.buf.len() - n,
        forall|i: int| 0 <= i < d.buf.len() - n ==> #[trigger] spec_poll_decode(d).0.buf[i] == d.buf[n + i],
        d.remain_length_counter + n == d.remaining_length ==> {
            &&& spec_poll_decode(d).0.state == DecoderState::Done
            &&& spec_poll_decode(d).1 == PollDecode::Ready(Ok(spec_packet_variable_header(d.tmp_packet, d.buf, 0).0))
        },
        d.remain_length_counter + n != d.remaining_length ==> spec_poll_decode(d).0.state
            == DecoderState::VariableHeaderDecoded,
{
}

/// Law: a poll that reads a fixed header of `p` bytes drops exactly those
/// bytes from the front of the buffer and keeps the rest in order; the
/// packet waits for its variable header, and nothing is handed out yet.
pub proof fn law_fixed_header_consumes_its_bytes(d: DecoderModel, pkt: ControlPacketModel, p: int)
    requires
        d.state == DecoderState::Done,
        d.buf.len() >= 2,
        spec_decode_fixed_header(d.buf, 0) == Decoded::Done(pkt, p),
        0 <= p <= d.buf.len(),
    ensures
        spec_poll_decode(d).0.buf.len() == d.buf.len() - p,
        forall|i: int| 0 <= i < d.buf.len() - p ==> #[trigger] spec_poll_decode(d).0.buf[i] == d.buf[p + i],
        spec_poll_decode(d).0.state == DecoderState::FixedHeaderDecoded,
        spec_poll_decode(d).0.tmp_packet == pkt,
        spec_poll_decode(d).1 == PollDecode::Pending,
{
}

/// Law: a poll that reads a payload of `n` bytes drops exactly those bytes
/// from the front of the buffer, keeps the rest in order for the next
/// packet, and hands the packet out.
pub proof fn law_payload_consumes_its_bytes(d: DecoderModel, n: int)
    requires
        d.state == DecoderState::VariableHeaderDecoded,
        d.buf.len() > 0,
        spec_packet_payload(d.tmp_packet, d.buf, 0).1 == Decoded::Done((), n),
        0 <= n <= d.buf.len(),
    ensures
        spec_poll_decode(d).0.buf.len() == d.buf.len() - n,
        forall|i: int| 0 <= i < d.buf.len() - n ==> #[trigger] spec_poll_decode(d).0.buf[i] == d.buf[n + i],
        spec_poll_decode(d).0.state == DecoderState::Done,
        spec_poll_decode(d).1 == PollDecode::Ready(Ok(spec_packet_payload(d.tmp_packet, d.buf, 0).0)),
{
}

/// The remaining length that the fixed header gave the packet.
fn packet_remaining_length(p: &ControlPacket) -> (r: usize)
    ensures
        r == spec_packet_remaining_length(p@),
{
    match p {
        ControlPacket::CONNECT(c) => c.remain_length,
        ControlPacket::PUBLISH(p) => p.remain_length,
        ControlPacket::DISCONNECT(d) => d.remain_length(),
        _ => 0,
    }
}

impl Decoder {
    pub fn new() -> (r: Self)
        ensures
            r@ == (DecoderModel {
                state: DecoderState::Done,
                tmp_packet: ControlPacketModel::UNDEFINED,
                protocol_version: None,
                remaining_length: 0,
                remain_length_counter: 0,
                buf: Seq::empty(),
            }),
    {
        Self {
            state: DecoderState::Done,
            tmp_packet: ControlPacket::UNDEFINED,
            protocol_version: None,
            remaining_length: 0,
            remain_length_counter: 0,
            buf: bytes_mut_new(),
        }
    }

    pub fn set_protocol_version(&mut self, v: Option<ProtocolVersion>)
        ensures
            final(self)@ == (DecoderModel { protocol_version: v, ..old(self)@ }),
    {
        self.protocol_version = v;
    }

    /// Appends bytes read from the connection to the buffer.
    pub fn feed(&mut self, bytes: &[u8])
        requires
            old(self)@.buf.len() + bytes@.len() <= isize::MAX,
        ensures
            final(self)@ == (DecoderModel { buf: old(self)@.buf + bytes@, ..old(self)@ }),
    {
        bytes_mut_extend_from_slice(&mut self.buf, bytes);
    }

    /// One step of reading a packet from `buf` (see `spec_poll_decode`). A
    /// step that leaves more to do asks the task to be polled again (see
    /// `spec_poll_wakes`).
    pub fn poll_decode(&mut self, cx: &mut Context<'_>) -> (r: Poll<Result<ControlPacket, MqttError>>)
        requires
            decoder_wf(old(self)@),
            spec_poll_decode_in_bounds(old(self)@),
        ensures
            decoder_wf(final(self)@),
            (final(self)@, poll_decode_view(r)) == spec_poll_decode(old(self)@),
    {
        let (r, wake) = self.decode_step();
        if wake {
            wake_by_ref(cx);
        }
        r
    }

    /// One step of reading a packet from `buf`: its outcome, and whether the
    /// task is to be polled again.
    pub fn decode_step(&mut self) -> (r: (Poll<Result<ControlPacket, MqttError>>, bool))
        requires
            decoder_wf(old(self)@),
            spec_poll_decode_in_bounds(old(self)@),
        ensures
            decoder_wf(final(self)@),
            (final(self)@, poll_decode_view(r.0)) == spec_poll_decode(old(self)@),
            r.1 == spec_poll_wakes(old(self)@),
    {
        if bytes_mut_as_slice(&self.buf).len() == 0 {
            return (Poll::Pending, false);
        }
        match self.state {
            // next ( or first)
            DecoderState::Done => self.poll_fixed_header(),
            DecoderState::FixedHeaderDecoded => self.poll_variable_header(),
            DecoderState::VariableHeaderDecoded => self.poll_payload(),
        }
    }

    /// The step that reads the fixed header.
    fn poll_fixed_header(&mut self) -> (r: (Poll<Result<ControlPacket, MqttError>>, bool))
        requires
            old(self)@.state == DecoderState::Done,
            old(self)@.buf.len() > 0,
            spec_poll_decode_in_bounds(old(self)@),
        ensures
            decoder_wf(final(self)@),
            (final(self)@, poll_decode_view(r.0)) == spec_poll_decode(old(self)@),
            r.1 == spec_poll_wakes(old(self)@),
    {
        // at least two bytes are needed
        if bytes_mut_as_slice(&self.buf).len() < 2 {
            return (Poll::Pending, true);
        }
        match decode_fixed_header(&self.buf, 0) {
            Ok((packet, next_pos)) => {
                self.remaining_length = packet_remaining_length(&packet);
                self.tmp_packet = packet;
                bytes_mut_advance(&mut self.buf, next_pos);
                self.state = DecoderState::FixedHeaderDecoded;
                // reset remaining length counter
                self.remain_length_counter = 0;
                (Poll::Pending, true)
            },
            Err(err) => (Poll::Ready(Err(err)), false),
        }
    }

    /// The step that reads the variable header.
    fn poll_variable_header(&mut self) -> (r: (Poll<Result<ControlPacket, MqttError>>, bool))
        requires
            old(self)@.state == DecoderState::FixedHeaderDecoded,
            old(self)@.buf.len() > 0,
            decoder_wf(old(self)@),
            spec_poll_decode_in_bounds(old(self)@),
        ensures
            decoder_wf(final(self)@),
            (final(self)@, poll_decode_view(r.0)) == spec_poll_decode(old(self)@),
            r.1 == spec_poll_wakes(old(self)@),
    {
        match self.tmp_packet.decode_variable_header(&self.buf, 0) {
            Ok(size) => {
                bytes_mut_advance(&mut self.buf, size);
                self.remain_length_counter += size;
                if self.remain_length_counter == self.remaining_length {
                    self.state = DecoderState::Done;
                    let mut packet = ControlPacket::UNDEFINED;
                    std::mem::swap(&mut packet, &mut self.tmp_packet);
                    return (Poll::Ready(Ok(packet)), false);
                }
                self.state = DecoderState::VariableHeaderDecoded;
                (Poll::Pending, true)
            },
            Err(err) => (Poll::Ready(Err(err)), false),
        }
    }

    /// The step that reads the payload.
    fn poll_payload(&mut self) -> (r: (Poll<Result<ControlPacket, MqttError>>, bool))
        requires
            old(self)@.state == DecoderState::VariableHeaderDecoded,
            old(self)@.buf.len() > 0,
            spec_poll_decode_in_bounds(old(self)@),
        ensures
            decoder_wf(final(self)@),
            (final(self)@, poll_decode_view(r.0)) == spec_poll_decode(old(self)@),
            r.1 == spec_poll_wakes(old(self)@),
    {
        let mut buf = bytes_mut_new();
        std::mem::swap(&mut buf, &mut self.buf);
        match self.tmp_packet.decode_payload(&buf, 0) {
            Ok(size) => {
                bytes_mut_advance(&mut buf, size);
                self.state = DecoderState::Done;
                self.buf = buf;
                let mut packet = ControlPacket::UNDEFINED;
                std::mem::swap(&mut packet, &mut self.tmp_packet);
                (Poll::Ready(Ok(packet)), true)
            },
            Err(err) => (Poll::Ready(Err(err)), false),
        }
    }
}

} // verus!
