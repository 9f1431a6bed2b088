//! Writing packets into an outgoing buffer.
use vstd::prelude::*;
use bytes::BytesMut;
use std::task::{Context, Poll};
use crate::buffers::{bytes_mut_view, bytes_as_slice, bytes_mut_extend_from_slice};
use crate::mqtt_coder::mqtt::{ControlPacket, MqttError, MqttPacket};

verus! {

/// Where an encoder stands in writing a packet.
#[derive(Debug, PartialEq, Eq, Structural, Clone, Copy)]
pub enum EncodeState {
    /// The fixed and variable header are next (they go together, since the
    /// fixed header holds the remaining length).
    Header,
    Payload,
    Done,
}

/// Writes packets into a buffer, header first, then payload chunks.
#[derive(Debug)]
pub struct Encoder {
    state: EncodeState,
}

impl View for Encoder {
    type V = EncodeState;

    closed spec fn view(&self) -> EncodeState {
        self.state
    }
}

impl Encoder {
    pub fn new() -> (r: Encoder)
        ensures
            r@ == EncodeState::Header,
    {
        Encoder { state: EncodeState::Header }
    }

    /// Writes the whole packet: its header, then its payload if it has one.
    /// No packet implements encoding, so this fails with `NotImplemented`
    /// and leaves the buffer as it is.
    pub fn encode_all(&mut self, packet: &ControlPacket, buffer: &mut BytesMut) -> (r: Result<(), MqttError>)
        ensures
            r == Err::<(), MqttError>(MqttError::NotImplemented),
            bytes_mut_view(*final(buffer)) == bytes_mut_view(*old(buffer)),
            final(self)@ == old(self)@,
    {
        let fixed_header = packet.encode_fixed_header()?;
        bytes_mut_extend_from_slice(buffer, bytes_as_slice(&fixed_header));
        if let Some(payload) = packet.encode_payload_chunk()? {
            bytes_mut_extend_from_slice(buffer, bytes_as_slice(&payload));
        }
        Ok(())
    }

    /// One step of writing a packet: the header when it is next, otherwise
    /// the next payload chunk (`Ready(Ok(None))` when there is none or the
    /// packet is done). No packet implements encoding, so the header and
    /// payload steps fail with `NotImplemented`, leaving the state and the
    /// buffer as they are.
    pub fn poll_encode(&mut self, _cx: &mut Context<'_>, packet: &ControlPacket, buffer: &mut BytesMut) -> (r: Poll<Result<Option<()>, MqttError>>)
        ensures
            old(self)@ == EncodeState::Done ==> r == Poll::Ready(Ok::<Option<()>, MqttError>(None)),
            old(self)@ != EncodeState::Done ==> r == Poll::Ready(Err::<Option<()>, MqttError>(MqttError::NotImplemented)),
            bytes_mut_view(*final(buffer)) == bytes_mut_view(*old(buffer)),
            final(self)@ == old(self)@,
    {
        match self.state {
            EncodeState::Header => {
                let fixed_header = match packet.encode_fixed_header() {
                    Ok(h) => h,
                    Err(e) => return Poll::Ready(Err(e)),
                };
                bytes_mut_extend_from_slice(buffer, bytes_as_slice(&fixed_header));
                self.state = EncodeState::Payload;
                Poll::Ready(Ok(Some(())))
            },
            EncodeState::Payload => {
                match packet.encode_payload_chunk() {
                    Err(e) => Poll::Ready(Err(e)),
                    Ok(Some(chunk)) => {
                        bytes_mut_extend_from_slice(buffer, bytes_as_slice(&chunk));
                        Poll::Ready(Ok(Some(())))
                    },
                    Ok(None) => {
                        /* some packets (CONNACK) have no payload */
                        self.state = EncodeState::Done;
                        Poll::Ready(Ok(None))
                    },
                }
            },
            EncodeState::Done => Poll::Ready(Ok(None)),
        }
    }
}

} // verus!
