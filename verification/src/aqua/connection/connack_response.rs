//! What the CONNECT service answers, and how it becomes a CONNACK.
use vstd::prelude::*;
use crate::mqtt_coder::mqtt::{opt_view, Connack, ConnackModel, ConnackProperties, ConnackReason};

verus! {

/// The answer of the CONNECT service: whether a session is present, and the
/// properties to send back.
#[derive(Debug)]
pub struct ConnackResponse {
    pub session_present: bool,
    pub connack_properties: Option<ConnackProperties>,
}

impl ConnackResponse {
    pub fn default() -> (r: ConnackResponse)
        ensures
            r.session_present == false,
            r.connack_properties is None,
    {
        ConnackResponse { session_present: false, connack_properties: None }
    }

    /// The CONNACK of a successful connection that carries this answer.
    pub fn to_connack(self) -> (r: Connack)
        ensures
            r@ == (ConnackModel {
                remaining_length: 0,
                acknowledge_flag: false,
                session_present: self.session_present,
                connect_reason: ConnackReason::Success,
                connack_properties: opt_view(self.connack_properties),
            }),
    {
        Connack {
            remaining_length: 0,
            acknowledge_flag: false,
            session_present: self.session_present,
            connect_reason: ConnackReason::Success,
            connack_properties: self.connack_properties,
        }
    }
}

impl From<Connack> for ConnackResponse {
    fn from(item: Connack) -> (r: Self) {
        ConnackResponse {
            session_present: item.session_present,
            connack_properties: item.connack_properties,
        }
    }
}

impl vstd::std_specs::convert::FromSpecImpl<Connack> for ConnackResponse {
    open spec fn obeys_from_spec() -> bool {
        true
    }

    open spec fn from_spec(item: Connack) -> ConnackResponse {
        ConnackResponse {
            session_present: item.session_present,
            connack_properties: item.connack_properties,
        }
    }
}

/// A refused connection: the reason code to answer with.
#[derive(Debug, Clone, Copy, PartialEq, Eq, Structural)]
pub struct ConnackError {
    pub reason_code: ConnackReason,
}

impl ConnackError {
    /// The error that a failed read or write of the connection stands for.
    pub fn from_io_failure() -> (r: ConnackError)
        ensures
            r.reason_code == ConnackReason::UnspecifiedError,
    {
        ConnackError { reason_code: ConnackReason::UnspecifiedError }
    }

    /// The text of the error: the reason code by its name.
    pub fn message(&self) -> (r: String)
        ensures
            r@ == "CONNACK error: "@ + spec_reason_name(self.reason_code),
    {
        String::from_str("CONNACK error: ").concat(reason_name(self.reason_code))
    }
}

/// The name of a reason code, as the error text shows it.
pub open spec fn spec_reason_name(r: ConnackReason) -> Seq<char> {
    match r {
        ConnackReason::Success => "Success"@,
        ConnackReason::UnspecifiedError => "UnspecifiedError"@,
        ConnackReason::MalformedPacket => "MalformedPacket"@,
        ConnackReason::ProtocolError => "ProtocolError"@,
        ConnackReason::ImplementationSpecificError => "ImplementationSpecificError"@,
        ConnackReason::UnsupportedProtocolVersion => "UnsupportedProtocolVersion"@,
        ConnackReason::ClientIdentifierNotValid => "ClientIdentifierNotValid"@,
        ConnackReason::BadUserNameOrPassword => "BadUserNameOrPassword"@,
        ConnackReason::NotAuthorized => "NotAuthorized"@,
        ConnackReason::ServerUnavailable => "ServerUnavailable"@,
        ConnackReason::ServerBusy => "ServerBusy"@,
        ConnackReason::Banned => "Banned"@,
        ConnackReason::BadAuthenticationMethod => "BadAuthenticationMethod"@,
        ConnackReason::TopicNameInvalid => "TopicNameInvalid"@,
        ConnackReason::PacketTooLarge => "PacketTooLarge"@,
        ConnackReason::QuotaExceeded => "QuotaExceeded"@,
        ConnackReason::PayloadFormatInvalid => "PayloadFormatInvalid"@,
        ConnackReason::RetainNotSupported => "RetainNotSupported"@,
        ConnackReason::QoSNotSupported => "QoSNotSupported"@,
        ConnackReason::UseAnotherServer => "UseAnotherServer"@,
        ConnackReason::ServerMoved => "ServerMoved"@,
        ConnackReason::ConnectionRateExceeded => "ConnectionRateExceeded"@,
    }
}

/// The name of a reason code.
fn reason_name(r: ConnackReason) -> (s: &'static str)
    ensures
        s@ == spec_reason_name(r),
{
    match r {
        ConnackReason::Success => "Success",
        ConnackReason::UnspecifiedError => "UnspecifiedError",
        ConnackReason::MalformedPacket => "MalformedPacket",
        ConnackReason::ProtocolError => "ProtocolError",
        ConnackReason::ImplementationSpecificError => "ImplementationSpecificError",
        ConnackReason::UnsupportedProtocolVersion => "UnsupportedProtocolVersion",
        ConnackReason::ClientIdentifierNotValid => "ClientIdentifierNotValid",
        ConnackReason::BadUserNameOrPassword => "BadUserNameOrPassword",
        ConnackReason::NotAuthorized => "NotAuthorized",
        ConnackReason::ServerUnavailable => "ServerUnavailable",
        ConnackReason::ServerBusy => "ServerBusy",
        ConnackReason::Banned => "Banned",
        ConnackReason::BadAuthenticationMethod => "BadAuthenticationMethod",
        ConnackReason::TopicNameInvalid => "TopicNameInvalid",
        ConnackReason::PacketTooLarge => "PacketTooLarge",
        ConnackReason::QuotaExceeded => "QuotaExceeded",
        ConnackReason::PayloadFormatInvalid => "PayloadFormatInvalid",
        ConnackReason::RetainNotSupported => "RetainNotSupported",
        ConnackReason::QoSNotSupported => "QoSNotSupported",
        ConnackReason::UseAnotherServer => "UseAnotherServer",
        ConnackReason::ServerMoved => "ServerMoved",
        ConnackReason::ConnectionRateExceeded => "ConnectionRateExceeded",
    }
}

} // verus!
