//! The CONNECT decoder that parses a packet whose bytes are all in the
//! buffer, section by section from the start of the buffer.
use vstd::prelude::*;
use vstd::utf8::{decode_utf8, valid_utf8};
use bytes::{Bytes, BytesMut};
use crate::buffers::{bytes_mut_view, bytes_view, bytes_mut_as_slice, bytes_copy_from_slice, str_from_utf8};
use crate::text::{decimal_text, hex_text, spec_decimal, spec_hex};
use crate::mqtt_coder::mqtt::{byte_pair_to_u16, read_u32_be, spec_u16_be, spec_u32_be, pow128, pow128_total};

pub mod parser;

pub use crate::mqtt_coder::mqtt::{Connack, ConnackModel, ConnackProperties, ConnackReason};

verus! {

/// Errors of the MQTT layer.
#[derive(Debug, PartialEq, Eq, Structural, Clone, Copy)]
pub enum MqttError {
    InsufficientBytes,
    DecodeError,
}

/// The text of an error of the MQTT layer.
pub open spec fn spec_mqtt_error_message(e: MqttError) -> Seq<char> {
    match e {
        MqttError::InsufficientBytes => "Insufficient Bytes"@,
        MqttError::DecodeError => "Decode Error Invalid Parameter"@,
    }
}

impl MqttError {
    /// The text of the error.
    pub fn message(&self) -> (r: String)
        ensures
            r@ == spec_mqtt_error_message(*self),
    {
        match self {
            MqttError::InsufficientBytes => String::from_str("Insufficient Bytes"),
            MqttError::DecodeError => String::from_str("Decode Error Invalid Parameter"),
        }
    }
}

/// What is wrong with the protocol name and level of a CONNECT.
#[derive(Debug, PartialEq, Eq, Structural, Clone, Copy)]
pub enum HeaderFault {
    /// The name is "MQTT" but the level is neither 4 nor 5.
    MqttLevel,
    /// The name is "MQIsdp" but the level is not 3.
    MqisdpLevel,
    /// The name is neither.
    ProtocolName,
}

/// A property that may occur once in a CONNECT.
#[derive(Debug, PartialEq, Eq, Structural, Clone, Copy)]
pub enum PropertyKind {
    AuthenticationMethod,
    AuthenticationData,
    PayloadFormatIndicator,
    ContentType,
    CorrelationData,
}

/// Why a packet is refused.
#[derive(Debug, PartialEq, Eq, Structural, Clone, Copy)]
pub enum ParseError {
    /// An error of the MQTT layer (too few bytes).
    Mqtt(MqttError),
    /// A string is not UTF-8.
    InvalidUtf8,
    /// The client identifier of a CONNECT is not UTF-8.
    ClientIdNotUtf8,
    /// The protocol name or level of a CONNECT is not one of MQTT 3.1,
    /// 3.1.1 or 5.
    ProtocolHeader(HeaderFault),
    /// A property list runs past its announced length.
    PropertyLength,
    /// The will properties run past their announced length (the parser of
    /// whole packets).
    WillPropertyLength,
    /// The will properties run past their announced length (the parser of
    /// sections).
    WillPropertyOverrun,
    /// A property identifier that is not known (the parser of whole
    /// packets; the identifier).
    UnknownProperty(u8),
    /// A CONNECT property identifier that is not known (the parser of
    /// sections; the identifier).
    UnknownConnectProperty(u8),
    /// A will property identifier that is not known (the parser of
    /// sections; the identifier).
    UnknownWillProperty(u8),
    /// A property that may occur once occurs again.
    DuplicateProperty(PropertyKind),
    /// A packet type that is not decoded (the type).
    ControlPacketType(u8),
    /// Decoding this section of this packet is not implemented.
    NotImplemented,
    /// A slice that must be four bytes long is not.
    InvalidSliceLength,
}

/// The text of a refusal.
pub open spec fn spec_parse_error_message(e: ParseError) -> Seq<char> {
    match e {
        ParseError::Mqtt(m) => spec_mqtt_error_message(m),
        ParseError::InvalidUtf8 => "Protocol Error: Invalid utf8"@,
        ParseError::ClientIdNotUtf8 => "Protocol: Client ID parse Error, not utf8"@,
        ParseError::ProtocolHeader(HeaderFault::MqttLevel) => "Connect Protocol Header Error, length 4"@,
        ParseError::ProtocolHeader(HeaderFault::MqisdpLevel) => "Connect Protocol Header Error, length 6"@,
        ParseError::ProtocolHeader(HeaderFault::ProtocolName) => "Connect Protocol Header Error, length 6 not 4"@,
        ParseError::PropertyLength => "Property Length Error"@,
        ParseError::WillPropertyLength => "Protocol: Protocol Length ( will properties)"@,
        ParseError::WillPropertyOverrun => "Protocol: Protocol Length overrun (will properties)"@,
        ParseError::UnknownProperty(c) => "Unknown Property "@ + spec_decimal(c as nat),
        ParseError::UnknownConnectProperty(c) => "Unknown Connect Property 0x"@ + spec_hex(c as nat),
        ParseError::UnknownWillProperty(c) => "Protocol: Unknown Will Property Error 0x"@ + spec_hex(c as nat),
        ParseError::DuplicateProperty(PropertyKind::AuthenticationMethod) => "Protocol Error: Duplicateauthentication method"@,
        ParseError::DuplicateProperty(PropertyKind::AuthenticationData) => "Protocol Error: Duplicateauthentication data"@,
        ParseError::DuplicateProperty(PropertyKind::PayloadFormatIndicator) => "Protocol: Duplicate Payload format indicator"@,
        ParseError::DuplicateProperty(PropertyKind::ContentType) => "Protocol: Duplicate content type"@,
        ParseError::DuplicateProperty(PropertyKind::CorrelationData) => "Protocol: Duplicate will properties correlation data"@,
        ParseError::ControlPacketType(t) => "Control packet decode error "@ + spec_decimal(t as nat),
        ParseError::NotImplemented => "Not Implemented"@,
        ParseError::InvalidSliceLength => "Invalid slice length for u32"@,
    }
}

impl ParseError {
    /// The text of the refusal.
    pub fn message(&self) -> (r: String)
        ensures
            r@ == spec_parse_error_message(*self),
    {
        match self {
            ParseError::Mqtt(m) => m.message(),
            ParseError::InvalidUtf8 => String::from_str("Protocol Error: Invalid utf8"),
            ParseError::ClientIdNotUtf8 => String::from_str("Protocol: Client ID parse Error, not utf8"),
            ParseError::ProtocolHeader(HeaderFault::MqttLevel) => String::from_str("Connect Protocol Header Error, length 4"),
            ParseError::ProtocolHeader(HeaderFault::MqisdpLevel) => String::from_str("Connect Protocol Header Error, length 6"),
            ParseError::ProtocolHeader(HeaderFault::ProtocolName) => String::from_str(
                "Connect Protocol Header Error, length 6 not 4",
            ),
            ParseError::PropertyLength => String::from_str("Property Length Error"),
            ParseError::WillPropertyLength => String::from_str("Protocol: Protocol Length ( will properties)"),
            ParseError::WillPropertyOverrun => String::from_str("Protocol: Protocol Length overrun (will properties)"),
            ParseError::UnknownProperty(c) => String::from_str("Unknown Property ").concat(decimal_text(*c).as_str()),
            ParseError::UnknownConnectProperty(c) => String::from_str("Unknown Connect Property 0x").concat(
                hex_text(*c).as_str(),
            ),
            ParseError::UnknownWillProperty(c) => String::from_str("Protocol: Unknown Will Property Error 0x").concat(
                hex_text(*c).as_str(),
            ),
            ParseError::DuplicateProperty(PropertyKind::AuthenticationMethod) => String::from_str(
                "Protocol Error: Duplicateauthentication method",
            ),
            ParseError::DuplicateProperty(PropertyKind::AuthenticationData) => String::from_str(
                "Protocol Error: Duplicateauthentication data",
            ),
            ParseError::DuplicateProperty(PropertyKind::PayloadFormatIndicator) => String::from_str(
                "Protocol: Duplicate Payload format indicator",
            ),
            ParseError::DuplicateProperty(PropertyKind::ContentType) => String::from_str("Protocol: Duplicate content type"),
            ParseError::DuplicateProperty(PropertyKind::CorrelationData) => String::from_str(
                "Protocol: Duplicate will properties correlation data",
            ),
            ParseError::ControlPacketType(t) => String::from_str("Control packet decode error ").concat(
                decimal_text(*t).as_str(),
            ),
            ParseError::NotImplemented => String::from_str("Not Implemented"),
            ParseError::InvalidSliceLength => String::from_str("Invalid slice length for u32"),
        }
    }
}

/// Outcome of parsing at a position of a byte sequence: the item and a
/// position, a refusal, or a read past the end of the bytes or an
/// unimplemented branch (the parser does not return).
pub enum Parsed<T> {
    Done(T, int),
    Failed(ParseError),
    Aborts,
}

/// Version of the protocol that a CONNECT asks for.
#[derive(PartialEq, Eq, Structural, Debug, Clone, Copy)]
pub enum ProtocolVersion {
    V3,
    V3_1,
    V3_1_1,
    V5,
    Other,
}

pub fn decode_u32_bytes(buf: &BytesMut, start_pos: usize) -> (r: Result<u32, ParseError>)
    requires
        start_pos + 4 <= bytes_mut_view(*buf).len(),
    ensures
        r == Ok::<u32, ParseError>(spec_u32_be(bytes_mut_view(*buf), start_pos as int)),
{
    let s = bytes_mut_as_slice(buf);
    Ok(read_u32_be(s, start_pos))
}

pub fn decode_u16_bytes(buf: &BytesMut, start_pos: usize) -> (r: Result<u16, ParseError>)
    requires
        start_pos + 2 <= bytes_mut_view(*buf).len(),
    ensures
        r == Ok::<u16, ParseError>(
            spec_u16_be(bytes_mut_view(*buf)[start_pos as int], bytes_mut_view(*buf)[start_pos + 1]),
        ),
{
    let s = bytes_mut_as_slice(buf);
    Ok(byte_pair_to_u16(s[start_pos], s[start_pos + 1]))
}

/// Reads a 32-bit big-endian integer from a slice that must be exactly four
/// bytes long.
pub fn decode_u32_bytes_sliced(v: &[u8]) -> (r: Result<u32, ParseError>)
    ensures
        v@.len() == 4 ==> r == Ok::<u32, ParseError>(spec_u32_be(v@, 0)),
        v@.len() != 4 ==> r == Err::<u32, ParseError>(ParseError::InvalidSliceLength),
{
    if v.len() != 4 {
        return Err(ParseError::InvalidSliceLength);
    }
    Ok(read_u32_be(v, 0))
}

/// A UTF-8 string prefixed by its 16-bit big-endian length.
pub open spec fn spec_decode_utf8_string(s: Seq<u8>, start: int) -> Parsed<Seq<char>> {
    if start < 0 || start + 2 > s.len() {
        Parsed::Aborts
    } else {
        let length = spec_u16_be(s[start], s[start + 1]) as int;
        if start + 2 + length > s.len() {
            Parsed::Failed(ParseError::Mqtt(MqttError::InsufficientBytes))
        } else if !valid_utf8(s.subrange(start + 2, start + 2 + length)) {
            Parsed::Failed(ParseError::InvalidUtf8)
        } else {
            Parsed::Done(decode_utf8(s.subrange(start + 2, start + 2 + length)), start + 2 + length)
        }
    }
}

/// Reads a length-prefixed UTF-8 string at `start_pos`; returns it and the
/// position after it.
pub fn decode_utf8_string(buf: &BytesMut, start_pos: usize) -> (r: Result<(String, usize), ParseError>)
    requires
        !(spec_decode_utf8_string(bytes_mut_view(*buf), start_pos as int) is Aborts),
    ensures
        match spec_decode_utf8_string(bytes_mut_view(*buf), start_pos as int) {
            Parsed::Done(v, p) => r matches Ok((st, q)) && st@ == v && q == p,
            Parsed::Failed(e) => r == Err::<(String, usize), ParseError>(e),
            Parsed::Aborts => false,
        },
{
    let s = bytes_mut_as_slice(buf);
    let length = byte_pair_to_u16(s[start_pos], s[start_pos + 1]) as usize;
    if start_pos + 2 + length > s.len() {
        return Err(ParseError::Mqtt(MqttError::InsufficientBytes));
    }
    let body = vstd::slice::slice_subrange(s, start_pos + 2, start_pos + 2 + length);
    match str_from_utf8(body) {
        Some(v) => Ok((v.to_owned(), start_pos + 2 + length)),
        None => Err(ParseError::InvalidUtf8),
    }
}

/// A variable byte integer read from `start + i` on (`acc` the value of the
/// groups already read); the position returned is that of its last byte
/// (`start + 3` when all four bytes have the continuation bit). Refused when
/// `start + i` is past the end; the byte at the end itself is read.
pub open spec fn spec_variable_length_from(s: Seq<u8>, start: int, i: nat, acc: int) -> Parsed<int>
    decreases 4 - i,
{
    if i >= 4 {
        Parsed::Done(acc, start + 3)
    } else if s.len() < start + i {
        Parsed::Failed(ParseError::Mqtt(MqttError::InsufficientBytes))
    } else if s.len() == start + i {
        Parsed::Aborts
    } else {
        let b = s[start + i];
        let acc2 = acc + (b % 128) as int * pow128(i);
        if b < 128 {
            Parsed::Done(acc2, start + i)
        } else {
            spec_variable_length_from(s, start, i + 1, acc2)
        }
    }
}

pub open spec fn spec_decode_variable_length(s: Seq<u8>, start: int) -> Parsed<int> {
    spec_variable_length_from(s, start, 0, 0)
}

proof fn lemma_variable_length_bounds(s: Seq<u8>, start: int, i: nat, acc: int)
    requires
        i <= 4,
        0 <= start,
        0 <= acc < pow128_total(i),
        i == 4 ==> start + 3 < s.len(),
    ensures
        spec_variable_length_from(s, start, i, acc) matches Parsed::Done(v, p) ==> 0 <= v
            < 268435456 && start <= p <= start + 3 && p < s.len(),
    decreases 4 - i,
{
    if i < 4 && s.len() > start + i {
        let b = s[start + i];
        let acc2 = acc + (b % 128) as int * pow128(i);
        assert((b % 128) as int * pow128(i) <= 127 * pow128(i)) by (nonlinear_arith)
            requires
                (b % 128) as int <= 127,
                pow128(i) >= 0,
        ;
        if b >= 128 {
            lemma_variable_length_bounds(s, start, i + 1, acc2);
        }
    }
}

pub(crate) proof fn lemma_digit_shift(b: u8, inc: usize)
    requires
        inc < 4,
    ensures
        (((b & 0x7f) as usize) << (inc * 7)) as int == (b % 128) as int * pow128(inc as nat),
{
    assert(b & 0x7f == b % 128) by (bit_vector);
    let d = (b % 128) as usize;
    if inc == 0 {
        assert(d << 0usize == d) by (bit_vector);
    } else if inc == 1 {
        assert(d < 128 ==> d << 7usize == d * 128) by (bit_vector);
    } else if inc == 2 {
        assert(d < 128 ==> d << 14usize == d * 16384) by (bit_vector);
    } else {
        assert(d < 128 ==> d << 21usize == d * 2097152) by (bit_vector);
    }
}

/// Reads the variable byte integer at `start_pos`; returns its value and the
/// position of its last byte.
pub fn decode_variable_length(buf: &BytesMut, start_pos: usize) -> (r: Result<(usize, usize), MqttError>)
    requires
        start_pos + 3 <= usize::MAX,
        !(spec_decode_variable_length(bytes_mut_view(*buf), start_pos as int) is Aborts),
    ensures
        match spec_decode_variable_length(bytes_mut_view(*buf), start_pos as int) {
            Parsed::Done(v, p) => r == Ok::<(usize, usize), MqttError>((v as usize, p as usize))
                && 0 <= v < 268435456 && start_pos <= p <= start_pos + 3 && p < bytes_mut_view(*buf).len(),
            Parsed::Failed(e) => e matches ParseError::Mqtt(m) && r == Err::<(usize, usize), MqttError>(m),
            Parsed::Aborts => false,
        },
{
    let s = bytes_mut_as_slice(buf);
    let ghost sv = s@;
    let mut remaining_length: usize = 0;
    let mut inc: usize = 0;
    let mut pos: usize = start_pos;
    while pos <= start_pos + 3
        invariant
            !(spec_decode_variable_length(sv, start_pos as int) is Aborts),
            sv == s@,
            sv == bytes_mut_view(*buf),
            start_pos + 3 <= usize::MAX,
            pos == start_pos + inc,
            inc <= 4,
            inc > 0 ==> pos <= sv.len(),
            0 <= remaining_length < pow128_total(inc as nat),
            spec_decode_variable_length(sv, start_pos as int) == spec_variable_length_from(
                sv,
                start_pos as int,
                inc as nat,
                remaining_length as int,
            ),
        decreases 4 - inc,
    {
        if s.len() < pos {
            return Err(MqttError::InsufficientBytes);
        }
        let b = s[pos];
        proof {
            lemma_variable_length_bounds(sv, start_pos as int, inc as nat, remaining_length as int);
            lemma_digit_shift(b, inc);
            assert((b % 128) as int * pow128(inc as nat) <= 127 * pow128(inc as nat)) by (nonlinear_arith)
                requires
                    (b % 128) as int <= 127,
                    pow128(inc as nat) >= 0,
            ;
        }
        remaining_length += ((b & 0b01111111) as usize) << (inc * 7);
        if (b & 0b10000000) == 0 {
            assert(b & 0x80 == 0 <==> b < 128) by (bit_vector);
            return Ok((remaining_length, pos));
        }
        assert(b & 0x80 != 0 <==> b >= 128) by (bit_vector);
        inc += 1;
        pos += 1;
    }
    proof {
        lemma_variable_length_bounds(sv, start_pos as int, 4, remaining_length as int);
    }
    Ok((remaining_length, start_pos + 3))
}


/// The view of a string pair.
pub open spec fn pair_view(p: (String, String)) -> (Seq<char>, Seq<char>) {
    (p.0@, p.1@)
}

/// The views of a sequence of string pairs.
pub open spec fn pairs_view(ps: Seq<(String, String)>) -> Seq<(Seq<char>, Seq<char>)> {
    ps.map_values(|p: (String, String)| pair_view(p))
}

/// The view of optional bytes.
pub open spec fn opt_bytes_view(o: Option<Bytes>) -> Option<Seq<u8>> {
    match o {
        Some(b) => Some(bytes_view(b)),
        None => None,
    }
}

/// The view of an optional string.
pub open spec fn opt_string_view(o: Option<String>) -> Option<Seq<char>> {
    match o {
        Some(s) => Some(s@),
        None => None,
    }
}

pub(crate) fn push_pair(v: &mut Vec<(String, String)>, x: (String, String))
    ensures
        pairs_view(final(v)@) == pairs_view(old(v)@).push(pair_view(x)),
{
    let ghost before = v@;
    v.push(x);
    assert(pairs_view(v@) =~= pairs_view(before).push(pair_view(x)));
}

/// The properties of a CONNECT, with their defaults.
#[derive(PartialEq, Debug)]
pub struct ConnectProperties {
    pub session_expiry_interval: u32,
    pub receive_maximum: u16,
    pub maximum_packet_size: u32,
    pub topic_alias_maximum: u16,
    pub request_response_information: bool,
    pub request_problem_infromation: bool,
    pub user_properties: Vec<(String, String)>,
    pub authentication_method: Option<String>,
    pub authentication_data: Option<Bytes>,
}

/// The properties of a CONNECT as values.
pub struct ConnectPropertiesModel {
    pub session_expiry_interval: u32,
    pub receive_maximum: u16,
    pub maximum_packet_size: u32,
    pub topic_alias_maximum: u16,
    pub request_response_information: bool,
    pub request_problem_infromation: bool,
    pub user_properties: Seq<(Seq<char>, Seq<char>)>,
    pub authentication_method: Option<Seq<char>>,
    pub authentication_data: Option<Seq<u8>>,
}

impl View for ConnectProperties {
    type V = ConnectPropertiesModel;

    open spec fn view(&self) -> ConnectPropertiesModel {
        ConnectPropertiesModel {
            session_expiry_interval: self.session_expiry_interval,
            receive_maximum: self.receive_maximum,
            maximum_packet_size: self.maximum_packet_size,
            topic_alias_maximum: self.topic_alias_maximum,
            request_response_information: self.request_response_information,
            request_problem_infromation: self.request_problem_infromation,
            user_properties: pairs_view(self.user_properties@),
            authentication_method: opt_string_view(self.authentication_method),
            authentication_data: opt_bytes_view(self.authentication_data),
        }
    }
}

/// The defaults of the CONNECT properties: no session expiry, the largest
/// receive maximum and packet size, no topic aliases, no response
/// information, problem information requested.
pub open spec fn spec_default_connect_properties() -> ConnectPropertiesModel {
    ConnectPropertiesModel {
        session_expiry_interval: 0,
        receive_maximum: u16::MAX,
        maximum_packet_size: u32::MAX,
        topic_alias_maximum: 0,
        request_response_information: false,
        request_problem_infromation: true,
        user_properties: Seq::empty(),
        authentication_method: None,
        authentication_data: None,
    }
}

impl ConnectProperties {
    pub fn default() -> (r: Self)
        ensures
            r@ == spec_default_connect_properties(),
    {
        let r = Self {
            session_expiry_interval: 0,
            receive_maximum: u16::MAX,
            maximum_packet_size: u32::MAX,
            topic_alias_maximum: 0,
            request_response_information: false,
            request_problem_infromation: true,
            user_properties: Vec::new(),
            authentication_method: None,
            authentication_data: None,
        };
        assert(r@.user_properties =~= Seq::<(Seq<char>, Seq<char>)>::empty());
        r
    }
}

/// The will properties of a CONNECT, with their defaults.
#[derive(PartialEq, Debug)]
pub struct WillProperties {
    pub will_delay_interval: u32,
    pub payload_format_indicator: Option<bool>,
    pub message_expiry_interval: Option<u32>,
    pub content_type: Option<String>,
    pub response_topic: Option<String>,
    pub correlation_data: Option<Bytes>,
    pub user_properties: Vec<(String, String)>,
    pub subscription_identifier: usize,
}

/// The will properties of a CONNECT as values.
pub struct WillPropertiesModel {
    pub will_delay_interval: u32,
    pub payload_format_indicator: Option<bool>,
    pub message_expiry_interval: Option<u32>,
    pub content_type: Option<Seq<char>>,
    pub response_topic: Option<Seq<char>>,
    pub correlation_data: Option<Seq<u8>>,
    pub user_properties: Seq<(Seq<char>, Seq<char>)>,
    pub subscription_identifier: usize,
}

impl View for WillProperties {
    type V = WillPropertiesModel;

    open spec fn view(&self) -> WillPropertiesModel {
        WillPropertiesModel {
            will_delay_interval: self.will_delay_interval,
            payload_format_indicator: self.payload_format_indicator,
            message_expiry_interval: self.message_expiry_interval,
            content_type: opt_string_view(self.content_type),
            response_topic: opt_string_view(self.response_topic),
            correlation_data: opt_bytes_view(self.correlation_data),
            user_properties: pairs_view(self.user_properties@),
            subscription_identifier: self.subscription_identifier,
        }
    }
}

pub open spec fn spec_default_will_properties() -> WillPropertiesModel {
    WillPropertiesModel {
        will_delay_interval: 0,
        payload_format_indicator: None,
        message_expiry_interval: None,
        content_type: None,
        response_topic: None,
        correlation_data: None,
        user_properties: Seq::empty(),
        subscription_identifier: 0,
    }
}

impl WillProperties {
    pub fn default() -> (r: Self)
        ensures
            r@ == spec_default_will_properties(),
    {
        let r = Self {
            will_delay_interval: 0,
            payload_format_indicator: None,
            message_expiry_interval: None,
            content_type: None,
            response_topic: None,
            correlation_data: None,
            user_properties: Vec::new(),
            subscription_identifier: 0,
        };
        assert(r@.user_properties =~= Seq::<(Seq<char>, Seq<char>)>::empty());
        r
    }
}

/// A CONNECT packet as far as it is parsed.
#[derive(PartialEq, Debug)]
pub struct Connect {
    pub remain_length: usize,
    pub protocol_ver: ProtocolVersion,
    pub clean_session: bool,
    pub will: bool,
    pub will_qos: u8,
    pub will_retain: bool,
    pub will_topic: String,
    pub will_payload: Option<Bytes>,
    pub user_password_flag: bool,
    pub user_name_flag: bool,
    pub client_id: String,
    pub username: Option<String>,
    pub password: Option<Bytes>,
    pub keepalive_timer: u16,
    pub properties: ConnectProperties,
    pub will_properties: WillProperties,
}

/// A CONNECT packet as values.
pub struct ConnectModel {
    pub remain_length: usize,
    pub protocol_ver: ProtocolVersion,
    pub clean_session: bool,
    pub will: bool,
    pub will_qos: u8,
    pub will_retain: bool,
    pub will_topic: Seq<char>,
    pub will_payload: Option<Seq<u8>>,
    pub user_password_flag: bool,
    pub user_name_flag: bool,
    pub client_id: Seq<char>,
    pub username: Option<Seq<char>>,
    pub password: Option<Seq<u8>>,
    pub keepalive_timer: u16,
    pub properties: ConnectPropertiesModel,
    pub will_properties: WillPropertiesModel,
}

impl View for Connect {
    type V = ConnectModel;

    open spec fn view(&self) -> ConnectModel {
        ConnectModel {
            remain_length: self.remain_length,
            protocol_ver: self.protocol_ver,
            clean_session: self.clean_session,
            will: self.will,
            will_qos: self.will_qos,
            will_retain: self.will_retain,
            will_topic: self.will_topic@,
            will_payload: opt_bytes_view(self.will_payload),
            user_password_flag: self.user_password_flag,
            user_name_flag: self.user_name_flag,
            client_id: self.client_id@,
            username: opt_string_view(self.username),
            password: opt_bytes_view(self.password),
            keepalive_timer: self.keepalive_timer,
            properties: self.properties@,
            will_properties: self.will_properties@,
        }
    }
}

/// A fresh CONNECT of the given remaining length.
pub open spec fn spec_new_connect(remain_length: usize) -> ConnectModel {
    ConnectModel {
        remain_length: remain_length,
        protocol_ver: ProtocolVersion::Other,
        clean_session: false,
        will: false,
        will_qos: 0,
        will_retain: false,
        will_topic: Seq::empty(),
        will_payload: None,
        user_password_flag: false,
        user_name_flag: false,
        client_id: Seq::empty(),
        username: None,
        password: None,
        keepalive_timer: 0,
        properties: spec_default_connect_properties(),
        will_properties: spec_default_will_properties(),
    }
}

/// The CONNECT after its flags are set from byte `b`.
pub open spec fn spec_connect_flag(c: ConnectModel, b: u8) -> ConnectModel {
    ConnectModel {
        clean_session: (b & 0b00000010) == 0b00000010,
        will: (b & 0b00000100) == 0b00000100,
        will_qos: (b & 0b00011000) >> 3u8,
        will_retain: (b & 0b00100000) == 0b00100000,
        user_password_flag: (b & 0b01000000) == 0b01000000,
        user_name_flag: (b & 0b10000000) == 0b10000000,
        ..c
    }
}

/// Whether the bytes from `i` on start with `expected`: `None` when a byte
/// read before the first difference is past the end.
pub open spec fn spec_bytes_match(s: Seq<u8>, i: int, expected: Seq<u8>) -> Option<bool>
    decreases expected.len(),
{
    if expected.len() == 0 {
        Some(true)
    } else if i < 0 || i >= s.len() {
        None
    } else if s[i] != expected[0] {
        Some(false)
    } else {
        spec_bytes_match(s, i + 1, expected.drop_first())
    }
}

/// The bytes of the protocol name "MQTT".
pub open spec fn spec_mqtt_name() -> Seq<u8> {
    seq![0b01001101u8, 0b01010001u8, 0b01010100u8, 0b01010100u8]
}

/// The bytes of the protocol name "MQIsdp".
pub open spec fn spec_mqisdp_name() -> Seq<u8> {
    seq![0b01001101u8, 0b01010001u8, 0b01001001u8, 0b01110011u8, 0b01100100u8, 0b01110000u8]
}

/// The CONNECT property list from `pos`, which began at `start` and is `len`
/// bytes long, read into `st`: Session Expiry Interval, Receive Maximum,
/// Maximum Packet Size, Topic Alias Maximum, Request Response and Request
/// Problem Information (bit 0 of their byte), User Properties (accumulated),
/// Authentication Method and Data (each at most once); any other identifier
/// is refused, and so is a list that runs past its length.
pub open spec fn spec_connect_properties(s: Seq<u8>, pos: int, start: int, len: int, st: ConnectPropertiesModel) -> (
    ConnectPropertiesModel,
    Parsed<()>,
)
    decreases s.len() - pos,
{
    if pos == start + len {
        (st, Parsed::Done((), pos))
    } else if pos > start + len {
        (st, Parsed::Failed(ParseError::PropertyLength))
    } else if pos < 0 || pos >= s.len() {
        (st, Parsed::Aborts)
    } else {
        let id = s[pos];
        if id == 0x11 {
            if pos + 5 > s.len() {
                (st, Parsed::Aborts)
            } else {
                spec_connect_properties(s, pos + 5, start, len, ConnectPropertiesModel { session_expiry_interval: spec_u32_be(s, pos + 1), ..st })
            }
        } else if id == 0x21 {
            if pos + 3 > s.len() {
                (st, Parsed::Aborts)
            } else {
                spec_connect_properties(s, pos + 3, start, len, ConnectPropertiesModel { receive_maximum: spec_u16_be(s[pos + 1], s[pos + 2]), ..st })
            }
        } else if id == 0x27 {
            if pos + 5 > s.len() {
                (st, Parsed::Aborts)
            } else {
                spec_connect_properties(s, pos + 5, start, len, ConnectPropertiesModel { maximum_packet_size: spec_u32_be(s, pos + 1), ..st })
            }
        } else if id == 0x22 {
            if pos + 3 > s.len() {
                (st, Parsed::Aborts)
            } else {
                spec_connect_properties(s, pos + 3, start, len, ConnectPropertiesModel { topic_alias_maximum: spec_u16_be(s[pos + 1], s[pos + 2]), ..st })
            }
        } else if id == 0x19 {
            if pos + 2 > s.len() {
                (st, Parsed::Aborts)
            } else {
                spec_connect_properties(s, pos + 2, start, len, ConnectPropertiesModel { request_response_information: (s[pos + 1] & 0b1) == 0b1, ..st })
            }
        } else if id == 0x17 {
            if pos + 2 > s.len() {
                (st, Parsed::Aborts)
            } else {
                spec_connect_properties(s, pos + 2, start, len, ConnectPropertiesModel { request_problem_infromation: (s[pos + 1] & 0b1) == 0b1, ..st })
            }
        } else if id == 0x26 {
            match spec_decode_utf8_string(s, pos + 1) {
                Parsed::Done(key, p1) => match spec_decode_utf8_string(s, p1) {
                    Parsed::Done(value, p2) => spec_connect_properties(s, p2, start, len, ConnectPropertiesModel { user_properties: st.user_properties.push((key, value)), ..st }),
                    Parsed::Failed(e) => (st, Parsed::Failed(e)),
                    Parsed::Aborts => (st, Parsed::Aborts),
                },
                Parsed::Failed(e) => (st, Parsed::Failed(e)),
                Parsed::Aborts => (st, Parsed::Aborts),
            }
        } else if id == 0x15 {
            if st.authentication_method is Some {
                (st, Parsed::Failed(ParseError::DuplicateProperty(PropertyKind::AuthenticationMethod)))
            } else {
                match spec_decode_utf8_string(s, pos + 1) {
                    Parsed::Done(m, p1) => spec_connect_properties(s, p1, start, len, ConnectPropertiesModel { authentication_method: Some(m), ..st }),
                    Parsed::Failed(e) => (st, Parsed::Failed(e)),
                    Parsed::Aborts => (st, Parsed::Aborts),
                }
            }
        } else if id == 0x16 {
            if st.authentication_data is Some {
                (st, Parsed::Failed(ParseError::DuplicateProperty(PropertyKind::AuthenticationData)))
            } else if pos + 3 > s.len() {
                (st, Parsed::Aborts)
            } else {
                let l = spec_u16_be(s[pos + 1], s[pos + 2]) as int;
                if pos + 3 + l > s.len() {
                    (st, Parsed::Aborts)
                } else {
                    spec_connect_properties(s, pos + 3 + l, start, len, ConnectPropertiesModel { authentication_data: Some(s.subrange(pos + 3, pos + 3 + l)), ..st })
                }
            }
        } else {
            (st, Parsed::Failed(ParseError::UnknownConnectProperty(id)))
        }
    }
}

/// The will property list of a CONNECT payload from `pos`, which began at
/// `first` and is `len` bytes long, read into `st`: Will Delay Interval,
/// Payload Format Indicator (true when its byte is 1; at most once), Message
/// Expiry Interval, Content Type (at most once), Response Topic, Correlation
/// Data (at most once), User Properties (accumulated) and Subscription
/// Identifier (a variable byte integer); any other identifier is refused,
/// and so is a list that runs past its length.
pub open spec fn spec_will_properties(s: Seq<u8>, pos: int, first: int, len: int, st: WillPropertiesModel) -> (
    WillPropertiesModel,
    Parsed<()>,
)
    decreases s.len() - pos,
{
    if pos - first == len {
        (st, Parsed::Done((), pos))
    } else if pos - first > len {
        (st, Parsed::Failed(ParseError::WillPropertyOverrun))
    } else if pos < 0 || pos >= s.len() {
        (st, Parsed::Aborts)
    } else {
        let id = s[pos];
        if id == 0x18 {
            if pos + 5 > s.len() {
                (st, Parsed::Aborts)
            } else {
                spec_will_properties(s, pos + 5, first, len, WillPropertiesModel { will_delay_interval: spec_u32_be(s, pos + 1), ..st })
            }
        } else if id == 0x01 {
            if st.payload_format_indicator is Some {
                (st, Parsed::Failed(ParseError::DuplicateProperty(PropertyKind::PayloadFormatIndicator)))
            } else if pos + 2 > s.len() {
                (st, Parsed::Aborts)
            } else {
                spec_will_properties(s, pos + 2, first, len, WillPropertiesModel { payload_format_indicator: Some(s[pos + 1] == 0b1), ..st })
            }
        } else if id == 0x02 {
            if pos + 5 > s.len() {
                (st, Parsed::Aborts)
            } else {
                spec_will_properties(s, pos + 5, first, len, WillPropertiesModel { message_expiry_interval: Some(spec_u32_be(s, pos + 1)), ..st })
            }
        } else if id == 0x03 {
            if st.content_type is Some {
                (st, Parsed::Failed(ParseError::DuplicateProperty(PropertyKind::ContentType)))
            } else {
                match spec_decode_utf8_string(s, pos + 1) {
                    Parsed::Done(c, p1) => spec_will_properties(s, p1, first, len, WillPropertiesModel { content_type: Some(c), ..st }),
                    Parsed::Failed(e) => (st, Parsed::Failed(e)),
                    Parsed::Aborts => (st, Parsed::Aborts),
                }
            }
        } else if id == 0x08 {
            match spec_decode_utf8_string(s, pos + 1) {
                Parsed::Done(t, p1) => spec_will_properties(s, p1, first, len, WillPropertiesModel { response_topic: Some(t), ..st }),
                Parsed::Failed(e) => (st, Parsed::Failed(e)),
                Parsed::Aborts => (st, Parsed::Aborts),
            }
        } else if id == 0x09 {
            if st.correlation_data is Some {
                (st, Parsed::Failed(ParseError::DuplicateProperty(PropertyKind::CorrelationData)))
            } else if pos + 3 > s.len() {
                (st, Parsed::Aborts)
            } else {
                let l = spec_u16_be(s[pos + 1], s[pos + 2]) as int;
                if pos + 3 + l > s.len() {
                    (st, Parsed::Aborts)
                } else {
                    spec_will_properties(s, pos + 3 + l, first, len, WillPropertiesModel { correlation_data: Some(s.subrange(pos + 3, pos + 3 + l)), ..st })
                }
            }
        } else if id == 0x26 {
            match spec_decode_utf8_string(s, pos + 1) {
                Parsed::Done(key, p1) => match spec_decode_utf8_string(s, p1) {
                    Parsed::Done(value, p2) => spec_will_properties(s, p2, first, len, WillPropertiesModel { user_properties: st.user_properties.push((key, value)), ..st }),
                    Parsed::Failed(e) => (st, Parsed::Failed(e)),
                    Parsed::Aborts => (st, Parsed::Aborts),
                },
                Parsed::Failed(e) => (st, Parsed::Failed(e)),
                Parsed::Aborts => (st, Parsed::Aborts),
            }
        } else if id == 0x0B {
            match spec_decode_variable_length(s, pos + 1) {
                Parsed::Done(v, end) => if pos < end + 1 <= s.len() {
                    spec_will_properties(s, end + 1, first, len, WillPropertiesModel { subscription_identifier: v as usize, ..st })
                } else {
                    (st, Parsed::Aborts)
                },
                Parsed::Failed(e) => (st, Parsed::Failed(e)),
                Parsed::Aborts => (st, Parsed::Aborts),
            }
        } else {
            (st, Parsed::Failed(ParseError::UnknownWillProperty(id)))
        }
    }
}


impl Connect {
    /// A CONNECT of the given remaining length, nothing of it parsed yet.
    pub fn new(remain_length: usize) -> (r: Self)
        ensures
            r@ == spec_new_connect(remain_length),
    {
        Self {
            remain_length: remain_length,
            protocol_ver: ProtocolVersion::Other,
            clean_session: false,
            will: false,
            will_qos: 0,
            will_retain: false,
            will_payload: None,
            will_topic: String::new(),
            user_password_flag: false,
            user_name_flag: false,
            client_id: String::new(),
            username: None,
            password: None,
            keepalive_timer: 0,
            properties: ConnectProperties::default(),
            will_properties: WillProperties::default(),
        }
    }

    /// Sets the flags of the CONNECT from its flag byte.
    pub fn parse_connect_flag(&mut self, b: u8)
        ensures
            final(self)@ == spec_connect_flag(old(self)@, b),
    {
        self.clean_session = (b & 0b00000010) == 0b00000010;
        self.will = (b & 0b00000100) == 0b00000100;
        self.will_qos = (b & 0b00011000) >> 3;
        self.will_retain = (b & 0b00100000) == 0b00100000;
        self.user_password_flag = (b & 0b01000000) == 0b01000000;
        self.user_name_flag = (b & 0b10000000) == 0b10000000;
    }

    /// Parses the property list of `property_length` bytes at `start_pos`
    /// into the properties of the CONNECT. Properties read before an error
    /// keep their new values.
    #[verifier::spinoff_prover]
    #[verifier::rlimit(60)]
    pub fn parse_properties(&mut self, buf: &BytesMut, start_pos: usize, property_length: usize) -> (r: Result<(), ParseError>)
        requires
            start_pos + property_length <= usize::MAX,
            !(spec_connect_properties(bytes_mut_view(*buf), start_pos as int, start_pos as int, property_length as int, old(self)@.properties).1 is Aborts),
        ensures
            final(self)@ == (ConnectModel {
                properties: spec_connect_properties(bytes_mut_view(*buf), start_pos as int, start_pos as int, property_length as int, old(self)@.properties).0,
                ..old(self)@
            }),
            match spec_connect_properties(bytes_mut_view(*buf), start_pos as int, start_pos as int, property_length as int, old(self)@.properties).1 {
                Parsed::Done(_, _) => r == Ok::<(), ParseError>(()),
                Parsed::Failed(e) => r == Err::<(), ParseError>(e),
                Parsed::Aborts => false,
            },
    {
        let ghost sv = bytes_mut_view(*buf);
        let ghost props0 = self.properties@;
        let ghost before = self@;
        let s = bytes_mut_as_slice(buf);
        let end = start_pos + property_length;
        let mut pos = start_pos;
        loop
            invariant
                sv == bytes_mut_view(*buf),
                sv == s@,
                sv.len() <= isize::MAX,
                end == start_pos + property_length,
                pos <= sv.len() || pos == start_pos,
                spec_connect_properties(sv, start_pos as int, start_pos as int, property_length as int, props0)
                    == spec_connect_properties(sv, pos as int, start_pos as int, property_length as int, self.properties@),
                !(spec_connect_properties(sv, start_pos as int, start_pos as int, property_length as int, props0).1 is Aborts),
                self@ == (ConnectModel { properties: self.properties@, ..before }),
                props0 == before.properties,
                before == old(self)@,
            decreases sv.len() - pos,
        {
            if pos == end {
                return Ok(());
            }
            if pos > end {
                return Err(ParseError::PropertyLength);
            }
            let id = s[pos];
            if id == 0x11 {
                self.properties.session_expiry_interval = read_u32_be(s, pos + 1);
                pos = pos + 5;
            } else if id == 0x21 {
                self.properties.receive_maximum = byte_pair_to_u16(s[pos + 1], s[pos + 2]);
                pos = pos + 3;
            } else if id == 0x27 {
                self.properties.maximum_packet_size = read_u32_be(s, pos + 1);
                pos = pos + 5;
            } else if id == 0x22 {
                self.properties.topic_alias_maximum = byte_pair_to_u16(s[pos + 1], s[pos + 2]);
                pos = pos + 3;
            } else if id == 0x19 {
                self.properties.request_response_information = (s[pos + 1] & 0b1) == 0b1;
                pos = pos + 2;
            } else if id == 0x17 {
                self.properties.request_problem_infromation = (s[pos + 1] & 0b1) == 0b1;
                pos = pos + 2;
            } else if id == 0x26 {
                let (key, end_pos) = decode_utf8_string(buf, pos + 1)?;
                let (value, end_pos) = decode_utf8_string(buf, end_pos)?;
                push_pair(&mut self.properties.user_properties, (key, value));
                pos = end_pos;
            } else if id == 0x15 {
                if self.properties.authentication_method.is_some() {
                    return Err(ParseError::DuplicateProperty(PropertyKind::AuthenticationMethod));
                }
                let (method, end_pos) = decode_utf8_string(buf, pos + 1)?;
                self.properties.authentication_method = Some(method);
                pos = end_pos;
            } else if id == 0x16 {
                if self.properties.authentication_data.is_some() {
                    return Err(ParseError::DuplicateProperty(PropertyKind::AuthenticationData));
                }
                let length = byte_pair_to_u16(s[pos + 1], s[pos + 2]) as usize;
                let data = vstd::slice::slice_subrange(s, pos + 3, pos + 3 + length);
                self.properties.authentication_data = Some(bytes_copy_from_slice(data));
                pos = pos + 3 + length;
            } else {
                return Err(ParseError::UnknownConnectProperty(id));
            }
        }
    }
}


/// The properties of an MQTT 5 CONNECT, read after the protocol level, the
/// flags and the keep alive: their length is a variable byte integer at
/// position 10, the list follows it. The position returned counts the whole
/// variable header.
pub open spec fn spec_connect_v5_properties(s: Seq<u8>, c: ConnectModel) -> (ConnectModel, Parsed<()>) {
    match spec_decode_variable_length(s, 10) {
        Parsed::Done(plen, end) => {
            let (props, out) = spec_connect_properties(s, end + 1, end + 1, plen, c.properties);
            let c2 = ConnectModel { properties: props, ..c };
            match out {
                Parsed::Done(_, _) => (c2, Parsed::Done((), 10 + (end - 10 + 1) + plen)),
                Parsed::Failed(e) => (c2, Parsed::Failed(e)),
                Parsed::Aborts => (c2, Parsed::Aborts),
            }
        },
        Parsed::Failed(e) => (c, Parsed::Failed(e)),
        Parsed::Aborts => (c, Parsed::Aborts),
    }
}

/// The variable header of a CONNECT at the start of `s`: a protocol name of
/// length 4 that reads "MQTT" with level 5 (MQTT 5, whose properties follow)
/// or 4 (MQTT 3.1.1), or a name of length 6 that reads "MQIsdp" with level 3
/// (MQTT 3.1); then the flag byte and the keep alive. Any other name or
/// level is refused. The position returned is the length of the header.
pub open spec fn spec_connect_variable_header(s: Seq<u8>, c: ConnectModel) -> (ConnectModel, Parsed<()>) {
    if s.len() < 2 {
        (c, Parsed::Aborts)
    } else {
        let plen = spec_u16_be(s[0], s[1]);
        let is_mqtt = if plen == 4 { spec_bytes_match(s, 2, spec_mqtt_name()) } else { Some(false) };
        let is_mqisdp = if plen == 6 { spec_bytes_match(s, 2, spec_mqisdp_name()) } else { Some(false) };
        match is_mqtt {
            None => (c, Parsed::Aborts),
            Some(true) => {
                if s.len() <= 6 {
                    (c, Parsed::Aborts)
                } else if s[6] != 5 && s[6] != 4 {
                    (c, Parsed::Failed(ParseError::ProtocolHeader(HeaderFault::MqttLevel)))
                } else if s.len() < 10 {
                    (c, Parsed::Aborts)
                } else {
                    let ver = if s[6] == 5 { ProtocolVersion::V5 } else { ProtocolVersion::V3_1_1 };
                    let c1 = spec_connect_flag(ConnectModel { protocol_ver: ver, ..c }, s[7]);
                    let c2 = ConnectModel { keepalive_timer: spec_u16_be(s[8], s[9]), ..c1 };
                    if s[6] == 5 {
                        spec_connect_v5_properties(s, c2)
                    } else {
                        (c2, Parsed::Done((), 10))
                    }
                }
            },
            Some(false) => match is_mqisdp {
                None => (c, Parsed::Aborts),
                Some(true) => {
                    if s.len() <= 8 {
                        (c, Parsed::Aborts)
                    } else if s[8] != 3 {
                        (c, Parsed::Failed(ParseError::ProtocolHeader(HeaderFault::MqisdpLevel)))
                    } else if s.len() < 12 {
                        (c, Parsed::Aborts)
                    } else {
                        let c1 = spec_connect_flag(ConnectModel { protocol_ver: ProtocolVersion::V3_1, ..c }, s[9]);
                        (ConnectModel { keepalive_timer: spec_u16_be(s[10], s[11]), ..c1 }, Parsed::Done((), 12))
                    }
                },
                Some(false) => (c, Parsed::Failed(ParseError::ProtocolHeader(HeaderFault::ProtocolName))),
            },
        }
    }
}

/// The client identifier at the start of the payload: a 16-bit length and
/// that many bytes of UTF-8.
pub open spec fn spec_payload_client_id(s: Seq<u8>, c: ConnectModel) -> (ConnectModel, Parsed<()>) {
    if s.len() < 2 {
        (c, Parsed::Aborts)
    } else {
        let l = spec_u16_be(s[0], s[1]) as int;
        if 2 + l > s.len() {
            (c, Parsed::Aborts)
        } else if !valid_utf8(s.subrange(2, 2 + l)) {
            (c, Parsed::Failed(ParseError::ClientIdNotUtf8))
        } else {
            (ConnectModel { client_id: decode_utf8(s.subrange(2, 2 + l)), ..c }, Parsed::Done((), 2 + l))
        }
    }
}

/// Binary data at `pos`: a 16-bit length and that many bytes.
pub open spec fn spec_payload_binary(s: Seq<u8>, pos: int) -> Parsed<Seq<u8>> {
    if pos < 0 || pos + 2 > s.len() {
        Parsed::Aborts
    } else {
        let l = spec_u16_be(s[pos], s[pos + 1]) as int;
        if pos + 2 + l > s.len() {
            Parsed::Aborts
        } else {
            Parsed::Done(s.subrange(pos + 2, pos + 2 + l), pos + 2 + l)
        }
    }
}

/// The will topic and will payload at `pos`.
pub open spec fn spec_payload_will_message(s: Seq<u8>, pos: int, c: ConnectModel) -> (ConnectModel, Parsed<()>) {
    match spec_decode_utf8_string(s, pos) {
        Parsed::Done(t, p1) => {
            let c1 = ConnectModel { will_topic: t, ..c };
            match spec_payload_binary(s, p1) {
                Parsed::Done(d, p2) => (ConnectModel { will_payload: Some(d), ..c1 }, Parsed::Done((), p2)),
                Parsed::Failed(e) => (c1, Parsed::Failed(e)),
                Parsed::Aborts => (c1, Parsed::Aborts),
            }
        },
        Parsed::Failed(e) => (c, Parsed::Failed(e)),
        Parsed::Aborts => (c, Parsed::Aborts),
    }
}

/// When the will flag is set, the will properties (their length a variable
/// byte integer at `pos`), the will topic and the will payload; nothing
/// otherwise.
pub open spec fn spec_payload_will(s: Seq<u8>, pos: int, c: ConnectModel) -> (ConnectModel, Parsed<()>) {
    if !c.will {
        (c, Parsed::Done((), pos))
    } else {
        match spec_decode_variable_length(s, pos) {
            Parsed::Done(wpl, end) => {
                let (wp, out) = spec_will_properties(s, end + 1, end + 1, wpl, c.will_properties);
                let c1 = ConnectModel { will_properties: wp, ..c };
                match out {
                    Parsed::Done(_, p) => spec_payload_will_message(s, p, c1),
                    Parsed::Failed(e) => (c1, Parsed::Failed(e)),
                    Parsed::Aborts => (c1, Parsed::Aborts),
                }
            },
            Parsed::Failed(e) => (c, Parsed::Failed(e)),
            Parsed::Aborts => (c, Parsed::Aborts),
        }
    }
}

/// The user name (when its flag is set) and the password (when its flag is
/// set) at `pos`.
pub open spec fn spec_payload_credentials(s: Seq<u8>, pos: int, c: ConnectModel) -> (ConnectModel, Parsed<()>) {
    let (c1, out1) = if c.user_name_flag {
        match spec_decode_utf8_string(s, pos) {
            Parsed::Done(n, p) => (ConnectModel { username: Some(n), ..c }, Parsed::Done((), p)),
            Parsed::Failed(e) => (c, Parsed::Failed(e)),
            Parsed::Aborts => (c, Parsed::Aborts),
        }
    } else {
        (c, Parsed::Done((), pos))
    };
    match out1 {
        Parsed::Done(_, p1) => if c1.user_password_flag {
            match spec_payload_binary(s, p1) {
                Parsed::Done(d, p2) => (ConnectModel { password: Some(d), ..c1 }, Parsed::Done((), p2)),
                Parsed::Failed(e) => (c1, Parsed::Failed(e)),
                Parsed::Aborts => (c1, Parsed::Aborts),
            }
        } else {
            (c1, Parsed::Done((), p1))
        },
        _ => (c1, out1),
    }
}

/// The payload of a CONNECT at the start of `s`: the client identifier, the
/// will section and the credentials, as the flags ask. The position
/// returned is the length of the payload.
pub open spec fn spec_connect_payload(s: Seq<u8>, c: ConnectModel) -> (ConnectModel, Parsed<()>) {
    let (c1, o1) = spec_payload_client_id(s, c);
    match o1 {
        Parsed::Done(_, p1) => {
            let (c2, o2) = spec_payload_will(s, p1, c1);
            match o2 {
                Parsed::Done(_, p2) => spec_payload_credentials(s, p2, c2),
                _ => (c2, o2),
            }
        },
        _ => (c1, o1),
    }
}


/// Whether an exec result of a section parser agrees with the outcome of the
/// specification: the number of bytes the section takes, or the error.
pub open spec fn parsed_as(r: Result<usize, ParseError>, d: Parsed<()>) -> bool {
    match d {
        Parsed::Done(_, p) => r == Ok::<usize, ParseError>(p as usize),
        Parsed::Failed(e) => r == Err::<usize, ParseError>(e),
        Parsed::Aborts => false,
    }
}

/// A packet whose variable header and payload are parsed from the start of a
/// buffer, section by section.
pub trait MqttPacket: View + Sized {
    /// The packet after its variable header is parsed from the start of `s`,
    /// and the outcome.
    spec fn spec_parse_variable_header(v: Self::V, s: Seq<u8>) -> (Self::V, Parsed<()>);

    /// The packet after its payload is parsed from the start of `s`, and the
    /// outcome.
    spec fn spec_parse_payload(v: Self::V, s: Seq<u8>) -> (Self::V, Parsed<()>);

    /// The remaining length of the packet.
    spec fn spec_remain_length(v: Self::V) -> usize;

    /// Parses the variable header; returns the number of bytes it takes.
    fn parse_variable_header(&mut self, buf: &BytesMut) -> (r: Result<usize, ParseError>)
        requires
            !(Self::spec_parse_variable_header(old(self)@, bytes_mut_view(*buf)).1 is Aborts),
        ensures
            final(self)@ == Self::spec_parse_variable_header(old(self)@, bytes_mut_view(*buf)).0,
            parsed_as(r, Self::spec_parse_variable_header(old(self)@, bytes_mut_view(*buf)).1),
    ;

    /// Parses the payload; returns the number of bytes it takes.
    fn parse_payload(&mut self, buf: &BytesMut) -> (r: Result<usize, ParseError>)
        requires
            !(Self::spec_parse_payload(old(self)@, bytes_mut_view(*buf)).1 is Aborts),
        ensures
            final(self)@ == Self::spec_parse_payload(old(self)@, bytes_mut_view(*buf)).0,
            parsed_as(r, Self::spec_parse_payload(old(self)@, bytes_mut_view(*buf)).1),
    ;

    fn remain_length(&self) -> (r: usize)
        ensures
            r == Self::spec_remain_length(self@),
    ;
}

impl Connect {
    /// Parses the will property list of `will_property_length` bytes at
    /// `first` into the will properties; returns the position after it.
    #[verifier::spinoff_prover]
    #[verifier::rlimit(60)]
    fn parse_will_properties(&mut self, buf: &BytesMut, first: usize, will_property_length: usize) -> (r: Result<usize, ParseError>)
        requires
            first <= bytes_mut_view(*buf).len(),
            !(spec_will_properties(bytes_mut_view(*buf), first as int, first as int, will_property_length as int, old(self)@.will_properties).1 is Aborts),
        ensures
            final(self)@ == (ConnectModel {
                will_properties: spec_will_properties(bytes_mut_view(*buf), first as int, first as int, will_property_length as int, old(self)@.will_properties).0,
                ..old(self)@
            }),
            match spec_will_properties(bytes_mut_view(*buf), first as int, first as int, will_property_length as int, old(self)@.will_properties).1 {
                Parsed::Done(_, p) => r == Ok::<usize, ParseError>(p as usize),
                Parsed::Failed(e) => r == Err::<usize, ParseError>(e),
                Parsed::Aborts => false,
            },
    {
        let ghost sv = bytes_mut_view(*buf);
        let ghost props0 = self.will_properties@;
        let ghost before = self@;
        let s = bytes_mut_as_slice(buf);
        let mut pos = first;
        loop
            invariant
                sv == bytes_mut_view(*buf),
                sv == s@,
                sv.len() <= isize::MAX,
                first <= pos <= sv.len(),
                spec_will_properties(sv, first as int, first as int, will_property_length as int, props0)
                    == spec_will_properties(sv, pos as int, first as int, will_property_length as int, self.will_properties@),
                !(spec_will_properties(sv, first as int, first as int, will_property_length as int, props0).1 is Aborts),
                self@ == (ConnectModel { will_properties: self.will_properties@, ..before }),
                props0 == before.will_properties,
                before == old(self)@,
            decreases sv.len() - pos,
        {
            if pos - first == will_property_length {
                return Ok(pos);
            } else if pos - first > will_property_length {
                return Err(ParseError::WillPropertyOverrun);
            }
            let id = s[pos];
            if id == 0x18 {
                self.will_properties.will_delay_interval = read_u32_be(s, pos + 1);
                pos = pos + 5;
            } else if id == 0x01 {
                if self.will_properties.payload_format_indicator.is_some() {
                    return Err(ParseError::DuplicateProperty(PropertyKind::PayloadFormatIndicator));
                }
                self.will_properties.payload_format_indicator = Some(s[pos + 1] == 0b1);
                pos = pos + 2;
            } else if id == 0x02 {
                self.will_properties.message_expiry_interval = Some(read_u32_be(s, pos + 1));
                pos = pos + 5;
            } else if id == 0x03 {
                if self.will_properties.content_type.is_some() {
                    return Err(ParseError::DuplicateProperty(PropertyKind::ContentType));
                }
                let (content_type, end_pos) = decode_utf8_string(buf, pos + 1)?;
                self.will_properties.content_type = Some(content_type);
                pos = end_pos;
            } else if id == 0x08 {
                let (response_topic, end_pos) = decode_utf8_string(buf, pos + 1)?;
                self.will_properties.response_topic = Some(response_topic);
                pos = end_pos;
            } else if id == 0x09 {
                if self.will_properties.correlation_data.is_some() {
                    return Err(ParseError::DuplicateProperty(PropertyKind::CorrelationData));
                }
                let datalength = byte_pair_to_u16(s[pos + 1], s[pos + 2]) as usize;
                let data = vstd::slice::slice_subrange(s, pos + 3, pos + 3 + datalength);
                self.will_properties.correlation_data = Some(bytes_copy_from_slice(data));
                pos = pos + 3 + datalength;
            } else if id == 0x26 {
                let (key, end_pos) = decode_utf8_string(buf, pos + 1)?;
                let (value, end_pos) = decode_utf8_string(buf, end_pos)?;
                push_pair(&mut self.will_properties.user_properties, (key, value));
                pos = end_pos;
            } else if id == 0x0B {
                let (id, end_pos) = match decode_variable_length(buf, pos + 1) {
                    Ok(v) => v,
                    Err(e) => return Err(ParseError::Mqtt(e)),
                };
                self.will_properties.subscription_identifier = id;
                pos = end_pos + 1;
            } else {
                return Err(ParseError::UnknownWillProperty(id));
            }
        }
    }
}


impl MqttPacket for Connect {
    open spec fn spec_parse_variable_header(v: ConnectModel, s: Seq<u8>) -> (ConnectModel, Parsed<()>) {
        spec_connect_variable_header(s, v)
    }

    open spec fn spec_parse_payload(v: ConnectModel, s: Seq<u8>) -> (ConnectModel, Parsed<()>) {
        spec_connect_payload(s, v)
    }

    open spec fn spec_remain_length(v: ConnectModel) -> usize {
        v.remain_length
    }

    /// Parses the protocol name and level, the flags, the keep alive and,
    /// for MQTT 5, the properties.
    #[verifier::spinoff_prover]
    #[verifier::rlimit(60)]
    fn parse_variable_header(&mut self, buf: &BytesMut) -> (r: Result<usize, ParseError>) {
        let ghost sv = bytes_mut_view(*buf);
        let s = bytes_mut_as_slice(buf);
        let mut consumed_length: usize = 0;
        let protocol_length = byte_pair_to_u16(s[0], s[1]);
        proof {
            reveal_with_fuel(spec_bytes_match, 7);
            assert(spec_mqtt_name().len() == 4);
            assert(spec_mqisdp_name().len() == 6);
        }
        // MQTT version 5 & 3.1.1 ( MQTT )
        if protocol_length == 4 && s[2] == 0b01001101 && s[3] == 0b01010001 && s[4] == 0b01010100 && s[5]
            == 0b01010100 {
            if s[6] == 0b00000101 {
                self.protocol_ver = ProtocolVersion::V5;
            } else if s[6] == 0b00000100 {
                self.protocol_ver = ProtocolVersion::V3_1_1;
            } else {
                return Err(ParseError::ProtocolHeader(HeaderFault::MqttLevel));
            }
            self.parse_connect_flag(s[7]);
            self.keepalive_timer = byte_pair_to_u16(s[8], s[9]);
            consumed_length = 10;
        } else if protocol_length == 6 /* MQTT version 3.1 & 3 ( MQIsdp ) */
            && s[2] == 0b01001101 && s[3] == 0b01010001 && s[4] == 0b01001001 && s[5] == 0b01110011
            && s[6] == 0b01100100 && s[7] == 0b01110000 {
            if s[8] == 0b00000011 {
                self.protocol_ver = ProtocolVersion::V3_1;
            } else {
                return Err(ParseError::ProtocolHeader(HeaderFault::MqisdpLevel));
            }
            self.parse_connect_flag(s[9]);
            self.keepalive_timer = byte_pair_to_u16(s[10], s[11]);
            consumed_length = 12;
        } else {
            return Err(ParseError::ProtocolHeader(HeaderFault::ProtocolName));
        }
        /* CONNECT Properties */
        match self.protocol_ver {
            ProtocolVersion::V5 => {
                let (property_length, end_pos) = match decode_variable_length(buf, 10) {
                    Ok(v) => v,
                    Err(e) => return Err(ParseError::Mqtt(e)),
                };
                consumed_length = consumed_length + (end_pos - 10 + 1);
                self.parse_properties(buf, end_pos + 1, property_length)?;
                consumed_length = consumed_length + property_length;
            },
            _ => {},
        }
        Ok(consumed_length)
    }

    /// Parses the client identifier, the will section and the credentials.
    #[verifier::spinoff_prover]
    #[verifier::rlimit(60)]
    fn parse_payload(&mut self, buf: &BytesMut) -> (r: Result<usize, ParseError>) {
        let ghost sv = bytes_mut_view(*buf);
        let s = bytes_mut_as_slice(buf);
        let mut pos: usize = 0;
        {
            let client_id_length = byte_pair_to_u16(s[0], s[1]) as usize;
            let body = vstd::slice::slice_subrange(s, 2, 2 + client_id_length);
            self.client_id = match str_from_utf8(body) {
                Some(v) => v.to_owned(),
                None => return Err(ParseError::ClientIdNotUtf8),
            };
            pos = 2 + client_id_length;
        }
        let ghost c1 = self@;
        /* will properties */
        if self.will {
            let (will_property_length, end_pos) = match decode_variable_length(buf, pos) {
                Ok(v) => v,
                Err(e) => return Err(ParseError::Mqtt(e)),
            };
            pos = end_pos + 1;
            pos = self.parse_will_properties(buf, pos, will_property_length)?;
        }
        /* will topic and payload */
        if self.will {
            let (wt, end_pos) = decode_utf8_string(buf, pos)?;
            self.will_topic = wt;
            pos = end_pos;
            let datalength = decode_u16_bytes(buf, pos)? as usize;
            let data = vstd::slice::slice_subrange(s, pos + 2, pos + 2 + datalength);
            self.will_payload = Some(bytes_copy_from_slice(data));
            pos = pos + 2 + datalength;
        }
        let ghost c2 = self@;
        if self.user_name_flag {
            let (name, end_pos) = decode_utf8_string(buf, pos)?;
            self.username = Some(name);
            pos = end_pos;
        }
        if self.user_password_flag {
            let datalength = decode_u16_bytes(buf, pos)? as usize;
            let data = vstd::slice::slice_subrange(s, pos + 2, pos + 2 + datalength);
            self.password = Some(bytes_copy_from_slice(data));
            pos = pos + 2 + datalength;
        }
        Ok(pos)
    }

    fn remain_length(&self) -> (r: usize) {
        self.remain_length
    }
}


/// Quality of service of a PUBLISH.
#[derive(PartialEq, Eq, Structural, Debug, Clone, Copy)]
pub enum QoS {
    QoS0,
    QoS1,
    QoS2,
}

impl QoS {
    /// The QoS of a number 0, 1 or 2; any other number is refused.
    pub fn try_from(value: u8) -> (r: Result<QoS, MqttError>)
        ensures
            value == 0 ==> r == Ok::<QoS, MqttError>(QoS::QoS0),
            value == 1 ==> r == Ok::<QoS, MqttError>(QoS::QoS1),
            value == 2 ==> r == Ok::<QoS, MqttError>(QoS::QoS2),
            value > 2 ==> r == Err::<QoS, MqttError>(MqttError::DecodeError),
    {
        match value {
            0 => Ok(QoS::QoS0),
            1 => Ok(QoS::QoS1),
            2 => Ok(QoS::QoS2),
            _ => Err(MqttError::DecodeError),
        }
    }
}

/// One property of a PUBLISH.
#[derive(Debug, PartialEq)]
pub enum PublishProperties {
    PayloadFormatIndicator(bool),
    MessageExpiryInterval(u32),
    TopicAlias(u16),
    ResponseTopic(String),
    CorrelationData(Bytes),
    UserProperty(Vec<(String, String)>),
    SubscriptionIdentifier(u32),
    ContentType(String),
}

/// One property of a PUBLISH as a value.
pub enum PublishPropertyModel {
    PayloadFormatIndicator(bool),
    MessageExpiryInterval(u32),
    TopicAlias(u16),
    ResponseTopic(Seq<char>),
    CorrelationData(Seq<u8>),
    UserProperty(Seq<(Seq<char>, Seq<char>)>),
    SubscriptionIdentifier(u32),
    ContentType(Seq<char>),
}

impl View for PublishProperties {
    type V = PublishPropertyModel;

    open spec fn view(&self) -> PublishPropertyModel {
        match self {
            PublishProperties::PayloadFormatIndicator(b) => PublishPropertyModel::PayloadFormatIndicator(*b),
            PublishProperties::MessageExpiryInterval(v) => PublishPropertyModel::MessageExpiryInterval(*v),
            PublishProperties::TopicAlias(v) => PublishPropertyModel::TopicAlias(*v),
            PublishProperties::ResponseTopic(t) => PublishPropertyModel::ResponseTopic(t@),
            PublishProperties::CorrelationData(d) => PublishPropertyModel::CorrelationData(bytes_view(*d)),
            PublishProperties::UserProperty(ps) => PublishPropertyModel::UserProperty(pairs_view(ps@)),
            PublishProperties::SubscriptionIdentifier(v) => PublishPropertyModel::SubscriptionIdentifier(*v),
            PublishProperties::ContentType(t) => PublishPropertyModel::ContentType(t@),
        }
    }
}

/// A PUBLISH packet as far as it is parsed.
#[derive(PartialEq, Debug)]
pub struct Publish {
    pub remain_length: usize,
    pub dup: bool,
    pub qos: QoS,
    pub retain: bool,
    pub topic_name: Option<String>,
    pub pub_properties: Vec<PublishProperties>,
    pub packet_id: u16,
}

/// A PUBLISH packet as values.
pub struct PublishModel {
    pub remain_length: usize,
    pub dup: bool,
    pub qos: QoS,
    pub retain: bool,
    pub topic_name: Option<Seq<char>>,
    pub pub_properties: Seq<PublishPropertyModel>,
    pub packet_id: u16,
}

impl View for Publish {
    type V = PublishModel;

    open spec fn view(&self) -> PublishModel {
        PublishModel {
            remain_length: self.remain_length,
            dup: self.dup,
            qos: self.qos,
            retain: self.retain,
            topic_name: opt_string_view(self.topic_name),
            pub_properties: self.pub_properties@.map_values(|p: PublishProperties| p@),
            packet_id: self.packet_id,
        }
    }
}

/// The variable header of a PUBLISH at the start of `s`: the topic name and,
/// at QoS 1 and 2, the packet identifier.
pub open spec fn spec_publish_variable_header(s: Seq<u8>, p: PublishModel) -> (PublishModel, Parsed<()>) {
    match spec_decode_utf8_string(s, 0) {
        Parsed::Done(t, np) => {
            let p1 = PublishModel { topic_name: Some(t), ..p };
            if p.qos == QoS::QoS1 || p.qos == QoS::QoS2 {
                if s.len() < np + 1 {
                    (p1, Parsed::Failed(ParseError::Mqtt(MqttError::InsufficientBytes)))
                } else if s.len() < np + 2 {
                    (p1, Parsed::Aborts)
                } else {
                    (PublishModel { packet_id: spec_u16_be(s[np], s[np + 1]), ..p1 }, Parsed::Done((), np + 2))
                }
            } else {
                (p1, Parsed::Done((), np))
            }
        },
        Parsed::Failed(e) => (p, Parsed::Failed(e)),
        Parsed::Aborts => (p, Parsed::Aborts),
    }
}

impl MqttPacket for Publish {
    open spec fn spec_parse_variable_header(v: PublishModel, s: Seq<u8>) -> (PublishModel, Parsed<()>) {
        spec_publish_variable_header(s, v)
    }

    /// Parsing the payload of a PUBLISH is not implemented.
    open spec fn spec_parse_payload(v: PublishModel, s: Seq<u8>) -> (PublishModel, Parsed<()>) {
        (v, Parsed::Failed(ParseError::NotImplemented))
    }

    open spec fn spec_remain_length(v: PublishModel) -> usize {
        v.remain_length
    }

    /// Parses the topic name and, at QoS 1 and 2, the packet identifier.
    fn parse_variable_header(&mut self, buf: &BytesMut) -> (r: Result<usize, ParseError>) {
        let s = bytes_mut_as_slice(buf);
        let mut consumed_length: usize = 0;
        // topic name UTF-8 Encoded String
        let (topic_name, next_pos) = decode_utf8_string(buf, 0)?;
        self.topic_name = Some(topic_name);
        consumed_length = next_pos;
        // packet identifier
        if self.qos == QoS::QoS1 || self.qos == QoS::QoS2 {
            if s.len() < next_pos + 1 {
                return Err(ParseError::Mqtt(MqttError::InsufficientBytes));
            }
            self.packet_id = byte_pair_to_u16(s[next_pos], s[next_pos + 1]);
            consumed_length = consumed_length + 2;
        }
        Ok(consumed_length)
    }

    fn parse_payload(&mut self, buf: &BytesMut) -> (r: Result<usize, ParseError>) {
        Err(ParseError::NotImplemented)
    }

    fn remain_length(&self) -> (r: usize) {
        self.remain_length
    }
}

/// A DISCONNECT packet: its remaining length.
pub struct Disconnect {
    remain_length: usize,
}

impl View for Disconnect {
    type V = usize;

    closed spec fn view(&self) -> usize {
        self.remain_length
    }
}

impl Disconnect {
    pub fn new(remain_length: usize) -> (r: Self)
        ensures
            r@ == remain_length,
    {
        Self { remain_length: remain_length }
    }
}

/// A packet of one of the types that are parsed.
pub enum ControlPacket {
    CONNECT(Connect),
    DISCONNECT(Disconnect),
    CONNACK(Connack),
    PUBLISH(Publish),
}

/// A packet as a value.
pub enum ControlPacketModel {
    CONNECT(ConnectModel),
    DISCONNECT(usize),
    CONNACK(ConnackModel),
    PUBLISH(PublishModel),
}

impl View for ControlPacket {
    type V = ControlPacketModel;

    open spec fn view(&self) -> ControlPacketModel {
        match self {
            ControlPacket::CONNECT(c) => ControlPacketModel::CONNECT(c@),
            ControlPacket::DISCONNECT(d) => ControlPacketModel::DISCONNECT(d@),
            ControlPacket::CONNACK(c) => ControlPacketModel::CONNACK(c@),
            ControlPacket::PUBLISH(p) => ControlPacketModel::PUBLISH(p@),
        }
    }
}

impl MqttPacket for ControlPacket {
    /// CONNECT and PUBLISH parse their own variable header; the other
    /// packets are not implemented.
    open spec fn spec_parse_variable_header(v: ControlPacketModel, s: Seq<u8>) -> (ControlPacketModel, Parsed<()>) {
        match v {
            ControlPacketModel::CONNECT(c) => {
                let (c2, r) = spec_connect_variable_header(s, c);
                (ControlPacketModel::CONNECT(c2), r)
            },
            ControlPacketModel::PUBLISH(p) => {
                let (p2, r) = spec_publish_variable_header(s, p);
                (ControlPacketModel::PUBLISH(p2), r)
            },
            _ => (v, Parsed::Failed(ParseError::NotImplemented)),
        }
    }

    /// CONNECT parses its own payload; PUBLISH and the other packets are not
    /// implemented.
    open spec fn spec_parse_payload(v: ControlPacketModel, s: Seq<u8>) -> (ControlPacketModel, Parsed<()>) {
        match v {
            ControlPacketModel::CONNECT(c) => {
                let (c2, r) = spec_connect_payload(s, c);
                (ControlPacketModel::CONNECT(c2), r)
            },
            _ => (v, Parsed::Failed(ParseError::NotImplemented)),
        }
    }

    /// The remaining length of a CONNECT or a PUBLISH; 0 for the others.
    open spec fn spec_remain_length(v: ControlPacketModel) -> usize {
        match v {
            ControlPacketModel::CONNECT(c) => c.remain_length,
            ControlPacketModel::PUBLISH(p) => p.remain_length,
            _ => 0,
        }
    }

    fn parse_payload(&mut self, buf: &BytesMut) -> (r: Result<usize, ParseError>) {
        match self {
            ControlPacket::CONNECT(p) => p.parse_payload(buf),
            ControlPacket::PUBLISH(p) => p.parse_payload(buf),
            _ => Err(ParseError::NotImplemented),
        }
    }

    fn parse_variable_header(&mut self, buf: &BytesMut) -> (r: Result<usize, ParseError>) {
        match self {
            ControlPacket::CONNECT(p) => p.parse_variable_header(buf),
            ControlPacket::PUBLISH(p) => p.parse_variable_header(buf),
            _ => Err(ParseError::NotImplemented),
        }
    }

    fn remain_length(&self) -> (r: usize) {
        match self {
            ControlPacket::CONNECT(p) => p.remain_length,
            ControlPacket::PUBLISH(p) => p.remain_length,
            _ => 0,
        }
    }
}

/// Law: setting the CONNECT flags from byte `b` takes each flag from its
/// own bit: user name bit 7, password bit 6, will retain bit 5, will QoS
/// bits 4-3, will bit 2, clean session bit 1; nothing else changes.
pub proof fn law_connect_flag_bits(c: ConnectModel, b: u8)
    ensures
        spec_connect_flag(c, b).user_name_flag == (b >= 128),
        spec_connect_flag(c, b).user_password_flag == ((b / 64) % 2 == 1),
        spec_connect_flag(c, b).will_retain == ((b / 32) % 2 == 1),
        spec_connect_flag(c, b).will_qos == (b / 8) % 4,
        spec_connect_flag(c, b).will == ((b / 4) % 2 == 1),
        spec_connect_flag(c, b).clean_session == ((b / 2) % 2 == 1),
        spec_connect_flag(c, b).client_id == c.client_id,
        spec_connect_flag(c, b).protocol_ver == c.protocol_ver,
        spec_connect_flag(c, b).keepalive_timer == c.keepalive_timer,
{
    crate::mqtt_coder::mqtt::lemma_flag_byte_bits(b);
}

} // verus!
