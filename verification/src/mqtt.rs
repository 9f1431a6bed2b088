//! The first CONNECT parser of the broker: it reads a CONNECT whose bytes
//! are all in the buffer, section by section from the start of the buffer,
//! and trusts the lengths it reads (a read past the end of the buffer is not
//! caught, so the parsers ask that the bytes reach that far).
use vstd::prelude::*;
use vstd::utf8::{decode_utf8, valid_utf8};
use bytes::{Bytes, BytesMut};
use crate::buffers::{bytes_mut_view, bytes_mut_as_slice, bytes_copy_from_slice, str_from_utf8};
use crate::mqtt_coder::mqtt::{byte_pair_to_u16, read_u32_be, spec_u16_be, spec_u32_be, pow128, pow128_total};
use crate::mqtt_decoder::mqtt::{
    lemma_digit_shift, opt_bytes_view, opt_string_view, push_pair, spec_bytes_match, spec_mqisdp_name,
    spec_mqtt_name,
};

pub mod mqtt;

pub use crate::mqtt_decoder::mqtt::{
    decode_u16_bytes, decode_u32_bytes, decode_u32_bytes_sliced, spec_default_connect_properties,
    spec_default_will_properties, ConnectProperties, ConnectPropertiesModel, HeaderFault, ParseError, Parsed,
    PropertyKind,
    ProtocolVersion, WillProperties, WillPropertiesModel,
};

verus! {

/// A UTF-8 string prefixed by its 16-bit big-endian length; the length is
/// not checked against the bytes there are.
pub open spec fn spec_decode_utf8_string(s: Seq<u8>, start: int) -> Parsed<Seq<char>> {
    if start < 0 || start + 2 > s.len() {
        Parsed::Aborts
    } else {
        let length = spec_u16_be(s[start], s[start + 1]) as int;
        if start + 2 + length > s.len() {
            Parsed::Aborts
        } else if !valid_utf8(s.subrange(start + 2, start + 2 + length)) {
            Parsed::Failed(ParseError::InvalidUtf8)
        } else {
            Parsed::Done(decode_utf8(s.subrange(start + 2, start + 2 + length)), start + 2 + length)
        }
    }
}

/// Reads a length-prefixed UTF-8 string at `start_pos`; returns it and the
/// position after it.
pub fn decode_utf8_string(buf: &BytesMut, start_pos: usize) -> (r: Result<(String, usize), ParseError>)
    requires
        !(spec_decode_utf8_string(bytes_mut_view(*buf), start_pos as int) is Aborts),
    ensures
        match spec_decode_utf8_string(bytes_mut_view(*buf), start_pos as int) {
            Parsed::Done(v, p) => r matches Ok((st, q)) && st@ == v && q == p,
            Parsed::Failed(e) => r == Err::<(String, usize), ParseError>(e),
            Parsed::Aborts => false,
        },
{
    let s = bytes_mut_as_slice(buf);
    let length = byte_pair_to_u16(s[start_pos], s[start_pos + 1]) as usize;
    let body = vstd::slice::slice_subrange(s, start_pos + 2, start_pos + 2 + length);
    match str_from_utf8(body) {
        Some(v) => Ok((v.to_owned(), start_pos + 2 + length)),
        None => Err(ParseError::InvalidUtf8),
    }
}

/// A variable byte integer read from `start + i` on (`acc` the value of the
/// groups already read); the position returned is that of its last byte
/// (`start + 3` when all four bytes have the continuation bit).
pub open spec fn spec_variable_byte_from(s: Seq<u8>, start: int, i: nat, acc: int) -> Parsed<int>
    decreases 4 - i,
{
    if i >= 4 {
        Parsed::Done(acc, start + 3)
    } else if start + i < 0 || start + i >= s.len() {
        Parsed::Aborts
    } else {
        let b = s[start + i];
        let acc2 = acc + (b % 128) as int * pow128(i);
        if b < 128 {
            Parsed::Done(acc2, start + i)
        } else {
            spec_variable_byte_from(s, start, i + 1, acc2)
        }
    }
}

pub open spec fn spec_decode_variable_byte(s: Seq<u8>, start: int) -> Parsed<int> {
    spec_variable_byte_from(s, start, 0, 0)
}

proof fn lemma_variable_byte_bounds(s: Seq<u8>, start: int, i: nat, acc: int)
    requires
        i <= 4,
        0 <= start,
        0 <= acc < pow128_total(i),
        i == 4 ==> start + 3 < s.len(),
    ensures
        spec_variable_byte_from(s, start, i, acc) matches Parsed::Done(v, p) ==> 0 <= v < 268435456
            && start <= p <= start + 3 && p < s.len(),
    decreases 4 - i,
{
    if i < 4 && 0 <= start + i < s.len() {
        let b = s[start + i];
        let acc2 = acc + (b % 128) as int * pow128(i);
        assert((b % 128) as int * pow128(i) <= 127 * pow128(i)) by (nonlinear_arith)
            requires
                (b % 128) as int <= 127,
                pow128(i) >= 0,
        ;
        if b >= 128 {
            lemma_variable_byte_bounds(s, start, i + 1, acc2);
        }
    }
}

/// Reads the variable byte integer at `start_pos`; returns its value and the
/// position of its last byte.
pub fn decode_variable_byte(buf: &BytesMut, start_pos: usize) -> (r: (usize, usize))
    requires
        !(spec_decode_variable_byte(bytes_mut_view(*buf), start_pos as int) is Aborts),
    ensures
        spec_decode_variable_byte(bytes_mut_view(*buf), start_pos as int) == Parsed::<int>::Done(r.0 as int, r.1 as int),
        r.0 < 268435456,
        start_pos <= r.1 <= start_pos + 3,
        r.1 < bytes_mut_view(*buf).len(),
{
    let s = bytes_mut_as_slice(buf);
    let ghost sv = s@;
    let mut remaining_length: usize = 0;
    let mut inc: usize = 0;
    let mut pos: usize = start_pos;
    proof {
        if start_pos as int >= sv.len() {
            assert(spec_decode_variable_byte(sv, start_pos as int) is Aborts);
        }
    }
    while inc < 4
        invariant
            !(spec_decode_variable_byte(sv, start_pos as int) is Aborts),
            sv == s@,
            sv == bytes_mut_view(*buf),
            sv.len() <= isize::MAX,
            start_pos < sv.len(),
            pos <= sv.len(),
            pos == start_pos + inc,
            inc <= 4,
            0 <= remaining_length < pow128_total(inc as nat),
            spec_decode_variable_byte(sv, start_pos as int) == spec_variable_byte_from(
                sv,
                start_pos as int,
                inc as nat,
                remaining_length as int,
            ),
        decreases 4 - inc,
    {
        let b = s[pos];
        proof {
            lemma_variable_byte_bounds(sv, start_pos as int, inc as nat, remaining_length as int);
            lemma_digit_shift(b, inc);
            assert((b % 128) as int * pow128(inc as nat) <= 127 * pow128(inc as nat)) by (nonlinear_arith)
                requires
                    (b % 128) as int <= 127,
                    pow128(inc as nat) >= 0,
            ;
        }
        remaining_length += ((b & 0b01111111) as usize) << (inc * 7);
        if (b & 0b10000000) == 0 {
            assert(b & 0x80 == 0 <==> b < 128) by (bit_vector);
            return (remaining_length, pos);
        }
        assert(b & 0x80 != 0 <==> b >= 128) by (bit_vector);
        inc += 1;
        pos += 1;
        proof {
            if inc < 4 && pos as int >= sv.len() {
                assert(spec_variable_byte_from(sv, start_pos as int, inc as nat, remaining_length as int) is Aborts);
            }
        }
    }
    proof {
        lemma_variable_byte_bounds(sv, start_pos as int, 4, remaining_length as int);
    }
    (remaining_length, start_pos + 3)
}

/// A packet of one of the types that are parsed.
pub enum ControlPacket {
    CONNECT(Connect),
    DISCONNECT(Disconnect),
}

/// A packet as a value.
pub enum ControlPacketModel {
    CONNECT(ConnectModel),
    DISCONNECT,
}

impl View for ControlPacket {
    type V = ControlPacketModel;

    open spec fn view(&self) -> ControlPacketModel {
        match self {
            ControlPacket::CONNECT(c) => ControlPacketModel::CONNECT(c@),
            ControlPacket::DISCONNECT(_) => ControlPacketModel::DISCONNECT,
        }
    }
}

/// A packet and the remaining length of its fixed header.
pub struct MqttPacket {
    pub remaining_length: usize,
    pub control_packet: ControlPacket,
}

/// A CONNECT packet as far as it is parsed.
pub struct Connect {
    pub protocol_ver: ProtocolVersion,
    pub clean_session: bool,
    pub will: bool,
    pub will_qos: u8,
    pub will_retain: bool,
    pub will_topic: String,
    pub will_payload: Option<Bytes>,
    pub user_password_flag: bool,
    pub user_name_flag: bool,
    pub client_id: String,
    pub username: Option<String>,
    pub password: Option<Bytes>,
    pub keepalive_timer: u16,
    pub properties: ConnectProperties,
    pub will_properties: WillProperties,
}

/// A CONNECT packet as values.
pub struct ConnectModel {
    pub protocol_ver: ProtocolVersion,
    pub clean_session: bool,
    pub will: bool,
    pub will_qos: u8,
    pub will_retain: bool,
    pub will_topic: Seq<char>,
    pub will_payload: Option<Seq<u8>>,
    pub user_password_flag: bool,
    pub user_name_flag: bool,
    pub client_id: Seq<char>,
    pub username: Option<Seq<char>>,
    pub password: Option<Seq<u8>>,
    pub keepalive_timer: u16,
    pub properties: ConnectPropertiesModel,
    pub will_properties: WillPropertiesModel,
}

impl View for Connect {
    type V = ConnectModel;

    open spec fn view(&self) -> ConnectModel {
        ConnectModel {
            protocol_ver: self.protocol_ver,
            clean_session: self.clean_session,
            will: self.will,
            will_qos: self.will_qos,
            will_retain: self.will_retain,
            will_topic: self.will_topic@,
            will_payload: opt_bytes_view(self.will_payload),
            user_password_flag: self.user_password_flag,
            user_name_flag: self.user_name_flag,
            client_id: self.client_id@,
            username: opt_string_view(self.username),
            password: opt_bytes_view(self.password),
            keepalive_timer: self.keepalive_timer,
            properties: self.properties@,
            will_properties: self.will_properties@,
        }
    }
}

/// A CONNECT with nothing parsed yet.
pub open spec fn spec_default_connect() -> ConnectModel {
    ConnectModel {
        protocol_ver: ProtocolVersion::Other,
        clean_session: false,
        will: false,
        will_qos: 0,
        will_retain: false,
        will_topic: Seq::empty(),
        will_payload: None,
        user_password_flag: false,
        user_name_flag: false,
        client_id: Seq::empty(),
        username: None,
        password: None,
        keepalive_timer: 0,
        properties: spec_default_connect_properties(),
        will_properties: spec_default_will_properties(),
    }
}

impl Default for Connect {
    fn default() -> (r: Self)
        ensures
            r@ == spec_default_connect(),
    {
        Self {
            protocol_ver: ProtocolVersion::Other,
            clean_session: false,
            will: false,
            will_qos: 0,
            will_retain: false,
            will_payload: None,
            will_topic: String::new(),
            user_password_flag: false,
            user_name_flag: false,
            client_id: String::new(),
            username: None,
            password: None,
            keepalive_timer: 0,
            properties: ConnectProperties::default(),
            will_properties: WillProperties::default(),
        }
    }
}

/// A DISCONNECT packet.
pub struct Disconnect {}

impl Default for Disconnect {
    fn default() -> (r: Self)
        ensures
            r == (Disconnect {  }),
    {
        Self {  }
    }
}

/// The CONNECT after its flags are set from byte `b`: Clean Session is bit
/// 1, Will bit 2, Will QoS bits 3-4, Will Retain bit 5, Password bit 6 and
/// User Name bit 7.
pub open spec fn spec_connect_flag(c: ConnectModel, b: u8) -> ConnectModel {
    ConnectModel {
        clean_session: (b & 0b00000010) == 0b00000010,
        will: (b & 0b00000100) == 0b00000100,
        will_qos: (b & 0b00011000) >> 3u8,
        will_retain: (b & 0b00100000) == 0b00100000,
        user_password_flag: (b & 0b01000000) == 0b01000000,
        user_name_flag: (b & 0b10000000) == 0b10000000,
        ..c
    }
}


/// The CONNECT property list from `pos`, which began at `start` and is `len`
/// bytes long, read into `st`. Identifier 0x21 stores a 32-bit value into
/// the Session Expiry Interval; a User Property reads its key from the start
/// of the buffer and its value after the key, and the list goes on after the
/// value (the parser is not modelled when that goes back in the buffer);
/// Authentication Method and Data may occur once; any other identifier is
/// refused, and so is a list that runs past its length.
pub open spec fn spec_connect_properties(s: Seq<u8>, pos: int, start: int, len: int, st: ConnectPropertiesModel) -> (
    ConnectPropertiesModel,
    Parsed<()>,
)
    decreases s.len() - pos,
{
    if pos == start + len {
        (st, Parsed::Done((), pos))
    } else if pos > start + len {
        (st, Parsed::Failed(ParseError::PropertyLength))
    } else if pos < 0 || pos >= s.len() {
        (st, Parsed::Aborts)
    } else {
        let id = s[pos];
        if id == 0x11 || id == 0x21 {
            if pos + 5 > s.len() {
                (st, Parsed::Aborts)
            } else {
                spec_connect_properties(s, pos + 5, start, len, ConnectPropertiesModel { session_expiry_interval: spec_u32_be(s, pos + 1), ..st })
            }
        } else if id == 0x27 {
            if pos + 5 > s.len() {
                (st, Parsed::Aborts)
            } else {
                spec_connect_properties(s, pos + 5, start, len, ConnectPropertiesModel { maximum_packet_size: spec_u32_be(s, pos + 1), ..st })
            }
        } else if id == 0x22 {
            if pos + 3 > s.len() {
                (st, Parsed::Aborts)
            } else {
                spec_connect_properties(s, pos + 3, start, len, ConnectPropertiesModel { topic_alias_maximum: spec_u16_be(s[pos + 1], s[pos + 2]), ..st })
            }
        } else if id == 0x19 {
            if pos + 2 > s.len() {
                (st, Parsed::Aborts)
            } else {
                spec_connect_properties(s, pos + 2, start, len, ConnectPropertiesModel { request_response_information: (s[pos + 1] & 0b1) == 0b1, ..st })
            }
        } else if id == 0x17 {
            if pos + 2 > s.len() {
                (st, Parsed::Aborts)
            } else {
                spec_connect_properties(s, pos + 2, start, len, ConnectPropertiesModel { request_problem_infromation: (s[pos + 1] & 0b1) == 0b1, ..st })
            }
        } else if id == 0x26 {
            match spec_decode_utf8_string(s, 0) {
                Parsed::Done(key, p1) => match spec_decode_utf8_string(s, p1) {
                    Parsed::Done(value, p2) => {
                        let st2 = ConnectPropertiesModel { user_properties: st.user_properties.push((key, value)), ..st };
                        if p2 <= pos {
                            (st2, Parsed::Aborts)
                        } else {
                            spec_connect_properties(s, p2, start, len, st2)
                        }
                    },
                    Parsed::Failed(e) => (st, Parsed::Failed(e)),
                    Parsed::Aborts => (st, Parsed::Aborts),
                },
                Parsed::Failed(e) => (st, Parsed::Failed(e)),
                Parsed::Aborts => (st, Parsed::Aborts),
            }
        } else if id == 0x15 {
            if st.authentication_method is Some {
                (st, Parsed::Failed(ParseError::DuplicateProperty(PropertyKind::AuthenticationMethod)))
            } else {
                match spec_decode_utf8_string(s, pos + 1) {
                    Parsed::Done(m, p1) => spec_connect_properties(s, p1, start, len, ConnectPropertiesModel { authentication_method: Some(m), ..st }),
                    Parsed::Failed(e) => (st, Parsed::Failed(e)),
                    Parsed::Aborts => (st, Parsed::Aborts),
                }
            }
        } else if id == 0x16 {
            if st.authentication_data is Some {
                (st, Parsed::Failed(ParseError::DuplicateProperty(PropertyKind::AuthenticationData)))
            } else if pos + 3 > s.len() {
                (st, Parsed::Aborts)
            } else {
                let l = spec_u16_be(s[pos + 1], s[pos + 2]) as int;
                if pos + 3 + l > s.len() {
                    (st, Parsed::Aborts)
                } else {
                    spec_connect_properties(s, pos + 3 + l, start, len, ConnectPropertiesModel { authentication_data: Some(s.subrange(pos + 3, pos + 3 + l)), ..st })
                }
            }
        } else {
            (st, Parsed::Failed(ParseError::UnknownProperty(id)))
        }
    }
}

/// One will property at `pos`: the properties after it and the position
/// after it. Correlation Data is a variable byte integer length whose data
/// start at the last byte of that integer; a Subscription Identifier is a
/// variable byte integer after which the list goes on at its last byte; an
/// unknown identifier is skipped without moving on.
pub open spec fn spec_will_property_step(s: Seq<u8>, pos: int, st: WillPropertiesModel) -> (
    WillPropertiesModel,
    Parsed<()>,
) {
    if pos < 0 || pos >= s.len() {
        (st, Parsed::Aborts)
    } else {
        let id = s[pos];
        if id == 0x18 {
            if pos + 5 > s.len() {
                (st, Parsed::Aborts)
            } else {
                (WillPropertiesModel { will_delay_interval: spec_u32_be(s, pos + 1), ..st }, Parsed::Done((), pos + 5))
            }
        } else if id == 0x01 {
            if st.payload_format_indicator is Some {
                (st, Parsed::Failed(ParseError::DuplicateProperty(PropertyKind::PayloadFormatIndicator)))
            } else if pos + 2 > s.len() {
                (st, Parsed::Aborts)
            } else {
                (WillPropertiesModel { payload_format_indicator: Some(s[pos + 1] == 0b1), ..st }, Parsed::Done((), pos + 2))
            }
        } else if id == 0x02 {
            if pos + 5 > s.len() {
                (st, Parsed::Aborts)
            } else {
                (WillPropertiesModel { message_expiry_interval: Some(spec_u32_be(s, pos + 1)), ..st }, Parsed::Done((), pos + 5))
            }
        } else if id == 0x03 {
            if st.content_type is Some {
                (st, Parsed::Failed(ParseError::DuplicateProperty(PropertyKind::ContentType)))
            } else {
                match spec_decode_utf8_string(s, pos + 1) {
                    Parsed::Done(c, p1) => (WillPropertiesModel { content_type: Some(c), ..st }, Parsed::Done((), p1)),
                    Parsed::Failed(e) => (st, Parsed::Failed(e)),
                    Parsed::Aborts => (st, Parsed::Aborts),
                }
            }
        } else if id == 0x08 {
            match spec_decode_utf8_string(s, pos + 1) {
                Parsed::Done(t, p1) => (WillPropertiesModel { response_topic: Some(t), ..st }, Parsed::Done((), p1)),
                Parsed::Failed(e) => (st, Parsed::Failed(e)),
                Parsed::Aborts => (st, Parsed::Aborts),
            }
        } else if id == 0x09 {
            if st.correlation_data is Some {
                (st, Parsed::Failed(ParseError::DuplicateProperty(PropertyKind::CorrelationData)))
            } else {
                match spec_decode_variable_byte(s, pos + 1) {
                    Parsed::Done(dl, end) => if end + dl > s.len() {
                        (st, Parsed::Aborts)
                    } else {
                        (WillPropertiesModel { correlation_data: Some(s.subrange(end, end + dl)), ..st }, Parsed::Done((), end + dl))
                    },
                    _ => (st, Parsed::Aborts),
                }
            }
        } else if id == 0x26 {
            match spec_decode_utf8_string(s, pos + 1) {
                Parsed::Done(key, p1) => match spec_decode_utf8_string(s, p1) {
                    Parsed::Done(value, p2) => (WillPropertiesModel { user_properties: st.user_properties.push((key, value)), ..st }, Parsed::Done((), p2)),
                    Parsed::Failed(e) => (st, Parsed::Failed(e)),
                    Parsed::Aborts => (st, Parsed::Aborts),
                },
                Parsed::Failed(e) => (st, Parsed::Failed(e)),
                Parsed::Aborts => (st, Parsed::Aborts),
            }
        } else if id == 0x0B {
            match spec_decode_variable_byte(s, pos + 1) {
                Parsed::Done(v, end) => (WillPropertiesModel { subscription_identifier: v as usize, ..st }, Parsed::Done((), end)),
                _ => (st, Parsed::Aborts),
            }
        } else {
            (st, Parsed::Done((), pos))
        }
    }
}

/// The will property list from `pos` on, read into `st`: a property, then
/// the list ends when `len` is the position after it plus one, is refused
/// when `len` is smaller, and goes on otherwise (a property that does not
/// move the position on then repeats for ever).
pub open spec fn spec_will_properties(s: Seq<u8>, pos: int, len: int, st: WillPropertiesModel) -> (
    WillPropertiesModel,
    Parsed<()>,
)
    decreases s.len() - pos,
{
    let (st1, out) = spec_will_property_step(s, pos, st);
    match out {
        Parsed::Done(_, next) => {
            if len == next + 1 {
                (st1, Parsed::Done((), next))
            } else if len < next + 1 {
                (st1, Parsed::Failed(ParseError::WillPropertyLength))
            } else if next <= pos || next > s.len() {
                (st1, Parsed::Aborts)
            } else {
                spec_will_properties(s, next, len, st1)
            }
        },
        _ => (st1, out),
    }
}

/// The properties of an MQTT 5 CONNECT: their length is a variable byte
/// integer at position 10, the list follows it. The position returned counts
/// the whole variable header.
pub open spec fn spec_connect_v5_properties(s: Seq<u8>, c: ConnectModel) -> (ConnectModel, Parsed<()>) {
    match spec_decode_variable_byte(s, 10) {
        Parsed::Done(plen, end) => {
            let (props, out) = spec_connect_properties(s, end + 1, end + 1, plen, c.properties);
            let c2 = ConnectModel { properties: props, ..c };
            match out {
                Parsed::Done(_, _) => (c2, Parsed::Done((), 10 + (end - 10 + 1) + plen)),
                Parsed::Failed(e) => (c2, Parsed::Failed(e)),
                Parsed::Aborts => (c2, Parsed::Aborts),
            }
        },
        _ => (c, Parsed::Aborts),
    }
}

/// The variable header of a CONNECT at the start of `s`: a protocol name of
/// length 4 that reads "MQTT" with level 5 (MQTT 5, whose properties follow)
/// or 4 (MQTT 3.1.1), or a name of length 6 that reads "MQIsdp" with level 3
/// (MQTT 3.1); then the flag byte and the keep alive. Any other name or
/// level is refused. The position returned is the length of the header.
pub open spec fn spec_connect_variable_header(s: Seq<u8>, c: ConnectModel) -> (ConnectModel, Parsed<()>) {
    if s.len() < 2 {
        (c, Parsed::Aborts)
    } else {
        let plen = spec_u16_be(s[0], s[1]);
        let is_mqtt = if plen == 4 { spec_bytes_match(s, 2, spec_mqtt_name()) } else { Some(false) };
        let is_mqisdp = if plen == 6 { spec_bytes_match(s, 2, spec_mqisdp_name()) } else { Some(false) };
        match is_mqtt {
            None => (c, Parsed::Aborts),
            Some(true) => {
                if s.len() <= 6 {
                    (c, Parsed::Aborts)
                } else if s[6] != 5 && s[6] != 4 {
                    (c, Parsed::Failed(ParseError::ProtocolHeader(HeaderFault::MqttLevel)))
                } else if s.len() < 10 {
                    (c, Parsed::Aborts)
                } else {
                    let ver = if s[6] == 5 { ProtocolVersion::V5 } else { ProtocolVersion::V3_1_1 };
                    let c1 = spec_connect_flag(ConnectModel { protocol_ver: ver, ..c }, s[7]);
                    let c2 = ConnectModel { keepalive_timer: spec_u16_be(s[8], s[9]), ..c1 };
                    if s[6] == 5 {
                        spec_connect_v5_properties(s, c2)
                    } else {
                        (c2, Parsed::Done((), 10))
                    }
                }
            },
            Some(false) => match is_mqisdp {
                None => (c, Parsed::Aborts),
                Some(true) => {
                    if s.len() <= 8 {
                        (c, Parsed::Aborts)
                    } else if s[8] != 3 {
                        (c, Parsed::Failed(ParseError::ProtocolHeader(HeaderFault::MqisdpLevel)))
                    } else if s.len() < 12 {
                        (c, Parsed::Aborts)
                    } else {
                        let c1 = spec_connect_flag(ConnectModel { protocol_ver: ProtocolVersion::V3_1, ..c }, s[9]);
                        (ConnectModel { keepalive_timer: spec_u16_be(s[10], s[11]), ..c1 }, Parsed::Done((), 12))
                    }
                },
                Some(false) => (c, Parsed::Failed(ParseError::ProtocolHeader(HeaderFault::ProtocolName))),
            },
        }
    }
}

/// The client identifier at the start of the payload: a 16-bit length and
/// that many bytes of UTF-8.
pub open spec fn spec_payload_client_id(s: Seq<u8>, c: ConnectModel) -> (ConnectModel, Parsed<()>) {
    if s.len() < 2 {
        (c, Parsed::Aborts)
    } else {
        let l = spec_u16_be(s[0], s[1]) as int;
        if 2 + l > s.len() {
            (c, Parsed::Aborts)
        } else if !valid_utf8(s.subrange(2, 2 + l)) {
            (c, Parsed::Failed(ParseError::ClientIdNotUtf8))
        } else {
            (ConnectModel { client_id: decode_utf8(s.subrange(2, 2 + l)), ..c }, Parsed::Done((), 2 + l))
        }
    }
}

/// Binary data at `pos`: a 16-bit length and that many bytes.
pub open spec fn spec_payload_binary(s: Seq<u8>, pos: int) -> Parsed<Seq<u8>> {
    if pos < 0 || pos + 2 > s.len() {
        Parsed::Aborts
    } else {
        let l = spec_u16_be(s[pos], s[pos + 1]) as int;
        if pos + 2 + l > s.len() {
            Parsed::Aborts
        } else {
            Parsed::Done(s.subrange(pos + 2, pos + 2 + l), pos + 2 + l)
        }
    }
}

/// The will topic and will payload at `pos`.
pub open spec fn spec_payload_will_message(s: Seq<u8>, pos: int, c: ConnectModel) -> (ConnectModel, Parsed<()>) {
    match spec_decode_utf8_string(s, pos) {
        Parsed::Done(t, p1) => {
            let c1 = ConnectModel { will_topic: t, ..c };
            match spec_payload_binary(s, p1) {
                Parsed::Done(d, p2) => (ConnectModel { will_payload: Some(d), ..c1 }, Parsed::Done((), p2)),
                Parsed::Failed(e) => (c1, Parsed::Failed(e)),
                Parsed::Aborts => (c1, Parsed::Aborts),
            }
        },
        Parsed::Failed(e) => (c, Parsed::Failed(e)),
        Parsed::Aborts => (c, Parsed::Aborts),
    }
}

/// When the will flag is set, the will properties, the will topic and the
/// will payload; nothing otherwise. The length of the will properties is a
/// variable byte integer at `pos`, and the list is read from `pos` plus the
/// position of the last byte of that integer.
pub open spec fn spec_payload_will(s: Seq<u8>, pos: int, c: ConnectModel) -> (ConnectModel, Parsed<()>) {
    if !c.will {
        (c, Parsed::Done((), pos))
    } else {
        match spec_decode_variable_byte(s, pos) {
            Parsed::Done(wpl, ret_pos) => {
                let (wp, out) = spec_will_properties(s, pos + ret_pos, wpl, c.will_properties);
                let c1 = ConnectModel { will_properties: wp, ..c };
                match out {
                    Parsed::Done(_, p) => spec_payload_will_message(s, p, c1),
                    Parsed::Failed(e) => (c1, Parsed::Failed(e)),
                    Parsed::Aborts => (c1, Parsed::Aborts),
                }
            },
            _ => (c, Parsed::Aborts),
        }
    }
}

/// The user name (when its flag is set) and the password (when its flag is
/// set) at `pos`.
pub open spec fn spec_payload_credentials(s: Seq<u8>, pos: int, c: ConnectModel) -> (ConnectModel, Parsed<()>) {
    let (c1, out1) = if c.user_name_flag {
        match spec_decode_utf8_string(s, pos) {
            Parsed::Done(n, p) => (ConnectModel { username: Some(n), ..c }, Parsed::Done((), p)),
            Parsed::Failed(e) => (c, Parsed::Failed(e)),
            Parsed::Aborts => (c, Parsed::Aborts),
        }
    } else {
        (c, Parsed::Done((), pos))
    };
    match out1 {
        Parsed::Done(_, p1) => if c1.user_password_flag {
            match spec_payload_binary(s, p1) {
                Parsed::Done(d, p2) => (ConnectModel { password: Some(d), ..c1 }, Parsed::Done((), p2)),
                Parsed::Failed(e) => (c1, Parsed::Failed(e)),
                Parsed::Aborts => (c1, Parsed::Aborts),
            }
        } else {
            (c1, Parsed::Done((), p1))
        },
        _ => (c1, out1),
    }
}

/// The rest of the payload once the will properties are read into `wp` with
/// outcome `out`: the will message and the credentials.
pub open spec fn spec_payload_after_will(s: Seq<u8>, wp_out: (WillPropertiesModel, Parsed<()>), c: ConnectModel) -> (
    ConnectModel,
    Parsed<()>,
) {
    let c1 = ConnectModel { will_properties: wp_out.0, ..c };
    match wp_out.1 {
        Parsed::Done(_, p) => {
            let (c2, o2) = spec_payload_will_message(s, p, c1);
            match o2 {
                Parsed::Done(_, p2) => spec_payload_credentials(s, p2, c2),
                _ => (c2, o2),
            }
        },
        Parsed::Failed(e) => (c1, Parsed::Failed(e)),
        Parsed::Aborts => (c1, Parsed::Aborts),
    }
}

/// The payload of a CONNECT at the start of `s`: the client identifier, the
/// will section and the credentials, as the flags ask.
pub open spec fn spec_connect_payload(s: Seq<u8>, c: ConnectModel) -> (ConnectModel, Parsed<()>) {
    let (c1, o1) = spec_payload_client_id(s, c);
    match o1 {
        Parsed::Done(_, p1) => {
            let (c2, o2) = spec_payload_will(s, p1, c1);
            match o2 {
                Parsed::Done(_, p2) => spec_payload_credentials(s, p2, c2),
                _ => (c2, o2),
            }
        },
        _ => (c1, o1),
    }
}


/// Whether an exec result of a section parser agrees with the outcome of the
/// specification: the number of bytes the section takes, or the error.
pub open spec fn parsed_as(r: Result<usize, ParseError>, d: Parsed<()>) -> bool {
    match d {
        Parsed::Done(_, p) => r == Ok::<usize, ParseError>(p as usize),
        Parsed::Failed(e) => r == Err::<usize, ParseError>(e),
        Parsed::Aborts => false,
    }
}

impl Connect {
    /// Parses the protocol name and level, the flags, the keep alive and,
    /// for MQTT 5, the properties; returns the length of the variable
    /// header. Fields parsed before an error keep their new values.
    #[verifier::spinoff_prover]
    #[verifier::rlimit(60)]
    pub fn parse_variable_header(&mut self, buf: &BytesMut) -> (r: Result<usize, ParseError>)
        requires
            !(spec_connect_variable_header(bytes_mut_view(*buf), old(self)@).1 is Aborts),
        ensures
            final(self)@ == spec_connect_variable_header(bytes_mut_view(*buf), old(self)@).0,
            parsed_as(r, spec_connect_variable_header(bytes_mut_view(*buf), old(self)@).1),
    {
        let ghost sv = bytes_mut_view(*buf);
        let s = bytes_mut_as_slice(buf);
        let mut consumed_length: usize = 0;
        let protocol_length = byte_pair_to_u16(s[0], s[1]);
        proof {
            reveal_with_fuel(spec_bytes_match, 7);
            assert(spec_mqtt_name().len() == 4);
            assert(spec_mqisdp_name().len() == 6);
        }
        // MQTT version 5 & 3.1.1 ( MQTT )
        if protocol_length == 4 && s[2] == 0b01001101 && s[3] == 0b01010001 && s[4] == 0b01010100 && s[5]
            == 0b01010100 {
            if s[6] == 0b00000101 {
                self.protocol_ver = ProtocolVersion::V5;
            } else if s[6] == 0b00000100 {
                self.protocol_ver = ProtocolVersion::V3_1_1;
            } else {
                return Err(ParseError::ProtocolHeader(HeaderFault::MqttLevel));
            }
            self.parse_connect_flag(s[7]);
            self.keepalive_timer = byte_pair_to_u16(s[8], s[9]);
            consumed_length = 10;
        } else if protocol_length == 6 /* MQTT version 3.1 & 3 ( MQIsdp ) */
            && s[2] == 0b01001101 && s[3] == 0b01010001 && s[4] == 0b01001001 && s[5] == 0b01110011
            && s[6] == 0b01100100 && s[7] == 0b01110000 {
            if s[8] == 0b00000011 {
                self.protocol_ver = ProtocolVersion::V3_1;
            } else {
                return Err(ParseError::ProtocolHeader(HeaderFault::MqisdpLevel));
            }
            self.parse_connect_flag(s[9]);
            self.keepalive_timer = byte_pair_to_u16(s[10], s[11]);
            consumed_length = 12;
        } else {
            return Err(ParseError::ProtocolHeader(HeaderFault::ProtocolName));
        }
        /* CONNECT Properties */
        match self.protocol_ver {
            ProtocolVersion::V5 => {
                let (property_length, end_pos) = decode_variable_byte(buf, 10);
                consumed_length = consumed_length + (end_pos - 10 + 1);
                self.parse_properties(buf, end_pos + 1, property_length)?;
                consumed_length = consumed_length + property_length;
            },
            _ => {},
        }
        Ok(consumed_length)
    }

    /// Sets the flags of the CONNECT from its flag byte.
    fn parse_connect_flag(&mut self, b: u8)
        ensures
            final(self)@ == spec_connect_flag(old(self)@, b),
    {
        self.clean_session = (b & 0b00000010) == 0b00000010;
        self.will = (b & 0b00000100) == 0b00000100;
        self.will_qos = (b & 0b00011000) >> 3;
        self.will_retain = (b & 0b00100000) == 0b00100000;
        self.user_password_flag = (b & 0b01000000) == 0b01000000;
        self.user_name_flag = (b & 0b10000000) == 0b10000000;
    }

    /// Parses the property list of `property_length` bytes at `start_pos`
    /// into the properties of the CONNECT.
    #[verifier::spinoff_prover]
    #[verifier::rlimit(60)]
    fn parse_properties(&mut self, buf: &BytesMut, start_pos: usize, property_length: usize) -> (r: Result<(), ParseError>)
        requires
            start_pos + property_length <= usize::MAX,
            !(spec_connect_properties(bytes_mut_view(*buf), start_pos as int, start_pos as int, property_length as int, old(self)@.properties).1 is Aborts),
        ensures
            final(self)@ == (ConnectModel {
                properties: spec_connect_properties(bytes_mut_view(*buf), start_pos as int, start_pos as int, property_length as int, old(self)@.properties).0,
                ..old(self)@
            }),
            match spec_connect_properties(bytes_mut_view(*buf), start_pos as int, start_pos as int, property_length as int, old(self)@.properties).1 {
                Parsed::Done(_, _) => r == Ok::<(), ParseError>(()),
                Parsed::Failed(e) => r == Err::<(), ParseError>(e),
                Parsed::Aborts => false,
            },
    {
        let ghost sv = bytes_mut_view(*buf);
        let ghost props0 = self.properties@;
        let ghost before = self@;
        let s = bytes_mut_as_slice(buf);
        let end = start_pos + property_length;
        let mut pos = start_pos;
        loop
            invariant
                sv == bytes_mut_view(*buf),
                sv == s@,
                sv.len() <= isize::MAX,
                end == start_pos + property_length,
                pos <= sv.len() || pos == start_pos,
                spec_connect_properties(sv, start_pos as int, start_pos as int, property_length as int, props0)
                    == spec_connect_properties(sv, pos as int, start_pos as int, property_length as int, self.properties@),
                !(spec_connect_properties(sv, start_pos as int, start_pos as int, property_length as int, props0).1 is Aborts),
                self@ == (ConnectModel { properties: self.properties@, ..before }),
                props0 == before.properties,
                before == old(self)@,
            decreases sv.len() - pos,
        {
            if pos == end {
                return Ok(());
            }
            if pos > end {
                return Err(ParseError::PropertyLength);
            }
            let id = s[pos];
            if id == 0x11 {
                self.properties.session_expiry_interval = read_u32_be(s, pos + 1);
                pos = pos + 5;
            } else if id == 0x21 {
                self.properties.session_expiry_interval = read_u32_be(s, pos + 1);
                pos = pos + 5;
            } else if id == 0x27 {
                self.properties.maximum_packet_size = read_u32_be(s, pos + 1);
                pos = pos + 5;
            } else if id == 0x22 {
                self.properties.topic_alias_maximum = byte_pair_to_u16(s[pos + 1], s[pos + 2]);
                pos = pos + 3;
            } else if id == 0x19 {
                self.properties.request_response_information = (s[pos + 1] & 0b1) == 0b1;
                pos = pos + 2;
            } else if id == 0x17 {
                self.properties.request_problem_infromation = (s[pos + 1] & 0b1) == 0b1;
                pos = pos + 2;
            } else if id == 0x26 {
                let (key, end_pos) = decode_utf8_string(buf, 0)?;
                let (value, end_pos) = decode_utf8_string(buf, end_pos)?;
                push_pair(&mut self.properties.user_properties, (key, value));
                pos = end_pos;
            } else if id == 0x15 {
                if self.properties.authentication_method.is_some() {
                    return Err(ParseError::DuplicateProperty(PropertyKind::AuthenticationMethod));
                }
                let (method, end_pos) = decode_utf8_string(buf, pos + 1)?;
                self.properties.authentication_method = Some(method);
                pos = end_pos;
            } else if id == 0x16 {
                if self.properties.authentication_data.is_some() {
                    return Err(ParseError::DuplicateProperty(PropertyKind::AuthenticationData));
                }
                let length = byte_pair_to_u16(s[pos + 1], s[pos + 2]) as usize;
                let data = vstd::slice::slice_subrange(s, pos + 3, pos + 3 + length);
                self.properties.authentication_data = Some(bytes_copy_from_slice(data));
                pos = pos + 3 + length;
            } else {
                return Err(ParseError::UnknownProperty(id));
            }
        }
    }

    /// Parses one will property at `pos` into the will properties; returns
    /// the position after it.
    #[verifier::spinoff_prover]
    #[verifier::rlimit(60)]
    fn parse_will_property(&mut self, buf: &BytesMut, pos: usize) -> (r: Result<usize, ParseError>)
        requires
            !(spec_will_property_step(bytes_mut_view(*buf), pos as int, old(self)@.will_properties).1 is Aborts),
        ensures
            final(self)@ == (ConnectModel {
                will_properties: spec_will_property_step(bytes_mut_view(*buf), pos as int, old(self)@.will_properties).0,
                ..old(self)@
            }),
            match spec_will_property_step(bytes_mut_view(*buf), pos as int, old(self)@.will_properties).1 {
                Parsed::Done(_, p) => r == Ok::<usize, ParseError>(p as usize) && pos <= p <= bytes_mut_view(*buf).len(),
                Parsed::Failed(e) => r == Err::<usize, ParseError>(e),
                Parsed::Aborts => false,
            },
    {
        let s = bytes_mut_as_slice(buf);
        let id = s[pos];
        if id == 0x18 {
            self.will_properties.will_delay_interval = read_u32_be(s, pos + 1);
            Ok(pos + 5)
        } else if id == 0x01 {
            if self.will_properties.payload_format_indicator.is_some() {
                return Err(ParseError::DuplicateProperty(PropertyKind::PayloadFormatIndicator));
            }
            self.will_properties.payload_format_indicator = Some(s[pos + 1] == 0b1);
            Ok(pos + 2)
        } else if id == 0x02 {
            self.will_properties.message_expiry_interval = Some(read_u32_be(s, pos + 1));
            Ok(pos + 5)
        } else if id == 0x03 {
            if self.will_properties.content_type.is_some() {
                return Err(ParseError::DuplicateProperty(PropertyKind::ContentType));
            }
            let (content_type, end_pos) = decode_utf8_string(buf, pos + 1)?;
            self.will_properties.content_type = Some(content_type);
            Ok(end_pos)
        } else if id == 0x08 {
            let (response_topic, end_pos) = decode_utf8_string(buf, pos + 1)?;
            self.will_properties.response_topic = Some(response_topic);
            Ok(end_pos)
        } else if id == 0x09 {
            if self.will_properties.correlation_data.is_some() {
                return Err(ParseError::DuplicateProperty(PropertyKind::CorrelationData));
            }
            let (datalength, end_pos) = decode_variable_byte(buf, pos + 1);
            let data = vstd::slice::slice_subrange(s, end_pos, end_pos + datalength);
            self.will_properties.correlation_data = Some(bytes_copy_from_slice(data));
            Ok(end_pos + datalength)
        } else if id == 0x26 {
            let (key, end_pos) = decode_utf8_string(buf, pos + 1)?;
            let (value, end_pos) = decode_utf8_string(buf, end_pos)?;
            push_pair(&mut self.will_properties.user_properties, (key, value));
            Ok(end_pos)
        } else if id == 0x0B {
            let (id, end_pos) = decode_variable_byte(buf, pos + 1);
            self.will_properties.subscription_identifier = id;
            Ok(end_pos)
        } else {
            Ok(pos)
        }
    }

    /// Parses the client identifier, the will section and the credentials.
    /// Fields parsed before an error keep their new values.
    #[verifier::spinoff_prover]
    #[verifier::rlimit(60)]
    pub fn parse_payload(&mut self, buf: &BytesMut) -> (r: Result<(), ParseError>)
        requires
            !(spec_connect_payload(bytes_mut_view(*buf), old(self)@).1 is Aborts),
        ensures
            final(self)@ == spec_connect_payload(bytes_mut_view(*buf), old(self)@).0,
            match spec_connect_payload(bytes_mut_view(*buf), old(self)@).1 {
                Parsed::Done(_, _) => r == Ok::<(), ParseError>(()),
                Parsed::Failed(e) => r == Err::<(), ParseError>(e),
                Parsed::Aborts => false,
            },
    {
        let ghost sv = bytes_mut_view(*buf);
        let s = bytes_mut_as_slice(buf);
        let mut pos: usize = 0;
        {
            let client_id_length = byte_pair_to_u16(s[0], s[1]) as usize;
            let body = vstd::slice::slice_subrange(s, 2, 2 + client_id_length);
            self.client_id = match str_from_utf8(body) {
                Some(v) => v.to_owned(),
                None => return Err(ParseError::ClientIdNotUtf8),
            };
            pos = 2 + client_id_length;
        }
        /* will properties */
        if self.will {
            let (will_property_length, ret_pos) = decode_variable_byte(buf, pos);
            pos = pos + ret_pos;
            let ghost props0 = self.will_properties@;
            let ghost before = self@;
            let ghost first = pos as int;
            assert(spec_connect_payload(sv, old(self)@) == spec_payload_after_will(
                sv,
                spec_will_properties(sv, first, will_property_length as int, props0),
                before,
            ));
            loop
                invariant_except_break
                    spec_will_properties(sv, first, will_property_length as int, props0)
                        == spec_will_properties(sv, pos as int, will_property_length as int, self.will_properties@),
                invariant
                    sv == bytes_mut_view(*buf),
                    sv == s@,
                    sv.len() <= isize::MAX,
                    pos <= sv.len() || pos == first,
                    !(spec_will_properties(sv, first, will_property_length as int, props0).1 is Aborts),
                    self@ == (ConnectModel { will_properties: self.will_properties@, ..before }),
                    props0 == before.will_properties,
                    before.will,
                    spec_connect_payload(sv, old(self)@) == spec_payload_after_will(
                        sv,
                        spec_will_properties(sv, first, will_property_length as int, props0),
                        before,
                    ),
                ensures
                    spec_will_properties(sv, first, will_property_length as int, props0) == (
                        self.will_properties@, Parsed::<()>::Done((), pos as int)),
                    self@ == (ConnectModel { will_properties: self.will_properties@, ..before }),
                decreases sv.len() - pos,
            {
                let ghost pos0 = pos as int;
                let np = self.parse_will_property(buf, pos)?;
                pos = np;
                if will_property_length == pos + 1 {
                    break;
                } else if will_property_length < pos + 1 {
                    return Err(ParseError::WillPropertyLength);
                }
                proof {
                    assert(pos0 < pos <= sv.len());
                }
            }
        }
        /* will topic and payload */
        if self.will {
            let (wt, end_pos) = decode_utf8_string(buf, pos)?;
            self.will_topic = wt;
            pos = end_pos;
            let datalength = byte_pair_to_u16(s[pos], s[pos + 1]) as usize;
            let data = vstd::slice::slice_subrange(s, pos + 2, pos + 2 + datalength);
            self.will_payload = Some(bytes_copy_from_slice(data));
            pos = pos + 2 + datalength;
        }
        if self.user_name_flag {
            let (name, end_pos) = decode_utf8_string(buf, pos)?;
            self.username = Some(name);
            pos = end_pos;
        }
        if self.user_password_flag {
            let datalength = byte_pair_to_u16(s[pos], s[pos + 1]) as usize;
            let data = vstd::slice::slice_subrange(s, pos + 2, pos + 2 + datalength);
            self.password = Some(bytes_copy_from_slice(data));
            pos = pos + 2 + datalength;
        }
        Ok(())
    }
}

/// Law: setting the CONNECT flags from byte `b` takes each flag from its
/// own bit: user name bit 7, password bit 6, will retain bit 5, will QoS
/// bits 4-3, will bit 2, clean session bit 1; nothing else changes.
pub proof fn law_connect_flag_bits(c: ConnectModel, b: u8)
    ensures
        spec_connect_flag(c, b).user_name_flag == (b >= 128),
        spec_connect_flag(c, b).user_password_flag == ((b / 64) % 2 == 1),
        spec_connect_flag(c, b).will_retain == ((b / 32) % 2 == 1),
        spec_connect_flag(c, b).will_qos == (b / 8) % 4,
        spec_connect_flag(c, b).will == ((b / 4) % 2 == 1),
        spec_connect_flag(c, b).clean_session == ((b / 2) % 2 == 1),
        spec_connect_flag(c, b).client_id == c.client_id,
        spec_connect_flag(c, b).protocol_ver == c.protocol_ver,
        spec_connect_flag(c, b).keepalive_timer == c.keepalive_timer,
{
    crate::mqtt_coder::mqtt::lemma_flag_byte_bits(b);
}

} // verus!
