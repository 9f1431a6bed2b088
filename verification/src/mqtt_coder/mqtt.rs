pub mod decoder;

use vstd::prelude::*;
use vstd::utf8::{decode_utf8, valid_utf8};
use bytes::BytesMut;
use bytes::Bytes;
use crate::buffers::{
    bytes_mut_view, bytes_view, bytes_mut_as_slice, bytes_copy_from_slice, str_from_utf8,
    bytes_as_slice, bytes_mut_new, bytes_mut_with_capacity, bytes_mut_extend_from_slice,
    bytes_mut_put_u8, bytes_mut_freeze,
};
use vstd::utf8::encode_utf8;

verus! {

/// Errors of decoding and encoding MQTT packets.
#[derive(Debug, PartialEq, Eq, Structural, Clone, Copy)]
pub enum MqttError {
    InsufficientBytes,
    InvalidFormat,
    NotImplemented,
    Unexpected,
}

/// The text of an error of decoding or encoding.
pub open spec fn spec_mqtt_error_text(e: MqttError) -> Seq<char> {
    match e {
        MqttError::InsufficientBytes => "Insufficient Bytes"@,
        MqttError::InvalidFormat => "Decode Error Invalid Parameter"@,
        MqttError::NotImplemented => "Not Implemented"@,
        MqttError::Unexpected => "Unexpected"@,
    }
}

impl MqttError {
    /// The text of the error.
    pub fn message(&self) -> (r: String)
        ensures
            r@ == spec_mqtt_error_text(*self),
    {
        match self {
            MqttError::InsufficientBytes => String::from_str("Insufficient Bytes"),
            MqttError::InvalidFormat => String::from_str("Decode Error Invalid Parameter"),
            MqttError::NotImplemented => String::from_str("Not Implemented"),
            MqttError::Unexpected => String::from_str("Unexpected"),
        }
    }
}

/// The 16-bit big-endian integer of two bytes.
pub open spec fn spec_u16_be(msb: u8, lsb: u8) -> u16 {
    (msb as int * 256 + lsb as int) as u16
}

/// The 32-bit big-endian integer of the four bytes of `s` from `i` on.
pub open spec fn spec_u32_be(s: Seq<u8>, i: int) -> u32 {
    (s[i] as int * 16777216 + s[i + 1] as int * 65536 + s[i + 2] as int * 256
        + s[i + 3] as int) as u32
}

pub fn byte_pair_to_u16(b_msb: u8, b_lsb: u8) -> (r: u16)
    ensures
        r == spec_u16_be(b_msb, b_lsb),
        r as int == b_msb as int * 256 + b_lsb as int,
{
    let hi = (b_msb as u16) << 8;
    assert(hi == (b_msb as u16) * 256) by (bit_vector)
        requires
            hi == (b_msb as u16) << 8,
    ;
    hi + b_lsb as u16
}

/// The single byte that stands for a boolean: 1 for true, 0 for false.
pub open spec fn spec_bool_byte(b: bool) -> u8 {
    if b {
        1
    } else {
        0
    }
}

pub fn bool_to_bytes(b: bool) -> (r: &'static [u8])
    ensures
        r@ == seq![spec_bool_byte(b)],
{
    if b {
        let r: &'static [u8] = &[1u8];
        assert(r@ =~= seq![1u8]);
        r
    } else {
        let r: &'static [u8] = &[0u8];
        assert(r@ =~= seq![0u8]);
        r
    }
}

pub(crate) fn read_u32_be(s: &[u8], i: usize) -> (r: u32)
    requires
        i + 4 <= s@.len(),
    ensures
        r == spec_u32_be(s@, i as int),
{
    let b0 = s[i] as u32;
    let b1 = s[i + 1] as u32;
    let b2 = s[i + 2] as u32;
    let b3 = s[i + 3] as u32;
    assert(b0 * 16777216 + b1 * 65536 + b2 * 256 + b3 <= u32::MAX) by (nonlinear_arith)
        requires
            b0 < 256,
            b1 < 256,
            b2 < 256,
            b3 < 256,
    ;
    b0 * 16777216 + b1 * 65536 + b2 * 256 + b3
}

/// Reads the 32-bit big-endian integer at `start_pos`.
pub fn decode_u32_bytes(buf: &BytesMut, start_pos: usize) -> (r: Result<u32, MqttError>)
    requires
        start_pos + 4 <= bytes_mut_view(*buf).len(),
    ensures
        r == Ok::<u32, MqttError>(spec_u32_be(bytes_mut_view(*buf), start_pos as int)),
{
    let s = bytes_mut_as_slice(buf);
    Ok(read_u32_be(s, start_pos))
}

/// Reads the 16-bit big-endian integer at `start_pos`.
pub fn decode_u16_bytes(buf: &BytesMut, start_pos: usize) -> (r: Result<u16, MqttError>)
    requires
        start_pos + 2 <= bytes_mut_view(*buf).len(),
    ensures
        r == Ok::<u16, MqttError>(
            spec_u16_be(bytes_mut_view(*buf)[start_pos as int], bytes_mut_view(*buf)[start_pos + 1]),
        ),
{
    let s = bytes_mut_as_slice(buf);
    Ok(byte_pair_to_u16(s[start_pos], s[start_pos + 1]))
}

/// Reads a 32-bit big-endian integer from a slice that must be exactly four
/// bytes long.
pub fn decode_u32_bytes_sliced(v: &[u8]) -> (r: Result<u32, MqttError>)
    ensures
        v@.len() == 4 ==> r == Ok::<u32, MqttError>(spec_u32_be(v@, 0)),
        v@.len() != 4 ==> r == Err::<u32, MqttError>(MqttError::InvalidFormat),
{
    if v.len() != 4 {
        return Err(MqttError::InvalidFormat);
    }
    Ok(read_u32_be(v, 0))
}

/// Outcome of decoding one item at a position of a byte sequence: the item and
/// the position after it, a refusal, or a read past the end of the bytes
/// (which the decoder does not guard against).
pub enum Decoded<T> {
    Done(T, int),
    Failed(MqttError),
    Overrun,
}

/// A UTF-8 string prefixed by its 16-bit big-endian length.
pub open spec fn spec_decode_utf8_string(s: Seq<u8>, start: int) -> Decoded<Seq<char>> {
    if start < 0 || start + 2 > s.len() {
        Decoded::Overrun
    } else {
        let length = spec_u16_be(s[start], s[start + 1]) as int;
        if start + 2 + length > s.len() {
            Decoded::Failed(MqttError::InsufficientBytes)
        } else if !valid_utf8(s.subrange(start + 2, start + 2 + length)) {
            Decoded::Failed(MqttError::InvalidFormat)
        } else {
            Decoded::Done(decode_utf8(s.subrange(start + 2, start + 2 + length)), start + 2 + length)
        }
    }
}

/// Reads a length-prefixed UTF-8 string at `start_pos`; returns it and the
/// position after it.
pub fn decode_utf8_string(buf: &BytesMut, start_pos: usize) -> (r: Result<(String, usize), MqttError>)
    requires
        !(spec_decode_utf8_string(bytes_mut_view(*buf), start_pos as int) is Overrun),
    ensures
        match spec_decode_utf8_string(bytes_mut_view(*buf), start_pos as int) {
            Decoded::Done(v, p) => r matches Ok((st, q)) && st@ == v && q == p,
            Decoded::Failed(e) => r == Err::<(String, usize), MqttError>(e),
            Decoded::Overrun => false,
        },
{
    let s = bytes_mut_as_slice(buf);
    let length = byte_pair_to_u16(s[start_pos], s[start_pos + 1]) as usize;
    if start_pos + 2 + length > s.len() {
        return Err(MqttError::InsufficientBytes);
    }
    let body = vstd::slice::slice_subrange(s, start_pos + 2, start_pos + 2 + length);
    match str_from_utf8(body) {
        Some(v) => Ok((v.to_owned(), start_pos + 2 + length)),
        None => Err(MqttError::InvalidFormat),
    }
}


/// Weight of the `i`-th 7-bit group of a variable byte integer.
pub open spec fn pow128(i: nat) -> int {
    if i == 0 {
        1
    } else if i == 1 {
        128
    } else if i == 2 {
        16384
    } else {
        2097152
    }
}

/// Variable byte integer (at most four bytes, low 7-bit group first, high bit
/// set on each byte that is followed by another) read from `start + i` on,
/// with `acc` the value of the groups already read.
pub open spec fn spec_variable_length_from(s: Seq<u8>, start: int, i: nat, acc: int) -> Decoded<int>
    decreases 4 - i,
{
    if i >= 4 {
        Decoded::Done(acc, start + 4)
    } else if s.len() <= start + i {
        Decoded::Failed(MqttError::InsufficientBytes)
    } else {
        let b = s[start + i];
        let acc2 = acc + (b % 128) as int * pow128(i);
        if b < 128 {
            Decoded::Done(acc2, start + i + 1)
        } else {
            spec_variable_length_from(s, start, i + 1, acc2)
        }
    }
}

/// The variable byte integer at `start`, and the position after it.
pub open spec fn spec_decode_variable_length(s: Seq<u8>, start: int) -> Decoded<int> {
    spec_variable_length_from(s, start, 0, 0)
}

proof fn lemma_variable_length_from_bounds(s: Seq<u8>, start: int, i: nat, acc: int)
    requires
        i <= 4,
        0 <= acc < pow128_total(i),
        i == 4 ==> start + 4 <= s.len(),
    ensures
        spec_variable_length_from(s, start, i, acc) matches Decoded::Done(v, p) ==> 0 <= v
            < 268435456 && start + i < p <= start + 4 || (i == 4 && p == start + 4),
        !(spec_variable_length_from(s, start, i, acc) is Overrun),
    decreases 4 - i,
{
    if i < 4 && s.len() > start + i {
        let b = s[start + i];
        let acc2 = acc + (b % 128) as int * pow128(i);
        assert(0 <= acc2 < pow128_total(i + 1)) by {
            assert((b % 128) as int <= 127);
            assert((b % 128) as int * pow128(i) <= 127 * pow128(i)) by (nonlinear_arith)
                requires
                    (b % 128) as int <= 127,
                    pow128(i) >= 0,
            ;
        }
        if b >= 128 {
            lemma_variable_length_from_bounds(s, start, i + 1, acc2);
        }
    }
}

/// The largest value plus one of the first `i` 7-bit groups.
pub open spec fn pow128_total(i: nat) -> int {
    if i == 0 {
        1
    } else if i == 1 {
        128
    } else if i == 2 {
        16384
    } else if i == 3 {
        2097152
    } else {
        268435456
    }
}

proof fn lemma_digit_shift(b: u8, inc: usize)
    requires
        inc < 4,
    ensures
        (((b & 0x7f) as usize) << (inc * 7)) as int == (b % 128) as int * pow128(inc as nat),
{
    assert(b & 0x7f == b % 128) by (bit_vector);
    let d = (b % 128) as usize;
    assert(d < 128);
    if inc == 0 {
        assert(d << 0usize == d) by (bit_vector);
    } else if inc == 1 {
        assert(d < 128 ==> d << 7usize == d * 128) by (bit_vector);
    } else if inc == 2 {
        assert(d < 128 ==> d << 14usize == d * 16384) by (bit_vector);
    } else {
        assert(d < 128 ==> d << 21usize == d * 2097152) by (bit_vector);
    }
}

/// Reads the variable byte integer at `start_pos`; returns its value and the
/// position after it.
pub fn decode_variable_length(buf: &BytesMut, start_pos: usize) -> (r: Result<(usize, usize), MqttError>)
    requires
        start_pos + 3 <= usize::MAX,
    ensures
        match spec_decode_variable_length(bytes_mut_view(*buf), start_pos as int) {
            Decoded::Done(v, p) => r == Ok::<(usize, usize), MqttError>((v as usize, p as usize))
                && 0 <= v < 268435456 && start_pos < p <= start_pos + 4 && p <= bytes_mut_view(*buf).len(),
            Decoded::Failed(e) => r == Err::<(usize, usize), MqttError>(e),
            Decoded::Overrun => false,
        },
        r matches Ok((v, p)) ==> v < 268435456 && start_pos < p <= start_pos + 4 && p <= bytes_mut_view(*buf).len(),
{
    let s = bytes_mut_as_slice(buf);
    let ghost sv = s@;
    proof {
        lemma_variable_length_from_bounds(sv, start_pos as int, 0, 0);
    }
    let mut remaining_length: usize = 0;
    let mut inc: usize = 0;
    let mut pos: usize = start_pos;
    while pos <= start_pos + 3
        invariant
            sv == s@,
            sv == bytes_mut_view(*buf),
            start_pos + 3 <= usize::MAX,
            pos == start_pos + inc,
            inc <= 4,
            inc > 0 ==> pos <= sv.len(),
            0 <= remaining_length < pow128_total(inc as nat),
            spec_decode_variable_length(sv, start_pos as int) == spec_variable_length_from(
                sv,
                start_pos as int,
                inc as nat,
                remaining_length as int,
            ),
        decreases 4 - inc,
    {
        if s.len() <= pos {
            return Err(MqttError::InsufficientBytes);
        }
        let b = s[pos];
        proof {
            lemma_digit_shift(b, inc);
            assert((b % 128) as int * pow128(inc as nat) <= 127 * pow128(inc as nat)) by (nonlinear_arith)
                requires
                    (b % 128) as int <= 127,
                    pow128(inc as nat) >= 0,
            ;
        }
        remaining_length += ((b & 0b01111111) as usize) << (inc * 7);
        if (b & 0b10000000) == 0 {
            assert(b & 0x80 == 0 <==> b < 128) by (bit_vector);
            return Ok((remaining_length, pos + 1));
        }
        assert(b & 0x80 != 0 <==> b >= 128) by (bit_vector);
        inc += 1;
        pos += 1;
    }
    Ok((remaining_length, start_pos + 4))
}

/// Variable byte encoding of `n` in at most `k` bytes: low 7-bit group first,
/// the high bit set on every byte after which more of `n` remains.
pub open spec fn spec_encode_variable(n: nat, k: nat) -> Seq<u8>
    decreases k,
{
    if k == 0 {
        seq![]
    } else {
        let q = n / 128;
        let d = n % 128;
        let digit = if q > 0 {
            d + 128
        } else {
            d
        };
        seq![digit as u8] + if q == 0 {
            Seq::<u8>::empty()
        } else {
            spec_encode_variable(q, (k - 1) as nat)
        }
    }
}

/// The variable byte encoding of a length, as the packets carry it.
pub open spec fn spec_encode_variable_bytes(n: nat) -> Seq<u8> {
    spec_encode_variable(n, 4)
}

proof fn lemma_encode_variable_len(n: nat, k: nat)
    ensures
        spec_encode_variable(n, k).len() <= k,
        k > 0 ==> spec_encode_variable(n, k).len() >= 1,
    decreases k,
{
    if k > 0 && n / 128 != 0 {
        lemma_encode_variable_len(n / 128, (k - 1) as nat);
    }
}

pub fn encode_variable_bytes(length: usize) -> (r: Vec<u8>)
    ensures
        r@ == spec_encode_variable_bytes(length as nat),
        1 <= r@.len() <= 4,
{
    let ghost n0 = length as nat;
    let mut length = length;
    let mut remaining_length: Vec<u8> = Vec::new();
    let mut i: usize = 0;
    proof {
        lemma_encode_variable_len(n0, 4);
    }
    while i < 4
        invariant_except_break
            remaining_length@ + spec_encode_variable(length as nat, (4 - i) as nat)
                == spec_encode_variable(n0, 4),
            i > 0 ==> length > 0,
        invariant
            i <= 4,
        ensures
            remaining_length@ == spec_encode_variable(n0, 4),
        decreases 4 - i,
    {
        let ghost before = remaining_length@;
        let ghost len_before = length as nat;
        let mut digit = (length % 128) as u8;
        length /= 128;
        if length > 0 {
            assert(digit < 128 ==> digit | 0x80 == digit + 128) by (bit_vector);
            digit |= 0x80;
        }
        remaining_length.push(digit);
        i += 1;
        assert(spec_encode_variable(len_before, (4 - (i - 1)) as nat) == seq![digit] + if length
            == 0 {
            Seq::<u8>::empty()
        } else {
            spec_encode_variable(length as nat, (4 - i) as nat)
        });
        if length == 0 {
            assert(remaining_length@ =~= before + seq![digit]);
            break;
        }
        assert(remaining_length@ =~= before + seq![digit]);
        assert(remaining_length@ + spec_encode_variable(length as nat, (4 - i) as nat) =~= before
            + (seq![digit] + spec_encode_variable(length as nat, (4 - i) as nat)));
        if i == 4 {
            assert(spec_encode_variable(length as nat, 0) =~= Seq::<u8>::empty());
            assert(remaining_length@ =~= remaining_length@ + spec_encode_variable(
                length as nat,
                0,
            ));
        }
    }
    remaining_length
}

/// Law: a length below 2^28 written as a variable byte integer reads back as
/// the same length, and the read ends right after the bytes written.
#[verifier::spinoff_prover]
pub proof fn law_variable_length_roundtrip(n: nat, rest: Seq<u8>)
    requires
        n < 268435456,
    ensures
        spec_decode_variable_length(spec_encode_variable_bytes(n) + rest, 0) == Decoded::Done(
            n as int,
            spec_encode_variable_bytes(n).len() as int,
        ),
{
    let e = spec_encode_variable_bytes(n);
    let s = e + rest;
    let q1 = n / 128;
    let q2 = q1 / 128;
    let q3 = q2 / 128;
    let d0: int = (n % 128) as int;
    let d1: int = (q1 % 128) as int;
    let d2: int = (q2 % 128) as int;
    assert(n == q1 * 128 + d0);
    assert(q1 == q2 * 128 + d1);
    assert(q2 == q3 * 128 + d2);
    assert(q3 < 128);
    assert(n == d0 + d1 * 128 + d2 * 16384 + q3 * 2097152);
    reveal_with_fuel(spec_encode_variable, 5);
    if q1 == 0 {
        assert(e =~= seq![d0 as u8]);
        assert(s[0] == d0 as u8);
        assert(spec_variable_length_from(s, 0, 0, 0) == Decoded::Done(d0 as int, 1));
    } else if q2 == 0 {
        assert(e =~= seq![(d0 + 128) as u8, d1 as u8]);
        assert(s[0] == (d0 + 128) as u8 && s[1] == d1 as u8);
        assert(spec_variable_length_from(s, 0, 1, d0) == Decoded::Done(
            d0 + d1 * 128,
            2,
        ));
        assert(spec_variable_length_from(s, 0, 0, 0) == spec_variable_length_from(s, 0, 1, d0));
    } else if q3 == 0 {
        assert(e =~= seq![(d0 + 128) as u8, (d1 + 128) as u8, d2 as u8]);
        assert(s[0] == (d0 + 128) as u8 && s[1] == (d1 + 128) as u8 && s[2] == d2 as u8);
        assert(spec_variable_length_from(s, 0, 2, d0 + d1 * 128) == Decoded::Done(
            d0 + d1 * 128 + d2 * 16384,
            3,
        ));
        assert(spec_variable_length_from(s, 0, 1, d0) == spec_variable_length_from(
            s,
            0,
            2,
            d0 + d1 * 128,
        ));
        assert(spec_variable_length_from(s, 0, 0, 0) == spec_variable_length_from(s, 0, 1, d0));
    } else {
        assert(q3 / 128 == 0);
        assert(e =~= seq![(d0 + 128) as u8, (d1 + 128) as u8, (d2 + 128) as u8, q3 as u8]);
        assert(s[0] == (d0 + 128) as u8 && s[1] == (d1 + 128) as u8 && s[2] == (d2 + 128) as u8
            && s[3] == q3 as u8);
        assert(spec_variable_length_from(s, 0, 3, d0 + d1 * 128 + d2 * 16384) == Decoded::Done(
            d0 + d1 * 128 + d2 * 16384 + q3 * 2097152,
            4,
        ));
        assert(spec_variable_length_from(s, 0, 2, d0 + d1 * 128) == spec_variable_length_from(
            s,
            0,
            3,
            d0 + d1 * 128 + d2 * 16384,
        ));
        assert(spec_variable_length_from(s, 0, 1, d0) == spec_variable_length_from(
            s,
            0,
            2,
            d0 + d1 * 128,
        ));
        assert(spec_variable_length_from(s, 0, 0, 0) == spec_variable_length_from(s, 0, 1, d0));
    }
}


/// Whether an exec result of a decoder agrees with the outcome that the
/// specification gives (the item compared by its view).
pub open spec fn decoded_as<T: View>(r: Result<(T, usize), MqttError>, d: Decoded<T::V>) -> bool {
    match d {
        Decoded::Done(v, p) => match r {
            Ok((x, q)) => x@ == v && q as int == p,
            Err(_) => false,
        },
        Decoded::Failed(e) => r == Err::<(T, usize), MqttError>(e),
        Decoded::Overrun => false,
    }
}

/// The 16-bit big-endian integer at `i` of `s`.
pub open spec fn spec_u16_at(s: Seq<u8>, i: int) -> u16 {
    spec_u16_be(s[i], s[i + 1])
}

/// A 16-bit integer at `i`, refused when zero if `nonzero`.
pub open spec fn spec_u16_field(s: Seq<u8>, i: int, nonzero: bool) -> Decoded<u16> {
    if i < 0 || i + 2 > s.len() {
        Decoded::Overrun
    } else if nonzero && spec_u16_at(s, i) == 0 {
        Decoded::Failed(MqttError::InvalidFormat)
    } else {
        Decoded::Done(spec_u16_at(s, i), i + 2)
    }
}

/// A 32-bit integer at `i`, refused when zero if `nonzero`.
pub open spec fn spec_u32_field(s: Seq<u8>, i: int, nonzero: bool) -> Decoded<u32> {
    if i < 0 || i + 4 > s.len() {
        Decoded::Overrun
    } else if nonzero && spec_u32_be(s, i) == 0 {
        Decoded::Failed(MqttError::InvalidFormat)
    } else {
        Decoded::Done(spec_u32_be(s, i), i + 4)
    }
}

/// A byte at `i` that must be 0 (false) or 1 (true).
pub open spec fn spec_bool_field(s: Seq<u8>, i: int) -> Decoded<bool> {
    if i < 0 || i >= s.len() {
        Decoded::Overrun
    } else if s[i] == 0 {
        Decoded::Done(false, i + 1)
    } else if s[i] == 1 {
        Decoded::Done(true, i + 1)
    } else {
        Decoded::Failed(MqttError::InvalidFormat)
    }
}

/// Binary data: a 16-bit big-endian length, then that many bytes.
pub open spec fn spec_binary_field(s: Seq<u8>, i: int) -> Decoded<Seq<u8>> {
    if i < 0 || i + 2 > s.len() {
        Decoded::Overrun
    } else if i + 2 + spec_u16_at(s, i) as int > s.len() {
        Decoded::Overrun
    } else {
        Decoded::Done(s.subrange(i + 2, i + 2 + spec_u16_at(s, i) as int), i + 2 + spec_u16_at(s, i) as int)
    }
}

/// Applies `f` to the item of a successful outcome.
pub open spec fn map_decoded<A, B>(d: Decoded<A>, f: spec_fn(A) -> B) -> Decoded<B> {
    match d {
        Decoded::Done(v, p) => Decoded::Done(f(v), p),
        Decoded::Failed(e) => Decoded::Failed(e),
        Decoded::Overrun => Decoded::Overrun,
    }
}

fn read_u16_field(buf: &BytesMut, start_pos: usize, nonzero: bool) -> (r: Result<(u16, usize), MqttError>)
    requires
        !(spec_u16_field(bytes_mut_view(*buf), start_pos as int, nonzero) is Overrun),
    ensures
        decoded_as(r, spec_u16_field(bytes_mut_view(*buf), start_pos as int, nonzero)),
{
    let s = bytes_mut_as_slice(buf);
    let i = byte_pair_to_u16(s[start_pos], s[start_pos + 1]);
    if nonzero && i == 0 {
        return Err(MqttError::InvalidFormat);
    }
    Ok((i, start_pos + 2))
}

fn read_u32_field(buf: &BytesMut, start_pos: usize, nonzero: bool) -> (r: Result<(u32, usize), MqttError>)
    requires
        !(spec_u32_field(bytes_mut_view(*buf), start_pos as int, nonzero) is Overrun),
    ensures
        decoded_as(r, spec_u32_field(bytes_mut_view(*buf), start_pos as int, nonzero)),
{
    let s = bytes_mut_as_slice(buf);
    let i = read_u32_be(s, start_pos);
    if nonzero && i == 0 {
        return Err(MqttError::InvalidFormat);
    }
    Ok((i, start_pos + 4))
}

fn read_bool_field(buf: &BytesMut, start_pos: usize) -> (r: Result<(bool, usize), MqttError>)
    requires
        !(spec_bool_field(bytes_mut_view(*buf), start_pos as int) is Overrun),
    ensures
        decoded_as(r, spec_bool_field(bytes_mut_view(*buf), start_pos as int)),
{
    let s = bytes_mut_as_slice(buf);
    let i = match s[start_pos] {
        0x00 => false,
        0x01 => true,
        _ => {
            return Err(MqttError::InvalidFormat);
        },
    };
    Ok((i, start_pos + 1))
}

fn read_binary_field(buf: &BytesMut, start_pos: usize) -> (r: Result<(Bytes, usize), MqttError>)
    requires
        !(spec_binary_field(bytes_mut_view(*buf), start_pos as int) is Overrun),
    ensures
        match spec_binary_field(bytes_mut_view(*buf), start_pos as int) {
            Decoded::Done(v, p) => match r {
                Ok((x, q)) => bytes_view(x) == v && q as int == p,
                Err(_) => false,
            },
            _ => false,
        },
{
    let s = bytes_mut_as_slice(buf);
    // u16 length
    let length = byte_pair_to_u16(s[start_pos], s[start_pos + 1]) as usize;
    // copy `length` bytes
    let data = bytes_copy_from_slice(
        vstd::slice::slice_subrange(s, start_pos + 2, start_pos + 2 + length),
    );
    Ok((data, start_pos + 2 + length))
}

/// Quality of service of a PUBLISH.
#[derive(Debug, PartialEq, Eq, Structural, Clone, Copy)]
pub enum QoS {
    QoS0,
    QoS1,
    QoS2,
}

impl QoS {
    pub fn default() -> (r: QoS)
        ensures
            r == QoS::QoS0,
    {
        QoS::QoS0
    }

    /// The QoS of a number 0, 1 or 2.
    pub fn try_from(value: u8) -> (r: Result<QoS, MqttError>)
        ensures
            value == 0 ==> r == Ok::<QoS, MqttError>(QoS::QoS0),
            value == 1 ==> r == Ok::<QoS, MqttError>(QoS::QoS1),
            value == 2 ==> r == Ok::<QoS, MqttError>(QoS::QoS2),
            value > 2 ==> r == Err::<QoS, MqttError>(MqttError::InvalidFormat),
    {
        match value {
            0 => Ok(QoS::QoS0),
            1 => Ok(QoS::QoS1),
            2 => Ok(QoS::QoS2),
            _ => Err(MqttError::InvalidFormat),
        }
    }
}

/// The RETAIN flag of a PUBLISH fixed header.
#[derive(Debug, PartialEq, Eq, Structural, Clone, Copy)]
pub struct Retain(pub bool);

/// The DUP flag of a PUBLISH fixed header.
#[derive(Debug, PartialEq, Eq, Structural, Clone, Copy)]
pub struct Dup(pub bool);

impl Dup {
    pub fn new(v: bool) -> (r: Dup)
        ensures
            r == Dup(v),
    {
        Dup(v)
    }
}

/// The flags of the first byte of a PUBLISH fixed header: QoS from bits 1-2
/// (0, 1 or 2; the value 3 is malformed and refused), DUP from bit 3, RETAIN
/// from bit 0.
pub open spec fn spec_lower_fixed_header(b: u8) -> Result<(Dup, QoS, Retain), MqttError> {
    let q = (b & 0b0000110) >> 1u8;
    if q == 0 {
        Ok((Dup((b & 0b00001000) != 0), QoS::QoS0, Retain((b & 0b00000001) != 0)))
    } else if q == 1 {
        Ok((Dup((b & 0b00001000) != 0), QoS::QoS1, Retain((b & 0b00000001) != 0)))
    } else if q == 2 {
        Ok((Dup((b & 0b00001000) != 0), QoS::QoS2, Retain((b & 0b00000001) != 0)))
    } else {
        Err(MqttError::InvalidFormat)
    }
}

pub fn decode_lower_fixed_header(buf: &BytesMut, start_pos: usize) -> (r: Result<(Dup, QoS, Retain), MqttError>)
    requires
        start_pos < bytes_mut_view(*buf).len(),
    ensures
        r == spec_lower_fixed_header(bytes_mut_view(*buf)[start_pos as int]),
{
    let s = bytes_mut_as_slice(buf);
    let b = s[start_pos];
    let q = match (b & 0b0000110) >> 1 {
        0b00 => QoS::QoS0,
        0b01 => QoS::QoS1,
        0b10 => QoS::QoS2,
        _ => return Err(MqttError::InvalidFormat),
    };
    Ok((Dup((b & 0b00001000) != 0), q, Retain((b & 0b00000001) != 0)))
}


/// A topic name: a length-prefixed UTF-8 string.
#[derive(Debug, PartialEq)]
pub struct TopicName(pub String);

impl Clone for TopicName {
    fn clone(&self) -> (r: Self)
        ensures
            r@ == self@,
    {
        TopicName(self.0.clone())
    }
}

impl View for TopicName {
    type V = Seq<char>;

    open spec fn view(&self) -> Seq<char> {
        self.0@
    }
}

impl TopicName {
    pub fn try_from(buf: &BytesMut, start_pos: usize) -> (r: Result<(TopicName, usize), MqttError>)
        requires
            !(spec_decode_utf8_string(bytes_mut_view(*buf), start_pos as int) is Overrun),
        ensures
            decoded_as(r, spec_decode_utf8_string(bytes_mut_view(*buf), start_pos as int)),
    {
        let (res, pos) = decode_utf8_string(buf, start_pos)?;
        Ok((TopicName(res), pos))
    }

    pub fn into_inner(self) -> (r: String)
        ensures
            r@ == self@,
    {
        self.0
    }
}

/// The Response Topic property.
#[derive(Debug, PartialEq)]
pub struct ResponseTopic(pub String);

impl Clone for ResponseTopic {
    fn clone(&self) -> (r: Self)
        ensures
            r@ == self@,
    {
        ResponseTopic(self.0.clone())
    }
}

impl View for ResponseTopic {
    type V = Seq<char>;

    open spec fn view(&self) -> Seq<char> {
        self.0@
    }
}

impl ResponseTopic {
    pub fn try_from(buf: &BytesMut, start_pos: usize) -> (r: Result<(ResponseTopic, usize), MqttError>)
        requires
            !(spec_decode_utf8_string(bytes_mut_view(*buf), start_pos as int) is Overrun),
        ensures
            decoded_as(r, spec_decode_utf8_string(bytes_mut_view(*buf), start_pos as int)),
    {
        let (res, pos) = decode_utf8_string(buf, start_pos)?;
        Ok((ResponseTopic(res), pos))
    }

    pub fn into_inner(self) -> (r: String)
        ensures
            r@ == self@,
    {
        self.0
    }
}

/// The Content Type property.
#[derive(Debug, PartialEq)]
pub struct ContentType(pub String);

impl Clone for ContentType {
    fn clone(&self) -> (r: Self)
        ensures
            r@ == self@,
    {
        ContentType(self.0.clone())
    }
}

impl View for ContentType {
    type V = Seq<char>;

    open spec fn view(&self) -> Seq<char> {
        self.0@
    }
}

impl ContentType {
    pub fn try_from(buf: &BytesMut, start_pos: usize) -> (r: Result<(ContentType, usize), MqttError>)
        requires
            !(spec_decode_utf8_string(bytes_mut_view(*buf), start_pos as int) is Overrun),
        ensures
            decoded_as(r, spec_decode_utf8_string(bytes_mut_view(*buf), start_pos as int)),
    {
        let (res, pos) = decode_utf8_string(buf, start_pos)?;
        Ok((ContentType(res), pos))
    }

    pub fn into_inner(self) -> (r: String)
        ensures
            r@ == self@,
    {
        self.0
    }
}

/// The Authentication Method property.
#[derive(Debug, PartialEq, Clone)]
pub struct AuthenticationMethod(pub String);

impl View for AuthenticationMethod {
    type V = Seq<char>;

    open spec fn view(&self) -> Seq<char> {
        self.0@
    }
}

impl AuthenticationMethod {
    pub fn try_from(buf: &BytesMut, start_pos: usize) -> (r: Result<(AuthenticationMethod, usize), MqttError>)
        requires
            !(spec_decode_utf8_string(bytes_mut_view(*buf), start_pos as int) is Overrun),
        ensures
            decoded_as(r, spec_decode_utf8_string(bytes_mut_view(*buf), start_pos as int)),
    {
        let (res, pos) = decode_utf8_string(buf, start_pos)?;
        Ok((AuthenticationMethod(res), pos))
    }

    pub fn into_inner(self) -> (r: String)
        ensures
            r@ == self@,
    {
        self.0
    }
}

/// The User Name of a CONNECT payload.
#[derive(Debug, PartialEq, Clone)]
pub struct UserName(pub String);

impl View for UserName {
    type V = Seq<char>;

    open spec fn view(&self) -> Seq<char> {
        self.0@
    }
}

impl UserName {
    pub fn try_from(buf: &BytesMut, start_pos: usize) -> (r: Result<(UserName, usize), MqttError>)
        requires
            !(spec_decode_utf8_string(bytes_mut_view(*buf), start_pos as int) is Overrun),
        ensures
            decoded_as(r, spec_decode_utf8_string(bytes_mut_view(*buf), start_pos as int)),
    {
        let (res, pos) = decode_utf8_string(buf, start_pos)?;
        Ok((UserName(res), pos))
    }

    pub fn into_inner(self) -> (r: String)
        ensures
            r@ == self@,
    {
        self.0
    }
}

/// The Client Identifier of a CONNECT payload.
#[derive(Debug, PartialEq, Clone)]
pub struct ClientId(pub String);

impl View for ClientId {
    type V = Seq<char>;

    open spec fn view(&self) -> Seq<char> {
        self.0@
    }
}

impl ClientId {
    pub fn try_from(buf: &BytesMut, start_pos: usize) -> (r: Result<(ClientId, usize), MqttError>)
        requires
            !(spec_decode_utf8_string(bytes_mut_view(*buf), start_pos as int) is Overrun),
        ensures
            decoded_as(r, spec_decode_utf8_string(bytes_mut_view(*buf), start_pos as int)),
    {
        let (res, pos) = decode_utf8_string(buf, start_pos)?;
        Ok((ClientId(res), pos))
    }

    pub fn into_inner(self) -> (r: String)
        ensures
            r@ == self@,
    {
        self.0
    }
}

/// The Correlation Data property: binary data.
#[derive(Debug, PartialEq)]
pub struct CorrelationData(pub Bytes);

impl Clone for CorrelationData {
    fn clone(&self) -> (r: Self)
        ensures
            r@ == self@,
    {
        CorrelationData(self.0.clone())
    }
}

impl View for CorrelationData {
    type V = Seq<u8>;

    open spec fn view(&self) -> Seq<u8> {
        bytes_view(self.0)
    }
}

impl CorrelationData {
    pub fn try_from(buf: &BytesMut, start_pos: usize) -> (r: Result<(CorrelationData, usize), MqttError>)
        requires
            !(spec_binary_field(bytes_mut_view(*buf), start_pos as int) is Overrun),
        ensures
            decoded_as(r, spec_binary_field(bytes_mut_view(*buf), start_pos as int)),
    {
        let (data, pos) = read_binary_field(buf, start_pos)?;
        Ok((CorrelationData(data), pos))
    }

    pub fn into_inner(self) -> (r: Bytes)
        ensures
            bytes_view(r) == self@,
    {
        self.0
    }
}

/// The Authentication Data property: binary data.
#[derive(Debug, PartialEq, Clone)]
pub struct AuthenticationData(pub Bytes);

impl View for AuthenticationData {
    type V = Seq<u8>;

    open spec fn view(&self) -> Seq<u8> {
        bytes_view(self.0)
    }
}

impl AuthenticationData {
    pub fn try_from(buf: &BytesMut, start_pos: usize) -> (r: Result<(AuthenticationData, usize), MqttError>)
        requires
            !(spec_binary_field(bytes_mut_view(*buf), start_pos as int) is Overrun),
        ensures
            decoded_as(r, spec_binary_field(bytes_mut_view(*buf), start_pos as int)),
    {
        let (data, pos) = read_binary_field(buf, start_pos)?;
        Ok((AuthenticationData(data), pos))
    }

    pub fn into_inner(self) -> (r: Bytes)
        ensures
            bytes_view(r) == self@,
    {
        self.0
    }
}

/// The Will Payload of a CONNECT payload: binary data.
#[derive(Debug, PartialEq, Clone)]
pub struct WillPayload(pub Bytes);

impl View for WillPayload {
    type V = Seq<u8>;

    open spec fn view(&self) -> Seq<u8> {
        bytes_view(self.0)
    }
}

impl WillPayload {
    pub fn try_from(buf: &BytesMut, start_pos: usize) -> (r: Result<(WillPayload, usize), MqttError>)
        requires
            !(spec_binary_field(bytes_mut_view(*buf), start_pos as int) is Overrun),
        ensures
            decoded_as(r, spec_binary_field(bytes_mut_view(*buf), start_pos as int)),
    {
        let (data, pos) = read_binary_field(buf, start_pos)?;
        Ok((WillPayload(data), pos))
    }

    pub fn into_inner(self) -> (r: Bytes)
        ensures
            bytes_view(r) == self@,
    {
        self.0
    }
}

/// The Password of a CONNECT payload: binary data.
#[derive(Debug, PartialEq, Clone)]
pub struct Password(pub Bytes);

impl View for Password {
    type V = Seq<u8>;

    open spec fn view(&self) -> Seq<u8> {
        bytes_view(self.0)
    }
}

impl Password {
    pub fn try_from(buf: &BytesMut, start_pos: usize) -> (r: Result<(Password, usize), MqttError>)
        requires
            !(spec_binary_field(bytes_mut_view(*buf), start_pos as int) is Overrun),
        ensures
            decoded_as(r, spec_binary_field(bytes_mut_view(*buf), start_pos as int)),
    {
        let (data, pos) = read_binary_field(buf, start_pos)?;
        Ok((Password(data), pos))
    }

    pub fn into_inner(self) -> (r: Bytes)
        ensures
            bytes_view(r) == self@,
    {
        self.0
    }
}

/// A packet identifier: a 16-bit integer.
#[derive(Debug, PartialEq, Eq, Structural, Clone, Copy)]
pub struct PacketId(pub u16);

impl View for PacketId {
    type V = PacketId;

    open spec fn view(&self) -> PacketId {
        *self
    }
}

pub open spec fn spec_packet_id(s: Seq<u8>, i: int) -> Decoded<PacketId> {
    map_decoded(spec_u16_field(s, i, false), |v: u16| PacketId(v))
}

impl PacketId {
    pub fn try_from(buf: &BytesMut, start_pos: usize) -> (r: Result<(PacketId, usize), MqttError>)
        requires
            !(spec_packet_id(bytes_mut_view(*buf), start_pos as int) is Overrun),
        ensures
            decoded_as(r, spec_packet_id(bytes_mut_view(*buf), start_pos as int)),
    {
        let (i, pos) = read_u16_field(buf, start_pos, false)?;
        Ok((PacketId(i), pos))
    }

    pub fn into_inner(self) -> (r: u16)
        ensures
            r == self.0,
    {
        self.0
    }
}

/// The Message Expiry Interval property.
#[derive(Debug, PartialEq, Eq, Structural, Clone, Copy)]
pub struct MessageExpiryInterval(pub u32);

impl View for MessageExpiryInterval {
    type V = MessageExpiryInterval;

    open spec fn view(&self) -> MessageExpiryInterval {
        *self
    }
}

pub open spec fn spec_message_expiry_interval(s: Seq<u8>, i: int) -> Decoded<MessageExpiryInterval> {
    map_decoded(spec_u32_field(s, i, false), |v: u32| MessageExpiryInterval(v))
}

impl MessageExpiryInterval {
    pub fn try_from(buf: &BytesMut, start_pos: usize) -> (r: Result<(MessageExpiryInterval, usize), MqttError>)
        requires
            !(spec_message_expiry_interval(bytes_mut_view(*buf), start_pos as int) is Overrun),
        ensures
            decoded_as(r, spec_message_expiry_interval(bytes_mut_view(*buf), start_pos as int)),
    {
        let (i, pos) = read_u32_field(buf, start_pos, false)?;
        Ok((MessageExpiryInterval(i), pos))
    }

    pub fn into_inner(self) -> (r: u32)
        ensures
            r == self.0,
    {
        self.0
    }
}

/// The Topic Alias property; zero is refused.
#[derive(Debug, PartialEq, Eq, Structural, Clone, Copy)]
pub struct TopicAlias(pub u16);

impl View for TopicAlias {
    type V = TopicAlias;

    open spec fn view(&self) -> TopicAlias {
        *self
    }
}

pub open spec fn spec_topic_alias(s: Seq<u8>, i: int) -> Decoded<TopicAlias> {
    map_decoded(spec_u16_field(s, i, true), |v: u16| TopicAlias(v))
}

impl TopicAlias {
    pub fn try_from(buf: &BytesMut, start_pos: usize) -> (r: Result<(TopicAlias, usize), MqttError>)
        requires
            !(spec_topic_alias(bytes_mut_view(*buf), start_pos as int) is Overrun),
        ensures
            decoded_as(r, spec_topic_alias(bytes_mut_view(*buf), start_pos as int)),
    {
        let (i, pos) = read_u16_field(buf, start_pos, true)?;
        Ok((TopicAlias(i), pos))
    }

    pub fn into_inner(self) -> (r: u16)
        ensures
            r == self.0,
    {
        self.0
    }
}

/// The Subscription Identifier property (read as a 32-bit integer).
#[derive(Debug, PartialEq, Eq, Structural, Clone, Copy)]
pub struct SubscriptionIdentifier(pub u32);

impl View for SubscriptionIdentifier {
    type V = SubscriptionIdentifier;

    open spec fn view(&self) -> SubscriptionIdentifier {
        *self
    }
}

pub open spec fn spec_subscription_identifier(s: Seq<u8>, i: int) -> Decoded<SubscriptionIdentifier> {
    map_decoded(spec_u32_field(s, i, false), |v: u32| SubscriptionIdentifier(v))
}

impl SubscriptionIdentifier {
    pub fn try_from(buf: &BytesMut, start_pos: usize) -> (r: Result<(SubscriptionIdentifier, usize), MqttError>)
        requires
            !(spec_subscription_identifier(bytes_mut_view(*buf), start_pos as int) is Overrun),
        ensures
            decoded_as(r, spec_subscription_identifier(bytes_mut_view(*buf), start_pos as int)),
    {
        let (i, pos) = read_u32_field(buf, start_pos, false)?;
        Ok((SubscriptionIdentifier(i), pos))
    }

    pub fn into_inner(self) -> (r: u32)
        ensures
            r == self.0,
    {
        self.0
    }
}

/// The Keep Alive of a CONNECT variable header.
#[derive(Debug, PartialEq, Eq, Structural, Clone, Copy)]
pub struct KeepAlive(pub u16);

impl View for KeepAlive {
    type V = KeepAlive;

    open spec fn view(&self) -> KeepAlive {
        *self
    }
}

pub open spec fn spec_keep_alive(s: Seq<u8>, i: int) -> Decoded<KeepAlive> {
    map_decoded(spec_u16_field(s, i, false), |v: u16| KeepAlive(v))
}

impl KeepAlive {
    pub fn try_from(buf: &BytesMut, start_pos: usize) -> (r: Result<(KeepAlive, usize), MqttError>)
        requires
            !(spec_keep_alive(bytes_mut_view(*buf), start_pos as int) is Overrun),
        ensures
            decoded_as(r, spec_keep_alive(bytes_mut_view(*buf), start_pos as int)),
    {
        let (i, pos) = read_u16_field(buf, start_pos, false)?;
        Ok((KeepAlive(i), pos))
    }

    pub fn into_inner(self) -> (r: u16)
        ensures
            r == self.0,
    {
        self.0
    }
}

/// The Session Expiry Interval property.
#[derive(Debug, PartialEq, Eq, Structural, Clone, Copy)]
pub struct SessionExpiryInterval(pub u32);

impl View for SessionExpiryInterval {
    type V = SessionExpiryInterval;

    open spec fn view(&self) -> SessionExpiryInterval {
        *self
    }
}

pub open spec fn spec_session_expiry_interval(s: Seq<u8>, i: int) -> Decoded<SessionExpiryInterval> {
    map_decoded(spec_u32_field(s, i, false), |v: u32| SessionExpiryInterval(v))
}

impl SessionExpiryInterval {
    pub fn try_from(buf: &BytesMut, start_pos: usize) -> (r: Result<(SessionExpiryInterval, usize), MqttError>)
        requires
            !(spec_session_expiry_interval(bytes_mut_view(*buf), start_pos as int) is Overrun),
        ensures
            decoded_as(r, spec_session_expiry_interval(bytes_mut_view(*buf), start_pos as int)),
    {
        let (i, pos) = read_u32_field(buf, start_pos, false)?;
        Ok((SessionExpiryInterval(i), pos))
    }

    pub fn into_inner(self) -> (r: u32)
        ensures
            r == self.0,
    {
        self.0
    }
}

/// The Receive Maximum property; zero is refused.
#[derive(Debug, PartialEq, Eq, Structural, Clone, Copy)]
pub struct ReceiveMaximum(pub u16);

impl View for ReceiveMaximum {
    type V = ReceiveMaximum;

    open spec fn view(&self) -> ReceiveMaximum {
        *self
    }
}

pub open spec fn spec_receive_maximum(s: Seq<u8>, i: int) -> Decoded<ReceiveMaximum> {
    map_decoded(spec_u16_field(s, i, true), |v: u16| ReceiveMaximum(v))
}

impl ReceiveMaximum {
    pub fn try_from(buf: &BytesMut, start_pos: usize) -> (r: Result<(ReceiveMaximum, usize), MqttError>)
        requires
            !(spec_receive_maximum(bytes_mut_view(*buf), start_pos as int) is Overrun),
        ensures
            decoded_as(r, spec_receive_maximum(bytes_mut_view(*buf), start_pos as int)),
    {
        let (i, pos) = read_u16_field(buf, start_pos, true)?;
        Ok((ReceiveMaximum(i), pos))
    }

    pub fn into_inner(self) -> (r: u16)
        ensures
            r == self.0,
    {
        self.0
    }
}

/// The Maximum Packet Size property; zero is refused.
#[derive(Debug, PartialEq, Eq, Structural, Clone, Copy)]
pub struct MaximumPacketSize(pub u32);

impl View for MaximumPacketSize {
    type V = MaximumPacketSize;

    open spec fn view(&self) -> MaximumPacketSize {
        *self
    }
}

pub open spec fn spec_maximum_packet_size(s: Seq<u8>, i: int) -> Decoded<MaximumPacketSize> {
    map_decoded(spec_u32_field(s, i, true), |v: u32| MaximumPacketSize(v))
}

impl MaximumPacketSize {
    pub fn try_from(buf: &BytesMut, start_pos: usize) -> (r: Result<(MaximumPacketSize, usize), MqttError>)
        requires
            !(spec_maximum_packet_size(bytes_mut_view(*buf), start_pos as int) is Overrun),
        ensures
            decoded_as(r, spec_maximum_packet_size(bytes_mut_view(*buf), start_pos as int)),
    {
        let (i, pos) = read_u32_field(buf, start_pos, true)?;
        Ok((MaximumPacketSize(i), pos))
    }

    pub fn into_inner(self) -> (r: u32)
        ensures
            r == self.0,
    {
        self.0
    }
}

/// The Topic Alias Maximum property; zero is refused.
#[derive(Debug, PartialEq, Eq, Structural, Clone, Copy)]
pub struct TopicAliasMaximum(pub u16);

impl View for TopicAliasMaximum {
    type V = TopicAliasMaximum;

    open spec fn view(&self) -> TopicAliasMaximum {
        *self
    }
}

pub open spec fn spec_topic_alias_maximum(s: Seq<u8>, i: int) -> Decoded<TopicAliasMaximum> {
    map_decoded(spec_u16_field(s, i, true), |v: u16| TopicAliasMaximum(v))
}

impl TopicAliasMaximum {
    pub fn try_from(buf: &BytesMut, start_pos: usize) -> (r: Result<(TopicAliasMaximum, usize), MqttError>)
        requires
            !(spec_topic_alias_maximum(bytes_mut_view(*buf), start_pos as int) is Overrun),
        ensures
            decoded_as(r, spec_topic_alias_maximum(bytes_mut_view(*buf), start_pos as int)),
    {
        let (i, pos) = read_u16_field(buf, start_pos, true)?;
        Ok((TopicAliasMaximum(i), pos))
    }

    pub fn into_inner(self) -> (r: u16)
        ensures
            r == self.0,
    {
        self.0
    }
}

/// The Will Delay Interval property.
#[derive(Debug, PartialEq, Eq, Structural, Clone, Copy)]
pub struct WillDelayInterval(pub u32);

impl View for WillDelayInterval {
    type V = WillDelayInterval;

    open spec fn view(&self) -> WillDelayInterval {
        *self
    }
}

pub open spec fn spec_will_delay_interval(s: Seq<u8>, i: int) -> Decoded<WillDelayInterval> {
    map_decoded(spec_u32_field(s, i, false), |v: u32| WillDelayInterval(v))
}

impl WillDelayInterval {
    pub fn try_from(buf: &BytesMut, start_pos: usize) -> (r: Result<(WillDelayInterval, usize), MqttError>)
        requires
            !(spec_will_delay_interval(bytes_mut_view(*buf), start_pos as int) is Overrun),
        ensures
            decoded_as(r, spec_will_delay_interval(bytes_mut_view(*buf), start_pos as int)),
    {
        let (i, pos) = read_u32_field(buf, start_pos, false)?;
        Ok((WillDelayInterval(i), pos))
    }

    pub fn into_inner(self) -> (r: u32)
        ensures
            r == self.0,
    {
        self.0
    }
}

/// The Request Response Information property: 0 or 1.
#[derive(Debug, PartialEq, Eq, Structural, Clone, Copy)]
pub struct RequestResponseInformation(pub bool);

impl View for RequestResponseInformation {
    type V = RequestResponseInformation;

    open spec fn view(&self) -> RequestResponseInformation {
        *self
    }
}

pub open spec fn spec_request_response_information(s: Seq<u8>, i: int) -> Decoded<RequestResponseInformation> {
    map_decoded(spec_bool_field(s, i), |v: bool| RequestResponseInformation(v))
}

impl RequestResponseInformation {
    pub fn try_from(buf: &BytesMut, start_pos: usize) -> (r: Result<(RequestResponseInformation, usize), MqttError>)
        requires
            !(spec_request_response_information(bytes_mut_view(*buf), start_pos as int) is Overrun),
        ensures
            decoded_as(r, spec_request_response_information(bytes_mut_view(*buf), start_pos as int)),
    {
        let (i, pos) = read_bool_field(buf, start_pos)?;
        Ok((RequestResponseInformation(i), pos))
    }

    pub fn into_inner(self) -> (r: bool)
        ensures
            r == self.0,
    {
        self.0
    }
}

/// The Request Problem Information property: 0 or 1.
#[derive(Debug, PartialEq, Eq, Structural, Clone, Copy)]
pub struct RequestProblemInformation(pub bool);

impl View for RequestProblemInformation {
    type V = RequestProblemInformation;

    open spec fn view(&self) -> RequestProblemInformation {
        *self
    }
}

pub open spec fn spec_request_problem_information(s: Seq<u8>, i: int) -> Decoded<RequestProblemInformation> {
    map_decoded(spec_bool_field(s, i), |v: bool| RequestProblemInformation(v))
}

impl RequestProblemInformation {
    pub fn try_from(buf: &BytesMut, start_pos: usize) -> (r: Result<(RequestProblemInformation, usize), MqttError>)
        requires
            !(spec_request_problem_information(bytes_mut_view(*buf), start_pos as int) is Overrun),
        ensures
            decoded_as(r, spec_request_problem_information(bytes_mut_view(*buf), start_pos as int)),
    {
        let (i, pos) = read_bool_field(buf, start_pos)?;
        Ok((RequestProblemInformation(i), pos))
    }

    pub fn into_inner(self) -> (r: bool)
        ensures
            r == self.0,
    {
        self.0
    }
}

/// The Payload Format Indicator property: 0 for unspecified bytes, 1 for UTF-8.
#[derive(Debug, PartialEq, Eq, Structural, Clone, Copy)]
pub enum PayloadFormatIndicator {
    UnspecifiedBytes,
    UTF8,
}

impl View for PayloadFormatIndicator {
    type V = PayloadFormatIndicator;

    open spec fn view(&self) -> PayloadFormatIndicator {
        *self
    }
}

pub open spec fn spec_payload_format_indicator(s: Seq<u8>, i: int) -> Decoded<PayloadFormatIndicator> {
    map_decoded(
        spec_bool_field(s, i),
        |v: bool|
            if v {
                PayloadFormatIndicator::UTF8
            } else {
                PayloadFormatIndicator::UnspecifiedBytes
            },
    )
}

impl PayloadFormatIndicator {
    pub fn try_from(buf: &BytesMut, start_pos: usize) -> (r: Result<(PayloadFormatIndicator, usize), MqttError>)
        requires
            !(spec_payload_format_indicator(bytes_mut_view(*buf), start_pos as int) is Overrun),
        ensures
            decoded_as(r, spec_payload_format_indicator(bytes_mut_view(*buf), start_pos as int)),
    {
        let s = bytes_mut_as_slice(buf);
        match s[start_pos] {
            0x00 => Ok((PayloadFormatIndicator::UnspecifiedBytes, start_pos + 1)),
            0x01 => Ok((PayloadFormatIndicator::UTF8, start_pos + 1)),
            _ => Err(MqttError::InvalidFormat),
        }
    }
}

/// A User Property: a pair of length-prefixed UTF-8 strings.
#[derive(Debug, PartialEq)]
pub struct UserProperty(pub (String, String));

impl Clone for UserProperty {
    fn clone(&self) -> (r: Self)
        ensures
            r@ == self@,
    {
        UserProperty((self.0.0.clone(), self.0.1.clone()))
    }
}

impl View for UserProperty {
    type V = (Seq<char>, Seq<char>);

    open spec fn view(&self) -> (Seq<char>, Seq<char>) {
        (self.0.0@, self.0.1@)
    }
}

pub open spec fn spec_user_property(s: Seq<u8>, i: int) -> Decoded<(Seq<char>, Seq<char>)> {
    match spec_decode_utf8_string(s, i) {
        Decoded::Done(k, p) => match spec_decode_utf8_string(s, p) {
            Decoded::Done(v, q) => Decoded::Done((k, v), q),
            Decoded::Failed(e) => Decoded::Failed(e),
            Decoded::Overrun => Decoded::Overrun,
        },
        Decoded::Failed(e) => Decoded::Failed(e),
        Decoded::Overrun => Decoded::Overrun,
    }
}

impl UserProperty {
    pub fn try_from(buf: &BytesMut, start_pos: usize) -> (r: Result<(UserProperty, usize), MqttError>)
        requires
            !(spec_user_property(bytes_mut_view(*buf), start_pos as int) is Overrun),
        ensures
            decoded_as(r, spec_user_property(bytes_mut_view(*buf), start_pos as int)),
    {
        let (key, next_pos) = decode_utf8_string(buf, start_pos)?;
        let (value, next_pos) = decode_utf8_string(buf, next_pos)?;
        Ok((UserProperty((key, value)), next_pos))
    }
}

/// The protocol name of a CONNECT: a 16-bit length then that many bytes of
/// UTF-8 (a length past the end of the bytes is not guarded against).
pub open spec fn spec_protocol_name(s: Seq<u8>, i: int) -> Decoded<Seq<char>> {
    match spec_binary_field(s, i) {
        Decoded::Done(b, p) => if valid_utf8(b) {
            Decoded::Done(decode_utf8(b), p)
        } else {
            Decoded::Failed(MqttError::InvalidFormat)
        },
        Decoded::Failed(e) => Decoded::Failed(e),
        Decoded::Overrun => Decoded::Overrun,
    }
}

/// The protocol name of a CONNECT ("MQTT").
#[derive(Debug, PartialEq, Clone)]
pub struct ProtocolName(pub String);

impl View for ProtocolName {
    type V = Seq<char>;

    open spec fn view(&self) -> Seq<char> {
        self.0@
    }
}

impl ProtocolName {
    pub fn try_from(buf: &BytesMut, start_pos: usize) -> (r: Result<(ProtocolName, usize), MqttError>)
        requires
            !(spec_protocol_name(bytes_mut_view(*buf), start_pos as int) is Overrun),
        ensures
            decoded_as(r, spec_protocol_name(bytes_mut_view(*buf), start_pos as int)),
    {
        let s = bytes_mut_as_slice(buf);
        let length = byte_pair_to_u16(s[start_pos], s[start_pos + 1]) as usize;
        let body = vstd::slice::slice_subrange(s, start_pos + 2, start_pos + 2 + length);
        match str_from_utf8(body) {
            Some(v) => Ok((ProtocolName(v.to_owned()), start_pos + 2 + length)),
            None => Err(MqttError::InvalidFormat),
        }
    }
}

/// The protocol version byte of a CONNECT (4 for 3.1.1, 5 for 5.0).
#[derive(Debug, PartialEq, Eq, Structural, Clone, Copy)]
pub struct ProtocolVersion(pub u8);

impl View for ProtocolVersion {
    type V = ProtocolVersion;

    open spec fn view(&self) -> ProtocolVersion {
        *self
    }
}

pub open spec fn spec_protocol_version(s: Seq<u8>, i: int) -> Decoded<ProtocolVersion> {
    if i < 0 || i >= s.len() {
        Decoded::Overrun
    } else {
        Decoded::Done(ProtocolVersion(s[i]), i + 1)
    }
}

impl ProtocolVersion {
    pub fn try_from(buf: &BytesMut, start_pos: usize) -> (r: Result<(ProtocolVersion, usize), MqttError>)
        requires
            !(spec_protocol_version(bytes_mut_view(*buf), start_pos as int) is Overrun),
        ensures
            decoded_as(r, spec_protocol_version(bytes_mut_view(*buf), start_pos as int)),
    {
        let s = bytes_mut_as_slice(buf);
        Ok((ProtocolVersion(s[start_pos]), start_pos + 1))
    }

    pub fn into_inner(self) -> (r: u8)
        ensures
            r == self.0,
    {
        self.0
    }
}

/// The Connect Flags byte of a CONNECT.
#[derive(Debug, PartialEq, Eq, Structural, Clone, Copy)]
pub struct ConnectFlags {
    pub user_name_flag: bool,
    pub password_flag: bool,
    pub will_retain: bool,
    pub will_qos: QoS,
    pub will_flag: bool,
    pub clean_start: bool,
}

impl View for ConnectFlags {
    type V = ConnectFlags;

    open spec fn view(&self) -> ConnectFlags {
        *self
    }
}

impl ConnectFlags {
    pub fn default() -> (r: ConnectFlags)
        ensures
            r == spec_default_connect_flags(),
    {
        ConnectFlags {
            user_name_flag: false,
            password_flag: false,
            will_retain: false,
            will_qos: QoS::QoS0,
            will_flag: false,
            clean_start: false,
        }
    }
}

pub open spec fn spec_default_connect_flags() -> ConnectFlags {
    ConnectFlags {
        user_name_flag: false,
        password_flag: false,
        will_retain: false,
        will_qos: QoS::QoS0,
        will_flag: false,
        clean_start: false,
    }
}

/// The connect flags of byte `b`: the reserved bit 0 must be clear and the
/// will QoS (bits 3-4) must not be 3.
pub open spec fn spec_connect_flags_of(b: u8) -> Result<ConnectFlags, MqttError> {
    if b & 0b00000001 != 0 {
        Err(MqttError::InvalidFormat)
    } else {
        let q = (b & 0b00011000) >> 3u8;
        if q > 2 {
            Err(MqttError::InvalidFormat)
        } else {
            Ok(
                ConnectFlags {
                    user_name_flag: b & 0b10000000 != 0,
                    password_flag: b & 0b01000000 != 0,
                    will_retain: b & 0b00100000 != 0,
                    will_qos: if q == 0 {
                        QoS::QoS0
                    } else if q == 1 {
                        QoS::QoS1
                    } else {
                        QoS::QoS2
                    },
                    will_flag: b & 0b00000100 != 0,
                    clean_start: b & 0b00000010 != 0,
                },
            )
        }
    }
}

pub open spec fn spec_connect_flags(s: Seq<u8>, i: int) -> Decoded<ConnectFlags> {
    if i < 0 || i >= s.len() {
        Decoded::Overrun
    } else {
        match spec_connect_flags_of(s[i]) {
            Ok(f) => Decoded::Done(f, i + 1),
            Err(e) => Decoded::Failed(e),
        }
    }
}

impl ConnectFlags {
    pub fn try_from(buf: &BytesMut, start_pos: usize) -> (r: Result<(ConnectFlags, usize), MqttError>)
        requires
            !(spec_connect_flags(bytes_mut_view(*buf), start_pos as int) is Overrun),
        ensures
            decoded_as(r, spec_connect_flags(bytes_mut_view(*buf), start_pos as int)),
    {
        let s = bytes_mut_as_slice(buf);
        let b = s[start_pos];
        // The Server MUST validate that the reserved flag in the CONNECT
        // packet is set to 0 [MQTT-3.1.2-3].
        if b & 0b00000001 != 0 {
            return Err(MqttError::InvalidFormat);
        }
        let will_qos = match (b & 0b00011000) >> 3 {
            0x00 => QoS::QoS0,
            0x01 => QoS::QoS1,
            0x02 => QoS::QoS2,
            _ => return Err(MqttError::InvalidFormat),
        };
        Ok(
            (
                ConnectFlags {
                    user_name_flag: b & 0b10000000 != 0,
                    password_flag: b & 0b01000000 != 0,
                    will_retain: b & 0b00100000 != 0,
                    will_qos,
                    will_flag: b & 0b00000100 != 0,
                    clean_start: b & 0b00000010 != 0,
                },
                start_pos + 1,
            ),
        )
    }
}


/// The view of an optional item.
pub open spec fn opt_view<T: View>(o: Option<T>) -> Option<T::V> {
    match o {
        Some(t) => Some(t@),
        None => None,
    }
}

/// The view of an optional vector: the views of its items in order.
pub open spec fn opt_vec_view<T: View>(o: Option<Vec<T>>) -> Option<Seq<T::V>> {
    match o {
        Some(v) => Some(v@.map_values(|x: T| x@)),
        None => None,
    }
}

/// Appends `x` to an optional sequence, starting one if there is none.
pub open spec fn opt_push<A>(o: Option<Seq<A>>, x: A) -> Option<Seq<A>> {
    match o {
        Some(v) => Some(v.push(x)),
        None => Some(seq![x]),
    }
}

fn push_user_property(o: &mut Option<Vec<UserProperty>>, x: UserProperty)
    ensures
        opt_vec_view(*final(o)) == opt_push(opt_vec_view(*old(o)), x@),
{
    let mut v = match o.take() {
        Some(v) => v,
        None => Vec::new(),
    };
    let ghost before = v@;
    v.push(x);
    assert(v@.map_values(|y: UserProperty| y@) =~= before.map_values(|y: UserProperty| y@).push(
        x@,
    ));
    *o = Some(v);
}

fn push_subscription_identifier(o: &mut Option<Vec<SubscriptionIdentifier>>, x: SubscriptionIdentifier)
    ensures
        opt_vec_view(*final(o)) == opt_push(opt_vec_view(*old(o)), x@),
{
    let mut v = match o.take() {
        Some(v) => v,
        None => Vec::new(),
    };
    let ghost before = v@;
    v.push(x);
    assert(v@.map_values(|y: SubscriptionIdentifier| y@) =~= before.map_values(
        |y: SubscriptionIdentifier| y@,
    ).push(x@));
    *o = Some(v);
}

// Property identifiers
pub const PROPERTY_PAYLOAD_FORMAT_INDICATOR_ID: u8 = 0x01;
pub const PROPERTY_MESSAGE_EXPIRY_INTERVAL_ID: u8 = 0x02;
pub const PROPERTY_TOPIC_ALIAS_ID: u8 = 0x23;
pub const PROPERTY_RESPONSE_TOPIC_ID: u8 = 0x08;
pub const PROPERTY_CORRELATION_DATA_ID: u8 = 0x09;
pub const PROPERTY_USER_PROPERTY_ID: u8 = 0x26;
pub const PROPERTY_SUBSCRIPTION_IDENTIFIER_ID: u8 = 0x0b;
pub const PROPERTY_CONTENT_TYPE_ID: u8 = 0x03;
pub const PROPERTY_SESSION_EXPIRY_INTERVAL: u8 = 0x11;
pub const PROPERTY_RECIEVE_MAXIMUM: u8 = 0x21;
pub const PROPERTY_MAXIMUM_PACKET_SIZE: u8 = 0x27;
pub const PROPERTY_TOPIC_ALIAS_MAXIMUM: u8 = 0x22;
pub const PROPERTY_REQUEST_RESPONSE_INFORMATION: u8 = 0x19;
pub const PROPERTY_REQUEST_PROBLEM_INFORMATION: u8 = 0x17;
pub const PROPERTY_AUTHENTICATION_METHOD: u8 = 0x15;
pub const PROPERTY_AUTHENTICATION_DATA: u8 = 0x16;
pub const PROPERTY_WILL_DELAY_INTERVAL: u8 = 0x18;

/// Decoding and encoding of the sections of a packet. A decoder reads from
/// a position of the buffer and returns the position after what it read;
/// fields it decoded before an error keep their new values. Encoding is not
/// implemented by any packet.
pub trait MqttPacket: View + Sized {
    /// The packet after its variable header is decoded from `start`, and the
    /// outcome.
    spec fn spec_decode_variable_header(v: Self::V, s: Seq<u8>, start: int) -> (Self::V, Decoded<()>);

    /// The packet after its payload is decoded from `start`, and the outcome.
    spec fn spec_decode_payload(v: Self::V, s: Seq<u8>, start: int) -> (Self::V, Decoded<()>);

    fn decode_variable_header(&mut self, buf: &BytesMut, start_pos: usize) -> (r: Result<usize, MqttError>)
        requires
            !(Self::spec_decode_variable_header(old(self)@, bytes_mut_view(*buf), start_pos as int).1 is Overrun),
        ensures
            final(self)@ == Self::spec_decode_variable_header(old(self)@, bytes_mut_view(*buf), start_pos as int).0,
            position_as(r, Self::spec_decode_variable_header(old(self)@, bytes_mut_view(*buf), start_pos as int).1),
            r matches Ok(n) ==> n <= bytes_mut_view(*buf).len(),
    ;

    fn decode_payload(&mut self, buf: &BytesMut, start_pos: usize) -> (r: Result<usize, MqttError>)
        requires
            !(Self::spec_decode_payload(old(self)@, bytes_mut_view(*buf), start_pos as int).1 is Overrun),
        ensures
            final(self)@ == Self::spec_decode_payload(old(self)@, bytes_mut_view(*buf), start_pos as int).0,
            position_as(r, Self::spec_decode_payload(old(self)@, bytes_mut_view(*buf), start_pos as int).1),
            r matches Ok(n) ==> n <= bytes_mut_view(*buf).len(),
    ;

    fn encode_fixed_header(&self) -> (r: Result<Bytes, MqttError>)
        ensures
            r == Err::<Bytes, MqttError>(MqttError::NotImplemented),
    ;

    fn encode_variable_header(&self) -> (r: Result<Bytes, MqttError>)
        ensures
            r == Err::<Bytes, MqttError>(MqttError::NotImplemented),
    ;

    fn encode_payload_chunk(&self) -> (r: Result<Option<Bytes>, MqttError>)
        ensures
            r == Err::<Option<Bytes>, MqttError>(MqttError::NotImplemented),
    ;
}

/// The properties of a PUBLISH.
#[derive(Debug, PartialEq)]
pub struct PublishProperties {
    pub payload_format_indicator: Option<PayloadFormatIndicator>,
    pub message_expiry_interval: Option<MessageExpiryInterval>,
    pub topic_alias: Option<TopicAlias>,
    pub response_topic: Option<ResponseTopic>,
    pub correlation_data: Option<CorrelationData>,
    pub user_properties: Option<Vec<UserProperty>>,
    // Multiple Subscription Identifiers may be included
    pub subscription_identifier: Option<Vec<SubscriptionIdentifier>>,
    pub content_type: Option<ContentType>,
}

/// The properties of a PUBLISH as values.
pub struct PublishPropertiesModel {
    pub payload_format_indicator: Option<PayloadFormatIndicator>,
    pub message_expiry_interval: Option<MessageExpiryInterval>,
    pub topic_alias: Option<TopicAlias>,
    pub response_topic: Option<Seq<char>>,
    pub correlation_data: Option<Seq<u8>>,
    pub user_properties: Option<Seq<(Seq<char>, Seq<char>)>>,
    pub subscription_identifier: Option<Seq<SubscriptionIdentifier>>,
    pub content_type: Option<Seq<char>>,
}

impl View for PublishProperties {
    type V = PublishPropertiesModel;

    open spec fn view(&self) -> PublishPropertiesModel {
        PublishPropertiesModel {
            payload_format_indicator: self.payload_format_indicator,
            message_expiry_interval: self.message_expiry_interval,
            topic_alias: self.topic_alias,
            response_topic: opt_view(self.response_topic),
            correlation_data: opt_view(self.correlation_data),
            user_properties: opt_vec_view(self.user_properties),
            subscription_identifier: opt_vec_view(self.subscription_identifier),
            content_type: opt_view(self.content_type),
        }
    }
}

pub open spec fn spec_empty_publish_properties() -> PublishPropertiesModel {
    PublishPropertiesModel {
        payload_format_indicator: None,
        message_expiry_interval: None,
        topic_alias: None,
        response_topic: None,
        correlation_data: None,
        user_properties: None,
        subscription_identifier: None,
        content_type: None,
    }
}

impl PublishProperties {
    pub fn default() -> (r: PublishProperties)
        ensures
            r@ == spec_empty_publish_properties(),
    {
        PublishProperties {
            payload_format_indicator: None,
            message_expiry_interval: None,
            topic_alias: None,
            response_topic: None,
            correlation_data: None,
            user_properties: None,
            subscription_identifier: None,
            content_type: None,
        }
    }
}

/// The property list of a PUBLISH from `pos` up to `end`, read into `pp`.
/// Topic Alias, Response Topic, Correlation Data and Content Type may occur
/// once; User Properties and Subscription Identifiers accumulate; any other
/// identifier is refused, and so is a list that runs past `end`.
pub open spec fn spec_publish_properties(s: Seq<u8>, pos: int, end: int, pp: PublishPropertiesModel) -> (
    PublishPropertiesModel,
    Decoded<()>,
)
    decreases s.len() - pos,
{
    if pos == end {
        (pp, Decoded::Done((), pos))
    } else if pos > end {
        (pp, Decoded::Failed(MqttError::InvalidFormat))
    } else if pos < 0 || pos >= s.len() {
        (pp, Decoded::Overrun)
    } else {
        let id = s[pos];
        if id == PROPERTY_PAYLOAD_FORMAT_INDICATOR_ID {
            match spec_payload_format_indicator(s, pos + 1) {
                Decoded::Done(v, p) => spec_publish_properties(
                    s,
                    p,
                    end,
                    PublishPropertiesModel { payload_format_indicator: Some(v), ..pp },
                ),
                Decoded::Failed(e) => (pp, Decoded::Failed(e)),
                Decoded::Overrun => (pp, Decoded::Overrun),
            }
        } else if id == PROPERTY_MESSAGE_EXPIRY_INTERVAL_ID {
            match spec_message_expiry_interval(s, pos + 1) {
                Decoded::Done(v, p) => spec_publish_properties(
                    s,
                    p,
                    end,
                    PublishPropertiesModel { message_expiry_interval: Some(v), ..pp },
                ),
                Decoded::Failed(e) => (pp, Decoded::Failed(e)),
                Decoded::Overrun => (pp, Decoded::Overrun),
            }
        } else if id == PROPERTY_TOPIC_ALIAS_ID {
            if pp.topic_alias is Some {
                (pp, Decoded::Failed(MqttError::InvalidFormat))
            } else {
                match spec_topic_alias(s, pos + 1) {
                    Decoded::Done(v, p) => spec_publish_properties(
                        s,
                        p,
                        end,
                        PublishPropertiesModel { topic_alias: Some(v), ..pp },
                    ),
                    Decoded::Failed(e) => (pp, Decoded::Failed(e)),
                    Decoded::Overrun => (pp, Decoded::Overrun),
                }
            }
        } else if id == PROPERTY_RESPONSE_TOPIC_ID {
            if pp.response_topic is Some {
                (pp, Decoded::Failed(MqttError::InvalidFormat))
            } else {
                match spec_decode_utf8_string(s, pos + 1) {
                    Decoded::Done(v, p) => spec_publish_properties(
                        s,
                        p,
                        end,
                        PublishPropertiesModel { response_topic: Some(v), ..pp },
                    ),
                    Decoded::Failed(e) => (pp, Decoded::Failed(e)),
                    Decoded::Overrun => (pp, Decoded::Overrun),
                }
            }
        } else if id == PROPERTY_CORRELATION_DATA_ID {
            if pp.correlation_data is Some {
                (pp, Decoded::Failed(MqttError::InvalidFormat))
            } else {
                match spec_binary_field(s, pos + 1) {
                    Decoded::Done(v, p) => spec_publish_properties(
                        s,
                        p,
                        end,
                        PublishPropertiesModel { correlation_data: Some(v), ..pp },
                    ),
                    Decoded::Failed(e) => (pp, Decoded::Failed(e)),
                    Decoded::Overrun => (pp, Decoded::Overrun),
                }
            }
        } else if id == PROPERTY_USER_PROPERTY_ID {
            match spec_user_property(s, pos + 1) {
                Decoded::Done(v, p) => spec_publish_properties(
                    s,
                    p,
                    end,
                    PublishPropertiesModel { user_properties: opt_push(pp.user_properties, v), ..pp },
                ),
                Decoded::Failed(e) => (pp, Decoded::Failed(e)),
                Decoded::Overrun => (pp, Decoded::Overrun),
            }
        } else if id == PROPERTY_SUBSCRIPTION_IDENTIFIER_ID {
            match spec_subscription_identifier(s, pos + 1) {
                Decoded::Done(v, p) => spec_publish_properties(
                    s,
                    p,
                    end,
                    PublishPropertiesModel {
                        subscription_identifier: opt_push(pp.subscription_identifier, v),
                        ..pp
                    },
                ),
                Decoded::Failed(e) => (pp, Decoded::Failed(e)),
                Decoded::Overrun => (pp, Decoded::Overrun),
            }
        } else if id == PROPERTY_CONTENT_TYPE_ID {
            if pp.content_type is Some {
                (pp, Decoded::Failed(MqttError::InvalidFormat))
            } else {
                match spec_decode_utf8_string(s, pos + 1) {
                    Decoded::Done(v, p) => spec_publish_properties(
                        s,
                        p,
                        end,
                        PublishPropertiesModel { content_type: Some(v), ..pp },
                    ),
                    Decoded::Failed(e) => (pp, Decoded::Failed(e)),
                    Decoded::Overrun => (pp, Decoded::Overrun),
                }
            }
        } else {
            (pp, Decoded::Failed(MqttError::InvalidFormat))
        }
    }
}


/// A PUBLISH packet as far as it is decoded.
#[derive(Debug, PartialEq)]
pub struct Publish {
    pub remain_length: usize,
    pub dup: Dup,
    pub qos: QoS,
    pub retain: Retain,
    pub topic_name: Option<TopicName>,
    pub pub_properties: PublishProperties,
    pub packet_id: Option<PacketId>,
}

/// A PUBLISH packet as values.
pub struct PublishModel {
    pub remain_length: usize,
    pub dup: Dup,
    pub qos: QoS,
    pub retain: Retain,
    pub topic_name: Option<Seq<char>>,
    pub pub_properties: PublishPropertiesModel,
    pub packet_id: Option<PacketId>,
}

impl View for Publish {
    type V = PublishModel;

    open spec fn view(&self) -> PublishModel {
        PublishModel {
            remain_length: self.remain_length,
            dup: self.dup,
            qos: self.qos,
            retain: self.retain,
            topic_name: opt_view(self.topic_name),
            pub_properties: self.pub_properties@,
            packet_id: self.packet_id,
        }
    }
}

/// A copy of a list of user properties.
fn clone_user_properties(v: &Vec<UserProperty>) -> (r: Vec<UserProperty>)
    ensures
        r@.map_values(|x: UserProperty| x@) == v@.map_values(|x: UserProperty| x@),
{
    let mut r: Vec<UserProperty> = Vec::new();
    let mut i: usize = 0;
    while i < v.len()
        invariant
            i <= v.len(),
            r@.len() == i,
            r@.map_values(|x: UserProperty| x@) == v@.subrange(0, i as int).map_values(|x: UserProperty| x@),
        decreases v.len() - i,
    {
        let ghost before = r@;
        let c = v[i].clone();
        r.push(c);
        proof {
            assert(v@.subrange(0, i + 1) == v@.subrange(0, i as int).push(v@[i as int]));
            assert(r@.map_values(|x: UserProperty| x@) =~= before.map_values(|x: UserProperty| x@).push(c@));
            assert(v@.subrange(0, i + 1).map_values(|x: UserProperty| x@) =~= v@.subrange(0, i as int).map_values(
                |x: UserProperty| x@,
            ).push(v@[i as int]@));
        }
        i += 1;
    }
    proof {
        assert(v@.subrange(0, v@.len() as int) == v@);
    }
    r
}

/// A copy of a list of subscription identifiers.
fn clone_subscription_identifiers(v: &Vec<SubscriptionIdentifier>) -> (r: Vec<SubscriptionIdentifier>)
    ensures
        r@ == v@,
{
    let mut r: Vec<SubscriptionIdentifier> = Vec::new();
    let mut i: usize = 0;
    while i < v.len()
        invariant
            i <= v.len(),
            r@ == v@.subrange(0, i as int),
        decreases v.len() - i,
    {
        r.push(v[i]);
        i += 1;
    }
    r
}

impl Clone for PublishProperties {
    fn clone(&self) -> (r: Self)
        ensures
            r@ == self@,
    {
        PublishProperties {
            payload_format_indicator: self.payload_format_indicator,
            message_expiry_interval: self.message_expiry_interval,
            topic_alias: self.topic_alias,
            response_topic: match &self.response_topic {
                Some(t) => Some(t.clone()),
                None => None,
            },
            correlation_data: match &self.correlation_data {
                Some(d) => Some(d.clone()),
                None => None,
            },
            user_properties: match &self.user_properties {
                Some(v) => Some(clone_user_properties(v)),
                None => None,
            },
            subscription_identifier: match &self.subscription_identifier {
                Some(v) => Some(clone_subscription_identifiers(v)),
                None => None,
            },
            content_type: match &self.content_type {
                Some(t) => Some(t.clone()),
                None => None,
            },
        }
    }
}

impl Clone for Publish {
    fn clone(&self) -> (r: Self)
        ensures
            r@ == self@,
    {
        Publish {
            remain_length: self.remain_length,
            dup: self.dup,
            qos: self.qos,
            retain: self.retain,
            topic_name: match &self.topic_name {
                Some(t) => Some(t.clone()),
                None => None,
            },
            pub_properties: self.pub_properties.clone(),
            packet_id: self.packet_id,
        }
    }
}

/// The variable header of a PUBLISH from `start`, read into `p`: the topic
/// name, the packet identifier for QoS 1 and 2 (refused as too short when not
/// even one byte of it is there), then the property length and the
/// properties. On success, the position after the properties.
pub open spec fn spec_publish_variable_header(s: Seq<u8>, start: int, p: PublishModel) -> (
    PublishModel,
    Decoded<()>,
) {
    match spec_decode_utf8_string(s, start) {
        Decoded::Failed(e) => (p, Decoded::Failed(e)),
        Decoded::Overrun => (p, Decoded::Overrun),
        Decoded::Done(t, np) => {
            let p1 = PublishModel { topic_name: Some(t), ..p };
            if p.qos == QoS::QoS1 || p.qos == QoS::QoS2 {
                if s.len() < np + 1 {
                    (p1, Decoded::Failed(MqttError::InsufficientBytes))
                } else {
                    match spec_packet_id(s, np) {
                        Decoded::Done(id, np2) => spec_publish_properties_section(
                            s,
                            np2,
                            PublishModel { packet_id: Some(id), ..p1 },
                        ),
                        Decoded::Failed(e) => (p1, Decoded::Failed(e)),
                        Decoded::Overrun => (p1, Decoded::Overrun),
                    }
                }
            } else {
                spec_publish_properties_section(s, np, p1)
            }
        },
    }
}

/// The property length at `pos` and the properties after it, read into `p`.
pub open spec fn spec_publish_properties_section(s: Seq<u8>, pos: int, p: PublishModel) -> (
    PublishModel,
    Decoded<()>,
) {
    match spec_decode_variable_length(s, pos) {
        Decoded::Done(len, np) => {
            let (pp, r) = spec_publish_properties(s, np, np + len, p.pub_properties);
            (PublishModel { pub_properties: pp, ..p }, r)
        },
        Decoded::Failed(e) => (p, Decoded::Failed(e)),
        Decoded::Overrun => (p, Decoded::Overrun),
    }
}

/// Whether an exec result of a header decoder agrees with the outcome of the
/// specification: the position after the header, or the error.
pub open spec fn position_as(r: Result<usize, MqttError>, d: Decoded<()>) -> bool {
    match d {
        Decoded::Done(_, p) => r == Ok::<usize, MqttError>(p as usize) && 0 <= p <= usize::MAX,
        Decoded::Failed(e) => r == Err::<usize, MqttError>(e),
        Decoded::Overrun => false,
    }
}

impl Publish {
    pub fn default() -> (r: Publish)
        ensures
            r@ == spec_default_publish(),
    {
        Publish {
            remain_length: 0,
            dup: Dup(false),
            qos: QoS::QoS0,
            retain: Retain(false),
            topic_name: None,
            pub_properties: PublishProperties::default(),
            packet_id: None,
        }
    }

}

impl MqttPacket for Publish {
    open spec fn spec_decode_variable_header(v: PublishModel, s: Seq<u8>, start: int) -> (PublishModel, Decoded<()>) {
        spec_publish_variable_header(s, start, v)
    }

    open spec fn spec_decode_payload(v: PublishModel, s: Seq<u8>, start: int) -> (PublishModel, Decoded<()>) {
        (v, Decoded::Done((), 0))
    }

    /// Decodes the variable header from `start_pos`; returns the position
    /// after it. Fields decoded before an error keep their new values.
    fn decode_variable_header(&mut self, buf: &BytesMut, start_pos: usize) -> (r: Result<usize, MqttError>)
    {
        let ghost sv = bytes_mut_view(*buf);
        let s = bytes_mut_as_slice(buf);
        // topic name UTF-8 Encoded String
        let (result, mut next_pos) = TopicName::try_from(buf, start_pos)?;
        self.topic_name = Some(result);
        // packet identifier
        if self.qos == QoS::QoS1 || self.qos == QoS::QoS2 {
            if s.len() < next_pos + 1 {
                return Err(MqttError::InsufficientBytes);
            }
            let (result, np) = PacketId::try_from(buf, next_pos)?;
            next_pos = np;
            self.packet_id = Some(result);
        }
        let ghost p2 = self@;
        let ghost pos2 = next_pos as int;
        assert(spec_publish_variable_header(sv, start_pos as int, old(self)@)
            == spec_publish_properties_section(sv, pos2, p2));
        // Properties
        let (property_length, np) = decode_variable_length(buf, next_pos)?;
        next_pos = np;
        let end_pos = next_pos + property_length;
        let ghost props0 = self.pub_properties@;
        let ghost before_loop = self@;
        let ghost first = next_pos as int;
        assert(spec_publish_variable_header(sv, start_pos as int, old(self)@) == (
        PublishModel { pub_properties: spec_publish_properties(sv, first, end_pos as int, props0).0, ..before_loop },
        spec_publish_properties(sv, first, end_pos as int, props0).1));
        loop
            invariant
                sv == bytes_mut_view(*buf),
                sv == s@,
                sv.len() <= isize::MAX,
                next_pos <= sv.len(),
                end_pos as int == first + property_length,
                property_length < 268435456,
                spec_publish_properties(sv, first, end_pos as int, props0) == spec_publish_properties(
                    sv,
                    next_pos as int,
                    end_pos as int,
                    self.pub_properties@,
                ),
                !(spec_publish_properties(sv, first, end_pos as int, props0).1 is Overrun),
                self@ == (PublishModel { pub_properties: self.pub_properties@, ..before_loop }),
                spec_publish_variable_header(sv, start_pos as int, old(self)@) == (
                PublishModel { pub_properties: spec_publish_properties(sv, first, end_pos as int, props0).0, ..before_loop },
                spec_publish_properties(sv, first, end_pos as int, props0).1),
            ensures
                next_pos == end_pos,
            decreases sv.len() - next_pos,
        {
            if next_pos == end_pos {
                break;
            }
            if next_pos > end_pos {
                return Err(MqttError::InvalidFormat);
            }
            let id = s[next_pos];
            if id == PROPERTY_PAYLOAD_FORMAT_INDICATOR_ID {
                let (result, np) = PayloadFormatIndicator::try_from(buf, next_pos + 1)?;
                next_pos = np;
                self.pub_properties.payload_format_indicator = Some(result);
            } else if id == PROPERTY_MESSAGE_EXPIRY_INTERVAL_ID {
                let (result, np) = MessageExpiryInterval::try_from(buf, next_pos + 1)?;
                next_pos = np;
                self.pub_properties.message_expiry_interval = Some(result);
            } else if id == PROPERTY_TOPIC_ALIAS_ID {
                // It is a Protocol Error to include the Topic Alias value more than once.
                if self.pub_properties.topic_alias.is_some() {
                    return Err(MqttError::InvalidFormat);
                }
                let (result, np) = TopicAlias::try_from(buf, next_pos + 1)?;
                next_pos = np;
                self.pub_properties.topic_alias = Some(result);
            } else if id == PROPERTY_RESPONSE_TOPIC_ID {
                if self.pub_properties.response_topic.is_some() {
                    return Err(MqttError::InvalidFormat);
                }
                let (result, np) = ResponseTopic::try_from(buf, next_pos + 1)?;
                next_pos = np;
                self.pub_properties.response_topic = Some(result);
            } else if id == PROPERTY_CORRELATION_DATA_ID {
                if self.pub_properties.correlation_data.is_some() {
                    return Err(MqttError::InvalidFormat);
                }
                let (result, np) = CorrelationData::try_from(buf, next_pos + 1)?;
                next_pos = np;
                self.pub_properties.correlation_data = Some(result);
            } else if id == PROPERTY_USER_PROPERTY_ID {
                let (user_property, np) = UserProperty::try_from(buf, next_pos + 1)?;
                next_pos = np;
                push_user_property(&mut self.pub_properties.user_properties, user_property);
            } else if id == PROPERTY_SUBSCRIPTION_IDENTIFIER_ID {
                let (result, np) = SubscriptionIdentifier::try_from(buf, next_pos + 1)?;
                next_pos = np;
                push_subscription_identifier(&mut self.pub_properties.subscription_identifier, result);
            } else if id == PROPERTY_CONTENT_TYPE_ID {
                // It is a Protocol Error to include the Content Type more than once.
                if self.pub_properties.content_type.is_some() {
                    return Err(MqttError::InvalidFormat);
                }
                let (result, np) = ContentType::try_from(buf, next_pos + 1)?;
                next_pos = np;
                self.pub_properties.content_type = Some(result);
            } else {
                return Err(MqttError::InvalidFormat);
            }
        }
        Ok(next_pos)
    }

    /// The payload is not decoded: nothing is consumed.
    fn decode_payload(&mut self, buf: &BytesMut, start_pos: usize) -> (r: Result<usize, MqttError>) {
        Ok(0)
    }

    fn encode_fixed_header(&self) -> (r: Result<Bytes, MqttError>) {
        Err(MqttError::NotImplemented)
    }

    fn encode_variable_header(&self) -> (r: Result<Bytes, MqttError>) {
        Err(MqttError::NotImplemented)
    }

    fn encode_payload_chunk(&self) -> (r: Result<Option<Bytes>, MqttError>) {
        Err(MqttError::NotImplemented)
    }
}

pub open spec fn spec_default_publish() -> PublishModel {
    PublishModel {
        remain_length: 0,
        dup: Dup(false),
        qos: QoS::QoS0,
        retain: Retain(false),
        topic_name: None,
        pub_properties: spec_empty_publish_properties(),
        packet_id: None,
    }
}


/// The properties of a CONNECT.
#[derive(PartialEq, Debug, Clone)]
pub struct ConnectProperties {
    pub session_expiry_interval: Option<SessionExpiryInterval>,
    pub receive_maximum: Option<ReceiveMaximum>,
    pub maximum_packet_size: Option<MaximumPacketSize>,
    pub topic_alias_maximum: Option<TopicAliasMaximum>,
    pub request_response_information: Option<RequestResponseInformation>,
    pub request_problem_information: Option<RequestProblemInformation>,
    pub user_properties: Option<Vec<UserProperty>>,
    pub authentication_method: Option<AuthenticationMethod>,
    pub authentication_data: Option<AuthenticationData>,
}

/// The properties of a CONNECT as values.
pub struct ConnectPropertiesModel {
    pub session_expiry_interval: Option<SessionExpiryInterval>,
    pub receive_maximum: Option<ReceiveMaximum>,
    pub maximum_packet_size: Option<MaximumPacketSize>,
    pub topic_alias_maximum: Option<TopicAliasMaximum>,
    pub request_response_information: Option<RequestResponseInformation>,
    pub request_problem_information: Option<RequestProblemInformation>,
    pub user_properties: Option<Seq<(Seq<char>, Seq<char>)>>,
    pub authentication_method: Option<Seq<char>>,
    pub authentication_data: Option<Seq<u8>>,
}

impl View for ConnectProperties {
    type V = ConnectPropertiesModel;

    open spec fn view(&self) -> ConnectPropertiesModel {
        ConnectPropertiesModel {
            session_expiry_interval: self.session_expiry_interval,
            receive_maximum: self.receive_maximum,
            maximum_packet_size: self.maximum_packet_size,
            topic_alias_maximum: self.topic_alias_maximum,
            request_response_information: self.request_response_information,
            request_problem_information: self.request_problem_information,
            user_properties: opt_vec_view(self.user_properties),
            authentication_method: opt_view(self.authentication_method),
            authentication_data: opt_view(self.authentication_data),
        }
    }
}

pub open spec fn spec_empty_connect_properties() -> ConnectPropertiesModel {
    ConnectPropertiesModel {
        session_expiry_interval: None,
        receive_maximum: None,
        maximum_packet_size: None,
        topic_alias_maximum: None,
        request_response_information: None,
        request_problem_information: None,
        user_properties: None,
        authentication_method: None,
        authentication_data: None,
    }
}

impl ConnectProperties {
    pub fn default() -> (r: ConnectProperties)
        ensures
            r@ == spec_empty_connect_properties(),
    {
        ConnectProperties {
            session_expiry_interval: None,
            receive_maximum: None,
            maximum_packet_size: None,
            topic_alias_maximum: None,
            request_response_information: None,
            request_problem_information: None,
            user_properties: None,
            authentication_method: None,
            authentication_data: None,
        }
    }
}

/// The will properties of a CONNECT payload.
#[derive(PartialEq, Debug, Clone)]
pub struct WillProperties {
    pub will_delay_interval: Option<WillDelayInterval>,
    pub payload_format_indicator: Option<PayloadFormatIndicator>,
    pub message_expiry_interval: Option<MessageExpiryInterval>,
    pub content_type: Option<ContentType>,
    pub response_topic: Option<ResponseTopic>,
    pub correlation_data: Option<CorrelationData>,
    pub user_properties: Option<Vec<UserProperty>>,
    pub subscription_identifier: Option<SubscriptionIdentifier>,
}

/// The will properties of a CONNECT payload as values.
pub struct WillPropertiesModel {
    pub will_delay_interval: Option<WillDelayInterval>,
    pub payload_format_indicator: Option<PayloadFormatIndicator>,
    pub message_expiry_interval: Option<MessageExpiryInterval>,
    pub content_type: Option<Seq<char>>,
    pub response_topic: Option<Seq<char>>,
    pub correlation_data: Option<Seq<u8>>,
    pub user_properties: Option<Seq<(Seq<char>, Seq<char>)>>,
    pub subscription_identifier: Option<SubscriptionIdentifier>,
}

impl View for WillProperties {
    type V = WillPropertiesModel;

    open spec fn view(&self) -> WillPropertiesModel {
        WillPropertiesModel {
            will_delay_interval: self.will_delay_interval,
            payload_format_indicator: self.payload_format_indicator,
            message_expiry_interval: self.message_expiry_interval,
            content_type: opt_view(self.content_type),
            response_topic: opt_view(self.response_topic),
            correlation_data: opt_view(self.correlation_data),
            user_properties: opt_vec_view(self.user_properties),
            subscription_identifier: self.subscription_identifier,
        }
    }
}

pub open spec fn spec_empty_will_properties() -> WillPropertiesModel {
    WillPropertiesModel {
        will_delay_interval: None,
        payload_format_indicator: None,
        message_expiry_interval: None,
        content_type: None,
        response_topic: None,
        correlation_data: None,
        user_properties: None,
        subscription_identifier: None,
    }
}

impl WillProperties {
    pub fn default() -> (r: WillProperties)
        ensures
            r@ == spec_empty_will_properties(),
    {
        WillProperties {
            will_delay_interval: None,
            payload_format_indicator: None,
            message_expiry_interval: None,
            content_type: None,
            response_topic: None,
            correlation_data: None,
            user_properties: None,
            subscription_identifier: None,
        }
    }
}

/// The property list of a CONNECT from `pos` up to `end`, read into `st`: each property but User Property may occur once, an unknown identifier is refused, and after every property Authentication Data without an Authentication Method is refused.
pub open spec fn spec_connect_properties(s: Seq<u8>, pos: int, end: int, st: ConnectPropertiesModel) -> (ConnectPropertiesModel, Decoded<()>)
    decreases s.len() - pos,
{
    if pos == end {
        (st, Decoded::Done((), pos))
    } else if pos > end {
        (st, Decoded::Failed(MqttError::InvalidFormat))
    } else if pos < 0 || pos >= s.len() {
        (st, Decoded::Overrun)
    } else {
        let id = s[pos];
        if id == PROPERTY_SESSION_EXPIRY_INTERVAL {
            if st.session_expiry_interval is Some {
                (st, Decoded::Failed(MqttError::InvalidFormat))
            } else {
                match spec_session_expiry_interval(s, pos + 1) {
                Decoded::Done(v, p) => {
                    let st2 = ConnectPropertiesModel { session_expiry_interval: Some(v), ..st };
                    if st2.authentication_data is Some && st2.authentication_method is None {
                        (st2, Decoded::Failed(MqttError::InvalidFormat))
                    } else {
                        spec_connect_properties(s, p, end, st2)
                    }
                },
                Decoded::Failed(e) => (st, Decoded::Failed(e)),
                Decoded::Overrun => (st, Decoded::Overrun),
            }
            }
        } else if id == PROPERTY_RECIEVE_MAXIMUM {
            if st.receive_maximum is Some {
                (st, Decoded::Failed(MqttError::InvalidFormat))
            } else {
                match spec_receive_maximum(s, pos + 1) {
                Decoded::Done(v, p) => {
                    let st2 = ConnectPropertiesModel { receive_maximum: Some(v), ..st };
                    if st2.authentication_data is Some && st2.authentication_method is None {
                        (st2, Decoded::Failed(MqttError::InvalidFormat))
                    } else {
                        spec_connect_properties(s, p, end, st2)
                    }
                },
                Decoded::Failed(e) => (st, Decoded::Failed(e)),
                Decoded::Overrun => (st, Decoded::Overrun),
            }
            }
        } else if id == PROPERTY_MAXIMUM_PACKET_SIZE {
            if st.maximum_packet_size is Some {
                (st, Decoded::Failed(MqttError::InvalidFormat))
            } else {
                match spec_maximum_packet_size(s, pos + 1) {
                Decoded::Done(v, p) => {
                    let st2 = ConnectPropertiesModel { maximum_packet_size: Some(v), ..st };
                    if st2.authentication_data is Some && st2.authentication_method is None {
                        (st2, Decoded::Failed(MqttError::InvalidFormat))
                    } else {
                        spec_connect_properties(s, p, end, st2)
                    }
                },
                Decoded::Failed(e) => (st, Decoded::Failed(e)),
                Decoded::Overrun => (st, Decoded::Overrun),
            }
            }
        } else if id == PROPERTY_TOPIC_ALIAS_MAXIMUM {
            if st.topic_alias_maximum is Some {
                (st, Decoded::Failed(MqttError::InvalidFormat))
            } else {
                match spec_topic_alias_maximum(s, pos + 1) {
                Decoded::Done(v, p) => {
                    let st2 = ConnectPropertiesModel { topic_alias_maximum: Some(v), ..st };
                    if st2.authentication_data is Some && st2.authentication_method is None {
                        (st2, Decoded::Failed(MqttError::InvalidFormat))
                    } else {
                        spec_connect_properties(s, p, end, st2)
                    }
                },
                Decoded::Failed(e) => (st, Decoded::Failed(e)),
                Decoded::Overrun => (st, Decoded::Overrun),
            }
            }
        } else if id == PROPERTY_REQUEST_RESPONSE_INFORMATION {
            if st.request_response_information is Some {
                (st, Decoded::Failed(MqttError::InvalidFormat))
            } else {
                match spec_request_response_information(s, pos + 1) {
                Decoded::Done(v, p) => {
                    let st2 = ConnectPropertiesModel { request_response_information: Some(v), ..st };
                    if st2.authentication_data is Some && st2.authentication_method is None {
                        (st2, Decoded::Failed(MqttError::InvalidFormat))
                    } else {
                        spec_connect_properties(s, p, end, st2)
                    }
                },
                Decoded::Failed(e) => (st, Decoded::Failed(e)),
                Decoded::Overrun => (st, Decoded::Overrun),
            }
            }
        } else if id == PROPERTY_REQUEST_PROBLEM_INFORMATION {
            if st.request_problem_information is Some {
                (st, Decoded::Failed(MqttError::InvalidFormat))
            } else {
                match spec_request_problem_information(s, pos + 1) {
                Decoded::Done(v, p) => {
                    let st2 = ConnectPropertiesModel { request_problem_information: Some(v), ..st };
                    if st2.authentication_data is Some && st2.authentication_method is None {
                        (st2, Decoded::Failed(MqttError::InvalidFormat))
                    } else {
                        spec_connect_properties(s, p, end, st2)
                    }
                },
                Decoded::Failed(e) => (st, Decoded::Failed(e)),
                Decoded::Overrun => (st, Decoded::Overrun),
            }
            }
        } else if id == PROPERTY_USER_PROPERTY_ID {
            match spec_user_property(s, pos + 1) {
                Decoded::Done(v, p) => {
                    let st2 = ConnectPropertiesModel { user_properties: opt_push(st.user_properties, v), ..st };
                    if st2.authentication_data is Some && st2.authentication_method is None {
                        (st2, Decoded::Failed(MqttError::InvalidFormat))
                    } else {
                        spec_connect_properties(s, p, end, st2)
                    }
                },
                Decoded::Failed(e) => (st, Decoded::Failed(e)),
                Decoded::Overrun => (st, Decoded::Overrun),
            }
        } else if id == PROPERTY_AUTHENTICATION_METHOD {
            if st.authentication_method is Some {
                (st, Decoded::Failed(MqttError::InvalidFormat))
            } else {
                match spec_decode_utf8_string(s, pos + 1) {
                Decoded::Done(v, p) => {
                    let st2 = ConnectPropertiesModel { authentication_method: Some(v), ..st };
                    if st2.authentication_data is Some && st2.authentication_method is None {
                        (st2, Decoded::Failed(MqttError::InvalidFormat))
                    } else {
                        spec_connect_properties(s, p, end, st2)
                    }
                },
                Decoded::Failed(e) => (st, Decoded::Failed(e)),
                Decoded::Overrun => (st, Decoded::Overrun),
            }
            }
        } else if id == PROPERTY_AUTHENTICATION_DATA {
            if st.authentication_data is Some {
                (st, Decoded::Failed(MqttError::InvalidFormat))
            } else {
                match spec_binary_field(s, pos + 1) {
                Decoded::Done(v, p) => {
                    let st2 = ConnectPropertiesModel { authentication_data: Some(v), ..st };
                    if st2.authentication_data is Some && st2.authentication_method is None {
                        (st2, Decoded::Failed(MqttError::InvalidFormat))
                    } else {
                        spec_connect_properties(s, p, end, st2)
                    }
                },
                Decoded::Failed(e) => (st, Decoded::Failed(e)),
                Decoded::Overrun => (st, Decoded::Overrun),
            }
            }
        } else {
            (st, Decoded::Failed(MqttError::InvalidFormat))
        }
    }
}

/// The will property list of a CONNECT payload from `pos` up to `end`, read into `st`: each property but User Property may occur once; an unknown identifier is refused.
pub open spec fn spec_will_properties(s: Seq<u8>, pos: int, end: int, st: WillPropertiesModel) -> (WillPropertiesModel, Decoded<()>)
    decreases s.len() - pos,
{
    if pos == end {
        (st, Decoded::Done((), pos))
    } else if pos > end {
        (st, Decoded::Failed(MqttError::InvalidFormat))
    } else if pos < 0 || pos >= s.len() {
        (st, Decoded::Overrun)
    } else {
        let id = s[pos];
        if id == PROPERTY_WILL_DELAY_INTERVAL {
            if st.will_delay_interval is Some {
                (st, Decoded::Failed(MqttError::InvalidFormat))
            } else {
                match spec_will_delay_interval(s, pos + 1) {
                Decoded::Done(v, p) => spec_will_properties(s, p, end, WillPropertiesModel { will_delay_interval: Some(v), ..st }),
                Decoded::Failed(e) => (st, Decoded::Failed(e)),
                Decoded::Overrun => (st, Decoded::Overrun),
            }
            }
        } else if id == PROPERTY_PAYLOAD_FORMAT_INDICATOR_ID {
            if st.payload_format_indicator is Some {
                (st, Decoded::Failed(MqttError::InvalidFormat))
            } else {
                match spec_payload_format_indicator(s, pos + 1) {
                Decoded::Done(v, p) => spec_will_properties(s, p, end, WillPropertiesModel { payload_format_indicator: Some(v), ..st }),
                Decoded::Failed(e) => (st, Decoded::Failed(e)),
                Decoded::Overrun => (st, Decoded::Overrun),
            }
            }
        } else if id == PROPERTY_MESSAGE_EXPIRY_INTERVAL_ID {
            if st.message_expiry_interval is Some {
                (st, Decoded::Failed(MqttError::InvalidFormat))
            } else {
                match spec_message_expiry_interval(s, pos + 1) {
                Decoded::Done(v, p) => spec_will_properties(s, p, end, WillPropertiesModel { message_expiry_interval: Some(v), ..st }),
                Decoded::Failed(e) => (st, Decoded::Failed(e)),
                Decoded::Overrun => (st, Decoded::Overrun),
            }
            }
        } else if id == PROPERTY_CONTENT_TYPE_ID {
            if st.content_type is Some {
                (st, Decoded::Failed(MqttError::InvalidFormat))
            } else {
                match spec_decode_utf8_string(s, pos + 1) {
                Decoded::Done(v, p) => spec_will_properties(s, p, end, WillPropertiesModel { content_type: Some(v), ..st }),
                Decoded::Failed(e) => (st, Decoded::Failed(e)),
                Decoded::Overrun => (st, Decoded::Overrun),
            }
            }
        } else if id == PROPERTY_RESPONSE_TOPIC_ID {
            if st.response_topic is Some {
                (st, Decoded::Failed(MqttError::InvalidFormat))
            } else {
                match spec_decode_utf8_string(s, pos + 1) {
                Decoded::Done(v, p) => spec_will_properties(s, p, end, WillPropertiesModel { response_topic: Some(v), ..st }),
                Decoded::Failed(e) => (st, Decoded::Failed(e)),
                Decoded::Overrun => (st, Decoded::Overrun),
            }
            }
        } else if id == PROPERTY_CORRELATION_DATA_ID {
            if st.correlation_data is Some {
                (st, Decoded::Failed(MqttError::InvalidFormat))
            } else {
                match spec_binary_field(s, pos + 1) {
                Decoded::Done(v, p) => spec_will_properties(s, p, end, WillPropertiesModel { correlation_data: Some(v), ..st }),
                Decoded::Failed(e) => (st, Decoded::Failed(e)),
                Decoded::Overrun => (st, Decoded::Overrun),
            }
            }
        } else if id == PROPERTY_USER_PROPERTY_ID {
            match spec_user_property(s, pos + 1) {
                Decoded::Done(v, p) => spec_will_properties(s, p, end, WillPropertiesModel { user_properties: opt_push(st.user_properties, v), ..st }),
                Decoded::Failed(e) => (st, Decoded::Failed(e)),
                Decoded::Overrun => (st, Decoded::Overrun),
            }
        } else {
            (st, Decoded::Failed(MqttError::InvalidFormat))
        }
    }
}

/// A CONNECT packet as far as it is decoded.
#[derive(PartialEq, Debug, Clone)]
pub struct Connect {
    pub remain_length: usize,
    pub protocol_name: ProtocolName,
    pub protocol_ver: ProtocolVersion,
    pub connect_flags: ConnectFlags,
    pub keepalive: KeepAlive,
    pub properties: ConnectProperties,
    pub client_id: ClientId,
    pub username: Option<UserName>,
    pub password: Option<Password>,
    pub will_properties: WillProperties,
    pub will_topic: Option<TopicName>,
    pub will_payload: Option<WillPayload>,
}

/// A CONNECT packet as values.
pub struct ConnectModel {
    pub remain_length: usize,
    pub protocol_name: Seq<char>,
    pub protocol_ver: ProtocolVersion,
    pub connect_flags: ConnectFlags,
    pub keepalive: KeepAlive,
    pub properties: ConnectPropertiesModel,
    pub client_id: Seq<char>,
    pub username: Option<Seq<char>>,
    pub password: Option<Seq<u8>>,
    pub will_properties: WillPropertiesModel,
    pub will_topic: Option<Seq<char>>,
    pub will_payload: Option<Seq<u8>>,
}

impl View for Connect {
    type V = ConnectModel;

    open spec fn view(&self) -> ConnectModel {
        ConnectModel {
            remain_length: self.remain_length,
            protocol_name: self.protocol_name@,
            protocol_ver: self.protocol_ver,
            connect_flags: self.connect_flags,
            keepalive: self.keepalive,
            properties: self.properties@,
            client_id: self.client_id@,
            username: opt_view(self.username),
            password: opt_view(self.password),
            will_properties: self.will_properties@,
            will_topic: opt_view(self.will_topic),
            will_payload: opt_view(self.will_payload),
        }
    }
}

pub open spec fn spec_default_connect() -> ConnectModel {
    ConnectModel {
        remain_length: 0,
        protocol_name: Seq::<char>::empty(),
        protocol_ver: ProtocolVersion(0),
        connect_flags: spec_default_connect_flags(),
        keepalive: KeepAlive(0),
        properties: spec_empty_connect_properties(),
        client_id: Seq::<char>::empty(),
        username: None,
        password: None,
        will_properties: spec_empty_will_properties(),
        will_topic: None,
        will_payload: None,
    }
}

/// The variable header of a CONNECT from `start`, read into `c`: protocol
/// name, protocol version, connect flags and keep alive; for version 5 then
/// the property length and the properties. On success, the position after.
pub open spec fn spec_connect_variable_header(s: Seq<u8>, start: int, c: ConnectModel) -> (
    ConnectModel,
    Decoded<()>,
) {
    match spec_protocol_name(s, start) {
        Decoded::Failed(e) => (c, Decoded::Failed(e)),
        Decoded::Overrun => (c, Decoded::Overrun),
        Decoded::Done(name, p1) => {
            let c1 = ConnectModel { protocol_name: name, ..c };
            match spec_protocol_version(s, p1) {
                Decoded::Failed(e) => (c1, Decoded::Failed(e)),
                Decoded::Overrun => (c1, Decoded::Overrun),
                Decoded::Done(ver, p2) => {
                    let c2 = ConnectModel { protocol_ver: ver, ..c1 };
                    match spec_connect_flags(s, p2) {
                        Decoded::Failed(e) => (c2, Decoded::Failed(e)),
                        Decoded::Overrun => (c2, Decoded::Overrun),
                        Decoded::Done(flags, p3) => {
                            let c3 = ConnectModel { connect_flags: flags, ..c2 };
                            match spec_keep_alive(s, p3) {
                                Decoded::Failed(e) => (c3, Decoded::Failed(e)),
                                Decoded::Overrun => (c3, Decoded::Overrun),
                                Decoded::Done(ka, p4) => {
                                    let c4 = ConnectModel { keepalive: ka, ..c3 };
                                    if ver.0 != 5 {
                                        (c4, Decoded::Done((), p4))
                                    } else {
                                        match spec_decode_variable_length(s, p4) {
                                            Decoded::Done(len, p5) => {
                                                let (cp, r) = spec_connect_properties(
                                                    s,
                                                    p5,
                                                    p5 + len,
                                                    c4.properties,
                                                );
                                                (ConnectModel { properties: cp, ..c4 }, r)
                                            },
                                            Decoded::Failed(e) => (c4, Decoded::Failed(e)),
                                            Decoded::Overrun => (c4, Decoded::Overrun),
                                        }
                                    }
                                },
                            }
                        },
                    }
                },
            }
        },
    }
}

/// The will section of a CONNECT payload from `pos`, read into `c`: the will
/// property length and properties, the will topic and the will payload.
pub open spec fn spec_connect_will(s: Seq<u8>, pos: int, c: ConnectModel) -> (ConnectModel, Decoded<()>) {
    match spec_decode_variable_length(s, pos) {
        Decoded::Failed(e) => (c, Decoded::Failed(e)),
        Decoded::Overrun => (c, Decoded::Overrun),
        Decoded::Done(len, p1) => {
            let (wp, r) = spec_will_properties(s, p1, p1 + len, c.will_properties);
            let c1 = ConnectModel { will_properties: wp, ..c };
            match r {
                Decoded::Failed(e) => (c1, Decoded::Failed(e)),
                Decoded::Overrun => (c1, Decoded::Overrun),
                Decoded::Done(_, p2) => match spec_decode_utf8_string(s, p2) {
                    Decoded::Failed(e) => (c1, Decoded::Failed(e)),
                    Decoded::Overrun => (c1, Decoded::Overrun),
                    Decoded::Done(topic, p3) => {
                        let c2 = ConnectModel { will_topic: Some(topic), ..c1 };
                        match spec_binary_field(s, p3) {
                            Decoded::Failed(e) => (c2, Decoded::Failed(e)),
                            Decoded::Overrun => (c2, Decoded::Overrun),
                            Decoded::Done(payload, p4) => (
                                ConnectModel { will_payload: Some(payload), ..c2 },
                                Decoded::Done((), p4),
                            ),
                        }
                    },
                },
            }
        },
    }
}

/// The user name (when its flag is set) and then the password (when its
/// flag is set) of a CONNECT payload from `pos`, read into `c`.
pub open spec fn spec_connect_credentials(s: Seq<u8>, pos: int, c: ConnectModel) -> (
    ConnectModel,
    Decoded<()>,
) {
    let (c1, r1) = if c.connect_flags.user_name_flag {
        match spec_decode_utf8_string(s, pos) {
            Decoded::Done(name, p) => (ConnectModel { username: Some(name), ..c }, Decoded::Done((), p)),
            Decoded::Failed(e) => (c, Decoded::Failed(e)),
            Decoded::Overrun => (c, Decoded::Overrun),
        }
    } else {
        (c, Decoded::Done((), pos))
    };
    match r1 {
        Decoded::Done(_, p1) => if c1.connect_flags.password_flag {
            match spec_binary_field(s, p1) {
                Decoded::Done(pw, p2) => (ConnectModel { password: Some(pw), ..c1 }, Decoded::Done((), p2)),
                Decoded::Failed(e) => (c1, Decoded::Failed(e)),
                Decoded::Overrun => (c1, Decoded::Overrun),
            }
        } else {
            (c1, Decoded::Done((), p1))
        },
        _ => (c1, r1),
    }
}

/// The payload of a CONNECT from `start`, read into `c`: the client
/// identifier, the will section when the will flag is set, then user name
/// and password as their flags say. On success, the position after.
pub open spec fn spec_connect_payload(s: Seq<u8>, start: int, c: ConnectModel) -> (ConnectModel, Decoded<()>) {
    match spec_decode_utf8_string(s, start) {
        Decoded::Failed(e) => (c, Decoded::Failed(e)),
        Decoded::Overrun => (c, Decoded::Overrun),
        Decoded::Done(id, p1) => {
            let c1 = ConnectModel { client_id: id, ..c };
            if c1.connect_flags.will_flag {
                let (c2, r2) = spec_connect_will(s, p1, c1);
                match r2 {
                    Decoded::Done(_, p2) => spec_connect_credentials(s, p2, c2),
                    _ => (c2, r2),
                }
            } else {
                spec_connect_credentials(s, p1, c1)
            }
        },
    }
}

impl Connect {
    pub fn default() -> (r: Connect)
        ensures
            r@ == spec_default_connect(),
    {
        Connect {
            remain_length: 0,
            protocol_name: ProtocolName(String::new()),
            protocol_ver: ProtocolVersion(0),
            connect_flags: ConnectFlags::default(),
            keepalive: KeepAlive(0),
            properties: ConnectProperties::default(),
            client_id: ClientId(String::new()),
            username: None,
            password: None,
            will_properties: WillProperties::default(),
            will_topic: None,
            will_payload: None,
        }
    }

}

impl MqttPacket for Connect {
    open spec fn spec_decode_variable_header(v: ConnectModel, s: Seq<u8>, start: int) -> (ConnectModel, Decoded<()>) {
        spec_connect_variable_header(s, start, v)
    }

    open spec fn spec_decode_payload(v: ConnectModel, s: Seq<u8>, start: int) -> (ConnectModel, Decoded<()>) {
        spec_connect_payload(s, start, v)
    }

    /// Decodes the variable header from `start_pos` (the whole header is
    /// expected to be in the buffer); returns the position after it. Fields
    /// decoded before an error keep their new values.
    fn decode_variable_header(&mut self, buf: &BytesMut, start_pos: usize) -> (r: Result<usize, MqttError>)
    {
        let ghost sv = bytes_mut_view(*buf);
        let s = bytes_mut_as_slice(buf);
        let (result, mut next_pos) = ProtocolName::try_from(buf, start_pos)?;
        self.protocol_name = result;
        let (ver, np) = ProtocolVersion::try_from(buf, next_pos)?;
        self.protocol_ver = ver;
        next_pos = np;
        let (flags, np) = ConnectFlags::try_from(buf, next_pos)?;
        self.connect_flags = flags;
        next_pos = np;
        let (ka, np) = KeepAlive::try_from(buf, next_pos)?;
        self.keepalive = ka;
        next_pos = np;
        // MQTT version5
        if self.protocol_ver.into_inner() != 0b00000101 {
            return Ok(next_pos);
        }
        let (property_length, np) = decode_variable_length(buf, next_pos)?;
        next_pos = np;
        let end_pos = next_pos + property_length;
        let ghost props0 = self.properties@;
        let ghost before_loop = self@;
        let ghost first = next_pos as int;
        assert(spec_connect_variable_header(sv, start_pos as int, old(self)@) == (
        ConnectModel { properties: spec_connect_properties(sv, first, end_pos as int, props0).0, ..before_loop },
        spec_connect_properties(sv, first, end_pos as int, props0).1));
        loop
            invariant
                sv == bytes_mut_view(*buf),
                sv == s@,
                sv.len() <= isize::MAX,
                next_pos <= sv.len(),
                end_pos as int == first + property_length,
                property_length < 268435456,
                spec_connect_properties(sv, first, end_pos as int, props0) == spec_connect_properties(
                    sv,
                    next_pos as int,
                    end_pos as int,
                    self.properties@,
                ),
                !(spec_connect_properties(sv, first, end_pos as int, props0).1 is Overrun),
                self@ == (ConnectModel { properties: self.properties@, ..before_loop }),
                spec_connect_variable_header(sv, start_pos as int, old(self)@) == (
                ConnectModel { properties: spec_connect_properties(sv, first, end_pos as int, props0).0, ..before_loop },
                spec_connect_properties(sv, first, end_pos as int, props0).1),
            ensures
                next_pos == end_pos,
            decreases sv.len() - next_pos,
        {
            if next_pos == end_pos {
                break;
            }
            if next_pos > end_pos {
                return Err(MqttError::InvalidFormat);
            }
            let id = s[next_pos];
            if id == PROPERTY_SESSION_EXPIRY_INTERVAL {
                if self.properties.session_expiry_interval.is_some() {
                    return Err(MqttError::InvalidFormat);
                }
                let (ret, np) = SessionExpiryInterval::try_from(buf, next_pos + 1)?;
                next_pos = np;
                self.properties.session_expiry_interval = Some(ret);
            } else if id == PROPERTY_RECIEVE_MAXIMUM {
                if self.properties.receive_maximum.is_some() {
                    return Err(MqttError::InvalidFormat);
                }
                let (ret, np) = ReceiveMaximum::try_from(buf, next_pos + 1)?;
                next_pos = np;
                self.properties.receive_maximum = Some(ret);
            } else if id == PROPERTY_MAXIMUM_PACKET_SIZE {
                if self.properties.maximum_packet_size.is_some() {
                    return Err(MqttError::InvalidFormat);
                }
                let (ret, np) = MaximumPacketSize::try_from(buf, next_pos + 1)?;
                next_pos = np;
                self.properties.maximum_packet_size = Some(ret);
            } else if id == PROPERTY_TOPIC_ALIAS_MAXIMUM {
                if self.properties.topic_alias_maximum.is_some() {
                    return Err(MqttError::InvalidFormat);
                }
                let (ret, np) = TopicAliasMaximum::try_from(buf, next_pos + 1)?;
                next_pos = np;
                self.properties.topic_alias_maximum = Some(ret);
            } else if id == PROPERTY_REQUEST_RESPONSE_INFORMATION {
                if self.properties.request_response_information.is_some() {
                    return Err(MqttError::InvalidFormat);
                }
                let (ret, np) = RequestResponseInformation::try_from(buf, next_pos + 1)?;
                next_pos = np;
                self.properties.request_response_information = Some(ret);
            } else if id == PROPERTY_REQUEST_PROBLEM_INFORMATION {
                if self.properties.request_problem_information.is_some() {
                    return Err(MqttError::InvalidFormat);
                }
                let (ret, np) = RequestProblemInformation::try_from(buf, next_pos + 1)?;
                next_pos = np;
                self.properties.request_problem_information = Some(ret);
            } else if id == PROPERTY_USER_PROPERTY_ID {
                let (ret, np) = UserProperty::try_from(buf, next_pos + 1)?;
                next_pos = np;
                push_user_property(&mut self.properties.user_properties, ret);
            } else if id == PROPERTY_AUTHENTICATION_METHOD {
                if self.properties.authentication_method.is_some() {
                    return Err(MqttError::InvalidFormat);
                }
                let (ret, np) = AuthenticationMethod::try_from(buf, next_pos + 1)?;
                next_pos = np;
                self.properties.authentication_method = Some(ret);
            } else if id == PROPERTY_AUTHENTICATION_DATA {
                if self.properties.authentication_data.is_some() {
                    return Err(MqttError::InvalidFormat);
                }
                let (ret, np) = AuthenticationData::try_from(buf, next_pos + 1)?;
                next_pos = np;
                self.properties.authentication_data = Some(ret);
            } else {
                return Err(MqttError::InvalidFormat);
            }
            // It is a Protocol Error to include Authentication Data if there
            // is no Authentication Method.
            if self.properties.authentication_data.is_some() && self.properties.authentication_method.is_none() {
                return Err(MqttError::InvalidFormat);
            }
        }
        Ok(next_pos)
    }

    /// Decodes the payload from `start_pos`; returns the position after it.
    /// Fields decoded before an error keep their new values.
    fn decode_payload(&mut self, buf: &BytesMut, start_pos: usize) -> (r: Result<usize, MqttError>)
    {
        let ghost sv = bytes_mut_view(*buf);
        let s = bytes_mut_as_slice(buf);
        // Client Identifier (MUST)
        let (id, mut next_pos) = ClientId::try_from(buf, start_pos)?;
        self.client_id = id;
        let ghost c1 = self@;
        let ghost p1 = next_pos as int;
        if self.connect_flags.will_flag {
            // Will Properties
            let (will_property_length, np) = decode_variable_length(buf, next_pos)?;
            next_pos = np;
            let end_pos = next_pos + will_property_length;
            let ghost props0 = self.will_properties@;
            let ghost before_loop = self@;
            let ghost first = next_pos as int;
            assert(spec_connect_payload(sv, start_pos as int, old(self)@) == (match spec_connect_will(sv, p1, c1).1 {
                        Decoded::Done(_, p2) => spec_connect_credentials(sv, p2, spec_connect_will(sv, p1, c1).0),
                        _ => spec_connect_will(sv, p1, c1),
                    }));
            loop
                invariant
                    sv == bytes_mut_view(*buf),
                    sv == s@,
                    sv.len() <= isize::MAX,
                    next_pos <= sv.len(),
                    end_pos as int == first + will_property_length,
                    will_property_length < 268435456,
                    spec_will_properties(sv, first, end_pos as int, props0) == spec_will_properties(
                        sv,
                        next_pos as int,
                        end_pos as int,
                        self.will_properties@,
                    ),
                    !(spec_will_properties(sv, first, end_pos as int, props0).1 is Overrun),
                    self@ == (ConnectModel { will_properties: self.will_properties@, ..before_loop }),
                    spec_decode_variable_length(sv, p1) == Decoded::Done(will_property_length as int, first),
                    c1 == before_loop,
                    props0 == c1.will_properties,
                    spec_connect_payload(sv, start_pos as int, old(self)@) == (match spec_connect_will(sv, p1, c1).1 {
                        Decoded::Done(_, p2) => spec_connect_credentials(sv, p2, spec_connect_will(sv, p1, c1).0),
                        _ => spec_connect_will(sv, p1, c1),
                    }),
                ensures
                    next_pos == end_pos,
                decreases sv.len() - next_pos,
            {
                if next_pos == end_pos {
                    break;
                }
                if next_pos > end_pos {
                    return Err(MqttError::InvalidFormat);
                }
                let id = s[next_pos];
            if id == PROPERTY_WILL_DELAY_INTERVAL {
                    if self.will_properties.will_delay_interval.is_some() {
                        return Err(MqttError::InvalidFormat);
                    }
                    let (ret, np) = WillDelayInterval::try_from(buf, next_pos + 1)?;
                    next_pos = np;
                    self.will_properties.will_delay_interval = Some(ret);
                } else if id == PROPERTY_PAYLOAD_FORMAT_INDICATOR_ID {
                    if self.will_properties.payload_format_indicator.is_some() {
                        return Err(MqttError::InvalidFormat);
                    }
                    let (ret, np) = PayloadFormatIndicator::try_from(buf, next_pos + 1)?;
                    next_pos = np;
                    self.will_properties.payload_format_indicator = Some(ret);
                } else if id == PROPERTY_MESSAGE_EXPIRY_INTERVAL_ID {
                    if self.will_properties.message_expiry_interval.is_some() {
                        return Err(MqttError::InvalidFormat);
                    }
                    let (ret, np) = MessageExpiryInterval::try_from(buf, next_pos + 1)?;
                    next_pos = np;
                    self.will_properties.message_expiry_interval = Some(ret);
                } else if id == PROPERTY_CONTENT_TYPE_ID {
                    if self.will_properties.content_type.is_some() {
                        return Err(MqttError::InvalidFormat);
                    }
                    let (ret, np) = ContentType::try_from(buf, next_pos + 1)?;
                    next_pos = np;
                    self.will_properties.content_type = Some(ret);
                } else if id == PROPERTY_RESPONSE_TOPIC_ID {
                    if self.will_properties.response_topic.is_some() {
                        return Err(MqttError::InvalidFormat);
                    }
                    let (ret, np) = ResponseTopic::try_from(buf, next_pos + 1)?;
                    next_pos = np;
                    self.will_properties.response_topic = Some(ret);
                } else if id == PROPERTY_CORRELATION_DATA_ID {
                    if self.will_properties.correlation_data.is_some() {
                        return Err(MqttError::InvalidFormat);
                    }
                    let (ret, np) = CorrelationData::try_from(buf, next_pos + 1)?;
                    next_pos = np;
                    self.will_properties.correlation_data = Some(ret);
                } else if id == PROPERTY_USER_PROPERTY_ID {
                    let (ret, np) = UserProperty::try_from(buf, next_pos + 1)?;
                    next_pos = np;
                    push_user_property(&mut self.will_properties.user_properties, ret);
                } else {
                    return Err(MqttError::InvalidFormat);
                }
            }
            // Will Topic
            let (topic, np) = TopicName::try_from(buf, next_pos)?;
            self.will_topic = Some(topic);
            next_pos = np;
            // Will Payload
            let (payload, np) = WillPayload::try_from(buf, next_pos)?;
            self.will_payload = Some(payload);
            next_pos = np;
        }
        // User Name
        if self.connect_flags.user_name_flag {
            let (name, np) = UserName::try_from(buf, next_pos)?;
            self.username = Some(name);
            next_pos = np;
        }
        // Password
        if self.connect_flags.password_flag {
            let (pw, np) = Password::try_from(buf, next_pos)?;
            self.password = Some(pw);
            next_pos = np;
        }
        Ok(next_pos)
    }

    fn encode_fixed_header(&self) -> (r: Result<Bytes, MqttError>) {
        Err(MqttError::NotImplemented)
    }

    fn encode_variable_header(&self) -> (r: Result<Bytes, MqttError>) {
        Err(MqttError::NotImplemented)
    }

    fn encode_payload_chunk(&self) -> (r: Result<Option<Bytes>, MqttError>) {
        Err(MqttError::NotImplemented)
    }
}


/// Reason code of a CONNACK.
#[derive(Debug, PartialEq, Eq, Structural, Clone, Copy)]
pub enum ConnackReason {
    /* Success */
    Success,
    /* Must Close */
    UnspecifiedError,
    MalformedPacket,
    ProtocolError,
    ImplementationSpecificError,
    UnsupportedProtocolVersion,
    ClientIdentifierNotValid,
    BadUserNameOrPassword,
    NotAuthorized,
    ServerUnavailable,
    ServerBusy,
    Banned,
    BadAuthenticationMethod,
    TopicNameInvalid,
    PacketTooLarge,
    QuotaExceeded,
    PayloadFormatInvalid,
    RetainNotSupported,
    QoSNotSupported,
    UseAnotherServer,
    ServerMoved,
    ConnectionRateExceeded,
}

/// The byte that carries a CONNACK reason code.
pub open spec fn spec_reason_code(r: ConnackReason) -> u8 {
    match r {
        ConnackReason::Success => 0x00,
        ConnackReason::UnspecifiedError => 0x80,
        ConnackReason::MalformedPacket => 0x81,
        ConnackReason::ProtocolError => 0x82,
        ConnackReason::ImplementationSpecificError => 0x83,
        ConnackReason::UnsupportedProtocolVersion => 0x84,
        ConnackReason::ClientIdentifierNotValid => 0x85,
        ConnackReason::BadUserNameOrPassword => 0x86,
        ConnackReason::NotAuthorized => 0x87,
        ConnackReason::ServerUnavailable => 0x88,
        ConnackReason::ServerBusy => 0x89,
        ConnackReason::Banned => 0x8A,
        ConnackReason::BadAuthenticationMethod => 0x8C,
        ConnackReason::TopicNameInvalid => 0x90,
        ConnackReason::PacketTooLarge => 0x95,
        ConnackReason::QuotaExceeded => 0x97,
        ConnackReason::PayloadFormatInvalid => 0x99,
        ConnackReason::RetainNotSupported => 0x9A,
        ConnackReason::QoSNotSupported => 0x9B,
        ConnackReason::UseAnotherServer => 0x9C,
        ConnackReason::ServerMoved => 0x9D,
        ConnackReason::ConnectionRateExceeded => 0x9F,
    }
}

impl ConnackReason {
    pub fn default() -> (r: ConnackReason)
        ensures
            r == ConnackReason::Success,
    {
        ConnackReason::Success
    }

    /// The byte that carries this reason code.
    pub fn code(&self) -> (r: u8)
        ensures
            r == spec_reason_code(*self),
    {
        match self {
            ConnackReason::Success => 0x00,
            ConnackReason::UnspecifiedError => 0x80,
            ConnackReason::MalformedPacket => 0x81,
            ConnackReason::ProtocolError => 0x82,
            ConnackReason::ImplementationSpecificError => 0x83,
            ConnackReason::UnsupportedProtocolVersion => 0x84,
            ConnackReason::ClientIdentifierNotValid => 0x85,
            ConnackReason::BadUserNameOrPassword => 0x86,
            ConnackReason::NotAuthorized => 0x87,
            ConnackReason::ServerUnavailable => 0x88,
            ConnackReason::ServerBusy => 0x89,
            ConnackReason::Banned => 0x8A,
            ConnackReason::BadAuthenticationMethod => 0x8C,
            ConnackReason::TopicNameInvalid => 0x90,
            ConnackReason::PacketTooLarge => 0x95,
            ConnackReason::QuotaExceeded => 0x97,
            ConnackReason::PayloadFormatInvalid => 0x99,
            ConnackReason::RetainNotSupported => 0x9A,
            ConnackReason::QoSNotSupported => 0x9B,
            ConnackReason::UseAnotherServer => 0x9C,
            ConnackReason::ServerMoved => 0x9D,
            ConnackReason::ConnectionRateExceeded => 0x9F,
        }
    }
}

/// Big-endian bytes of a 16-bit integer.
pub open spec fn spec_be16(x: u16) -> Seq<u8> {
    seq![(x / 256) as u8, (x % 256) as u8]
}

/// Big-endian bytes of a 32-bit integer.
pub open spec fn spec_be32(x: u32) -> Seq<u8> {
    seq![(x / 16777216) as u8, ((x / 65536) % 256) as u8, ((x / 256) % 256) as u8, (x % 256) as u8]
}

fn be16_bytes(x: u16) -> (r: Vec<u8>)
    ensures
        r@ == spec_be16(x),
{
    let mut v: Vec<u8> = Vec::new();
    v.push((x / 256) as u8);
    v.push((x % 256) as u8);
    assert(v@ =~= spec_be16(x));
    v
}

fn be32_bytes(x: u32) -> (r: Vec<u8>)
    ensures
        r@ == spec_be32(x),
{
    let mut v: Vec<u8> = Vec::new();
    v.push((x / 16777216) as u8);
    v.push(((x / 65536) % 256) as u8);
    v.push(((x / 256) % 256) as u8);
    v.push((x % 256) as u8);
    assert(v@ =~= spec_be32(x));
    v
}

/// The properties of a CONNACK.
#[derive(Debug)]
pub struct ConnackProperties {
    pub session_expiry_interval: Option<u32>,
    pub receive_maximum: Option<u16>,
    pub maximum_qos: Option<u8>,
    pub retain_available: Option<bool>,
    pub maximum_packet_size: Option<u32>,
    pub assigned_client_identifier: Option<String>,
    pub topic_alias_maximum: Option<u16>,
    pub reason_string: Option<String>,
    pub user_properties: Vec<(String, String)>,
    pub wildcard_subscription_available: Option<u8>,
    pub subscription_identifiers_available: Option<u8>,
    pub shared_subscription_available: Option<u8>,
    pub server_keep_alive: Option<u16>,
    pub response_information: Option<String>,
    pub server_reference: Option<String>,
    pub authentication_method: Option<String>,
    pub authentication_data: Option<Bytes>,
}

/// The properties of a CONNACK as values.
pub struct ConnackPropertiesModel {
    pub session_expiry_interval: Option<u32>,
    pub receive_maximum: Option<u16>,
    pub maximum_qos: Option<u8>,
    pub retain_available: Option<bool>,
    pub maximum_packet_size: Option<u32>,
    pub assigned_client_identifier: Option<Seq<char>>,
    pub topic_alias_maximum: Option<u16>,
    pub reason_string: Option<Seq<char>>,
    pub user_properties: Seq<(Seq<char>, Seq<char>)>,
    pub wildcard_subscription_available: Option<u8>,
    pub subscription_identifiers_available: Option<u8>,
    pub shared_subscription_available: Option<u8>,
    pub server_keep_alive: Option<u16>,
    pub response_information: Option<Seq<char>>,
    pub server_reference: Option<Seq<char>>,
    pub authentication_method: Option<Seq<char>>,
    pub authentication_data: Option<Seq<u8>>,
}

pub open spec fn string_pair_view(p: (String, String)) -> (Seq<char>, Seq<char>) {
    (p.0@, p.1@)
}

/// The views of a sequence of string pairs.
pub open spec fn pairs_view(ups: Seq<(String, String)>) -> Seq<(Seq<char>, Seq<char>)> {
    ups.map_values(|p: (String, String)| string_pair_view(p))
}

/// Whether both strings of every pair fit a 16-bit length.
pub open spec fn pairs_fit(ps: Seq<(Seq<char>, Seq<char>)>) -> bool {
    forall|j: int| 0 <= j < ps.len() ==> fits_u16(#[trigger] ps[j].0) && fits_u16(ps[j].1)
}

proof fn lemma_not_pairs_fit(ps: Seq<(Seq<char>, Seq<char>)>, i: int)
    requires
        0 <= i < ps.len(),
        !fits_u16(ps[i].0) || !fits_u16(ps[i].1),
    ensures
        !pairs_fit(ps),
{
}

impl View for ConnackProperties {
    type V = ConnackPropertiesModel;

    open spec fn view(&self) -> ConnackPropertiesModel {
        ConnackPropertiesModel {
            session_expiry_interval: self.session_expiry_interval,
            receive_maximum: self.receive_maximum,
            maximum_qos: self.maximum_qos,
            retain_available: self.retain_available,
            maximum_packet_size: self.maximum_packet_size,
            assigned_client_identifier: opt_view(self.assigned_client_identifier),
            topic_alias_maximum: self.topic_alias_maximum,
            reason_string: opt_view(self.reason_string),
            user_properties: pairs_view(self.user_properties@),
            wildcard_subscription_available: self.wildcard_subscription_available,
            subscription_identifiers_available: self.subscription_identifiers_available,
            shared_subscription_available: self.shared_subscription_available,
            server_keep_alive: self.server_keep_alive,
            response_information: opt_view(self.response_information),
            server_reference: opt_view(self.server_reference),
            authentication_method: opt_view(self.authentication_method),
            authentication_data: match self.authentication_data {
                Some(b) => Some(bytes_view(b)),
                None => None,
            },
        }
    }
}

pub open spec fn spec_empty_connack_properties() -> ConnackPropertiesModel {
    ConnackPropertiesModel {
        session_expiry_interval: None,
        receive_maximum: None,
        maximum_qos: None,
        retain_available: None,
        maximum_packet_size: None,
        assigned_client_identifier: None,
        topic_alias_maximum: None,
        reason_string: None,
        user_properties: Seq::empty(),
        wildcard_subscription_available: None,
        subscription_identifiers_available: None,
        shared_subscription_available: None,
        server_keep_alive: None,
        response_information: None,
        server_reference: None,
        authentication_method: None,
        authentication_data: None,
    }
}

/// An identifier byte followed by the encoding of the value, or nothing.
pub open spec fn spec_opt_field<T>(o: Option<T>, id: u8, f: spec_fn(T) -> Seq<u8>) -> Seq<u8> {
    match o {
        Some(v) => seq![id] + f(v),
        None => Seq::empty(),
    }
}

/// The UTF-8 bytes of a string prefixed by their length as 16 bits.
pub open spec fn spec_prefixed_string(c: Seq<char>) -> Seq<u8> {
    spec_be16(encode_utf8(c).len() as u16) + encode_utf8(c)
}

/// One User Property of a CONNACK: identifier 0x26, key, value.
pub open spec fn spec_user_property_bytes(p: (Seq<char>, Seq<char>)) -> Seq<u8> {
    seq![0x26u8] + spec_prefixed_string(p.0) + spec_prefixed_string(p.1)
}

/// The User Properties of a CONNACK, in order.
pub open spec fn spec_user_properties_bytes(ps: Seq<(Seq<char>, Seq<char>)>) -> Seq<u8>
    decreases ps.len(),
{
    if ps.len() == 0 {
        Seq::empty()
    } else {
        spec_user_properties_bytes(ps.drop_last()) + spec_user_property_bytes(ps.last())
    }
}

/// Whether a string's UTF-8 bytes fit a 16-bit length.
pub open spec fn fits_u16(c: Seq<char>) -> bool {
    encode_utf8(c).len() <= u16::MAX
}

/// The bytes that the `k`-th field of the CONNACK properties contributes, in
/// the order the fields are declared (Assigned Client Identifier, Reason
/// String and Authentication Data are written without a length).
pub open spec fn spec_connack_field(p: ConnackPropertiesModel, k: int) -> Seq<u8> {
    if k == 0 {
        spec_opt_field(p.session_expiry_interval, 0x11, |c: u32| spec_be32(c))
    } else if k == 1 {
        spec_opt_field(p.receive_maximum, 0x21, |c: u16| spec_be16(c))
    } else if k == 2 {
        spec_opt_field(p.maximum_qos, 0x24, |c: u8| seq![c])
    } else if k == 3 {
        spec_opt_field(p.retain_available, 0x25, |c: bool| seq![spec_bool_byte(c)])
    } else if k == 4 {
        spec_opt_field(p.maximum_packet_size, 0x27, |c: u32| spec_be32(c))
    } else if k == 5 {
        spec_opt_field(p.assigned_client_identifier, 0x12, |c: Seq<char>| encode_utf8(c))
    } else if k == 6 {
        spec_opt_field(p.topic_alias_maximum, 0x22, |c: u16| spec_be16(c))
    } else if k == 7 {
        spec_opt_field(p.reason_string, 0x1f, |c: Seq<char>| encode_utf8(c))
    } else if k == 8 {
        spec_user_properties_bytes(p.user_properties)
    } else if k == 9 {
        spec_opt_field(p.wildcard_subscription_available, 0x28, |c: u8| seq![c])
    } else if k == 10 {
        spec_opt_field(p.subscription_identifiers_available, 0x29, |c: u8| seq![c])
    } else if k == 11 {
        spec_opt_field(p.shared_subscription_available, 0x2a, |c: u8| seq![c])
    } else if k == 12 {
        spec_opt_field(p.server_keep_alive, 0x13, |c: u16| spec_be16(c))
    } else if k == 13 {
        spec_opt_field(p.response_information, 0x1a, |c: Seq<char>| spec_prefixed_string(c))
    } else if k == 14 {
        spec_opt_field(p.server_reference, 0x1c, |c: Seq<char>| spec_prefixed_string(c))
    } else if k == 15 {
        spec_opt_field(p.authentication_method, 0x15, |c: Seq<char>| spec_prefixed_string(c))
    } else {
        spec_opt_field(p.authentication_data, 0x16, |c: Seq<u8>| c)
    }
}

/// The bytes of the first `k` fields of the CONNACK properties.
pub open spec fn spec_connack_prefix(p: ConnackPropertiesModel, k: nat) -> Seq<u8>
    decreases k,
{
    if k == 0 {
        Seq::empty()
    } else {
        spec_connack_prefix(p, (k - 1) as nat) + spec_connack_field(p, k - 1)
    }
}

/// The property bytes of a CONNACK: all of its seventeen fields in order.
pub open spec fn spec_connack_properties_raw(p: ConnackPropertiesModel) -> Seq<u8> {
    spec_connack_prefix(p, 17)
}

proof fn lemma_user_properties_bytes_len(ps: Seq<(Seq<char>, Seq<char>)>, i: int)
    requires
        0 <= i <= ps.len(),
    ensures
        spec_user_properties_bytes(ps.take(i)).len() <= spec_user_properties_bytes(ps).len(),
    decreases ps.len(),
{
    if i < ps.len() {
        assert(ps.drop_last().take(i) =~= ps.take(i));
        lemma_user_properties_bytes_len(ps.drop_last(), i);
    } else {
        assert(ps.take(i) =~= ps);
    }
}

/// Whether every length that the CONNACK properties write fits 16 bits.
pub open spec fn connack_lengths_fit(p: ConnackPropertiesModel) -> bool {
    &&& pairs_fit(p.user_properties)
    &&& (p.response_information matches Some(c) ==> fits_u16(c))
    &&& (p.server_reference matches Some(c) ==> fits_u16(c))
    &&& (p.authentication_method matches Some(c) ==> fits_u16(c))
}

/// The encoded CONNACK properties; refused when a length does not fit 16
/// bits.
pub open spec fn spec_connack_properties_bytes(p: ConnackPropertiesModel) -> Result<Seq<u8>, MqttError> {
    if connack_lengths_fit(p) {
        Ok(spec_connack_properties_raw(p))
    } else {
        Err(MqttError::InvalidFormat)
    }
}


fn append(buf: &mut BytesMut, part: &[u8], Ghost(limit): Ghost<int>)
    requires
        bytes_mut_view(*old(buf)).len() + part@.len() <= limit,
        limit <= isize::MAX,
    ensures
        bytes_mut_view(*final(buf)) == bytes_mut_view(*old(buf)) + part@,
{
    bytes_mut_extend_from_slice(buf, part);
}

fn append_u8(buf: &mut BytesMut, b: u8, Ghost(limit): Ghost<int>)
    requires
        bytes_mut_view(*old(buf)).len() + 1 <= limit,
        limit <= isize::MAX,
    ensures
        bytes_mut_view(*final(buf)) == bytes_mut_view(*old(buf)) + seq![b],
{
    bytes_mut_put_u8(buf, b);
    assert(bytes_mut_view(*buf) =~= bytes_mut_view(*old(buf)) + seq![b]);
}

fn string_bytes(c: &String) -> (r: &[u8])
    ensures
        r@ == encode_utf8(c@),
{
    c.as_str().as_bytes()
}

fn put_opt_u32(buf: &mut BytesMut, o: Option<u32>, id: u8, Ghost(lim): Ghost<int>)
    requires
        bytes_mut_view(*old(buf)).len() + spec_opt_field(o, id, |c: u32| spec_be32(c)).len() <= lim,
        lim <= isize::MAX,
    ensures
        bytes_mut_view(*final(buf)) == bytes_mut_view(*old(buf)) + spec_opt_field(o, id, |c: u32| spec_be32(c)),
{
    if let Some(c) = o {
        append_u8(buf, id, Ghost(lim));
        append(buf, be32_bytes(c).as_slice(), Ghost(lim));
        assert(bytes_mut_view(*buf) =~= bytes_mut_view(*old(buf)) + spec_opt_field(o, id, |c: u32| spec_be32(c)));
    } else {
        assert(bytes_mut_view(*buf) =~= bytes_mut_view(*old(buf)) + spec_opt_field(o, id, |c: u32| spec_be32(c)));
    }
}

fn put_opt_u16(buf: &mut BytesMut, o: Option<u16>, id: u8, Ghost(lim): Ghost<int>)
    requires
        bytes_mut_view(*old(buf)).len() + spec_opt_field(o, id, |c: u16| spec_be16(c)).len() <= lim,
        lim <= isize::MAX,
    ensures
        bytes_mut_view(*final(buf)) == bytes_mut_view(*old(buf)) + spec_opt_field(o, id, |c: u16| spec_be16(c)),
{
    if let Some(c) = o {
        append_u8(buf, id, Ghost(lim));
        append(buf, be16_bytes(c).as_slice(), Ghost(lim));
        assert(bytes_mut_view(*buf) =~= bytes_mut_view(*old(buf)) + spec_opt_field(o, id, |c: u16| spec_be16(c)));
    } else {
        assert(bytes_mut_view(*buf) =~= bytes_mut_view(*old(buf)) + spec_opt_field(o, id, |c: u16| spec_be16(c)));
    }
}

fn put_opt_u8(buf: &mut BytesMut, o: Option<u8>, id: u8, Ghost(lim): Ghost<int>)
    requires
        bytes_mut_view(*old(buf)).len() + spec_opt_field(o, id, |c: u8| seq![c]).len() <= lim,
        lim <= isize::MAX,
    ensures
        bytes_mut_view(*final(buf)) == bytes_mut_view(*old(buf)) + spec_opt_field(o, id, |c: u8| seq![c]),
{
    if let Some(c) = o {
        append_u8(buf, id, Ghost(lim));
        append_u8(buf, c, Ghost(lim));
        assert(bytes_mut_view(*buf) =~= bytes_mut_view(*old(buf)) + spec_opt_field(o, id, |c: u8| seq![c]));
    } else {
        assert(bytes_mut_view(*buf) =~= bytes_mut_view(*old(buf)) + spec_opt_field(o, id, |c: u8| seq![c]));
    }
}

fn put_opt_bool(buf: &mut BytesMut, o: Option<bool>, id: u8, Ghost(lim): Ghost<int>)
    requires
        bytes_mut_view(*old(buf)).len() + spec_opt_field(o, id, |c: bool| seq![spec_bool_byte(c)]).len() <= lim,
        lim <= isize::MAX,
    ensures
        bytes_mut_view(*final(buf)) == bytes_mut_view(*old(buf)) + spec_opt_field(o, id, |c: bool| seq![spec_bool_byte(c)]),
{
    if let Some(c) = o {
        append_u8(buf, id, Ghost(lim));
        append(buf, bool_to_bytes(c), Ghost(lim));
        assert(bytes_mut_view(*buf) =~= bytes_mut_view(*old(buf)) + spec_opt_field(o, id, |c: bool| seq![spec_bool_byte(c)]));
    } else {
        assert(bytes_mut_view(*buf) =~= bytes_mut_view(*old(buf)) + spec_opt_field(o, id, |c: bool| seq![spec_bool_byte(c)]));
    }
}

fn put_opt_raw_string(buf: &mut BytesMut, o: &Option<String>, id: u8, Ghost(lim): Ghost<int>)
    requires
        bytes_mut_view(*old(buf)).len() + spec_opt_field(opt_view(*o), id, |c: Seq<char>| encode_utf8(c)).len() <= lim,
        lim <= isize::MAX,
    ensures
        bytes_mut_view(*final(buf)) == bytes_mut_view(*old(buf)) + spec_opt_field(opt_view(*o), id, |c: Seq<char>| encode_utf8(c)),
{
    if let Some(c) = o {
        append_u8(buf, id, Ghost(lim));
        append(buf, string_bytes(c), Ghost(lim));
        assert(bytes_mut_view(*buf) =~= bytes_mut_view(*old(buf)) + spec_opt_field(opt_view(*o), id, |c: Seq<char>| encode_utf8(c)));
    } else {
        assert(bytes_mut_view(*buf) =~= bytes_mut_view(*old(buf)) + spec_opt_field(opt_view(*o), id, |c: Seq<char>| encode_utf8(c)));
    }
}

fn put_opt_prefixed_string(buf: &mut BytesMut, o: &Option<String>, id: u8, Ghost(lim): Ghost<int>) -> (r: Result<(), MqttError>)
    requires
        bytes_mut_view(*old(buf)).len() + spec_opt_field(opt_view(*o), id, |c: Seq<char>| spec_prefixed_string(c)).len() <= lim,
        lim <= isize::MAX,
    ensures
        r is Ok <==> (opt_view(*o) matches Some(c) ==> fits_u16(c)),
        r is Err ==> r == Err::<(), MqttError>(MqttError::InvalidFormat),
        r is Ok ==> bytes_mut_view(*final(buf)) == bytes_mut_view(*old(buf)) + spec_opt_field(opt_view(*o), id, |c: Seq<char>| spec_prefixed_string(c)),
{
    if let Some(c) = o {
        let l = string_bytes(c).len();
        if l > 65535 {
            return Err(MqttError::InvalidFormat);
        }
        append_u8(buf, id, Ghost(lim));
        append(buf, be16_bytes(l as u16).as_slice(), Ghost(lim));
        append(buf, string_bytes(c), Ghost(lim));
        assert(bytes_mut_view(*buf) =~= bytes_mut_view(*old(buf)) + spec_opt_field(opt_view(*o), id, |c: Seq<char>| spec_prefixed_string(c)));
    } else {
        assert(bytes_mut_view(*buf) =~= bytes_mut_view(*old(buf)) + spec_opt_field(opt_view(*o), id, |c: Seq<char>| spec_prefixed_string(c)));
    }
    Ok(())
}

fn put_opt_bytes(buf: &mut BytesMut, o: &Option<Bytes>, id: u8, Ghost(lim): Ghost<int>)
    requires
        bytes_mut_view(*old(buf)).len() + spec_opt_field(
            match *o { Some(b) => Some(bytes_view(b)), None => None },
            id,
            |c: Seq<u8>| c,
        ).len() <= lim,
        lim <= isize::MAX,
    ensures
        bytes_mut_view(*final(buf)) == bytes_mut_view(*old(buf)) + spec_opt_field(
            match *o { Some(b) => Some(bytes_view(b)), None => None },
            id,
            |c: Seq<u8>| c,
        ),
{
    if let Some(c) = o {
        append_u8(buf, id, Ghost(lim));
        append(buf, bytes_as_slice(c), Ghost(lim));
        assert(bytes_mut_view(*buf) =~= bytes_mut_view(*old(buf)) + spec_opt_field(
            match *o { Some(b) => Some(bytes_view(b)), None => None },
            id,
            |c: Seq<u8>| c,
        ));
    } else {
        assert(bytes_mut_view(*buf) =~= bytes_mut_view(*old(buf)) + spec_opt_field(
            match *o { Some(b) => Some(bytes_view(b)), None => None },
            id,
            |c: Seq<u8>| c,
        ));
    }
}

fn put_user_properties(buf: &mut BytesMut, ups: &Vec<(String, String)>, Ghost(lim): Ghost<int>) -> (r: Result<(), MqttError>)
    requires
        bytes_mut_view(*old(buf)).len() + spec_user_properties_bytes(pairs_view(ups@)).len() <= lim,
        lim <= isize::MAX,
    ensures
        r is Ok <==> pairs_fit(pairs_view(ups@)),
        r is Err ==> r == Err::<(), MqttError>(MqttError::InvalidFormat),
        r is Ok ==> bytes_mut_view(*final(buf)) == bytes_mut_view(*old(buf)) + spec_user_properties_bytes(pairs_view(ups@)),
{
    let ghost ps = pairs_view(ups@);
    let ghost start = bytes_mut_view(*buf);
    let mut i: usize = 0;
    while i < ups.len()
        invariant
            ps == pairs_view(ups@),
            lim <= isize::MAX,
            start.len() + spec_user_properties_bytes(ps).len() <= lim,
            0 <= i <= ps.len(),
            ps.len() == ups@.len(),
            bytes_mut_view(*buf) == start + spec_user_properties_bytes(ps.take(i as int)),
            pairs_fit(ps.take(i as int)),
        decreases ps.len() - i,
    {
        let v = &ups[i];
        assert(string_pair_view(*v) == ps[i as int]);
        let kl = string_bytes(&v.0).len();
        if kl > 65535 {
            assert(!fits_u16(ps[i as int].0));
            proof {
                lemma_not_pairs_fit(ps, i as int);
            }
            return Err(MqttError::InvalidFormat);
        }
        let vl = string_bytes(&v.1).len();
        if vl > 65535 {
            assert(!fits_u16(ps[i as int].1));
            proof {
                lemma_not_pairs_fit(ps, i as int);
            }
            return Err(MqttError::InvalidFormat);
        }
        assert(fits_u16(ps[i as int].0) && fits_u16(ps[i as int].1));
        proof {
            assert(ps.take(i + 1).drop_last() =~= ps.take(i as int));
            assert(ps.take(i + 1).last() == ps[i as int]);
            lemma_user_properties_bytes_len(ps, i + 1);
        }
        append_u8(buf, 0x26, Ghost(lim));
        append(buf, be16_bytes(kl as u16).as_slice(), Ghost(lim));
        append(buf, string_bytes(&v.0), Ghost(lim));
        append(buf, be16_bytes(vl as u16).as_slice(), Ghost(lim));
        append(buf, string_bytes(&v.1), Ghost(lim));
        proof {
            lemma_pairs_fit_extend(ps, i as int);
        }
        i += 1;
        assert(bytes_mut_view(*buf) =~= start + spec_user_properties_bytes(ps.take(i as int)));
    }
    assert(ps.take(i as int) =~= ps);
    Ok(())
}

#[verifier::spinoff_prover]
proof fn lemma_pairs_fit_extend(ps: Seq<(Seq<char>, Seq<char>)>, i: int)
    requires
        0 <= i < ps.len(),
        pairs_fit(ps.take(i)),
        fits_u16(ps[i].0) && fits_u16(ps[i].1),
    ensures
        pairs_fit(ps.take(i + 1)),
{
    assert(ps.take(i + 1) =~= ps.take(i).push(ps[i]));
    assert forall|j: int| 0 <= j < i + 1 implies fits_u16(#[trigger] ps.take(i + 1)[j].0) && fits_u16(ps.take(i + 1)[j].1) by {
        if j < i {
            assert(ps.take(i + 1)[j] == ps.take(i)[j]);
        } else {
            assert(ps.take(i + 1)[j] == ps[i]);
        }
    }
}

impl ConnackProperties {
    pub fn default() -> (r: ConnackProperties)
        ensures
            r@ == spec_empty_connack_properties(),
    {
        let r = ConnackProperties {
            session_expiry_interval: None,
            receive_maximum: None,
            maximum_qos: None,
            retain_available: None,
            maximum_packet_size: None,
            assigned_client_identifier: None,
            topic_alias_maximum: None,
            reason_string: None,
            user_properties: Vec::new(),
            wildcard_subscription_available: None,
            subscription_identifiers_available: None,
            shared_subscription_available: None,
            server_keep_alive: None,
            response_information: None,
            server_reference: None,
            authentication_method: None,
            authentication_data: None,
        };
        assert(r@.user_properties =~= Seq::<(Seq<char>, Seq<char>)>::empty());
        r
    }

    /// The encoded properties; refused when a string does not fit a 16-bit
    /// length.
    #[verifier::rlimit(40)]
    pub fn build_bytes(&mut self) -> (r: Result<Bytes, MqttError>)
        requires
            spec_connack_properties_raw(old(self)@).len() <= isize::MAX,
        ensures
            *final(self) == *old(self),
            match spec_connack_properties_bytes(old(self)@) {
                Ok(b) => r matches Ok(x) && bytes_view(x) == b,
                Err(e) => r == Err::<Bytes, MqttError>(e),
            },
    {
        let ghost p = self@;
        let ghost lim = spec_connack_properties_raw(p).len() as int;
        proof {
            reveal_with_fuel(spec_connack_prefix, 18);
        }
        let mut buf = bytes_mut_new();
        assert(bytes_mut_view(buf) =~= spec_connack_prefix(p, 0));
        put_opt_u32(&mut buf, self.session_expiry_interval, 0x11, Ghost(lim));
        put_opt_u16(&mut buf, self.receive_maximum, 0x21, Ghost(lim));
        put_opt_u8(&mut buf, self.maximum_qos, 0x24, Ghost(lim));
        put_opt_bool(&mut buf, self.retain_available, 0x25, Ghost(lim));
        put_opt_u32(&mut buf, self.maximum_packet_size, 0x27, Ghost(lim));
        assert(bytes_mut_view(buf) == spec_connack_prefix(p, 5));
        put_opt_raw_string(&mut buf, &self.assigned_client_identifier, 0x12, Ghost(lim));
        put_opt_u16(&mut buf, self.topic_alias_maximum, 0x22, Ghost(lim));
        put_opt_raw_string(&mut buf, &self.reason_string, 0x1f, Ghost(lim));
        assert(bytes_mut_view(buf) == spec_connack_prefix(p, 8));
        let r = put_user_properties(&mut buf, &self.user_properties, Ghost(lim));
        if r.is_err() {
            return Err(MqttError::InvalidFormat);
        }
        assert(bytes_mut_view(buf) == spec_connack_prefix(p, 9));
        put_opt_u8(&mut buf, self.wildcard_subscription_available, 0x28, Ghost(lim));
        put_opt_u8(&mut buf, self.subscription_identifiers_available, 0x29, Ghost(lim));
        put_opt_u8(&mut buf, self.shared_subscription_available, 0x2a, Ghost(lim));
        put_opt_u16(&mut buf, self.server_keep_alive, 0x13, Ghost(lim));
        assert(bytes_mut_view(buf) == spec_connack_prefix(p, 13));
        let r = put_opt_prefixed_string(&mut buf, &self.response_information, 0x1a, Ghost(lim));
        if r.is_err() {
            return Err(MqttError::InvalidFormat);
        }
        let r = put_opt_prefixed_string(&mut buf, &self.server_reference, 0x1c, Ghost(lim));
        if r.is_err() {
            return Err(MqttError::InvalidFormat);
        }
        let r = put_opt_prefixed_string(&mut buf, &self.authentication_method, 0x15, Ghost(lim));
        if r.is_err() {
            return Err(MqttError::InvalidFormat);
        }
        assert(bytes_mut_view(buf) == spec_connack_prefix(p, 16));
        put_opt_bytes(&mut buf, &self.authentication_data, 0x16, Ghost(lim));
        assert(bytes_mut_view(buf) == spec_connack_prefix(p, 17));
        Ok(bytes_mut_freeze(buf))
    }
}


/// A CONNACK packet.
#[derive(Debug)]
pub struct Connack {
    pub remaining_length: usize,
    pub acknowledge_flag: bool,
    pub session_present: bool,
    pub connect_reason: ConnackReason,
    pub connack_properties: Option<ConnackProperties>,
}

/// A CONNACK packet as values.
pub struct ConnackModel {
    pub remaining_length: usize,
    pub acknowledge_flag: bool,
    pub session_present: bool,
    pub connect_reason: ConnackReason,
    pub connack_properties: Option<ConnackPropertiesModel>,
}

impl View for Connack {
    type V = ConnackModel;

    open spec fn view(&self) -> ConnackModel {
        ConnackModel {
            remaining_length: self.remaining_length,
            acknowledge_flag: self.acknowledge_flag,
            session_present: self.session_present,
            connect_reason: self.connect_reason,
            connack_properties: opt_view(self.connack_properties),
        }
    }
}

/// The encoded properties of a CONNACK: empty when it has none.
pub open spec fn spec_connack_property_section(c: ConnackModel) -> Result<Seq<u8>, MqttError> {
    match c.connack_properties {
        Some(p) => spec_connack_properties_bytes(p),
        None => Ok(Seq::empty()),
    }
}

/// The encoded CONNACK: packet type 0x20, the remaining length, the session
/// present flag, the reason code, the property length and the properties.
pub open spec fn spec_connack_bytes(c: ConnackModel) -> Result<Seq<u8>, MqttError> {
    match spec_connack_property_section(c) {
        Err(e) => Err(e),
        Ok(pb) => {
            let enc = spec_encode_variable_bytes(pb.len());
            let rl = spec_encode_variable_bytes(2 + enc.len() + pb.len());
            Ok(
                seq![0x20u8] + rl + seq![
                    if c.session_present {
                        0x01u8
                    } else {
                        0x00u8
                    },
                ] + seq![spec_reason_code(c.connect_reason)] + enc + pb,
            )
        },
    }
}

/// The length of the CONNACK property bytes, written or not.
pub open spec fn spec_connack_raw_len(c: ConnackModel) -> int {
    match c.connack_properties {
        Some(p) => spec_connack_properties_raw(p).len() as int,
        None => 0,
    }
}

impl Connack {
    /// Encodes the CONNACK.
    pub fn build_bytes(&mut self) -> (r: Result<Bytes, MqttError>)
        requires
            spec_connack_raw_len(old(self)@) <= isize::MAX - 16,
        ensures
            final(self)@ == old(self)@,
            match spec_connack_bytes(old(self)@) {
                Ok(b) => r matches Ok(x) && bytes_view(x) == b,
                Err(e) => r == Err::<Bytes, MqttError>(e),
            },
    {
        let ghost c = self@;
        let mut properties_len: usize = 0;
        let mut properties_bytes: Option<Bytes> = None;
        match &mut self.connack_properties {
            Some(connack_properties) => {
                let b = connack_properties.build_bytes()?;
                properties_len = bytes_as_slice(&b).len();
                properties_bytes = Some(b);
            },
            None => {},
        }
        assert(self@ == c);
        let ghost pb = match spec_connack_property_section(c) {
            Ok(pb) => pb,
            Err(_) => Seq::<u8>::empty(),
        };
        assert(spec_connack_property_section(c) is Ok);
        assert(properties_len == pb.len());
        // remain length is properties only.
        let encoded_properties_len = encode_variable_bytes(properties_len);
        let mut buf = bytes_mut_with_capacity(3 + encoded_properties_len.len() + properties_len);
        let remain_length = encode_variable_bytes(2 + encoded_properties_len.len() + properties_len);
        let ghost lim = isize::MAX as int;
        /* Fixed header */
        append_u8(&mut buf, 0b00100000, Ghost(lim));
        /* remaining length */
        append(&mut buf, remain_length.as_slice(), Ghost(lim));
        /* Variable header */
        if self.session_present {
            append_u8(&mut buf, 0x01, Ghost(lim));
        } else {
            append_u8(&mut buf, 0x00, Ghost(lim));
        }
        // Connect Reason Code
        append_u8(&mut buf, self.connect_reason.code(), Ghost(lim));
        /* Properties length */
        append(&mut buf, encoded_properties_len.as_slice(), Ghost(lim));
        /* Properties */
        match &properties_bytes {
            Some(b) => {
                append(&mut buf, bytes_as_slice(b), Ghost(lim));
            },
            None => {},
        }
        assert(bytes_mut_view(buf) =~= spec_connack_bytes(c)->Ok_0);
        Ok(bytes_mut_freeze(buf))
    }
}

/// Law: an encoded CONNACK whose properties are shorter than 2^28 - 7 bytes
/// starts with the CONNACK type byte; its remaining length announces exactly
/// the bytes that follow it; then come the session-present flag and the
/// reason code; and the property length announces exactly the property
/// bytes that close the packet.
pub proof fn law_connack_lengths(c: ConnackModel)
    requires
        spec_connack_bytes(c) is Ok,
        spec_connack_property_section(c)->Ok_0.len() < 268435456 - 7,
    ensures
        ({
            let b = spec_connack_bytes(c)->Ok_0;
            let pb = spec_connack_property_section(c)->Ok_0;
            &&& b[0] == 0x20u8
            &&& spec_decode_variable_length(b, 1) matches Decoded::Done(n, after)
            &&& n == b.len() - after
            &&& b[after] == (if c.session_present { 0x01u8 } else { 0x00u8 })
            &&& b[after + 1] == spec_reason_code(c.connect_reason)
            &&& spec_decode_variable_length(b, after + 2) == Decoded::Done(pb.len() as int, b.len() - pb.len())
            &&& b.subrange(b.len() - pb.len(), b.len() as int) == pb
        }),
{
    let b = spec_connack_bytes(c)->Ok_0;
    let pb = spec_connack_property_section(c)->Ok_0;
    let enc = spec_encode_variable_bytes(pb.len());
    lemma_encode_variable_len(pb.len(), 4);
    let rl = spec_encode_variable_bytes(2 + enc.len() + pb.len());
    lemma_encode_variable_len((2 + enc.len() + pb.len()) as nat, 4);
    let flag: u8 = if c.session_present { 0x01u8 } else { 0x00u8 };
    let tail = seq![flag] + seq![spec_reason_code(c.connect_reason)] + enc + pb;
    assert(b == seq![0x20u8] + rl + tail) by {
        assert(b =~= seq![0x20u8] + rl + tail);
    }
    law_variable_length_roundtrip((2 + enc.len() + pb.len()) as nat, tail);
    assert(b.skip(1) =~= rl + tail);
    lemma_decode_variable_length_skip(b, 1);
    law_variable_length_roundtrip(pb.len(), pb);
    let at: int = 1 + rl.len() as int + 2;
    assert(b[1 + rl.len() as int] == flag);
    assert(b[1 + rl.len() as int + 1] == spec_reason_code(c.connect_reason));
    assert(b.skip(at) =~= enc + pb);
    lemma_decode_variable_length_skip(b, at);
    assert(b.subrange(b.len() - pb.len(), b.len() as int) =~= pb);
}

/// Reading a variable byte integer at `k` is reading it at 0 of the bytes
/// from `k` on, shifted by `k`.
proof fn lemma_decode_variable_length_skip(s: Seq<u8>, k: int)
    requires
        0 <= k <= s.len(),
    ensures
        spec_decode_variable_length(s, k) == match spec_decode_variable_length(s.skip(k), 0) {
            Decoded::Done(v, p) => Decoded::Done(v, p + k),
            Decoded::Failed(e) => Decoded::Failed(e),
            Decoded::Overrun => Decoded::Overrun,
        },
{
    reveal_with_fuel(spec_variable_length_from, 5);
}


/// A DISCONNECT packet.
#[derive(Debug)]
pub struct Disconnect {
    remain_length: usize,
}

impl View for Disconnect {
    type V = usize;

    closed spec fn view(&self) -> usize {
        self.remain_length
    }
}

impl Disconnect {
    /// The remaining length of the packet.
    pub(crate) fn remain_length(&self) -> (r: usize)
        ensures
            r == self@,
    {
        self.remain_length
    }

    pub fn new(remain_length: usize) -> (r: Self)
        ensures
            r@ == remain_length,
    {
        Self { remain_length: remain_length }
    }
}

/// A control packet of MQTT.
#[derive(Debug)]
pub enum ControlPacket {
    CONNECT(Connect),
    DISCONNECT(Disconnect),
    CONNACK(Connack),
    PUBLISH(Publish),
    UNDEFINED,
}

/// A control packet as values.
pub enum ControlPacketModel {
    CONNECT(ConnectModel),
    DISCONNECT(usize),
    CONNACK(ConnackModel),
    PUBLISH(PublishModel),
    UNDEFINED,
}

impl View for ControlPacket {
    type V = ControlPacketModel;

    open spec fn view(&self) -> ControlPacketModel {
        match self {
            ControlPacket::CONNECT(p) => ControlPacketModel::CONNECT(p@),
            ControlPacket::DISCONNECT(p) => ControlPacketModel::DISCONNECT(p@),
            ControlPacket::CONNACK(p) => ControlPacketModel::CONNACK(p@),
            ControlPacket::PUBLISH(p) => ControlPacketModel::PUBLISH(p@),
            ControlPacket::UNDEFINED => ControlPacketModel::UNDEFINED,
        }
    }
}

impl ControlPacket {
    pub fn default() -> (r: ControlPacket)
        ensures
            r@ == ControlPacketModel::UNDEFINED,
    {
        ControlPacket::UNDEFINED
    }
}

/// The variable header of a packet from `start`: CONNECT and PUBLISH decode
/// their own; the other packets are not implemented.
pub open spec fn spec_packet_variable_header(v: ControlPacketModel, s: Seq<u8>, start: int) -> (
    ControlPacketModel,
    Decoded<()>,
) {
    match v {
        ControlPacketModel::CONNECT(c) => {
            let (c2, r) = spec_connect_variable_header(s, start, c);
            (ControlPacketModel::CONNECT(c2), r)
        },
        ControlPacketModel::PUBLISH(p) => {
            let (p2, r) = spec_publish_variable_header(s, start, p);
            (ControlPacketModel::PUBLISH(p2), r)
        },
        _ => (v, Decoded::Failed(MqttError::NotImplemented)),
    }
}

/// The payload of a packet from `start`: CONNECT decodes its own, PUBLISH
/// consumes nothing; the other packets are not implemented.
pub open spec fn spec_packet_payload(v: ControlPacketModel, s: Seq<u8>, start: int) -> (
    ControlPacketModel,
    Decoded<()>,
) {
    match v {
        ControlPacketModel::CONNECT(c) => {
            let (c2, r) = spec_connect_payload(s, start, c);
            (ControlPacketModel::CONNECT(c2), r)
        },
        ControlPacketModel::PUBLISH(p) => (v, Decoded::Done((), 0)),
        _ => (v, Decoded::Failed(MqttError::NotImplemented)),
    }
}

impl MqttPacket for ControlPacket {
    /// CONNECT and PUBLISH decode their own variable header; the other
    /// packets are not implemented.
    open spec fn spec_decode_variable_header(v: ControlPacketModel, s: Seq<u8>, start: int) -> (
        ControlPacketModel,
        Decoded<()>,
    ) {
        spec_packet_variable_header(v, s, start)
    }

    /// CONNECT and PUBLISH decode their own payload; the other packets are
    /// not implemented.
    open spec fn spec_decode_payload(v: ControlPacketModel, s: Seq<u8>, start: int) -> (
        ControlPacketModel,
        Decoded<()>,
    ) {
        spec_packet_payload(v, s, start)
    }

    fn decode_payload(&mut self, buf: &BytesMut, start_pos: usize) -> (r: Result<usize, MqttError>) {
        match self {
            ControlPacket::CONNECT(p) => p.decode_payload(buf, start_pos),
            ControlPacket::PUBLISH(p) => p.decode_payload(buf, start_pos),
            _ => Err(MqttError::NotImplemented),
        }
    }

    fn decode_variable_header(&mut self, buf: &BytesMut, start_pos: usize) -> (r: Result<usize, MqttError>) {
        match self {
            ControlPacket::CONNECT(p) => p.decode_variable_header(buf, start_pos),
            ControlPacket::PUBLISH(p) => p.decode_variable_header(buf, start_pos),
            _ => Err(MqttError::NotImplemented),
        }
    }

    fn encode_fixed_header(&self) -> (r: Result<Bytes, MqttError>) {
        Err(MqttError::NotImplemented)
    }

    fn encode_variable_header(&self) -> (r: Result<Bytes, MqttError>) {
        Err(MqttError::NotImplemented)
    }

    fn encode_payload_chunk(&self) -> (r: Result<Option<Bytes>, MqttError>) {
        Err(MqttError::NotImplemented)
    }
}

/// Each bit of a CONNECT flag byte, as a number: the masks that pick the
/// flags agree with the binary digits of the byte.
pub proof fn lemma_flag_byte_bits(b: u8)
    by (bit_vector)
    ensures
        (b & 0b10000000 != 0) == (b >= 128),
        ((b & 0b10000000) == 0b10000000) == (b >= 128),
        (b & 0b01000000 != 0) == ((b / 64) % 2 == 1),
        ((b & 0b01000000) == 0b01000000) == ((b / 64) % 2 == 1),
        (b & 0b00100000 != 0) == ((b / 32) % 2 == 1),
        ((b & 0b00100000) == 0b00100000) == ((b / 32) % 2 == 1),
        (b & 0b00000100 != 0) == ((b / 4) % 2 == 1),
        ((b & 0b00000100) == 0b00000100) == ((b / 4) % 2 == 1),
        (b & 0b00000010 != 0) == ((b / 2) % 2 == 1),
        ((b & 0b00000010) == 0b00000010) == ((b / 2) % 2 == 1),
        (b & 0b00000001 != 0) == (b % 2 == 1),
        (b & 0b00011000) >> 3u8 == (b / 8) % 4,
{
}

/// Law: a CONNECT flag byte is refused exactly when its reserved bit 0 is
/// set or its will QoS (bits 4-3) is 3; otherwise each flag is its own bit:
/// user name bit 7, password bit 6, will retain bit 5, will QoS bits 4-3,
/// will flag bit 2, clean start bit 1.
pub proof fn law_connect_flags_bits(b: u8)
    ensures
        spec_connect_flags_of(b) is Err <==> (b % 2 == 1 || (b / 8) % 4 == 3),
        spec_connect_flags_of(b) matches Ok(f) ==> {
            &&& f.user_name_flag == (b >= 128)
            &&& f.password_flag == ((b / 64) % 2 == 1)
            &&& f.will_retain == ((b / 32) % 2 == 1)
            &&& f.will_flag == ((b / 4) % 2 == 1)
            &&& f.clean_start == ((b / 2) % 2 == 1)
            &&& (f.will_qos == QoS::QoS0 <==> (b / 8) % 4 == 0)
            &&& (f.will_qos == QoS::QoS1 <==> (b / 8) % 4 == 1)
            &&& (f.will_qos == QoS::QoS2 <==> (b / 8) % 4 == 2)
        },
{
    lemma_flag_byte_bits(b);
}

/// Law: the variable header of a PUBLISH that decodes starts with its topic
/// name (a 16-bit big-endian length and the name). With QoS 1 or 2 the
/// packet identifier follows: the big-endian 16-bit integer of the two bytes
/// right after the name, and the property length is read two bytes further
/// on. With QoS 0 there is no packet identifier, and the property length
/// follows the name.
pub proof fn law_publish_packet_id_follows_topic(s: Seq<u8>, start: int, p: PublishModel)
    requires
        spec_publish_variable_header(s, start, p).1 is Done,
    ensures
        0 <= start,
        start + 2 <= s.len(),
        ({
            let t = start + 2 + (s[start] as int * 256 + s[start + 1] as int);
            let r = spec_publish_variable_header(s, start, p).0;
            &&& r.topic_name is Some
            &&& (p.qos == QoS::QoS1 || p.qos == QoS::QoS2) ==> {
                &&& t + 2 <= s.len()
                &&& r.packet_id == Some(PacketId((s[t] as int * 256 + s[t + 1] as int) as u16))
                &&& spec_decode_variable_length(s, t + 2) is Done
            }
            &&& p.qos == QoS::QoS0 ==> r.packet_id == p.packet_id && spec_decode_variable_length(s, t) is Done
        }),
{
}

/// Law: the reason codes of a CONNACK are those of MQTT 5, each reason its
/// own byte.
pub proof fn law_reason_codes()
    ensures
        spec_reason_code(ConnackReason::Success) == 0x00u8,
        spec_reason_code(ConnackReason::UnspecifiedError) == 0x80u8,
        spec_reason_code(ConnackReason::MalformedPacket) == 0x81u8,
        spec_reason_code(ConnackReason::ProtocolError) == 0x82u8,
        spec_reason_code(ConnackReason::ImplementationSpecificError) == 0x83u8,
        spec_reason_code(ConnackReason::UnsupportedProtocolVersion) == 0x84u8,
        spec_reason_code(ConnackReason::ClientIdentifierNotValid) == 0x85u8,
        spec_reason_code(ConnackReason::BadUserNameOrPassword) == 0x86u8,
        spec_reason_code(ConnackReason::NotAuthorized) == 0x87u8,
        spec_reason_code(ConnackReason::ServerUnavailable) == 0x88u8,
        spec_reason_code(ConnackReason::ServerBusy) == 0x89u8,
        spec_reason_code(ConnackReason::Banned) == 0x8Au8,
        spec_reason_code(ConnackReason::BadAuthenticationMethod) == 0x8Cu8,
        spec_reason_code(ConnackReason::TopicNameInvalid) == 0x90u8,
        spec_reason_code(ConnackReason::PacketTooLarge) == 0x95u8,
        spec_reason_code(ConnackReason::QuotaExceeded) == 0x97u8,
        spec_reason_code(ConnackReason::PayloadFormatInvalid) == 0x99u8,
        spec_reason_code(ConnackReason::RetainNotSupported) == 0x9Au8,
        spec_reason_code(ConnackReason::QoSNotSupported) == 0x9Bu8,
        spec_reason_code(ConnackReason::UseAnotherServer) == 0x9Cu8,
        spec_reason_code(ConnackReason::ServerMoved) == 0x9Du8,
        spec_reason_code(ConnackReason::ConnectionRateExceeded) == 0x9Fu8,
        forall|a: ConnackReason, b: ConnackReason| #[trigger] spec_reason_code(a) == #[trigger] spec_reason_code(b) ==> a == b,
{
}

/// Law: a CONNACK without properties is five bytes: the CONNACK type, a
/// remaining length of 3, the session-present flag, the reason code and a
/// zero property length.
pub proof fn law_connack_without_properties(c: ConnackModel)
    requires
        c.connack_properties is None,
    ensures
        spec_connack_bytes(c) == Ok::<Seq<u8>, MqttError>(
            seq![0x20u8, 0x03u8, if c.session_present { 0x01u8 } else { 0x00u8 }, spec_reason_code(c.connect_reason), 0x00u8],
        ),
{
    reveal_with_fuel(spec_encode_variable, 2);
    assert(spec_encode_variable_bytes(0) =~= seq![0x00u8]);
    assert(spec_encode_variable_bytes(3) =~= seq![0x03u8]);
    assert(spec_connack_bytes(c)->Ok_0 =~= seq![
        0x20u8,
        0x03u8,
        if c.session_present { 0x01u8 } else { 0x00u8 },
        spec_reason_code(c.connect_reason),
        0x00u8,
    ]);
}

/// Law: the credentials at the end of a CONNECT payload follow its flags:
/// when they decode, the user name is there exactly when the user name flag
/// is set, and is then the string that starts the credentials; the password
/// is there exactly when the password flag is set, and comes after the user
/// name when both are.
pub proof fn law_connect_credentials_follow_flags(s: Seq<u8>, pos: int, c: ConnectModel)
    requires
        spec_connect_credentials(s, pos, c).1 is Done,
        c.username is None,
        c.password is None,
    ensures
        spec_connect_credentials(s, pos, c).0.username is Some <==> c.connect_flags.user_name_flag,
        spec_connect_credentials(s, pos, c).0.password is Some <==> c.connect_flags.password_flag,
        c.connect_flags.user_name_flag ==> (spec_decode_utf8_string(s, pos) matches Decoded::Done(u, _)
            && spec_connect_credentials(s, pos, c).0.username == Some(u)),
        !c.connect_flags.user_name_flag && c.connect_flags.password_flag ==> (spec_binary_field(s, pos) matches Decoded::Done(
            w,
            _,
        ) && spec_connect_credentials(s, pos, c).0.password == Some(w)),
{
}

} // verus!
