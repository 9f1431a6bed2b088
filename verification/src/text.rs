//! Numbers written out as text, the way error messages show them.
use vstd::prelude::*;

verus! {

/// The digit of a value below 16, lower case past 9.
pub open spec fn spec_digit(d: nat) -> char {
    seq!['0', '1', '2', '3', '4', '5', '6', '7', '8', '9', 'a', 'b', 'c', 'd', 'e', 'f'][d as int]
}

/// A number in decimal, without leading zeros.
pub open spec fn spec_decimal(n: nat) -> Seq<char>
    decreases n,
{
    if n < 10 {
        seq![spec_digit(n)]
    } else {
        spec_decimal(n / 10).push(spec_digit(n % 10))
    }
}

/// A number in lower-case hexadecimal, without prefix or leading zeros.
pub open spec fn spec_hex(n: nat) -> Seq<char>
    decreases n,
{
    if n < 16 {
        seq![spec_digit(n)]
    } else {
        spec_hex(n / 16).push(spec_digit(n % 16))
    }
}

/// The digit of a value below 16.
fn digit_text(d: u8) -> (r: &'static str)
    requires
        d < 16,
    ensures
        r@ == seq![spec_digit(d as nat)],
{
    let digits = "0123456789abcdef";
    proof {
        reveal_strlit("0123456789abcdef");
    }
    assert(digits@ =~= seq!['0', '1', '2', '3', '4', '5', '6', '7', '8', '9', 'a', 'b', 'c', 'd', 'e', 'f']);
    assert(digits.is_ascii());
    let r = digits.substring_ascii(d as usize, d as usize + 1);
    assert(r@ =~= seq![spec_digit(d as nat)]);
    r
}

/// A byte in decimal.
pub fn decimal_text(n: u8) -> (r: String)
    ensures
        r@ == spec_decimal(n as nat),
{
    let mut r = String::new();
    if n >= 100 {
        r.append(digit_text(n / 100));
    }
    if n >= 10 {
        r.append(digit_text((n / 10) % 10));
    }
    r.append(digit_text(n % 10));
    proof {
        reveal_with_fuel(spec_decimal, 3);
        if n >= 100 {
            assert((n as nat / 10) / 10 == n as nat / 100);
            assert(spec_decimal(n as nat / 10) =~= seq![spec_digit(n as nat / 100)].push(spec_digit((n as nat / 10) % 10)));
        }
        assert(r@ =~= spec_decimal(n as nat));
    }
    r
}

/// A byte in lower-case hexadecimal.
pub fn hex_text(n: u8) -> (r: String)
    ensures
        r@ == spec_hex(n as nat),
{
    let mut r = String::new();
    if n >= 16 {
        r.append(digit_text(n / 16));
    }
    r.append(digit_text(n % 16));
    proof {
        reveal_with_fuel(spec_hex, 2);
        assert(r@ =~= spec_hex(n as nat));
    }
    r
}

} // verus!
