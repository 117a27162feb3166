//! Text helpers: hexadecimal and decimal digits, and the `String`
//! operations that vstd does not specify.
use vstd::prelude::*;

verus! {

/// `String::push`: appends one character at the end of the string.
#[verifier::external_body]
pub(crate) fn push_char(s: &mut String, c: char)
    ensures
        final(s)@ == old(s)@.push(c),
{
    s.push(c)
}

/// `<str as PartialEq>::eq`: whether two strings hold the same characters.
#[verifier::external_body]
pub(crate) fn str_eq(a: &str, b: &str) -> (r: bool)
    ensures
        r == (a@ == b@),
{
    a == b
}

/// A lower-case hexadecimal digit (`0-9a-f`) for a value below 16.
pub open spec fn hex_digit(n: u8) -> u8 {
    if n < 10 {
        (48 + n) as u8
    } else {
        (87 + n) as u8
    }
}

/// The lower-case hexadecimal text of `d`, two digits per byte, high nibble first.
pub open spec fn hex_lower(d: Seq<u8>) -> Seq<u8> {
    Seq::new(
        2 * d.len(),
        |i: int|
            if i % 2 == 0 {
                hex_digit(d[i / 2] / 16)
            } else {
                hex_digit(d[i / 2] % 16)
            },
    )
}

/// The value of a hexadecimal digit of either case.
pub open spec fn hex_value(c: u8) -> Option<u8> {
    if 48 <= c <= 57 {
        Some((c - 48) as u8)
    } else if 97 <= c <= 102 {
        Some((c - 87) as u8)
    } else if 65 <= c <= 70 {
        Some((c - 55) as u8)
    } else {
        None
    }
}

/// `base16::encode_byte` with `EncodeLower`: the two lower-case hex digits of
/// a byte, high nibble first.
#[verifier::external_body]
pub(crate) fn encode_byte_lower(byte: u8) -> (r: [u8; 2])
    ensures
        r@ == seq![hex_digit(byte / 16), hex_digit(byte % 16)],
{
    base16::encode_byte(byte, base16::EncodeLower)
}

/// `base16::decode_byte`: the value of one hexadecimal digit of either case,
/// `None` for any other byte.
#[verifier::external_body]
pub(crate) fn decode_hex_digit(c: u8) -> (r: Option<u8>)
    ensures
        r == hex_value(c),
{
    base16::decode_byte(c)
}

/// The character of a decimal digit.
pub open spec fn digit_char(d: nat) -> char {
    (48 + d) as char
}

/// The decimal text of a number, without leading zeros.
pub open spec fn decimal(n: nat) -> Seq<char>
    decreases n,
{
    if n < 10 {
        seq![digit_char(n)]
    } else {
        decimal(n / 10).push(digit_char(n % 10))
    }
}

/// The character of a decimal digit.
fn digit(d: u64) -> (c: char)
    requires
        d < 10,
    ensures
        c == digit_char(d as nat),
{
    let b: u8 = 48 + d as u8;
    b as char
}

/// The decimal text of the number, as `u64::to_string` writes it.
pub(crate) fn u64_to_string(n: u64) -> (r: String)
    ensures
        r@ == decimal(n as nat),
    decreases n,
{
    if n < 10 {
        let mut s = String::new();
        push_char(&mut s, digit(n));
        assert(s@ =~= seq![digit_char(n as nat)]);
        s
    } else {
        let mut s = u64_to_string(n / 10);
        push_char(&mut s, digit(n % 10));
        s
    }
}


/// The concatenation of a sequence of texts.
pub open spec fn concat(parts: Seq<Seq<char>>) -> Seq<char>
    decreases parts.len(),
{
    if parts.len() == 0 {
        seq![]
    } else {
        concat(parts.drop_last()) + parts.last()
    }
}

/// The concatenation of texts, in order.
pub fn concat_strs(parts: &[&str]) -> (r: String)
    ensures
        r@ == concat(parts@.map_values(|p: &str| p@)),
{
    let ghost v = parts@.map_values(|p: &str| p@);
    let mut r = String::new();
    let mut i: usize = 0;
    while i < parts.len()
        invariant
            0 <= i <= parts@.len(),
            v == parts@.map_values(|p: &str| p@),
            r@ == concat(v.subrange(0, i as int)),
        decreases parts@.len() - i,
    {
        proof {
            assert(v.subrange(0, i + 1).drop_last() =~= v.subrange(0, i as int));
        }
        r.append(parts[i]);
        i = i + 1;
    }
    assert(v.subrange(0, parts@.len() as int) =~= v);
    r
}

} // verus!
