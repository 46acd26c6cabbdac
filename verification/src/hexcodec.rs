use vstd::prelude::*;

verus! {

/// Whether `c` is an ASCII hexadecimal digit.
pub open spec fn is_hex_digit(c: char) -> bool {
    ('0' <= c && c <= '9') || ('a' <= c && c <= 'f') || ('A' <= c && c <= 'F')
}

/// The numeric value of a hexadecimal digit.
pub open spec fn hex_digit_val(c: char) -> u8
    recommends
        is_hex_digit(c),
{
    if '0' <= c && c <= '9' {
        (c as u8 - '0' as u8) as u8
    } else if 'a' <= c && c <= 'f' {
        (c as u8 - 'a' as u8 + 10) as u8
    } else {
        (c as u8 - 'A' as u8 + 10) as u8
    }
}

/// Whether every character of `s` is a hexadecimal digit.
pub open spec fn is_hex_seq(s: Seq<char>) -> bool {
    forall|i: int| 0 <= i < s.len() ==> is_hex_digit(#[trigger] s[i])
}

/// The bytes denoted by an even-length hexadecimal string, two digits per
/// byte, high nibble first.
pub open spec fn bytes_of_hex(s: Seq<char>) -> Seq<u8>
    recommends
        s.len() % 2 == 0,
        is_hex_seq(s),
{
    Seq::new((s.len() / 2) as nat, |i: int| (hex_digit_val(s[2 * i]) * 16 + hex_digit_val(s[2 * i + 1])) as u8)
}

/// The lowercase hexadecimal digit for a value below sixteen.
pub open spec fn hex_digit_char(n: u8) -> char
    recommends
        n < 16,
{
    if n < 10 {
        (('0' as u8 + n) as u8) as char
    } else {
        (('a' as u8 + (n - 10)) as u8) as char
    }
}

/// The lowercase hexadecimal rendering of a byte string, two digits per
/// byte, high nibble first.
pub open spec fn hex_of_bytes(b: Seq<u8>) -> Seq<char> {
    Seq::new((b.len() * 2) as nat, |i: int| if i % 2 == 0 {
        hex_digit_char(b[i / 2] / 16)
    } else {
        hex_digit_char(b[i / 2] % 16)
    })
}

/// Relies on hex::decode: accepts exactly the even-length strings of
/// hexadecimal digits (either case) and returns their bytes, high nibble
/// of each pair first.
#[verifier::external_body]
pub(crate) fn hex_decode(s: &str) -> (r: Option<Vec<u8>>)
    ensures
        r is Some <==> (s@.len() % 2 == 0 && is_hex_seq(s@)),
        r matches Some(v) ==> v@ == bytes_of_hex(s@),
{
    hex::decode(s).ok()
}

/// Relies on hex::encode: renders each byte as two lowercase hexadecimal
/// digits, high nibble first.
#[verifier::external_body]
pub(crate) fn hex_encode(b: &Vec<u8>) -> (r: String)
    ensures
        r@ == hex_of_bytes(b@),
{
    hex::encode(b)
}

} // verus!
