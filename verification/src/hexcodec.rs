use vstd::prelude::*;

verus! {

/// The lowercase hex digit of a value below 16.
pub open spec fn hex_digit(n: nat) -> char {
    if n < 10 {
        ((0x30 + n) as u8) as char
    } else {
        ((0x61 + (n - 10)) as u8) as char
    }
}

/// The two lowercase digits of one byte.
pub open spec fn hex_of_byte(b: u8) -> Seq<char> {
    seq![hex_digit(b as nat / 16), hex_digit(b as nat % 16)]
}

/// The lowercase hex form of a byte string.
pub open spec fn hex_of(bytes: Seq<u8>) -> Seq<char>
    decreases bytes.len(),
{
    if bytes.len() == 0 {
        Seq::empty()
    } else {
        hex_of(bytes.drop_last()) + hex_of_byte(bytes.last())
    }
}

/// A hex digit of either case.
pub open spec fn is_hex_char(c: char) -> bool {
    ('0' <= c && c <= '9') || ('a' <= c && c <= 'f') || ('A' <= c && c <= 'F')
}

/// The value of a hex digit of either case.
pub open spec fn hex_char_val(c: char) -> nat {
    if '0' <= c && c <= '9' {
        (c as nat - '0' as nat) as nat
    } else if 'a' <= c && c <= 'f' {
        (10 + c as nat - 'a' as nat) as nat
    } else {
        (10 + c as nat - 'A' as nat) as nat
    }
}

/// Text that hex-decodes: even length, every character a digit of either case.
pub open spec fn valid_hex(s: Seq<char>) -> bool {
    s.len() % 2 == 0 && (forall|i: int| 0 <= i < s.len() ==> is_hex_char(#[trigger] s[i]))
}

/// The bytes that hex text spells out.
pub open spec fn hex_vals(s: Seq<char>) -> Seq<u8>
    decreases s.len(),
{
    if s.len() < 2 {
        Seq::empty()
    } else {
        hex_vals(s.subrange(0, s.len() - 2)).push(
            (hex_char_val(s[s.len() - 2]) * 16 + hex_char_val(s[s.len() - 1])) as u8,
        )
    }
}

/// Relies on hex::encode: two lowercase digits for each byte, in order.
#[verifier::external_body]
pub(crate) fn hex_encode(b: &[u8]) -> (r: String)
    ensures
        r@ == hex_of(b@),
{
    hex::encode(b)
}

/// Relies on hex::decode: accepts exactly the even-length strings of hex
/// digits of either case, and returns their byte values.
#[verifier::external_body]
pub(crate) fn hex_decode(s: &str) -> (r: Option<Vec<u8>>)
    ensures
        (match r {
            Some(b) => valid_hex(s@) && b@ == hex_vals(s@),
            None => !valid_hex(s@),
        }),
{
    match hex::decode(s) {
        Ok(v) => Some(v),
        Err(_) => None,
    }
}

} // verus!
