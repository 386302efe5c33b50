//! Hexadecimal byte strings and textual principals, read through the `hex`
//! and `candid` crates.
use vstd::prelude::*;

verus! {

pub open spec fn is_hex_char(c: char) -> bool {
    ||| '0' <= c && c <= '9'
    ||| 'a' <= c && c <= 'f'
    ||| 'A' <= c && c <= 'F'
}

pub open spec fn hex_char_value(c: char) -> nat {
    if '0' <= c && c <= '9' {
        (c as u32 - '0' as u32) as nat
    } else if 'a' <= c && c <= 'f' {
        (c as u32 - 'a' as u32 + 10) as nat
    } else {
        (c as u32 - 'A' as u32 + 10) as nat
    }
}

/// The bytes that a hex string stands for: an even number of hex digits,
/// upper or lower case, two per byte with the high digit first.
pub open spec fn hex_decode_spec(s: Seq<char>) -> Option<Seq<u8>> {
    if s.len() % 2 == 0 && forall|i: int| 0 <= i < s.len() ==> is_hex_char(#[trigger] s[i]) {
        Some(
            Seq::new(
                s.len() / 2,
                |i: int| (hex_char_value(s[2 * i]) * 16 + hex_char_value(s[2 * i + 1])) as u8,
            ),
        )
    } else {
        None
    }
}

/// Calls `hex::decode`.
///
/// Trusted: as the `hex` crate documents and implements it, decoding
/// succeeds exactly on an even number of hex digits of either case and
/// gives one byte per pair, high digit first; any other character (a byte
/// of a multi-byte character among them) or an odd length is an error.
#[verifier::external_body]
fn decode_hex(s: &str) -> (r: Option<Vec<u8>>)
    ensures
        match hex_decode_spec(s@) {
            Some(b) => r matches Some(v) && v@ == b,
            None => r is None,
        },
{
    hex::decode(s).ok()
}

/// The bytes that the hex string `s` stands for, or `None` where it is not
/// an even number of hex digits.
pub fn hex_to_bytes(s: &str) -> (r: Option<Vec<u8>>)
    ensures
        match hex_decode_spec(s@) {
            Some(b) => r matches Some(v) && v@ == b,
            None => r is None,
        },
{
    decode_hex(s)
}

/// The lower-case hex digit of `d` (0 to 15).
pub open spec fn hex_digit_char(d: nat) -> char {
    if d < 10 {
        crate::text::digit_char(d)
    } else if d == 10 {
        'a'
    } else if d == 11 {
        'b'
    } else if d == 12 {
        'c'
    } else if d == 13 {
        'd'
    } else if d == 14 {
        'e'
    } else {
        'f'
    }
}

/// Bytes in lower-case hex, two digits per byte, high digit first.
pub open spec fn hex_encode_spec(b: Seq<u8>) -> Seq<char> {
    Seq::new(
        2 * b.len(),
        |i: int|
            if i % 2 == 0 {
                hex_digit_char((b[i / 2] / 16) as nat)
            } else {
                hex_digit_char((b[i / 2] % 16) as nat)
            },
    )
}

/// Calls `hex::encode`.
///
/// Trusted: as the `hex` crate implements it, each byte becomes two
/// lower-case hex digits (from `0123456789abcdef`), high digit first.
#[verifier::external_body]
fn encode_hex(b: &[u8]) -> (r: String)
    ensures
        r@ == hex_encode_spec(b@),
{
    hex::encode(b)
}

/// The bytes `b` in lower-case hex, e.g. `[0x0a, 0xff]` as `0aff`.
pub fn bytes_to_hex(b: &[u8]) -> (r: String)
    ensures
        r@ == hex_encode_spec(b@),
{
    encode_hex(b)
}

/// What `candid::Principal::from_text` makes of a text: the principal's
/// bytes, or the text of its error.
pub uninterp spec fn principal_decode(text: Seq<char>) -> Result<Seq<u8>, Seq<char>>;

/// Calls `candid::Principal::from_text` and takes the principal's bytes
/// (`as_slice`) or the error's `to_string`.
///
/// Trusted: the result is what `principal_decode` names for the text.
#[verifier::external_body]
fn decode_principal(text: &str) -> (r: Result<Vec<u8>, String>)
    ensures
        match r {
            Ok(b) => principal_decode(text@) == Ok::<Seq<u8>, Seq<char>>(b@),
            Err(e) => principal_decode(text@) == Err::<Seq<u8>, Seq<char>>(e@),
        },
{
    match candid::Principal::from_text(text) {
        Ok(p) => Ok(p.as_slice().to_vec()),
        Err(e) => Err(e.to_string()),
    }
}

/// The bytes of the principal written as `text`, or the decoder's error.
pub fn principal_from_text(text: &str) -> (r: Result<Vec<u8>, String>)
    ensures
        match principal_decode(text@) {
            Ok(b) => r matches Ok(v) && v@ == b,
            Err(e) => r matches Err(x) && x@ == e,
        },
{
    decode_principal(text)
}

/// A principal given on the command line: its bytes, or
/// `Invalid principal: <error>`.
pub fn principal_argument(text: &str) -> (r: Result<Vec<u8>, String>)
    ensures
        match principal_decode(text@) {
            Ok(b) => r matches Ok(v) && v@ == b,
            Err(e) => r matches Err(x) && x@ == "Invalid principal: "@ + e,
        },
{
    match decode_principal(text) {
        Ok(b) => Ok(b),
        Err(e) => {
            let mut m = String::from_str("Invalid principal: ");
            m.append(e.as_str());
            Err(m)
        },
    }
}

} // verus!
