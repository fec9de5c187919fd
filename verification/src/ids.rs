//! Identifiers: 128-bit UUID values and their text form, through the
//! `uuid` crate.

use vstd::prelude::*;
use vstd::arithmetic::power2::pow2;

verus! {

/// The lowercase hexadecimal digit of a value below 16.
pub open spec fn hex_digit(d: int) -> char {
    if d < 10 {
        (48 + d) as char
    } else {
        (87 + d) as char
    }
}

/// The `k`-th hexadecimal digit of `v`, counting from the most significant
/// of its 32 digits.
pub open spec fn uuid_nibble(v: u128, k: int) -> int {
    (v as nat / pow2((4 * (31 - k)) as nat)) as int % 16
}

/// The hyphenated lowercase text of a UUID: its 32 hexadecimal digits,
/// most significant first, in groups of 8, 4, 4, 4 and 12 separated by
/// `-` (as in `550e8400-e29b-41d4-a716-446655440000`).
pub open spec fn uuid_text(v: u128) -> Seq<char> {
    Seq::new(
        36,
        |p: int|
            if p == 8 || p == 13 || p == 18 || p == 23 {
                '-'
            } else {
                let k = if p < 8 {
                    p
                } else if p < 13 {
                    p - 1
                } else if p < 18 {
                    p - 2
                } else if p < 23 {
                    p - 3
                } else {
                    p - 4
                };
                hex_digit(uuid_nibble(v, k))
            },
    )
}

/// What `uuid::Uuid::parse_str` makes of a text: the UUID value when the
/// text is one of the accepted UUID forms, nothing otherwise.
pub uninterp spec fn uuid_parse(s: Seq<char>) -> Option<u128>;

/// Parses a UUID with `uuid::Uuid::parse_str`, giving its value as a
/// 128-bit integer (`Uuid::as_u128`, big-endian). The result is
/// `uuid_parse` of the text; which texts parse is not stated here.
#[verifier::external_body]
pub fn parse_uuid(s: &str) -> (r: Option<u128>)
    ensures
        r == uuid_parse(s@),
{
    match uuid::Uuid::parse_str(s) {
        Ok(u) => Some(u.as_u128()),
        Err(_) => None,
    }
}

/// The text of a UUID value through `uuid::Uuid::from_u128` and its
/// `Display` (`to_string`): the hyphenated lowercase form. The uuid crate
/// documents that `parse_str` accepts every form it generates, so the text
/// parses back to the same value.
#[verifier::external_body]
pub fn uuid_to_string(v: u128) -> (r: String)
    ensures
        r@ == uuid_text(v),
        uuid_parse(r@) == Some(v),
{
    uuid::Uuid::from_u128(v).to_string()
}

} // verus!
