//! The calls that this library makes into other crates.
//!
//! Each function here makes one such call. Its contract is what the library
//! relies on and does not prove.

use sha2::Digest;
use vstd::prelude::*;

verus! {

/// The SHA-256 digest of `data`, as `sha2` computes it.
pub uninterp spec fn sha256_of(data: Seq<u8>) -> Seq<u8>;

/// `sha2::Sha256::digest`: hashes `data` in one go. The result is a function
/// of the bytes alone and has thirty-two of them.
#[verifier::external_body]
pub(crate) fn sha256(data: &[u8]) -> (digest: Vec<u8>)
    ensures
        digest@ == sha256_of(data@),
        digest@.len() == 32,
{
    sha2::Sha256::digest(data).to_vec()
}

/// `rand::random_range` over `0..bound`: some number below `bound`. Which one
/// is left open. The call panics on an empty range.
#[verifier::external_body]
pub(crate) fn random_below(bound: u32) -> (n: u32)
    requires
        bound > 0,
    ensures
        n < bound,
{
    rand::random_range(0..bound)
}

/// A lower-case hex digit.
pub open spec fn is_lower_hex(c: char) -> bool {
    '0' <= c <= '9' || 'a' <= c <= 'f'
}

/// The hyphenated text of a random (version 4) UUID: eight, four, four, four
/// and twelve lower-case hex digits between hyphens, the version digit being
/// `4` and the variant digit one of `8`, `9`, `a` and `b`.
pub open spec fn is_random_uuid(s: Seq<char>) -> bool {
    &&& s.len() == 36
    &&& forall|i: int|
        0 <= i < 36 ==> if i == 8 || i == 13 || i == 18 || i == 23 {
            #[trigger] s[i] == '-'
        } else {
            is_lower_hex(s[i])
        }
    &&& s[14] == '4'
    &&& (s[19] == '8' || s[19] == '9' || s[19] == 'a' || s[19] == 'b')
}

/// `uuid::Uuid::new_v4` and its text. The shape is fixed; the digits come from
/// the operating system's random numbers and are left open.
#[verifier::external_body]
pub(crate) fn random_uuid() -> (id: String)
    ensures
        is_random_uuid(id@),
{
    uuid::Uuid::new_v4().to_string()
}

/// How JSON text writes one character of a string.
pub open spec fn json_escaped(c: char) -> Seq<char> {
    if c == '"' || c == '\\' {
        seq!['\\', c]
    } else if c as u32 == 8 {
        seq!['\\', 'b']
    } else if c as u32 == 9 {
        seq!['\\', 't']
    } else if c as u32 == 10 {
        seq!['\\', 'n']
    } else if c as u32 == 12 {
        seq!['\\', 'f']
    } else if c as u32 == 13 {
        seq!['\\', 'r']
    } else if (c as u32) < 32 {
        seq!['\\', 'u', '0', '0', crate::text::hex_digit(c as int / 16), crate::text::hex_digit(c as int % 16)]
    } else {
        seq![c]
    }
}

/// How JSON text writes the characters of a string, without the quotes.
pub open spec fn json_escapes(s: Seq<char>) -> Seq<char>
    decreases s.len(),
{
    if s.len() == 0 {
        Seq::empty()
    } else {
        json_escaped(s[0]) + json_escapes(s.skip(1))
    }
}

/// The JSON string literal of `s`.
pub open spec fn json_literal_of(s: Seq<char>) -> Seq<char> {
    seq!['"'] + json_escapes(s) + seq!['"']
}

/// `serde_json::to_string` of a text: its JSON string literal. Quotes and
/// backslashes are escaped, and so are the control characters below the
/// space; every other character stands for itself. The call cannot fail on
/// text.
#[verifier::external_body]
pub(crate) fn json_literal(s: &str) -> (literal: String)
    ensures
        literal@ == json_literal_of(s@),
{
    serde_json::to_string(s).expect("text always serializes")
}

}
