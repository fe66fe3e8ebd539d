//! Identifiers. An identifier is the 128-bit value of a UUID; the `uuid` crate
//! draws fresh ones and turns them into text and back.

use vstd::prelude::*;

verus! {

/// The identifier that stands for no agent: the sender of a message that the
/// system itself originates.
pub const NIL_ID: u128 = 0;

/// The lower-case hexadecimal digit for `n`, for `0 <= n < 16`.
pub open spec fn hex_digit(n: int) -> char {
    seq!['0', '1', '2', '3', '4', '5', '6', '7', '8', '9', 'a', 'b', 'c', 'd', 'e', 'f'][n]
}

/// The `i`-th of the 32 four-bit groups of `id`, the most significant first.
pub open spec fn nibble(id: u128, i: int) -> int {
    ((id >> ((4 * (31 - i)) as u128)) & 0xf) as int
}

/// The simple text of an identifier: its 32 hexadecimal digits, lower case,
/// most significant first.
pub open spec fn simple_text(id: u128) -> Seq<char> {
    Seq::new(32, |i: int| hex_digit(nibble(id, i)))
}

/// The hyphenated text of an identifier: the simple text in groups of 8, 4, 4,
/// 4 and 12 digits with a hyphen between groups.
pub open spec fn hyphenated_text(id: u128) -> Seq<char> {
    let s = simple_text(id);
    s.subrange(0, 8) + seq!['-'] + s.subrange(8, 12) + seq!['-'] + s.subrange(12, 16) + seq!['-']
        + s.subrange(16, 20) + seq!['-'] + s.subrange(20, 32)
}

/// What `uuid::Uuid::parse_str` makes of a text: the identifier it denotes, or
/// `None` where the crate rejects it.
pub uninterp spec fn parsed_id(text: Seq<char>) -> Option<u128>;

/// Draws a fresh identifier with `uuid::Uuid::new_v4`.
///
/// Trusted: the value is random, so nothing is claimed of it beyond the
/// version and variant bits that the crate always sets (version 4, RFC 4122
/// variant). Those bits make it differ from `NIL_ID`. The crate itself stops
/// the program where the system has no random bytes to give.
#[verifier::external_body]
pub(crate) fn fresh_id() -> (id: u128)
    ensures
        id & 0x0000_0000_0000_f000_c000_0000_0000_0000 == 0x0000_0000_0000_4000_8000_0000_0000_0000,
{
    uuid::Uuid::new_v4().as_u128()
}

/// The simple text of `id`, as `uuid::Uuid::simple` formats it.
///
/// Trusted: claims that the crate writes the 32 hexadecimal digits of the
/// value, lower case, most significant first.
#[verifier::external_body]
pub(crate) fn simple_string(id: u128) -> (s: String)
    ensures
        s@ == simple_text(id),
{
    uuid::Uuid::from_u128(id).simple().to_string()
}

/// The hyphenated text of `id`, as `uuid::Uuid` displays itself.
///
/// Trusted: claims that the crate writes the lower-case hexadecimal digits in
/// groups of 8, 4, 4, 4 and 12 with hyphens between.
#[verifier::external_body]
pub(crate) fn hyphenated_string(id: u128) -> (s: String)
    ensures
        s@ == hyphenated_text(id),
{
    uuid::Uuid::from_u128(id).hyphenated().to_string()
}

/// Reads an identifier from text with `uuid::Uuid::parse_str`.
///
/// Trusted: the crate accepts several spellings, so the result is only named;
/// the same text always gives the same result.
#[verifier::external_body]
pub(crate) fn parse_id(text: &str) -> (r: Option<u128>)
    ensures
        r == parsed_id(text@),
{
    match uuid::Uuid::parse_str(text) {
        Ok(id) => Some(id.as_u128()),
        Err(_) => None,
    }
}

/// A fresh identifier is never the nil identifier.
pub proof fn lemma_versioned_is_not_nil(id: u128)
    requires
        id & 0x0000_0000_0000_f000_c000_0000_0000_0000 == 0x0000_0000_0000_4000_8000_0000_0000_0000,
    ensures
        id != NIL_ID,
{
    assert(id & 0x0000_0000_0000_f000_c000_0000_0000_0000
        == 0x0000_0000_0000_4000_8000_0000_0000_0000 ==> id != 0) by (bit_vector);
}

} // verus!
