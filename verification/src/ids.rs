//! Identifiers of sessions and jobs: 128-bit values, written and read in the
//! hyphenated hexadecimal form of a UUID.

use vstd::arithmetic::power::{lemma_pow_positive, pow};
use vstd::prelude::*;

verus! {

/// The number of characters in the text of an identifier.
pub const ID_TEXT_LEN: usize = 36;

/// The lower-case hexadecimal digit for `n` in `0..16`.
pub open spec fn hex_char(n: int) -> char {
    if n < 10 {
        (48 + n) as u8 as char
    } else {
        (87 + n) as u8 as char
    }
}

/// The `k`-th hexadecimal digit of `v`, counted from the most significant
/// one, for `k` in `0..32`.
pub open spec fn hex_digit_at(v: u128, k: int) -> int {
    ((v as int) / pow(16, (31 - k) as nat)) % 16
}

/// A hexadecimal digit lies in `0..16`.
pub proof fn lemma_hex_digit_in_range(v: u128, k: int)
    ensures
        0 <= hex_digit_at(v, k) < 16,
{
    lemma_pow_positive(16, (31 - k) as nat);
}

/// The position `i` of the text holds a hyphen.
pub open spec fn is_hyphen_position(i: int) -> bool {
    i == 8 || i == 13 || i == 18 || i == 23
}

/// The number of hexadecimal digits that stand before position `i` of the
/// text.
pub open spec fn digits_before(i: int) -> int {
    if i < 8 {
        i
    } else if i < 13 {
        i - 1
    } else if i < 18 {
        i - 2
    } else if i < 23 {
        i - 3
    } else {
        i - 4
    }
}

/// The text of an identifier: its 32 hexadecimal digits in lower case, most
/// significant first, in groups of 8, 4, 4, 4 and 12 with a hyphen between
/// groups.
pub open spec fn id_text(v: u128) -> Seq<char> {
    Seq::new(
        ID_TEXT_LEN as nat,
        |i: int|
            if is_hyphen_position(i) {
                '-'
            } else {
                hex_char(hex_digit_at(v, digits_before(i)))
            },
    )
}

/// The identifier that a text denotes, if it denotes one.
pub uninterp spec fn parsed_id(text: Seq<char>) -> Option<u128>;

/// `v` has the shape of a randomly generated identifier: its version digit
/// is 4 and its variant bits are `10`.
pub open spec fn is_random_id(v: u128) -> bool {
    hex_digit_at(v, 12) == 4 && 8 <= hex_digit_at(v, 16) <= 11
}

/// A fresh random identifier.
///
/// Trusted: stands for `uuid::Uuid::new_v4`, read as a 128-bit value by
/// `Uuid::as_u128`. The value is random; the contract states only what the
/// generator fixes in every outcome, the version digit and the variant bits.
/// The generator takes its bytes from the operating system and ends the
/// process if the system cannot supply them.
#[verifier::external_body]
pub(crate) fn random_id() -> (v: u128)
    ensures
        is_random_id(v),
{
    uuid::Uuid::new_v4().as_u128()
}

/// The text of an identifier.
///
/// Trusted: stands for `uuid::Uuid::from_u128` followed by the `Display`
/// form of the value, which is the lower-case hyphenated form. The contract
/// states that form, and that reading the text back gives the value.
#[verifier::external_body]
pub(crate) fn format_id(v: u128) -> (text: String)
    ensures
        text@ == id_text(v),
        parsed_id(text@) == Some(v),
{
    uuid::Uuid::from_u128(v).to_string()
}

/// The identifier that `text` denotes.
///
/// Trusted: stands for `uuid::Uuid::parse_str`, read as a 128-bit value by
/// `Uuid::as_u128`; a text that does not parse gives `None`. The contract
/// only gives the result its name.
#[verifier::external_body]
pub(crate) fn parse_id(text: &str) -> (r: Option<u128>)
    ensures
        r == parsed_id(text@),
{
    match uuid::Uuid::parse_str(text) {
        Ok(id) => Some(id.as_u128()),
        Err(_) => None,
    }
}

} // verus!
