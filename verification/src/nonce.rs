//! Nonces for outgoing commands.

use vstd::prelude::*;

verus! {

/// Whether `c` is a lower-case hexadecimal digit.
pub open spec fn is_hex_digit(c: char) -> bool {
    ('0' <= c && c <= '9') || ('a' <= c && c <= 'f')
}

/// Whether `text` has the form of a random UUID in hyphenated lower-case
/// notation: 36 characters, hyphens at 8, 13, 18 and 23, hexadecimal digits
/// elsewhere, and the version digit 4.
pub open spec fn is_nonce(text: Seq<char>) -> bool {
    &&& text.len() == 36
    &&& forall|i: int|
        0 <= i < 36 ==> if i == 8 || i == 13 || i == 18 || i == 23 {
            #[trigger] text[i] == '-'
        } else {
            is_hex_digit(text[i])
        }
    &&& text[14] == '4'
}

/// `uuid::Uuid::new_v4` and its `to_string`: a fresh random UUID in
/// hyphenated lower-case notation. Which one is not determined.
#[verifier::external_body]
pub(crate) fn fresh_nonce() -> (nonce: String)
    ensures
        is_nonce(nonce@),
{
    uuid::Uuid::new_v4().to_string()
}

} // verus!
