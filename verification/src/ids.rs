//! Identifiers: random 128-bit values written as 36 characters.

use vstd::prelude::*;

verus! {

/// A lower-case hexadecimal digit.
pub open spec fn is_hex_digit(c: char) -> bool {
    ('0' <= c && c <= '9') || ('a' <= c && c <= 'f')
}

/// The places of the four hyphens in an identifier.
pub open spec fn is_hyphen_place(i: int) -> bool {
    i == 8 || i == 13 || i == 18 || i == 23
}

/// The form of an identifier: five groups of lower-case hexadecimal digits,
/// 8-4-4-4-12, joined by hyphens.
pub open spec fn is_id(s: Seq<char>) -> bool {
    &&& s.len() == 36
    &&& forall|i: int|
        0 <= i < 36 ==> if is_hyphen_place(i) {
            #[trigger] s[i] == '-'
        } else {
            is_hex_digit(s[i])
        }
}

/// Draws a new identifier.
///
/// Calls `uuid::Uuid::new_v4` and renders the value with its `Display` impl.
/// The value is random, so nothing is claimed of it but its form: 36
/// characters, hyphens at 8, 13, 18 and 23, lower-case hexadecimal digits
/// elsewhere. Like the call it wraps, this aborts if the operating system
/// hands out no random bytes.
#[verifier::external_body]
pub(crate) fn random_id() -> (id: String)
    ensures
        is_id(id@),
{
    uuid::Uuid::new_v4().to_string()
}

/// A text with a character that is neither a hexadecimal digit nor a
/// hyphen is no identifier: an email, with its `@`, never reads as one.
pub proof fn lemma_id_differs(id: Seq<char>, text: Seq<char>, at: int)
    requires
        is_id(id),
        0 <= at < text.len(),
        !is_hex_digit(text[at]),
        text[at] != '-',
    ensures
        id != text,
{
    if id == text {
        if is_hyphen_place(at) {
            assert(id[at] == '-');
        } else {
            assert(is_hex_digit(id[at]));
        }
    }
}

} // verus!
