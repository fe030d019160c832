//! Random numbers and identifiers.
use rand::Rng;
use vstd::prelude::*;

verus! {

/// `gen_range(0..1_000_000)` on the generator of this thread.
///
/// Claimed: the number lies in the range, whichever it is.
#[verifier::external_body]
pub(crate) fn random_below_million() -> (n: u32)
    ensures
        n < 1_000_000,
{
    rand::thread_rng().gen_range(0..1_000_000)
}

/// Whether a character is a hexadecimal digit in lower case.
pub open spec fn is_hex_lower(c: char) -> bool {
    ('0' <= c && c <= '9') || ('a' <= c && c <= 'f')
}

/// The hyphenated text of a random (version 4) UUID, in lower case.
pub open spec fn is_uuid_v4(text: Seq<char>) -> bool {
    &&& text.len() == 36
    &&& forall|i: int|
        0 <= i < 36 ==> if i == 8 || i == 13 || i == 18 || i == 23 {
            #[trigger] text[i] == '-'
        } else {
            is_hex_lower(text[i])
        }
    &&& text[14] == '4'
    &&& (text[19] == '8' || text[19] == '9' || text[19] == 'a' || text[19] == 'b')
}

/// `Uuid::new_v4` and its `to_string`.
///
/// Claimed: the text is that of a version 4 UUID, whichever it is.
#[verifier::external_body]
pub(crate) fn new_uuid_text() -> (text: String)
    ensures
        is_uuid_v4(text@),
{
    uuid::Uuid::new_v4().to_string()
}

} // verus!
