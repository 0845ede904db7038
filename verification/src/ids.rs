//! Identifiers that are drawn at random.

use vstd::prelude::*;

verus! {

/// A lower-case hexadecimal digit.
pub open spec fn hex_digit(c: char) -> bool {
    '0' <= c <= '9' || 'a' <= c <= 'f'
}

/// The form of a UUID without hyphens.
pub open spec fn simple_uuid(s: Seq<char>) -> bool {
    s.len() == 32 && forall|i: int| 0 <= i < s.len() ==> hex_digit(#[trigger] s[i])
}

/// The form of a UUID with hyphens.
pub open spec fn uuid_form(s: Seq<char>) -> bool {
    s.len() == 36 && forall|i: int|
        0 <= i < s.len() ==> if i == 8 || i == 13 || i == 18 || i == 23 {
            (#[trigger] s[i]) == '-'
        } else {
            hex_digit(s[i])
        }
}

/// Calls `uuid::Uuid::new_v4` and writes the result without hyphens: a random
/// UUID, of which only the form is known.
#[verifier::external_body]
pub(crate) fn new_simple_uuid() -> (r: String)
    ensures
        simple_uuid(r@),
{
    uuid::Uuid::new_v4().simple().to_string()
}

/// Calls `uuid::Uuid::new_v4` and writes the result with hyphens: a random UUID,
/// of which only the form is known.
#[verifier::external_body]
pub(crate) fn new_uuid() -> (r: String)
    ensures
        uuid_form(r@),
{
    uuid::Uuid::new_v4().to_string()
}

} // verus!
