//! Texts that stand in HTTP headers.

use axum::http::HeaderValue;
use vstd::prelude::*;

verus! {

/// Whether every character of a text can stand in a header's value.
pub open spec fn header_text(s: Seq<char>) -> bool {
    forall|i: int|
        0 <= i < s.len() ==> (#[trigger] s[i]) == '\t' || (s[i] as int >= 32 && s[i] as int != 127)
}

/// Calls `HeaderValue::from_str`, which takes a text whose bytes are all a tab, or
/// at least 32 and not 127. The bytes of a character above 127 are all above 127.
#[verifier::external_body]
pub(crate) fn is_header_value(s: &str) -> (r: bool)
    ensures
        r == header_text(s@),
{
    HeaderValue::from_str(s).is_ok()
}

} // verus!
