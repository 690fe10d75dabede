//! Lossy decoding of bytes as UTF-8, done by the standard library.

use vstd::prelude::*;
use vstd::utf8::{decode_utf8, valid_utf8};

verus! {

/// The text that the standard library's lossy UTF-8 decoding makes of
/// `bytes`: well-formed sequences kept, malformed ones replaced by the
/// replacement character.
pub uninterp spec fn utf8_lossy(bytes: Seq<u8>) -> Seq<char>;

/// `String::from_utf8_lossy` of the standard library, its result
/// owned.
///
/// Trusted, as its documentation says: the result depends on the
/// bytes alone, and bytes that are valid UTF-8 come out as the text
/// that they encode. How malformed bytes are replaced is left to the
/// standard library and not stated.
#[verifier::external_body]
pub(crate) fn decode_utf8_lossy(bytes: &[u8]) -> (text: String)
    ensures
        text@ == utf8_lossy(bytes@),
        valid_utf8(bytes@) ==> text@ == decode_utf8(bytes@),
{
    String::from_utf8_lossy(bytes).into_owned()
}

} // verus!
