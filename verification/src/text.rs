//! Bytes as text.

use vstd::prelude::*;
use vstd::string::*;
use vstd::utf8::*;

verus! {

/// Reads `bytes` as text with `std::str::from_utf8`.
///
/// Taken on trust from the standard library's documentation: the call
/// succeeds exactly on well-formed UTF-8, and the text it returns is the
/// given bytes seen as a string, so that encoding the text gives the bytes
/// back.
#[verifier::external_body]
pub(crate) fn as_text(bytes: &[u8]) -> (text: Option<&str>)
    ensures
        text is Some <==> valid_utf8(bytes@),
        text matches Some(s) ==> s.spec_bytes() == bytes@,
{
    std::str::from_utf8(bytes).ok()
}

/// The characters of well-formed UTF-8 `bytes`, where there are any.
pub fn decode(bytes: &[u8]) -> (text: Option<String>)
    ensures
        text is Some <==> valid_utf8(bytes@),
        text matches Some(s) ==> s@ == decode_utf8(bytes@),
{
    match as_text(bytes) {
        Some(s) => {
            proof {
                encode_utf8_decode_utf8(s@);
            }
            Some(s.to_owned())
        },
        None => None,
    }
}

} // verus!
