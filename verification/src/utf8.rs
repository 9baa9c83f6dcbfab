//! Checked reading of UTF-8.

use vstd::prelude::*;

verus! {

/// `std::str::from_utf8`: the text that the bytes spell, exactly when they are valid
/// UTF-8.
#[verifier::external_body]
pub(crate) fn read_utf8(bytes: &[u8]) -> (r: Option<String>)
    ensures
        r is Some <==> vstd::utf8::valid_utf8(bytes@),
        r matches Some(text) ==> text@ == vstd::utf8::decode_utf8(bytes@),
{
    std::str::from_utf8(bytes).ok().map(|text| text.to_owned())
}

} // verus!
