//! UTF-8 text.

use vstd::prelude::*;
use vstd::utf8::{encode_utf8, valid_utf8};

verus! {

/// Reads `bytes` as text.
///
/// Calls `std::str::from_utf8`. What is claimed of it, and not proved, is what
/// its documentation says: it gives text back exactly when the bytes are valid
/// UTF-8, and the text it gives is encoded by those bytes.
#[verifier::external_body]
pub(crate) fn from_utf8(bytes: &[u8]) -> (r: Option<&str>)
    ensures
        r is Some <==> valid_utf8(bytes@),
        r matches Some(s) ==> encode_utf8(s@) == bytes@,
{
    std::str::from_utf8(bytes).ok()
}

} // verus!
