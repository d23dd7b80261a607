//! The test that tells text from other payloads.

use vstd::prelude::*;
use vstd::utf8::valid_utf8;

verus! {

/// Whether `bytes` is valid UTF-8, as `core::str::from_utf8` decides it.
///
/// Trusted: the call succeeds exactly on the byte sequences that are
/// well-formed UTF-8, which is what `valid_utf8` defines.
#[verifier::external_body]
pub(crate) fn is_text(bytes: &Vec<u8>) -> (r: bool)
    ensures
        r == valid_utf8(bytes@),
{
    core::str::from_utf8(bytes.as_slice()).is_ok()
}

} // verus!
