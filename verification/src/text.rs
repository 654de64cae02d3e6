//! The one trusted boundary of this crate: turning validated bytes back
//! into `&str`.

use vstd::prelude::*;
use vstd::string::StringSliceAdditionalSpecFns;
use vstd::utf8::valid_utf8;

verus! {

/// Relies on core::str::from_utf8: on valid UTF-8 input it returns `Ok`
/// with a `str` borrowing exactly those bytes, and it never panics.
#[verifier::external_body]
pub(crate) fn str_from_bytes(v: &[u8]) -> (r: &str)
    requires
        valid_utf8(v@),
    ensures
        r.spec_bytes() == v@,
{
    core::str::from_utf8(v).unwrap()
}

} // verus!
