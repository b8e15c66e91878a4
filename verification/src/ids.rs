//! Identifiers: users are keyed by 128-bit tokens, written and read in
//! the textual form that the uuid crate defines.

use vstd::prelude::*;

verus! {

/// The identifier that the uuid crate's parser reads out of `s`, as a
/// big-endian 128-bit value, or `None` where `s` is not a valid
/// textual identifier. Which strings parse, and to what value, depends
/// on the characters of `s` alone.
pub uninterp spec fn uuid_of(s: Seq<char>) -> Option<u128>;

/// Relies on `uuid::Uuid::parse_str` (the textual formats it accepts
/// are fixed) and `uuid::Uuid::as_u128` (the big-endian value of the
/// sixteen bytes).
#[verifier::external_body]
pub(crate) fn parse_uuid(s: &str) -> (r: Option<u128>)
    ensures
        r == uuid_of(s@),
{
    match uuid::Uuid::parse_str(s) {
        Ok(u) => Some(u.as_u128()),
        Err(_) => None,
    }
}

/// Relies on `uuid::Uuid::new_v4` and `uuid::Uuid::as_u128`: a freshly
/// drawn random identifier. The draw is random, so nothing is promised
/// of the value; callers must check it against the identifiers already
/// in use. Should the operating system's randomness source fail, the
/// draw panics, as an exhausted resource would.
#[verifier::external_body]
pub(crate) fn fresh_uuid() -> u128 {
    uuid::Uuid::new_v4().as_u128()
}

} // verus!
