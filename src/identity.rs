//! Reading identities (UUIDs) from text.
use vstd::prelude::*;

verus! {

/// The 128-bit value of the UUID that the text `s` writes, when it writes one,
/// as the `uuid` crate reads it.
pub uninterp spec fn uuid_of_text(s: Seq<char>) -> Option<u128>;

/// Relies on `uuid::Uuid::parse_str`, which reads a UUID from its text, and on
/// `uuid::Uuid::as_u128`, which gives its value; the result depends on the text
/// alone.
#[verifier::external_body]
pub(crate) fn parse_uuid(s: &str) -> (r: Option<u128>)
    ensures
        r == uuid_of_text(s@),
{
    match uuid::Uuid::parse_str(s) {
        Ok(u) => Some(u.as_u128()),
        Err(_) => None,
    }
}

} // verus!
