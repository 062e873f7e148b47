//! Fresh identifiers for newly created rows.
use vstd::prelude::*;

verus! {

/// Relies on `uuid::Uuid::new_v4` and its `Display` form: a random UUID
/// rendered as the 36-character hyphenated lowercase hexadecimal form. The
/// value is random, so nothing beyond its length is promised; every caller
/// checks the id against the store before using it.
#[verifier::external_body]
pub(crate) fn new_uuid() -> (r: String)
    ensures
        r@.len() == 36,
{
    uuid::Uuid::new_v4().to_string()
}

} // verus!
