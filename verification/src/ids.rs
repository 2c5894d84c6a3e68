//! Fresh identifiers for new rows.

use vstd::prelude::*;

verus! {

/// Relies on uuid::Uuid::new_v4 and its display form: a fresh random
/// version-4 UUID rendered as the 36-character hyphenated string. The value
/// depends on randomness, so only its length is promised.
#[verifier::external_body]
pub(crate) fn new_uuid() -> (r: String)
    ensures
        r@.len() == 36,
{
    uuid::Uuid::new_v4().to_string()
}

} // verus!
