//! Fresh record identifiers. The value is random, so nothing is promised
//! of it beyond its rendered length; store keys never depend on it.

use vstd::prelude::*;

verus! {

/// Relies on uuid::Uuid::new_v4 and its hyphenated Display form: a fresh
/// random identifier rendered as 36 characters.
#[verifier::external_body]
pub fn new_record_id() -> (r: String)
    ensures
        r@.len() == 36,
{
    uuid::Uuid::new_v4().to_string()
}

} // verus!
