//! Unique identifiers, drawn by the `uuid` crate.

use vstd::prelude::*;

verus! {

/// Calls `Uuid::new_v4` and formats the identifier without hyphens. Nothing
/// is promised of the text: it is random.
#[verifier::external_body]
pub(crate) fn fresh_id() -> (id: String) {
    uuid::Uuid::new_v4().simple().to_string()
}

} // verus!
