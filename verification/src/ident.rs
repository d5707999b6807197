//! Fresh identifiers for new licenses.

use vstd::prelude::*;

verus! {

/// The length of an identifier as `fresh_id` makes it: 32 hexadecimal digits
/// in five groups, with four hyphens between them.
pub const FRESH_ID_LENGTH: usize = 36;

/// A new random identifier.
///
/// Trusted: stands for `uuid::Uuid::new_v4` and its hyphenated `Display`.
/// Which identifier comes back is not said, only its length.
#[verifier::external_body]
pub(crate) fn fresh_id() -> (r: String)
    ensures
        r@.len() == FRESH_ID_LENGTH,
{
    uuid::Uuid::new_v4().to_string()
}

} // verus!
