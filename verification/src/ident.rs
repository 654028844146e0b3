//! Fresh character identifiers.

use vstd::prelude::*;

verus! {

/// The number of characters of a hyphenated UUID.
pub const UUID_TEXT_LEN: usize = 36;

/// Draws a random identifier: `uuid::Uuid::new_v4()`, written out by its
/// `to_string()`.
///
/// Trusted, not proved: the text has 36 characters, the hyphenated
/// lower-case form in which the `uuid` crate displays a UUID. Which text
/// comes back is random, so nothing else is claimed; two calls may return
/// the same text. `new_v4` panics if the operating system has no random
/// bytes to give.
#[verifier::external_body]
pub(crate) fn random_uuid_text() -> (id: String)
    ensures
        id@.len() == UUID_TEXT_LEN,
{
    uuid::Uuid::new_v4().to_string()
}

} // verus!
