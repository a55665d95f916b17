//! The wall clock, as the store's source of creation timestamps.

use vstd::prelude::*;

verus! {

/// The current moment as RFC 3339 text in UTC, from `chrono::Utc::now` and
/// `chrono::DateTime::to_rfc3339`. The text depends on the machine's clock,
/// so nothing is claimed of it; `Utc::now` does not return if that clock
/// stands before 1970.
#[verifier::external_body]
pub(crate) fn current_timestamp() -> (timestamp: String) {
    chrono::Utc::now().to_rfc3339()
}

} // verus!
