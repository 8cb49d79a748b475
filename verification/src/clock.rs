//! Access to the wall clock.

use vstd::prelude::*;

verus! {

/// Reads the current time as whole seconds since the Unix epoch.
///
/// Relies on `chrono::Utc::now` and `DateTime::timestamp`.  The value
/// depends on the machine's clock, so nothing is promised about it; every
/// caller states what holds whatever time came back.
#[verifier::external_body]
pub(crate) fn now_unix() -> i64 {
    chrono::Utc::now().timestamp()
}

} // verus!
