//! The wall clock. Times are whole seconds since the Unix epoch, UTC.

use vstd::prelude::*;

verus! {

/// The current time, read with `chrono::Utc::now`.
///
/// Trusted: the value depends on the moment of the call, so nothing is
/// claimed of it. The crate itself stops the program where the system clock
/// stands before the epoch.
#[verifier::external_body]
pub(crate) fn now() -> (t: i64) {
    chrono::Utc::now().timestamp()
}

} // verus!
