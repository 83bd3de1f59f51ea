//! The wall clock.

use vstd::prelude::*;

verus! {

/// `chrono::Utc::now().timestamp()`: the Unix time in seconds. It is
/// whatever the machine's clock says, so nothing is claimed of it.
#[verifier::external_body]
pub(crate) fn unix_now() -> (now: i64) {
    chrono::Utc::now().timestamp()
}

} // verus!
