//! The wall clock, as unix-epoch seconds.

use vstd::prelude::*;

verus! {

/// Relies on chrono::Utc::now: the current wall-clock time, in seconds
/// since the unix epoch. Nothing is promised of the value.
#[verifier::external_body]
pub(crate) fn unix_now() -> i64 {
    chrono::Utc::now().timestamp()
}

} // verus!
