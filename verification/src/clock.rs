//! Wall-clock access for the convenience entry points.

use vstd::prelude::*;

verus! {

/// Relies on std::time::SystemTime::now: the wall clock at the moment
/// of the call, converted to whole seconds since the Unix epoch, and
/// zero for a reading before the epoch.  Nothing is assumed of the
/// value: every caller states what holds of its result for any reading.
#[verifier::external_body]
pub(crate) fn unix_now_secs() -> u64 {
    std::time::SystemTime::now()
        .duration_since(std::time::UNIX_EPOCH)
        .map(|d| d.as_secs())
        .unwrap_or(0)
}

} // verus!
