//! Wall-clock access. Time is represented throughout the crate as
//! milliseconds since the Unix epoch, so that timestamp arithmetic and
//! comparisons can be verified; only this module touches the clock itself.

use vstd::prelude::*;

verus! {

/// Relies on chrono::Utc::now, for the current wall-clock time. Nothing is
/// assumed about the value returned: callers must hold for every outcome.
#[verifier::external_body]
pub fn now_millis() -> u64 {
    chrono::Utc::now().timestamp_millis() as u64
}

} // verus!
