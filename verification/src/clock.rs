//! Wall-clock access for timestamps.

use vstd::prelude::*;

verus! {

/// Milliseconds since the Unix epoch, or 0 if the clock is unavailable.
///
/// Relies on std::time::SystemTime::now; the result depends on the wall
/// clock, so nothing is assumed about the value returned.
#[verifier::external_body]
pub(crate) fn now_ms() -> u64 {
    std::time::SystemTime::now()
        .duration_since(std::time::UNIX_EPOCH)
        .map(|d| d.as_millis() as u64)
        .unwrap_or(0)
}

} // verus!
