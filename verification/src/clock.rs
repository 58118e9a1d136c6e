//! Wall-clock access for timestamps.

use vstd::prelude::*;

verus! {

/// Relies on `std::time::SystemTime::now`: the current time in milliseconds
/// since the Unix epoch, or zero should the clock read before the epoch.
/// Nothing is assumed of the value: callers state what holds whatever the
/// clock returns.
#[verifier::external_body]
pub fn now_millis() -> u64 {
    std::time::SystemTime::now().duration_since(std::time::UNIX_EPOCH).map(
        |d| d.as_millis() as u64,
    ).unwrap_or(0)
}

} // verus!
