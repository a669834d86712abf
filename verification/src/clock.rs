use vstd::prelude::*;

use std::time::{Duration, UNIX_EPOCH};

verus! {

/// Reads the system clock through `SystemTime::elapsed` on `UNIX_EPOCH`: the time
/// since the epoch, or nothing when the clock stands before it. Nothing is
/// stated of the value, which the clock alone decides.
#[verifier::external_body]
fn time_since_unix_epoch() -> Option<Duration> {
    UNIX_EPOCH.elapsed().ok()
}

/// `Duration::as_millis`: the whole milliseconds of `d`. `Duration` is opaque
/// here, so nothing is stated of the result.
#[verifier::external_body]
fn duration_millis(d: &Duration) -> u128 {
    d.as_millis()
}

/// Milliseconds since the Unix epoch by the system clock, or 0 when the clock
/// stands before the epoch.
pub(crate) fn epoch_millis_now() -> u128 {
    match time_since_unix_epoch() {
        Some(elapsed) => duration_millis(&elapsed),
        None => 0,
    }
}

} // verus!
