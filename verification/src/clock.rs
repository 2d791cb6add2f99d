//! The one place the library reads the wall clock.

use vstd::prelude::*;

verus! {

/// Relies on chrono::Utc::now: the current Unix timestamp in seconds.
/// Nothing is promised of the value; callers state what holds of every
/// outcome. On a machine whose clock is set before the Unix epoch,
/// chrono's own conversion panics, and so would this call.
#[verifier::external_body]
pub(crate) fn now_timestamp() -> i64 {
    chrono::Utc::now().timestamp()
}

/// The current Unix timestamp clamped to an unsigned value.
pub fn now_unix_secs() -> u64 {
    let t = now_timestamp();
    if t < 0 {
        0
    } else {
        t as u64
    }
}

} // verus!
