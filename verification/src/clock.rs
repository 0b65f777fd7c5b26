//! The one clock read the crate makes: the current Unix time in seconds.

use vstd::prelude::*;

verus! {

/// Relies on std::time::SystemTime::now, read against the Unix epoch; a
/// clock before the epoch reads as 0. The time is machine state, so
/// nothing is promised of the value.
#[verifier::external_body]
pub(crate) fn now_unix_secs() -> u64 {
    match std::time::SystemTime::now().duration_since(std::time::UNIX_EPOCH) {
        Ok(d) => d.as_secs(),
        Err(_) => 0,
    }
}

} // verus!
