//! Shared helpers around the host environment.

use vstd::prelude::*;

verus! {

/// Relies on `std::time::SystemTime::now`: the current Unix time in
/// seconds.  The clock decides the value, so nothing is promised of it; a
/// clock before the epoch reads as zero.
#[verifier::external_body]
pub fn get_timestamp() -> (t: u64) {
    match std::time::SystemTime::now().duration_since(std::time::SystemTime::UNIX_EPOCH) {
        Ok(d) => d.as_secs(),
        Err(_) => 0,
    }
}

} // verus!
