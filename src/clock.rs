//! The wall clock, read in milliseconds.

use vstd::prelude::*;

verus! {

/// Relies on `std::time::SystemTime::now`, measured from the Unix epoch: the
/// current wall-clock time in milliseconds. Nothing is promised of the value;
/// a clock set before the epoch reads as 0.
#[verifier::external_body]
pub(crate) fn now_millis() -> (r: u64) {
    match std::time::SystemTime::now().duration_since(std::time::UNIX_EPOCH) {
        Ok(d) => d.as_millis() as u64,
        Err(_) => 0,
    }
}

} // verus!
