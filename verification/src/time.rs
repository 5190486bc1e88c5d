//! The clock, read once per response when the time header is enabled.
use vstd::prelude::*;

verus! {

/// Relies on std::time::SystemTime: the seconds since the Unix epoch by
/// the machine's clock, or 0 when the clock reads before the epoch.
/// Nothing is assumed of the value.
#[verifier::external_body]
pub fn generate_unixtime() -> u64 {
    match std::time::SystemTime::now().duration_since(std::time::UNIX_EPOCH) {
        Ok(d) => d.as_secs(),
        Err(_) => 0,
    }
}

} // verus!
