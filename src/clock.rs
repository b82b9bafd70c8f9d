use vstd::prelude::*;

verus! {

/// Relies on `std::time::SystemTime::elapsed`, applied to `UNIX_EPOCH`: the whole seconds that
/// the system clock shows past the Unix epoch, or `None` where the clock is set before it. The
/// clock may jump in either direction, so nothing is promised of the value.
#[verifier::external_body]
fn seconds_since_epoch() -> (r: Option<u64>) {
    match std::time::UNIX_EPOCH.elapsed() {
        Ok(d) => Some(d.as_secs()),
        Err(_) => None,
    }
}

/// The current time in whole seconds since the Unix epoch; a clock set before the epoch reads 0.
pub fn now_seconds() -> (r: u64) {
    match seconds_since_epoch() {
        Some(t) => t,
        None => 0,
    }
}

} // verus!
