//! Reading the wall clock.
use vstd::prelude::*;
use core::time::Duration;

verus! {

/// Relies on `std::time::SystemTime::elapsed`, taken from the Unix epoch: the time
/// since the epoch, or `None` when the clock reads earlier than the epoch. Nothing
/// is promised of the value, which depends on the clock.
#[verifier::external_body]
pub(crate) fn since_unix_epoch() -> (r: Option<Duration>) {
    std::time::UNIX_EPOCH.elapsed().ok()
}

/// Relies on `core::time::Duration::as_micros`: the whole microseconds of `d`.
#[verifier::external_body]
pub(crate) fn whole_micros(d: &Duration) -> (r: u128) {
    d.as_micros()
}

/// Microseconds since the Unix epoch, read from the wall clock; zero when the
/// clock cannot be read.
pub fn micros_now() -> (r: u128) {
    match since_unix_epoch() {
        Some(d) => whole_micros(&d),
        None => 0,
    }
}

} // verus!
