//! Reading the system clock. Nothing is stated of the times read: they
//! depend on when the clock is read.

use vstd::prelude::*;

verus! {

#[verifier::external_type_specification]
#[verifier::external_body]
pub struct ExSystemTime(std::time::SystemTime);

/// The current time of the system clock (`SystemTime::now`).
#[verifier::external_body]
pub(crate) fn system_time_now() -> std::time::SystemTime {
    std::time::SystemTime::now()
}

/// How long after the Unix epoch `t` is (`SystemTime::duration_since` with
/// `UNIX_EPOCH`), or none when `t` lies before the epoch.
#[verifier::external_body]
fn since_unix_epoch(t: &std::time::SystemTime) -> Option<core::time::Duration> {
    t.duration_since(std::time::UNIX_EPOCH).ok()
}

/// The whole seconds of a duration (`Duration::as_secs`).
#[verifier::external_body]
fn whole_seconds(d: &core::time::Duration) -> u64 {
    d.as_secs()
}

/// Seconds since the Unix epoch on the system clock, or 0 when the clock
/// reads a time before the epoch.
pub(crate) fn unix_time_secs() -> u64 {
    match since_unix_epoch(&system_time_now()) {
        Some(d) => whole_seconds(&d),
        None => 0,
    }
}

} // verus!
