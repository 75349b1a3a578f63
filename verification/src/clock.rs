use vstd::prelude::*;

use std::time::{Duration, SystemTime, UNIX_EPOCH};

verus! {

/// The system clock's reading.
#[verifier::external_type_specification]
#[verifier::external_body]
pub struct ExSystemTime(SystemTime);

/// Calls `SystemTime::now`; what it reads is the machine's business.
#[verifier::external_body]
fn system_now() -> SystemTime {
    SystemTime::now()
}

/// Calls `SystemTime::duration_since` with the Unix epoch; `None` where the
/// reading lies before the epoch.
#[verifier::external_body]
fn since_unix_epoch(t: &SystemTime) -> Option<Duration> {
    t.duration_since(UNIX_EPOCH).ok()
}

/// Calls `Duration::as_millis`: the whole milliseconds in the duration.
#[verifier::external_body]
fn duration_millis(d: &Duration) -> u128 {
    d.as_millis()
}

/// A count of milliseconds cut to its low 64 bits, as `as u64` does.
pub fn millis_to_u64(ms: u128) -> (r: u64)
    ensures
        r == ms as u64,
{
    #[verifier::truncate]
    (ms as u64)
}

/// The current time in milliseconds since the Unix epoch, cut to 64 bits;
/// `None` where the clock reads a time before the epoch.
///
/// What the clock reads is not known here: the value is the whole
/// milliseconds that `Duration::as_millis` gives for the time since the
/// epoch, cut by `millis_to_u64`.
pub fn current_time_ms() -> Option<u64> {
    let now = system_now();
    match since_unix_epoch(&now) {
        Some(d) => Some(millis_to_u64(duration_millis(&d))),
        None => None,
    }
}

} // verus!
