//! Unix time.

use std::time::SystemTime;
use vstd::prelude::*;

verus! {

/// A point in time of the system clock. Nothing is read from it but its distance
/// from the Unix epoch.
#[verifier::external_type_specification]
#[verifier::external_body]
pub struct ExSystemTime(SystemTime);

/// The whole seconds from the Unix epoch to a point in time; `None` for a point
/// before the epoch.
pub uninterp spec fn seconds_since_epoch(t: SystemTime) -> Option<u64>;

/// `SystemTime::duration_since` the Unix epoch, in whole seconds: `None` where the
/// point lies before the epoch.
#[verifier::external_body]
fn since_epoch(t: SystemTime) -> (r: Option<u64>)
    ensures
        r == seconds_since_epoch(t),
{
    match t.duration_since(std::time::UNIX_EPOCH) {
        Ok(d) => Some(d.as_secs()),
        Err(_) => None,
    }
}

/// The Unix time of `t` in seconds, or `None` where `t` lies before the epoch.
pub fn try_utime(t: SystemTime) -> (r: Option<u64>)
    ensures
        r == seconds_since_epoch(t),
{
    match since_epoch(t) {
        Some(_) => Some(utime(t)),
        None => None,
    }
}

/// The Unix time of `t` in seconds. The point must not lie before the epoch.
pub fn utime(t: SystemTime) -> (secs: u64)
    requires
        seconds_since_epoch(t) is Some,
    ensures
        Some(secs) == seconds_since_epoch(t),
{
    match since_epoch(t) {
        Some(secs) => secs,
        None => 0,
    }
}

} // verus!
