//! Wall-clock reading for event timestamps.

use std::time::SystemTime;
use std::time::UNIX_EPOCH;

use vstd::prelude::*;

verus! {

/// Relies on `std::time::SystemTime::now`: seconds since the unix epoch, or
/// 0 if the system clock reads before the epoch. The result depends on the
/// wall clock, so nothing more is promised of it.
#[verifier::external_body]
pub fn now_unix_secs() -> u64 {
    SystemTime::now().duration_since(UNIX_EPOCH).map_or(0, |duration| duration.as_secs())
}

} // verus!
