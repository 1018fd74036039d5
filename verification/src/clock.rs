//! The wall clock.

use vstd::prelude::*;

verus! {

/// `SystemTime::now`, in milliseconds since the unix epoch, zero where the
/// clock is before it. Nothing is promised of the reading.
#[verifier::external_body]
pub(crate) fn unix_now_ms() -> (r: u64) {
    std::time::SystemTime::now().duration_since(std::time::UNIX_EPOCH).map(
        |d| d.as_millis() as u64,
    ).unwrap_or(0)
}

/// Milliseconds from `since` to `now`, zero where the clock went back.
pub open spec fn elapsed_ms(now: u64, since: u64) -> int {
    if now > since {
        now - since
    } else {
        0
    }
}

/// Elapsed time is the difference, and never negative.
pub proof fn time_does_not_run_back(now: u64, since: u64)
    ensures
        elapsed_ms(now, since) >= 0,
        now >= since ==> elapsed_ms(now, since) == now - since,
        now <= since ==> elapsed_ms(now, since) == 0,
{
}

} // verus!
