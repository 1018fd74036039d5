//! When a store that stands outside the consensus checkpoints is synced to
//! disk: every block near the tip, every sixteenth while catching up.

use vstd::prelude::*;

verus! {

/// Blocks between syncs while catching up.
pub const SYNC_EVERY: u32 = 16;

/// A block younger than this is near the tip.
pub const RECENT_MS: i64 = 300_000;

/// `now - then`, held to the range of the clock.
pub open spec fn saturating_age(now: i64, then: i64) -> int {
    let d = now - then;
    if d > i64::MAX {
        i64::MAX as int
    } else if d < i64::MIN {
        i64::MIN as int
    } else {
        d
    }
}

/// Whether a block of this timestamp is near the tip.
pub open spec fn near_tip(now: i64, block_ts: i64) -> bool {
    saturating_age(now, block_ts) < 300_000
}

/// Whether a block of this timestamp is near the tip.
pub fn is_near_tip(now_ms: i64, block_ts: i64) -> (r: bool)
    ensures
        r == near_tip(now_ms, block_ts),
{
    let d: i128 = now_ms as i128 - block_ts as i128;
    d < RECENT_MS as i128
}

/// The blocks written since the last sync.
#[derive(Debug, Clone, Copy, PartialEq, Eq, Structural)]
pub struct SyncBarrier {
    pub since_sync: u32,
}

impl SyncBarrier {
    /// Fewer than sixteen blocks are ever unsynced.
    pub open spec fn wf(&self) -> bool {
        self.since_sync < 16
    }

    pub fn new() -> (r: SyncBarrier)
        ensures
            r.wf(),
            r.since_sync == 0,
    {
        SyncBarrier { since_sync: 0 }
    }

    /// Counts one written block. Returns whether to sync now.
    pub fn block_written(&mut self, now_ms: i64, block_ts: i64) -> (r: bool)
        requires
            old(self).wf(),
        ensures
            final(self).wf(),
            r == (near_tip(now_ms, block_ts) || old(self).since_sync + 1 >= 16),
            final(self).since_sync == (if r {
                0
            } else {
                (old(self).since_sync + 1) as u32
            }),
    {
        let n: u32 = self.since_sync + 1;
        if is_near_tip(now_ms, block_ts) || n >= SYNC_EVERY {
            self.since_sync = 0;
            true
        } else {
            self.since_sync = n;
            false
        }
    }
}

/// A block is near the tip exactly if it is younger than five minutes.
pub proof fn near_the_tip_is_five_minutes(now: i64, block_ts: i64)
    ensures
        near_tip(now, block_ts) <==> now - block_ts < 5 * 60 * 1000,
{
}

} // verus!
