//! The durable log for external sinks: one entry per applied block, explicit
//! unwinds for reorgs and lost tails, and repairs for blocks that the log
//! missed.

use vstd::prelude::*;
use vstd::string::*;

use crate::admin::BlockStores;
use crate::bytes::{bytes_eq, copy_all};
use crate::chain::{BlockId, BlockIndex};
use crate::durability::{is_near_tip, near_tip, SYNC_EVERY};
use crate::text::{append_int, int_decimal, str_eq};

verus! {

/// Heights repaired in one apply at most.
pub const GAP_REPAIR_MAX: i64 = 512;

/// How far the log may plausibly be ahead of the chain after a power loss.
pub const MAX_PLAUSIBLE_ROLLBACK: i64 = 10_000;

/// Running counters.
#[derive(Debug, Clone, Copy, PartialEq, Eq, Structural)]
pub struct FirehoseCounters {
    pub entries: u64,
    pub unwinds: u64,
    pub gap_repaired_blocks: u64,
}

impl Default for FirehoseCounters {
    fn default() -> (r: Self)
        ensures
            r == (FirehoseCounters { entries: 0, unwinds: 0, gap_repaired_blocks: 0 }),
    {
        FirehoseCounters { entries: 0, unwinds: 0, gap_repaired_blocks: 0 }
    }
}

/// A counter after one more; it wraps.
pub open spec fn bumped(c: u64) -> u64 {
    if c == u64::MAX {
        0
    } else {
        (c + 1) as u64
    }
}

fn bump(c: u64) -> (r: u64)
    ensures
        r == bumped(c),
{
    if c == u64::MAX {
        0
    } else {
        c + 1
    }
}

// ---------------------------------------------------------------------------
// Opening
// ---------------------------------------------------------------------------

/// The newest entry of the log.
#[derive(Debug, Clone)]
pub enum LogHead {
    /// The log is empty, or its newest entry holds no event.
    Empty,
    Apply { height: i64, block_id: Vec<u8> },
    Unwind { to_height: i64 },
    /// The newest entry does not decode, for this reason.
    Undecodable(String),
}

/// The height of the newest entry, -1 of an empty log.
pub open spec fn head_height(h: LogHead) -> int {
    match h {
        LogHead::Apply { height, .. } => height as int,
        LogHead::Unwind { to_height } => to_height as int,
        _ => -1,
    }
}

/// What opening a log comes to.
pub enum Opening {
    /// The log agrees with the chain.
    Agrees,
    /// The log is unwound to this height first.
    UnwindTo(int),
    /// The log does not belong here, or does not decode.
    Corrupt(Seq<char>),
}

/// A height, or zero.
pub open spec fn or_zero(v: Option<i64>) -> int {
    match v {
        Some(x) => x as int,
        None => 0,
    }
}

/// The words in which a log that is too far ahead is refused.
pub open spec fn too_far_text(head: int, consensus: int) -> Seq<char> {
    "firehose log head "@ + int_decimal(head)
        + " is implausibly far ahead of the consensus head "@ + int_decimal(consensus)
        + " — the firehose directory does not match this data directory (wiped or replaced?). Refusing to auto-UNWIND, which would wipe all consumer state; remove the stale firehose directory to reset it."@
}

/// How a log is reconciled with the recovered chain. A log ahead of the chain
/// is unwound to the chain's head, unless it is implausibly far ahead. A log
/// whose newest block is not the canonical one at its height is unwound to the
/// last height that is surely common.
pub open spec fn opening(
    head: LogHead,
    consensus: Option<i64>,
    index: Map<i64, BlockId>,
    solidified: Option<i64>,
) -> Opening {
    let h = head_height(head);
    let c = or_zero(consensus);
    match head {
        LogHead::Undecodable(why) => Opening::Corrupt(
            "firehose head entry undecodable: "@ + why@,
        ),
        _ => if h > c {
            if consensus is None || h - c > 10_000 {
                Opening::Corrupt(too_far_text(h, c))
            } else {
                Opening::UnwindTo(c)
            }
        } else {
            match head {
                LogHead::Apply { height, block_id } => if height >= 0 && index.contains_key(height)
                    && index[height].raw@ != block_id@ {
                    Opening::UnwindTo(
                        match solidified {
                            Some(s) => if s < h - 1 {
                                s as int
                            } else {
                                h - 1
                            },
                            None => h - 1,
                        },
                    )
                } else {
                    Opening::Agrees
                },
                _ => Opening::Agrees,
            }
        },
    }
}

fn too_far(head: i64, consensus: i64) -> (r: String)
    ensures
        r@ == too_far_text(head as int, consensus as int),
{
    let mut s = "firehose log head ".to_owned();
    append_int(&mut s, head);
    s.append(" is implausibly far ahead of the consensus head ");
    append_int(&mut s, consensus);
    s.append(
        " — the firehose directory does not match this data directory (wiped or replaced?). Refusing to auto-UNWIND, which would wipe all consumer state; remove the stale firehose directory to reset it.",
    );
    s
}

/// Reconciles a log with the recovered chain: the height to unwind to, if any,
/// or why the log is refused.
pub fn reconcile(
    head: &LogHead,
    consensus: Option<i64>,
    index: &BlockIndex,
    solidified: Option<i64>,
) -> (r: Result<Option<i64>, String>)
    requires
        head_height(*head) - or_zero(consensus) <= i64::MAX,
    ensures
        match (opening(*head, consensus, index@, solidified), r) {
            (Opening::Agrees, Ok(None)) => true,
            (Opening::UnwindTo(t), Ok(Some(to))) => to == t,
            (Opening::Corrupt(t), Err(e)) => e@ == t,
            _ => false,
        },
{
    let h: i64 = match head {
        LogHead::Apply { height, .. } => *height,
        LogHead::Unwind { to_height } => *to_height,
        LogHead::Empty => -1,
        LogHead::Undecodable(why) => {
            let mut s = "firehose head entry undecodable: ".to_owned();
            s.append(why.as_str());
            return Err(s);
        },
    };
    let c: i64 = match consensus {
        Some(x) => x,
        None => 0,
    };
    if h > c {
        if consensus.is_none() || h - c > MAX_PLAUSIBLE_ROLLBACK {
            return Err(too_far(h, c));
        }
        return Ok(Some(c));
    }
    if let LogHead::Apply { height, block_id } = head {
        if *height >= 0 {
            if let Some(canonical) = index.get(*height) {
                if !bytes_eq(canonical.raw.as_slice(), block_id.as_slice()) {
                    let below: i64 = *height - 1;
                    return Ok(
                        Some(
                            match solidified {
                                Some(s) => if s < below {
                                    s
                                } else {
                                    below
                                },
                                None => below,
                            },
                        ),
                    );
                }
            }
        }
    }
    Ok(None)
}

/// The head of a log after it was opened, None of one that is refused.
pub open spec fn opened_head(
    head: LogHead,
    consensus: Option<i64>,
    index: Map<i64, BlockId>,
    solidified: Option<i64>,
) -> Option<int> {
    match opening(head, consensus, index, solidified) {
        Opening::Agrees => Some(head_height(head)),
        Opening::UnwindTo(t) => Some(t),
        Opening::Corrupt(_) => None,
    }
}

/// No consumer is left with blocks that the chain lost: a log that is opened
/// is never ahead of the chain, its newest block is the canonical one where the
/// index knows it, and opening only ever takes the log back.
pub proof fn opened_logs_are_not_ahead(
    head: LogHead,
    consensus: Option<i64>,
    index: Map<i64, BlockId>,
    solidified: Option<i64>,
)
    requires
        or_zero(consensus) >= -1,
    ensures
        opened_head(head, consensus, index, solidified) matches Some(h) ==> h <= or_zero(consensus)
            && h <= head_height(head),
        opening(head, consensus, index, solidified) matches Opening::UnwindTo(t) ==> t
            < head_height(head),
        opening(head, consensus, index, solidified) is Agrees ==> match head {
            LogHead::Apply { height, block_id } => height >= 0 && index.contains_key(height)
                ==> index[height].raw@ == block_id@,
            _ => true,
        },
{
}

/// Opening a log that was just opened changes nothing more.
pub proof fn opening_twice_is_opening_once(
    head: LogHead,
    consensus: Option<i64>,
    index: Map<i64, BlockId>,
    solidified: Option<i64>,
    t: i64,
)
    requires
        opening(head, consensus, index, solidified) == Opening::UnwindTo(t as int),
    ensures
        opening(LogHead::Unwind { to_height: t }, consensus, index, solidified) is Agrees,
{
}

// ---------------------------------------------------------------------------
// Applying
// ---------------------------------------------------------------------------

/// One entry to append.
#[derive(Debug, Clone, Copy, PartialEq, Eq, Structural)]
pub enum LogEvent {
    /// Drop everything above this height.
    Unwind(i64),
    /// A block that the log missed, derived from the stores: see [`entry_for`].
    Repair(i64),
    /// The block that was applied.
    Apply(i64),
}

/// Whether the block at a height can be derived from the stores.
pub open spec fn derivable(
    index: Map<i64, BlockId>,
    bodies: Set<BlockId>,
    h: int,
) -> bool {
    index.contains_key(h as i64) && bodies.contains(index[h as i64])
}

/// The repairs of the heights `from..to`, those that can be derived.
pub open spec fn repairs(
    index: Map<i64, BlockId>,
    bodies: Set<BlockId>,
    from: int,
    to: int,
) -> Seq<LogEvent>
    decreases to - from,
{
    if from >= to {
        Seq::empty()
    } else {
        let before = repairs(index, bodies, from, to - 1);
        if derivable(index, bodies, to - 1) {
            before.push(LogEvent::Repair((to - 1) as i64))
        } else {
            before
        }
    }
}

/// Where the repair of a gap below `h` stops in one apply.
pub open spec fn repair_end(head: int, h: int) -> int {
    if head + 1 + 512 < h {
        head + 1 + 512
    } else {
        h
    }
}

/// The entries that applying the block at `h` appends, and the log's head
/// height afterwards.
pub open spec fn apply_step(
    head: int,
    h: int,
    index: Map<i64, BlockId>,
    bodies: Set<BlockId>,
) -> (Seq<LogEvent>, int) {
    let apply = LogEvent::Apply(h as i64);
    if head < 0 || h == head + 1 {
        (seq![apply], h)
    } else if h <= head {
        (seq![LogEvent::Unwind((h - 1) as i64), apply], h)
    } else {
        let end = repair_end(head, h);
        let fixed = repairs(index, bodies, head + 1, end);
        if end < h {
            (fixed, end - 1)
        } else {
            (fixed.push(apply), h)
        }
    }
}

/// Whether the heights of a step can be computed in machine words.
pub open spec fn step_fits(head: i64, h: i64) -> bool {
    head >= 0 ==> (h <= head ==> h > i64::MIN) && (h > head + 1 ==> head + 513 <= i64::MAX)
}

/// The state of the log writer.
#[derive(Debug, Clone, Copy, PartialEq, Eq, Structural)]
pub struct FirehoseWriter {
    /// Height of the newest entry, -1 of an empty log.
    pub head_height: i64,
    /// Blocks written since the last sync.
    pub since_sync: u32,
    pub counters: FirehoseCounters,
}

/// What to append for one applied block.
#[derive(Debug)]
pub struct Appends {
    /// The entries, in this order.
    pub events: Vec<LogEvent>,
    /// Whether the applied block is among them, and not put off to a later apply.
    pub applies: bool,
    /// The log's head height once all of them are appended.
    pub head: i64,
    /// Whether to sync the log afterwards.
    pub sync: bool,
}

/// The counters after the first `n` of these entries were appended.
pub open spec fn counted(c: FirehoseCounters, events: Seq<LogEvent>, n: nat) -> FirehoseCounters
    decreases n,
{
    if n == 0 {
        c
    } else {
        let b = counted(c, events, (n - 1) as nat);
        match events[n - 1] {
            LogEvent::Unwind(_) => FirehoseCounters { unwinds: bumped(b.unwinds), ..b },
            LogEvent::Repair(_) => FirehoseCounters {
                gap_repaired_blocks: bumped(b.gap_repaired_blocks),
                ..b
            },
            LogEvent::Apply(_) => FirehoseCounters { entries: bumped(b.entries), ..b },
        }
    }
}

impl FirehoseWriter {
    /// Whether a step for `h` can be computed in machine words.
    pub open spec fn ready(&self, h: i64) -> bool {
        step_fits(self.head_height, h) && self.since_sync < u32::MAX
    }

    /// Whether the repair of a gap below `h` takes more than one apply.
    pub open spec fn waits(&self, h: i64) -> bool {
        self.head_height >= 0 && h > self.head_height + 1 && repair_end(
            self.head_height as int,
            h as int,
        ) < h
    }

    /// The writer after the first `appended` entries went out, all of them or up to
    /// one that failed, and, where a sync was due, whether it succeeded. Unless all
    /// went out the head stays, so that the next apply repairs what is missing.
    pub open spec fn settled(self, a: Appends, appended: nat, synced: bool) -> FirehoseWriter {
        let all = appended == a.events@.len();
        FirehoseWriter {
            head_height: if all {
                a.head
            } else {
                self.head_height
            },
            since_sync: if !all {
                self.since_sync
            } else if a.sync && synced {
                0
            } else if a.applies {
                (self.since_sync + 1) as u32
            } else {
                self.since_sync
            },
            counters: counted(self.counters, a.events@, appended),
        }
    }

    /// Opens a log against the recovered chain: the writer, and the height that
    /// the log is unwound to first, if any; or why the log is refused.
    pub fn open(
        head: &LogHead,
        consensus: Option<i64>,
        index: &BlockIndex,
        solidified: Option<i64>,
    ) -> (r: Result<(FirehoseWriter, Option<i64>), String>)
        requires
            head_height(*head) - or_zero(consensus) <= i64::MAX,
        ensures
            match (opening(*head, consensus, index@, solidified), r) {
                (Opening::Agrees, Ok((w, unwind))) => unwind is None && w.fresh(
                    head_height(*head),
                    0,
                ),
                (Opening::UnwindTo(t), Ok((w, unwind))) => unwind is Some && unwind->Some_0 == t
                    && w.fresh(t, 1),
                (Opening::Corrupt(t), Err(e)) => e@ == t,
                _ => false,
            },
    {
        let unwind = match reconcile(head, consensus, index, solidified) {
            Ok(u) => u,
            Err(e) => return Err(e),
        };
        let h: i64 = match unwind {
            Some(t) => t,
            None => match head {
                LogHead::Apply { height, .. } => *height,
                LogHead::Unwind { to_height } => *to_height,
                _ => -1,
            },
        };
        let w = FirehoseWriter {
            head_height: h,
            since_sync: 0,
            counters: FirehoseCounters {
                entries: 0,
                unwinds: if unwind.is_some() { 1 } else { 0 },
                gap_repaired_blocks: 0,
            },
        };
        Ok((w, unwind))
    }

    /// Whether nothing was written yet but for some unwinds.
    pub open spec fn fresh(&self, head: int, unwinds: u64) -> bool {
        &&& self.head_height == head
        &&& self.since_sync == 0
        &&& self.counters == (FirehoseCounters { entries: 0, unwinds, gap_repaired_blocks: 0 })
    }

    /// The running counters.
    pub fn counters(&self) -> (r: FirehoseCounters)
        ensures
            r == self.counters,
    {
        self.counters
    }

    /// Whether a step for `h` can be computed in machine words.
    pub fn can_apply(&self, h: i64) -> (r: bool)
        ensures
            r == self.ready(h),
    {
        let head: i64 = self.head_height;
        let fits = if head < 0 {
            true
        } else if h <= head {
            h > i64::MIN
        } else {
            h == head + 1 || head <= i64::MAX - 513
        };
        fits && self.since_sync < u32::MAX
    }

    /// Decides what one applied block appends: an unwind first where it is a
    /// re-apply after a reorg, repairs first where the log missed blocks. A
    /// gap wider than the cap is closed over several applies, and the applied
    /// block itself waits until the repairs reach it. The writer takes note of
    /// what came of it by [`FirehoseWriter::settle`].
    pub fn on_block_applied(
        &self,
        h: i64,
        block_ts: i64,
        now_ms: i64,
        stores: &BlockStores,
    ) -> (r: Appends)
        requires
            self.ready(h),
        ensures
            ({
                let step = apply_step(
                    self.head_height as int,
                    h as int,
                    stores.index@,
                    stores.bodies@,
                );
                &&& r.events@ == step.0
                &&& r.head == step.1
                &&& r.applies == !self.waits(h)
                &&& r.sync == (self.waits(h) || near_tip(now_ms, block_ts) || self.since_sync + 1
                    >= 16)
            }),
    {
        let mut events: Vec<LogEvent> = Vec::new();
        let head: i64 = self.head_height;
        if head >= 0 {
            if h <= head {
                events.push(LogEvent::Unwind(h - 1));
            } else if h > head + 1 {
                let from: i64 = head + 1;
                let capped: i64 = from + GAP_REPAIR_MAX;
                let end: i64 = if capped < h { capped } else { h };
                let mut g: i64 = from;
                while g < end
                    invariant
                        from <= g <= end,
                        events@ == repairs(stores.index@, stores.bodies@, from as int, g as int),
                    decreases end - g,
                {
                    let known = match stores.index.get(g) {
                        Some(id) => stores.bodies.contains(&id),
                        None => false,
                    };
                    if known {
                        events.push(LogEvent::Repair(g));
                    }
                    g = g + 1;
                }
                if end < h {
                    return Appends { events, applies: false, head: end - 1, sync: true };
                }
            }
        }
        events.push(LogEvent::Apply(h));
        let sync = is_near_tip(now_ms, block_ts) || self.since_sync + 1 >= SYNC_EVERY;
        assert(events@ =~= apply_step(head as int, h as int, stores.index@, stores.bodies@).0);
        Appends { events, applies: true, head: h, sync }
    }

    /// Takes note of how many of the entries went out, and whether the sync that
    /// was due succeeded.
    pub fn settle(&mut self, a: &Appends, appended: usize, synced: bool)
        requires
            appended <= a.events@.len(),
            old(self).since_sync < u32::MAX,
        ensures
            *final(self) == old(self).settled(*a, appended as nat, synced),
    {
        let mut i: usize = 0;
        while i < appended
            invariant
                i <= appended <= a.events@.len(),
                self.head_height == old(self).head_height,
                self.since_sync == old(self).since_sync,
                self.counters == counted(old(self).counters, a.events@, i as nat),
            decreases appended - i,
        {
            match a.events[i] {
                LogEvent::Unwind(_) => {
                    self.counters.unwinds = bump(self.counters.unwinds);
                },
                LogEvent::Repair(_) => {
                    self.counters.gap_repaired_blocks = bump(self.counters.gap_repaired_blocks);
                },
                LogEvent::Apply(_) => {
                    self.counters.entries = bump(self.counters.entries);
                },
            }
            i = i + 1;
        }
        if appended == a.events.len() {
            self.head_height = a.head;
            if a.sync && synced {
                self.since_sync = 0;
            } else if a.applies {
                self.since_sync = self.since_sync + 1;
            }
        }
    }
}

/// A block whose entry did not go out is not lost: as long as the stores hold it,
/// the next apply repairs it first.
pub proof fn failed_blocks_are_repaired(
    w: FirehoseWriter,
    h: i64,
    a: Appends,
    appended: nat,
    synced: bool,
    index: Map<i64, BlockId>,
    bodies: Set<BlockId>,
)
    requires
        0 <= w.head_height,
        h == w.head_height + 1,
        h < i64::MAX,
        a.events@ == apply_step(w.head_height as int, h as int, index, bodies).0,
        appended < a.events@.len(),
        derivable(index, bodies, h as int),
    ensures
        apply_step(w.settled(a, appended, synced).head_height as int, h + 1, index, bodies) == (
            seq![LogEvent::Repair(h), LogEvent::Apply((h + 1) as i64)],
            h + 1,
        ),
{
    let head = w.head_height as int;
    assert(repairs(index, bodies, h as int, h as int) =~= Seq::empty());
    assert(repairs(index, bodies, head + 1, h + 1) =~= seq![LogEvent::Repair(h)]);
    assert(seq![LogEvent::Repair(h)].push(LogEvent::Apply((h + 1) as i64)) =~= seq![
        LogEvent::Repair(h),
        LogEvent::Apply((h + 1) as i64),
    ]);
}

/// The head that a consumer reaches by following entries, None where an entry
/// does not follow on: a block must be the next one, and an unwind must go
/// back. A consumer at -1 takes any first block.
pub open spec fn follow(head: int, events: Seq<LogEvent>, n: nat) -> Option<int>
    decreases n,
{
    if n == 0 {
        Some(head)
    } else {
        match follow(head, events, (n - 1) as nat) {
            None => None,
            Some(at) => match events[n - 1] {
                LogEvent::Unwind(to) => if to < at {
                    Some(to as int)
                } else {
                    None
                },
                LogEvent::Repair(h) => if at < 0 || h == at + 1 {
                    Some(h as int)
                } else {
                    None
                },
                LogEvent::Apply(h) => if at < 0 || h == at + 1 {
                    Some(h as int)
                } else {
                    None
                },
            },
        }
    }
}

proof fn lemma_repairs_follow(
    index: Map<i64, BlockId>,
    bodies: Set<BlockId>,
    from: int,
    to: int,
)
    requires
        1 <= from <= to <= i64::MAX,
        forall|g: int| from <= g < to ==> #[trigger] derivable(index, bodies, g),
    ensures
        repairs(index, bodies, from, to).len() == to - from,
        follow(from - 1, repairs(index, bodies, from, to), (to - from) as nat) == Some(to - 1),
    decreases to - from,
{
    if from < to {
        lemma_repairs_follow(index, bodies, from, to - 1);
        assert(derivable(index, bodies, to - 1));
        let before = repairs(index, bodies, from, to - 1);
        let after = repairs(index, bodies, from, to);
        lemma_follow_prefix(from - 1, before, after, (to - 1 - from) as nat);
        assert(after[(to - from) - 1] == LogEvent::Repair((to - 1) as i64));
    }
}

proof fn lemma_follow_prefix(head: int, a: Seq<LogEvent>, b: Seq<LogEvent>, n: nat)
    requires
        n <= a.len(),
        n <= b.len(),
        forall|i: int| 0 <= i < n ==> a[i] == b[i],
    ensures
        follow(head, a, n) == follow(head, b, n),
    decreases n,
{
    if n > 0 {
        lemma_follow_prefix(head, a, b, (n - 1) as nat);
    }
}

/// The log has no hole: as long as the missed blocks can be derived, whoever
/// follows the entries of one apply from the log's old head passes every
/// height in turn and ends at its new head.
pub proof fn log_has_no_hole(
    head: int,
    h: int,
    index: Map<i64, BlockId>,
    bodies: Set<BlockId>,
)
    requires
        -1 <= head <= i64::MAX,
        0 <= h <= i64::MAX,
        forall|g: int| head < g < h ==> #[trigger] derivable(index, bodies, g),
    ensures
        ({
            let step = apply_step(head, h, index, bodies);
            follow(head, step.0, step.0.len()) == Some(step.1)
        }),
{
    let step = apply_step(head, h, index, bodies);
    let ev = step.0;
    if head < 0 || h == head + 1 {
        assert(follow(head, ev, 0) == Some(head));
        assert(follow(head, ev, 1) == Some(h));
    } else if h <= head {
        assert(follow(head, ev, 0) == Some(head));
        assert(follow(head, ev, 1) == Some(h - 1));
        assert(follow(head, ev, 2) == Some(h));
    } else {
        let end = repair_end(head, h);
        let fixed = repairs(index, bodies, head + 1, end);
        lemma_repairs_follow(index, bodies, head + 1, end);
        if end == h {
            lemma_follow_prefix(head, fixed, ev, fixed.len());
        }
    }
}

/// A gap closes: however wide it is, each apply brings the log's head forward,
/// by the whole cap as long as it does not reach the applied block.
pub proof fn gaps_close(head: int, h: int, index: Map<i64, BlockId>, bodies: Set<BlockId>)
    requires
        0 <= head,
        head + 1 < h,
    ensures
        apply_step(head, h, index, bodies).1 == if h - head - 1 > 512 {
            head + 512
        } else {
            h
        },
{
}

// ---------------------------------------------------------------------------
// The entry of a block
// ---------------------------------------------------------------------------

/// A value leg of an internal transaction.
#[derive(Debug, Clone)]
pub struct CallValue {
    pub call_value: i64,
    pub token_id: String,
}

/// An internal transaction as the stores hold it.
#[derive(Debug, Clone)]
pub struct InternalTransaction {
    pub hash: Vec<u8>,
    pub caller_address: Vec<u8>,
    pub transfer_to_address: Vec<u8>,
    pub call_value_info: Vec<CallValue>,
    /// The kind of call.
    pub note: Vec<u8>,
    pub rejected: bool,
    pub extra: String,
}

/// A contract log.
#[derive(Debug, Clone)]
pub struct VmLog {
    pub address: Vec<u8>,
    pub topics: Vec<Vec<u8>>,
    pub data: Vec<u8>,
}

/// An internal transaction as the log carries it.
#[derive(Debug, Clone)]
pub struct InternalTx {
    pub caller: Vec<u8>,
    pub transfer_to: Vec<u8>,
    pub call_value: i64,
    pub token_id: String,
    pub rejected: bool,
}

/// The native value that the legs from `i` on move: that of the first leg
/// without a token.
pub open spec fn native_value(legs: Seq<CallValue>, i: int) -> i64
    decreases legs.len() - i,
{
    if i < 0 || i >= legs.len() {
        0
    } else if legs[i].token_id@.len() == 0 {
        legs[i].call_value
    } else {
        native_value(legs, i + 1)
    }
}

/// The token that the legs from `i` on move: that of the first leg whose token
/// is neither empty nor the no-token mark.
pub open spec fn moved_token(legs: Seq<CallValue>, i: int) -> Seq<char>
    decreases legs.len() - i,
{
    if i < 0 || i >= legs.len() {
        Seq::empty()
    } else if legs[i].token_id@.len() > 0 && legs[i].token_id@ != "0"@ {
        legs[i].token_id@
    } else {
        moved_token(legs, i + 1)
    }
}

/// Whether an entry's internal transaction is that of the stores.
pub open spec fn same_internal(r: InternalTx, t: InternalTransaction) -> bool {
    &&& r.caller@ == t.caller_address@
    &&& r.transfer_to@ == t.transfer_to_address@
    &&& r.call_value == native_value(t.call_value_info@, 0)
    &&& r.token_id@ == moved_token(t.call_value_info@, 0)
    &&& r.rejected == t.rejected
}

fn internal_tx(t: &InternalTransaction) -> (r: InternalTx)
    ensures
        same_internal(r, *t),
{
    let legs = &t.call_value_info;
    let mut call_value: i64 = 0;
    let mut i: usize = 0;
    while i < legs.len() && legs[i].token_id.as_str().unicode_len() > 0
        invariant
            i <= legs@.len(),
            native_value(legs@, 0) == native_value(legs@, i as int),
        decreases legs@.len() - i,
    {
        i = i + 1;
    }
    if i < legs.len() {
        call_value = legs[i].call_value;
    }
    let mut token_id = String::new();
    let mut k: usize = 0;
    while k < legs.len() && !(legs[k].token_id.as_str().unicode_len() > 0 && !str_eq(
        legs[k].token_id.as_str(),
        "0",
    ))
        invariant
            k <= legs@.len(),
            moved_token(legs@, 0) == moved_token(legs@, k as int),
        decreases legs@.len() - k,
    {
        k = k + 1;
    }
    if k < legs.len() {
        token_id = legs[k].token_id.clone();
    }
    InternalTx {
        caller: copy_all(t.caller_address.as_slice()),
        transfer_to: copy_all(t.transfer_to_address.as_slice()),
        call_value,
        token_id,
        rejected: t.rejected,
    }
}

/// The decoded facts of a transaction.
#[derive(Debug, Clone)]
pub struct TxFacts {
    pub contract_type: i32,
    pub from: Vec<u8>,
    pub to: Option<Vec<u8>>,
    pub amount: i64,
    pub asset: Option<Vec<u8>>,
}

/// The transaction-info of a transaction.
#[derive(Debug, Clone)]
pub struct TxInfo {
    pub contract_address: Vec<u8>,
    pub logs: Vec<VmLog>,
    pub internal_transactions: Vec<InternalTransaction>,
}

/// A transaction of an applied block.
#[derive(Debug, Clone)]
pub struct AppliedTx {
    /// The id of its raw data; None where it has none.
    pub tx_id: Option<[u8; 32]>,
    pub facts: Option<TxFacts>,
    pub info: Option<TxInfo>,
    /// Whether its first result is a success; None where it has no result.
    pub first_result_ok: Option<bool>,
}

/// A transaction as the log carries it.
#[derive(Debug, Clone)]
pub struct EntryTx {
    pub txid: [u8; 32],
    pub contract_type: i32,
    pub success: bool,
    pub from: Vec<u8>,
    pub to: Vec<u8>,
    pub amount: i64,
    pub asset: Vec<u8>,
    pub vm_contract: Vec<u8>,
    pub logs: Vec<VmLog>,
    pub internal_txs: Vec<InternalTx>,
}

/// A block's header facts.
#[derive(Debug, Clone)]
pub struct HeaderFacts {
    pub parent_hash: Vec<u8>,
    pub timestamp: i64,
    pub witness_address: Vec<u8>,
}

/// The entry of an applied block.
#[derive(Debug, Clone)]
pub struct BlockApplied {
    pub height: i64,
    pub block_id: Vec<u8>,
    pub parent_id: Vec<u8>,
    pub timestamp_ms: i64,
    pub witness: Vec<u8>,
    pub solidified_height: i64,
    pub txinfo_missing: bool,
    pub txs: Vec<EntryTx>,
}

/// The bytes of an optional byte string, none where it is missing.
pub open spec fn bytes_or_none(b: Option<Vec<u8>>) -> Seq<u8> {
    match b {
        Some(v) => v@,
        None => Seq::empty(),
    }
}

fn copy_opt(b: &Option<Vec<u8>>) -> (r: Vec<u8>)
    ensures
        r@ == bytes_or_none(*b),
{
    match b {
        Some(v) => copy_all(v.as_slice()),
        None => Vec::new(),
    }
}

/// Whether two logs are the same.
pub open spec fn same_log(a: VmLog, b: VmLog) -> bool {
    &&& a.address@ == b.address@
    &&& a.data@ == b.data@
    &&& a.topics@.len() == b.topics@.len()
    &&& forall|i: int| 0 <= i < a.topics@.len() ==> (#[trigger] a.topics@[i])@ == b.topics@[i]@
}

/// A copy of a log.
pub fn copy_log(l: &VmLog) -> (r: VmLog)
    ensures
        same_log(r, *l),
{
    let mut topics: Vec<Vec<u8>> = Vec::new();
    let mut i: usize = 0;
    while i < l.topics.len()
        invariant
            i <= l.topics@.len(),
            topics@.len() == i,
            forall|j: int| 0 <= j < i ==> (#[trigger] topics@[j])@ == l.topics@[j]@,
        decreases l.topics@.len() - i,
    {
        topics.push(copy_all(l.topics[i].as_slice()));
        i = i + 1;
    }
    VmLog {
        address: copy_all(l.address.as_slice()),
        topics,
        data: copy_all(l.data.as_slice()),
    }
}

/// Whether an entry's transaction is the one of the block with this id.
pub open spec fn same_tx(e: EntryTx, t: AppliedTx, id: [u8; 32]) -> bool {
    &&& e.txid == id
    &&& e.success == (t.first_result_ok == Some(true))
    &&& (match t.facts {
        Some(f) => e.contract_type == f.contract_type && e.from@ == f.from@ && e.to@
            == bytes_or_none(f.to) && e.amount == f.amount && e.asset@ == bytes_or_none(f.asset),
        None => e.contract_type == 0 && e.from@.len() == 0 && e.to@.len() == 0 && e.amount == 0
            && e.asset@.len() == 0,
    })
    &&& (match t.info {
        Some(i) => {
            &&& e.vm_contract@ == i.contract_address@
            &&& e.logs@.len() == i.logs@.len()
            &&& forall|k: int|
                0 <= k < e.logs@.len() ==> same_log(#[trigger] e.logs@[k], i.logs@[k])
            &&& e.internal_txs@.len() == i.internal_transactions@.len()
            &&& forall|k: int|
                0 <= k < e.internal_txs@.len() ==> same_internal(
                    #[trigger] e.internal_txs@[k],
                    i.internal_transactions@[k],
                )
        },
        None => e.vm_contract@.len() == 0 && e.logs@.len() == 0 && e.internal_txs@.len() == 0,
    })
}

fn entry_tx(t: &AppliedTx, id: [u8; 32]) -> (r: EntryTx)
    ensures
        same_tx(r, *t, id),
{
    let success = match t.first_result_ok {
        Some(ok) => ok,
        None => false,
    };
    let mut logs: Vec<VmLog> = Vec::new();
    let mut internal_txs: Vec<InternalTx> = Vec::new();
    let mut vm_contract: Vec<u8> = Vec::new();
    if let Some(info) = &t.info {
        vm_contract = copy_all(info.contract_address.as_slice());
        let mut i: usize = 0;
        while i < info.logs.len()
            invariant
                i <= info.logs@.len(),
                logs@.len() == i,
                forall|j: int| 0 <= j < i ==> same_log(#[trigger] logs@[j], info.logs@[j]),
            decreases info.logs@.len() - i,
        {
            logs.push(copy_log(&info.logs[i]));
            i = i + 1;
        }
        let mut k: usize = 0;
        while k < info.internal_transactions.len()
            invariant
                k <= info.internal_transactions@.len(),
                internal_txs@.len() == k,
                forall|j: int|
                    0 <= j < k ==> same_internal(
                        #[trigger] internal_txs@[j],
                        info.internal_transactions@[j],
                    ),
            decreases info.internal_transactions@.len() - k,
        {
            internal_txs.push(internal_tx(&info.internal_transactions[k]));
            k = k + 1;
        }
    }
    match &t.facts {
        Some(f) => EntryTx {
            txid: id,
            contract_type: f.contract_type,
            success,
            from: copy_all(f.from.as_slice()),
            to: copy_opt(&f.to),
            amount: f.amount,
            asset: copy_opt(&f.asset),
            vm_contract,
            logs,
            internal_txs,
        },
        None => EntryTx {
            txid: id,
            contract_type: 0,
            success,
            from: Vec::new(),
            to: Vec::new(),
            amount: 0,
            asset: Vec::new(),
            vm_contract,
            logs,
            internal_txs,
        },
    }
}

/// The positions of the first `n` transactions that have raw data.
pub open spec fn with_raw(txs: Seq<AppliedTx>, n: nat) -> Seq<int>
    decreases n,
{
    if n == 0 {
        Seq::empty()
    } else {
        let before = with_raw(txs, (n - 1) as nat);
        if txs[n - 1].tx_id is Some {
            before.push(n - 1)
        } else {
            before
        }
    }
}

proof fn lemma_with_raw(txs: Seq<AppliedTx>, n: nat)
    requires
        n <= txs.len(),
    ensures
        with_raw(txs, n).len() <= n,
        forall|i: int|
            0 <= i < with_raw(txs, n).len() ==> 0 <= #[trigger] with_raw(txs, n)[i] < n
                && txs[with_raw(txs, n)[i]].tx_id is Some,
    decreases n,
{
    if n > 0 {
        lemma_with_raw(txs, (n - 1) as nat);
    }
}

/// Whether an entry is that of a block: built from its id, its header and its
/// transactions with their transaction-info.
pub open spec fn entry_of(
    r: BlockApplied,
    height: i64,
    block_id: Option<[u8; 32]>,
    header: Option<HeaderFacts>,
    txs: Seq<AppliedTx>,
    has_info: bool,
    solidified: i64,
) -> bool {
    let at = with_raw(txs, txs.len());
    &&& r.height == height
    &&& r.block_id@ == (match block_id {
        Some(id) => id@,
        None => Seq::empty(),
    })
    &&& match header {
        Some(h) => r.parent_id@ == h.parent_hash@ && r.timestamp_ms == h.timestamp && r.witness@
            == h.witness_address@,
        None => r.parent_id@.len() == 0 && r.timestamp_ms == 0 && r.witness@.len() == 0,
    }
    &&& r.solidified_height == solidified
    &&& r.txinfo_missing == (!has_info && txs.len() > 0)
    &&& r.txs@.len() == at.len()
    &&& forall|i: int|
        0 <= i < at.len() ==> same_tx(
            #[trigger] r.txs@[i],
            txs[at[i]],
            txs[at[i]].tx_id->Some_0,
        )
}

/// Builds the entry of a block from committed inputs; the same for live and
/// repaired blocks. `has_info` tells whether the block's transaction-info was
/// found.
pub fn build_apply(
    height: i64,
    block_id: Option<[u8; 32]>,
    header: Option<&HeaderFacts>,
    txs: &Vec<AppliedTx>,
    has_info: bool,
    solidified: i64,
) -> (r: BlockApplied)
    ensures
        entry_of(
            r,
            height,
            block_id,
            match header {
                Some(h) => Some(*h),
                None => None,
            },
            txs@,
            has_info,
            solidified,
        ),
{
    let mut out: Vec<EntryTx> = Vec::new();
    let mut i: usize = 0;
    while i < txs.len()
        invariant
            i <= txs@.len(),
            ({
                let at = with_raw(txs@, i as nat);
                &&& out@.len() == at.len()
                &&& forall|k: int|
                    0 <= k < at.len() ==> same_tx(
                        #[trigger] out@[k],
                        txs@[at[k]],
                        txs@[at[k]].tx_id->Some_0,
                    )
            }),
        decreases txs@.len() - i,
    {
        if let Some(id) = txs[i].tx_id {
            out.push(entry_tx(&txs[i], id));
        }
        i = i + 1;
    }
    let id: Vec<u8> = match &block_id {
        Some(b) => copy_all(b.as_slice()),
        None => Vec::new(),
    };
    let txinfo_missing = !has_info && txs.len() > 0;
    match header {
        Some(h) => BlockApplied {
            height,
            block_id: id,
            parent_id: copy_all(h.parent_hash.as_slice()),
            timestamp_ms: h.timestamp,
            witness: copy_all(h.witness_address.as_slice()),
            solidified_height: solidified,
            txinfo_missing,
            txs: out,
        },
        None => BlockApplied {
            height,
            block_id: id,
            parent_id: Vec::new(),
            timestamp_ms: 0,
            witness: Vec::new(),
            solidified_height: solidified,
            txinfo_missing,
            txs: out,
        },
    }
}

/// What is committed of a block: live from the apply, or read back from the
/// stores.
#[derive(Debug, Clone)]
pub struct CommittedBlock {
    /// None where the id cannot be computed.
    pub block_id: Option<[u8; 32]>,
    pub header: Option<HeaderFacts>,
    pub txs: Vec<AppliedTx>,
    /// Whether the block's transaction-info was found.
    pub has_info: bool,
}

impl CommittedBlock {
    /// Whether an entry is this block's, at this height and watermark.
    pub open spec fn gives(&self, r: BlockApplied, height: i64, solidified: i64) -> bool {
        entry_of(r, height, self.block_id, self.header, self.txs@, self.has_info, solidified)
    }

    fn entry(&self, height: i64, solidified: i64) -> (r: BlockApplied)
        ensures
            self.gives(r, height, solidified),
    {
        build_apply(
            height,
            self.block_id,
            self.header.as_ref(),
            &self.txs,
            self.has_info,
            solidified,
        )
    }
}

/// One entry of the log.
#[derive(Debug, Clone)]
pub enum Entry {
    /// Drop everything above this height.
    Unwind { to_height: i64 },
    /// A block.
    Apply(BlockApplied),
}

/// Whether an entry is what an event appends: a repair carries the block that
/// the stores hold at its height, an apply the block that was applied. A repair
/// of a block that the stores do not hold appends nothing.
pub open spec fn appended(
    event: LogEvent,
    live: CommittedBlock,
    stored: Option<CommittedBlock>,
    solidified: i64,
    r: Option<Entry>,
) -> bool {
    match (event, r) {
        (LogEvent::Unwind(to), Some(Entry::Unwind { to_height })) => to_height == to,
        (LogEvent::Repair(h), Some(Entry::Apply(e))) => stored is Some && stored->Some_0.gives(
            e,
            h,
            solidified,
        ),
        (LogEvent::Repair(h), None) => stored is None,
        (LogEvent::Apply(h), Some(Entry::Apply(e))) => live.gives(e, h, solidified),
        _ => false,
    }
}

/// Derives a missed block's entry from the stores; None where they do not hold
/// it.
pub fn derive_from_stores(height: i64, stored: Option<&CommittedBlock>, solidified: i64) -> (r:
    Option<BlockApplied>)
    ensures
        match (stored, r) {
            (Some(b), Some(e)) => b.gives(e, height, solidified),
            (None, None) => true,
            _ => false,
        },
{
    match stored {
        Some(b) => Some(b.entry(height, solidified)),
        None => None,
    }
}

/// The entry of an event. `live` is the block that was applied, `stored` what the
/// stores hold at the event's height.
pub fn entry_for(
    event: &LogEvent,
    live: &CommittedBlock,
    stored: Option<&CommittedBlock>,
    solidified: i64,
) -> (r: Option<Entry>)
    ensures
        appended(
            *event,
            *live,
            match stored {
                Some(b) => Some(*b),
                None => None,
            },
            solidified,
            r,
        ),
{
    match event {
        LogEvent::Unwind(to) => Some(Entry::Unwind { to_height: *to }),
        LogEvent::Repair(h) => match derive_from_stores(*h, stored, solidified) {
            Some(e) => Some(Entry::Apply(e)),
            None => None,
        },
        LogEvent::Apply(h) => Some(Entry::Apply(live.entry(*h, solidified))),
    }
}

/// A repaired entry is the one that would have been written live, but for the
/// watermark, which is as of the repair.
pub proof fn repaired_entries_are_live_entries(
    b: CommittedBlock,
    live: BlockApplied,
    height: i64,
    then: i64,
    now: i64,
)
    requires
        b.gives(live, height, then),
    ensures
        appended(
            LogEvent::Repair(height),
            b,
            Some(b),
            now,
            Some(Entry::Apply(BlockApplied { solidified_height: now, ..live })),
        ),
{
}

// ---------------------------------------------------------------------------
// What an entry says
// ---------------------------------------------------------------------------

/// The native value of an internal transaction is that of its first leg without a
/// token, whatever its other legs move; it is zero where every leg moves a token.
pub proof fn native_values_are_of_the_first_plain_leg(r: InternalTx, t: InternalTransaction, k: int)
    requires
        same_internal(r, t),
    ensures
        0 <= k < t.call_value_info@.len() && t.call_value_info@[k].token_id@.len() == 0 && (forall|
            j: int,
        |
            0 <= j < k ==> (#[trigger] t.call_value_info@[j]).token_id@.len() > 0) ==> r.call_value
            == t.call_value_info@[k].call_value,
        (forall|j: int|
            0 <= j < t.call_value_info@.len() ==> (#[trigger] t.call_value_info@[j]).token_id@.len()
                > 0) ==> r.call_value == 0,
{
    lemma_native_value(t.call_value_info@, 0, k);
}

proof fn lemma_native_value(legs: Seq<CallValue>, i: int, k: int)
    requires
        0 <= i <= legs.len(),
    ensures
        i <= k < legs.len() && legs[k].token_id@.len() == 0 && (forall|j: int|
            i <= j < k ==> (#[trigger] legs[j]).token_id@.len() > 0) ==> native_value(legs, i)
            == legs[k].call_value,
        (forall|j: int| i <= j < legs.len() ==> (#[trigger] legs[j]).token_id@.len() > 0)
            ==> native_value(legs, i) == 0,
    decreases legs.len() - i,
{
    if i < legs.len() {
        lemma_native_value(legs, i + 1, k);
    }
}

/// The token of an internal transaction is that of its first leg that names a real
/// one: neither no token nor the mark for none. There is none where no leg does.
pub proof fn tokens_are_of_the_first_real_leg(r: InternalTx, t: InternalTransaction, k: int)
    requires
        same_internal(r, t),
    ensures
        0 <= k < t.call_value_info@.len() && t.call_value_info@[k].token_id@.len() > 0
            && t.call_value_info@[k].token_id@ != "0"@ && (forall|j: int|
            0 <= j < k ==> (#[trigger] t.call_value_info@[j]).token_id@.len() == 0
                || t.call_value_info@[j].token_id@ == "0"@) ==> r.token_id@
            == t.call_value_info@[k].token_id@,
        (forall|j: int|
            0 <= j < t.call_value_info@.len() ==> (#[trigger] t.call_value_info@[j]).token_id@.len()
                == 0 || t.call_value_info@[j].token_id@ == "0"@) ==> r.token_id@.len() == 0,
        r.token_id@ != "0"@,
{
    lemma_moved_token(t.call_value_info@, 0, k);
    reveal_strlit("0");
}

proof fn lemma_moved_token(legs: Seq<CallValue>, i: int, k: int)
    requires
        0 <= i <= legs.len(),
    ensures
        i <= k < legs.len() && legs[k].token_id@.len() > 0 && legs[k].token_id@ != "0"@ && (forall|
            j: int,
        |
            i <= j < k ==> (#[trigger] legs[j]).token_id@.len() == 0 || legs[j].token_id@ == "0"@)
            ==> moved_token(legs, i) == legs[k].token_id@,
        (forall|j: int|
            i <= j < legs.len() ==> (#[trigger] legs[j]).token_id@.len() == 0 || legs[j].token_id@
                == "0"@) ==> moved_token(legs, i).len() == 0,
        moved_token(legs, i).len() > 0 ==> moved_token(legs, i) != "0"@,
    decreases legs.len() - i,
{
    if i < legs.len() {
        lemma_moved_token(legs, i + 1, k);
    }
}

/// An internal transaction keeps who called, who was paid, and whether it was undone.
pub proof fn internal_parties_are_kept(r: InternalTx, t: InternalTransaction)
    requires
        same_internal(r, t),
    ensures
        r.caller@ == t.caller_address@,
        r.transfer_to@ == t.transfer_to_address@,
        r.rejected == t.rejected,
{
}

/// The entry of a transaction carries its facts: its id, whether its first result is a
/// success, its kind, parties, amount and asset, each empty where nothing is known, and
/// the contract, the logs and the internal transactions of its transaction-info.
pub proof fn entries_carry_the_facts(e: EntryTx, t: AppliedTx, id: [u8; 32], k: int)
    requires
        same_tx(e, t, id),
    ensures
        e.txid@ == id@,
        e.success <==> t.first_result_ok == Some(true),
        t.facts matches Some(f) ==> {
            &&& e.contract_type == f.contract_type
            &&& e.from@ == f.from@
            &&& e.amount == f.amount
            &&& f.to matches Some(to) ==> e.to@ == to@
            &&& f.to is None ==> e.to@.len() == 0
            &&& f.asset matches Some(asset) ==> e.asset@ == asset@
            &&& f.asset is None ==> e.asset@.len() == 0
        },
        t.facts is None ==> e.contract_type == 0 && e.from@.len() == 0 && e.to@.len() == 0
            && e.amount == 0 && e.asset@.len() == 0,
        t.info is None ==> e.vm_contract@.len() == 0 && e.logs@.len() == 0 && e.internal_txs@.len()
            == 0,
        t.info matches Some(i) ==> {
            &&& e.vm_contract@ == i.contract_address@
            &&& e.logs@.len() == i.logs@.len()
            &&& e.internal_txs@.len() == i.internal_transactions@.len()
            &&& 0 <= k < i.logs@.len() ==> e.logs@[k].address@ == i.logs@[k].address@
                && e.logs@[k].data@ == i.logs@[k].data@ && e.logs@[k].topics@.len()
                == i.logs@[k].topics@.len()
            &&& 0 <= k < i.internal_transactions@.len() ==> same_internal(
                e.internal_txs@[k],
                i.internal_transactions@[k],
            )
        },
{
    if let Some(i) = t.info {
        if 0 <= k < i.logs@.len() {
            assert(same_log(e.logs@[k], i.logs@[k]));
        }
        if 0 <= k < i.internal_transactions@.len() {
            assert(same_internal(e.internal_txs@[k], i.internal_transactions@[k]));
        }
    }
}

/// A log is kept whole.
pub proof fn logs_are_kept_whole(a: VmLog, b: VmLog, i: int)
    requires
        same_log(a, b),
        0 <= i < b.topics@.len(),
    ensures
        a.address@ == b.address@,
        a.data@ == b.data@,
        a.topics@.len() == b.topics@.len(),
        a.topics@[i]@ == b.topics@[i]@,
{
}

/// The entry of a block is the block's: its height and id, its header, the watermark,
/// and exactly its transactions with raw data, in their order. `txinfo_missing` tells
/// that there are transactions and that nothing was found about them.
pub proof fn entries_are_of_their_block(
    r: BlockApplied,
    height: i64,
    block_id: Option<[u8; 32]>,
    header: Option<HeaderFacts>,
    txs: Seq<AppliedTx>,
    has_info: bool,
    solidified: i64,
    i: int,
    p: int,
)
    requires
        entry_of(r, height, block_id, header, txs, has_info, solidified),
    ensures
        r.height == height,
        block_id matches Some(id) ==> r.block_id@ == id@,
        block_id is None ==> r.block_id@.len() == 0,
        header matches Some(h) ==> r.parent_id@ == h.parent_hash@ && r.timestamp_ms == h.timestamp
            && r.witness@ == h.witness_address@,
        header is None ==> r.parent_id@.len() == 0 && r.timestamp_ms == 0 && r.witness@.len() == 0,
        r.solidified_height == solidified,
        r.txinfo_missing <==> txs.len() > 0 && !has_info,
        r.txs@.len() == with_raw(txs, txs.len()).len(),
        0 <= i < r.txs@.len() ==> {
            let at = with_raw(txs, txs.len())[i];
            &&& 0 <= at < txs.len()
            &&& txs[at].tx_id is Some
            &&& same_tx(r.txs@[i], txs[at], txs[at].tx_id->Some_0)
            &&& i + 1 < r.txs@.len() ==> at < with_raw(txs, txs.len())[i + 1]
        },
        0 <= p < txs.len() && txs[p].tx_id is Some ==> with_raw(txs, txs.len()).contains(p),
{
    lemma_with_raw(txs, txs.len());
    lemma_with_raw_order(txs, txs.len(), i, p);
    if 0 <= i < r.txs@.len() {
        assert(same_tx(
            r.txs@[i],
            txs[with_raw(txs, txs.len())[i]],
            txs[with_raw(txs, txs.len())[i]].tx_id->Some_0,
        ));
    }
}

proof fn lemma_with_raw_order(txs: Seq<AppliedTx>, n: nat, i: int, p: int)
    requires
        n <= txs.len(),
    ensures
        0 <= i && i + 1 < with_raw(txs, n).len() ==> with_raw(txs, n)[i] < with_raw(txs, n)[i + 1],
        0 <= p < n && txs[p].tx_id is Some ==> with_raw(txs, n).contains(p),
    decreases n,
{
    if n > 0 {
        let before = with_raw(txs, (n - 1) as nat);
        let now = with_raw(txs, n);
        lemma_with_raw_order(txs, (n - 1) as nat, i, p);
        lemma_with_raw(txs, (n - 1) as nat);
        if 0 <= p < n && txs[p].tx_id is Some {
            if p == n - 1 {
                assert(now[now.len() - 1] == p);
            } else {
                let k = choose|k: int| 0 <= k < before.len() && before[k] == p;
                assert(now[k] == p);
            }
        }
    }
}

// ---------------------------------------------------------------------------
// What an apply appends
// ---------------------------------------------------------------------------

/// A gap is repaired by exactly the missed heights that the stores know, in rising
/// order: those whose id the index holds and whose body is stored under it.
pub proof fn repairs_are_the_known_heights(
    index: Map<i64, BlockId>,
    bodies: Set<BlockId>,
    from: int,
    to: int,
    g: i64,
    i: int,
)
    requires
        0 <= from <= to <= i64::MAX,
    ensures
        repairs(index, bodies, from, to).contains(LogEvent::Repair(g)) <==> from <= g < to
            && index.contains_key(g) && bodies.contains(index[g]),
        0 <= i < repairs(index, bodies, from, to).len() ==> repairs(index, bodies, from, to)[i]
            is Repair,
        0 <= i && i + 1 < repairs(index, bodies, from, to).len() ==> repairs(
            index,
            bodies,
            from,
            to,
        )[i]->Repair_0 < repairs(index, bodies, from, to)[i + 1]->Repair_0,
        0 <= i < repairs(index, bodies, from, to).len() ==> from <= repairs(
            index,
            bodies,
            from,
            to,
        )[i]->Repair_0 < to,
    decreases to - from,
{
    if from < to {
        let before = repairs(index, bodies, from, to - 1);
        let now = repairs(index, bodies, from, to);
        repairs_are_the_known_heights(index, bodies, from, to - 1, g, i);
        let last = LogEvent::Repair((to - 1) as i64);
        if derivable(index, bodies, to - 1) {
            assert(now == before.push(last));
            assert(now[now.len() - 1] == last);
            if before.contains(LogEvent::Repair(g)) {
                let k = choose|k: int| 0 <= k < before.len() && before[k] == LogEvent::Repair(g);
                assert(now[k] == LogEvent::Repair(g));
            }
            if now.contains(LogEvent::Repair(g)) {
                let k = choose|k: int| 0 <= k < now.len() && now[k] == LogEvent::Repair(g);
                if k < before.len() {
                    assert(before[k] == LogEvent::Repair(g));
                }
            }
        }
    }
}

/// The four ways of an apply. An empty log, and the next height, take the block as it
/// is. A height at or below the head is a reorg: consumers go back to just below it
/// first. A height further up closes the gap first, at most 512 heights at once, and
/// the block itself only goes out once the gap is closed.
pub proof fn applies_go_four_ways(
    head: int,
    h: int,
    index: Map<i64, BlockId>,
    bodies: Set<BlockId>,
)
    requires
        -1 <= head <= i64::MAX,
        0 <= h <= i64::MAX,
    ensures
        ({
            let (events, to) = apply_step(head, h, index, bodies);
            let gap = h - head - 1;
            &&& head == -1 || gap == 0 ==> events == seq![LogEvent::Apply(h as i64)] && to == h
            &&& head >= 0 && h <= head ==> events == seq![
                LogEvent::Unwind((h - 1) as i64),
                LogEvent::Apply(h as i64),
            ] && to == h
            &&& head >= 0 && 1 <= gap <= 512 ==> events == repairs(index, bodies, head + 1, h).push(
                LogEvent::Apply(h as i64),
            ) && to == h
            &&& head >= 0 && gap > 512 ==> events == repairs(index, bodies, head + 1, head + 513)
                && to == head + 512
        }),
{
}

/// The counters rise by what went out, each kind of entry in its own.
pub proof fn counters_count_what_went_out(c: FirehoseCounters, events: Seq<LogEvent>, n: nat)
    requires
        n <= events.len(),
        c.entries + n <= u64::MAX,
        c.unwinds + n <= u64::MAX,
        c.gap_repaired_blocks + n <= u64::MAX,
    ensures
        ({
            let done = events.take(n as int);
            let now = counted(c, events, n);
            &&& now.entries == c.entries + done.filter(|e: LogEvent| e is Apply).len()
            &&& now.unwinds == c.unwinds + done.filter(|e: LogEvent| e is Unwind).len()
            &&& now.gap_repaired_blocks == c.gap_repaired_blocks + done.filter(
                |e: LogEvent| e is Repair,
            ).len()
        }),
        counted(c, events, n).entries - c.entries + counted(c, events, n).unwinds - c.unwinds
            + counted(c, events, n).gap_repaired_blocks - c.gap_repaired_blocks == n,
    decreases n,
{
    reveal(Seq::filter);
    let done = events.take(n as int);
    if n > 0 {
        counters_count_what_went_out(c, events, (n - 1) as nat);
        assert(done.drop_last() =~= events.take(n - 1));
        assert(done.last() == events[n - 1]);
    }
}

/// What came of an apply: unless every entry went out the head and the sync count stay;
/// else the head is the planned one, and the count is zero exactly after a sync that was
/// due and succeeded, or where there was nothing to count.
pub proof fn outcomes_move_the_writer(w: FirehoseWriter, a: Appends, appended: nat, synced: bool)
    requires
        appended <= a.events@.len(),
        w.since_sync < u32::MAX,
    ensures
        ({
            let after = w.settled(a, appended, synced);
            &&& appended < a.events@.len() ==> after.head_height == w.head_height
                && after.since_sync == w.since_sync
            &&& appended == a.events@.len() ==> after.head_height == a.head
            &&& appended == a.events@.len() && a.sync && synced ==> after.since_sync == 0
            &&& appended == a.events@.len() && !(a.sync && synced) && a.applies ==> after.since_sync
                == w.since_sync + 1
            &&& appended == a.events@.len() && !(a.sync && synced) && !a.applies
                ==> after.since_sync == w.since_sync
        }),
{
}

/// Opening a log, case by case: an entry that cannot be read is refused; a log that is
/// ahead of the chain goes back to the chain's head, unless it is ahead by more than
/// ten thousand or the chain has no head at all; a log whose newest block is not the
/// canonical one goes back below it, and to the solidified height where that is lower;
/// anything else is left as it is.
pub proof fn openings_are_decided_by_the_head(
    head: LogHead,
    consensus: Option<i64>,
    index: Map<i64, BlockId>,
    solidified: Option<i64>,
)
    ensures
        head is Undecodable ==> opening(head, consensus, index, solidified) is Corrupt,
        head is Empty && (consensus matches Some(c) ==> c >= -1) ==> opening(
            head,
            consensus,
            index,
            solidified,
        ) is Agrees,
        head matches LogHead::Unwind { to_height } ==> {
            let c = match consensus {
                Some(c) => c as int,
                None => 0,
            };
            &&& to_height <= c ==> opening(head, consensus, index, solidified) is Agrees
            &&& to_height > c && consensus is Some && to_height - c <= 10_000 ==> opening(
                head,
                consensus,
                index,
                solidified,
            ) == Opening::UnwindTo(c)
            &&& to_height > c && (consensus is None || to_height - c > 10_000) ==> opening(
                head,
                consensus,
                index,
                solidified,
            ) is Corrupt
        },
        head matches LogHead::Apply { height, block_id } ==> {
            let c = match consensus {
                Some(c) => c as int,
                None => 0,
            };
            let forked = height >= 0 && index.contains_key(height) && index[height].raw@
                != block_id@;
            &&& height > c && consensus is Some && height - c <= 10_000 ==> opening(
                head,
                consensus,
                index,
                solidified,
            ) == Opening::UnwindTo(c)
            &&& height > c && (consensus is None || height - c > 10_000) ==> opening(
                head,
                consensus,
                index,
                solidified,
            ) is Corrupt
            &&& height <= c && !forked ==> opening(head, consensus, index, solidified) is Agrees
            &&& height <= c && forked && solidified is None ==> opening(
                head,
                consensus,
                index,
                solidified,
            ) == Opening::UnwindTo(height - 1)
            &&& height <= c && forked && solidified is Some && solidified->Some_0 >= height
                ==> opening(head, consensus, index, solidified) == Opening::UnwindTo(height - 1)
            &&& height <= c && forked && solidified is Some && solidified->Some_0 < height
                ==> opening(head, consensus, index, solidified) == Opening::UnwindTo(
                solidified->Some_0 as int,
            )
        },
{
}

/// Each event appends its own block: a repair the one that the stores hold at its
/// height, or nothing where they hold none; an apply the one that was applied.
pub proof fn events_append_their_block(
    event: LogEvent,
    live: CommittedBlock,
    stored: Option<CommittedBlock>,
    solidified: i64,
    r: Option<Entry>,
)
    requires
        appended(event, live, stored, solidified, r),
    ensures
        event matches LogEvent::Unwind(to) ==> r == Some(Entry::Unwind { to_height: to }),
        event is Repair && stored is None ==> r is None,
        event is Repair && stored is Some ==> {
            let h = event->Repair_0;
            let b = stored->Some_0;
            &&& r is Some && r->Some_0 is Apply
            &&& entry_of(
                r->Some_0->Apply_0,
                h,
                b.block_id,
                b.header,
                b.txs@,
                b.has_info,
                solidified,
            )
        },
        event matches LogEvent::Apply(h) ==> {
            &&& r is Some && r->Some_0 is Apply
            &&& entry_of(
                r->Some_0->Apply_0,
                h,
                live.block_id,
                live.header,
                live.txs@,
                live.has_info,
                solidified,
            )
        },
{
}

/// The applied block is put off exactly if more than 512 heights are missing below it.
pub proof fn wide_gaps_wait(w: FirehoseWriter, h: i64)
    ensures
        w.waits(h) <==> w.head_height >= 0 && h - w.head_height - 1 > 512,
        w.head_height < 0 && w.since_sync < u32::MAX ==> w.ready(h),
        0 <= w.head_height < h && w.head_height <= 9_000_000_000_000_000_000 && w.since_sync
            < u32::MAX ==> w.ready(h),
        0 <= h <= w.head_height && w.since_sync < u32::MAX ==> w.ready(h),
{
}

/// A counter goes up by one, and starts over past its greatest value.
pub proof fn counters_go_up_by_one(c: u64)
    ensures
        c < u64::MAX ==> bumped(c) == c + 1,
        c == u64::MAX ==> bumped(c) == 0,
{
}

/// The height that a log stands at: that of its newest block, or the one it was
/// unwound to; an empty log stands below the first block.
pub proof fn logs_stand_at_their_newest_block(h: LogHead)
    ensures
        h is Apply ==> head_height(h) == h->Apply_height,
        h is Unwind ==> head_height(h) == h->to_height,
        h !is Apply && h !is Unwind ==> head_height(h) == -1,
{
}

/// What an applied block makes go out: itself alone on an empty log and on the
/// next height, an unwind before it on a reorg; and the log is synced near the
/// tip, on every sixteenth block, and while a gap is being closed.
pub proof fn applied_blocks_go_out(
    w: FirehoseWriter,
    h: i64,
    block_ts: i64,
    now: i64,
    stores: BlockStores,
    r: Appends,
)
    requires
        w.ready(h),
        w.head_height >= -1,
        h >= 0,
        call_ensures(FirehoseWriter::on_block_applied, (&w, h, block_ts, now, &stores), r),
    ensures
        w.head_height == -1 || h == w.head_height + 1 ==> r.events@ == seq![LogEvent::Apply(h)]
            && r.head == h && r.applies,
        w.head_height >= 0 && h <= w.head_height ==> r.events@ == seq![
            LogEvent::Unwind((h - 1) as i64),
            LogEvent::Apply(h),
        ] && r.head == h && r.applies,
        w.head_height >= 0 && h - w.head_height - 1 > 512 ==> !r.applies && r.sync && r.head
            == w.head_height + 512,
        w.since_sync >= 15 ==> r.sync,
        now - block_ts < 300_000 ==> r.sync,
        now - block_ts >= 300_000 && w.since_sync < 15 && (w.head_height < 0 || h - w.head_height - 1
            <= 512) ==> !r.sync,
{
    applies_go_four_ways(w.head_height as int, h as int, stores.index@, stores.bodies@);
    crate::durability::near_the_tip_is_five_minutes(now, block_ts);
    wide_gaps_wait(w, h);
}

/// A writer that is opened on an agreeing log has written nothing and stands at
/// the log's head; on one that was unwound it counts that unwind.
pub proof fn opened_writers_start_at_the_head(
    head: LogHead,
    consensus: Option<i64>,
    index: BlockIndex,
    solidified: Option<i64>,
    r: Result<(FirehoseWriter, Option<i64>), String>,
)
    requires
        head_height(head) - or_zero(consensus) <= i64::MAX,
        call_ensures(FirehoseWriter::open, (&head, consensus, &index, solidified), r),
    ensures
        r is Ok ==> {
            let (w, unwind) = r->Ok_0;
            &&& w.since_sync == 0
            &&& w.counters.entries == 0
            &&& w.counters.gap_repaired_blocks == 0
            &&& unwind is None ==> w.head_height == head_height(head) && w.counters.unwinds == 0
            &&& unwind is Some ==> w.head_height == unwind->Some_0 && w.counters.unwinds == 1
        },
{
}

} // verus!
