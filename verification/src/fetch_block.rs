//! Single-block fetch with backpressure: at most one fetch is in flight, and
//! it holds its slot for half of the fetch timeout.

use vstd::prelude::*;
use vstd::string::*;

use crate::binary64::{double_of, halves_are_exact, multiply, of_nat, product, truncated, truncated_to, Double};
use crate::bytes::bytes_eq;

verus! {

/// A pending fetch.
#[derive(Debug, Clone, PartialEq, Eq)]
pub struct FetchBlockInfo {
    /// Block hash being requested.
    pub block_hash: [u8; 32],
    /// Peer key (peer id or `IP:port`).
    pub peer_key: String,
    /// Wall-clock unix-ms when the fetch was dispatched.
    pub started_ms: u64,
}

/// A pending fetch as plain values.
pub struct FetchView {
    pub block_hash: Seq<u8>,
    pub peer_key: Seq<char>,
    pub started_ms: u64,
}

impl View for FetchBlockInfo {
    type V = FetchView;

    open spec fn view(&self) -> FetchView {
        FetchView {
            block_hash: self.block_hash@,
            peer_key: self.peer_key@,
            started_ms: self.started_ms,
        }
    }
}

/// Outcome of [`FetchBlockScheduler::try_fetch`].
#[derive(Debug, Clone, Copy, PartialEq, Eq, Structural)]
pub enum FetchDecision {
    /// The slot was free or its budget spent; the caller issues the fetch.
    Dispatch,
    /// A previous fetch is still inside its budget window.
    Defer,
    /// The block is not the next expected one.
    NotNextBlock,
}

/// One half, as a binary64.
pub open spec fn half() -> (nat, int) {
    (0x10_0000_0000_0000, -53)
}

/// The time budget of a timeout: half of it, as binary64 halves it, without
/// the fraction.
pub open spec fn budget(timeout: nat) -> nat {
    truncated(product(of_nat(timeout), half()), u64::MAX as nat)
}

/// Single-slot scheduler.
#[derive(Debug, Clone)]
pub struct FetchBlockScheduler {
    fetch_timeout_ms: u64,
    in_flight: Option<FetchBlockInfo>,
}

/// Milliseconds from `start` to `now`, zero where the clock went back.
pub open spec fn elapsed(start: u64, now: u64) -> int {
    if now < start {
        0
    } else {
        now - start
    }
}

/// What a request for a fetch decides, and what it leaves in the slot.
pub open spec fn fetch_step(
    slot: Option<FetchView>,
    budget: int,
    wanted: FetchView,
    block_num: int,
    head: int,
) -> (FetchDecision, Option<FetchView>) {
    if block_num != head + 1 {
        (FetchDecision::NotNextBlock, slot)
    } else if slot is Some && elapsed((slot->Some_0).started_ms, wanted.started_ms) < budget {
        (FetchDecision::Defer, slot)
    } else {
        (FetchDecision::Dispatch, Some(wanted))
    }
}

/// One fetch at a time: after a dispatch, no request made before half the
/// timeout has passed is dispatched, whichever block or peer it names, and the
/// slot keeps the first one.
pub proof fn at_most_one_fetch_in_flight(
    slot: Option<FetchView>,
    budget: int,
    first: FetchView,
    block_num: int,
    head: int,
    later: FetchView,
    later_num: int,
    later_head: int,
)
    requires
        fetch_step(slot, budget, first, block_num, head).0 == FetchDecision::Dispatch,
        elapsed(first.started_ms, later.started_ms) < budget,
    ensures
        ({
            let after = fetch_step(slot, budget, first, block_num, head).1;
            let again = fetch_step(after, budget, later, later_num, later_head);
            again.0 != FetchDecision::Dispatch && again.1 == Some(first)
        }),
{
}

impl FetchBlockScheduler {
    /// The fetch timeout in milliseconds.
    pub closed spec fn timeout(&self) -> nat {
        self.fetch_timeout_ms as nat
    }

    /// The pending fetch, if any.
    pub closed spec fn slot(&self) -> Option<FetchView> {
        match self.in_flight {
            Some(info) => Some(info@),
            None => None,
        }
    }

    pub fn new(fetch_timeout_ms: u64) -> (r: Self)
        ensures
            r.timeout() == fetch_timeout_ms,
            r.slot() is None,
    {
        FetchBlockScheduler { fetch_timeout_ms, in_flight: None }
    }

    /// The in-flight record, if any.
    pub fn in_flight(&self) -> (r: Option<&FetchBlockInfo>)
        ensures
            (match r {
                Some(info) => Some(info@),
                None => None,
            }) == self.slot(),
    {
        self.in_flight.as_ref()
    }

    /// Time budget in milliseconds: half of the timeout.
    pub fn budget_ms(&self) -> (r: u64)
        ensures
            r == budget(self.timeout()),
    {
        let t = double_of(self.fetch_timeout_ms as u128);
        let x = multiply(&t, &Double { mant: 0x10_0000_0000_0000, exp: -53 });
        truncated_to(&x, u64::MAX)
    }

    /// Asks whether to dispatch a fetch. Only the block after the head is
    /// eligible.
    pub fn try_fetch(
        &mut self,
        block_num: i64,
        block_hash: [u8; 32],
        peer_key: &str,
        head_block_num: i64,
        now_ms: u64,
    ) -> (r: FetchDecision)
        requires
            head_block_num < i64::MAX,
        ensures
            final(self).timeout() == old(self).timeout(),
            (r, final(self).slot()) == fetch_step(
                old(self).slot(),
                budget(old(self).timeout()) as int,
                FetchView { block_hash: block_hash@, peer_key: peer_key@, started_ms: now_ms },
                block_num as int,
                head_block_num as int,
            ),
    {
        if block_num != head_block_num + 1 {
            return FetchDecision::NotNextBlock;
        }
        if let Some(existing) = &self.in_flight {
            let elapsed: u64 = now_ms.saturating_sub(existing.started_ms);
            if elapsed < self.budget_ms() {
                return FetchDecision::Defer;
            }
        }
        self.in_flight = Some(
            FetchBlockInfo { block_hash, peer_key: peer_key.to_owned(), started_ms: now_ms },
        );
        FetchDecision::Dispatch
    }

    /// Marks the in-flight fetch as complete and hands it out.
    pub fn complete(&mut self) -> (r: Option<FetchBlockInfo>)
        ensures
            (match r {
                Some(info) => Some(info@),
                None => None,
            }) == old(self).slot(),
            final(self).slot() is None,
            final(self).timeout() == old(self).timeout(),
    {
        self.in_flight.take()
    }

    /// Reclaims the slot when the fetch's hash matches the completed block.
    /// Returns whether this call released it.
    pub fn complete_if_matches(&mut self, hash: &[u8; 32]) -> (r: bool)
        ensures
            r == (old(self).slot() is Some && (old(self).slot()->Some_0).block_hash == hash@),
            final(self).slot() == (if r {
                None
            } else {
                old(self).slot()
            }),
            final(self).timeout() == old(self).timeout(),
    {
        let matches = match &self.in_flight {
            Some(existing) => bytes_eq(existing.block_hash.as_slice(), hash.as_slice()),
            None => false,
        };
        if matches {
            self.in_flight = None;
        }
        matches
    }
}

/// Only the block after the head is fetched; any other request leaves the slot
/// as it is.
pub proof fn only_the_next_block_is_fetched(
    slot: Option<FetchView>,
    budget: int,
    wanted: FetchView,
    block_num: int,
    head: int,
)
    ensures
        block_num != head + 1 <==> fetch_step(slot, budget, wanted, block_num, head).0
            == FetchDecision::NotNextBlock,
        block_num != head + 1 ==> fetch_step(slot, budget, wanted, block_num, head).1 == slot,
{
}

/// A free slot is taken at once, and so is one whose fetch has used up its
/// budget; a fetch within its budget keeps the slot. A clock that went back
/// has used up nothing.
pub proof fn slots_are_held_for_the_budget(
    slot: Option<FetchView>,
    budget: int,
    wanted: FetchView,
    head: int,
)
    requires
        budget >= 0,
    ensures
        ({
            let step = fetch_step(slot, budget, wanted, head + 1, head);
            let started = (slot->Some_0).started_ms;
            &&& slot is None ==> step == (FetchDecision::Dispatch, Some(wanted))
            &&& slot is Some && wanted.started_ms >= started && wanted.started_ms - started
                >= budget ==> step == (FetchDecision::Dispatch, Some(wanted))
            &&& slot is Some && wanted.started_ms - started < budget && budget > 0 ==> step == (
                FetchDecision::Defer,
                slot,
            )
        }),
{
}

/// A fetch holds its slot for half of the timeout, an odd millisecond dropped.
pub proof fn budgets_are_half_of_the_timeout(timeout: nat)
    requires
        timeout < 0x20_0000_0000_0000,
    ensures
        budget(timeout) == timeout / 2,
{
    halves_are_exact(timeout, u64::MAX as nat);
}

/// What a request comes to: a dispatch takes the slot for the block and the peer
/// it names, from now on, and any other answer leaves the slot alone.
pub proof fn requests_are_answered(
    s: &mut FetchBlockScheduler,
    block_num: i64,
    hash: [u8; 32],
    peer: &str,
    head: i64,
    now: u64,
    r: FetchDecision,
)
    requires
        head < i64::MAX,
        call_ensures(FetchBlockScheduler::try_fetch, (s, block_num, hash, peer, head, now), r),
    ensures
        block_num != head + 1 ==> r == FetchDecision::NotNextBlock,
        block_num == head + 1 && old(s).slot() is None ==> r == FetchDecision::Dispatch,
        r == FetchDecision::Dispatch ==> final(s).slot() is Some && {
            let w = final(s).slot()->Some_0;
            w.block_hash == hash@ && w.peer_key == peer@ && w.started_ms == now
        },
        r != FetchDecision::Dispatch ==> final(s).slot() == old(s).slot(),
        r == FetchDecision::Defer ==> old(s).slot() is Some && block_num == head + 1,
{
}

/// A completed block frees the slot only where the slot is its own.
pub proof fn only_the_fetched_block_frees_the_slot(
    s: &mut FetchBlockScheduler,
    hash: [u8; 32],
    r: bool,
)
    requires
        call_ensures(FetchBlockScheduler::complete_if_matches, (s, &hash), r),
    ensures
        r ==> final(s).slot() is None && old(s).slot() is Some && (
        old(s).slot()->Some_0).block_hash == hash@,
        !r ==> final(s).slot() == old(s).slot(),
        old(s).slot() is Some && (old(s).slot()->Some_0).block_hash == hash@ ==> r,
{
}

} // verus!
