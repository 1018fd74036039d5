//! A snapshot of the consensus-critical chain state, for diffing against a
//! reference node.

use vstd::prelude::*;

use crate::text::{hex_encode, hex_text};

verus! {

#[derive(Debug, Clone)]
pub struct StateSnapshot {
    pub head: HeadSnapshot,
    pub resources: ResourceSnapshot,
    pub fees: FeeSnapshot,
    /// The numbers of the proposals that are voted on.
    pub active_proposals: Vec<i64>,
    pub witnesses: WitnessSnapshot,
}

#[derive(Debug, Clone)]
pub struct HeadSnapshot {
    pub latest_block_number: i64,
    pub latest_block_timestamp: i64,
    pub latest_block_hash_hex: String,
    pub latest_solidified_block_num: i64,
    pub next_maintenance_time: i64,
}

#[derive(Debug, Clone, Copy, PartialEq, Eq, Structural)]
pub struct ResourceSnapshot {
    pub total_net_weight: i64,
    pub total_net_limit: i64,
    pub public_net_usage: i64,
    pub public_net_limit: i64,
    pub total_energy_weight: i64,
    pub total_energy_limit: i64,
    pub total_energy_current_limit: i64,
    pub total_energy_average_usage: i64,
    pub block_energy_usage: i64,
    pub allow_adaptive_energy: i64,
    pub energy_fee: i64,
    pub transaction_fee: i64,
}

#[derive(Debug, Clone, Copy, PartialEq, Eq, Structural)]
pub struct FeeSnapshot {
    pub total_transaction_cost: i64,
    pub total_create_account_cost: i64,
    pub burn_trx_amount: i64,
}

#[derive(Debug, Clone, Copy, PartialEq, Eq, Structural)]
pub struct WitnessSnapshot {
    /// Witnesses on file.
    pub total_count: usize,
    /// Those of them that produce blocks.
    pub active_count: usize,
    /// Blocks produced by the one with the most votes.
    pub top_produced: i64,
    /// Blocks produced by all of them.
    pub total_produced_sum: i64,
}

/// The head pointers as the properties store holds them.
#[derive(Debug, Clone, Copy)]
pub struct HeadProperties {
    pub number: Option<i64>,
    pub timestamp: Option<i64>,
    pub hash: Option<[u8; 32]>,
    pub solidified: Option<i64>,
    pub next_maintenance: Option<i64>,
}

/// A value, or zero where it was never stored.
pub open spec fn or_zero(v: Option<i64>) -> i64 {
    match v {
        Some(x) => x,
        None => 0,
    }
}

fn value_or_zero(v: Option<i64>) -> (r: i64)
    ensures
        r == or_zero(v),
{
    match v {
        Some(x) => x,
        None => 0,
    }
}

/// A witness on file.
#[derive(Debug, Clone, Copy, PartialEq, Eq, Structural)]
pub struct WitnessFacts {
    pub vote_count: i64,
    pub total_produced: i64,
    /// Whether it is among those that produce blocks.
    pub active: bool,
}

/// A proposal on file.
#[derive(Debug, Clone, Copy, PartialEq, Eq, Structural)]
pub struct ProposalFacts {
    pub number: i64,
    /// Whether it is still voted on.
    pub pending: bool,
}

/// The blocks that the first `n` witnesses produced.
pub open spec fn produced(v: Seq<WitnessFacts>, n: nat) -> int
    decreases n,
{
    if n == 0 {
        0
    } else {
        produced(v, (n - 1) as nat) + v[n - 1].total_produced
    }
}

/// How many of the first `n` witnesses are active.
pub open spec fn active(v: Seq<WitnessFacts>, n: nat) -> nat
    decreases n,
{
    if n == 0 {
        0
    } else {
        active(v, (n - 1) as nat) + if v[n - 1].active {
            1nat
        } else {
            0
        }
    }
}

/// Whether the witness at `t` has the most votes, and is the first of those that
/// have as many.
pub open spec fn is_top(v: Seq<WitnessFacts>, t: int) -> bool {
    &&& 0 <= t < v.len()
    &&& forall|i: int| 0 <= i < v.len() ==> (#[trigger] v[i]).vote_count <= v[t].vote_count
    &&& forall|i: int| 0 <= i < t ==> (#[trigger] v[i]).vote_count < v[t].vote_count
}

/// The numbers of the pending ones among the first `n` proposals.
pub open spec fn pending(v: Seq<ProposalFacts>, n: nat) -> Seq<i64>
    decreases n,
{
    if n == 0 {
        Seq::empty()
    } else if v[n - 1].pending {
        pending(v, (n - 1) as nat).push(v[n - 1].number)
    } else {
        pending(v, (n - 1) as nat)
    }
}

/// Whether every partial sum fits.
pub open spec fn sums_fit(v: Seq<WitnessFacts>) -> bool {
    forall|n: nat| n <= v.len() ==> i64::MIN <= #[trigger] produced(v, n) <= i64::MAX
}

/// Whether a summary is that of the witnesses on file.
pub open spec fn sums_up(r: WitnessSnapshot, v: Seq<WitnessFacts>) -> bool {
    &&& r.total_count == v.len()
    &&& r.active_count == active(v, v.len())
    &&& r.total_produced_sum == produced(v, v.len())
    &&& if v.len() == 0 {
        r.top_produced == 0
    } else {
        exists|t: int| #[trigger] is_top(v, t) && r.top_produced == v[t].total_produced
    }
}

/// There is only one summary.
pub proof fn summaries_are_unique(a: WitnessSnapshot, b: WitnessSnapshot, v: Seq<WitnessFacts>)
    requires
        sums_up(a, v),
        sums_up(b, v),
    ensures
        a == b,
{
    if v.len() > 0 {
        let t = choose|t: int| #[trigger] is_top(v, t) && a.top_produced == v[t].total_produced;
        let u = choose|u: int| #[trigger] is_top(v, u) && b.top_produced == v[u].total_produced;
        if t < u {
            assert(v[t].vote_count < v[u].vote_count);
        } else if u < t {
            assert(v[u].vote_count < v[t].vote_count);
        }
    }
}

fn summary(v: &Vec<WitnessFacts>) -> (r: WitnessSnapshot)
    requires
        sums_fit(v@),
    ensures
        sums_up(r, v@),
{
    let mut sum: i64 = 0;
    let mut n: usize = 0;
    let mut top: usize = 0;
    let mut i: usize = 0;
    while i < v.len()
        invariant
            i <= v@.len(),
            sums_fit(v@),
            sum == produced(v@, i as nat),
            n == active(v@, i as nat),
            n <= i,
            i > 0 ==> top < i,
            i == 0 ==> top == 0,
            forall|j: int| 0 <= j < i ==> (#[trigger] v@[j]).vote_count <= v@[top as int].vote_count,
            forall|j: int| 0 <= j < top ==> (#[trigger] v@[j]).vote_count < v@[top as int].vote_count,
        decreases v@.len() - i,
    {
        assert(i64::MIN <= produced(v@, (i + 1) as nat) <= i64::MAX);
        sum = sum + v[i].total_produced;
        if v[i].active {
            n = n + 1;
        }
        if v[i].vote_count > v[top].vote_count {
            top = i;
        }
        i = i + 1;
    }
    let top_produced: i64 = if v.len() > 0 {
        assert(is_top(v@, top as int));
        v[top].total_produced
    } else {
        0
    };
    WitnessSnapshot {
        total_count: v.len(),
        active_count: n,
        top_produced,
        total_produced_sum: sum,
    }
}

fn pending_numbers(v: &Vec<ProposalFacts>) -> (r: Vec<i64>)
    ensures
        r@ == pending(v@, v@.len()),
{
    let mut out: Vec<i64> = Vec::new();
    let mut i: usize = 0;
    while i < v.len()
        invariant
            i <= v@.len(),
            out@ == pending(v@, i as nat),
        decreases v@.len() - i,
    {
        if v[i].pending {
            out.push(v[i].number);
        }
        i = i + 1;
    }
    out
}

/// Assembles the snapshot. Witnesses and proposals are None where their store
/// cannot be read.
pub fn snapshot(
    head: &HeadProperties,
    resources: ResourceSnapshot,
    fees: FeeSnapshot,
    proposals: Option<&Vec<ProposalFacts>>,
    witnesses: Option<&Vec<WitnessFacts>>,
) -> (r: StateSnapshot)
    requires
        witnesses matches Some(v) ==> sums_fit(v@),
    ensures
        r.head.latest_block_number == or_zero(head.number),
        r.head.latest_block_timestamp == or_zero(head.timestamp),
        r.head.latest_block_hash_hex@ == (match head.hash {
            Some(h) => hex_text(h@),
            None => ""@,
        }),
        r.head.latest_solidified_block_num == or_zero(head.solidified),
        r.head.next_maintenance_time == or_zero(head.next_maintenance),
        r.resources == resources,
        r.fees == fees,
        r.active_proposals@ == (match proposals {
            Some(v) => pending(v@, v@.len()),
            None => Seq::empty(),
        }),
        sums_up(
            r.witnesses,
            match witnesses {
                Some(v) => v@,
                None => Seq::empty(),
            },
        ),
{
    let latest_block_hash_hex = match &head.hash {
        Some(h) => hex_encode(h.as_slice()),
        None => "".to_owned(),
    };
    let witnesses = match witnesses {
        Some(v) => summary(v),
        None => WitnessSnapshot {
            total_count: 0,
            active_count: 0,
            top_produced: 0,
            total_produced_sum: 0,
        },
    };
    let active_proposals = match proposals {
        Some(v) => pending_numbers(v),
        None => Vec::new(),
    };
    StateSnapshot {
        head: HeadSnapshot {
            latest_block_number: value_or_zero(head.number),
            latest_block_timestamp: value_or_zero(head.timestamp),
            latest_block_hash_hex,
            latest_solidified_block_num: value_or_zero(head.solidified),
            next_maintenance_time: value_or_zero(head.next_maintenance),
        },
        resources,
        fees,
        active_proposals,
        witnesses,
    }
}

proof fn lemma_active(v: Seq<WitnessFacts>, n: nat)
    requires
        n <= v.len(),
    ensures
        active(v, n) == v.take(n as int).filter(|w: WitnessFacts| w.active).len(),
    decreases n,
{
    reveal(Seq::filter);
    if n > 0 {
        lemma_active(v, (n - 1) as nat);
        let s = v.take(n as int);
        assert(s.drop_last() =~= v.take(n - 1));
        assert(s.last() == v[n - 1]);
    }
}

proof fn lemma_pending(v: Seq<ProposalFacts>, n: nat)
    requires
        n <= v.len(),
    ensures
        pending(v, n) == v.take(n as int).filter(|p: ProposalFacts| p.pending).map_values(
            |p: ProposalFacts| p.number,
        ),
    decreases n,
{
    let f = |p: ProposalFacts| p.pending;
    let number = |p: ProposalFacts| p.number;
    reveal(Seq::filter);
    if n > 0 {
        lemma_pending(v, (n - 1) as nat);
        let s = v.take(n as int);
        assert(s.drop_last() =~= v.take(n - 1));
        assert(s.last() == v[n - 1]);
        let before = s.drop_last().filter(f);
        if f(v[n - 1]) {
            assert(s.filter(f) == before.push(v[n - 1]));
            assert(s.filter(f).map_values(number) =~= before.map_values(number).push(v[n - 1].number));
        }
    }
    assert(pending(v, n) =~= v.take(n as int).filter(f).map_values(number));
}

/// The summary of the witnesses: all of them, those that are active, the sum of
/// what they produced, and what the one with the most votes produced, the first
/// of several.
pub proof fn witnesses_are_summed_up(
    r: WitnessSnapshot,
    v: Seq<WitnessFacts>,
    t: int,
)
    requires
        sums_up(r, v),
        0 <= t < v.len(),
        forall|i: int| 0 <= i < v.len() ==> (#[trigger] v[i]).vote_count <= v[t].vote_count,
        forall|i: int| 0 <= i < t ==> (#[trigger] v[i]).vote_count < v[t].vote_count,
    ensures
        r.total_count == v.len(),
        r.active_count == v.filter(|w: WitnessFacts| w.active).len(),
        r.top_produced == v[t].total_produced,
        r.total_produced_sum == produced(v, v.len()),
{
    lemma_active(v, v.len());
    assert(v.take(v.len() as int) =~= v);
    let u = choose|u: int| #[trigger] is_top(v, u) && r.top_produced == v[u].total_produced;
    if u < t {
        assert(v[u].vote_count < v[t].vote_count);
        assert(v[t].vote_count <= v[u].vote_count);
    }
    if t < u {
        assert(v[t].vote_count < v[u].vote_count);
        assert(v[u].vote_count <= v[t].vote_count);
    }
}

/// What was produced is summed witness by witness, and the open proposals are
/// those still pending, in their order.
pub proof fn production_adds_up(v: Seq<WitnessFacts>, n: nat, proposals: Seq<ProposalFacts>)
    requires
        n < v.len(),
    ensures
        produced(v, (n + 1) as nat) == produced(v, n) + v[n as int].total_produced,
        produced(v, 0) == 0,
        pending(proposals, proposals.len()) == proposals.filter(
            |p: ProposalFacts| p.pending,
        ).map_values(|p: ProposalFacts| p.number),
        or_zero(None) == 0,
        or_zero(Some(v[n as int].vote_count)) == v[n as int].vote_count,
{
    lemma_pending(proposals, proposals.len());
    assert(proposals.take(proposals.len() as int) =~= proposals);
}

/// A snapshot shows the head's properties, zero for one that is not set, and
/// takes the other parts over as they are.
pub proof fn snapshots_show_the_head(
    head: HeadProperties,
    resources: ResourceSnapshot,
    fees: FeeSnapshot,
    r: StateSnapshot,
)
    requires
        call_ensures(snapshot, (&head, resources, fees, None, None), r),
    ensures
        head.number is Some ==> r.head.latest_block_number == head.number->Some_0,
        head.number is None ==> r.head.latest_block_number == 0,
        head.timestamp is Some ==> r.head.latest_block_timestamp == head.timestamp->Some_0,
        head.solidified is Some ==> r.head.latest_solidified_block_num == head.solidified->Some_0,
        head.next_maintenance is Some ==> r.head.next_maintenance_time
            == head.next_maintenance->Some_0,
        head.hash is Some ==> r.head.latest_block_hash_hex@ == hex_text((head.hash->Some_0)@),
        r.resources == resources,
        r.fees == fees,
        r.active_proposals@.len() == 0,
        r.witnesses.total_count == 0,
        r.witnesses.top_produced == 0,
{
}

} // verus!
