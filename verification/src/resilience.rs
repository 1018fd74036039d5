//! Peer-graph resilience: which peers to drop at the connection ceiling, on a
//! LAN island, and when no block arrives any more.

use vstd::prelude::*;

use crate::binary64::{double_of, multiply, of_nat, product, truncated, truncated_to, Double};
use crate::clock::elapsed_ms;
use crate::node_statistics::DisconnectReason;
use crate::text::str_eq;

verus! {

/// View of one peer that the policy considers.
#[derive(Debug, Clone, PartialEq, Eq)]
pub struct PeerSnapshot {
    /// Stable identifier.
    pub key: String,
    /// We dialed the peer.
    pub is_active_dialer: bool,
    /// The peer is in the operator's trust list.
    pub is_trust_peer: bool,
    /// We still need blocks from this peer.
    pub need_sync_from_peer: bool,
    /// This peer is syncing from us.
    pub need_sync_from_us: bool,
    /// Unix-ms of the last message.
    pub last_interactive_ms: u64,
    /// Unix-ms when our latest block was received from it.
    pub block_recv_ms: u64,
}

/// [`PeerSnapshot`] as plain values.
pub struct PeerView {
    pub key: Seq<char>,
    pub is_active_dialer: bool,
    pub is_trust_peer: bool,
    pub need_sync_from_peer: bool,
    pub need_sync_from_us: bool,
    pub last_interactive_ms: u64,
    pub block_recv_ms: u64,
}

impl View for PeerSnapshot {
    type V = PeerView;

    open spec fn view(&self) -> PeerView {
        PeerView {
            key: self.key@,
            is_active_dialer: self.is_active_dialer,
            is_trust_peer: self.is_trust_peer,
            need_sync_from_peer: self.need_sync_from_peer,
            need_sync_from_us: self.need_sync_from_us,
            last_interactive_ms: self.last_interactive_ms,
            block_recv_ms: self.block_recv_ms,
        }
    }
}

/// Copies a snapshot.
pub fn copy_peer(p: &PeerSnapshot) -> (r: PeerSnapshot)
    ensures
        r@ == p@,
{
    PeerSnapshot {
        key: p.key.clone(),
        is_active_dialer: p.is_active_dialer,
        is_trust_peer: p.is_trust_peer,
        need_sync_from_peer: p.need_sync_from_peer,
        need_sync_from_us: p.need_sync_from_us,
        last_interactive_ms: p.last_interactive_ms,
        block_recv_ms: p.block_recv_ms,
    }
}

/// The snapshots as plain values.
pub open spec fn peers_view(peers: Seq<PeerSnapshot>) -> Seq<PeerView> {
    peers.map_values(|p: PeerSnapshot| p@)
}

/// Knobs of the policy.
#[derive(Debug, Clone, Copy, PartialEq, Eq, Structural)]
pub struct ResilienceConfig {
    /// At this many connections random elimination starts.
    pub max_connections: usize,
    /// Below this many connections the LAN rule is skipped.
    pub min_connections: usize,
    /// The fewest connections that we dialed to keep around while breaking out of
    /// isolation.
    pub min_active_connections: usize,
    /// A peer is inactive once silent for this long.
    pub inactive_threshold_ms: u64,
    /// Without a block for this long the node is isolated.
    pub block_not_change_threshold_ms: u64,
    /// The share of the ceiling that passive peers may fill in isolation.
    pub retention_percent: Double,
    /// Healthy number of broadcast peers.
    pub min_broadcast_peer_size: usize,
}

impl Default for ResilienceConfig {
    fn default() -> (r: Self)
        ensures
            r.max_connections == 30,
            r.min_connections == 8,
            r.min_active_connections == 1,
            r.inactive_threshold_ms == 600_000,
            r.block_not_change_threshold_ms == 60_000,
            r.retention_percent@ == crate::binary64::nearest(8, 10, 0),
            r.retention_percent.wf(),
            -1900 <= r.retention_percent.exp <= 900,
            r.min_broadcast_peer_size == 3,
    {
        ResilienceConfig {
            max_connections: 30,
            min_connections: 8,
            min_active_connections: 1,
            inactive_threshold_ms: 600_000,
            block_not_change_threshold_ms: 60_000,
            retention_percent: crate::binary64::nearest_double(8, 10, 0),
            min_broadcast_peer_size: 3,
        }
    }
}

/// Why a peer is to be disconnected.
#[derive(Debug, Clone, Copy, PartialEq, Eq, Structural)]
pub enum DisconnectCause {
    /// At the connection ceiling.
    RandomElimination,
    /// On a LAN island, the most idle peer.
    LanNode,
    /// Isolated: the most idle peer that we dialed.
    IsolatedActive,
    /// Isolated: a passive peer past the retained share.
    IsolatedPassive,
}

impl DisconnectCause {
    /// Reason sent on the wire.
    pub fn reason(self) -> (r: DisconnectReason)
        ensures
            r == (match self {
                DisconnectCause::RandomElimination => DisconnectReason::RandomElimination,
                _ => DisconnectReason::BadProtocol,
            }),
    {
        match self {
            DisconnectCause::RandomElimination => DisconnectReason::RandomElimination,
            DisconnectCause::LanNode => DisconnectReason::BadProtocol,
            DisconnectCause::IsolatedActive => DisconnectReason::BadProtocol,
            DisconnectCause::IsolatedPassive => DisconnectReason::BadProtocol,
        }
    }
}

/// One peer to disconnect.
#[derive(Debug, Clone, PartialEq, Eq)]
pub struct ResilienceDecision {
    pub peer_key: String,
    pub cause: DisconnectCause,
}

impl View for ResilienceDecision {
    type V = (Seq<char>, DisconnectCause);

    open spec fn view(&self) -> (Seq<char>, DisconnectCause) {
        (self.peer_key@, self.cause)
    }
}

/// Decisions as plain values.
pub open spec fn decisions_view(v: Seq<ResilienceDecision>) -> Seq<(Seq<char>, DisconnectCause)> {
    v.map_values(|d: ResilienceDecision| d@)
}

/// What a rule looks for in a peer.
#[derive(Debug, Clone, Copy, PartialEq, Eq, Structural)]
pub enum Wanted {
    /// Not trusted, not syncing either way.
    Broadcast,
    /// The same, and silent for at least so long.
    Silent { now_ms: u64, threshold_ms: u64 },
    /// Not trusted, dialed by us.
    Dialed,
    /// Not trusted, and syncing from us.
    SyncingFromUs,
    /// Not trusted, and syncing either way.
    Syncing,
    /// Not trusted, and we need blocks from it.
    Serving,
    /// Not trusted, not dialed by us.
    Passive,
}

/// Whether a peer is what a rule looks for. A trusted peer never is.
pub open spec fn wanted(w: Wanted, p: PeerView) -> bool {
    !p.is_trust_peer && match w {
        Wanted::Broadcast => !p.need_sync_from_peer && !p.need_sync_from_us,
        Wanted::Silent { now_ms, threshold_ms } => !p.need_sync_from_peer && !p.need_sync_from_us
            && elapsed_ms(now_ms, p.last_interactive_ms) >= threshold_ms,
        Wanted::Dialed => p.is_active_dialer,
        Wanted::SyncingFromUs => p.need_sync_from_us,
        Wanted::Syncing => p.need_sync_from_us || p.need_sync_from_peer,
        Wanted::Serving => p.need_sync_from_peer,
        Wanted::Passive => !p.is_active_dialer,
    }
}

fn wants(w: Wanted, p: &PeerSnapshot) -> (r: bool)
    ensures
        r == wanted(w, p@),
{
    !p.is_trust_peer && match w {
        Wanted::Broadcast => !p.need_sync_from_peer && !p.need_sync_from_us,
        Wanted::Silent { now_ms, threshold_ms } => !p.need_sync_from_peer && !p.need_sync_from_us
            && now_ms.saturating_sub(p.last_interactive_ms) >= threshold_ms,
        Wanted::Dialed => p.is_active_dialer,
        Wanted::SyncingFromUs => p.need_sync_from_us,
        Wanted::Syncing => p.need_sync_from_us || p.need_sync_from_peer,
        Wanted::Serving => p.need_sync_from_peer,
        Wanted::Passive => !p.is_active_dialer,
    }
}

/// How many of the first `n` peers a rule looks for.
pub open spec fn how_many(w: Wanted, peers: Seq<PeerView>, n: nat) -> nat
    decreases n,
{
    if n == 0 {
        0
    } else {
        how_many(w, peers, (n - 1) as nat) + (if wanted(w, peers[n - 1]) {
            1nat
        } else {
            0
        })
    }
}

fn count(w: Wanted, peers: &[PeerSnapshot]) -> (r: usize)
    ensures
        r == how_many(w, peers_view(peers@), peers@.len()),
{
    let ghost pv = peers_view(peers@);
    let mut c: usize = 0;
    let mut i: usize = 0;
    while i < peers.len()
        invariant
            i <= peers@.len(),
            pv == peers_view(peers@),
            c <= i,
            c == how_many(w, pv, i as nat),
        decreases peers@.len() - i,
    {
        assert(pv[i as int] == peers@[i as int]@);
        if wants(w, &peers[i]) {
            c = c + 1;
        }
        i = i + 1;
    }
    c
}

/// The time by which a rule ranks peers: when a block last came for the
/// ceiling rule, when a message last came for the others.
pub open spec fn rank(w: Wanted, p: PeerView) -> u64 {
    if w == Wanted::Broadcast {
        p.block_recv_ms
    } else {
        p.last_interactive_ms
    }
}

/// The position of the longest-waiting peer among the first `n` that a rule
/// looks for, the first one of several.
pub open spec fn longest_waiting(w: Wanted, peers: Seq<PeerView>, n: nat) -> Option<int>
    decreases n,
{
    if n == 0 {
        None
    } else {
        let i = n - 1;
        match longest_waiting(w, peers, i as nat) {
            Some(b) => if wanted(w, peers[i]) && rank(w, peers[i]) < rank(w, peers[b]) {
                Some(i)
            } else {
                Some(b)
            },
            None => if wanted(w, peers[i]) {
                Some(i)
            } else {
                None
            },
        }
    }
}

proof fn lemma_longest_waiting(w: Wanted, peers: Seq<PeerView>, n: nat)
    requires
        n <= peers.len(),
    ensures
        match longest_waiting(w, peers, n) {
            Some(b) => {
                &&& 0 <= b < n
                &&& wanted(w, peers[b])
                &&& forall|j: int|
                    0 <= j < n && wanted(w, #[trigger] peers[j]) ==> rank(w, peers[b]) <= rank(
                        w,
                        peers[j],
                    )
            },
            None => forall|j: int| 0 <= j < n ==> !wanted(w, #[trigger] peers[j]),
        },
    decreases n,
{
    if n > 0 {
        lemma_longest_waiting(w, peers, (n - 1) as nat);
    }
}

fn pick(w: Wanted, peers: &[PeerSnapshot]) -> (r: Option<usize>)
    ensures
        (match r {
            Some(i) => Some(i as int),
            None => None,
        }) == longest_waiting(w, peers_view(peers@), peers@.len()),
        r matches Some(i) ==> i < peers@.len(),
{
    let ghost pv = peers_view(peers@);
    let mut best: Option<usize> = None;
    let mut i: usize = 0;
    while i < peers.len()
        invariant
            i <= peers@.len(),
            pv == peers_view(peers@),
            best matches Some(b) ==> b < i,
            (match best {
                Some(b) => Some(b as int),
                None => None,
            }) == longest_waiting(w, pv, i as nat),
        decreases peers@.len() - i,
    {
        assert(pv[i as int] == peers@[i as int]@);
        if wants(w, &peers[i]) {
            match best {
                Some(b) => {
                    assert(pv[b as int] == peers@[b as int]@);
                    let earlier = if w == Wanted::Broadcast {
                        peers[i].block_recv_ms < peers[b].block_recv_ms
                    } else {
                        peers[i].last_interactive_ms < peers[b].last_interactive_ms
                    };
                    if earlier {
                        best = Some(i);
                    }
                },
                None => {
                    best = Some(i);
                },
            }
        }
        i = i + 1;
    }
    best
}

/// The position of the first peer from `i` on that a rule looks for.
pub open spec fn first_wanted(w: Wanted, peers: Seq<PeerView>, i: int) -> Option<int>
    decreases peers.len() - i,
{
    if i < 0 || i >= peers.len() {
        None
    } else if wanted(w, peers[i]) {
        Some(i)
    } else {
        first_wanted(w, peers, i + 1)
    }
}

fn first_of(w: Wanted, peers: &[PeerSnapshot]) -> (r: Option<usize>)
    ensures
        (match r {
            Some(i) => Some(i as int),
            None => None,
        }) == first_wanted(w, peers_view(peers@), 0),
        r matches Some(i) ==> i < peers@.len(),
{
    let ghost pv = peers_view(peers@);
    let mut i: usize = 0;
    while i < peers.len()
        invariant
            i <= peers@.len(),
            pv == peers_view(peers@),
            first_wanted(w, pv, 0) == first_wanted(w, pv, i as int),
        decreases peers@.len() - i,
    {
        assert(pv[i as int] == peers@[i as int]@);
        if wants(w, &peers[i]) {
            return Some(i);
        }
        i = i + 1;
    }
    None
}

/// A decision on the peer at a position, if any.
pub open spec fn about(
    peers: Seq<PeerView>,
    at: Option<int>,
    cause: DisconnectCause,
) -> Seq<(Seq<char>, DisconnectCause)> {
    match at {
        Some(i) => seq![(peers[i].key, cause)],
        None => Seq::empty(),
    }
}

/// The ceiling rule: at or above the ceiling, and with the feature on, drop one
/// peer. Among enough broadcast peers it is the one whose block is the oldest.
/// Else it is the first that syncs from us, or, where two or more serve us,
/// that syncs either way.
pub open spec fn ceiling_rule(c: ResilienceConfig, peers: Seq<PeerView>, open: bool) -> Seq<
    (Seq<char>, DisconnectCause),
> {
    if !open || peers.len() < c.max_connections {
        Seq::empty()
    } else if how_many(Wanted::Broadcast, peers, peers.len()) >= c.min_broadcast_peer_size {
        about(
            peers,
            longest_waiting(Wanted::Broadcast, peers, peers.len()),
            DisconnectCause::RandomElimination,
        )
    } else if how_many(Wanted::Serving, peers, peers.len()) >= 2 {
        about(
            peers,
            first_wanted(Wanted::Syncing, peers, 0),
            DisconnectCause::RandomElimination,
        )
    } else {
        about(
            peers,
            first_wanted(Wanted::SyncingFromUs, peers, 0),
            DisconnectCause::RandomElimination,
        )
    }
}

/// Whether every peer was dialed by us, and there are enough.
pub open spec fn lan_only(c: ResilienceConfig, peers: Seq<PeerView>) -> bool {
    peers.len() >= c.min_active_connections && forall|i: int|
        0 <= i < peers.len() ==> (#[trigger] peers[i]).is_active_dialer
}

/// The LAN rule: on a LAN island of healthy size, drop the most idle of the
/// inactive broadcast peers.
pub open spec fn lan_rule(c: ResilienceConfig, peers: Seq<PeerView>, now: u64) -> Seq<
    (Seq<char>, DisconnectCause),
> {
    if !lan_only(c, peers) || peers.len() < c.min_connections {
        Seq::empty()
    } else {
        about(
            peers,
            longest_waiting(
                Wanted::Silent { now_ms: now, threshold_ms: c.inactive_threshold_ms },
                peers,
                peers.len(),
            ),
            DisconnectCause::LanNode,
        )
    }
}

/// The latest block receipt among the first `n` peers, zero of none.
pub open spec fn latest_block(peers: Seq<PeerView>, n: nat) -> u64
    decreases n,
{
    if n == 0 {
        0
    } else {
        let m = latest_block(peers, (n - 1) as nat);
        if peers[n - 1].block_recv_ms > m {
            peers[n - 1].block_recv_ms
        } else {
            m
        }
    }
}

/// Whether some peer syncs neither way.
pub open spec fn has_broadcast_peer(peers: Seq<PeerView>) -> bool {
    exists|i: int|
        0 <= i < peers.len() && !(#[trigger] peers[i]).need_sync_from_peer
            && !peers[i].need_sync_from_us
}

/// Whether the node is isolated: it has a broadcast peer, and no block came
/// for too long.
pub open spec fn isolated(c: ResilienceConfig, peers: Seq<PeerView>, now: u64) -> bool {
    has_broadcast_peer(peers) && elapsed_ms(now, latest_block(peers, peers.len()))
        >= c.block_not_change_threshold_ms
}

/// How many of the first `n` peers were dialed by us.
pub open spec fn dialed(peers: Seq<PeerView>, n: nat) -> nat
    decreases n,
{
    if n == 0 {
        0
    } else {
        dialed(peers, (n - 1) as nat) + (if peers[n - 1].is_active_dialer {
            1nat
        } else {
            0
        })
    }
}

/// `e` placed in a list by rising time, after those of the same time.
pub open spec fn placed(s: Seq<(Seq<char>, u64)>, e: (Seq<char>, u64)) -> Seq<(Seq<char>, u64)>
    decreases s.len(),
{
    if s.len() == 0 {
        seq![e]
    } else if s[0].1 <= e.1 {
        seq![s[0]] + placed(s.skip(1), e)
    } else {
        seq![e] + s
    }
}

/// The passive peers among the first `n`, the longest silent first.
pub open spec fn passive_by_silence(peers: Seq<PeerView>, n: nat) -> Seq<(Seq<char>, u64)>
    decreases n,
{
    if n == 0 {
        Seq::empty()
    } else {
        let before = passive_by_silence(peers, (n - 1) as nat);
        let p = peers[n - 1];
        if wanted(Wanted::Passive, p) {
            placed(before, (p.key, p.last_interactive_ms))
        } else {
            before
        }
    }
}

/// How many connections are kept in isolation.
pub open spec fn retained(c: ResilienceConfig) -> nat {
    truncated(product(of_nat(c.max_connections as nat), c.retention_percent@), u64::MAX as nat)
}

/// The passive peers dropped in isolation: the longest silent ones, as many as
/// there are peers past the retained share.
pub open spec fn trimmed(c: ResilienceConfig, peers: Seq<PeerView>) -> Seq<
    (Seq<char>, DisconnectCause),
> {
    let passive = passive_by_silence(peers, peers.len());
    let drop = if peers.len() > retained(c) {
        (peers.len() - retained(c)) as nat
    } else {
        0
    };
    let n = if passive.len() < drop {
        passive.len()
    } else {
        drop
    };
    passive.take(n as int).map_values(
        |e: (Seq<char>, u64)| (e.0, DisconnectCause::IsolatedPassive),
    )
}

/// The isolation rule: cycle the most idle peer that we dialed, if more than the
/// fewest to keep are there, and trim the passive peers past the retained share.
pub open spec fn isolation_rule(c: ResilienceConfig, peers: Seq<PeerView>, now: u64) -> Seq<
    (Seq<char>, DisconnectCause),
> {
    if !isolated(c, peers, now) {
        Seq::empty()
    } else {
        (if dialed(peers, peers.len()) > c.min_active_connections {
            about(
                peers,
                longest_waiting(Wanted::Dialed, peers, peers.len()),
                DisconnectCause::IsolatedActive,
            )
        } else {
            Seq::empty()
        }) + trimmed(c, peers)
    }
}

/// Whether a decision on `key` is among `v`.
pub open spec fn names(v: Seq<(Seq<char>, DisconnectCause)>, key: Seq<char>) -> bool {
    exists|i: int| 0 <= i < v.len() && (#[trigger] v[i]).0 == key
}

/// `acc` and the first `n` decisions of `v`, each peer only once, the first
/// decision on it winning.
pub open spec fn merged(
    acc: Seq<(Seq<char>, DisconnectCause)>,
    v: Seq<(Seq<char>, DisconnectCause)>,
    n: nat,
) -> Seq<(Seq<char>, DisconnectCause)>
    decreases n,
{
    if n == 0 {
        acc
    } else {
        let before = merged(acc, v, (n - 1) as nat);
        if names(before, v[n - 1].0) {
            before
        } else {
            before.push(v[n - 1])
        }
    }
}

/// All decisions of one tick: the ceiling rule's, the LAN rule's, and those in
/// isolation, in this order.
pub open spec fn verdicts(
    c: ResilienceConfig,
    peers: Seq<PeerView>,
    now: u64,
    open: bool,
) -> Seq<(Seq<char>, DisconnectCause)> {
    let r1 = ceiling_rule(c, peers, open);
    let r2 = lan_rule(c, peers, now);
    let r3 = isolation_rule(c, peers, now);
    merged(merged(merged(Seq::empty(), r1, r1.len()), r2, r2.len()), r3, r3.len())
}

/// Whether the policy can be run: the retained share is a number, and where the
/// ceiling rule applies with no healthy number of broadcast peers set, there is
/// one to choose.
pub open spec fn can_run(c: ResilienceConfig, peers: Seq<PeerView>, open: bool) -> bool {
    &&& c.retention_percent.wf()
    &&& -1900 <= c.retention_percent.exp <= 1900
    &&& open && peers.len() >= c.max_connections && c.min_broadcast_peer_size == 0 ==> how_many(
        Wanted::Broadcast,
        peers,
        peers.len(),
    ) > 0
}

/// The decision function and its inputs.
pub struct ResiliencePolicy<'a> {
    pub config: &'a ResilienceConfig,
    pub peers: &'a [PeerSnapshot],
    pub now_ms: u64,
    /// Whether the ceiling rule is on.
    pub open_full_tcp_disconnect: bool,
}

fn one_decision(peers: &[PeerSnapshot], at: Option<usize>, cause: DisconnectCause) -> (r: Vec<
    ResilienceDecision,
>)
    requires
        at matches Some(i) ==> i < peers@.len(),
    ensures
        decisions_view(r@) == about(
            peers_view(peers@),
            match at {
                Some(i) => Some(i as int),
                None => None,
            },
            cause,
        ),
{
    let mut out: Vec<ResilienceDecision> = Vec::new();
    if let Some(i) = at {
        out.push(ResilienceDecision { peer_key: peers[i].key.clone(), cause });
    }
    assert(decisions_view(out@) =~= about(
        peers_view(peers@),
        match at {
            Some(i) => Some(i as int),
            None => None,
        },
        cause,
    ));
    out
}

fn merge(acc: &mut Vec<ResilienceDecision>, v: Vec<ResilienceDecision>)
    ensures
        decisions_view(final(acc)@) == merged(
            decisions_view(old(acc)@),
            decisions_view(v@),
            v@.len(),
        ),
{
    let ghost vv = decisions_view(v@);
    let ghost start = decisions_view(acc@);
    let mut i: usize = 0;
    while i < v.len()
        invariant
            i <= v@.len(),
            vv == decisions_view(v@),
            decisions_view(acc@) == merged(start, vv, i as nat),
        decreases v@.len() - i,
    {
        let ghost before = decisions_view(acc@);
        assert(vv[i as int] == v@[i as int]@);
        let mut found = false;
        let mut j: usize = 0;
        while j < acc.len()
            invariant
                j <= acc@.len(),
                i < v@.len(),
                before == decisions_view(acc@),
                found == exists|k: int|
                    0 <= k < j && (#[trigger] before[k]).0 == v@[i as int].peer_key@,
            decreases acc@.len() - j,
        {
            assert(before[j as int] == acc@[j as int]@);
            if str_eq(acc[j].peer_key.as_str(), v[i].peer_key.as_str()) {
                found = true;
            }
            j = j + 1;
        }
        if !found {
            acc.push(
                ResilienceDecision { peer_key: v[i].peer_key.clone(), cause: v[i].cause },
            );
            assert(decisions_view(acc@) =~= before.push(vv[i as int]));
        }
        i = i + 1;
    }
}

impl<'a> ResiliencePolicy<'a> {
    /// The policy can be run on its inputs.
    pub open spec fn wf(&self) -> bool {
        can_run(*self.config, peers_view(self.peers@), self.open_full_tcp_disconnect)
    }

    /// Runs all rules. A peer appears at most once, under the first cause.
    pub fn evaluate(&self) -> (r: Vec<ResilienceDecision>)
        requires
            self.wf(),
        ensures
            decisions_view(r@) == verdicts(
                *self.config,
                peers_view(self.peers@),
                self.now_ms,
                self.open_full_tcp_disconnect,
            ),
    {
        let mut out: Vec<ResilienceDecision> = Vec::new();
        assert(decisions_view(out@) =~= Seq::<(Seq<char>, DisconnectCause)>::empty());
        let r1 = self.random_elimination();
        merge(&mut out, r1);
        let r2 = self.lan_cleanup();
        merge(&mut out, r2);
        let r3 = self.isolated_breakout();
        merge(&mut out, r3);
        out
    }

    /// The ceiling rule.
    fn random_elimination(&self) -> (r: Vec<ResilienceDecision>)
        ensures
            decisions_view(r@) == ceiling_rule(
                *self.config,
                peers_view(self.peers@),
                self.open_full_tcp_disconnect,
            ),
    {
        let none: Option<usize> = None;
        if !self.open_full_tcp_disconnect || self.peers.len() < self.config.max_connections {
            return one_decision(self.peers, none, DisconnectCause::RandomElimination);
        }
        let at = if count(Wanted::Broadcast, self.peers) >= self.config.min_broadcast_peer_size {
            pick(Wanted::Broadcast, self.peers)
        } else if count(Wanted::Serving, self.peers) >= 2 {
            first_of(Wanted::Syncing, self.peers)
        } else {
            first_of(Wanted::SyncingFromUs, self.peers)
        };
        one_decision(self.peers, at, DisconnectCause::RandomElimination)
    }

    /// The LAN rule.
    fn lan_cleanup(&self) -> (r: Vec<ResilienceDecision>)
        ensures
            decisions_view(r@) == lan_rule(*self.config, peers_view(self.peers@), self.now_ms),
    {
        let none: Option<usize> = None;
        if !self.is_lan_only() || self.peers.len() < self.config.min_connections {
            return one_decision(self.peers, none, DisconnectCause::LanNode);
        }
        let at = pick(
            Wanted::Silent {
                now_ms: self.now_ms,
                threshold_ms: self.config.inactive_threshold_ms,
            },
            self.peers,
        );
        one_decision(self.peers, at, DisconnectCause::LanNode)
    }

    /// The isolation rule.
    fn isolated_breakout(&self) -> (r: Vec<ResilienceDecision>)
        requires
            self.wf(),
        ensures
            decisions_view(r@) == isolation_rule(
                *self.config,
                peers_view(self.peers@),
                self.now_ms,
            ),
    {
        let none: Option<usize> = None;
        if !self.is_isolated() {
            return one_decision(self.peers, none, DisconnectCause::IsolatedActive);
        }
        let at = if self.dialed_count() > self.config.min_active_connections {
            pick(Wanted::Dialed, self.peers)
        } else {
            None
        };
        let mut out = one_decision(self.peers, at, DisconnectCause::IsolatedActive);
        let ghost first = decisions_view(out@);
        let share = double_of(self.config.max_connections as u128);
        let kept = multiply(&share, &self.config.retention_percent);
        let threshold: u64 = truncated_to(&kept, u64::MAX);
        let n: u64 = self.peers.len() as u64;
        let drop: u64 = if n > threshold { n - threshold } else { 0 };
        let passive = self.passive();
        let ghost pv = passive_by_silence(peers_view(self.peers@), self.peers@.len());
        let mut i: usize = 0;
        assert(decisions_view(out@) =~= first + pv.take(0).map_values(
            |e: (Seq<char>, u64)| (e.0, DisconnectCause::IsolatedPassive),
        ));
        while i < passive.len() && (i as u64) < drop
            invariant
                i <= passive@.len(),
                i <= drop,
                passive@.map_values(|e: (String, u64)| (e.0@, e.1)) == pv,
                decisions_view(out@) == first + pv.take(i as int).map_values(
                    |e: (Seq<char>, u64)| (e.0, DisconnectCause::IsolatedPassive),
                ),
            decreases passive@.len() - i,
        {
            let ghost before = decisions_view(out@);
            assert(pv[i as int] == (passive@[i as int].0@, passive@[i as int].1));
            out.push(
                ResilienceDecision {
                    peer_key: passive[i].0.clone(),
                    cause: DisconnectCause::IsolatedPassive,
                },
            );
            i = i + 1;
            assert(decisions_view(out@) =~= before.push(
                (pv[i - 1].0, DisconnectCause::IsolatedPassive),
            ));
            assert(decisions_view(out@) =~= first + pv.take(i as int).map_values(
                |e: (Seq<char>, u64)| (e.0, DisconnectCause::IsolatedPassive),
            ));
        }
        out
    }

    /// The passive peers, the longest silent first.
    fn passive(&self) -> (r: Vec<(String, u64)>)
        ensures
            r@.map_values(|e: (String, u64)| (e.0@, e.1)) == passive_by_silence(
                peers_view(self.peers@),
                self.peers@.len(),
            ),
    {
        let peers = self.peers;
        let ghost pv = peers_view(peers@);
        let ghost plain = |e: (String, u64)| (e.0@, e.1);
        let mut out: Vec<(String, u64)> = Vec::new();
        let mut i: usize = 0;
        assert(out@.map_values(plain) =~= passive_by_silence(pv, 0));
        while i < peers.len()
            invariant
                i <= peers@.len(),
                pv == peers_view(peers@),
                plain == (|e: (String, u64)| (e.0@, e.1)),
                out@.map_values(plain) == passive_by_silence(pv, i as nat),
            decreases peers@.len() - i,
        {
            assert(pv[i as int] == peers@[i as int]@);
            if wants(Wanted::Passive, &peers[i]) {
                let ghost before = out@.map_values(plain);
                let t: u64 = peers[i].last_interactive_ms;
                let ghost e = (peers@[i as int].key@, t);
                let mut at: usize = 0;
                assert(before.skip(0) =~= before);
                assert(before.take(0) + placed(before, e) =~= placed(before, e));
                while at < out.len() && out[at].1 <= t
                    invariant
                        at <= out@.len(),
                        t == e.1,
                        before == out@.map_values(plain),
                        plain == (|e: (String, u64)| (e.0@, e.1)),
                        before.take(at as int) + placed(before.skip(at as int), e) == placed(
                            before,
                            e,
                        ),
                    decreases out@.len() - at,
                {
                    let ghost rest = before.skip(at as int);
                    assert(rest[0].1 == out@[at as int].1);
                    assert(rest.skip(1) =~= before.skip(at + 1));
                    assert(before.take(at as int) + (seq![rest[0]] + placed(rest.skip(1), e))
                        =~= before.take(at + 1) + placed(rest.skip(1), e));
                    at = at + 1;
                }
                out.insert(at, (peers[i].key.clone(), t));
                proof {
                    let rest = before.skip(at as int);
                    assert(placed(rest, e) =~= seq![e] + rest);
                    assert(out@.map_values(plain) =~= before.take(at as int) + (seq![e] + rest));
                }
            }
            i = i + 1;
        }
        out
    }

    fn dialed_count(&self) -> (r: usize)
        ensures
            r == dialed(peers_view(self.peers@), self.peers@.len()),
    {
        let peers = self.peers;
        let ghost pv = peers_view(peers@);
        let mut c: usize = 0;
        let mut i: usize = 0;
        while i < peers.len()
            invariant
                i <= peers@.len(),
                pv == peers_view(peers@),
                c <= i,
                c == dialed(pv, i as nat),
            decreases peers@.len() - i,
        {
            assert(pv[i as int] == peers@[i as int]@);
            if peers[i].is_active_dialer {
                c = c + 1;
            }
            i = i + 1;
        }
        c
    }

    fn is_lan_only(&self) -> (r: bool)
        ensures
            r == lan_only(*self.config, peers_view(self.peers@)),
    {
        let peers = self.peers;
        let ghost pv = peers_view(peers@);
        let mut all = true;
        let mut i: usize = 0;
        while i < peers.len()
            invariant
                i <= peers@.len(),
                pv == peers_view(peers@),
                all == forall|j: int| 0 <= j < i ==> (#[trigger] pv[j]).is_active_dialer,
            decreases peers@.len() - i,
        {
            assert(pv[i as int] == peers@[i as int]@);
            if !peers[i].is_active_dialer {
                all = false;
            }
            i = i + 1;
        }
        peers.len() >= self.config.min_active_connections && all
    }

    fn is_isolated(&self) -> (r: bool)
        ensures
            r == isolated(*self.config, peers_view(self.peers@), self.now_ms),
    {
        let peers = self.peers;
        let ghost pv = peers_view(peers@);
        let mut adv = false;
        let mut latest: u64 = 0;
        let mut i: usize = 0;
        while i < peers.len()
            invariant
                i <= peers@.len(),
                pv == peers_view(peers@),
                adv == exists|j: int|
                    0 <= j < i && !(#[trigger] pv[j]).need_sync_from_peer
                        && !pv[j].need_sync_from_us,
                latest == latest_block(pv, i as nat),
            decreases peers@.len() - i,
        {
            assert(pv[i as int] == peers@[i as int]@);
            if !peers[i].need_sync_from_peer && !peers[i].need_sync_from_us {
                adv = true;
            }
            if peers[i].block_recv_ms > latest {
                latest = peers[i].block_recv_ms;
            }
            i = i + 1;
        }
        adv && self.now_ms.saturating_sub(latest) >= self.config.block_not_change_threshold_ms
    }
}

/// Runs the policy against a peer list.
pub struct ResilienceService {
    pub config: ResilienceConfig,
    pub tick_interval_ms: u64,
    pub open_full_tcp_disconnect: bool,
}

impl ResilienceService {
    /// Whether a pass over these peers can be run.
    pub fn is_ready(&self, peers: &[PeerSnapshot]) -> (r: bool)
        ensures
            r == can_run(self.config, peers_view(peers@), self.open_full_tcp_disconnect),
    {
        let p = &self.config.retention_percent;
        let number = p.mant < 0x20_0000_0000_0000 && (p.mant >= 0x10_0000_0000_0000 || (p.mant == 0
            && p.exp == 0)) && -1900 <= p.exp && p.exp <= 1900;
        if self.open_full_tcp_disconnect && peers.len() >= self.config.max_connections
            && self.config.min_broadcast_peer_size == 0 {
            number && count(Wanted::Broadcast, peers) > 0
        } else {
            number
        }
    }

    /// One decision pass.
    pub fn tick(&self, peers: &[PeerSnapshot], now_ms: u64) -> (r: Vec<ResilienceDecision>)
        requires
            can_run(self.config, peers_view(peers@), self.open_full_tcp_disconnect),
        ensures
            decisions_view(r@) == verdicts(
                self.config,
                peers_view(peers@),
                now_ms,
                self.open_full_tcp_disconnect,
            ),
    {
        let policy = ResiliencePolicy {
            config: &self.config,
            peers,
            now_ms,
            open_full_tcp_disconnect: self.open_full_tcp_disconnect,
        };
        policy.evaluate()
    }
}

// ---------------------------------------------------------------------------
// Laws
// ---------------------------------------------------------------------------

/// No two decisions are on the same peer.
pub open spec fn once_each(v: Seq<(Seq<char>, DisconnectCause)>) -> bool {
    forall|i: int, j: int| 0 <= i < j < v.len() ==> (#[trigger] v[i]).0 != (#[trigger] v[j]).0
}

proof fn lemma_merged_once(
    acc: Seq<(Seq<char>, DisconnectCause)>,
    v: Seq<(Seq<char>, DisconnectCause)>,
    n: nat,
)
    requires
        once_each(acc),
    ensures
        once_each(merged(acc, v, n)),
        acc.is_prefix_of(merged(acc, v, n)),
    decreases n,
{
    if n > 0 {
        lemma_merged_once(acc, v, (n - 1) as nat);
    } else {
        assert(acc.take(acc.len() as int) =~= acc);
    }
}

/// A peer appears at most once in a tick, and the rules take precedence in
/// their order: what an earlier rule decided stays in front.
pub proof fn each_peer_is_dropped_once(
    c: ResilienceConfig,
    peers: Seq<PeerView>,
    now: u64,
    open: bool,
)
    ensures
        once_each(verdicts(c, peers, now, open)),
        ceiling_rule(c, peers, open).is_prefix_of(verdicts(c, peers, now, open)),
{
    let r1 = ceiling_rule(c, peers, open);
    let r2 = lan_rule(c, peers, now);
    let r3 = isolation_rule(c, peers, now);
    let m1 = merged(Seq::empty(), r1, r1.len());
    let m2 = merged(m1, r2, r2.len());
    lemma_merged_once(Seq::empty(), r1, r1.len());
    lemma_merged_once(m1, r2, r2.len());
    lemma_merged_once(m2, r3, r3.len());
    if r1.len() > 0 {
        assert(r1.len() == 1);
        assert(merged(Seq::<(Seq<char>, DisconnectCause)>::empty(), r1, 0).len() == 0);
        assert(m1 =~= r1);
    } else {
        assert(m1 =~= r1);
    }
}

/// The cause that is given for a peer first, if any.
pub open spec fn cause_of(v: Seq<(Seq<char>, DisconnectCause)>, key: Seq<char>) -> Option<
    DisconnectCause,
>
    decreases v.len(),
{
    if v.len() == 0 {
        None
    } else {
        match cause_of(v.drop_last(), key) {
            Some(c) => Some(c),
            None => if v.last().0 == key {
                Some(v.last().1)
            } else {
                None
            },
        }
    }
}

proof fn lemma_cause_of_named(v: Seq<(Seq<char>, DisconnectCause)>, key: Seq<char>)
    ensures
        names(v, key) <==> cause_of(v, key) is Some,
    decreases v.len(),
{
    if v.len() > 0 {
        let before = v.drop_last();
        lemma_cause_of_named(before, key);
        if names(v, key) {
            let i = choose|i: int| 0 <= i < v.len() && (#[trigger] v[i]).0 == key;
            if i < before.len() {
                assert(before[i].0 == key);
            }
        }
        if names(before, key) {
            let i = choose|i: int| 0 <= i < before.len() && (#[trigger] before[i]).0 == key;
            assert(v[i].0 == key);
        }
        if v.last().0 == key {
            assert(v[v.len() - 1].0 == key);
        }
    }
}

proof fn lemma_merged_cause(
    acc: Seq<(Seq<char>, DisconnectCause)>,
    v: Seq<(Seq<char>, DisconnectCause)>,
    n: nat,
    key: Seq<char>,
)
    requires
        n <= v.len(),
    ensures
        cause_of(merged(acc, v, n), key) == match cause_of(acc, key) {
            Some(c) => Some(c),
            None => cause_of(v.take(n as int), key),
        },
    decreases n,
{
    if n == 0 {
        assert(v.take(0).len() == 0);
    } else {
        let m = (n - 1) as nat;
        lemma_merged_cause(acc, v, m, key);
        let before = merged(acc, v, m);
        let e = v[n - 1];
        assert(v.take(n as int).drop_last() =~= v.take(m as int));
        assert(v.take(n as int).last() == e);
        lemma_cause_of_named(before, e.0);
        assert(before.push(e).drop_last() =~= before);
    }
}

/// Where several rules pick the same peer, the first cause wins: that of the
/// ceiling rule before that of the LAN rule, and that before the one in
/// isolation.
pub proof fn first_cause_wins(
    c: ResilienceConfig,
    peers: Seq<PeerView>,
    now: u64,
    open: bool,
    key: Seq<char>,
)
    ensures
        cause_of(verdicts(c, peers, now, open), key) == match cause_of(
            ceiling_rule(c, peers, open),
            key,
        ) {
            Some(x) => Some(x),
            None => match cause_of(lan_rule(c, peers, now), key) {
                Some(x) => Some(x),
                None => cause_of(isolation_rule(c, peers, now), key),
            },
        },
{
    let r1 = ceiling_rule(c, peers, open);
    let r2 = lan_rule(c, peers, now);
    let r3 = isolation_rule(c, peers, now);
    let none = Seq::<(Seq<char>, DisconnectCause)>::empty();
    let m1 = merged(none, r1, r1.len());
    let m2 = merged(m1, r2, r2.len());
    lemma_merged_cause(none, r1, r1.len(), key);
    lemma_merged_cause(m1, r2, r2.len(), key);
    lemma_merged_cause(m2, r3, r3.len(), key);
    assert(r1.take(r1.len() as int) =~= r1);
    assert(r2.take(r2.len() as int) =~= r2);
    assert(r3.take(r3.len() as int) =~= r3);
}

/// Whether every decision is on a peer that is not trusted.
pub open spec fn spares_trust(v: Seq<(Seq<char>, DisconnectCause)>, peers: Seq<PeerView>) -> bool {
    forall|i: int|
        0 <= i < v.len() ==> exists|j: int|
            0 <= j < peers.len() && !(#[trigger] peers[j]).is_trust_peer && peers[j].key == (
            #[trigger] v[i]).0
}

proof fn lemma_merged_spares(
    acc: Seq<(Seq<char>, DisconnectCause)>,
    v: Seq<(Seq<char>, DisconnectCause)>,
    n: nat,
    peers: Seq<PeerView>,
)
    requires
        n <= v.len(),
        spares_trust(acc, peers),
        spares_trust(v, peers),
    ensures
        spares_trust(merged(acc, v, n), peers),
    decreases n,
{
    if n > 0 {
        lemma_merged_spares(acc, v, (n - 1) as nat, peers);
        let before = merged(acc, v, (n - 1) as nat);
        let after = merged(acc, v, n);
        assert forall|i: int| 0 <= i < after.len() implies exists|j: int|
            0 <= j < peers.len() && !(#[trigger] peers[j]).is_trust_peer && peers[j].key == (
            #[trigger] after[i]).0 by {
            if i < before.len() {
                assert(after[i] == before[i]);
            } else {
                assert(after[i] == v[n - 1]);
            }
        }
    }
}

proof fn lemma_about_spares(w: Wanted, peers: Seq<PeerView>, at: Option<int>, cause: DisconnectCause)
    requires
        at matches Some(i) ==> 0 <= i < peers.len() && wanted(w, peers[i]),
    ensures
        spares_trust(about(peers, at, cause), peers),
{
    if let Some(i) = at {
        let v = about(peers, at, cause);
        assert(!peers[i].is_trust_peer && peers[i].key == v[0].0);
    }
}

proof fn lemma_first_wanted(w: Wanted, peers: Seq<PeerView>, i: int)
    requires
        0 <= i,
    ensures
        first_wanted(w, peers, i) matches Some(k) ==> 0 <= k < peers.len() && wanted(w, peers[k]),
    decreases peers.len() - i,
{
    if i < peers.len() {
        lemma_first_wanted(w, peers, i + 1);
    }
}

/// Every entry is a passive peer that is not trusted.
spec fn from_passive(s: Seq<(Seq<char>, u64)>, peers: Seq<PeerView>) -> bool {
    forall|i: int|
        0 <= i < s.len() ==> exists|j: int|
            0 <= j < peers.len() && !(#[trigger] peers[j]).is_trust_peer && peers[j].key == (
            #[trigger] s[i]).0
}

proof fn lemma_placed_from(s: Seq<(Seq<char>, u64)>, e: (Seq<char>, u64), peers: Seq<PeerView>)
    requires
        from_passive(s, peers),
        exists|j: int|
            0 <= j < peers.len() && !(#[trigger] peers[j]).is_trust_peer && peers[j].key == e.0,
    ensures
        from_passive(placed(s, e), peers),
    decreases s.len(),
{
    let p = placed(s, e);
    if s.len() > 0 && s[0].1 <= e.1 {
        let rest = s.skip(1);
        assert(from_passive(rest, peers)) by {
            assert forall|i: int| 0 <= i < rest.len() implies exists|j: int|
                0 <= j < peers.len() && !(#[trigger] peers[j]).is_trust_peer && peers[j].key == (
                #[trigger] rest[i]).0 by {
                assert(rest[i] == s[i + 1]);
            }
        }
        lemma_placed_from(rest, e, peers);
        let q = placed(rest, e);
        assert forall|i: int| 0 <= i < p.len() implies exists|j: int|
            0 <= j < peers.len() && !(#[trigger] peers[j]).is_trust_peer && peers[j].key == (
            #[trigger] p[i]).0 by {
            if i == 0 {
                assert(p[0] == s[0]);
            } else {
                assert(p[i] == q[i - 1]);
            }
        }
    } else {
        assert forall|i: int| 0 <= i < p.len() implies exists|j: int|
            0 <= j < peers.len() && !(#[trigger] peers[j]).is_trust_peer && peers[j].key == (
            #[trigger] p[i]).0 by {
            if i == 0 {
                assert(p[0] == e);
            } else {
                assert(p[i] == s[i - 1]);
            }
        }
    }
}

proof fn lemma_passive_from(peers: Seq<PeerView>, n: nat)
    requires
        n <= peers.len(),
    ensures
        from_passive(passive_by_silence(peers, n), peers),
    decreases n,
{
    if n > 0 {
        lemma_passive_from(peers, (n - 1) as nat);
        let p = peers[n - 1];
        if wanted(Wanted::Passive, p) {
            assert(!peers[n - 1].is_trust_peer && peers[n - 1].key == p.key);
            lemma_placed_from(
                passive_by_silence(peers, (n - 1) as nat),
                (p.key, p.last_interactive_ms),
                peers,
            );
        }
    }
}

/// A trusted peer is never the target: every decision of a tick is on the key
/// of a peer that is not trusted.
pub proof fn trusted_peers_are_exempt(
    c: ResilienceConfig,
    peers: Seq<PeerView>,
    now: u64,
    open: bool,
)
    ensures
        spares_trust(verdicts(c, peers, now, open), peers),
{
    let n = peers.len();
    let r1 = ceiling_rule(c, peers, open);
    let r2 = lan_rule(c, peers, now);
    let r3 = isolation_rule(c, peers, now);
    let silent = Wanted::Silent { now_ms: now, threshold_ms: c.inactive_threshold_ms };
    lemma_longest_waiting(Wanted::Broadcast, peers, n);
    lemma_longest_waiting(silent, peers, n);
    lemma_longest_waiting(Wanted::Dialed, peers, n);
    lemma_first_wanted(Wanted::Syncing, peers, 0);
    lemma_first_wanted(Wanted::SyncingFromUs, peers, 0);
    let d = DisconnectCause::RandomElimination;
    lemma_about_spares(Wanted::Broadcast, peers, longest_waiting(Wanted::Broadcast, peers, n), d);
    lemma_about_spares(Wanted::Syncing, peers, first_wanted(Wanted::Syncing, peers, 0), d);
    lemma_about_spares(
        Wanted::SyncingFromUs,
        peers,
        first_wanted(Wanted::SyncingFromUs, peers, 0),
        d,
    );
    lemma_about_spares(silent, peers, longest_waiting(silent, peers, n), DisconnectCause::LanNode);
    lemma_about_spares(
        Wanted::Dialed,
        peers,
        longest_waiting(Wanted::Dialed, peers, n),
        DisconnectCause::IsolatedActive,
    );
    lemma_passive_from(peers, n);
    assert(spares_trust(trimmed(c, peers), peers)) by {
        let t = trimmed(c, peers);
        let s = passive_by_silence(peers, n);
        assert forall|i: int| 0 <= i < t.len() implies exists|j: int|
            0 <= j < peers.len() && !(#[trigger] peers[j]).is_trust_peer && peers[j].key == (
            #[trigger] t[i]).0 by {
            assert(t[i].0 == s[i].0);
        }
    }
    let a = if dialed(peers, n) > c.min_active_connections {
        about(
            peers,
            longest_waiting(Wanted::Dialed, peers, n),
            DisconnectCause::IsolatedActive,
        )
    } else {
        Seq::empty()
    };
    assert(spares_trust(r3, peers)) by {
        let t = trimmed(c, peers);
        assert forall|i: int| 0 <= i < r3.len() implies exists|j: int|
            0 <= j < peers.len() && !(#[trigger] peers[j]).is_trust_peer && peers[j].key == (
            #[trigger] r3[i]).0 by {
            if i < a.len() {
                assert(r3[i] == a[i]);
            } else {
                assert(r3[i] == t[i - a.len()]);
            }
        }
    }
    let m1 = merged(Seq::empty(), r1, r1.len());
    let m2 = merged(m1, r2, r2.len());
    lemma_merged_spares(Seq::empty(), r1, r1.len(), peers);
    lemma_merged_spares(m1, r2, r2.len(), peers);
    lemma_merged_spares(m2, r3, r3.len(), peers);
}

/// The isolation rule takes at most one peer that we dialed, and only where the
/// fewest to keep remain without it.
pub proof fn isolation_keeps_dialed_peers(
    c: ResilienceConfig,
    peers: Seq<PeerView>,
    now: u64,
    i: int,
)
    requires
        0 <= i < isolation_rule(c, peers, now).len(),
        isolation_rule(c, peers, now)[i].1 == DisconnectCause::IsolatedActive,
    ensures
        i == 0,
        dialed(peers, peers.len()) - 1 >= c.min_active_connections,
{
    let t = trimmed(c, peers);
    let a = if dialed(peers, peers.len()) > c.min_active_connections {
        about(
            peers,
            longest_waiting(Wanted::Dialed, peers, peers.len()),
            DisconnectCause::IsolatedActive,
        )
    } else {
        Seq::empty()
    };
    assert(isolation_rule(c, peers, now) == a + t);
    if i >= a.len() {
        assert(t[i - a.len()].1 == DisconnectCause::IsolatedPassive);
    }
}

/// The ceiling rule drops at most one peer, and only with the feature on and
/// at the ceiling.
pub proof fn ceiling_rule_is_restrained(c: ResilienceConfig, peers: Seq<PeerView>, open: bool)
    ensures
        ceiling_rule(c, peers, open).len() <= 1,
        !open || peers.len() < c.max_connections ==> ceiling_rule(c, peers, open).len() == 0,
{
}

// ---------------------------------------------------------------------------
// What the rules decide
// ---------------------------------------------------------------------------

/// The plain values of a peer and of a decision are their fields.
pub proof fn views_are_the_fields(p: PeerSnapshot, d: ResilienceDecision)
    ensures
        p@.key == p.key@,
        p@.is_active_dialer == p.is_active_dialer,
        p@.is_trust_peer == p.is_trust_peer,
        p@.need_sync_from_peer == p.need_sync_from_peer,
        p@.need_sync_from_us == p.need_sync_from_us,
        p@.last_interactive_ms == p.last_interactive_ms,
        p@.block_recv_ms == p.block_recv_ms,
        d@.0 == d.peer_key@,
        d@.1 == d.cause,
{
}

proof fn lemma_latest_block(peers: Seq<PeerView>, n: nat)
    requires
        n <= peers.len(),
    ensures
        forall|i: int|
            0 <= i < n ==> (#[trigger] peers[i]).block_recv_ms <= latest_block(peers, n),
        latest_block(peers, n) == 0 || exists|i: int|
            0 <= i < n && (#[trigger] peers[i]).block_recv_ms == latest_block(peers, n),
    decreases n,
{
    if n > 0 {
        lemma_latest_block(peers, (n - 1) as nat);
        let m = latest_block(peers, (n - 1) as nat);
        if m != 0 && peers[n - 1].block_recv_ms <= m {
            let i = choose|i: int| 0 <= i < n - 1 && (#[trigger] peers[i]).block_recv_ms == m;
            assert(peers[i].block_recv_ms == latest_block(peers, n));
        }
        assert(peers[n - 1].block_recv_ms == peers[n - 1].block_recv_ms);
    }
}

/// A node is isolated exactly if it has a peer that syncs neither way and if every
/// peer's last block is at least as old as the threshold. One peer with a fresh block
/// is enough to hold every isolation decision back.
pub proof fn fresh_blocks_end_isolation(c: ResilienceConfig, peers: Seq<PeerView>, now: u64, j: int)
    requires
        c.block_not_change_threshold_ms > 0,
    ensures
        0 <= j < peers.len() && now - peers[j].block_recv_ms < c.block_not_change_threshold_ms
            ==> isolation_rule(c, peers, now).len() == 0,
        (forall|i: int|
            0 <= i < peers.len() ==> now - (#[trigger] peers[i]).block_recv_ms
                >= c.block_not_change_threshold_ms) && 0 <= j < peers.len()
            && !peers[j].need_sync_from_peer && !peers[j].need_sync_from_us ==> isolated(
            c,
            peers,
            now,
        ),
        (forall|i: int|
            0 <= i < peers.len() ==> (#[trigger] peers[i]).need_sync_from_peer
                || peers[i].need_sync_from_us) ==> isolation_rule(c, peers, now).len() == 0,
{
    lemma_latest_block(peers, peers.len());
    let m = latest_block(peers, peers.len());
    if 0 <= j < peers.len() {
        assert(peers[j].block_recv_ms <= m);
    }
    if (forall|i: int|
        0 <= i < peers.len() ==> now - (#[trigger] peers[i]).block_recv_ms
            >= c.block_not_change_threshold_ms) && 0 <= j < peers.len()
        && !peers[j].need_sync_from_peer && !peers[j].need_sync_from_us {
        if m == 0 {
            assert(now - peers[j].block_recv_ms >= c.block_not_change_threshold_ms);
        } else {
            let i = choose|i: int| 0 <= i < peers.len() && (#[trigger] peers[i]).block_recv_ms == m;
            assert(now - peers[i].block_recv_ms >= c.block_not_change_threshold_ms);
        }
    }
}

/// What each rule looks for in a peer, by the peer's own fields. Nobody looks for a
/// trusted peer.
pub proof fn wanted_peers(w: Wanted, p: PeerView)
    ensures
        p.is_trust_peer ==> !wanted(w, p),
        !p.is_trust_peer ==> {
            &&& w == Wanted::Broadcast ==> (wanted(w, p) <==> !(p.need_sync_from_peer
                || p.need_sync_from_us))
            &&& w matches Wanted::Silent { now_ms, threshold_ms } ==> (wanted(w, p) <==> !(
            p.need_sync_from_peer || p.need_sync_from_us) && (threshold_ms == 0 || now_ms
                - p.last_interactive_ms >= threshold_ms))
            &&& w == Wanted::Dialed ==> (wanted(w, p) <==> p.is_active_dialer)
            &&& w == Wanted::Passive ==> (wanted(w, p) <==> !p.is_active_dialer)
            &&& w == Wanted::SyncingFromUs ==> (wanted(w, p) <==> p.need_sync_from_us)
            &&& w == Wanted::Serving ==> (wanted(w, p) <==> p.need_sync_from_peer)
            &&& w == Wanted::Syncing ==> (wanted(w, p) <==> p.need_sync_from_us
                || p.need_sync_from_peer)
        },
{
}

proof fn lemma_counts(w: Wanted, peers: Seq<PeerView>, n: nat)
    requires
        n <= peers.len(),
    ensures
        how_many(w, peers, n) == peers.take(n as int).filter(|p: PeerView| wanted(w, p)).len(),
        dialed(peers, n) == peers.take(n as int).filter(|p: PeerView| p.is_active_dialer).len(),
    decreases n,
{
    reveal(Seq::filter);
    let s = peers.take(n as int);
    if n > 0 {
        lemma_counts(w, peers, (n - 1) as nat);
        assert(s.drop_last() =~= peers.take(n - 1));
        assert(s.last() == peers[n - 1]);
    }
}

proof fn lemma_first_of_ties(w: Wanted, peers: Seq<PeerView>, n: nat)
    requires
        n <= peers.len(),
    ensures
        longest_waiting(w, peers, n) matches Some(b) ==> forall|j: int|
            0 <= j < b && wanted(w, #[trigger] peers[j]) ==> rank(w, peers[b]) < rank(w, peers[j]),
    decreases n,
{
    if n > 0 {
        lemma_first_of_ties(w, peers, (n - 1) as nat);
        lemma_longest_waiting(w, peers, (n - 1) as nat);
    }
}

/// The ceiling rule drops nobody below the ceiling or with the feature off. At the
/// ceiling, with enough untrusted peers that sync neither way, it drops the one of them
/// whose block is the oldest, the first of several; it drops nobody but one of them.
pub proof fn ceiling_drops_the_oldest_block(c: ResilienceConfig, peers: Seq<PeerView>, open: bool)
    ensures
        !open || peers.len() < c.max_connections ==> ceiling_rule(c, peers, open).len() == 0,
        ({
            let free = |p: PeerView|
                !p.is_trust_peer && !p.need_sync_from_peer && !p.need_sync_from_us;
            let r = ceiling_rule(c, peers, open);
            open && peers.len() >= c.max_connections && peers.filter(free).len()
                >= c.min_broadcast_peer_size && (exists|j: int| 0 <= j < peers.len() && free(#[trigger] peers[j])) ==> {
                &&& r.len() == 1
                &&& r[0].1 == DisconnectCause::RandomElimination
                &&& exists|b: int|
                    {
                        &&& 0 <= b < peers.len()
                        &&& free(#[trigger] peers[b])
                        &&& peers[b].key == r[0].0
                        &&& forall|j: int|
                            0 <= j < peers.len() && free(#[trigger] peers[j])
                                ==> peers[b].block_recv_ms <= peers[j].block_recv_ms
                        &&& forall|j: int|
                            0 <= j < b && free(#[trigger] peers[j]) ==> peers[b].block_recv_ms
                                < peers[j].block_recv_ms
                    }
            }
        }),
{
    let free = |p: PeerView| !p.is_trust_peer && !p.need_sync_from_peer && !p.need_sync_from_us;
    let w = Wanted::Broadcast;
    lemma_counts(w, peers, peers.len());
    assert(peers.take(peers.len() as int) =~= peers);
    assert(free =~= (|p: PeerView| wanted(w, p)));
    lemma_longest_waiting(w, peers, peers.len());
    lemma_first_of_ties(w, peers, peers.len());
    if exists|j: int| 0 <= j < peers.len() && free(#[trigger] peers[j]) {
        let j = choose|j: int| 0 <= j < peers.len() && free(#[trigger] peers[j]);
        assert(wanted(w, peers[j]));
        let b = longest_waiting(w, peers, peers.len())->Some_0;
        assert(free(peers[b]));
        assert forall|j: int| 0 <= j < peers.len() && free(#[trigger] peers[j]) implies
            peers[b].block_recv_ms <= peers[j].block_recv_ms by {
            assert(wanted(w, peers[j]));
        }
        assert forall|j: int| 0 <= j < b && free(#[trigger] peers[j]) implies
            peers[b].block_recv_ms < peers[j].block_recv_ms by {
            assert(wanted(w, peers[j]));
        }
    }
}

/// With too few of those, the ceiling rule drops the first untrusted peer that syncs
/// from us; where two or more untrusted peers serve us, the first that syncs either way.
pub proof fn ceiling_falls_back_to_syncing_peers(
    c: ResilienceConfig,
    peers: Seq<PeerView>,
    open: bool,
    k: int,
)
    requires
        open,
        peers.len() >= c.max_connections,
        peers.filter(
            |p: PeerView| !p.is_trust_peer && !p.need_sync_from_peer && !p.need_sync_from_us,
        ).len() < c.min_broadcast_peer_size,
        0 <= k < peers.len(),
    ensures
        ({
            let serving = peers.filter(|p: PeerView| !p.is_trust_peer && p.need_sync_from_peer).len();
            let fits = |p: PeerView|
                !p.is_trust_peer && (p.need_sync_from_us || (serving >= 2 && p.need_sync_from_peer));
            let r = ceiling_rule(c, peers, open);
            &&& fits(peers[k]) && (forall|j: int| 0 <= j < k ==> !fits(#[trigger] peers[j])) ==> r
                == seq![(peers[k].key, DisconnectCause::RandomElimination)]
            &&& (forall|j: int| 0 <= j < peers.len() ==> !fits(#[trigger] peers[j])) ==> r.len() == 0
        }),
{
    lemma_counts(Wanted::Broadcast, peers, peers.len());
    lemma_counts(Wanted::Serving, peers, peers.len());
    assert(peers.take(peers.len() as int) =~= peers);
    assert((|p: PeerView| !p.is_trust_peer && !p.need_sync_from_peer && !p.need_sync_from_us) =~= (
    |p: PeerView| wanted(Wanted::Broadcast, p)));
    assert((|p: PeerView| !p.is_trust_peer && p.need_sync_from_peer) =~= (|p: PeerView|
        wanted(Wanted::Serving, p)));
    let serving = peers.filter(|p: PeerView| !p.is_trust_peer && p.need_sync_from_peer).len();
    let fits = |p: PeerView|
        !p.is_trust_peer && (p.need_sync_from_us || (serving >= 2 && p.need_sync_from_peer));
    let w = if serving >= 2 {
        Wanted::Syncing
    } else {
        Wanted::SyncingFromUs
    };
    assert forall|j: int| 0 <= j < peers.len() implies fits(#[trigger] peers[j]) == wanted(
        w,
        peers[j],
    ) by {}
    lemma_first_is(w, peers, 0, k);
}

proof fn lemma_first_is(w: Wanted, peers: Seq<PeerView>, i: int, k: int)
    requires
        0 <= i <= peers.len(),
    ensures
        i <= k < peers.len() && wanted(w, peers[k]) && (forall|j: int|
            i <= j < k ==> !wanted(w, #[trigger] peers[j])) ==> first_wanted(w, peers, i) == Some(k),
        (forall|j: int| i <= j < peers.len() ==> !wanted(w, #[trigger] peers[j])) ==> first_wanted(
            w,
            peers,
            i,
        ) is None,
    decreases peers.len() - i,
{
    if i < peers.len() {
        lemma_first_is(w, peers, i + 1, k);
    }
}

/// The LAN rule speaks only where every peer was dialed by us and enough of them are
/// there; it drops the one that has been silent the longest among the untrusted peers
/// that sync neither way and have been silent at least as long as the threshold.
pub proof fn lan_drops_the_most_idle(c: ResilienceConfig, peers: Seq<PeerView>, now: u64, k: int)
    requires
        c.inactive_threshold_ms > 0,
    ensures
        0 <= k < peers.len() && !peers[k].is_active_dialer ==> lan_rule(c, peers, now).len() == 0,
        peers.len() < c.min_connections || peers.len() < c.min_active_connections ==> lan_rule(
            c,
            peers,
            now,
        ).len() == 0,
        ({
            let idle = |p: PeerView|
                !p.is_trust_peer && !p.need_sync_from_peer && !p.need_sync_from_us && now
                    - p.last_interactive_ms >= c.inactive_threshold_ms;
            (forall|j: int| 0 <= j < peers.len() ==> (#[trigger] peers[j]).is_active_dialer)
                && peers.len() >= c.min_connections && peers.len() >= c.min_active_connections ==> {
                let r = lan_rule(c, peers, now);
                &&& (forall|j: int| 0 <= j < peers.len() ==> !idle(#[trigger] peers[j])) ==> r.len()
                    == 0
                &&& 0 <= k < peers.len() && idle(peers[k]) && (forall|j: int|
                    0 <= j < peers.len() && idle(#[trigger] peers[j])
                        ==> peers[k].last_interactive_ms <= peers[j].last_interactive_ms) && (forall|
                    j: int,
                |
                    0 <= j < k && idle(#[trigger] peers[j]) ==> peers[k].last_interactive_ms
                        < peers[j].last_interactive_ms) ==> r == seq![
                    (peers[k].key, DisconnectCause::LanNode),
                ]
            }
        }),
{
    let idle = |p: PeerView|
        !p.is_trust_peer && !p.need_sync_from_peer && !p.need_sync_from_us && now
            - p.last_interactive_ms >= c.inactive_threshold_ms;
    let w = Wanted::Silent { now_ms: now, threshold_ms: c.inactive_threshold_ms };
    assert forall|j: int| 0 <= j < peers.len() implies idle(#[trigger] peers[j]) == wanted(
        w,
        peers[j],
    ) by {}
    lemma_longest_waiting(w, peers, peers.len());
    lemma_first_of_ties(w, peers, peers.len());
    if 0 <= k < peers.len() && idle(peers[k]) && (forall|j: int|
        0 <= j < peers.len() && idle(#[trigger] peers[j]) ==> peers[k].last_interactive_ms
            <= peers[j].last_interactive_ms) && (forall|j: int|
        0 <= j < k && idle(#[trigger] peers[j]) ==> peers[k].last_interactive_ms
            < peers[j].last_interactive_ms) {
        assert(wanted(w, peers[k]));
        let b = longest_waiting(w, peers, peers.len())->Some_0;
        assert(idle(peers[b]));
    }
}

/// In isolation, with more peers that we dialed than the fewest to keep, the untrusted one
/// of them that has been silent the longest is cycled, before any passive peer is trimmed;
/// with no more than those, none is.
pub proof fn isolation_cycles_the_most_idle(
    c: ResilienceConfig,
    peers: Seq<PeerView>,
    now: u64,
    k: int,
)
    requires
        isolated(c, peers, now),
        0 <= k < peers.len(),
    ensures
        ({
            let r = isolation_rule(c, peers, now);
            let ours = peers.filter(|p: PeerView| p.is_active_dialer).len();
            let fits = |p: PeerView| p.is_active_dialer && !p.is_trust_peer;
            &&& ours <= c.min_active_connections ==> r == trimmed(c, peers)
            &&& ours > c.min_active_connections && fits(peers[k]) && (forall|j: int|
                0 <= j < peers.len() && fits(#[trigger] peers[j]) ==> peers[k].last_interactive_ms
                    <= peers[j].last_interactive_ms) && (forall|j: int|
                0 <= j < k && fits(#[trigger] peers[j]) ==> peers[k].last_interactive_ms
                    < peers[j].last_interactive_ms) ==> r == seq![
                (peers[k].key, DisconnectCause::IsolatedActive),
            ] + trimmed(c, peers)
        }),
{
    let w = Wanted::Dialed;
    lemma_counts(w, peers, peers.len());
    assert(peers.take(peers.len() as int) =~= peers);
    let fits = |p: PeerView| p.is_active_dialer && !p.is_trust_peer;
    assert forall|j: int| 0 <= j < peers.len() implies fits(#[trigger] peers[j]) == wanted(
        w,
        peers[j],
    ) by {}
    lemma_longest_waiting(w, peers, peers.len());
    lemma_first_of_ties(w, peers, peers.len());
    assert(Seq::<(Seq<char>, DisconnectCause)>::empty() + trimmed(c, peers) =~= trimmed(c, peers));
    if longest_waiting(w, peers, peers.len()) is Some {
        let b = longest_waiting(w, peers, peers.len())->Some_0;
        assert(fits(peers[b]));
        if fits(peers[k]) {
            assert(wanted(w, peers[k]));
        }
    }
}

/// Whether entries are by rising time.
pub open spec fn by_rising_time(s: Seq<(Seq<char>, u64)>) -> bool {
    forall|i: int, j: int| 0 <= i < j < s.len() ==> (#[trigger] s[i]).1 <= (#[trigger] s[j]).1
}

proof fn lemma_placed(s: Seq<(Seq<char>, u64)>, e: (Seq<char>, u64))
    requires
        by_rising_time(s),
    ensures
        by_rising_time(placed(s, e)),
        placed(s, e).to_multiset() == s.to_multiset().insert(e),
        forall|i: int|
            0 <= i < placed(s, e).len() ==> (#[trigger] placed(s, e)[i]).1 == e.1 || exists|j: int|
                0 <= j < s.len() && (#[trigger] s[j]).1 == placed(s, e)[i].1,
    decreases s.len(),
{
    let t = placed(s, e);
    if s.len() == 0 {
        s.to_multiset_ensures();
        assert(t =~= s.push(e));
    } else if s[0].1 <= e.1 {
        let rest = s.skip(1);
        assert(by_rising_time(rest)) by {
            assert forall|i: int, j: int| 0 <= i < j < rest.len() implies (#[trigger] rest[i]).1 <= (
            #[trigger] rest[j]).1 by {
                assert(rest[i] == s[i + 1] && rest[j] == s[j + 1]);
            }
        }
        lemma_placed(rest, e);
        let u = placed(rest, e);
        assert(t =~= u.insert(0, s[0]));
        assert(s =~= rest.insert(0, s[0]));
        vstd::seq_lib::to_multiset_insert(u, 0, s[0]);
        vstd::seq_lib::to_multiset_insert(rest, 0, s[0]);
        assert(rest.to_multiset().insert(e).insert(s[0]) =~= rest.to_multiset().insert(s[0]).insert(
            e,
        ));
        assert forall|i: int| 0 <= i < t.len() implies (#[trigger] t[i]).1 == e.1 || exists|j: int|
            0 <= j < s.len() && (#[trigger] s[j]).1 == t[i].1 by {
            if i == 0 {
                assert(s[0].1 == t[0].1);
            } else {
                assert(t[i] == u[i - 1]);
                if u[i - 1].1 != e.1 {
                    let j = choose|j: int| 0 <= j < rest.len() && (#[trigger] rest[j]).1 == u[i - 1].1;
                    assert(s[j + 1].1 == t[i].1);
                }
            }
        }
        assert forall|i: int, j: int| 0 <= i < j < t.len() implies (#[trigger] t[i]).1 <= (
        #[trigger] t[j]).1 by {
            assert(t[j] == u[j - 1]);
            if i > 0 {
                assert(t[i] == u[i - 1]);
            } else if u[j - 1].1 != e.1 {
                let k = choose|k: int| 0 <= k < rest.len() && (#[trigger] rest[k]).1 == u[j - 1].1;
                assert(s[k + 1] == rest[k]);
            }
        }
    } else {
        assert(t =~= s.insert(0, e));
        vstd::seq_lib::to_multiset_insert(s, 0, e);
        assert forall|i: int| 0 <= i < t.len() implies (#[trigger] t[i]).1 == e.1 || exists|j: int|
            0 <= j < s.len() && (#[trigger] s[j]).1 == t[i].1 by {
            if i > 0 {
                assert(s[i - 1].1 == t[i].1);
            }
        }
        assert forall|i: int, j: int| 0 <= i < j < t.len() implies (#[trigger] t[i]).1 <= (
        #[trigger] t[j]).1 by {
            assert(t[j] == s[j - 1]);
            if i > 0 {
                assert(t[i] == s[i - 1]);
            } else if j > 1 {
                assert(s[0].1 <= s[j - 1].1);
            }
        }
    }
}

/// The untrusted peers that dialed us are ranked by how long they have been silent, the
/// longest first, each of them once.
pub proof fn passive_peers_are_ranked(peers: Seq<PeerView>, n: nat)
    requires
        n <= peers.len(),
    ensures
        by_rising_time(passive_by_silence(peers, n)),
        passive_by_silence(peers, n).to_multiset() == peers.take(n as int).filter(
            |p: PeerView| !p.is_active_dialer && !p.is_trust_peer,
        ).map_values(|p: PeerView| (p.key, p.last_interactive_ms)).to_multiset(),
    decreases n,
{
    reveal(Seq::filter);
    let free = |p: PeerView| !p.is_active_dialer && !p.is_trust_peer;
    let plain = |p: PeerView| (p.key, p.last_interactive_ms);
    let s = peers.take(n as int);
    if n > 0 {
        passive_peers_are_ranked(peers, (n - 1) as nat);
        let before = passive_by_silence(peers, (n - 1) as nat);
        let p = peers[n - 1];
        assert(s.drop_last() =~= peers.take(n - 1));
        assert(s.last() == p);
        let old_list = s.drop_last().filter(free).map_values(plain);
        if free(p) {
            lemma_placed(before, plain(p));
            assert(s.filter(free).map_values(plain) =~= old_list.push(plain(p)));
            old_list.to_multiset_ensures();
        } else {
            assert(s.filter(free) =~= s.drop_last().filter(free));
        }
    } else {
        assert(passive_by_silence(peers, 0) =~= s.filter(free).map_values(plain));
    }
}

/// In isolation as many of those are trimmed as there are peers past the retained share,
/// or all of them: the longest silent ones.
pub proof fn trimming_takes_the_longest_silent(c: ResilienceConfig, peers: Seq<PeerView>, i: int)
    ensures
        ({
            let ranked = passive_by_silence(peers, peers.len());
            let over = peers.len() - retained(c);
            let t = trimmed(c, peers);
            &&& over <= 0 ==> t.len() == 0
            &&& 0 < over <= ranked.len() ==> t.len() == over
            &&& over > ranked.len() ==> t.len() == ranked.len()
            &&& 0 <= i < t.len() ==> t[i] == (ranked[i].0, DisconnectCause::IsolatedPassive)
        }),
        by_rising_time(passive_by_silence(peers, peers.len())),
{
    passive_peers_are_ranked(peers, peers.len());
}

/// A peer that is put off at random is told so; any other cause is a fault of
/// its protocol.
pub proof fn causes_are_told(c: DisconnectCause, r: DisconnectReason)
    requires
        call_ensures(DisconnectCause::reason, (c,), r),
    ensures
        c is RandomElimination <==> r == DisconnectReason::RandomElimination,
        c !is RandomElimination <==> r == DisconnectReason::BadProtocol,
{
}

} // verus!
