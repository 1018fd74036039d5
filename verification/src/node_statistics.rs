//! Per-peer disconnect and interaction statistics.

use vstd::prelude::*;

use crate::clock::{elapsed_ms, unix_now_ms};
use crate::table::{lookup, with_entry, without, Table};

verus! {

/// Disconnect reasons, with the numeric tags of the wire protocol.
#[derive(Debug, Clone, Copy, PartialEq, Eq, Hash, Structural)]
#[non_exhaustive]
pub enum DisconnectReason {
    Unknown,
    /// Random elimination at the connection ceiling.
    RandomElimination,
    /// Generic protocol violation.
    BadProtocol,
    /// The peer offered blocks and then failed to serve them.
    FetchFail,
    /// The peer rejected us as banned, repeatedly.
    TimeBanned,
}

impl DisconnectReason {
    /// Numeric tag used on the wire.
    pub open spec fn tag(self) -> u8 {
        match self {
            DisconnectReason::Unknown => 0,
            DisconnectReason::RandomElimination => 14,
            DisconnectReason::BadProtocol => 16,
            DisconnectReason::FetchFail => 19,
            DisconnectReason::TimeBanned => 3,
        }
    }

    /// Numeric tag used on the wire.
    pub fn as_u8(self) -> (r: u8)
        ensures
            r == self.tag(),
    {
        match self {
            DisconnectReason::Unknown => 0,
            DisconnectReason::RandomElimination => 14,
            DisconnectReason::BadProtocol => 16,
            DisconnectReason::FetchFail => 19,
            DisconnectReason::TimeBanned => 3,
        }
    }
}

/// A tag names one reason.
pub proof fn tags_are_distinct(a: DisconnectReason, b: DisconnectReason)
    ensures
        a.tag() == b.tag() ==> a == b,
{
}

/// Per-peer record.
#[derive(Debug, Clone, Copy)]
pub struct NodeStatistics {
    /// Set when the remote dropped us; cleared on the next successful reconnect.
    pub remote_disconnect_reason: Option<DisconnectReason>,
    /// Set when we dropped the remote.
    pub local_disconnect_reason: Option<DisconnectReason>,
    /// Lifetime disconnect counter.
    pub disconnect_times: u32,
    /// Unix-ms when this peer was first observed.
    pub start_ms: u64,
    /// Unix-ms of the most recent message.
    pub last_interactive_ms: u64,
}

/// The counter after one more disconnect; it stays at its maximum.
pub open spec fn one_more(times: u32) -> u32 {
    if times < u32::MAX {
        (times + 1) as u32
    } else {
        u32::MAX
    }
}

impl Default for NodeStatistics {
    fn default() -> (r: Self)
        ensures
            exists|now: u64| r == #[trigger] NodeStatistics::fresh(now),
    {
        NodeStatistics::opened_at(unix_now_ms())
    }
}

impl NodeStatistics {
    /// A record opened at `now`.
    pub open spec fn fresh(now: u64) -> NodeStatistics {
        NodeStatistics {
            remote_disconnect_reason: None,
            local_disconnect_reason: None,
            disconnect_times: 0,
            start_ms: now,
            last_interactive_ms: now,
        }
    }

    /// A record opened at `now_ms`.
    pub fn opened_at(now_ms: u64) -> (r: NodeStatistics)
        ensures
            r == NodeStatistics::fresh(now_ms),
    {
        NodeStatistics {
            remote_disconnect_reason: None,
            local_disconnect_reason: None,
            disconnect_times: 0,
            start_ms: now_ms,
            last_interactive_ms: now_ms,
        }
    }

    /// The effective reason: the local one, then the remote one, then unknown.
    pub fn effective_reason(&self) -> (r: DisconnectReason)
        ensures
            r == (match self.local_disconnect_reason {
                Some(l) => l,
                None => match self.remote_disconnect_reason {
                    Some(m) => m,
                    None => DisconnectReason::Unknown,
                },
            }),
    {
        match self.local_disconnect_reason {
            Some(l) => l,
            None => match self.remote_disconnect_reason {
                Some(m) => m,
                None => DisconnectReason::Unknown,
            },
        }
    }

    /// The record after we dropped the peer.
    pub open spec fn after_local(self, reason: DisconnectReason) -> NodeStatistics {
        NodeStatistics {
            local_disconnect_reason: Some(reason),
            disconnect_times: one_more(self.disconnect_times),
            ..self
        }
    }

    /// The record after the peer dropped us.
    pub open spec fn after_remote(self, reason: DisconnectReason) -> NodeStatistics {
        NodeStatistics {
            remote_disconnect_reason: Some(reason),
            disconnect_times: one_more(self.disconnect_times),
            ..self
        }
    }

    /// We dropped the peer.
    pub fn record_local_disconnect(&mut self, reason: DisconnectReason)
        ensures
            *final(self) == old(self).after_local(reason),
    {
        self.local_disconnect_reason = Some(reason);
        self.disconnect_times = self.disconnect_times.saturating_add(1);
    }

    /// The peer dropped us.
    pub fn record_remote_disconnect(&mut self, reason: DisconnectReason)
        ensures
            *final(self) == old(self).after_remote(reason),
    {
        self.remote_disconnect_reason = Some(reason);
        self.disconnect_times = self.disconnect_times.saturating_add(1);
    }

    /// The record after the peer was connected again.
    pub open spec fn after_reconnect(self) -> NodeStatistics {
        NodeStatistics { remote_disconnect_reason: None, ..self }
    }

    /// The peer is connected again.
    pub fn record_reconnect(&mut self)
        ensures
            *final(self) == old(self).after_reconnect(),
    {
        self.remote_disconnect_reason = None;
    }

    /// The record after a message at `now`.
    pub open spec fn touched(self, now: u64) -> NodeStatistics {
        NodeStatistics { last_interactive_ms: now, ..self }
    }

    /// Moves the interaction time to `now_ms`.
    pub fn touch_at(&mut self, now_ms: u64)
        ensures
            *final(self) == old(self).touched(now_ms),
    {
        self.last_interactive_ms = now_ms;
    }

    /// Moves the interaction time to the current time.
    pub fn touch_now(&mut self)
        ensures
            exists|now: u64| *final(self) == #[trigger] old(self).touched(now),
    {
        self.touch_at(unix_now_ms());
    }

    /// Milliseconds since the last message.
    pub fn idle_ms(&self, now_ms: u64) -> (r: u64)
        ensures
            r == elapsed_ms(now_ms, self.last_interactive_ms),
    {
        now_ms.saturating_sub(self.last_interactive_ms)
    }

    /// Milliseconds since this peer was first observed.
    pub fn uptime_ms(&self, now_ms: u64) -> (r: u64)
        ensures
            r == elapsed_ms(now_ms, self.start_ms),
    {
        now_ms.saturating_sub(self.start_ms)
    }
}

/// A touch is a message at that instant: no time has passed since it, and the
/// disconnect history is untouched.
pub proof fn touching_resets_idleness(s: NodeStatistics, now: u64)
    ensures
        elapsed_ms(now, s.touched(now).last_interactive_ms) == 0,
        s.touched(now).disconnect_times == s.disconnect_times,
        s.touched(now).start_ms == s.start_ms,
{
}

/// The records by peer key.
pub struct NodeStatisticsTable {
    table: Table<NodeStatistics>,
}

impl View for NodeStatisticsTable {
    type V = Seq<(Seq<char>, NodeStatistics)>;

    closed spec fn view(&self) -> Seq<(Seq<char>, NodeStatistics)> {
        self.table@
    }
}

/// The record of a key, or a fresh one.
pub open spec fn record_or_fresh(
    s: Seq<(Seq<char>, NodeStatistics)>,
    key: Seq<char>,
    now: u64,
) -> NodeStatistics {
    match lookup(s, key) {
        Some(r) => r,
        None => NodeStatistics::fresh(now),
    }
}

/// The first `n` records that are not older than `cutoff`.
pub open spec fn not_older(
    s: Seq<(Seq<char>, NodeStatistics)>,
    n: nat,
    cutoff: int,
) -> Seq<(Seq<char>, NodeStatistics)>
    decreases n,
{
    if n == 0 {
        Seq::empty()
    } else if s[n - 1].1.start_ms >= cutoff {
        not_older(s, (n - 1) as nat, cutoff).push(s[n - 1])
    } else {
        not_older(s, (n - 1) as nat, cutoff)
    }
}

impl NodeStatisticsTable {
    /// No key stands twice.
    pub closed spec fn wf(&self) -> bool {
        self.table.wf()
    }

    /// Empty table.
    pub fn new() -> (r: Self)
        ensures
            r.wf(),
            r@ == Seq::<(Seq<char>, NodeStatistics)>::empty(),
    {
        NodeStatisticsTable { table: Table::new() }
    }

    /// The record of `peer_key`, opened at `now_ms` where there is none.
    fn record(&self, peer_key: &str, now_ms: u64) -> (r: NodeStatistics)
        ensures
            r == record_or_fresh(self@, peer_key@, now_ms),
    {
        match self.table.get(peer_key) {
            Some(s) => *s,
            None => NodeStatistics::opened_at(now_ms),
        }
    }

    /// Records a message of `peer_key` at `now_ms`.
    pub fn touch(&mut self, peer_key: &str, now_ms: u64)
        requires
            old(self).wf(),
        ensures
            final(self).wf(),
            final(self)@ == with_entry(
                old(self)@,
                peer_key@,
                record_or_fresh(old(self)@, peer_key@, now_ms).touched(now_ms),
            ),
    {
        let mut s = self.record(peer_key, now_ms);
        s.touch_at(now_ms);
        self.table.set(peer_key, s);
    }

    /// Changes the record of a peer by `f`, a fresh one where there is none.
    pub fn with_mut<F: FnOnce(NodeStatistics) -> NodeStatistics>(
        &mut self,
        peer_key: &str,
        now_ms: u64,
        f: F,
    )
        requires
            old(self).wf(),
            f.requires((record_or_fresh(old(self)@, peer_key@, now_ms),)),
        ensures
            final(self).wf(),
            exists|q: NodeStatistics|
                f.ensures((record_or_fresh(old(self)@, peer_key@, now_ms),), q) && final(self)@
                    == with_entry(old(self)@, peer_key@, q),
    {
        let s = self.record(peer_key, now_ms);
        let q = f(s);
        self.table.set(peer_key, q);
    }

    /// Records that we disconnected the peer.
    pub fn record_local_disconnect(
        &mut self,
        peer_key: &str,
        reason: DisconnectReason,
        now_ms: u64,
    )
        requires
            old(self).wf(),
        ensures
            final(self).wf(),
            final(self)@ == with_entry(
                old(self)@,
                peer_key@,
                record_or_fresh(old(self)@, peer_key@, now_ms).after_local(reason),
            ),
    {
        let mut s = self.record(peer_key, now_ms);
        s.record_local_disconnect(reason);
        self.table.set(peer_key, s);
    }

    /// Records that the peer disconnected us.
    pub fn record_remote_disconnect(
        &mut self,
        peer_key: &str,
        reason: DisconnectReason,
        now_ms: u64,
    )
        requires
            old(self).wf(),
        ensures
            final(self).wf(),
            final(self)@ == with_entry(
                old(self)@,
                peer_key@,
                record_or_fresh(old(self)@, peer_key@, now_ms).after_remote(reason),
            ),
    {
        let mut s = self.record(peer_key, now_ms);
        s.record_remote_disconnect(reason);
        self.table.set(peer_key, s);
    }

    /// Records that the peer is connected again.
    pub fn record_reconnect(&mut self, peer_key: &str, now_ms: u64)
        requires
            old(self).wf(),
        ensures
            final(self).wf(),
            final(self)@ == with_entry(
                old(self)@,
                peer_key@,
                record_or_fresh(old(self)@, peer_key@, now_ms).after_reconnect(),
            ),
    {
        let mut s = self.record(peer_key, now_ms);
        s.record_reconnect();
        self.table.set(peer_key, s);
    }

    /// The record of a peer, if it was ever seen.
    pub fn get(&self, peer_key: &str) -> (r: Option<NodeStatistics>)
        ensures
            r == lookup(self@, peer_key@),
    {
        match self.table.get(peer_key) {
            Some(s) => Some(*s),
            None => None,
        }
    }

    /// All records.
    pub fn snapshot(&self) -> (r: Vec<(String, NodeStatistics)>)
        ensures
            r@.map_values(|e: (String, NodeStatistics)| (e.0@, e.1)) == self@,
    {
        let ghost s = self@;
        let mut out: Table<NodeStatistics> = Table::new();
        let mut i: usize = 0;
        while i < self.table.entries.len()
            invariant
                i <= self.table.entries@.len(),
                s == self.table@,
                out@ == s.take(i as int),
            decreases self.table.entries@.len() - i,
        {
            let ghost before = out@;
            out.entries.push((self.table.entries[i].0.clone(), self.table.entries[i].1));
            i = i + 1;
            assert(out@ =~= before.push(s[i - 1]));
            assert(out@ =~= s.take(i as int));
        }
        assert(s.take(i as int) =~= s);
        out.entries
    }

    /// Removes a peer's record. Returns whether there was one.
    pub fn remove(&mut self, peer_key: &str) -> (r: bool)
        requires
            old(self).wf(),
        ensures
            final(self).wf(),
            final(self)@ == without(old(self)@, peer_key@),
            r == (lookup(old(self)@, peer_key@) is Some),
    {
        self.table.remove(peer_key)
    }

    /// Drops every record first opened more than `max_age_ms` before `now_ms`.
    /// Returns how many went.
    pub fn prune_older_than(&mut self, max_age_ms: u64, now_ms: u64) -> (r: usize)
        requires
            old(self).wf(),
        ensures
            final(self).wf(),
            final(self)@ == not_older(
                old(self)@,
                old(self)@.len(),
                elapsed_ms(now_ms, max_age_ms),
            ),
            r == old(self)@.len() - final(self)@.len(),
    {
        let cutoff: u64 = now_ms.saturating_sub(max_age_ms);
        let ghost s = self@;
        let before: usize = self.table.len();
        let mut kept: Table<NodeStatistics> = Table::new();
        let ghost mut from: Seq<int> = Seq::empty();
        let mut i: usize = 0;
        while i < self.table.entries.len()
            invariant
                *self == *old(self),
                i <= self.table.entries@.len(),
                s == self.table@,
                distinct_from(s, kept@, from, i as int),
                self.wf(),
                kept@ == not_older(s, i as nat, cutoff as int),
                kept@.len() <= i,
            decreases self.table.entries@.len() - i,
        {
            let ghost k0 = kept@;
            assert(s[i as int] == (
                self.table.entries@[i as int].0@,
                self.table.entries@[i as int].1,
            ));
            if self.table.entries[i].1.start_ms >= cutoff {
                kept.entries.push((self.table.entries[i].0.clone(), self.table.entries[i].1));
                assert(kept@ =~= k0.push(s[i as int]));
                proof {
                    from = from.push(i as int);
                }
            }
            i = i + 1;
        }
        proof {
            assert forall|a: int, b: int| 0 <= a < b < kept@.len() implies (#[trigger] kept@[a]).0
                != (#[trigger] kept@[b]).0 by {
                assert(kept@[a] == s[from[a]] && kept@[b] == s[from[b]]);
            }
        }
        let after: usize = kept.len();
        self.table = kept;
        before - after
    }
}

/// `kept` is made of the records of `s` at the rising positions `from`.
spec fn distinct_from(
    s: Seq<(Seq<char>, NodeStatistics)>,
    kept: Seq<(Seq<char>, NodeStatistics)>,
    from: Seq<int>,
    n: int,
) -> bool {
    &&& from.len() == kept.len()
    &&& forall|a: int| 0 <= a < from.len() ==> 0 <= #[trigger] from[a] < n && kept[a] == s[from[a]]
    &&& forall|a: int, b: int| 0 <= a < b < from.len() ==> #[trigger] from[a] < #[trigger] from[b]
}

/// What each event changes: a disconnect sets the reason of its side and counts
/// once, a reconnect forgets the peer's reason, a touch moves the clock; all
/// else stays.
pub proof fn events_change_their_part(s: NodeStatistics, reason: DisconnectReason, now: u64)
    ensures
        s.after_local(reason).local_disconnect_reason == Some(reason),
        s.after_local(reason).remote_disconnect_reason == s.remote_disconnect_reason,
        s.after_remote(reason).remote_disconnect_reason == Some(reason),
        s.after_remote(reason).local_disconnect_reason == s.local_disconnect_reason,
        s.disconnect_times < u32::MAX ==> s.after_local(reason).disconnect_times
            == s.disconnect_times + 1 && s.after_remote(reason).disconnect_times
            == s.disconnect_times + 1,
        s.disconnect_times == u32::MAX ==> s.after_local(reason).disconnect_times == u32::MAX
            && s.after_remote(reason).disconnect_times == u32::MAX,
        s.after_local(reason).start_ms == s.start_ms,
        s.after_local(reason).last_interactive_ms == s.last_interactive_ms,
        s.after_remote(reason).start_ms == s.start_ms,
        s.after_remote(reason).last_interactive_ms == s.last_interactive_ms,
        s.after_reconnect().remote_disconnect_reason is None,
        s.after_reconnect().local_disconnect_reason == s.local_disconnect_reason,
        s.after_reconnect().disconnect_times == s.disconnect_times,
        s.after_reconnect().last_interactive_ms == s.last_interactive_ms,
        s.touched(now).last_interactive_ms == now,
        s.touched(now).local_disconnect_reason == s.local_disconnect_reason,
        s.touched(now).remote_disconnect_reason == s.remote_disconnect_reason,
        NodeStatistics::fresh(now).start_ms == now,
        NodeStatistics::fresh(now).last_interactive_ms == now,
        NodeStatistics::fresh(now).disconnect_times == 0,
        NodeStatistics::fresh(now).local_disconnect_reason is None,
        NodeStatistics::fresh(now).remote_disconnect_reason is None,
        DisconnectReason::Unknown.tag() == 0,
        DisconnectReason::TimeBanned.tag() == 3,
        DisconnectReason::RandomElimination.tag() == 14,
        DisconnectReason::BadProtocol.tag() == 16,
        DisconnectReason::FetchFail.tag() == 19,
{
}

proof fn lemma_not_older(s: Seq<(Seq<char>, NodeStatistics)>, n: nat, cutoff: int)
    requires
        n <= s.len(),
    ensures
        not_older(s, n, cutoff) == s.take(n as int).filter(
            |e: (Seq<char>, NodeStatistics)| e.1.start_ms >= cutoff,
        ),
    decreases n,
{
    let f = |e: (Seq<char>, NodeStatistics)| e.1.start_ms >= cutoff;
    reveal(Seq::filter);
    if n > 0 {
        lemma_not_older(s, (n - 1) as nat, cutoff);
        let t = s.take(n as int);
        assert(t.drop_last() =~= s.take(n - 1));
        assert(t.last() == s[n - 1]);
    }
    assert(not_older(s, n, cutoff) =~= s.take(n as int).filter(f));
}

/// Pruning keeps the records that started within the age limit, in their order,
/// and a peer without a record starts with a fresh one.
pub proof fn old_records_are_dropped(
    s: Seq<(Seq<char>, NodeStatistics)>,
    cutoff: int,
    key: Seq<char>,
    now: u64,
)
    ensures
        not_older(s, s.len(), cutoff) == s.filter(
            |e: (Seq<char>, NodeStatistics)| e.1.start_ms >= cutoff,
        ),
        lookup(s, key) is Some ==> record_or_fresh(s, key, now) == lookup(s, key)->Some_0,
        lookup(s, key) is None ==> record_or_fresh(s, key, now).start_ms == now && record_or_fresh(
            s,
            key,
            now,
        ).disconnect_times == 0,
{
    lemma_not_older(s, s.len(), cutoff);
    assert(s.take(s.len() as int) =~= s);
}

/// The own reason counts before the peer's, and without either it is unknown.
pub proof fn the_own_reason_counts_first(s: NodeStatistics, r: DisconnectReason)
    requires
        call_ensures(NodeStatistics::effective_reason, (&s,), r),
    ensures
        s.local_disconnect_reason is Some ==> r == s.local_disconnect_reason->Some_0,
        s.local_disconnect_reason is None && s.remote_disconnect_reason is Some ==> r
            == s.remote_disconnect_reason->Some_0,
        s.local_disconnect_reason is None && s.remote_disconnect_reason is None ==> r
            == DisconnectReason::Unknown,
{
}

/// Idle time runs from the last exchange, uptime from the start.
pub proof fn times_run_from_their_start(s: NodeStatistics, now: u64, idle: u64, up: u64)
    requires
        call_ensures(NodeStatistics::idle_ms, (&s, now), idle),
        call_ensures(NodeStatistics::uptime_ms, (&s, now), up),
    ensures
        now >= s.last_interactive_ms ==> idle == now - s.last_interactive_ms,
        now < s.last_interactive_ms ==> idle == 0,
        now >= s.start_ms ==> up == now - s.start_ms,
        now < s.start_ms ==> up == 0,
{
}

} // verus!
