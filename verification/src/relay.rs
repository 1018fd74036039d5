//! Which peers a fresh block is pushed to at once: the operator's fast-forward
//! nodes first, then the peers of active witnesses.

use vstd::prelude::*;

use crate::bytes::bytes_eq;
use crate::cli::words;
use crate::text::str_eq;

verus! {

/// One peer that the relay considers.
#[derive(Debug, Clone, PartialEq, Eq)]
pub struct RelayPeer {
    /// Stable identifier.
    pub key: String,
    /// Witness address, or None for a peer that is no witness.
    pub witness_address: Option<[u8; 21]>,
    /// In the operator's fast-forward set.
    pub is_fast_forward: bool,
}

/// Relay limits.
#[derive(Debug, Clone, Copy, PartialEq, Eq, Structural)]
pub struct RelayConfig {
    pub max_peer_count_per_address: usize,
    pub max_fast_forward_num: usize,
}

impl Default for RelayConfig {
    fn default() -> (r: Self)
        ensures
            r == (RelayConfig { max_peer_count_per_address: 5, max_fast_forward_num: 3 }),
    {
        RelayConfig { max_peer_count_per_address: 5, max_fast_forward_num: 3 }
    }
}

/// The peers to push to, in order of priority.
#[derive(Debug, Clone, PartialEq, Eq)]
pub struct RelayPlan {
    /// Fast-forward peers.
    pub fast_forward: Vec<String>,
    /// Peers of active witnesses that are not among the fast-forward ones.
    pub witnesses: Vec<String>,
}

impl RelayPlan {
    /// Whether there is nobody to push to.
    pub fn is_empty(&self) -> (r: bool)
        ensures
            r == (self.fast_forward@.len() == 0 && self.witnesses@.len() == 0),
    {
        self.fast_forward.len() == 0 && self.witnesses.len() == 0
    }
}

/// The relay decision's inputs.
pub struct RelayPolicy<'a> {
    pub config: &'a RelayConfig,
    pub peers: &'a [RelayPeer],
    /// Addresses of the active witnesses.
    pub active_witnesses: &'a [[u8; 21]],
}

/// The keys of the fast-forward peers among the first `n`, in order, at most
/// `max` of them.
pub open spec fn fast_keys(peers: Seq<RelayPeer>, n: nat, max: nat) -> Seq<Seq<char>>
    decreases n,
{
    if n == 0 {
        Seq::empty()
    } else {
        let before = fast_keys(peers, (n - 1) as nat, max);
        if peers[n - 1].is_fast_forward && before.len() < max {
            before.push(peers[n - 1].key@)
        } else {
            before
        }
    }
}

/// Whether a peer's witness is active.
pub open spec fn witness_is_active(p: RelayPeer, active: Seq<[u8; 21]>) -> bool {
    p.witness_address matches Some(a) && active.contains(a)
}

/// The keys of the active witnesses' peers among the first `n`, in order,
/// without those of `fast`.
pub open spec fn witness_keys(
    peers: Seq<RelayPeer>,
    n: nat,
    fast: Seq<Seq<char>>,
    active: Seq<[u8; 21]>,
) -> Seq<Seq<char>>
    decreases n,
{
    if n == 0 {
        Seq::empty()
    } else {
        let before = witness_keys(peers, (n - 1) as nat, fast, active);
        let p = peers[n - 1];
        if !fast.contains(p.key@) && witness_is_active(p, active) {
            before.push(p.key@)
        } else {
            before
        }
    }
}

fn contains_key(keys: &Vec<String>, key: &str) -> (r: bool)
    ensures
        r == words(keys@).contains(key@),
{
    let ghost w = words(keys@);
    let mut i: usize = 0;
    while i < keys.len()
        invariant
            i <= keys@.len(),
            w == words(keys@),
            forall|j: int| 0 <= j < i ==> w[j] != key@,
        decreases keys@.len() - i,
    {
        assert(w[i as int] == keys@[i as int]@);
        if str_eq(keys[i].as_str(), key) {
            return true;
        }
        i = i + 1;
    }
    false
}

fn contains_address(active: &[[u8; 21]], a: &[u8; 21]) -> (r: bool)
    ensures
        r == active@.contains(*a),
{
    let mut i: usize = 0;
    while i < active.len()
        invariant
            i <= active@.len(),
            forall|j: int| 0 <= j < i ==> active@[j] != *a,
        decreases active@.len() - i,
    {
        if bytes_eq(active[i].as_slice(), a.as_slice()) {
            assert(active@[i as int] =~= *a);
            return true;
        }
        i = i + 1;
    }
    false
}

impl<'a> RelayPolicy<'a> {
    /// The plan for a freshly accepted block: fast-forward peers first, up to
    /// their limit and in the operator's order, then the peers of witnesses in
    /// the active set that are not among them.
    pub fn evaluate(&self) -> (r: RelayPlan)
        ensures
            words(r.fast_forward@) == fast_keys(
                self.peers@,
                self.peers@.len(),
                self.config.max_fast_forward_num as nat,
            ),
            words(r.witnesses@) == witness_keys(
                self.peers@,
                self.peers@.len(),
                words(r.fast_forward@),
                self.active_witnesses@,
            ),
    {
        let peers = self.peers;
        let max: usize = self.config.max_fast_forward_num;
        let mut fast: Vec<String> = Vec::new();
        let mut i: usize = 0;
        assert(words(fast@) =~= Seq::<Seq<char>>::empty());
        while i < peers.len()
            invariant
                i <= peers@.len(),
                words(fast@) == fast_keys(peers@, i as nat, max as nat),
            decreases peers@.len() - i,
        {
            let ghost before = words(fast@);
            if peers[i].is_fast_forward && fast.len() < max {
                fast.push(peers[i].key.clone());
                assert(words(fast@) =~= before.push(peers@[i as int].key@));
            }
            i = i + 1;
        }
        let mut wit: Vec<String> = Vec::new();
        let mut k: usize = 0;
        assert(words(wit@) =~= Seq::<Seq<char>>::empty());
        while k < peers.len()
            invariant
                k <= peers@.len(),
                words(wit@) == witness_keys(
                    peers@,
                    k as nat,
                    words(fast@),
                    self.active_witnesses@,
                ),
            decreases peers@.len() - k,
        {
            let ghost before = words(wit@);
            if !contains_key(&fast, peers[k].key.as_str()) {
                if let Some(a) = peers[k].witness_address {
                    if contains_address(self.active_witnesses, &a) {
                        wit.push(peers[k].key.clone());
                        assert(words(wit@) =~= before.push(peers@[k as int].key@));
                    }
                }
            }
            k = k + 1;
        }
        RelayPlan { fast_forward: fast, witnesses: wit }
    }
}

/// The fast-forward list keeps its limit, and no peer is pushed to twice: a
/// key of the fast-forward list is never among the witnesses.
pub proof fn plan_is_capped_and_disjoint(
    peers: Seq<RelayPeer>,
    n: nat,
    max: nat,
    fast: Seq<Seq<char>>,
    active: Seq<[u8; 21]>,
    key: Seq<char>,
)
    ensures
        fast_keys(peers, n, max).len() <= max,
        fast.contains(key) ==> !witness_keys(peers, n, fast, active).contains(key),
    decreases n,
{
    if n > 0 {
        plan_is_capped_and_disjoint(peers, (n - 1) as nat, max, fast, active, key);
        let before = witness_keys(peers, (n - 1) as nat, fast, active);
        let after = witness_keys(peers, n, fast, active);
        if fast.contains(key) && after.contains(key) {
            let j = choose|j: int| 0 <= j < after.len() && after[j] == key;
            if j < before.len() {
                assert(before[j] == key);
            }
        }
    }
}

proof fn lemma_fast_keys(peers: Seq<RelayPeer>, n: nat, max: nat)
    requires
        n <= peers.len(),
    ensures
        ({
            let all = peers.take(n as int).filter(|p: RelayPeer| p.is_fast_forward).map_values(
                |p: RelayPeer| p.key@,
            );
            fast_keys(peers, n, max) == all.take(
                if all.len() < max {
                    all.len() as int
                } else {
                    max as int
                },
            )
        }),
    decreases n,
{
    let f = |p: RelayPeer| p.is_fast_forward;
    let key = |p: RelayPeer| p.key@;
    reveal(Seq::filter);
    if n > 0 {
        lemma_fast_keys(peers, (n - 1) as nat, max);
        let s = peers.take(n as int);
        assert(s.drop_last() =~= peers.take(n - 1));
        assert(s.last() == peers[n - 1]);
        let before = s.drop_last().filter(f);
        if f(peers[n - 1]) {
            assert(s.filter(f) == before.push(peers[n - 1]));
            assert(s.filter(f).map_values(key) =~= before.map_values(key).push(key(peers[n - 1])));
        }
    }
    let all = peers.take(n as int).filter(f).map_values(key);
    assert(fast_keys(peers, n, max) =~= all.take(
        if all.len() < max {
            all.len() as int
        } else {
            max as int
        },
    ));
}

proof fn lemma_witness_keys(
    peers: Seq<RelayPeer>,
    n: nat,
    fast: Seq<Seq<char>>,
    active: Seq<[u8; 21]>,
)
    requires
        n <= peers.len(),
    ensures
        witness_keys(peers, n, fast, active) == peers.take(n as int).filter(
            |p: RelayPeer|
                p.witness_address is Some && active.contains(p.witness_address->Some_0)
                    && !fast.contains(p.key@),
        ).map_values(|p: RelayPeer| p.key@),
    decreases n,
{
    let f = |p: RelayPeer|
        p.witness_address is Some && active.contains(p.witness_address->Some_0) && !fast.contains(
            p.key@,
        );
    let key = |p: RelayPeer| p.key@;
    reveal(Seq::filter);
    if n > 0 {
        lemma_witness_keys(peers, (n - 1) as nat, fast, active);
        let s = peers.take(n as int);
        assert(s.drop_last() =~= peers.take(n - 1));
        assert(s.last() == peers[n - 1]);
        let before = s.drop_last().filter(f);
        if f(peers[n - 1]) {
            assert(s.filter(f) == before.push(peers[n - 1]));
            assert(s.filter(f).map_values(key) =~= before.map_values(key).push(key(peers[n - 1])));
        }
    }
    assert(witness_keys(peers, n, fast, active) =~= peers.take(n as int).filter(f).map_values(key));
}

/// The fast-forward list is the leading part, up to the limit, of the peers
/// that the operator marked, and the witness list is every other peer whose
/// address is of an active witness: both in the order of the peers.
pub proof fn plans_pick_peers_in_order(
    peers: Seq<RelayPeer>,
    max: nat,
    fast: Seq<Seq<char>>,
    active: Seq<[u8; 21]>,
)
    ensures
        ({
            let marked = peers.filter(|p: RelayPeer| p.is_fast_forward).map_values(
                |p: RelayPeer| p.key@,
            );
            &&& marked.len() <= max ==> fast_keys(peers, peers.len(), max) == marked
            &&& marked.len() > max ==> fast_keys(peers, peers.len(), max) == marked.take(max as int)
        }),
        witness_keys(peers, peers.len(), fast, active) == peers.filter(
            |p: RelayPeer|
                p.witness_address is Some && active.contains(p.witness_address->Some_0)
                    && !fast.contains(p.key@),
        ).map_values(|p: RelayPeer| p.key@),
{
    lemma_fast_keys(peers, peers.len(), max);
    lemma_witness_keys(peers, peers.len(), fast, active);
    assert(peers.take(peers.len() as int) =~= peers);
    let marked = peers.filter(|p: RelayPeer| p.is_fast_forward).map_values(|p: RelayPeer| p.key@);
    assert(marked.take(marked.len() as int) =~= marked);
}

/// The plan that a policy comes to: no more fast-forward peers than the limit,
/// and every peer of an active witness in one list or the other.
pub proof fn plans_leave_no_witness_out(
    config: RelayConfig,
    peers: &[RelayPeer],
    active: &[[u8; 21]],
    plan: RelayPlan,
    i: int,
)
    requires
        call_ensures(
            RelayPolicy::evaluate,
            (&(RelayPolicy { config: &config, peers, active_witnesses: active }),),
            plan,
        ),
        0 <= i < peers@.len(),
        peers@[i].witness_address is Some,
        active@.contains(peers@[i].witness_address->Some_0),
    ensures
        plan.fast_forward@.len() <= config.max_fast_forward_num,
        words(plan.fast_forward@).contains(peers@[i].key@) || words(plan.witnesses@).contains(
            peers@[i].key@,
        ),
{
    let fast = words(plan.fast_forward@);
    plan_is_capped_and_disjoint(
        peers@,
        peers@.len(),
        config.max_fast_forward_num as nat,
        fast,
        active@,
        peers@[i].key@,
    );
    if !fast.contains(peers@[i].key@) {
        lemma_witness_is_listed(peers@, peers@.len(), fast, active@, i);
    }
}

proof fn lemma_witness_is_listed(
    peers: Seq<RelayPeer>,
    n: nat,
    fast: Seq<Seq<char>>,
    active: Seq<[u8; 21]>,
    i: int,
)
    requires
        0 <= i < n,
        n <= peers.len(),
        !fast.contains(peers[i].key@),
        witness_is_active(peers[i], active),
    ensures
        witness_keys(peers, n, fast, active).contains(peers[i].key@),
    decreases n,
{
    let before = witness_keys(peers, (n - 1) as nat, fast, active);
    let after = witness_keys(peers, n, fast, active);
    if i < n - 1 {
        lemma_witness_is_listed(peers, (n - 1) as nat, fast, active, i);
        let k = choose|k: int| 0 <= k < before.len() && before[k] == peers[i].key@;
        assert(after[k] == peers[i].key@);
    } else {
        assert(after[before.len() as int] == peers[i].key@);
    }
}

} // verus!
