//! The live peers, shared between the sync drivers and the resilience
//! scheduler.

use std::sync::Arc;

use vstd::prelude::*;
use vstd::rwlock::{RwLock, RwLockPredicate};

use crate::resilience::{copy_peer, PeerSnapshot};
use crate::table::{lookup, with_entry, without, Table};

verus! {

/// The live peers by key.
pub struct PeerTable {
    table: Table<PeerSnapshot>,
}

impl View for PeerTable {
    type V = Seq<(Seq<char>, PeerSnapshot)>;

    closed spec fn view(&self) -> Seq<(Seq<char>, PeerSnapshot)> {
        self.table@
    }
}

impl PeerTable {
    /// No key stands twice.
    pub closed spec fn wf(&self) -> bool {
        self.table.wf()
    }

    pub fn new() -> (r: Self)
        ensures
            r.wf(),
            r@ == Seq::<(Seq<char>, PeerSnapshot)>::empty(),
    {
        PeerTable { table: Table::new() }
    }

    /// Inserts or replaces the snapshot of `peer_key`.
    pub fn register(&mut self, peer_key: &str, snapshot: PeerSnapshot)
        requires
            old(self).wf(),
        ensures
            final(self).wf(),
            final(self)@ == with_entry(old(self)@, peer_key@, snapshot),
    {
        self.table.set(peer_key, snapshot);
    }

    /// Drops the entry of `peer_key`.
    pub fn unregister(&mut self, peer_key: &str)
        requires
            old(self).wf(),
        ensures
            final(self).wf(),
            final(self)@ == without(old(self)@, peer_key@),
    {
        self.table.remove(peer_key);
    }

    /// Changes the snapshot of `peer_key` by `f`, if there is one.
    pub fn touch<F: FnOnce(PeerSnapshot) -> PeerSnapshot>(&mut self, peer_key: &str, f: F)
        requires
            old(self).wf(),
            lookup(old(self)@, peer_key@) matches Some(p) ==> f.requires((p,)),
        ensures
            final(self).wf(),
            match lookup(old(self)@, peer_key@) {
                Some(p) => exists|q: PeerSnapshot|
                    f.ensures((p,), q) && final(self)@ == with_entry(old(self)@, peer_key@, q),
                None => final(self)@ == old(self)@,
            },
    {
        let ghost s = self@;
        let i: usize = self.table.find(peer_key);
        if i < self.table.entries.len() {
            let (k, p) = self.table.entries.remove(i);
            assert((k@, p) == s[i as int]);
            let q = f(p);
            proof {
                crate::table::setting_then_looking_up(s, peer_key@, q, peer_key@);
            }
            self.table.entries.insert(i, (peer_key.to_owned(), q));
            assert(self@ =~= with_entry(s, peer_key@, q));
        }
    }

    /// The snapshots, in the order in which their keys came.
    pub fn snapshot(&self) -> (r: Vec<PeerSnapshot>)
        ensures
            r@.len() == self@.len(),
            forall|i: int| 0 <= i < r@.len() ==> (#[trigger] r@[i])@ == self@[i].1@,
    {
        let mut out: Vec<PeerSnapshot> = Vec::new();
        let mut i: usize = 0;
        while i < self.table.entries.len()
            invariant
                i <= self.table.entries@.len(),
                out@.len() == i,
                forall|j: int| 0 <= j < i ==> (#[trigger] out@[j])@ == self.table@[j].1@,
            decreases self.table.entries@.len() - i,
        {
            out.push(copy_peer(&self.table.entries[i].1));
            i = i + 1;
        }
        out
    }

    /// How many peers are live.
    pub fn len(&self) -> (r: usize)
        ensures
            r == self@.len(),
    {
        self.table.len()
    }
}

/// One change of the table.
pub enum PeerChange {
    /// A snapshot was put in, or replaced.
    Put(Seq<char>, PeerSnapshot),
    /// An entry was dropped.
    Remove(Seq<char>),
}

/// What a run of changes makes of a table.
pub open spec fn changed(
    start: Seq<(Seq<char>, PeerSnapshot)>,
    changes: Seq<PeerChange>,
) -> Seq<(Seq<char>, PeerSnapshot)>
    decreases changes.len(),
{
    if changes.len() == 0 {
        start
    } else {
        let before = changed(start, changes.drop_last());
        match changes.last() {
            PeerChange::Put(key, snapshot) => with_entry(before, key, snapshot),
            PeerChange::Remove(key) => without(before, key),
        }
    }
}

/// Whether some run of changes leads from one table to another.
pub open spec fn reached(
    start: Seq<(Seq<char>, PeerSnapshot)>,
    now: Seq<(Seq<char>, PeerSnapshot)>,
) -> bool {
    exists|changes: Seq<PeerChange>| now == #[trigger] changed(start, changes)
}

proof fn lemma_reached_start(start: Seq<(Seq<char>, PeerSnapshot)>)
    ensures
        reached(start, start),
{
    assert(start == changed(start, Seq::<PeerChange>::empty()));
}

proof fn lemma_reached_next(
    start: Seq<(Seq<char>, PeerSnapshot)>,
    now: Seq<(Seq<char>, PeerSnapshot)>,
    change: PeerChange,
)
    requires
        reached(start, now),
    ensures
        match change {
            PeerChange::Put(key, snapshot) => reached(start, with_entry(now, key, snapshot)),
            PeerChange::Remove(key) => reached(start, without(now, key)),
        },
{
    let changes = choose|changes: Seq<PeerChange>| now == #[trigger] changed(start, changes);
    let more = changes.push(change);
    assert(more.drop_last() =~= changes);
    let next = changed(start, more);
    assert(reached(start, next));
}

/// What holds of the shared table whenever nobody is changing it: no key stands
/// twice, and the table is what changes made of the one it started as.
pub struct Consistent {
    pub start: Ghost<Seq<(Seq<char>, PeerSnapshot)>>,
}

impl RwLockPredicate<PeerTable> for Consistent {
    open spec fn inv(self, v: PeerTable) -> bool {
        v.wf() && reached(self.start@, v@)
    }
}

/// Shared handle to the live peers. Clones share the table, so what one handle
/// sees depends on what the others did; each operation is that of
/// [`PeerTable`], done while nobody else has the table.
pub struct PeerRegistry {
    inner: Arc<RwLock<PeerTable, Consistent>>,
}

impl Clone for PeerRegistry {
    fn clone(&self) -> (r: Self)
        ensures
            r.shares(self),
            r.start() == self.start(),
    {
        PeerRegistry { inner: self.inner.clone() }
    }
}

impl PeerRegistry {
    /// The table that the registry started with.
    pub closed spec fn start(&self) -> Seq<(Seq<char>, PeerSnapshot)> {
        self.inner.pred().start@
    }

    /// Whether two handles are on the same table.
    pub closed spec fn shares(&self, other: &PeerRegistry) -> bool {
        self.inner == other.inner
    }

    /// A registry of its own, with no peer.
    pub fn new() -> (r: Self)
        ensures
            r.start() == Seq::<(Seq<char>, PeerSnapshot)>::empty(),
    {
        let table = PeerTable::new();
        proof {
            lemma_reached_start(table@);
        }
        PeerRegistry {
            inner: Arc::new(
                RwLock::new(table, Ghost(Consistent { start: Ghost(Seq::empty()) })),
            ),
        }
    }

    /// Inserts or replaces the snapshot of `peer_key`.
    pub fn register(&self, peer_key: &str, snapshot: PeerSnapshot) {
        let (mut table, handle) = self.inner.acquire_write();
        proof {
            lemma_reached_next(self.start(), table@, PeerChange::Put(peer_key@, snapshot));
        }
        table.register(peer_key, snapshot);
        handle.release_write(table);
    }

    /// Drops the entry of `peer_key`.
    pub fn unregister(&self, peer_key: &str) {
        let (mut table, handle) = self.inner.acquire_write();
        proof {
            lemma_reached_next(self.start(), table@, PeerChange::Remove(peer_key@));
        }
        table.unregister(peer_key);
        handle.release_write(table);
    }

    /// Changes the snapshot of `peer_key` by `f`, if there is one.
    pub fn touch<F: FnOnce(PeerSnapshot) -> PeerSnapshot>(&self, peer_key: &str, f: F)
        requires
            forall|p: PeerSnapshot| f.requires((p,)),
    {
        let (mut table, handle) = self.inner.acquire_write();
        let ghost before = table@;
        table.touch(peer_key, f);
        proof {
            if let Some(p) = lookup(before, peer_key@) {
                let q = choose|q: PeerSnapshot|
                    f.ensures((p,), q) && table@ == with_entry(before, peer_key@, q);
                lemma_reached_next(self.start(), before, PeerChange::Put(peer_key@, q));
            }
        }
        handle.release_write(table);
    }

    /// The snapshots of the live peers, one for each key, after whatever was
    /// changed since the start.
    pub fn snapshot(&self) -> (r: Vec<PeerSnapshot>)
        ensures
            exists|t: PeerTable|
                t.wf() && #[trigger] reached(self.start(), t@) && r@.len() == t@.len()
                    && forall|i: int| 0 <= i < r@.len() ==> (#[trigger] r@[i])@ == t@[i].1@,
    {
        let (table, handle) = self.inner.acquire_write();
        assert(reached(self.start(), table@));
        let out = table.snapshot();
        handle.release_write(table);
        out
    }

    /// How many peers are live, after whatever was changed since the start.
    pub fn len(&self) -> (r: usize)
        ensures
            exists|t: PeerTable|
                t.wf() && #[trigger] reached(self.start(), t@) && r == t@.len(),
    {
        let (table, handle) = self.inner.acquire_write();
        assert(reached(self.start(), table@));
        let n: usize = table.len();
        handle.release_write(table);
        n
    }

    /// Whether no peer is live.
    pub fn is_empty(&self) -> (r: bool)
        ensures
            exists|t: PeerTable|
                t.wf() && #[trigger] reached(self.start(), t@) && r == (t@.len() == 0),
    {
        self.len() == 0
    }
}

impl Default for PeerRegistry {
    fn default() -> (r: Self)
        ensures
            r.start() == Seq::<(Seq<char>, PeerSnapshot)>::empty(),
    {
        PeerRegistry::new()
    }
}

/// The last change of a peer is what the table tells of it: the snapshot that
/// was put in, or nothing after it was dropped; other peers are unaffected.
pub proof fn the_last_change_stands(
    start: Seq<(Seq<char>, PeerSnapshot)>,
    changes: Seq<PeerChange>,
    key: Seq<char>,
    snapshot: PeerSnapshot,
    other: Seq<char>,
)
    requires
        crate::table::distinct(start),
        other != key,
    ensures
        lookup(changed(start, changes.push(PeerChange::Put(key, snapshot))), key) == Some(snapshot),
        lookup(changed(start, changes.push(PeerChange::Put(key, snapshot))), other) == lookup(
            changed(start, changes),
            other,
        ),
        lookup(changed(start, changes.push(PeerChange::Remove(key))), key) is None,
        lookup(changed(start, changes.push(PeerChange::Remove(key))), other) == lookup(
            changed(start, changes),
            other,
        ),
        crate::table::distinct(changed(start, changes)),
        changed(start, Seq::empty()) == start,
{
    lemma_changed_is_distinct(start, changes);
    let before = changed(start, changes);
    assert(changes.push(PeerChange::Put(key, snapshot)).drop_last() =~= changes);
    assert(changes.push(PeerChange::Remove(key)).drop_last() =~= changes);
    crate::table::setting_then_looking_up(before, key, snapshot, other);
    crate::table::removing_then_looking_up(before, key, other);
}

proof fn lemma_changed_is_distinct(
    start: Seq<(Seq<char>, PeerSnapshot)>,
    changes: Seq<PeerChange>,
)
    requires
        crate::table::distinct(start),
    ensures
        crate::table::distinct(changed(start, changes)),
    decreases changes.len(),
{
    if changes.len() > 0 {
        lemma_changed_is_distinct(start, changes.drop_last());
        let before = changed(start, changes.drop_last());
        match changes.last() {
            PeerChange::Put(key, snapshot) => {
                crate::table::setting_then_looking_up(before, key, snapshot, key);
            },
            PeerChange::Remove(key) => {
                crate::table::removing_then_looking_up(before, key, key);
            },
        }
    }
}

} // verus!
