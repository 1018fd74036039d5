//! When each peer was last dialed, so that a restart leaves peers alone until
//! their ban window for us has passed.

use vstd::prelude::*;

use crate::clock::{elapsed_ms, unix_now_ms};
use crate::table::{lookup, with_entry, Table};

verus! {

/// A peer dialed more recently than this is skipped at startup: the peer's
/// own ban window and a margin.
pub const SKIP_AFTER_DIAL_MS: u64 = 90_000;

/// Dial times by peer address, and whether they changed since they were last
/// written out.
pub struct PeerState {
    table: Table<u64>,
    dirty: bool,
}

impl View for PeerState {
    type V = Seq<(Seq<char>, u64)>;

    closed spec fn view(&self) -> Seq<(Seq<char>, u64)> {
        self.table@
    }
}

/// Whether a peer was dialed within the window before `now`.
pub open spec fn dialed_recently(s: Seq<(Seq<char>, u64)>, peer: Seq<char>, now: u64) -> bool {
    lookup(s, peer) matches Some(ts) && elapsed_ms(now, ts) < 90_000
}

/// The first `n` entries that are younger than `max_age` at `now`.
pub open spec fn younger(s: Seq<(Seq<char>, u64)>, n: nat, max_age: u64, now: u64) -> Seq<
    (Seq<char>, u64),
>
    decreases n,
{
    if n == 0 {
        Seq::empty()
    } else if elapsed_ms(now, s[n - 1].1) < max_age {
        younger(s, (n - 1) as nat, max_age, now).push(s[n - 1])
    } else {
        younger(s, (n - 1) as nat, max_age, now)
    }
}

/// The dial times of a list of entries, a later one of the same peer
/// overriding.
pub open spec fn collected(list: Seq<(String, u64)>, n: nat) -> Seq<(Seq<char>, u64)>
    decreases n,
{
    if n == 0 {
        Seq::empty()
    } else {
        with_entry(collected(list, (n - 1) as nat), list[n - 1].0@, list[n - 1].1)
    }
}

impl PeerState {
    /// No peer stands twice.
    pub closed spec fn wf(&self) -> bool {
        self.table.wf()
    }

    /// Whether the entries changed since they were last written out.
    pub closed spec fn changed(&self) -> bool {
        self.dirty
    }

    /// The state read from a file.
    pub fn load(entries: &Vec<(String, u64)>) -> (r: PeerState)
        ensures
            r.wf(),
            r@ == collected(entries@, entries@.len()),
            !r.changed(),
    {
        let mut table: Table<u64> = Table::new();
        let mut i: usize = 0;
        while i < entries.len()
            invariant
                i <= entries@.len(),
                table.wf(),
                table@ == collected(entries@, i as nat),
            decreases entries@.len() - i,
        {
            table.set(entries[i].0.as_str(), entries[i].1);
            i = i + 1;
        }
        PeerState { table, dirty: false }
    }

    /// What to write out, where anything changed. Afterwards nothing is owed.
    pub fn flush(&mut self) -> (r: Option<Vec<(String, u64)>>)
        requires
            old(self).wf(),
        ensures
            final(self).wf(),
            final(self)@ == old(self)@,
            !final(self).changed(),
            match r {
                Some(v) => old(self).changed() && v@.map_values(|e: (String, u64)| (e.0@, e.1))
                    == old(self)@,
                None => !old(self).changed(),
            },
    {
        if !self.dirty {
            return None;
        }
        let ghost s = self@;
        let mut out: Table<u64> = Table::new();
        let mut i: usize = 0;
        while i < self.table.entries.len()
            invariant
                i <= self.table.entries@.len(),
                s == self.table@,
                out@ == s.take(i as int),
            decreases self.table.entries@.len() - i,
        {
            let ghost before = out@;
            out.entries.push((self.table.entries[i].0.clone(), self.table.entries[i].1));
            i = i + 1;
            assert(out@ =~= before.push(s[i - 1]));
            assert(out@ =~= s.take(i as int));
        }
        assert(s.take(i as int) =~= s);
        self.dirty = false;
        Some(out.entries)
    }

    /// Records that the last write failed, so that the entries are owed again.
    pub fn flush_failed(&mut self)
        requires
            old(self).wf(),
        ensures
            final(self).wf(),
            final(self)@ == old(self)@,
            final(self).changed(),
    {
        self.dirty = true;
    }

    /// Records a dial of `peer` at `now_ms`.
    pub fn touch_at(&mut self, peer: &str, now_ms: u64)
        requires
            old(self).wf(),
        ensures
            final(self).wf(),
            final(self)@ == with_entry(old(self)@, peer@, now_ms),
            final(self).changed(),
    {
        self.table.set(peer, now_ms);
        self.dirty = true;
    }

    /// Records a dial of `peer` at the current time.
    pub fn touch(&mut self, peer: &str)
        requires
            old(self).wf(),
        ensures
            final(self).wf(),
            exists|now: u64| final(self)@ == #[trigger] with_entry(old(self)@, peer@, now),
            final(self).changed(),
    {
        self.touch_at(peer, unix_now_ms());
    }

    /// Whether `peer` was dialed within the window before `now_ms`.
    pub fn was_dialed_recently_at(&self, peer: &str, now_ms: u64) -> (r: bool)
        ensures
            r == dialed_recently(self@, peer@, now_ms),
    {
        match self.table.get(peer) {
            Some(ts) => now_ms.saturating_sub(*ts) < SKIP_AFTER_DIAL_MS,
            None => false,
        }
    }

    /// Whether `peer` was dialed within the window before the current time.
    pub fn was_dialed_recently(&self, peer: &str) -> (r: bool)
        ensures
            exists|now: u64| r == #[trigger] dialed_recently(self@, peer@, now),
    {
        self.was_dialed_recently_at(peer, unix_now_ms())
    }

    /// Drops the entries of age `max_age_ms` or more at `now_ms`. Returns how
    /// many went.
    pub fn prune_at(&mut self, max_age_ms: u64, now_ms: u64) -> (r: usize)
        requires
            old(self).wf(),
        ensures
            final(self).wf(),
            final(self)@ == younger(old(self)@, old(self)@.len(), max_age_ms, now_ms),
            r == old(self)@.len() - final(self)@.len(),
            final(self).changed() == (old(self).changed() || r > 0),
    {
        let ghost s = self@;
        let before: usize = self.table.len();
        let mut kept: Table<u64> = Table::new();
        let ghost mut from: Seq<int> = Seq::empty();
        let mut i: usize = 0;
        while i < self.table.entries.len()
            invariant
                *self == *old(self),
                self.wf(),
                i <= self.table.entries@.len(),
                s == self.table@,
                picked(s, kept@, from, i as int),
                kept@ == younger(s, i as nat, max_age_ms, now_ms),
                kept@.len() <= i,
            decreases self.table.entries@.len() - i,
        {
            let ghost k0 = kept@;
            assert(s[i as int] == (
                self.table.entries@[i as int].0@,
                self.table.entries@[i as int].1,
            ));
            if now_ms.saturating_sub(self.table.entries[i].1) < max_age_ms {
                kept.entries.push((self.table.entries[i].0.clone(), self.table.entries[i].1));
                assert(kept@ =~= k0.push(s[i as int]));
                proof {
                    from = from.push(i as int);
                }
            }
            i = i + 1;
        }
        proof {
            assert forall|a: int, b: int| 0 <= a < b < kept@.len() implies (#[trigger] kept@[a]).0
                != (#[trigger] kept@[b]).0 by {
                assert(kept@[a] == s[from[a]] && kept@[b] == s[from[b]]);
            }
        }
        let after: usize = kept.len();
        self.table = kept;
        let removed: usize = before - after;
        if removed > 0 {
            self.dirty = true;
        }
        removed
    }

    /// Drops the entries of age `max_age_ms` or more at the current time.
    /// Returns how many went.
    pub fn prune(&mut self, max_age_ms: u64) -> (r: usize)
        requires
            old(self).wf(),
        ensures
            final(self).wf(),
            exists|now: u64|
                final(self)@ == #[trigger] younger(
                    old(self)@,
                    old(self)@.len(),
                    max_age_ms,
                    now,
                ),
            r == old(self)@.len() - final(self)@.len(),
            final(self).changed() == (old(self).changed() || r > 0),
    {
        self.prune_at(max_age_ms, unix_now_ms())
    }
}

/// `kept` is made of the entries of `s` at the rising positions `from`.
spec fn picked(
    s: Seq<(Seq<char>, u64)>,
    kept: Seq<(Seq<char>, u64)>,
    from: Seq<int>,
    n: int,
) -> bool {
    &&& from.len() == kept.len()
    &&& forall|a: int| 0 <= a < from.len() ==> 0 <= #[trigger] from[a] < n && kept[a] == s[from[a]]
    &&& forall|a: int, b: int| 0 <= a < b < from.len() ==> #[trigger] from[a] < #[trigger] from[b]
}

/// A peer just dialed is skipped for the whole window, and not a millisecond
/// longer; other peers are unaffected.
pub proof fn a_dial_is_remembered_for_the_window(
    s: Seq<(Seq<char>, u64)>,
    peer: Seq<char>,
    other: Seq<char>,
    dialed: u64,
    now: u64,
)
    requires
        dialed <= now,
        other != peer,
    ensures
        dialed_recently(with_entry(s, peer, dialed), peer, now) == (now - dialed < 90_000),
        dialed_recently(with_entry(s, peer, dialed), other, now) == dialed_recently(s, other, now),
{
    crate::table::setting_then_looking_up(s, peer, dialed, other);
}

proof fn lemma_younger(s: Seq<(Seq<char>, u64)>, n: nat, max_age: u64, now: u64)
    requires
        n <= s.len(),
    ensures
        younger(s, n, max_age, now) == s.take(n as int).filter(
            |e: (Seq<char>, u64)| (if now >= e.1 { now - e.1 } else { 0 }) < max_age,
        ),
    decreases n,
{
    let f = |e: (Seq<char>, u64)| (if now >= e.1 { now - e.1 } else { 0 }) < max_age;
    reveal(Seq::filter);
    if n > 0 {
        lemma_younger(s, (n - 1) as nat, max_age, now);
        let t = s.take(n as int);
        assert(t.drop_last() =~= s.take(n - 1));
        assert(t.last() == s[n - 1]);
    }
    assert(younger(s, n, max_age, now) =~= s.take(n as int).filter(f));
}

/// Pruning keeps the entries younger than the limit, each as it was and in its
/// order, and no others; an entry from the future counts as new.
pub proof fn pruning_keeps_the_young(s: Seq<(Seq<char>, u64)>, max_age: u64, now: u64)
    ensures
        younger(s, s.len(), max_age, now) == s.filter(
            |e: (Seq<char>, u64)| (if now >= e.1 { now - e.1 } else { 0 }) < max_age,
        ),
{
    lemma_younger(s, s.len(), max_age, now);
    assert(s.take(s.len() as int) =~= s);
}

/// A file is read entry by entry: the last entry of a peer is the one that
/// stands, and a peer without an entry is not known.
pub proof fn the_last_entry_stands(list: Seq<(String, u64)>, n: nat, i: int, other: Seq<char>)
    requires
        n <= list.len(),
    ensures
        0 <= i < n && (forall|j: int| i < j < n ==> (#[trigger] list[j]).0@ != list[i].0@)
            ==> lookup(collected(list, n), list[i].0@) == Some(list[i].1),
        (forall|j: int| 0 <= j < n ==> (#[trigger] list[j]).0@ != other) ==> lookup(
            collected(list, n),
            other,
        ) is None,
    decreases n,
{
    if n > 0 {
        the_last_entry_stands(list, (n - 1) as nat, i, other);
        let s = collected(list, (n - 1) as nat);
        let last = list[n - 1];
        if last.0@ != other {
            crate::table::setting_then_looking_up(s, last.0@, last.1, other);
        }
        if 0 <= i < n - 1 && last.0@ != list[i].0@ {
            crate::table::setting_then_looking_up(s, last.0@, last.1, list[i].0@);
        }
        if i == n - 1 {
            let fresh = last.0@.push('a');
            assert(fresh.len() != last.0@.len());
            crate::table::setting_then_looking_up(s, last.0@, last.1, fresh);
        }
    }
}

} // verus!
