//! Counters by key, in the order in which the keys first came.

use vstd::prelude::*;

use crate::bytes::{bytes_eq, copy_all};

verus! {

/// Counters by byte-string key.
pub struct KeyCounts {
    entries: Vec<(Vec<u8>, u64)>,
}

impl View for KeyCounts {
    type V = Seq<(Seq<u8>, u64)>;

    closed spec fn view(&self) -> Seq<(Seq<u8>, u64)> {
        self.entries@.map_values(|e: (Vec<u8>, u64)| (e.0@, e.1))
    }
}

/// The position of a key, or the number of entries.
pub open spec fn position(s: Seq<(Seq<u8>, u64)>, key: Seq<u8>) -> nat
    decreases s.len(),
{
    if s.len() == 0 || s[0].0 == key {
        0
    } else {
        1 + position(s.skip(1), key)
    }
}

/// The counters with one more for `key`; a new key comes last.
pub open spec fn bumped(s: Seq<(Seq<u8>, u64)>, key: Seq<u8>) -> Seq<(Seq<u8>, u64)> {
    let i = position(s, key) as int;
    if i < s.len() {
        s.update(i, (key, (s[i].1 + 1) as u64))
    } else {
        s.push((key, 1))
    }
}

/// The sum of the counters.
pub open spec fn sum(s: Seq<(Seq<u8>, u64)>) -> nat
    decreases s.len(),
{
    if s.len() == 0 {
        0
    } else {
        s[0].1 as nat + sum(s.skip(1))
    }
}

proof fn lemma_sum_push(s: Seq<(Seq<u8>, u64)>, e: (Seq<u8>, u64))
    ensures
        sum(s.push(e)) == sum(s) + e.1,
    decreases s.len(),
{
    if s.len() == 0 {
        assert(s.push(e).skip(1) =~= Seq::<(Seq<u8>, u64)>::empty());
        assert(sum(s.push(e).skip(1)) == 0);
    } else {
        assert(s.push(e).skip(1) =~= s.skip(1).push(e));
        lemma_sum_push(s.skip(1), e);
    }
}

proof fn lemma_sum_update(s: Seq<(Seq<u8>, u64)>, i: int, e: (Seq<u8>, u64))
    requires
        0 <= i < s.len(),
    ensures
        sum(s.update(i, e)) == sum(s) - s[i].1 + e.1,
        s[i].1 <= sum(s),
    decreases s.len(),
{
    if i == 0 {
        assert(s.update(0, e).skip(1) =~= s.skip(1));
    } else {
        assert(s.update(i, e).skip(1) =~= s.skip(1).update(i - 1, e));
        lemma_sum_update(s.skip(1), i - 1, e);
    }
}

proof fn lemma_position(s: Seq<(Seq<u8>, u64)>, key: Seq<u8>)
    ensures
        position(s, key) <= s.len(),
        position(s, key) < s.len() ==> s[position(s, key) as int].0 == key,
    decreases s.len(),
{
    if s.len() > 0 && s[0].0 != key {
        lemma_position(s.skip(1), key);
    }
}

/// A bump adds one to the sum, whatever the key.
pub proof fn bumping_adds_one(s: Seq<(Seq<u8>, u64)>, key: Seq<u8>)
    requires
        sum(s) < u64::MAX,
    ensures
        sum(bumped(s, key)) == sum(s) + 1,
{
    lemma_position(s, key);
    let i = position(s, key) as int;
    if i < s.len() {
        lemma_sum_update(s, i, (key, (s[i].1 + 1) as u64));
    } else {
        lemma_sum_push(s, (key, 1));
    }
}

/// `e` placed in a list by falling count, after those of the same count.
pub open spec fn placed(s: Seq<(Seq<u8>, u64)>, e: (Seq<u8>, u64)) -> Seq<(Seq<u8>, u64)>
    decreases s.len(),
{
    if s.len() == 0 {
        seq![e]
    } else if s[0].1 >= e.1 {
        seq![s[0]] + placed(s.skip(1), e)
    } else {
        seq![e] + s
    }
}

/// The first `n` counters by falling count, those of the same count in the
/// order in which they came.
pub open spec fn ranked(s: Seq<(Seq<u8>, u64)>, n: nat) -> Seq<(Seq<u8>, u64)>
    decreases n,
{
    if n == 0 {
        Seq::empty()
    } else {
        placed(ranked(s, (n - 1) as nat), s[n - 1])
    }
}

/// Whether the counts never rise.
pub open spec fn falling(s: Seq<(Seq<u8>, u64)>) -> bool {
    forall|i: int, j: int| 0 <= i <= j < s.len() ==> s[i].1 >= s[j].1
}

proof fn lemma_placed(s: Seq<(Seq<u8>, u64)>, e: (Seq<u8>, u64))
    requires
        falling(s),
    ensures
        falling(placed(s, e)),
        placed(s, e).to_multiset() == s.to_multiset().insert(e),
        placed(s, e).len() == s.len() + 1,
        forall|i: int|
            0 <= i < placed(s, e).len() ==> (#[trigger] placed(s, e)[i]).1 <= e.1 || (s.len() > 0
                && placed(s, e)[i].1 <= s[0].1),
    decreases s.len(),
{
    broadcast use vstd::seq_lib::group_to_multiset_ensures;

    let p = placed(s, e);
    if s.len() == 0 {
        assert(s =~= Seq::<(Seq<u8>, u64)>::empty());
        assert(seq![e] =~= s.push(e));
    } else if s[0].1 >= e.1 {
        let rest = s.skip(1);
        assert(falling(rest)) by {
            assert forall|i: int, j: int| 0 <= i <= j < rest.len() implies rest[i].1 >= rest[j].1 by {
                assert(s[i + 1].1 >= s[j + 1].1);
            }
        }
        lemma_placed(rest, e);
        let q = placed(rest, e);
        assert(p =~= seq![s[0]] + q);
        assert forall|i: int| 0 <= i < p.len() implies (#[trigger] p[i]).1 <= s[0].1 by {
            if i > 0 {
                assert(p[i] == q[i - 1]);
                if rest.len() > 0 {
                    assert(s[0].1 >= s[1].1);
                }
            }
        }
        assert forall|i: int, j: int| 0 <= i <= j < p.len() implies p[i].1 >= p[j].1 by {
            if i > 0 {
                assert(p[i] == q[i - 1] && p[j] == q[j - 1]);
            }
        }
        assert(s =~= seq![s[0]] + rest);
        vstd::seq_lib::lemma_multiset_commutative(seq![s[0]], q);
        vstd::seq_lib::lemma_multiset_commutative(seq![s[0]], rest);
        assert(p.to_multiset() =~= s.to_multiset().insert(e));
    } else {
        assert(p =~= seq![e] + s);
        vstd::seq_lib::lemma_multiset_commutative(seq![e], s);
        assert(seq![e] =~= Seq::<(Seq<u8>, u64)>::empty().push(e));
        assert(p.to_multiset() =~= s.to_multiset().insert(e));
        assert forall|i: int, j: int| 0 <= i <= j < p.len() implies p[i].1 >= p[j].1 by {
            if i > 0 {
                assert(s[i - 1].1 >= s[j - 1].1);
            } else if j > 0 {
                assert(s[0].1 >= s[j - 1].1);
            }
        }
    }
}

/// Ranking keeps every counter and orders them by falling count.
pub proof fn ranking_is_a_falling_permutation(s: Seq<(Seq<u8>, u64)>, n: nat)
    requires
        n <= s.len(),
    ensures
        falling(ranked(s, n)),
        ranked(s, n).to_multiset() == s.take(n as int).to_multiset(),
        ranked(s, n).len() == n,
    decreases n,
{
    broadcast use vstd::seq_lib::group_to_multiset_ensures;

    if n == 0 {
        assert(s.take(0) =~= Seq::<(Seq<u8>, u64)>::empty());
    } else {
        ranking_is_a_falling_permutation(s, (n - 1) as nat);
        lemma_placed(ranked(s, (n - 1) as nat), s[n - 1]);
        assert(s.take(n as int) =~= s.take(n - 1).push(s[n - 1]));
    }
}

/// No counter of a ranking is greater than their sum.
pub proof fn ranked_counts_are_within_the_sum(s: Seq<(Seq<u8>, u64)>)
    ensures
        ranked(s, s.len()).len() == s.len(),
        forall|i: int| 0 <= i < s.len() ==> (#[trigger] ranked(s, s.len())[i]).1 <= sum(s),
{
    broadcast use vstd::seq_lib::group_to_multiset_ensures;

    let r = ranked(s, s.len());
    ranking_is_a_falling_permutation(s, s.len());
    assert(s.take(s.len() as int) =~= s);
    assert forall|i: int| 0 <= i < s.len() implies (#[trigger] r[i]).1 <= sum(s) by {
        assert(r.to_multiset().count(r[i]) > 0);
        assert(s.to_multiset().count(r[i]) > 0);
        let j = choose|j: int| 0 <= j < s.len() && s[j] == r[i];
        lemma_sum_update(s, j, s[j]);
    }
}

impl KeyCounts {
    /// No counter.
    pub fn new() -> (r: KeyCounts)
        ensures
            r@ == Seq::<(Seq<u8>, u64)>::empty(),
    {
        let r = KeyCounts { entries: Vec::new() };
        assert(r@ =~= Seq::<(Seq<u8>, u64)>::empty());
        r
    }

    /// Whether there is no counter.
    pub fn is_empty(&self) -> (r: bool)
        ensures
            r == (self@.len() == 0),
    {
        self.entries.len() == 0
    }

    /// Adds one to the counter of `key`.
    pub fn bump(&mut self, key: &[u8])
        requires
            sum(old(self)@) < u64::MAX,
        ensures
            final(self)@ == bumped(old(self)@, key@),
    {
        let ghost s = self@;
        let mut i: usize = 0;
        assert(s.skip(0) =~= s);
        while i < self.entries.len()
            invariant
                i <= self.entries@.len(),
                *self == *old(self),
                s == self@,
                sum(s) < u64::MAX,
                position(s, key@) == i + position(s.skip(i as int), key@),
            decreases self.entries@.len() - i,
        {
            let ghost rest = s.skip(i as int);
            assert(rest[0] == (self.entries@[i as int].0@, self.entries@[i as int].1));
            if bytes_eq(self.entries[i].0.as_slice(), key) {
                proof {
                    lemma_sum_update(s, i as int, s[i as int]);
                }
                let n: u64 = self.entries[i].1 + 1;
                let k = copy_all(key);
                self.entries[i] = (k, n);
                assert(self@ =~= bumped(s, key@));
                return;
            }
            assert(rest.skip(1) =~= s.skip(i + 1));
            i = i + 1;
        }
        let k = copy_all(key);
        self.entries.push((k, 1));
        assert(self@ =~= bumped(s, key@));
    }

    /// The sum of the counters.
    pub fn total(&self) -> (r: u64)
        requires
            sum(self@) <= u64::MAX,
        ensures
            r == sum(self@),
    {
        let ghost s = self@;
        let mut t: u64 = 0;
        let mut i: usize = 0;
        assert(s.skip(0) =~= s);
        while i < self.entries.len()
            invariant
                i <= self.entries@.len(),
                s == self@,
                sum(s) <= u64::MAX,
                t + sum(s.skip(i as int)) == sum(s),
            decreases self.entries@.len() - i,
        {
            let ghost rest = s.skip(i as int);
            assert(rest[0] == (self.entries@[i as int].0@, self.entries@[i as int].1));
            assert(rest.skip(1) =~= s.skip(i + 1));
            t = t + self.entries[i].1;
            i = i + 1;
        }
        assert(s.skip(i as int).len() == 0);
        t
    }

    /// The counters by falling count.
    pub fn by_count(&self) -> (r: Vec<(Vec<u8>, u64)>)
        ensures
            r@.map_values(|e: (Vec<u8>, u64)| (e.0@, e.1)) == ranked(self@, self@.len()),
    {
        let ghost s = self@;
        let ghost plain = |e: (Vec<u8>, u64)| (e.0@, e.1);
        let mut out: Vec<(Vec<u8>, u64)> = Vec::new();
        let mut i: usize = 0;
        assert(out@.map_values(plain) =~= ranked(s, 0));
        while i < self.entries.len()
            invariant
                i <= self.entries@.len(),
                s == self@,
                plain == (|e: (Vec<u8>, u64)| (e.0@, e.1)),
                out@.map_values(plain) == ranked(s, i as nat),
            decreases self.entries@.len() - i,
        {
            let ghost before = out@.map_values(plain);
            let n: u64 = self.entries[i].1;
            let mut at: usize = 0;
            assert(before.skip(0) =~= before);
            assert(before.take(0) + placed(before, s[i as int]) =~= placed(before, s[i as int]));
            while at < out.len() && out[at].1 >= n
                invariant
                    at <= out@.len(),
                    i < self.entries@.len(),
                    s == self@,
                    n == s[i as int].1,
                    before == out@.map_values(plain),
                    plain == (|e: (Vec<u8>, u64)| (e.0@, e.1)),
                    before.take(at as int) + placed(before.skip(at as int), s[i as int]) == placed(
                        before,
                        s[i as int],
                    ),
                decreases out@.len() - at,
            {
                let ghost rest = before.skip(at as int);
                assert(rest[0].1 == out@[at as int].1);
                assert(rest.skip(1) =~= before.skip(at + 1));
                assert(before.take(at as int) + (seq![rest[0]] + placed(rest.skip(1), s[i as int]))
                    =~= before.take(at + 1) + placed(rest.skip(1), s[i as int]));
                at = at + 1;
            }
            let k = copy_all(self.entries[i].0.as_slice());
            out.insert(at, (k, n));
            proof {
                let e = s[i as int];
                let rest = before.skip(at as int);
                assert(placed(rest, e) =~= seq![e] + rest);
                assert(out@.map_values(plain) =~= before.take(at as int) + (seq![e] + rest));
            }
            i = i + 1;
        }
        out
    }
}

/// The counts are kept apart: the key counted has one more, or one where it is
/// new, and every other entry stays where and what it was.
pub proof fn counts_are_kept_apart(s: Seq<(Seq<u8>, u64)>, key: Seq<u8>, i: int)
    requires
        0 <= i < s.len(),
        s[i].0 == key,
        forall|j: int| 0 <= j < s.len() && j != i ==> (#[trigger] s[j]).0 != key,
        s[i].1 < u64::MAX,
    ensures
        bumped(s, key).len() == s.len(),
        bumped(s, key)[i] == (key, (s[i].1 + 1) as u64),
        forall|j: int| 0 <= j < s.len() && j != i ==> #[trigger] bumped(s, key)[j] == s[j],
{
    lemma_position_is(s, key, i);
}

proof fn lemma_position_is(s: Seq<(Seq<u8>, u64)>, key: Seq<u8>, i: int)
    requires
        0 <= i <= s.len(),
        i < s.len() ==> s[i].0 == key,
        forall|j: int| 0 <= j < i ==> (#[trigger] s[j]).0 != key,
    ensures
        position(s, key) == i,
    decreases s.len(),
{
    if i > 0 {
        let t = s.skip(1);
        assert(s[0].0 != key);
        assert forall|j: int| 0 <= j < i - 1 implies (#[trigger] t[j]).0 != key by {
            assert(t[j] == s[j + 1]);
        }
        lemma_position_is(t, key, i - 1);
    }
}

/// A new key comes last, with a count of one.
pub proof fn new_keys_come_last(s: Seq<(Seq<u8>, u64)>, key: Seq<u8>)
    requires
        forall|j: int| 0 <= j < s.len() ==> (#[trigger] s[j]).0 != key,
    ensures
        bumped(s, key) == s.push((key, 1)),
{
    lemma_position_is(s, key, s.len() as int);
}

} // verus!
