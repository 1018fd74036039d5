//! A small table keyed by strings, in the order in which the keys first came, or
//! filed by key.

use vstd::prelude::*;
use vstd::string::*;

use crate::text::str_eq;

verus! {

/// A table from strings to values.
pub struct Table<V> {
    pub entries: Vec<(String, V)>,
}

impl<V> View for Table<V> {
    type V = Seq<(Seq<char>, V)>;

    open spec fn view(&self) -> Seq<(Seq<char>, V)> {
        self.entries@.map_values(|e: (String, V)| (e.0@, e.1))
    }
}

/// The position of a key, or the number of entries.
pub open spec fn position<V>(s: Seq<(Seq<char>, V)>, key: Seq<char>) -> nat
    decreases s.len(),
{
    if s.len() == 0 || s[0].0 == key {
        0
    } else {
        1 + position(s.skip(1), key)
    }
}

/// What the table holds for a key.
pub open spec fn lookup<V>(s: Seq<(Seq<char>, V)>, key: Seq<char>) -> Option<V> {
    let i = position(s, key) as int;
    if i < s.len() {
        Some(s[i].1)
    } else {
        None
    }
}

/// The table with a key set to a value; a new key comes last.
pub open spec fn with_entry<V>(s: Seq<(Seq<char>, V)>, key: Seq<char>, v: V) -> Seq<(Seq<char>, V)> {
    let i = position(s, key) as int;
    if i < s.len() {
        s.update(i, (key, v))
    } else {
        s.push((key, v))
    }
}

/// The table without a key.
pub open spec fn without<V>(s: Seq<(Seq<char>, V)>, key: Seq<char>) -> Seq<(Seq<char>, V)> {
    let i = position(s, key) as int;
    if i < s.len() {
        s.remove(i)
    } else {
        s
    }
}

/// Whether no key stands twice.
pub open spec fn distinct<V>(s: Seq<(Seq<char>, V)>) -> bool {
    forall|i: int, j: int| 0 <= i < j < s.len() ==> (#[trigger] s[i]).0 != (#[trigger] s[j]).0
}

proof fn lemma_position<V>(s: Seq<(Seq<char>, V)>, key: Seq<char>)
    ensures
        position(s, key) <= s.len(),
        position(s, key) < s.len() ==> s[position(s, key) as int].0 == key,
        forall|j: int| 0 <= j < position(s, key) ==> (#[trigger] s[j]).0 != key,
    decreases s.len(),
{
    if s.len() > 0 && s[0].0 != key {
        lemma_position(s.skip(1), key);
        assert forall|j: int| 0 <= j < position(s, key) implies (#[trigger] s[j]).0 != key by {
            if j > 0 {
                assert(s.skip(1)[j - 1] == s[j]);
            }
        }
    }
}

proof fn lemma_position_is<V>(s: Seq<(Seq<char>, V)>, key: Seq<char>, i: int)
    requires
        0 <= i <= s.len(),
        i < s.len() ==> s[i].0 == key,
        forall|j: int| 0 <= j < i ==> (#[trigger] s[j]).0 != key,
    ensures
        position(s, key) == i,
    decreases s.len(),
{
    lemma_position(s, key);
    let p = position(s, key) as int;
    if p < i {
        assert(s[p].0 != key);
    } else if p > i {
        assert(s[i].0 != key);
    }
}

/// What is written is what is read: a key set to a value is found with it, and
/// every other key reads as before.
pub proof fn setting_then_looking_up<V>(
    s: Seq<(Seq<char>, V)>,
    key: Seq<char>,
    v: V,
    other: Seq<char>,
)
    ensures
        lookup(with_entry(s, key, v), key) == Some(v),
        other != key ==> lookup(with_entry(s, key, v), other) == lookup(s, other),
        distinct(s) ==> distinct(with_entry(s, key, v)),
{
    let t = with_entry(s, key, v);
    lemma_position(s, key);
    let i = position(s, key) as int;
    assert(t[i] == (key, v));
    assert forall|j: int| 0 <= j < i implies (#[trigger] t[j]).0 != key by {
        assert(t[j] == s[j]);
    }
    lemma_position_is(t, key, i);
    if other != key {
        lemma_position(s, other);
        let k = position(s, other) as int;
        assert forall|j: int| 0 <= j < k implies (#[trigger] t[j]).0 != other by {
            if j != i {
                assert(t[j] == s[j]);
            }
        }
        if k < s.len() {
            assert(t[k] == s[k]);
            lemma_position_is(t, other, k);
        } else {
            assert forall|j: int| 0 <= j < t.len() implies (#[trigger] t[j]).0 != other by {
                if j != i && j < s.len() {
                    assert(t[j] == s[j]);
                }
            }
            lemma_position_is(t, other, t.len() as int);
        }
    }
    if distinct(s) {
        assert forall|a: int, b: int| 0 <= a < b < t.len() implies (#[trigger] t[a]).0 != (
        #[trigger] t[b]).0 by {
            if b < s.len() {
                assert(t[a].0 == s[a].0 && t[b].0 == s[b].0);
            } else {
                assert(t[a] == s[a]);
                assert(s[a].0 != key);
            }
        }
    }
}

/// What is removed is gone: the key is not found any more, and every other key
/// reads as before.
pub proof fn removing_then_looking_up<V>(
    s: Seq<(Seq<char>, V)>,
    key: Seq<char>,
    other: Seq<char>,
)
    requires
        distinct(s),
    ensures
        lookup(without(s, key), key) is None,
        other != key ==> lookup(without(s, key), other) == lookup(s, other),
        distinct(without(s, key)),
{
    let t = without(s, key);
    lemma_position(s, key);
    let i = position(s, key) as int;
    assert forall|j: int| 0 <= j < t.len() implies (#[trigger] t[j]).0 != key by {
        if i < s.len() {
            if j < i {
                assert(t[j] == s[j]);
            } else {
                assert(t[j] == s[j + 1]);
                assert(s[i].0 != s[j + 1].0);
            }
        }
    }
    lemma_position_is(t, key, t.len() as int);
    if other != key {
        lemma_position(s, other);
        let k = position(s, other) as int;
        if i < s.len() {
            let k2 = if k > i {
                k - 1
            } else {
                k
            };
            assert forall|j: int| 0 <= j < k2 implies (#[trigger] t[j]).0 != other by {
                if j < i {
                    assert(t[j] == s[j]);
                } else {
                    assert(t[j] == s[j + 1]);
                }
            }
            if k < s.len() {
                if k > i {
                    assert(t[k2] == s[k]);
                } else {
                    assert(t[k2] == s[k]);
                }
            }
            lemma_position_is(t, other, k2);
        }
    }
    assert forall|a: int, b: int| 0 <= a < b < t.len() implies (#[trigger] t[a]).0 != (#[trigger] t[b]).0 by {
        if i < s.len() {
            let a2 = if a < i { a } else { a + 1 };
            let b2 = if b < i { b } else { b + 1 };
            assert(t[a] == s[a2] && t[b] == s[b2]);
        }
    }
}

// ---------------------------------------------------------------------------
// Filing by key
// ---------------------------------------------------------------------------

/// Whether `a` comes before `b`, character by character.
pub open spec fn alphabetical(a: Seq<char>, b: Seq<char>) -> bool
    decreases a.len(),
{
    if b.len() == 0 {
        false
    } else if a.len() == 0 {
        true
    } else if a[0] != b[0] {
        (a[0] as int) < (b[0] as int)
    } else {
        alphabetical(a.skip(1), b.skip(1))
    }
}

/// Of two texts exactly one comes before the other, unless they are the same.
pub proof fn texts_are_ordered(a: Seq<char>, b: Seq<char>)
    ensures
        !alphabetical(a, a),
        !(alphabetical(a, b) && alphabetical(b, a)),
        a == b || alphabetical(a, b) || alphabetical(b, a),
    decreases a.len(),
{
    if a.len() > 0 {
        texts_are_ordered(a.skip(1), b.skip(1));
        if b.len() > 0 && a[0] == b[0] && a.skip(1) == b.skip(1) {
            assert(a =~= seq![a[0]] + a.skip(1));
            assert(b =~= seq![b[0]] + b.skip(1));
        }
    } else if b.len() == 0 {
        assert(a =~= b);
    }
}

proof fn lemma_alphabetical_chains(a: Seq<char>, b: Seq<char>, c: Seq<char>)
    requires
        alphabetical(a, b),
        alphabetical(b, c),
    ensures
        alphabetical(a, c),
    decreases a.len(),
{
    if a.len() > 0 && a[0] == b[0] && b[0] == c[0] {
        lemma_alphabetical_chains(a.skip(1), b.skip(1), c.skip(1));
    }
}

fn comes_before(a: &str, b: &str) -> (r: bool)
    ensures
        r == alphabetical(a@, b@),
{
    let n: usize = a.unicode_len();
    let m: usize = b.unicode_len();
    let mut i: usize = 0;
    assert(a@.skip(0) =~= a@);
    assert(b@.skip(0) =~= b@);
    while i < n && i < m
        invariant
            i <= n,
            i <= m,
            n == a@.len(),
            m == b@.len(),
            alphabetical(a@, b@) == alphabetical(a@.skip(i as int), b@.skip(i as int)),
        decreases n - i,
    {
        let x = a.get_char(i);
        let y = b.get_char(i);
        if x != y {
            return (x as u32) < (y as u32);
        }
        assert(a@.skip(i as int).skip(1) =~= a@.skip(i + 1));
        assert(b@.skip(i as int).skip(1) =~= b@.skip(i + 1));
        i = i + 1;
    }
    i < m
}

/// The entries with a key set to a value; a new key is put before the first
/// greater one.
pub open spec fn filed<V>(s: Seq<(Seq<char>, V)>, key: Seq<char>, v: V) -> Seq<(Seq<char>, V)>
    decreases s.len(),
{
    if s.len() == 0 {
        seq![(key, v)]
    } else if s[0].0 == key {
        s.update(0, (key, v))
    } else if alphabetical(key, s[0].0) {
        seq![(key, v)] + s
    } else {
        seq![s[0]] + filed(s.skip(1), key, v)
    }
}

/// Whether the keys ascend.
pub open spec fn sorted<V>(s: Seq<(Seq<char>, V)>) -> bool {
    forall|i: int, j: int|
        0 <= i < j < s.len() ==> alphabetical((#[trigger] s[i]).0, (#[trigger] s[j]).0)
}

/// Ascending keys are distinct.
pub proof fn sorted_keys_are_distinct<V>(s: Seq<(Seq<char>, V)>)
    requires
        sorted(s),
    ensures
        distinct(s),
{
    assert forall|i: int, j: int| 0 <= i < j < s.len() implies (#[trigger] s[i]).0 != (
    #[trigger] s[j]).0 by {
        texts_are_ordered(s[i].0, s[j].0);
    }
}

/// Filing keeps the keys ascending: a key filed with a value is found with it,
/// and every other key reads as before.
pub proof fn filing_then_looking_up<V>(
    s: Seq<(Seq<char>, V)>,
    key: Seq<char>,
    v: V,
    other: Seq<char>,
)
    requires
        sorted(s),
    ensures
        sorted(filed(s, key, v)),
        lookup(filed(s, key, v), key) == Some(v),
        other != key ==> lookup(filed(s, key, v), other) == lookup(s, other),
        forall|i: int|
            0 <= i < filed(s, key, v).len() ==> (#[trigger] filed(s, key, v)[i]).0 == key || exists|
                j: int,
            |
                0 <= j < s.len() && (#[trigger] s[j]).0 == filed(s, key, v)[i].0,
    decreases s.len(),
{
    let t = filed(s, key, v);
    if s.len() == 0 {
        assert(t[0] == (key, v));
        assert(t.skip(1).len() == 0);
    } else if s[0].0 == key {
        assert(t.skip(1) =~= s.skip(1));
        assert forall|i: int, j: int| 0 <= i < j < t.len() implies alphabetical(
            (#[trigger] t[i]).0,
            (#[trigger] t[j]).0,
        ) by {
            assert(t[i].0 == s[i].0 && t[j].0 == s[j].0);
        }
        assert forall|i: int| 0 <= i < t.len() implies (#[trigger] t[i]).0 == key || exists|j: int|
            0 <= j < s.len() && (#[trigger] s[j]).0 == t[i].0 by {
            assert(s[i].0 == t[i].0);
        }
    } else if alphabetical(key, s[0].0) {
        assert(t.skip(1) =~= s);
        assert forall|i: int, j: int| 0 <= i < j < t.len() implies alphabetical(
            (#[trigger] t[i]).0,
            (#[trigger] t[j]).0,
        ) by {
            assert(t[j] == s[j - 1]);
            if i > 0 {
                assert(t[i] == s[i - 1]);
            } else if j > 1 {
                lemma_alphabetical_chains(key, s[0].0, s[j - 1].0);
            }
        }
        assert forall|i: int| 0 <= i < t.len() implies (#[trigger] t[i]).0 == key || exists|j: int|
            0 <= j < s.len() && (#[trigger] s[j]).0 == t[i].0 by {
            if i > 0 {
                assert(s[i - 1].0 == t[i].0);
            }
        }
        assert(position(t, key) == 0);
        assert(other != key ==> position(t, other) == 1 + position(s, other));
    } else {
        let rest = s.skip(1);
        assert(sorted(rest)) by {
            assert forall|i: int, j: int| 0 <= i < j < rest.len() implies alphabetical(
                (#[trigger] rest[i]).0,
                (#[trigger] rest[j]).0,
            ) by {
                assert(rest[i] == s[i + 1] && rest[j] == s[j + 1]);
            }
        }
        filing_then_looking_up(rest, key, v, other);
        let u = filed(rest, key, v);
        assert(t.skip(1) =~= u);
        texts_are_ordered(key, s[0].0);
        assert forall|i: int| 0 <= i < u.len() implies alphabetical(s[0].0, (#[trigger] u[i]).0) by {
            if u[i].0 != key {
                let j = choose|j: int| 0 <= j < rest.len() && (#[trigger] rest[j]).0 == u[i].0;
                assert(s[j + 1] == rest[j]);
            }
        }
        assert forall|i: int, j: int| 0 <= i < j < t.len() implies alphabetical(
            (#[trigger] t[i]).0,
            (#[trigger] t[j]).0,
        ) by {
            assert(t[j] == u[j - 1]);
            if i > 0 {
                assert(t[i] == u[i - 1]);
            }
        }
        assert forall|i: int| 0 <= i < t.len() implies (#[trigger] t[i]).0 == key || exists|j: int|
            0 <= j < s.len() && (#[trigger] s[j]).0 == t[i].0 by {
            if i == 0 {
                assert(s[0].0 == t[0].0);
            } else if u[i - 1].0 != key {
                let j = choose|j: int| 0 <= j < rest.len() && (#[trigger] rest[j]).0 == u[i - 1].0;
                assert(s[j + 1].0 == t[i].0);
            }
        }
        assert(position(t, key) == 1 + position(u, key));
        if other != key {
            lemma_position(rest, other);
            lemma_position(u, other);
            if s[0].0 != other {
                assert(position(t, other) == 1 + position(u, other));
                assert(position(s, other) == 1 + position(rest, other));
            }
        }
    }
}

impl<V> Table<V> {
    /// No key stands twice.
    pub open spec fn wf(&self) -> bool {
        distinct(self@)
    }

    /// The empty table.
    pub fn new() -> (r: Self)
        ensures
            r@ == Seq::<(Seq<char>, V)>::empty(),
            r.wf(),
    {
        let t = Table { entries: Vec::new() };
        assert(t@ =~= Seq::<(Seq<char>, V)>::empty());
        t
    }

    /// How many keys the table holds.
    pub fn len(&self) -> (r: usize)
        ensures
            r == self@.len(),
    {
        self.entries.len()
    }

    /// The position of a key, or the number of entries.
    pub fn find(&self, key: &str) -> (r: usize)
        ensures
            r == position(self@, key@),
            r <= self@.len(),
    {
        let ghost s = self@;
        let mut i: usize = 0;
        assert(s.skip(0) =~= s);
        while i < self.entries.len()
            invariant
                i <= self.entries@.len(),
                s == self@,
                position(s, key@) == i + position(s.skip(i as int), key@),
            decreases self.entries@.len() - i,
        {
            let ghost rest = s.skip(i as int);
            assert(rest[0] == (self.entries@[i as int].0@, self.entries@[i as int].1));
            if str_eq(self.entries[i].0.as_str(), key) {
                return i;
            }
            assert(rest.skip(1) =~= s.skip(i + 1));
            i = i + 1;
        }
        i
    }

    /// What the table holds for a key.
    pub fn get(&self, key: &str) -> (r: Option<&V>)
        ensures
            (match r {
                Some(v) => Some(*v),
                None => None,
            }) == lookup(self@, key@),
    {
        let i: usize = self.find(key);
        if i < self.entries.len() {
            Some(&self.entries[i].1)
        } else {
            None
        }
    }

    /// Sets a key to a value.
    pub fn set(&mut self, key: &str, v: V)
        ensures
            final(self)@ == with_entry(old(self)@, key@, v),
            old(self).wf() ==> final(self).wf(),
    {
        let ghost s = self@;
        let i: usize = self.find(key);
        proof {
            setting_then_looking_up(s, key@, v, key@);
        }
        if i < self.entries.len() {
            self.entries[i] = (key.to_owned(), v);
        } else {
            self.entries.push((key.to_owned(), v));
        }
        assert(self@ =~= with_entry(s, key@, v));
    }

    /// Sets a key to a value, keeping the keys ascending.
    pub fn file(&mut self, key: &str, v: V)
        requires
            sorted(old(self)@),
        ensures
            final(self)@ == filed(old(self)@, key@, v),
            sorted(final(self)@),
            final(self).wf(),
    {
        let ghost s = self@;
        let mut i: usize = 0;
        proof {
            filing_then_looking_up(s, key@, v, key@);
            sorted_keys_are_distinct(filed(s, key@, v));
        }
        assert(s.skip(0) =~= s);
        assert(s.take(0) + filed(s, key@, v) =~= filed(s, key@, v));
        while i < self.entries.len() && comes_before(self.entries[i].0.as_str(), key)
            invariant
                i <= self.entries@.len(),
                s == self@,
                s.take(i as int) + filed(s.skip(i as int), key@, v) == filed(s, key@, v),
            decreases self.entries@.len() - i,
        {
            let ghost rest = s.skip(i as int);
            assert(rest[0] == (self.entries@[i as int].0@, self.entries@[i as int].1));
            proof {
                texts_are_ordered(rest[0].0, key@);
            }
            assert(rest.skip(1) =~= s.skip(i + 1));
            assert(s.take(i as int) + (seq![rest[0]] + filed(rest.skip(1), key@, v)) =~= s.take(
                i + 1,
            ) + filed(s.skip(i + 1), key@, v));
            i = i + 1;
        }
        let ghost rest = s.skip(i as int);
        if i < self.entries.len() {
            assert(rest[0] == (self.entries@[i as int].0@, self.entries@[i as int].1));
            proof {
                texts_are_ordered(rest[0].0, key@);
            }
            if str_eq(self.entries[i].0.as_str(), key) {
                self.entries[i] = (key.to_owned(), v);
                assert(self@ =~= s.take(i as int) + rest.update(0, (key@, v)));
            } else {
                self.entries.insert(i, (key.to_owned(), v));
                assert(self@ =~= s.take(i as int) + (seq![(key@, v)] + rest));
            }
        } else {
            self.entries.push((key.to_owned(), v));
            assert(self@ =~= s.take(i as int) + seq![(key@, v)]);
        }
    }

    /// Removes a key. Returns whether it was there.
    pub fn remove(&mut self, key: &str) -> (r: bool)
        ensures
            final(self)@ == without(old(self)@, key@),
            r == (lookup(old(self)@, key@) is Some),
            old(self).wf() ==> final(self).wf(),
    {
        let ghost s = self@;
        let i: usize = self.find(key);
        proof {
            if self.wf() {
                removing_then_looking_up(s, key@, key@);
            }
        }
        if i < self.entries.len() {
            self.entries.remove(i);
            assert(self@ =~= without(s, key@));
            true
        } else {
            false
        }
    }
}

} // verus!
