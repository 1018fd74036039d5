//! A set of addresses, spread over buckets by their trailing bytes.

use std::collections::HashMap;

use vstd::prelude::*;

use crate::bytes::{be_number, be_value, bytes_eq, copy_all};

verus! {

broadcast use vstd::std_specs::hash::group_hash_axioms;

/// The bucket of an address: the number in its last eight bytes.
pub open spec fn bucket_of(a: Seq<u8>) -> nat {
    be_value(
        if a.len() > 8 {
            a.skip(a.len() - 8)
        } else {
            a
        },
    )
}

fn bucket(a: &[u8]) -> (r: u64)
    ensures
        r == bucket_of(a@),
{
    let n: usize = a.len();
    let from: usize = if n > 8 { n - 8 } else { 0 };
    let v: u128 = be_number(a, from, n - from);
    proof {
        assert(a@.subrange(from as int, n as int) =~= if n > 8 {
            a@.skip(n - 8)
        } else {
            a@
        });
        crate::bytes::eight_bytes_fit((n - from) as nat);
    }
    v as u64
}

/// A set of byte strings.
pub struct AddressSet {
    buckets: HashMap<u64, Vec<Vec<u8>>>,
    count: usize,
    contents: Ghost<Set<Seq<u8>>>,
}

impl View for AddressSet {
    type V = Set<Seq<u8>>;

    closed spec fn view(&self) -> Set<Seq<u8>> {
        self.contents@
    }
}

/// Whether `a` stands in its bucket.
spec fn in_bucket(m: Map<u64, Vec<Vec<u8>>>, a: Seq<u8>) -> bool {
    let k = bucket_of(a) as u64;
    m.contains_key(k) && holds(m[k]@, a)
}

/// Whether one of the byte strings is `a`.
spec fn holds(v: Seq<Vec<u8>>, a: Seq<u8>) -> bool {
    exists|j: int| 0 <= j < v.len() && (#[trigger] v[j])@ == a
}

fn search(v: &Vec<Vec<u8>>, a: &[u8]) -> (r: bool)
    ensures
        r == holds(v@, a@),
{
    let mut i: usize = 0;
    while i < v.len()
        invariant
            i <= v@.len(),
            forall|j: int| 0 <= j < i ==> (#[trigger] v@[j])@ != a@,
        decreases v@.len() - i,
    {
        if bytes_eq(v[i].as_slice(), a) {
            assert(v@[i as int]@ == a@);
            return true;
        }
        i = i + 1;
    }
    false
}

impl AddressSet {
    /// The buckets hold the contents, each in its own, and the count is their
    /// number.
    pub closed spec fn wf(&self) -> bool {
        &&& self@.finite()
        &&& self@.len() == self.count
        &&& forall|a: Seq<u8>| #[trigger] self@.contains(a) <==> in_bucket(self.buckets@, a)
        &&& forall|a: Seq<u8>| #[trigger] bucket_of(a) <= u64::MAX
    }

    /// The empty set.
    pub fn new() -> (r: AddressSet)
        ensures
            r.wf(),
            r@ == Set::<Seq<u8>>::empty(),
    {
        proof {
            assert forall|a: Seq<u8>| #[trigger] bucket_of(a) <= u64::MAX by {
                let s = if a.len() > 8 {
                    a.skip(a.len() - 8)
                } else {
                    a
                };
                crate::bytes::be_value_is_bounded(s);
                crate::bytes::eight_bytes_fit(s.len());
            }
        }
        AddressSet { buckets: HashMap::new(), count: 0, contents: Ghost(Set::empty()) }
    }

    /// How many addresses the set holds.
    pub fn len(&self) -> (r: usize)
        requires
            self.wf(),
        ensures
            r == self@.len(),
    {
        self.count
    }

    /// Whether the set holds an address.
    pub fn contains(&self, a: &[u8]) -> (r: bool)
        requires
            self.wf(),
        ensures
            r == self@.contains(a@),
    {
        let k: u64 = bucket(a);
        match self.buckets.get(&k) {
            Some(v) => search(v, a),
            None => false,
        }
    }

    /// Adds an address. Returns whether it is new.
    pub fn insert(&mut self, a: &[u8]) -> (r: bool)
        requires
            old(self).wf(),
            old(self)@.len() < usize::MAX,
        ensures
            final(self).wf(),
            final(self)@ == old(self)@.insert(a@),
            r == !old(self)@.contains(a@),
            final(self)@.len() == old(self)@.len() + (if r {
                1int
            } else {
                0
            }),
    {
        let k: u64 = bucket(a);
        let ghost m0 = self.buckets@;
        let ghost s0 = self@;
        let mut v: Vec<Vec<u8>> = match self.buckets.remove(&k) {
            Some(v) => v,
            None => Vec::new(),
        };
        let ghost v0 = v@;
        let found = search(&v, a);
        assert(found == s0.contains(a@));
        if !found {
            v.push(copy_all(a));
            self.count = self.count + 1;
        }
        let ghost v1 = v@;
        self.buckets.insert(k, v);
        self.contents = Ghost(s0.insert(a@));
        proof {
            assert forall|b: Seq<u8>| #[trigger] self@.contains(b) <==> in_bucket(
                self.buckets@,
                b,
            ) by {
                assert(s0.contains(b) <==> in_bucket(m0, b));
                let kb = bucket_of(b) as u64;
                if kb == k {
                    if holds(v0, b) {
                        let j = choose|j: int| 0 <= j < v0.len() && (#[trigger] v0[j])@ == b;
                        assert(v1[j]@ == b);
                    }
                    if b == a@ && !found {
                        assert(v1[v1.len() - 1]@ == b);
                    }
                    if holds(v1, b) {
                        let j = choose|j: int| 0 <= j < v1.len() && (#[trigger] v1[j])@ == b;
                        if j < v0.len() {
                            assert(v0[j]@ == b);
                        }
                    }
                }
            }
            if found {
                assert(s0.insert(a@) =~= s0);
            }
        }
        !found
    }
}

} // verus!
