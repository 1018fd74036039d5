//! Ranking by a whole number, earlier entries first among equals.

use vstd::prelude::*;

verus! {

/// Whether entry `a` ranks before entry `b`: by its key, and by its position
/// among equal keys.
pub open spec fn before(keys: Seq<i128>, a: int, b: int) -> bool {
    keys[a] < keys[b] || (keys[a] == keys[b] && a < b)
}

/// Whether positions are in rank order.
pub open spec fn in_order(keys: Seq<i128>, order: Seq<usize>) -> bool {
    forall|i: int, j: int|
        0 <= i < j < order.len() ==> before(
            keys,
            #[trigger] order[i] as int,
            #[trigger] order[j] as int,
        )
}

/// Whether every position below `n` occurs, and nothing else.
pub open spec fn covers(order: Seq<usize>, n: nat) -> bool {
    &&& order.len() == n
    &&& forall|i: int| 0 <= i < order.len() ==> #[trigger] order[i] < n
    &&& forall|i: int, j: int|
        0 <= i < j < order.len() ==> #[trigger] order[i] != #[trigger] order[j]
}

/// The positions of the keys, from the smallest key to the greatest.
pub fn stable_order(keys: &Vec<i128>) -> (r: Vec<usize>)
    ensures
        covers(r@, keys@.len()),
        in_order(keys@, r@),
{
    let mut out: Vec<usize> = Vec::new();
    let mut i: usize = 0;
    while i < keys.len()
        invariant
            i <= keys@.len(),
            covers(out@, i as nat),
            in_order(keys@, out@),
        decreases keys@.len() - i,
    {
        let mut p: usize = out.len();
        while p > 0 && keys[out[p - 1]] > keys[i]
            invariant
                i < keys@.len(),
                p <= out@.len(),
                covers(out@, i as nat),
                in_order(keys@, out@),
                forall|j: int| p <= j < out@.len() ==> keys@[#[trigger] out@[j] as int] > keys@[i as int],
            decreases p,
        {
            p = p - 1;
        }
        let ghost old_out = out@;
        proof {
            assert forall|j: int| 0 <= j < p implies before(
                keys@,
                #[trigger] old_out[j] as int,
                i as int,
            ) by {
                if j < p - 1 {
                    assert(before(keys@, old_out[j] as int, old_out[p - 1] as int));
                }
            }
        }
        out.insert(p, i);
        proof {
            let o = out@;
            assert forall|a: int, b: int| 0 <= a < b < o.len() implies before(
                keys@,
                #[trigger] o[a] as int,
                #[trigger] o[b] as int,
            ) && o[a] != o[b] by {
                let a0 = if a < p {
                    a
                } else {
                    a - 1
                };
                let b0 = if b < p {
                    b
                } else {
                    b - 1
                };
                if a != p && b != p {
                    assert(o[a] == old_out[a0] && o[b] == old_out[b0]);
                    assert(before(keys@, old_out[a0] as int, old_out[b0] as int));
                } else if a == p {
                    assert(o[b] == old_out[b0]);
                } else {
                    assert(o[a] == old_out[a0]);
                }
            }
            assert forall|a: int| 0 <= a < o.len() implies #[trigger] o[a] < i + 1 by {
                if a < p {
                    assert(o[a] == old_out[a]);
                } else if a > p {
                    assert(o[a] == old_out[a - 1]);
                }
            }
        }
        i = i + 1;
    }
    out
}

/// There is only one such order: two lists of all positions in rank order are
/// the same.
pub proof fn order_is_unique(keys: Seq<i128>, a: Seq<usize>, b: Seq<usize>, n: nat)
    requires
        n == keys.len(),
        covers(a, n),
        covers(b, n),
        in_order(keys, a),
        in_order(keys, b),
    ensures
        a == b,
{
    assert forall|i: int| 0 <= i < n implies a[i] == b[i] by {
        lemma_same_prefix(keys, a, b, n, i);
    }
    assert(a =~= b);
}

proof fn lemma_same_prefix(keys: Seq<i128>, a: Seq<usize>, b: Seq<usize>, n: nat, i: int)
    requires
        n == keys.len(),
        covers(a, n),
        covers(b, n),
        in_order(keys, a),
        in_order(keys, b),
        0 <= i < n,
    ensures
        a[i] == b[i],
    decreases i,
{
    assert forall|k: int| 0 <= k < i implies a[k] == b[k] by {
        lemma_same_prefix(keys, a, b, n, k);
    }
    lemma_position_of(a, n, b[i]);
    lemma_position_of(b, n, a[i]);
    let p = choose|p: int| 0 <= p < n && #[trigger] a[p] == b[i];
    let q = choose|q: int| 0 <= q < n && #[trigger] b[q] == a[i];
    if p < i {
        assert(b[p] == b[i]);
    }
    if q < i {
        assert(a[q] == a[i]);
    }
    if p > i && q > i {
        assert(before(keys, a[i] as int, a[p] as int));
        assert(before(keys, b[i] as int, b[q] as int));
    }
}

/// A list of all positions holds each of them.
proof fn lemma_position_of(a: Seq<usize>, n: nat, x: usize)
    requires
        covers(a, n),
        x < n,
    ensures
        exists|p: int| 0 <= p < n && #[trigger] a[p] == x,
{
    let ints = Seq::new(n, |i: int| a[i] as int);
    let full = vstd::set_lib::set_int_range(0, n as int);
    vstd::set_lib::lemma_int_range(0, n as int);
    assert(ints.no_duplicates()) by {
        assert forall|i: int, j: int|
            0 <= i < ints.len() && 0 <= j < ints.len() && i != j implies ints[i] != ints[j] by {
            if i < j {
                assert(a[i] != a[j]);
            } else {
                assert(a[j] != a[i]);
            }
        }
    }
    ints.unique_seq_to_set();
    assert(ints.to_set().subset_of(full)) by {
        assert forall|v: int| ints.to_set().contains(v) implies full.contains(v) by {
            let i = choose|i: int| 0 <= i < ints.len() && ints[i] == v;
            assert(a[i] < n);
        }
    }
    vstd::set_lib::lemma_subset_equality(ints.to_set(), full);
    assert(full.contains(x as int));
    assert(ints.contains(x as int));
    let p = choose|p: int| 0 <= p < ints.len() && ints[p] == x as int;
    assert(a[p] == x);
}

} // verus!
