//! Consistency audits over a stopped node's stores: whether the witnesses'
//! vote counts are the sums of the standing votes, and whether the resource
//! weights are the sums of the frozen balances.

use vstd::prelude::*;
use vstd::string::*;

use crate::bytes::{bytes_eq, copy_all};
use crate::order::{covers, in_order, stable_order};
use crate::text::{append_int, append_nat, decimal, hex_encode, hex_text, int_decimal};

verus! {

/// Sun in one token.
pub const TRX_PRECISION: i128 = 1_000_000;

/// The largest stakers that are listed.
pub const TOP_STAKERS: usize = 60;

/// Stakes above this many sun are listed.
pub const LISTED_STAKE: i64 = 1_000_000_000;

/// The mismatches that are listed.
pub const LISTED_MISMATCHES: usize = 50;

// ---------------------------------------------------------------------------
// Votes
// ---------------------------------------------------------------------------

/// One standing vote of an account.
#[derive(Debug, Clone)]
pub struct StandingVote {
    pub vote_address: Vec<u8>,
    pub vote_count: i64,
}

/// The standing votes that were added up, by witness.
pub struct VoteSums {
    entries: Vec<(Vec<u8>, i128)>,
    seen: u64,
}

impl View for VoteSums {
    type V = Seq<(Seq<u8>, int)>;

    closed spec fn view(&self) -> Seq<(Seq<u8>, int)> {
        Seq::new(self.entries@.len(), |i: int| (self.entries@[i].0@, self.entries@[i].1 as int))
    }
}

/// The position of a witness, or the number of them.
pub open spec fn place(s: Seq<(Seq<u8>, int)>, a: Seq<u8>) -> nat
    decreases s.len(),
{
    if s.len() == 0 || s[0].0 == a {
        0
    } else {
        1 + place(s.skip(1), a)
    }
}

/// The votes for a witness, zero for one without any.
pub open spec fn sum_for(s: Seq<(Seq<u8>, int)>, a: Seq<u8>) -> int {
    let i = place(s, a) as int;
    if i < s.len() {
        s[i].1
    } else {
        0
    }
}

/// The sums after one more vote.
pub open spec fn with_vote(s: Seq<(Seq<u8>, int)>, a: Seq<u8>, count: int) -> Seq<(Seq<u8>, int)> {
    let i = place(s, a) as int;
    if i < s.len() {
        s.update(i, (a, s[i].1 + count))
    } else {
        s.push((a, count))
    }
}

proof fn lemma_place(s: Seq<(Seq<u8>, int)>, a: Seq<u8>)
    ensures
        place(s, a) <= s.len(),
        place(s, a) < s.len() ==> s[place(s, a) as int].0 == a,
        forall|j: int| 0 <= j < place(s, a) ==> (#[trigger] s[j]).0 != a,
    decreases s.len(),
{
    if s.len() > 0 && s[0].0 != a {
        lemma_place(s.skip(1), a);
        assert forall|j: int| 0 <= j < place(s, a) implies (#[trigger] s[j]).0 != a by {
            if j > 0 {
                assert(s[j] == s.skip(1)[j - 1]);
            }
        }
    }
}

proof fn lemma_place_is(s: Seq<(Seq<u8>, int)>, a: Seq<u8>, p: int)
    requires
        0 <= p <= s.len(),
        p < s.len() ==> s[p].0 == a,
        forall|j: int| 0 <= j < p ==> (#[trigger] s[j]).0 != a,
    ensures
        place(s, a) == p,
{
    lemma_place(s, a);
    if place(s, a) < p {
        assert(s[place(s, a) as int].0 != a);
    }
    if p < place(s, a) {
        assert(s[p].0 != a);
    }
}

/// A vote counts for its witness and for nobody else.
pub proof fn votes_count_once(s: Seq<(Seq<u8>, int)>, a: Seq<u8>, count: int, other: Seq<u8>)
    ensures
        sum_for(with_vote(s, a, count), a) == sum_for(s, a) + count,
        other != a ==> sum_for(with_vote(s, a, count), other) == sum_for(s, other),
{
    let t = with_vote(s, a, count);
    lemma_place(s, a);
    lemma_place(s, other);
    lemma_place_is(t, a, place(s, a) as int);
    if other != a {
        let q = place(s, other) as int;
        if q < s.len() {
            assert forall|j: int| 0 <= j < q implies (#[trigger] t[j]).0 != other by {
                assert(s[j].0 != other);
            }
            lemma_place_is(t, other, q);
        } else {
            assert forall|j: int| 0 <= j < t.len() implies (#[trigger] t[j]).0 != other by {
                if j < s.len() {
                    assert(s[j].0 != other);
                }
            }
            lemma_place_is(t, other, t.len() as int);
        }
    }
}

/// The sums after the first `n` votes.
pub open spec fn all_votes(s: Seq<(Seq<u8>, int)>, votes: Seq<StandingVote>, n: nat) -> Seq<
    (Seq<u8>, int),
>
    decreases n,
{
    if n == 0 {
        s
    } else {
        with_vote(
            all_votes(s, votes, (n - 1) as nat),
            votes[n - 1].vote_address@,
            votes[n - 1].vote_count as int,
        )
    }
}

/// What the first `n` votes give a witness.
pub open spec fn given_to(votes: Seq<StandingVote>, n: nat, a: Seq<u8>) -> int
    decreases n,
{
    if n == 0 {
        0
    } else {
        given_to(votes, (n - 1) as nat, a) + if votes[n - 1].vote_address@ == a {
            votes[n - 1].vote_count as int
        } else {
            0
        }
    }
}

/// The sum of a witness is the sum of all standing votes for it.
pub proof fn sums_are_the_standing_votes(
    s: Seq<(Seq<u8>, int)>,
    votes: Seq<StandingVote>,
    n: nat,
    a: Seq<u8>,
)
    requires
        n <= votes.len(),
    ensures
        sum_for(all_votes(s, votes, n), a) == sum_for(s, a) + given_to(votes, n, a),
    decreases n,
{
    if n > 0 {
        sums_are_the_standing_votes(s, votes, (n - 1) as nat, a);
        votes_count_once(
            all_votes(s, votes, (n - 1) as nat),
            votes[n - 1].vote_address@,
            votes[n - 1].vote_count as int,
            a,
        );
    }
}

impl VoteSums {
    /// No sum can have left the machine's range.
    pub closed spec fn wf(&self) -> bool {
        forall|i: int|
            0 <= i < self.entries@.len() ==> -0x8000_0000_0000_0000 * self.seen <= (
            #[trigger] self.entries@[i]).1 <= 0x8000_0000_0000_0000 * self.seen
    }

    /// The votes added up so far.
    pub closed spec fn spec_seen(&self) -> u64 {
        self.seen
    }

    /// No votes.
    pub fn new() -> (r: VoteSums)
        ensures
            r.wf(),
            r@ == Seq::<(Seq<u8>, int)>::empty(),
            r.spec_seen() == 0,
    {
        let r = VoteSums { entries: Vec::new(), seen: 0 };
        assert(r@ =~= Seq::<(Seq<u8>, int)>::empty());
        r
    }

    /// How many witnesses were voted for.
    pub fn len(&self) -> (r: usize)
        ensures
            r == self@.len(),
    {
        self.entries.len()
    }

    fn find(&self, a: &[u8]) -> (r: usize)
        ensures
            r == place(self@, a@),
            r <= self.entries@.len(),
    {
        let mut i: usize = 0;
        while i < self.entries.len()
            invariant
                i <= self.entries@.len(),
                forall|j: int| 0 <= j < i ==> (#[trigger] self@[j]).0 != a@,
            decreases self.entries@.len() - i,
        {
            if bytes_eq(self.entries[i].0.as_slice(), a) {
                proof {
                    assert(self@[i as int].0 == a@);
                    lemma_place_is(self@, a@, i as int);
                }
                return i;
            }
            i = i + 1;
        }
        proof {
            lemma_place_is(self@, a@, i as int);
        }
        i
    }

    /// The votes for a witness.
    pub fn get(&self, a: &[u8]) -> (r: i128)
        ensures
            r == sum_for(self@, a@),
    {
        let i: usize = self.find(a);
        if i < self.entries.len() {
            self.entries[i].1
        } else {
            0
        }
    }

    /// Adds one vote.
    pub fn add_vote(&mut self, v: &StandingVote)
        requires
            old(self).wf(),
            old(self).spec_seen() < u64::MAX,
        ensures
            final(self).wf(),
            final(self)@ == with_vote(old(self)@, v.vote_address@, v.vote_count as int),
            final(self).spec_seen() == old(self).spec_seen() + 1,
    {
        let ghost s = self@;
        let ghost before = self.entries@;
        let a = v.vote_address.as_slice();
        let i: usize = self.find(a);
        if i < self.entries.len() {
            let had: i128 = self.entries[i].1;
            proof {
                lemma_place(s, a@);
                assert(-0x8000_0000_0000_0000 * self.seen <= before[i as int].1
                    <= 0x8000_0000_0000_0000 * self.seen);
                assert(self.entries@[i as int].1 == had);
            }
            let now: i128 = had + v.vote_count as i128;
            self.entries.set(i, (copy_all(a), now));
        } else {
            self.entries.push((copy_all(a), v.vote_count as i128));
        }
        self.seen = self.seen + 1;
        proof {
            assert(self@ =~= with_vote(s, a@, v.vote_count as int));
            assert forall|k: int| 0 <= k < self.entries@.len() implies -0x8000_0000_0000_0000
                * self.seen <= (#[trigger] self.entries@[k]).1 <= 0x8000_0000_0000_0000
                * self.seen by {
                if k < before.len() {
                    assert(before[k].1 <= 0x8000_0000_0000_0000 * (self.seen - 1));
                }
            }
        }
    }

    /// Adds the votes of one account.
    pub fn add_votes(&mut self, votes: &Vec<StandingVote>)
        requires
            old(self).wf(),
            old(self).spec_seen() + votes@.len() <= u64::MAX,
        ensures
            final(self).wf(),
            final(self)@ == all_votes(old(self)@, votes@, votes@.len()),
            final(self).spec_seen() == old(self).spec_seen() + votes@.len(),
    {
        let mut i: usize = 0;
        while i < votes.len()
            invariant
                i <= votes@.len(),
                self.wf(),
                old(self).spec_seen() + votes@.len() <= u64::MAX,
                self.spec_seen() == old(self).spec_seen() + i,
                self@ == all_votes(old(self)@, votes@, i as nat),
            decreases votes@.len() - i,
        {
            self.add_vote(&votes[i]);
            i = i + 1;
        }
    }
}

/// A witness's stored count.
#[derive(Debug, Clone)]
pub struct WitnessCount {
    pub address: Vec<u8>,
    pub vote_count: i64,
}

/// A witness whose stored count is not the sum of its votes.
#[derive(Debug, Clone)]
pub struct Mismatch {
    pub address: Vec<u8>,
    pub stored: i64,
    pub sum: i128,
}

/// The positions of the witnesses among the first `n` whose stored count is
/// not the sum.
pub open spec fn off_sum(w: Seq<WitnessCount>, s: Seq<(Seq<u8>, int)>, n: nat) -> Seq<int>
    decreases n,
{
    if n == 0 {
        Seq::empty()
    } else {
        let before = off_sum(w, s, (n - 1) as nat);
        if w[n - 1].vote_count as int != sum_for(s, w[n - 1].address@) {
            before.push(n - 1)
        } else {
            before
        }
    }
}

/// Whether a mismatch is that of a witness.
pub open spec fn mismatch_of(m: Mismatch, w: WitnessCount, s: Seq<(Seq<u8>, int)>) -> bool {
    m.address@ == w.address@ && m.stored == w.vote_count && m.sum == sum_for(s, w.address@)
}

/// How far off a mismatch is.
pub open spec fn distance(m: Mismatch) -> int {
    if m.stored >= m.sum {
        m.stored - m.sum
    } else {
        m.sum - m.stored
    }
}

/// The witnesses whose stored count is not the sum of their votes, in their
/// order.
pub fn mismatches(witnesses: &Vec<WitnessCount>, sums: &VoteSums) -> (r: Vec<Mismatch>)
    ensures
        ({
            let at = off_sum(witnesses@, sums@, witnesses@.len());
            &&& r@.len() == at.len()
            &&& forall|i: int|
                0 <= i < at.len() ==> mismatch_of(#[trigger] r@[i], witnesses@[at[i]], sums@)
        }),
{
    let mut out: Vec<Mismatch> = Vec::new();
    let mut i: usize = 0;
    while i < witnesses.len()
        invariant
            i <= witnesses@.len(),
            ({
                let at = off_sum(witnesses@, sums@, i as nat);
                &&& out@.len() == at.len()
                &&& forall|k: int|
                    0 <= k < at.len() ==> mismatch_of(#[trigger] out@[k], witnesses@[at[k]], sums@)
            }),
        decreases witnesses@.len() - i,
    {
        let w = &witnesses[i];
        let sum: i128 = sums.get(w.address.as_slice());
        if w.vote_count as i128 != sum {
            out.push(
                Mismatch { address: copy_all(w.address.as_slice()), stored: w.vote_count, sum },
            );
        }
        i = i + 1;
    }
    out
}

/// The keys by which mismatches are ranked: the farthest first.
pub open spec fn rank_keys(m: Seq<Mismatch>) -> Seq<i128> {
    Seq::new(m.len(), |i: int| (-distance(m[i])) as i128)
}

/// The positions of the mismatches, the farthest first, earlier ones first
/// among equals.
pub fn rank_mismatches(m: &Vec<Mismatch>) -> (r: Vec<usize>)
    requires
        forall|i: int| 0 <= i < m@.len() ==> distance(#[trigger] m@[i]) <= i128::MAX,
    ensures
        covers(r@, m@.len()),
        in_order(rank_keys(m@), r@),
{
    let mut keys: Vec<i128> = Vec::new();
    let mut i: usize = 0;
    while i < m.len()
        invariant
            i <= m@.len(),
            keys@ == rank_keys(m@).take(i as int),
            forall|k: int| 0 <= k < m@.len() ==> distance(#[trigger] m@[k]) <= i128::MAX,
        decreases m@.len() - i,
    {
        assert(distance(m@[i as int]) <= i128::MAX);
        let d: i128 = m[i].stored as i128 - m[i].sum;
        keys.push(if d < 0 { d } else { -d });
        assert(rank_keys(m@).take(i + 1) =~= rank_keys(m@).take(i as int).push(
            rank_keys(m@)[i as int],
        ));
        i = i + 1;
    }
    assert(rank_keys(m@).take(i as int) =~= rank_keys(m@));
    stable_order(&keys)
}

/// The line of one mismatch.
pub open spec fn mismatch_text(m: Mismatch) -> Seq<char> {
    "  "@ + hex_text(m.address@) + " stored="@ + int_decimal(m.stored as int) + " Σstanding="@
        + int_decimal(m.sum as int) + " diff="@ + int_decimal(m.stored - m.sum)
}

fn append_wide(out: &mut String, i: i128)
    ensures
        final(out)@ == old(out)@ + int_decimal(i as int),
{
    if i < 0 {
        out.push('-');
        append_nat(out, (-(i + 1)) as u128 + 1);
        assert(out@ =~= old(out)@ + int_decimal(i as int));
    } else {
        append_nat(out, i as u128);
    }
}

/// The line of one mismatch.
pub fn mismatch_line(m: &Mismatch) -> (r: String)
    requires
        distance(*m) <= i128::MAX,
    ensures
        r@ == mismatch_text(*m),
{
    let mut s = "  ".to_owned();
    let h = hex_encode(m.address.as_slice());
    s.append(h.as_str());
    s.append(" stored=");
    append_int(&mut s, m.stored);
    s.append(" Σstanding=");
    append_wide(&mut s, m.sum);
    s.append(" diff=");
    append_wide(&mut s, m.stored as i128 - m.sum);
    s
}

/// Whether an audit finds nothing, exactly when every stored count is the sum
/// of the votes.
pub proof fn silent_audit_means_agreement(w: Seq<WitnessCount>, s: Seq<(Seq<u8>, int)>, n: nat)
    requires
        n <= w.len(),
    ensures
        off_sum(w, s, n).len() == 0 <==> forall|i: int|
            0 <= i < n ==> (#[trigger] w[i]).vote_count as int == sum_for(s, w[i].address@),
    decreases n,
{
    if n > 0 {
        silent_audit_means_agreement(w, s, (n - 1) as nat);
        if off_sum(w, s, n).len() > 0 && off_sum(w, s, (n - 1) as nat).len() == 0 {
            assert(w[n - 1].vote_count as int != sum_for(s, w[n - 1].address@));
        }
    }
}

// ---------------------------------------------------------------------------
// Voters of one witness
// ---------------------------------------------------------------------------

/// One voter: its address and the votes that it gives.
#[derive(Debug, Clone)]
pub struct Voter {
    pub address: Vec<u8>,
    pub vote_count: i64,
}

/// Whether byte string `a` sorts before `b`.
pub open spec fn bytes_before(a: Seq<u8>, b: Seq<u8>) -> bool
    decreases a.len(),
{
    if a.len() == 0 {
        b.len() > 0
    } else if b.len() == 0 {
        false
    } else if a[0] != b[0] {
        a[0] < b[0]
    } else {
        bytes_before(a.skip(1), b.skip(1))
    }
}

/// Whether a voter may not stand before another: it sorts after it.
pub open spec fn voter_after(a: Voter, b: Voter) -> bool {
    bytes_before(b.address@, a.address@) || (a.address@ == b.address@ && a.vote_count
        > b.vote_count)
}

/// Whether voters are sorted by address, and by count for equal addresses.
pub open spec fn voters_sorted(v: Seq<Voter>) -> bool {
    forall|i: int| 0 <= i < v.len() - 1 ==> !voter_after(#[trigger] v[i], v[i + 1])
}

fn is_bytes_before(a: &Vec<u8>, b: &Vec<u8>) -> (r: bool)
    ensures
        r == bytes_before(a@, b@),
{
    let mut i: usize = 0;
    assert(a@.skip(0) =~= a@);
    assert(b@.skip(0) =~= b@);
    while i < a.len() && i < b.len()
        invariant
            i <= a@.len(),
            i <= b@.len(),
            bytes_before(a@, b@) == bytes_before(a@.skip(i as int), b@.skip(i as int)),
        decreases a@.len() - i,
    {
        if a[i] != b[i] {
            return a[i] < b[i];
        }
        assert(a@.skip(i as int).skip(1) =~= a@.skip(i + 1));
        assert(b@.skip(i as int).skip(1) =~= b@.skip(i + 1));
        i = i + 1;
    }
    a.len() < b.len()
}

proof fn lemma_before_is_total(a: Seq<u8>, b: Seq<u8>)
    ensures
        bytes_before(a, b) || bytes_before(b, a) || a == b,
        !(bytes_before(a, b) && bytes_before(b, a)),
        a == b ==> !bytes_before(a, b),
    decreases a.len(),
{
    if a.len() > 0 && b.len() > 0 && a[0] == b[0] {
        lemma_before_is_total(a.skip(1), b.skip(1));
        if a.skip(1) == b.skip(1) {
            assert(a =~= seq![a[0]] + a.skip(1));
            assert(b =~= seq![b[0]] + b.skip(1));
        }
    } else if a.len() == 0 && b.len() == 0 {
        assert(a =~= b);
    }
}

/// Puts a voter into a sorted list, which stays sorted.
pub fn add_voter(list: &mut Vec<Voter>, v: Voter)
    requires
        voters_sorted(old(list)@),
    ensures
        voters_sorted(final(list)@),
        exists|p: int|
            0 <= p <= old(list)@.len() && final(list)@ == #[trigger] old(list)@.insert(p, v),
{
    let ghost before = list@;
    let mut p: usize = list.len();
    while p > 0 && (is_bytes_before(&v.address, &list[p - 1].address) || (bytes_eq(
        list[p - 1].address.as_slice(),
        v.address.as_slice(),
    ) && list[p - 1].vote_count > v.vote_count))
        invariant
            p <= list@.len(),
            list@ == before,
            p < list@.len() ==> voter_after(list@[p as int], v),
        decreases p,
    {
        p = p - 1;
    }
    list.insert(p, v);
    proof {
        let now = list@;
        assert forall|i: int| 0 <= i < now.len() - 1 implies !voter_after(
            #[trigger] now[i],
            now[i + 1],
        ) by {
            if i + 1 < p {
                assert(now[i] == before[i] && now[i + 1] == before[i + 1]);
            } else if i > p {
                assert(now[i] == before[i - 1] && now[i + 1] == before[i]);
                assert(!voter_after(before[i - 1], before[i - 1 + 1]));
            } else if i == p {
                assert(now[i + 1] == before[p as int]);
                lemma_before_is_total(v.address@, before[p as int].address@);
            } else {
                assert(now[i] == before[p - 1]);
            }
        }
        assert(now == before.insert(p as int, v));
    }
}

/// Voters as plain values.
pub open spec fn voters_view(v: Seq<Voter>) -> Seq<(Seq<u8>, i64)> {
    v.map_values(|x: Voter| (x.address@, x.vote_count))
}

/// What the first `n` votes of an account give a witness, one entry for each.
pub open spec fn voters_among(
    account: Seq<u8>,
    votes: Seq<StandingVote>,
    witness: Seq<u8>,
    n: nat,
) -> Seq<(Seq<u8>, i64)>
    decreases n,
{
    if n == 0 {
        Seq::empty()
    } else {
        let before = voters_among(account, votes, witness, (n - 1) as nat);
        if votes[n - 1].vote_address@ == witness {
            before.push((account, votes[n - 1].vote_count))
        } else {
            before
        }
    }
}

/// Puts an account's votes for one witness into a sorted list of its voters: each
/// of them becomes one entry, and nothing else does.
pub fn add_voters(
    list: &mut Vec<Voter>,
    account: &Vec<u8>,
    votes: &Vec<StandingVote>,
    witness: &[u8],
)
    requires
        voters_sorted(old(list)@),
    ensures
        voters_sorted(final(list)@),
        voters_view(final(list)@).to_multiset() == voters_view(old(list)@).to_multiset().add(
            voters_among(account@, votes@, witness@, votes@.len()).to_multiset(),
        ),
{
    let ghost start = voters_view(list@).to_multiset();
    let mut i: usize = 0;
    proof {
        let none = voters_among(account@, votes@, witness@, 0);
        none.to_multiset_ensures();
        assert(start.add(none.to_multiset()) =~= start);
    }
    while i < votes.len()
        invariant
            i <= votes@.len(),
            voters_sorted(list@),
            voters_view(list@).to_multiset() == start.add(
                voters_among(account@, votes@, witness@, i as nat).to_multiset(),
            ),
        decreases votes@.len() - i,
    {
        if bytes_eq(votes[i].vote_address.as_slice(), witness) {
            let ghost before = list@;
            let v = Voter { address: copy_all(account.as_slice()), vote_count: votes[i].vote_count };
            let ghost plain = (account@, votes@[i as int].vote_count);
            add_voter(list, v);
            proof {
                let p = choose|p: int|
                    0 <= p <= before.len() && list@ == #[trigger] before.insert(p, v);
                assert(voters_view(list@) =~= voters_view(before).insert(p, plain));
                vstd::seq_lib::to_multiset_insert(voters_view(before), p, plain);
                let had = voters_among(account@, votes@, witness@, i as nat);
                had.to_multiset_ensures();
                assert(had.push(plain).to_multiset() =~= had.to_multiset().insert(plain));
                assert(start.add(had.to_multiset()).insert(plain) =~= start.add(
                    had.to_multiset().insert(plain),
                ));
            }
        }
        i = i + 1;
    }
}

// ---------------------------------------------------------------------------
// Resource weights
// ---------------------------------------------------------------------------

/// What an account has frozen of one resource, in sun: its own stakes of both
/// generations and what it delegated of both. Acquired stakes do not count.
#[derive(Debug, Clone, Copy, PartialEq, Eq, Structural)]
pub struct StakeBasis {
    pub own_v2: i64,
    pub own_v1: i64,
    pub delegated_v2: i64,
    pub delegated_v1: i64,
}

impl StakeBasis {
    /// The whole basis.
    pub open spec fn total(&self) -> int {
        self.own_v2 + self.own_v1 + self.delegated_v2 + self.delegated_v1
    }

    /// Whether the machine can add it up.
    pub open spec fn fits(&self) -> bool {
        let a = self.own_v2 + self.own_v1;
        let b = a + self.delegated_v2;
        &&& i64::MIN <= a <= i64::MAX
        &&& i64::MIN <= b <= i64::MAX
        &&& i64::MIN <= self.total() <= i64::MAX
    }

    /// The whole basis.
    pub fn sum(&self) -> (r: i64)
        requires
            self.fits(),
        ensures
            r == self.total(),
    {
        self.own_v2 + self.own_v1 + self.delegated_v2 + self.delegated_v1
    }
}

/// The frozen amount of one kind.
#[derive(Debug, Clone, Copy, PartialEq, Eq, Structural)]
pub struct FrozenV2 {
    pub kind: i32,
    pub amount: i64,
}

/// The frozen amounts of one kind among the first `n`.
pub open spec fn frozen_of(f: Seq<FrozenV2>, kind: i32, n: nat) -> int
    decreases n,
{
    if n == 0 {
        0
    } else {
        frozen_of(f, kind, (n - 1) as nat) + if f[n - 1].kind == kind {
            f[n - 1].amount as int
        } else {
            0
        }
    }
}

/// The frozen amounts of one kind.
pub fn frozen_amount(f: &Vec<FrozenV2>, kind: i32) -> (r: i64)
    requires
        forall|n: nat|
            n <= f@.len() ==> i64::MIN <= #[trigger] frozen_of(f@, kind, n) <= i64::MAX,
    ensures
        r == frozen_of(f@, kind, f@.len()),
{
    let mut t: i64 = 0;
    let mut i: usize = 0;
    while i < f.len()
        invariant
            i <= f@.len(),
            t == frozen_of(f@, kind, i as nat),
            forall|n: nat|
                n <= f@.len() ==> i64::MIN <= #[trigger] frozen_of(f@, kind, n) <= i64::MAX,
        decreases f@.len() - i,
    {
        assert(frozen_of(f@, kind, (i + 1) as nat) <= i64::MAX);
        if f[i].kind == kind {
            t = t + f[i].amount;
        }
        i = i + 1;
    }
    t
}

/// The weight of one resource, rebuilt from the accounts.
#[derive(Debug, Clone, Copy, PartialEq, Eq, Structural)]
pub struct Weight {
    /// The sum of each account's whole tokens.
    pub floored: i128,
    /// The sum in sun.
    pub sun: i128,
    /// The accounts with a stake.
    pub contributors: i64,
}

impl Weight {
    /// The sums are in the machine's range, and each account counts for less
    /// than one token in the difference.
    pub open spec fn wf(&self) -> bool {
        &&& 0 <= self.contributors
        &&& 0 <= self.sun <= 0x8000_0000_0000_0000 * self.contributors
        &&& 0 <= self.floored
        &&& self.floored * 1_000_000 <= self.sun
        &&& self.sun <= (self.floored + self.contributors) * 1_000_000
    }

    /// No account yet.
    pub fn new() -> (r: Weight)
        ensures
            r.wf(),
            r == (Weight { floored: 0, sun: 0, contributors: 0 }),
    {
        Weight { floored: 0, sun: 0, contributors: 0 }
    }

    /// Adds an account: one without a stake leaves everything as it is.
    pub fn add_account(&mut self, basis: i64)
        requires
            old(self).wf(),
            old(self).contributors < i64::MAX,
        ensures
            final(self).wf(),
            *final(self) == (if basis > 0 {
                Weight {
                    floored: (old(self).floored + basis as int / 1_000_000) as i128,
                    sun: (old(self).sun + basis) as i128,
                    contributors: (old(self).contributors + 1) as i64,
                }
            } else {
                *old(self)
            }),
    {
        if basis > 0 {
            let b: i128 = basis as i128;
            assert(self.floored <= self.sun);
            self.floored = self.floored + b / TRX_PRECISION;
            self.sun = self.sun + b;
            self.contributors = self.contributors + 1;
        }
    }
}

/// The sum of whole tokens falls short of the tokens of the sum by less than
/// one token per account.
pub proof fn flooring_loses_less_than_a_token_each(w: Weight)
    requires
        w.wf(),
    ensures
        w.floored <= w.sun as int / 1_000_000,
        w.sun as int / 1_000_000 <= w.floored + w.contributors,
{
}

/// Whether a stored weight agrees with the accounts: it is off by no more than
/// one token per account with a stake.
pub open spec fn consistent(stored: i64, rebuilt: i64, contributors: i64) -> bool {
    let noise = if contributors < 1 {
        1int
    } else {
        contributors as int
    };
    -noise <= stored - rebuilt <= noise
}

/// The verdict's line.
pub open spec fn verdict_text(
    label: Seq<char>,
    stored: i64,
    rebuilt: i64,
    contributors: i64,
) -> Seq<char> {
    "  "@ + label + ": stored="@ + int_decimal(stored as int) + " recon="@ + int_decimal(
        rebuilt as int,
    ) + " diff="@ + int_decimal(stored - rebuilt) + " (noise ±"@ + int_decimal(
        if contributors < 1 {
            1
        } else {
            contributors as int
        },
    ) + ")  "@ + if consistent(stored, rebuilt, contributors) {
        "CONSISTENT (matches account store)"@
    } else {
        "*** INCONSISTENT — counter disagrees with account store ***"@
    }
}

/// The verdict's line.
pub fn verdict_line(label: &str, stored: i64, rebuilt: i64, contributors: i64) -> (r: String)
    requires
        i64::MIN < stored - rebuilt <= i64::MAX,
    ensures
        r@ == verdict_text(label@, stored, rebuilt, contributors),
{
    let diff: i64 = stored - rebuilt;
    let noise: i64 = if contributors < 1 { 1 } else { contributors };
    let off: i64 = if diff < 0 { -diff } else { diff };
    let mut s = "  ".to_owned();
    s.append(label);
    s.append(": stored=");
    append_int(&mut s, stored);
    s.append(" recon=");
    append_int(&mut s, rebuilt);
    s.append(" diff=");
    append_int(&mut s, diff);
    s.append(" (noise ±");
    append_int(&mut s, noise);
    s.append(")  ");
    if off <= noise {
        s.append("CONSISTENT (matches account store)");
    } else {
        s.append("*** INCONSISTENT — counter disagrees with account store ***");
    }
    s
}

/// A line with one number for each resource.
pub open spec fn three_text(head: Seq<char>, net: int, energy: int, power: int) -> Seq<char> {
    head + "net="@ + int_decimal(net) + " energy="@ + int_decimal(energy) + " tron_power="@
        + int_decimal(power) + "\n"@
}

/// A line with one number for each resource.
fn three(head: &str, net: i64, energy: i64, power: i64) -> (r: String)
    ensures
        r@ == three_text(head@, net as int, energy as int, power as int),
{
    let mut s = head.to_owned();
    s.append("net=");
    append_int(&mut s, net);
    s.append(" energy=");
    append_int(&mut s, energy);
    s.append(" tron_power=");
    append_int(&mut s, power);
    s.append("\n");
    s
}

/// The line on the stored weights.
pub fn stored_line(net: i64, energy: i64, power: i64) -> (r: String)
    ensures
        r@ == three_text("stored weights: "@, net as int, energy as int, power as int),
{
    three("stored weights: ", net, energy, power)
}

impl Weight {
    /// The sum of whole tokens in a machine word; what does not fit is cut off.
    pub open spec fn spec_rebuilt(&self) -> i64 {
        self.floored as i64
    }

    /// The sum of whole tokens in a machine word.
    pub fn rebuilt(&self) -> (r: i64)
        ensures
            r == self.spec_rebuilt(),
    {
        #[verifier::truncate]
        (self.floored as i64)
    }

    /// The whole tokens of the sum in a machine word; what does not fit is cut off.
    pub open spec fn spec_bulk(&self) -> i64 {
        (self.sun as int / 1_000_000) as i64
    }

    /// The whole tokens of the sum in a machine word.
    pub fn bulk(&self) -> (r: i64)
        requires
            self.wf(),
        ensures
            r == self.spec_bulk(),
    {
        let whole: i128 = self.sun / TRX_PRECISION;
        #[verifier::truncate]
        (whole as i64)
    }
}

/// What the scan of the accounts came to: how many contribute to each weight, and
/// the weights rebuilt in two ways.
pub open spec fn scan_text(scanned: nat, net: Weight, energy: Weight, power: Weight) -> Seq<char> {
    "scanned "@ + decimal(scanned) + " accounts\n"@ + three_text(
        "contributing accounts: "@,
        net.contributors as int,
        energy.contributors as int,
        power.contributors as int,
    ) + three_text(
        "reconstructed (Σ floor(basis/1e6)): "@,
        net.spec_rebuilt() as int,
        energy.spec_rebuilt() as int,
        power.spec_rebuilt() as int,
    ) + three_text(
        "reconstructed (floor(Σ basis)/1e6): "@,
        net.spec_bulk() as int,
        energy.spec_bulk() as int,
        power.spec_bulk() as int,
    )
}

/// What the scan of the accounts came to.
pub fn scan_report(scanned: u64, net: &Weight, energy: &Weight, power: &Weight) -> (r: String)
    requires
        net.wf(),
        energy.wf(),
        power.wf(),
    ensures
        r@ == scan_text(scanned as nat, *net, *energy, *power),
{
    let first = three(
        "contributing accounts: ",
        net.contributors,
        energy.contributors,
        power.contributors,
    );
    let second = three(
        "reconstructed (Σ floor(basis/1e6)): ",
        net.rebuilt(),
        energy.rebuilt(),
        power.rebuilt(),
    );
    let third = three(
        "reconstructed (floor(Σ basis)/1e6): ",
        net.bulk(),
        energy.bulk(),
        power.bulk(),
    );
    let mut s = "scanned ".to_owned();
    append_nat(&mut s, scanned as u128);
    s.append(" accounts\n");
    s.append(first.as_str());
    s.append(second.as_str());
    s.append(third.as_str());
    s
}

// ---------------------------------------------------------------------------
// The largest stakers
// ---------------------------------------------------------------------------

/// Whether a basis is large enough to be listed.
pub fn is_listed(basis: i64) -> (r: bool)
    ensures
        r == (basis > 1_000_000_000),
{
    basis > LISTED_STAKE
}

/// The headline of a list of stakers.
pub open spec fn stakers_head_text(n: nat, resource: Seq<char>, unit: Seq<char>) -> Seq<char> {
    "--- TOP "@ + decimal(n) + " by "@ + resource + " basis (addr  "@ + unit
        + "_basis_sun  held_v2+v1  v1  deleg_v2  deleg_v1) ---"@
}

/// The headline of a list of stakers.
pub fn stakers_head(n: usize, resource: &str, unit: &str) -> (r: String)
    ensures
        r@ == stakers_head_text(n as nat, resource@, unit@),
{
    let mut s = "--- TOP ".to_owned();
    append_nat(&mut s, n as u128);
    s.append(" by ");
    s.append(resource);
    s.append(" basis (addr  ");
    s.append(unit);
    s.append("_basis_sun  held_v2+v1  v1  deleg_v2  deleg_v1) ---");
    s
}

/// The line of a staker: the whole basis, what the account holds itself of both
/// generations and of the first, and what it delegated of the second and of the
/// first.
pub open spec fn staker_text(label: Seq<char>, address: Seq<char>, b: StakeBasis) -> Seq<char> {
    label + " "@ + address + " "@ + int_decimal(b.total()) + " "@ + int_decimal(
        b.own_v2 + b.own_v1,
    ) + " "@ + int_decimal(b.own_v1 as int) + " "@ + int_decimal(b.delegated_v2 as int) + " "@
        + int_decimal(b.delegated_v1 as int)
}

/// The line of a staker.
pub fn staker_line(label: &str, address: &str, b: &StakeBasis) -> (r: String)
    requires
        b.fits(),
    ensures
        r@ == staker_text(label@, address@, *b),
{
    let mut s = "".to_owned();
    s.append(label);
    s.append(" ");
    s.append(address);
    s.append(" ");
    append_int(&mut s, b.sum());
    s.append(" ");
    append_int(&mut s, b.own_v2 + b.own_v1);
    s.append(" ");
    append_int(&mut s, b.own_v1);
    s.append(" ");
    append_int(&mut s, b.delegated_v2);
    s.append(" ");
    append_int(&mut s, b.delegated_v1);
    proof {
        reveal_strlit("");
    }
    assert(s@ =~= staker_text(label@, address@, *b));
    s
}

/// A staker: the basis and where the account stands in the scan.
#[derive(Debug, Clone, Copy, PartialEq, Eq, Structural)]
pub struct Staker {
    pub basis: i64,
    pub account: u64,
}

/// The ranking keys of stakers, the smallest basis first.
pub open spec fn basis_keys(s: Seq<Staker>) -> Seq<i128> {
    Seq::new(s.len(), |i: int| s[i].basis as i128)
}

/// Whether `r` is `s` from the smallest basis to the greatest, earlier ones
/// first among equals.
pub open spec fn rises_from(s: Seq<Staker>, r: Seq<Staker>) -> bool {
    exists|o: Seq<usize>|
        #[trigger] covers(o, s.len()) && in_order(basis_keys(s), o) && r.len() == s.len()
            && forall|i: int| 0 <= i < r.len() ==> r[i] == s[#[trigger] o[i] as int]
}

fn sort_rising(s: &Vec<Staker>) -> (r: Vec<Staker>)
    ensures
        rises_from(s@, r@),
{
    let mut keys: Vec<i128> = Vec::new();
    let mut i: usize = 0;
    while i < s.len()
        invariant
            i <= s@.len(),
            keys@ == basis_keys(s@).take(i as int),
        decreases s@.len() - i,
    {
        keys.push(s[i].basis as i128);
        assert(basis_keys(s@).take(i + 1) =~= basis_keys(s@).take(i as int).push(
            basis_keys(s@)[i as int],
        ));
        i = i + 1;
    }
    assert(basis_keys(s@).take(i as int) =~= basis_keys(s@));
    let o = stable_order(&keys);
    let mut out: Vec<Staker> = Vec::new();
    let mut k: usize = 0;
    while k < o.len()
        invariant
            k <= o@.len(),
            covers(o@, s@.len()),
            out@.len() == k,
            forall|j: int| 0 <= j < k ==> out@[j] == s@[#[trigger] o@[j] as int],
        decreases o@.len() - k,
    {
        out.push(s[o[k]]);
        k = k + 1;
    }
    out
}

/// Whether a list is that of the largest stakers after one more was seen: the
/// list grows until it is full, and is sorted from there on; a new one takes
/// the smallest one's place if it is greater.
pub open spec fn considered(top: Seq<Staker>, e: Staker, r: Seq<Staker>) -> bool {
    if top.len() + 1 < 60 {
        r == top.push(e)
    } else if top.len() < 60 {
        rises_from(top.push(e), r)
    } else if e.basis > top[0].basis {
        rises_from(top.update(0, e), r)
    } else {
        r == top
    }
}

/// Takes one more staker into the list of the largest.
pub fn consider(top: &mut Vec<Staker>, e: Staker)
    requires
        old(top)@.len() <= 60,
    ensures
        considered(old(top)@, e, final(top)@),
        final(top)@.len() <= 60,
{
    if top.len() < TOP_STAKERS {
        top.push(e);
        if top.len() == TOP_STAKERS {
            *top = sort_rising(top);
        }
    } else if e.basis > top[0].basis {
        top.set(0, e);
        *top = sort_rising(top);
    }
}

/// The keys by which the list is shown: the greatest basis first.
pub open spec fn shown_keys(s: Seq<Staker>) -> Seq<i128> {
    Seq::new(s.len(), |i: int| (-s[i].basis) as i128)
}

/// The positions of the stakers in the order in which they are shown: the
/// greatest basis first, earlier ones first among equals.
pub fn rank_stakers(top: &Vec<Staker>) -> (r: Vec<usize>)
    ensures
        covers(r@, top@.len()),
        in_order(shown_keys(top@), r@),
{
    let mut keys: Vec<i128> = Vec::new();
    let mut i: usize = 0;
    while i < top.len()
        invariant
            i <= top@.len(),
            keys@ == shown_keys(top@).take(i as int),
        decreases top@.len() - i,
    {
        keys.push(-(top[i].basis as i128));
        assert(shown_keys(top@).take(i + 1) =~= shown_keys(top@).take(i as int).push(
            shown_keys(top@)[i as int],
        ));
        i = i + 1;
    }
    assert(shown_keys(top@).take(i as int) =~= shown_keys(top@));
    stable_order(&keys)
}

/// Whether a full list is sorted.
pub open spec fn top_in_order(top: Seq<Staker>) -> bool {
    top.len() >= 60 ==> forall|i: int, j: int|
        0 <= i < j < top.len() ==> (#[trigger] top[i]).basis <= (#[trigger] top[j]).basis
}

proof fn lemma_rises(s: Seq<Staker>, r: Seq<Staker>)
    requires
        rises_from(s, r),
    ensures
        forall|i: int, j: int|
            0 <= i < j < r.len() ==> (#[trigger] r[i]).basis <= (#[trigger] r[j]).basis,
        forall|i: int| 0 <= i < r.len() ==> s.contains(#[trigger] r[i]),
{
    let o = choose|o: Seq<usize>|
        #[trigger] covers(o, s.len()) && in_order(basis_keys(s), o) && r.len() == s.len()
            && forall|i: int| 0 <= i < r.len() ==> r[i] == s[#[trigger] o[i] as int];
    assert forall|i: int, j: int| 0 <= i < j < r.len() implies (#[trigger] r[i]).basis <= (
    #[trigger] r[j]).basis by {
        assert(crate::order::before(basis_keys(s), o[i] as int, o[j] as int));
        assert(basis_keys(s)[o[i] as int] == r[i].basis);
        assert(basis_keys(s)[o[j] as int] == r[j].basis);
    }
    assert forall|i: int| 0 <= i < r.len() implies s.contains(#[trigger] r[i]) by {
        assert(r[i] == s[o[i] as int]);
        assert(o[i] < s.len());
    }
}

/// A full list keeps the largest: it stays sorted, and neither the newcomer
/// that is turned away nor the one that is pushed out is greater than any that
/// stays.
pub proof fn largest_stakers_stay(top: Seq<Staker>, e: Staker, r: Seq<Staker>)
    requires
        top.len() <= 60,
        top_in_order(top),
        considered(top, e, r),
    ensures
        top_in_order(r),
        top.len() == 60 && e.basis <= top[0].basis ==> forall|i: int|
            0 <= i < r.len() ==> e.basis <= (#[trigger] r[i]).basis,
        top.len() == 60 && e.basis > top[0].basis ==> forall|i: int|
            0 <= i < r.len() ==> top[0].basis <= (#[trigger] r[i]).basis,
{
    if top.len() == 60 {
        if e.basis > top[0].basis {
            let s = top.update(0, e);
            lemma_rises(s, r);
            assert forall|i: int| 0 <= i < r.len() implies top[0].basis <= (#[trigger] r[i]).basis by {
                assert(s.contains(r[i]));
                let j = choose|j: int| 0 <= j < s.len() && s[j] == r[i];
                if j > 0 {
                    assert(top[0].basis <= top[j].basis);
                }
            }
        } else {
            assert forall|i: int| 0 <= i < r.len() implies e.basis <= (#[trigger] r[i]).basis by {
                if i > 0 {
                    assert(top[0].basis <= top[i].basis);
                }
            }
        }
    } else if top.len() == 59 {
        lemma_rises(top.push(e), r);
    }
}

/// A witness without a vote has a sum of zero, and one with a single entry that
/// entry's.
pub proof fn sums_start_at_zero(a: Seq<u8>, count: int)
    ensures
        sum_for(Seq::empty(), a) == 0,
        sum_for(seq![(a, count)], a) == count,
{
    assert(place(seq![(a, count)], a) == 0);
}

/// What a witness was given grows by each vote for it, and by no other.
pub proof fn votes_go_to_their_witness(votes: Seq<StandingVote>, n: nat, a: Seq<u8>)
    requires
        n < votes.len(),
    ensures
        votes[n as int].vote_address@ == a ==> given_to(votes, (n + 1) as nat, a) == given_to(
            votes,
            n,
            a,
        ) + votes[n as int].vote_count,
        votes[n as int].vote_address@ != a ==> given_to(votes, (n + 1) as nat, a) == given_to(
            votes,
            n,
            a,
        ),
        given_to(votes, 0, a) == 0,
{
}

/// The witnesses told are those whose stored count differs from the sum of the
/// votes, each once and in their order.
pub proof fn differing_counts_are_told(
    w: Seq<WitnessCount>,
    s: Seq<(Seq<u8>, int)>,
    n: nat,
    i: int,
)
    requires
        n <= w.len(),
    ensures
        off_sum(w, s, n).contains(i) <==> 0 <= i < n && w[i].vote_count != sum_for(s, w[i].address@),
        forall|a: int, b: int|
            0 <= a < b < off_sum(w, s, n).len() ==> #[trigger] off_sum(w, s, n)[a]
                < #[trigger] off_sum(w, s, n)[b],
        forall|a: int| 0 <= a < off_sum(w, s, n).len() ==> #[trigger] off_sum(w, s, n)[a] < n,
    decreases n,
{
    if n > 0 {
        differing_counts_are_told(w, s, (n - 1) as nat, i);
        let before = off_sum(w, s, (n - 1) as nat);
        let after = off_sum(w, s, n);
        if after.len() > before.len() {
            assert(after == before.push(n - 1));
            if before.contains(i) {
                let a = choose|a: int| 0 <= a < before.len() && before[a] == i;
                assert(after[a] == i);
            }
            if i == n - 1 {
                assert(after[before.len() as int] == i);
            }
            if after.contains(i) && i != n - 1 {
                let a = choose|a: int| 0 <= a < after.len() && after[a] == i;
                assert(before[a] == i);
            }
        }
    }
}

/// The widest difference is ranked first, in either direction.
pub proof fn wide_differences_come_first(m: Seq<Mismatch>, i: int, j: int)
    requires
        0 <= i < m.len(),
        0 <= j < m.len(),
        distance(m[i]) <= i128::MAX,
        distance(m[j]) <= i128::MAX,
    ensures
        m[i].stored >= m[i].sum ==> distance(m[i]) == m[i].stored - m[i].sum,
        m[i].stored < m[i].sum ==> distance(m[i]) == m[i].sum - m[i].stored,
        distance(m[i]) > distance(m[j]) ==> rank_keys(m)[i] < rank_keys(m)[j],
{
}

/// Addresses are ordered by the first byte in which they differ; one that
/// merely breaks off comes first.
pub proof fn addresses_are_ordered_by_bytes(common: Seq<u8>, a: Seq<u8>, b: Seq<u8>)
    requires
        a.len() == 0 || b.len() == 0 || a[0] != b[0],
    ensures
        bytes_before(common + a, common + b) == (b.len() > 0 && (a.len() == 0 || a[0] < b[0])),
    decreases common.len(),
{
    if common.len() == 0 {
        assert(common + a =~= a);
        assert(common + b =~= b);
    } else {
        addresses_are_ordered_by_bytes(common.skip(1), a, b);
        assert((common + a).skip(1) =~= common.skip(1) + a);
        assert((common + b).skip(1) =~= common.skip(1) + b);
    }
}

/// An account is listed once for each of its votes for the witness, with that
/// vote's count.
pub proof fn voters_are_listed_by_vote(
    account: Seq<u8>,
    votes: Seq<StandingVote>,
    witness: Seq<u8>,
    n: nat,
)
    requires
        n < votes.len(),
    ensures
        ({
            let a = voters_among(account, votes, witness, n);
            let b = voters_among(account, votes, witness, (n + 1) as nat);
            &&& votes[n as int].vote_address@ == witness ==> b == a.push(
                (account, votes[n as int].vote_count),
            )
            &&& votes[n as int].vote_address@ != witness ==> b == a
        }),
        voters_among(account, votes, witness, 0).len() == 0,
{
}

/// Of two voters the one of the later address comes later, and of two votes of
/// one address the greater.
pub proof fn voters_are_ordered(a: Voter, b: Voter)
    ensures
        bytes_before(a.address@, b.address@) ==> !voter_after(a, b) && voter_after(b, a),
        a.address@ == b.address@ && a.vote_count > b.vote_count ==> voter_after(a, b)
            && !voter_after(b, a),
        a.address@ == b.address@ && a.vote_count == b.vote_count ==> !voter_after(a, b),
{
    lemma_before_is_total(a.address@, b.address@);
}

/// The basis of a stake is what is held and what is delegated, of both
/// generations; of the second, only the stakes of the kind asked for.
pub proof fn stakes_add_up(b: StakeBasis, f: Seq<FrozenV2>, kind: i32, n: nat)
    requires
        n < f.len(),
    ensures
        b.total() == b.own_v2 + b.own_v1 + b.delegated_v2 + b.delegated_v1,
        f[n as int].kind == kind ==> frozen_of(f, kind, (n + 1) as nat) == frozen_of(f, kind, n)
            + f[n as int].amount,
        f[n as int].kind != kind ==> frozen_of(f, kind, (n + 1) as nat) == frozen_of(f, kind, n),
        frozen_of(f, kind, 0) == 0,
{
}

/// A counter is consistent where it is off by at most one token for each
/// contributing account, and by at most one where there is none.
pub proof fn counters_may_be_off_by_the_noise(stored: i64, rebuilt: i64, contributors: i64)
    ensures
        contributors >= 1 ==> (consistent(stored, rebuilt, contributors) <==> stored - rebuilt
            <= contributors && rebuilt - stored <= contributors),
        contributors < 1 ==> (consistent(stored, rebuilt, contributors) <==> stored - rebuilt <= 1
            && rebuilt - stored <= 1),
{
}

/// The list of the largest stakes: it grows while it has room, a greater one
/// takes the place of the smallest once it is full, and a smaller one changes
/// nothing.
pub proof fn stakers_are_considered(top: Seq<Staker>, e: Staker, r: Seq<Staker>)
    requires
        considered(top, e, r),
        top.len() <= 60,
    ensures
        top.len() < 60 ==> r.len() == top.len() + 1,
        top.len() < 59 ==> r == top.push(e),
        top.len() == 60 ==> r.len() == 60,
        top.len() == 60 && e.basis <= top[0].basis ==> r == top,
        top.len() == 60 && e.basis > top[0].basis ==> forall|i: int|
            0 <= i < r.len() ==> #[trigger] r[i] == e || top.contains(r[i]),
{
    if top.len() == 60 && e.basis > top[0].basis {
        let s = top.update(0, e);
        lemma_rises(s, r);
        assert forall|i: int| 0 <= i < r.len() implies #[trigger] r[i] == e || top.contains(r[i]) by {
            assert(s.contains(r[i]));
            let k = choose|k: int| 0 <= k < s.len() && s[k] == r[i];
            if k > 0 {
                assert(top[k] == r[i]);
            }
        }
    }
}

/// A mismatch shows the witness, the count stored for it and the sum of its
/// votes.
pub proof fn mismatches_show_both_counts(m: Mismatch, w: WitnessCount, s: Seq<(Seq<u8>, int)>)
    requires
        mismatch_of(m, w, s),
    ensures
        m.address@ == w.address@,
        m.stored == w.vote_count,
        m.sum == sum_for(s, w.address@),
{
}

} // verus!
