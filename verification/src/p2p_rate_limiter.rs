//! Rate limits per kind of message: a token bucket for each registered kind,
//! with a burst of one permit. Kinds without a registration pass.
//!
//! Times are nanoseconds of one clock that never runs backwards.

use std::collections::HashMap;

use vstd::prelude::*;

use crate::binary64::{
    divide, double_of, multiply, of_nat, one_less, one_minus, one_value, plus, product, quotient,
    sum, Double,
};

verus! {

broadcast use vstd::std_specs::hash::group_hash_axioms;

/// Whether a number is one that a rate can be: that of a finite binary64.
pub open spec fn is_rate(r: Double) -> bool {
    r.wf() && -1126 <= r.exp <= 971
}

/// A span of time in seconds.
pub open spec fn seconds(ns: nat) -> (nat, int) {
    sum(of_nat(ns / 1_000_000_000), quotient(of_nat(ns % 1_000_000_000), of_nat(1_000_000_000)))
}

fn seconds_of(ns: u64) -> (r: Double)
    ensures
        r@ == seconds(ns as nat),
        r.wf(),
        -300 <= r.exp <= 300,
{
    let whole = double_of((ns / 1_000_000_000) as u128);
    let part = double_of((ns % 1_000_000_000) as u128);
    let giga = double_of(1_000_000_000);
    let fraction = divide(&part, &giga);
    plus(&whole, &fraction)
}

/// At most one permit.
pub open spec fn capped(p: (nat, int)) -> (nat, int) {
    if Double::exceeds(p, one_value()) {
        one_value()
    } else {
        p
    }
}

/// The token bucket of one kind.
#[derive(Debug, Clone, Copy, PartialEq, Eq, Structural)]
pub struct Bucket {
    /// Permits per second.
    pub rate: Double,
    /// Whether the rate is below zero, `rate` being how far.
    pub falling: bool,
    /// Permits on hand, at most one. Of a falling bucket that holds less than one
    /// nothing is left that could ever become one: it counts as empty.
    pub permits: Double,
    pub last_refill_ns: u64,
}

/// Whether taking `y` off one permit leaves one: it rounds to one.
pub open spec fn leaves_one(y: (nat, int)) -> bool {
    Double::exceeds(one_value(), y) && one_less(y) == one_value()
}

/// The permits on hand after a refill. A falling bucket keeps a whole permit only
/// while what the time took off it is lost in rounding.
pub open spec fn refilled(b: Bucket, now: u64) -> (nat, int) {
    if now > b.last_refill_ns {
        let y = product(seconds((now - b.last_refill_ns) as nat), b.rate@);
        if !b.falling {
            capped(sum(b.permits@, y))
        } else if b.permits@ == one_value() && leaves_one(y) {
            one_value()
        } else {
            (0, 0)
        }
    } else {
        b.permits@
    }
}

/// How long to wait for a permit.
#[derive(Debug, Clone, Copy, PartialEq, Eq, Structural)]
pub enum Wait {
    /// One is on hand.
    Now,
    /// None will ever come.
    Forever,
    /// Seconds.
    Seconds(Double),
}

impl Bucket {
    pub open spec fn wf(&self) -> bool {
        &&& is_rate(self.rate)
        &&& self.permits.wf()
        &&& !Double::exceeds(self.permits@, one_value())
        &&& self.permits.mant > 0 ==> self.permits.exp >= -1500
        &&& self.falling ==> self.rate.mant > 0 && (self.permits@ == one_value() || self.permits@
            == (0nat, 0int))
    }

    /// A bucket that holds one permit.
    pub fn new(rate: Double, now_ns: u64) -> (r: Bucket)
        requires
            is_rate(rate),
        ensures
            r.wf(),
            r.rate == rate,
            !r.falling,
            r.permits@ == one_value(),
            r.last_refill_ns == now_ns,
    {
        Bucket {
            rate,
            falling: false,
            permits: Double { mant: 0x10_0000_0000_0000, exp: -52 },
            last_refill_ns: now_ns,
        }
    }

    /// A bucket that holds one permit and whose rate is `rate` below zero.
    pub fn new_falling(rate: Double, now_ns: u64) -> (r: Bucket)
        requires
            is_rate(rate),
            rate.mant > 0,
        ensures
            r.wf(),
            r.rate == rate,
            r.falling,
            r.permits@ == one_value(),
            r.last_refill_ns == now_ns,
    {
        Bucket {
            rate,
            falling: true,
            permits: Double { mant: 0x10_0000_0000_0000, exp: -52 },
            last_refill_ns: now_ns,
        }
    }

    /// Adds the permits of the time since the last refill.
    pub fn refill(&mut self, now_ns: u64)
        requires
            old(self).wf(),
        ensures
            final(self).wf(),
            final(self).rate == old(self).rate,
            final(self).falling == old(self).falling,
            final(self).permits@ == refilled(*old(self), now_ns),
            final(self).last_refill_ns == (if now_ns > old(self).last_refill_ns {
                now_ns
            } else {
                old(self).last_refill_ns
            }),
    {
        if now_ns > self.last_refill_ns {
            let elapsed = seconds_of(now_ns - self.last_refill_ns);
            let added = multiply(&elapsed, &self.rate);
            let one = Double { mant: 0x10_0000_0000_0000, exp: -52 };
            if self.falling {
                let whole = self.permits == one && one.above(&added) && one_minus(&added) == one;
                self.permits = if whole { one } else { Double::zero() };
            } else {
                let total = plus(&self.permits, &added);
                self.permits = if total.above(&one) { one } else { total };
            }
            self.last_refill_ns = now_ns;
        }
    }

    /// Takes one permit, if there is one.
    pub fn try_take(&mut self, now_ns: u64) -> (r: bool)
        requires
            old(self).wf(),
        ensures
            final(self).wf(),
            final(self).rate == old(self).rate,
            final(self).falling == old(self).falling,
            final(self).last_refill_ns == (if now_ns > old(self).last_refill_ns {
                now_ns
            } else {
                old(self).last_refill_ns
            }),
            r == (refilled(*old(self), now_ns) == one_value()),
            final(self).permits@ == (if r {
                (0nat, 0int)
            } else {
                refilled(*old(self), now_ns)
            }),
    {
        self.refill(now_ns);
        let one = Double { mant: 0x10_0000_0000_0000, exp: -52 };
        if !one.above(&self.permits) {
            self.permits = Double::zero();
            return true;
        }
        false
    }

    /// How long to wait for a permit.
    pub fn time_to_permit(&mut self, now_ns: u64) -> (r: Wait)
        requires
            old(self).wf(),
        ensures
            final(self).wf(),
            final(self).rate == old(self).rate,
            final(self).falling == old(self).falling,
            final(self).permits@ == refilled(*old(self), now_ns),
            final(self).last_refill_ns == (if now_ns > old(self).last_refill_ns {
                now_ns
            } else {
                old(self).last_refill_ns
            }),
            if refilled(*old(self), now_ns) == one_value() {
                r is Now
            } else if old(self).falling || old(self).rate.mant == 0 {
                r is Forever
            } else {
                r is Seconds && r->Seconds_0@ == quotient(
                    one_less(refilled(*old(self), now_ns)),
                    old(self).rate@,
                )
            },
    {
        self.refill(now_ns);
        let one = Double { mant: 0x10_0000_0000_0000, exp: -52 };
        if !one.above(&self.permits) {
            return Wait::Now;
        }
        if self.falling || self.rate.mant == 0 {
            return Wait::Forever;
        }
        let needed = one_minus(&self.permits);
        Wait::Seconds(divide(&needed, &self.rate))
    }
}

/// The buckets of all registered kinds.
pub struct P2pRateLimiter {
    buckets: HashMap<u8, Bucket>,
}

impl View for P2pRateLimiter {
    type V = Map<u8, Bucket>;

    closed spec fn view(&self) -> Map<u8, Bucket> {
        self.buckets@
    }
}

impl Default for P2pRateLimiter {
    fn default() -> (r: Self)
        ensures
            r.wf(),
            r@ == Map::<u8, Bucket>::empty(),
    {
        P2pRateLimiter::new()
    }
}

/// Whether all buckets are well formed.
pub open spec fn all_wf(m: Map<u8, Bucket>) -> bool {
    forall|k: u8| #[trigger] m.contains_key(k) ==> m[k].wf()
}

proof fn lemma_insert_keeps_wf(m: Map<u8, Bucket>, ty: u8, b: Bucket)
    requires
        all_wf(m),
        b.wf(),
    ensures
        all_wf(m.insert(ty, b)),
{
    assert forall|k: u8| #[trigger] m.insert(ty, b).contains_key(k) implies m.insert(
        ty,
        b,
    )[k].wf() by {
        if k != ty {
            assert(m.contains_key(k));
        }
    }
}

impl P2pRateLimiter {
    pub open spec fn wf(&self) -> bool {
        all_wf(self@)
    }

    /// A limiter without registrations.
    pub fn new() -> (r: P2pRateLimiter)
        ensures
            r.wf(),
            r@ == Map::<u8, Bucket>::empty(),
    {
        P2pRateLimiter { buckets: HashMap::new() }
    }

    /// Registers a kind, or replaces its registration: either way its bucket
    /// starts with one permit.
    pub fn register(&mut self, ty: u8, rate: Double, now_ns: u64)
        requires
            old(self).wf(),
            is_rate(rate),
        ensures
            final(self).wf(),
            ({
                let b = final(self)@[ty];
                &&& final(self)@ == old(self)@.insert(ty, b)
                &&& b.rate == rate
                &&& !b.falling
                &&& b.permits@ == one_value()
                &&& b.last_refill_ns == now_ns
            }),
    {
        let ghost before = self@;
        let b = Bucket::new(rate, now_ns);
        self.buckets.insert(ty, b);
        proof {
            lemma_insert_keeps_wf(before, ty, b);
            assert(self@ == before.insert(ty, b));
        }
    }

    /// Registers a kind whose rate is `rate` below zero. Its bucket starts with one
    /// permit, too.
    pub fn register_falling(&mut self, ty: u8, rate: Double, now_ns: u64)
        requires
            old(self).wf(),
            is_rate(rate),
            rate.mant > 0,
        ensures
            final(self).wf(),
            ({
                let b = final(self)@[ty];
                &&& final(self)@ == old(self)@.insert(ty, b)
                &&& b.rate == rate
                &&& b.falling
                &&& b.permits@ == one_value()
                &&& b.last_refill_ns == now_ns
            }),
    {
        let ghost before = self@;
        let b = Bucket::new_falling(rate, now_ns);
        self.buckets.insert(ty, b);
        proof {
            lemma_insert_keeps_wf(before, ty, b);
            assert(self@ == before.insert(ty, b));
        }
    }

    /// Drops a registration.
    pub fn unregister(&mut self, ty: u8)
        requires
            old(self).wf(),
        ensures
            final(self).wf(),
            final(self)@ == old(self)@.remove(ty),
    {
        let ghost before = self@;
        self.buckets.remove(&ty);
        assert forall|k: u8| #[trigger] self@.contains_key(k) implies self@[k].wf() by {
            assert(before.contains_key(k));
        }
    }

    /// Whether a kind is registered.
    pub fn is_registered(&self, ty: u8) -> (r: bool)
        ensures
            r == self@.contains_key(ty),
    {
        self.buckets.contains_key(&ty)
    }

    /// Takes a permit of a kind, if there is one. Unregistered kinds pass.
    pub fn try_acquire(&mut self, ty: u8, now_ns: u64) -> (r: bool)
        requires
            old(self).wf(),
        ensures
            final(self).wf(),
            if old(self)@.contains_key(ty) {
                let b = old(self)@[ty];
                let after = final(self)@[ty];
                &&& r == (refilled(b, now_ns) == one_value())
                &&& final(self)@ == old(self)@.insert(ty, after)
                &&& after.rate == b.rate
                &&& after.falling == b.falling
                &&& after.permits@ == (if r {
                    (0nat, 0int)
                } else {
                    refilled(b, now_ns)
                })
                &&& after.last_refill_ns == (if now_ns > b.last_refill_ns {
                    now_ns
                } else {
                    b.last_refill_ns
                })
            } else {
                r && final(self)@ == old(self)@
            },
    {
        let mut b: Bucket = match self.buckets.get(&ty) {
            Some(b) => *b,
            None => return true,
        };
        let ghost before = self@;
        assert(before.contains_key(ty));
        let r = b.try_take(now_ns);
        self.buckets.insert(ty, b);
        proof {
            lemma_insert_keeps_wf(before, ty, b);
            assert(self@ == before.insert(ty, b));
        }
        r
    }

    /// How long to wait for a permit of a kind.
    pub fn time_to_permit(&mut self, ty: u8, now_ns: u64) -> (r: Wait)
        requires
            old(self).wf(),
        ensures
            final(self).wf(),
            if old(self)@.contains_key(ty) {
                let b = old(self)@[ty];
                let after = final(self)@[ty];
                &&& final(self)@ == old(self)@.insert(ty, after)
                &&& after.rate == b.rate
                &&& after.falling == b.falling
                &&& after.permits@ == refilled(b, now_ns)
                &&& after.last_refill_ns == (if now_ns > b.last_refill_ns {
                    now_ns
                } else {
                    b.last_refill_ns
                })
                &&& if refilled(b, now_ns) == one_value() {
                    r is Now
                } else if b.falling || b.rate.mant == 0 {
                    r is Forever
                } else {
                    r is Seconds && r->Seconds_0@ == quotient(
                        one_less(refilled(b, now_ns)),
                        b.rate@,
                    )
                }
            } else {
                r is Now && final(self)@ == old(self)@
            },
    {
        let mut b: Bucket = match self.buckets.get(&ty) {
            Some(b) => *b,
            None => return Wait::Now,
        };
        let ghost before = self@;
        assert(before.contains_key(ty));
        let r = b.time_to_permit(now_ns);
        self.buckets.insert(ty, b);
        proof {
            lemma_insert_keeps_wf(before, ty, b);
            assert(self@ == before.insert(ty, b));
        }
        r
    }
}

/// A burst is one permit: once a permit is taken, there is no other one at the
/// same moment.
pub proof fn bursts_are_one_permit(b: Bucket, now: u64, after: Bucket)
    requires
        refilled(b, now) == one_value(),
        after.permits@ == (0nat, 0int),
        after.last_refill_ns == (if now > b.last_refill_ns {
            now
        } else {
            b.last_refill_ns
        }),
    ensures
        refilled(after, now) != one_value(),
{
}

/// A rate of zero hands out the first permit and no other one, ever.
pub proof fn zero_rate_gives_one_permit(b: Bucket, now: u64)
    requires
        b.rate@ == (0nat, 0int),
        !b.falling,
    ensures
        b.permits@ == (0nat, 0int) ==> refilled(b, now) == (0nat, 0int),
        b.permits@ == one_value() ==> refilled(b, now) == one_value(),
{
    if now > b.last_refill_ns {
        let s = seconds((now - b.last_refill_ns) as nat);
        assert(s.0 * 0 == 0);
        assert(product(s, b.rate@) == (0nat, 0int));
    }
}

/// A rate below zero never gives a permit back: once the first one is taken or
/// lost, there is no other one, ever.
pub proof fn falling_buckets_stay_empty(b: Bucket, now: u64)
    requires
        b.falling,
        b.permits@ == (0nat, 0int),
    ensures
        refilled(b, now) == (0nat, 0int),
{
}

/// A bucket never holds more than one permit, however long it rests.
pub proof fn buckets_hold_one_permit(b: Bucket, now: u64)
    requires
        b.wf(),
    ensures
        !Double::exceeds(refilled(b, now), one_value()),
{
}

/// Whole seconds are counted exactly.
pub proof fn whole_seconds_are_exact(k: nat)
    ensures
        seconds(k * 1_000_000_000) == of_nat(k),
{
    vstd::arithmetic::div_mod::lemma_fundamental_div_mod_converse(
        (k * 1_000_000_000) as int,
        1_000_000_000,
        k as int,
        0,
    );
    if of_nat(k).0 == 0 {
        if k > 0 {
            crate::binary64::nearest_is_within_half_a_unit(k, 1, 0);
        }
    }
}

/// An empty bucket fills with the time since the last refill, times the rate,
/// up to one permit; a clock that stands or goes back fills nothing.
pub proof fn buckets_fill_with_time(b: Bucket, k: nat, now: u64)
    requires
        !b.falling,
        b.permits@ == (0nat, 0int),
        k > 0,
        now == b.last_refill_ns + k * 1_000_000_000,
    ensures
        !Double::exceeds(product(of_nat(k), b.rate@), one_value()) ==> refilled(b, now) == product(
            of_nat(k),
            b.rate@,
        ),
        Double::exceeds(product(of_nat(k), b.rate@), one_value()) ==> refilled(b, now)
            == one_value(),
{
    whole_seconds_are_exact(k);
}

/// Nothing is filled in before the last refill, and one is the full bucket.
pub proof fn time_that_stands_fills_nothing(b: Bucket, now: u64, p: (nat, int))
    requires
        now <= b.last_refill_ns,
    ensures
        refilled(b, now) == b.permits@,
        Double::exceeds(p, one_value()) ==> capped(p) == one_value(),
        !Double::exceeds(p, one_value()) ==> capped(p) == p,
{
}

/// A falling bucket keeps its permit only while what runs off is too little to
/// tell from nothing; otherwise it is empty.
pub proof fn falling_buckets_run_off(b: Bucket, now: u64)
    requires
        b.falling,
        now > b.last_refill_ns,
    ensures
        ({
            let y = product(seconds((now - b.last_refill_ns) as nat), b.rate@);
            &&& one_less(y) != one_value() ==> refilled(b, now) == (0nat, 0int)
            &&& !Double::exceeds(one_value(), y) ==> refilled(b, now) == (0nat, 0int)
            &&& b.permits@ != one_value() ==> refilled(b, now) == (0nat, 0int)
            &&& b.permits@ == one_value() && Double::exceeds(one_value(), y) && one_less(y)
                == one_value() ==> refilled(b, now) == one_value()
        }),
{
}

} // verus!
