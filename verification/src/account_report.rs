//! One account's votes, stakes and tokens, for comparing two data directories.

use vstd::prelude::*;
use vstd::string::*;

use crate::audit::StandingVote;
use crate::text::{append_int, hex_encode, hex_text, int_decimal, quoted, quoted_text};

verus! {

/// A stake of the first generation.
#[derive(Debug, Clone, Copy, PartialEq, Eq, Structural)]
pub struct FrozenEntry {
    pub balance: i64,
    pub expire_time: i64,
}

/// What is read of an account.
#[derive(Debug, Clone)]
pub struct AccountFacts {
    pub balance: i64,
    /// First-generation stakes for bandwidth.
    pub frozen: Vec<FrozenEntry>,
    /// The first-generation stake for energy, if any.
    pub energy_v1: Option<i64>,
    /// First-generation bandwidth stakes delegated to others.
    pub delegated_bandwidth: i64,
    /// The amounts of the second-generation stakes, of whatever kind.
    pub frozen_v2: Vec<i64>,
    pub votes: Vec<StandingVote>,
    /// First-generation tokens by name.
    pub asset: Vec<(String, i64)>,
    /// Second-generation tokens by id.
    pub asset_v2: Vec<(String, i64)>,
}

// ---------------------------------------------------------------------------
// Sums
// ---------------------------------------------------------------------------

/// The sum of the first `n` numbers.
pub open spec fn sum_of(v: Seq<i64>, n: nat) -> int
    decreases n,
{
    if n == 0 {
        0
    } else {
        sum_of(v, (n - 1) as nat) + v[n - 1]
    }
}

/// Whether every partial sum is in the machine's range.
pub open spec fn sums_in_range(v: Seq<i64>) -> bool {
    forall|n: nat| n <= v.len() ==> i64::MIN <= #[trigger] sum_of(v, n) <= i64::MAX
}

/// The staked amounts of the first generation.
pub open spec fn frozen_balances(v: Seq<FrozenEntry>) -> Seq<i64> {
    v.map_values(|f: FrozenEntry| f.balance)
}

fn total(v: &Vec<i64>) -> (r: Option<i64>)
    ensures
        match r {
            Some(t) => sums_in_range(v@) && t == sum_of(v@, v@.len()),
            None => !sums_in_range(v@),
        },
{
    let mut t: i64 = 0;
    let mut i: usize = 0;
    while i < v.len()
        invariant
            i <= v@.len(),
            t == sum_of(v@, i as nat),
            forall|n: nat| n <= i ==> i64::MIN <= #[trigger] sum_of(v@, n) <= i64::MAX,
        decreases v@.len() - i,
    {
        assert(sum_of(v@, (i + 1) as nat) == t + v@[i as int]);
        t = match t.checked_add(v[i]) {
            Some(x) => x,
            None => {
                assert(!(i64::MIN <= sum_of(v@, (i + 1) as nat) <= i64::MAX));
                return None;
            },
        };
        i = i + 1;
    }
    Some(t)
}

fn balances(v: &Vec<FrozenEntry>) -> (r: Vec<i64>)
    ensures
        r@ == frozen_balances(v@),
{
    let mut out: Vec<i64> = Vec::new();
    let mut i: usize = 0;
    while i < v.len()
        invariant
            i <= v@.len(),
            out@ == frozen_balances(v@).take(i as int),
        decreases v@.len() - i,
    {
        out.push(v[i].balance);
        i = i + 1;
        assert(out@ =~= frozen_balances(v@).take(i as int));
    }
    assert(out@ =~= frozen_balances(v@));
    out
}

/// The stakes of an account, added up.
#[derive(Debug, Clone, Copy, PartialEq, Eq, Structural)]
pub struct StakeSums {
    pub frozen_v1: i64,
    pub energy_v1: i64,
    pub delegated_bandwidth: i64,
    pub frozen_v2: i64,
    /// All of them together.
    pub tron_power: i64,
}

impl AccountFacts {
    /// The first-generation stakes for bandwidth.
    pub open spec fn frozen_v1(&self) -> int {
        sum_of(frozen_balances(self.frozen@), self.frozen@.len())
    }

    /// The first-generation stake for energy.
    pub open spec fn energy(&self) -> int {
        match self.energy_v1 {
            Some(e) => e as int,
            None => 0,
        }
    }

    /// The second-generation stakes.
    pub open spec fn staked_v2(&self) -> int {
        sum_of(self.frozen_v2@, self.frozen_v2@.len())
    }

    /// All stakes together.
    pub open spec fn tron_power(&self) -> int {
        self.frozen_v1() + self.energy() + self.delegated_bandwidth + self.staked_v2()
    }

    /// Whether all sums, added from the left, are in the machine's range.
    pub open spec fn fits(&self) -> bool {
        &&& sums_in_range(frozen_balances(self.frozen@))
        &&& sums_in_range(self.frozen_v2@)
        &&& i64::MIN <= self.frozen_v1() + self.energy() <= i64::MAX
        &&& i64::MIN <= self.frozen_v1() + self.energy() + self.delegated_bandwidth <= i64::MAX
        &&& i64::MIN <= self.tron_power() <= i64::MAX
    }

    /// The stakes added up; None where a sum leaves the machine's range.
    pub fn stake_sums(&self) -> (r: Option<StakeSums>)
        ensures
            match r {
                Some(s) => {
                    &&& self.fits()
                    &&& s.frozen_v1 == self.frozen_v1()
                    &&& s.energy_v1 == self.energy()
                    &&& s.delegated_bandwidth == self.delegated_bandwidth
                    &&& s.frozen_v2 == self.staked_v2()
                    &&& s.tron_power == self.tron_power()
                },
                None => !self.fits(),
            },
    {
        let frozen_v1: i64 = match total(&balances(&self.frozen)) {
            Some(t) => t,
            None => return None,
        };
        let frozen_v2: i64 = match total(&self.frozen_v2) {
            Some(t) => t,
            None => return None,
        };
        let energy_v1: i64 = match self.energy_v1 {
            Some(e) => e,
            None => 0,
        };
        let first: i64 = match frozen_v1.checked_add(energy_v1) {
            Some(t) => t,
            None => return None,
        };
        let second: i64 = match first.checked_add(self.delegated_bandwidth) {
            Some(t) => t,
            None => return None,
        };
        let tron_power: i64 = match second.checked_add(frozen_v2) {
            Some(t) => t,
            None => return None,
        };
        Some(
            StakeSums {
                frozen_v1,
                energy_v1,
                delegated_bandwidth: self.delegated_bandwidth,
                frozen_v2,
                tron_power,
            },
        )
    }
}

// ---------------------------------------------------------------------------
// Lists
// ---------------------------------------------------------------------------

/// The first `n` items, separated by commas.
pub open spec fn listed(items: Seq<Seq<char>>, n: nat) -> Seq<char>
    decreases n,
{
    if n == 0 {
        ""@
    } else if n == 1 {
        ""@ + items[0]
    } else {
        listed(items, (n - 1) as nat) + ", "@ + items[n - 1]
    }
}

/// A stake: its amount and its expiry.
pub open spec fn frozen_item(f: FrozenEntry) -> Seq<char> {
    "("@ + int_decimal(f.balance as int) + ", "@ + int_decimal(f.expire_time as int) + ")"@
}

/// A vote: the witness and the count.
pub open spec fn vote_item(v: StandingVote) -> Seq<char> {
    "(\""@ + hex_text(v.vote_address@) + "\", "@ + int_decimal(v.vote_count as int) + ")"@
}

/// A token: its name and the amount.
pub open spec fn asset_item(e: (String, i64)) -> Seq<char> {
    quoted_text(e.0@) + ": "@ + int_decimal(e.1 as int)
}

/// The stakes as they are shown.
pub open spec fn frozen_list(v: Seq<FrozenEntry>) -> Seq<char> {
    "["@ + listed(v.map_values(|f: FrozenEntry| frozen_item(f)), v.len()) + "]"@
}

/// The votes as they are shown.
pub open spec fn vote_list(v: Seq<StandingVote>) -> Seq<char> {
    "["@ + listed(v.map_values(|x: StandingVote| vote_item(x)), v.len()) + "]"@
}

/// The tokens as they are shown, in the order in which they come.
pub open spec fn asset_list(v: Seq<(String, i64)>) -> Seq<char> {
    "{"@ + listed(v.map_values(|e: (String, i64)| asset_item(e)), v.len()) + "}"@
}

fn frozen_string(v: &Vec<FrozenEntry>) -> (r: String)
    ensures
        r@ == frozen_list(v@),
{
    let ghost items = v@.map_values(|f: FrozenEntry| frozen_item(f));
    let mut out = "".to_owned();
    let mut i: usize = 0;
    while i < v.len()
        invariant
            i <= v@.len(),
            items == v@.map_values(|f: FrozenEntry| frozen_item(f)),
            out@ == listed(items, i as nat),
        decreases v@.len() - i,
    {
        if i > 0 {
            out.append(", ");
        }
        let ghost mid = out@;
        out.append("(");
        append_int(&mut out, v[i].balance);
        out.append(", ");
        append_int(&mut out, v[i].expire_time);
        out.append(")");
        assert(items[i as int] == frozen_item(v@[i as int]));
        assert(out@ =~= mid + items[i as int]);
        i = i + 1;
        assert(out@ =~= listed(items, i as nat));
    }
    let mut r = "[".to_owned();
    r.append(out.as_str());
    r.append("]");
    r
}

fn vote_string(v: &Vec<StandingVote>) -> (r: String)
    ensures
        r@ == vote_list(v@),
{
    let ghost items = v@.map_values(|x: StandingVote| vote_item(x));
    let mut out = "".to_owned();
    let mut i: usize = 0;
    while i < v.len()
        invariant
            i <= v@.len(),
            items == v@.map_values(|x: StandingVote| vote_item(x)),
            out@ == listed(items, i as nat),
        decreases v@.len() - i,
    {
        if i > 0 {
            out.append(", ");
        }
        let ghost mid = out@;
        out.append("(\"");
        let hex = hex_encode(v[i].vote_address.as_slice());
        out.append(hex.as_str());
        out.append("\", ");
        append_int(&mut out, v[i].vote_count);
        out.append(")");
        assert(items[i as int] == vote_item(v@[i as int]));
        assert(out@ =~= mid + items[i as int]);
        i = i + 1;
        assert(out@ =~= listed(items, i as nat));
    }
    let mut r = "[".to_owned();
    r.append(out.as_str());
    r.append("]");
    r
}

fn asset_string(v: &Vec<(String, i64)>) -> (r: String)
    ensures
        r@ == asset_list(v@),
{
    let ghost items = v@.map_values(|e: (String, i64)| asset_item(e));
    let mut out = "".to_owned();
    let mut i: usize = 0;
    while i < v.len()
        invariant
            i <= v@.len(),
            items == v@.map_values(|e: (String, i64)| asset_item(e)),
            out@ == listed(items, i as nat),
        decreases v@.len() - i,
    {
        if i > 0 {
            out.append(", ");
        }
        let ghost mid = out@;
        let name = quoted(v[i].0.as_str());
        out.append(name.as_str());
        out.append(": ");
        append_int(&mut out, v[i].1);
        assert(items[i as int] == asset_item(v@[i as int]));
        assert(out@ =~= mid + items[i as int]);
        i = i + 1;
        assert(out@ =~= listed(items, i as nat));
    }
    let mut r = "{".to_owned();
    r.append(out.as_str());
    r.append("}");
    r
}

// ---------------------------------------------------------------------------
// The report
// ---------------------------------------------------------------------------

/// The stakes and their sum.
pub open spec fn stakes_text(a: AccountFacts) -> Seq<char> {
    "  frozen_v1(bw)="@ + int_decimal(a.frozen_v1()) + " energy_v1="@ + int_decimal(a.energy())
        + " deleg_bw="@ + int_decimal(a.delegated_bandwidth as int) + " v2="@ + int_decimal(
        a.staked_v2(),
    ) + "\n  Σ tron_power = "@ + int_decimal(a.tron_power()) + "\n"@
}

/// What is said of an account, None where there is none under this key.
pub open spec fn account_text(address: Seq<u8>, account: Option<AccountFacts>) -> Seq<char> {
    match account {
        None => "account "@ + hex_text(address) + " NOT FOUND\n"@,
        Some(a) => "account "@ + hex_text(address) + "\n  balance="@ + int_decimal(a.balance as int)
            + "\n  frozen entries: "@ + frozen_list(a.frozen@) + "\n"@ + stakes_text(a)
            + "  votes: "@ + vote_list(a.votes@) + "\n  asset(v1): "@ + asset_list(a.asset@)
            + "\n  asset_v2:  "@ + asset_list(a.asset_v2@) + "\n"@,
    }
}

fn stakes_string(a: &AccountFacts, s: &StakeSums) -> (r: String)
    requires
        s.frozen_v1 == a.frozen_v1(),
        s.energy_v1 == a.energy(),
        s.delegated_bandwidth == a.delegated_bandwidth,
        s.frozen_v2 == a.staked_v2(),
        s.tron_power == a.tron_power(),
    ensures
        r@ == stakes_text(*a),
{
    let mut out = "  frozen_v1(bw)=".to_owned();
    append_int(&mut out, s.frozen_v1);
    out.append(" energy_v1=");
    append_int(&mut out, s.energy_v1);
    out.append(" deleg_bw=");
    append_int(&mut out, s.delegated_bandwidth);
    out.append(" v2=");
    append_int(&mut out, s.frozen_v2);
    out.append("\n  Σ tron_power = ");
    append_int(&mut out, s.tron_power);
    out.append("\n");
    out
}

/// The report on the account under a key.
pub fn account_report(address: &[u8], account: Option<&AccountFacts>) -> (r: String)
    requires
        account matches Some(a) ==> a.fits(),
    ensures
        r@ == account_text(
            address@,
            match account {
                Some(a) => Some(*a),
                None => None,
            },
        ),
{
    let mut out = "account ".to_owned();
    let hex = hex_encode(address);
    out.append(hex.as_str());
    let (a, sums) = match account {
        None => {
            out.append(" NOT FOUND\n");
            return out;
        },
        Some(a) => match a.stake_sums() {
            Some(s) => (a, s),
            None => return out,
        },
    };
    let frozen = frozen_string(&a.frozen);
    let stakes = stakes_string(a, &sums);
    let votes = vote_string(&a.votes);
    let asset = asset_string(&a.asset);
    let asset_v2 = asset_string(&a.asset_v2);
    out.append("\n  balance=");
    append_int(&mut out, a.balance);
    out.append("\n  frozen entries: ");
    out.append(frozen.as_str());
    out.append("\n");
    out.append(stakes.as_str());
    out.append("  votes: ");
    out.append(votes.as_str());
    out.append("\n  asset(v1): ");
    out.append(asset.as_str());
    out.append("\n  asset_v2:  ");
    out.append(asset_v2.as_str());
    out.append("\n");
    out
}

/// Sums grow by each number in turn.
pub proof fn sums_take_in_each_number(v: Seq<i64>, n: nat)
    requires
        n < v.len(),
    ensures
        sum_of(v, (n + 1) as nat) == sum_of(v, n) + v[n as int],
        sum_of(v, 0) == 0,
{
}

/// The power of an account is all that it staked, of both generations and for
/// either resource, and what it delegated; each part counts once.
pub proof fn power_is_all_that_is_staked(a: AccountFacts, i: int)
    ensures
        a.tron_power() == sum_of(
            a.frozen@.map_values(|f: FrozenEntry| f.balance),
            a.frozen@.len(),
        ) + a.energy() + a.delegated_bandwidth + sum_of(a.frozen_v2@, a.frozen_v2@.len()),
        a.energy_v1 is Some ==> a.energy() == a.energy_v1->Some_0,
        a.energy_v1 is None ==> a.energy() == 0,
        a.frozen_v1() == sum_of(frozen_balances(a.frozen@), a.frozen@.len()),
        a.staked_v2() == sum_of(a.frozen_v2@, a.frozen_v2@.len()),
        0 <= i < a.frozen@.len() ==> frozen_balances(a.frozen@)[i] == a.frozen@[i].balance,
        a.frozen@.len() == 1 ==> a.frozen_v1() == a.frozen@[0].balance,
        a.frozen_v2@.len() == 1 ==> a.staked_v2() == a.frozen_v2@[0],
{
    assert(frozen_balances(a.frozen@) =~= a.frozen@.map_values(|f: FrozenEntry| f.balance));
    reveal_with_fuel(sum_of, 3);
}

} // verus!
