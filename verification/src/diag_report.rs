//! What state inspection shows, line by line.

use vstd::prelude::*;
use vstd::string::*;

use crate::diag::{multiplier, multiplier_text};
use crate::text::{
    append_hex_digit, append_int, append_nat, decimal, hex_digit, hex_encode, hex_text,
    int_decimal,
};

verus! {

/// A label, a number, and the end of the line.
pub open spec fn field(label: Seq<char>, n: int) -> Seq<char> {
    label + int_decimal(n) + "\n"@
}

fn append_field(out: &mut String, label: &str, n: i64)
    ensures
        final(out)@ == old(out)@ + field(label@, n as int),
{
    out.append(label);
    append_int(out, n);
    out.append("\n");
    assert(out@ =~= old(out)@ + field(label@, n as int));
}

/// A label and an address, or any other bytes, in hexadecimal.
pub open spec fn headed(label: Seq<char>, bytes: Seq<u8>) -> Seq<char> {
    label + hex_text(bytes)
}

fn start_with(label: &str, bytes: &[u8]) -> (r: String)
    ensures
        r@ == headed(label@, bytes@),
{
    let mut out = label.to_owned();
    let h = hex_encode(bytes);
    out.append(h.as_str());
    out
}

/// Numbers in pairs, as a list.
pub open spec fn pairs(p: Seq<(i32, i64)>, n: nat) -> Seq<char>
    decreases n,
{
    if n == 0 {
        Seq::empty()
    } else {
        pairs(p, (n - 1) as nat) + (if n > 1 {
            ", ("@
        } else {
            "("@
        }) + int_decimal(p[n - 1].0 as int) + ", "@ + int_decimal(p[n - 1].1 as int) + ")"@
    }
}

fn append_pairs(out: &mut String, p: &Vec<(i32, i64)>)
    ensures
        final(out)@ == old(out)@ + pairs(p@, p@.len()),
{
    let mut i: usize = 0;
    assert(out@ =~= old(out)@ + pairs(p@, 0));
    while i < p.len()
        invariant
            i <= p@.len(),
            out@ == old(out)@ + pairs(p@, i as nat),
        decreases p@.len() - i,
    {
        if i > 0 {
            out.append(", (");
        } else {
            out.append("(");
        }
        append_int(out, p[i].0 as i64);
        out.append(", ");
        append_int(out, p[i].1);
        out.append(")");
        i = i + 1;
        assert(out@ =~= old(out)@ + pairs(p@, i as nat));
    }
}

/// What is shown of an account.
#[derive(Debug, Clone)]
pub struct AccountFacts {
    pub kind: i32,
    pub balance: i64,
    /// Resource and amount of each stake.
    pub frozen_v2: Vec<(i32, i64)>,
    pub energy_usage: i64,
    pub energy_window_size: i64,
    pub latest_consume_time_for_energy: i64,
    pub acquired_v2_energy: i64,
    pub delegated_v2_energy: i64,
    pub acquired_v1_energy: i64,
    pub delegated_v1_energy: i64,
    pub net_usage: i64,
    pub net_window_size: i64,
    pub latest_consume_time: i64,
    pub acquired_v2_bandwidth: i64,
    pub delegated_v2_bandwidth: i64,
}

/// The report on an account.
pub open spec fn account_report(addr: Seq<u8>, account: Option<AccountFacts>) -> Seq<char> {
    match account {
        None => headed("account "@, addr) + ": ABSENT\n"@,
        Some(a) => headed("account "@, addr) + "\n"@ + field("  type            "@, a.kind as int)
            + field("  balance         "@, a.balance as int) + "  frozen_v2       ["@ + pairs(
            a.frozen_v2@,
            a.frozen_v2@.len(),
        ) + "]\n  --- ENERGY ---\n"@ + field("  energy_usage             "@, a.energy_usage as int)
            + field("  energy_window_size       "@, a.energy_window_size as int) + field(
            "  latest_consume_time_e    "@,
            a.latest_consume_time_for_energy as int,
        ) + field("  acquired_v2_energy(RECV) "@, a.acquired_v2_energy as int) + field(
            "  delegated_v2_energy(SENT)"@,
            a.delegated_v2_energy as int,
        ) + field("  acquired_v1_energy(RECV) "@, a.acquired_v1_energy as int) + field(
            "  delegated_v1_energy(SENT)"@,
            a.delegated_v1_energy as int,
        ) + "  --- BANDWIDTH ---\n"@ + field("  net_usage                "@, a.net_usage as int)
            + field("  net_window_size          "@, a.net_window_size as int) + field(
            "  latest_consume_time      "@,
            a.latest_consume_time as int,
        ) + field("  acquired_v2_bw(RECV)     "@, a.acquired_v2_bandwidth as int) + field(
            "  delegated_v2_bw(SENT)    "@,
            a.delegated_v2_bandwidth as int,
        ),
    }
}

/// Shows an account.
pub fn diag_account(addr: &[u8; 21], account: Option<&AccountFacts>) -> (r: String)
    ensures
        r@ == account_report(
            addr@,
            match account {
                Some(a) => Some(*a),
                None => None,
            },
        ),
{
    let mut out = start_with("account ", addr.as_slice());
    let a = match account {
        None => {
            out.append(": ABSENT\n");
            return out;
        },
        Some(a) => a,
    };
    out.append("\n");
    append_field(&mut out, "  type            ", a.kind as i64);
    append_field(&mut out, "  balance         ", a.balance);
    out.append("  frozen_v2       [");
    append_pairs(&mut out, &a.frozen_v2);
    out.append("]\n  --- ENERGY ---\n");
    append_field(&mut out, "  energy_usage             ", a.energy_usage);
    append_field(&mut out, "  energy_window_size       ", a.energy_window_size);
    append_field(&mut out, "  latest_consume_time_e    ", a.latest_consume_time_for_energy);
    append_field(&mut out, "  acquired_v2_energy(RECV) ", a.acquired_v2_energy);
    append_field(&mut out, "  delegated_v2_energy(SENT)", a.delegated_v2_energy);
    append_field(&mut out, "  acquired_v1_energy(RECV) ", a.acquired_v1_energy);
    append_field(&mut out, "  delegated_v1_energy(SENT)", a.delegated_v1_energy);
    out.append("  --- BANDWIDTH ---\n");
    append_field(&mut out, "  net_usage                ", a.net_usage);
    append_field(&mut out, "  net_window_size          ", a.net_window_size);
    append_field(&mut out, "  latest_consume_time      ", a.latest_consume_time);
    append_field(&mut out, "  acquired_v2_bw(RECV)     ", a.acquired_v2_bandwidth);
    append_field(&mut out, "  delegated_v2_bw(SENT)    ", a.delegated_v2_bandwidth);
    out
}

/// One delegation between two accounts.
#[derive(Debug, Clone, Copy, PartialEq, Eq, Structural)]
pub struct DelegationFacts {
    pub energy: i64,
    pub bandwidth: i64,
    pub expire_energy: i64,
    pub expire_bandwidth: i64,
}

/// The line of one delegation.
pub open spec fn delegation_line(label: Seq<char>, d: Option<DelegationFacts>) -> Seq<char> {
    match d {
        Some(d) => label + ": energy="@ + int_decimal(d.energy as int) + " bw="@ + int_decimal(
            d.bandwidth as int,
        ) + " expire_e="@ + int_decimal(d.expire_energy as int) + " expire_bw="@ + int_decimal(
            d.expire_bandwidth as int,
        ) + "\n"@,
        None => label + ": ABSENT\n"@,
    }
}

fn append_delegation(out: &mut String, label: &str, d: Option<DelegationFacts>)
    ensures
        final(out)@ == old(out)@ + delegation_line(label@, d),
{
    out.append(label);
    match d {
        Some(d) => {
            out.append(": energy=");
            append_int(out, d.energy);
            out.append(" bw=");
            append_int(out, d.bandwidth);
            out.append(" expire_e=");
            append_int(out, d.expire_energy);
            out.append(" expire_bw=");
            append_int(out, d.expire_bandwidth);
            out.append("\n");
        },
        None => {
            out.append(": ABSENT\n");
        },
    }
    assert(out@ =~= old(out)@ + delegation_line(label@, d));
}

/// Shows what one account delegates to another, without and with a lock.
pub fn diag_delegation(
    from: &[u8; 21],
    to: &[u8; 21],
    unlocked: Option<DelegationFacts>,
    locked: Option<DelegationFacts>,
) -> (r: String)
    ensures
        r@ == headed("delegation "@, from@) + headed(" -> "@, to@) + "\n"@ + delegation_line(
            "  unlocked(0x01)"@,
            unlocked,
        ) + delegation_line("  locked(0x02)  "@, locked),
{
    let mut out = start_with("delegation ", from.as_slice());
    let t = start_with(" -> ", to.as_slice());
    out.append(t.as_str());
    out.append("\n");
    append_delegation(&mut out, "  unlocked(0x01)", unlocked);
    append_delegation(&mut out, "  locked(0x02)  ", locked);
    out
}

/// The report on a storage slot.
pub open spec fn storage_report(
    addr: Seq<u8>,
    slot: Seq<u8>,
    first_layout: bool,
    value: Option<Seq<u8>>,
) -> Seq<char> {
    let head = headed("storage "@, addr) + headed(" slot 0x"@, slot) + (if first_layout {
        " [v1]: "@
    } else {
        " [v2]: "@
    });
    match value {
        Some(v) => head + headed("0x"@, v) + "\n"@,
        None => head + "ABSENT (reads as 0)\n"@,
    }
}

/// Shows one storage slot of a contract. The first layout is that of contracts
/// of version one.
pub fn diag_storage(
    addr: &[u8; 21],
    slot: &[u8; 32],
    contract_version: Option<i32>,
    value: Option<&Vec<u8>>,
) -> (r: String)
    ensures
        r@ == storage_report(
            addr@,
            slot@,
            contract_version == Some(1i32),
            match value {
                Some(v) => Some(v@),
                None => None,
            },
        ),
{
    let mut out = start_with("storage ", addr.as_slice());
    let s = start_with(" slot 0x", slot.as_slice());
    out.append(s.as_str());
    let first_layout = match contract_version {
        Some(v) => v == 1,
        None => false,
    };
    if first_layout {
        out.append(" [v1]: ");
    } else {
        out.append(" [v2]: ");
    }
    match value {
        Some(v) => {
            let h = start_with("0x", v.as_slice());
            out.append(h.as_str());
            out.append("\n");
        },
        None => {
            out.append("ABSENT (reads as 0)\n");
        },
    }
    out
}

/// The stored energy state of a contract.
#[derive(Debug, Clone, Copy, PartialEq, Eq, Structural)]
pub struct EnergyState {
    pub update_cycle: i64,
    pub energy_factor: i64,
    pub energy_usage: i64,
}

/// The chain's rules on energy, zero where they are not set.
#[derive(Debug, Clone, Copy, PartialEq, Eq, Structural)]
pub struct EnergyRules {
    pub current_cycle: i64,
    pub allow_dynamic: i64,
    pub threshold: i64,
    pub increase: i64,
    pub max_factor: i64,
}

/// The report on a contract's energy factor.
pub open spec fn contractstate_report(
    addr: Seq<u8>,
    stored: Option<EnergyState>,
    rules: EnergyRules,
    caught_up: i64,
) -> Seq<char> {
    let first = match stored {
        Some(s) => headed("contractstate "@, addr) + " stored: update_cycle="@ + int_decimal(
            s.update_cycle as int,
        ) + " energy_factor="@ + int_decimal(s.energy_factor as int) + " energy_usage="@
            + int_decimal(s.energy_usage as int) + "\n"@,
        None => headed("contractstate "@, addr) + ": ABSENT (factor 0, fresh at cycle "@
            + int_decimal(rules.current_cycle as int) + ")\n"@,
    };
    first + "  caught-up @cycle "@ + int_decimal(rules.current_cycle as int) + " (allow_dynamic="@
        + int_decimal(rules.allow_dynamic as int) + " threshold="@ + int_decimal(
        rules.threshold as int,
    ) + " increase="@ + int_decimal(rules.increase as int) + " max="@ + int_decimal(
        rules.max_factor as int,
    ) + "): energy_factor="@ + int_decimal(caught_up as int) + " (effective multiplier "@
        + multiplier(caught_up as int) + ")\n"@
}

/// Shows the stored energy factor of a contract, and the one that applies now.
pub fn diag_contractstate(
    addr: &[u8; 21],
    stored: Option<EnergyState>,
    rules: EnergyRules,
    caught_up: i64,
) -> (r: String)
    requires
        caught_up <= i64::MAX - 10_000,
    ensures
        r@ == contractstate_report(addr@, stored, rules, caught_up),
{
    let mut out = start_with("contractstate ", addr.as_slice());
    match stored {
        Some(s) => {
            out.append(" stored: update_cycle=");
            append_int(&mut out, s.update_cycle);
            out.append(" energy_factor=");
            append_int(&mut out, s.energy_factor);
            out.append(" energy_usage=");
            append_int(&mut out, s.energy_usage);
            out.append("\n");
        },
        None => {
            out.append(": ABSENT (factor 0, fresh at cycle ");
            append_int(&mut out, rules.current_cycle);
            out.append(")\n");
        },
    }
    out.append("  caught-up @cycle ");
    append_int(&mut out, rules.current_cycle);
    out.append(" (allow_dynamic=");
    append_int(&mut out, rules.allow_dynamic);
    out.append(" threshold=");
    append_int(&mut out, rules.threshold);
    out.append(" increase=");
    append_int(&mut out, rules.increase);
    out.append(" max=");
    append_int(&mut out, rules.max_factor);
    out.append("): energy_factor=");
    append_int(&mut out, caught_up);
    out.append(" (effective multiplier ");
    let m = multiplier_text(caught_up);
    out.append(m.as_str());
    out.append(")\n");
    out
}

/// A number in hexadecimal, without leading zeros.
pub open spec fn hex_number(n: nat) -> Seq<char>
    decreases n,
{
    if n < 16 {
        seq![hex_digit(n as int)]
    } else {
        hex_number(n / 16).push(hex_digit((n % 16) as int))
    }
}

fn append_hex_number(out: &mut String, n: u64)
    ensures
        final(out)@ == old(out)@ + hex_number(n as nat),
    decreases n,
{
    if n >= 16 {
        append_hex_number(out, n / 16);
    }
    append_hex_digit(out, (n % 16) as u8);
    assert(out@ =~= old(out)@ + hex_number(n as nat));
}

/// A signed number as the unsigned one with the same 64 bits.
pub open spec fn as_unsigned(v: i64) -> nat {
    if v >= 0 {
        v as nat
    } else {
        (v + 0x1_0000_0000_0000_0000) as nat
    }
}

/// The report on a chain property.
pub open spec fn dynprop_report(key: Seq<char>, value: Option<i64>) -> Seq<char> {
    match value {
        Some(v) => "dynprop "@ + key + " = "@ + int_decimal(v as int) + " (0x"@ + hex_number(
            as_unsigned(v),
        ) + ")\n"@,
        None => "dynprop "@ + key + ": ABSENT\n"@,
    }
}

/// Shows a chain property.
pub fn diag_dynprop(key: &str, value: Option<i64>) -> (r: String)
    ensures
        r@ == dynprop_report(key@, value),
{
    let mut out = "dynprop ".to_owned();
    out.append(key);
    match value {
        Some(v) => {
            out.append(" = ");
            append_int(&mut out, v);
            out.append(" (0x");
            let n: u64 = if v >= 0 { v as u64 } else { (v as i128 + 0x1_0000_0000_0000_0000) as u64 };
            append_hex_number(&mut out, n);
            out.append(")\n");
        },
        None => {
            out.append(": ABSENT\n");
        },
    }
    out
}

/// A vote of an account.
#[derive(Debug, Clone)]
pub struct VoteFacts {
    pub vote_address: Vec<u8>,
    pub vote_count: i64,
}

/// The lines of the first `n` votes.
pub open spec fn vote_lines(v: Seq<VoteFacts>, n: nat) -> Seq<char>
    decreases n,
{
    if n == 0 {
        Seq::empty()
    } else {
        vote_lines(v, (n - 1) as nat) + headed("    "@, v[n - 1].vote_address@) + field(
            " -> "@,
            v[n - 1].vote_count as int,
        )
    }
}

/// What is shown of an account's rewards.
#[derive(Debug, Clone)]
pub struct RewardFacts {
    pub begin_cycle: i64,
    pub end_cycle: i64,
    pub current_cycle: i64,
    pub allowance: i64,
    pub votes: Vec<VoteFacts>,
}

/// The report on an account's rewards.
pub open spec fn reward_report(addr: Seq<u8>, r: RewardFacts) -> Seq<char> {
    headed("reward "@, addr) + "\n"@ + field("  begin_cycle    "@, r.begin_cycle as int) + field(
        "  end_cycle      "@,
        r.end_cycle as int,
    ) + field("  current_cycle  "@, r.current_cycle as int) + field(
        "  allowance      "@,
        r.allowance as int,
    ) + "  votes ("@ + decimal(r.votes@.len()) + ")\n"@ + vote_lines(r.votes@, r.votes@.len())
}

/// Shows the reward cycles of an account.
pub fn diag_reward(addr: &[u8; 21], f: &RewardFacts) -> (r: String)
    ensures
        r@ == reward_report(addr@, *f),
{
    let mut out = start_with("reward ", addr.as_slice());
    out.append("\n");
    append_field(&mut out, "  begin_cycle    ", f.begin_cycle);
    append_field(&mut out, "  end_cycle      ", f.end_cycle);
    append_field(&mut out, "  current_cycle  ", f.current_cycle);
    append_field(&mut out, "  allowance      ", f.allowance);
    out.append("  votes (");
    append_nat(&mut out, f.votes.len() as u128);
    out.append(")\n");
    let ghost head = out@;
    let mut i: usize = 0;
    assert(out@ =~= head + vote_lines(f.votes@, 0));
    while i < f.votes.len()
        invariant
            i <= f.votes@.len(),
            out@ == head + vote_lines(f.votes@, i as nat),
        decreases f.votes@.len() - i,
    {
        let h = start_with("    ", f.votes[i].vote_address.as_slice());
        out.append(h.as_str());
        append_field(&mut out, " -> ", f.votes[i].vote_count);
        i = i + 1;
        assert(out@ =~= head + vote_lines(f.votes@, i as nat));
    }
    out
}

/// Hexadecimal numbers are written digit by digit, the most significant first,
/// and a negative value as its two's complement.
pub proof fn numbers_are_written_in_sixteens(n: nat, d: nat, v: i64)
    requires
        d < 16,
    ensures
        n > 0 ==> hex_number(16 * n + d) == hex_number(n).push(hex_digit(d as int)),
        hex_number(d) == seq![hex_digit(d as int)],
        v >= 0 ==> as_unsigned(v) == v,
        v < 0 ==> as_unsigned(v) == 0x1_0000_0000_0000_0000 + v,
{
    if n > 0 {
        assert((16 * n + d) / 16 == n);
        assert((16 * n + d) % 16 == d);
    }
}

} // verus!
