//! Read-only state inspection: what is asked for, and how it is shown.

use vstd::prelude::*;
use vstd::string::*;

use crate::cli::words;
use crate::text::{
    append_int, append_nat, chars_of, decimal, hex_decode, hex_refusal, hex_value, int_decimal,
    is_hex, pad_left, slice_string, str_eq, append_pad_left, nat_string,
};

verus! {

/// Bytes of an address.
pub const ADDRESS_LENGTH: usize = 21;

/// A text without a leading `0x`.
pub open spec fn without_0x(s: Seq<char>) -> Seq<char> {
    if s.len() >= 2 && s[0] == '0' && s[1] == 'x' {
        s.skip(2)
    } else {
        s
    }
}

fn strip_0x(s: &str) -> (r: String)
    ensures
        r@ == without_0x(s@),
{
    let v = chars_of(s);
    if v.len() >= 2 && v[0] == '0' && v[1] == 'x' {
        let r = slice_string(&v, 2, v.len());
        assert(r@ =~= s@.skip(2));
        r
    } else {
        s.to_owned()
    }
}

/// The address that a text names: 21 bytes in hexadecimal.
pub open spec fn address(s: Seq<char>) -> Result<Seq<u8>, Seq<char>> {
    let t = without_0x(s);
    let b = vstd::utf8::encode_utf8(t);
    if !is_hex(b) {
        Err("bad hex '"@ + t + "': "@ + hex_refusal(b))
    } else if hex_value(b).len() != 21 {
        Err(
            "address must be "@ + decimal(21) + " bytes ("@ + decimal(42) + " hex chars), got "@
                + decimal(hex_value(b).len()),
        )
    } else {
        Ok(hex_value(b))
    }
}

/// Parses a 21-byte address in hexadecimal, with or without `0x`.
pub fn parse_addr(s: &str) -> (r: Result<[u8; 21], String>)
    ensures
        match (address(s@), r) {
            (Ok(b), Ok(a)) => a@ == b,
            (Err(t), Err(e)) => e@ == t,
            _ => false,
        },
{
    let t = strip_0x(s);
    match hex_decode(t.as_str()) {
        Err(why) => {
            let mut e = "bad hex '".to_owned();
            e.append(t.as_str());
            e.append("': ");
            e.append(why.as_str());
            Err(e)
        },
        Ok(bytes) => {
            if bytes.len() != ADDRESS_LENGTH {
                let mut e = "address must be ".to_owned();
                append_nat(&mut e, 21);
                e.append(" bytes (");
                append_nat(&mut e, 42);
                e.append(" hex chars), got ");
                append_nat(&mut e, bytes.len() as u128);
                return Err(e);
            }
            let mut a: [u8; 21] = [0; 21];
            let mut i: usize = 0;
            while i < 21
                invariant
                    i <= 21,
                    bytes@.len() == 21,
                    forall|j: int| 0 <= j < i ==> a@[j] == bytes@[j],
                decreases 21 - i,
            {
                a[i] = bytes[i];
                i = i + 1;
            }
            assert(a@ =~= bytes@);
            Ok(a)
        },
    }
}

/// A byte string right-aligned in 32 bytes.
pub open spec fn right_aligned(b: Seq<u8>) -> Seq<u8> {
    Seq::new(32, |i: int| if i < 32 - b.len() { 0u8 } else { b[i - (32 - b.len())] })
}

/// The storage slot that a text names: up to 32 bytes in hexadecimal, right
/// aligned. An odd number of digits gets a leading zero.
pub open spec fn slot(s: Seq<char>) -> Result<Seq<u8>, Seq<char>> {
    let t = without_0x(s);
    let u = if vstd::utf8::encode_utf8(t).len() % 2 == 1 {
        "0"@ + t
    } else {
        t
    };
    let b = vstd::utf8::encode_utf8(u);
    if !is_hex(b) {
        Err("bad slot hex '"@ + u + "': "@ + hex_refusal(b))
    } else if hex_value(b).len() > 32 {
        Err("slot must be <= 32 bytes, got "@ + decimal(hex_value(b).len()))
    } else {
        Ok(right_aligned(hex_value(b)))
    }
}

/// Parses a storage slot in hexadecimal, with or without `0x`.
pub fn parse_slot(s: &str) -> (r: Result<[u8; 32], String>)
    ensures
        match (slot(s@), r) {
            (Ok(b), Ok(a)) => a@ == b,
            (Err(t), Err(e)) => e@ == t,
            _ => false,
        },
{
    let t = strip_0x(s);
    let len: usize = t.as_str().as_bytes().len();
    let u = if len % 2 == 1 {
        let mut z = "0".to_owned();
        z.append(t.as_str());
        z
    } else {
        t
    };
    match hex_decode(u.as_str()) {
        Err(why) => {
            let mut e = "bad slot hex '".to_owned();
            e.append(u.as_str());
            e.append("': ");
            e.append(why.as_str());
            Err(e)
        },
        Ok(bytes) => {
            if bytes.len() > 32 {
                let mut e = "slot must be <= 32 bytes, got ".to_owned();
                append_nat(&mut e, bytes.len() as u128);
                return Err(e);
            }
            let mut a: [u8; 32] = [0; 32];
            let n: usize = bytes.len();
            let mut i: usize = 0;
            while i < n
                invariant
                    i <= n <= 32,
                    n == bytes@.len(),
                    forall|j: int| 0 <= j < 32 - n ==> a@[j] == 0,
                    forall|j: int| 0 <= j < i ==> a@[32 - n + j] == bytes@[j],
                decreases n - i,
            {
                a[32 - n + i] = bytes[i];
                i = i + 1;
            }
            proof {
                assert forall|k: int| 0 <= k < 32 implies a@[k] == right_aligned(bytes@)[k] by {
                    if k >= 32 - n {
                        let j = k - (32 - n);
                        assert(a@[32 - n + j] == bytes@[j]);
                    }
                }
                assert(a@ =~= right_aligned(bytes@));
            }
            Ok(a)
        },
    }
}

/// The words that are neither the subcommand nor part of `--data-dir`, and the
/// data directory. A trailing `--data-dir` lacks its value.
pub open spec fn split_args(
    args: Seq<Seq<char>>,
    i: int,
    dir: Seq<char>,
    pos: Seq<Seq<char>>,
) -> Result<(Seq<char>, Seq<Seq<char>>), Seq<char>>
    decreases args.len() - i,
{
    if i < 0 || i >= args.len() {
        Ok((dir, pos))
    } else if args[i] == "--data-dir"@ || args[i] == "-d"@ {
        if i + 1 >= args.len() {
            Err("diag: --data-dir needs a value"@)
        } else {
            split_args(args, i + 2, args[i + 1], pos)
        }
    } else {
        split_args(args, i + 1, dir, pos.push(args[i]))
    }
}

fn split(args: &Vec<String>) -> (r: Result<(String, Vec<String>), String>)
    ensures
        match (split_args(words(args@), 1, "./tron-data"@, Seq::empty()), r) {
            (Ok((d, p)), Ok((dir, pos))) => dir@ == d && words(pos@) == p,
            (Err(t), Err(e)) => e@ == t,
            _ => false,
        },
{
    let ghost w = words(args@);
    let mut dir = "./tron-data".to_owned();
    let mut pos: Vec<String> = Vec::new();
    let mut i: usize = 1;
    assert(words(pos@) =~= Seq::<Seq<char>>::empty());
    while i < args.len()
        invariant
            1 <= i,
            w == words(args@),
            split_args(w, 1, "./tron-data"@, Seq::empty()) == split_args(
                w,
                i as int,
                dir@,
                words(pos@),
            ),
        decreases args@.len() - i,
    {
        assert(w[i as int] == args@[i as int]@);
        let ghost before = words(pos@);
        if str_eq(args[i].as_str(), "--data-dir") || str_eq(args[i].as_str(), "-d") {
            if args.len() - i <= 1 {
                return Err("diag: --data-dir needs a value".to_owned());
            }
            assert(w[i + 1] == args@[i + 1]@);
            dir = args[i + 1].clone();
            i = i + 2;
        } else {
            pos.push(args[i].clone());
            assert(words(pos@) =~= before.push(w[i as int]));
            i = i + 1;
        }
    }
    Ok((dir, pos))
}

/// What is to be inspected.
#[derive(Debug, Clone)]
pub enum DiagRequest {
    Account([u8; 21]),
    Delegation([u8; 21], [u8; 21]),
    DynProp(String),
    Storage([u8; 21], [u8; 32]),
    ContractState([u8; 21]),
    Reward([u8; 21]),
}

/// What a diagnostic command line comes to.
#[derive(Debug, Clone)]
pub enum DiagOutcome {
    /// No subcommand was given.
    NoSubcommand,
    /// The usage text was asked for.
    Help,
    /// The words before the subcommand's usage.
    Usage(&'static str),
    /// Any other refusal.
    Refused(String),
    /// Inspect this in this data directory.
    Run { data_dir: String, request: DiagRequest },
}

/// The usage of a subcommand that takes arguments.
pub open spec fn usage_of(sub: Seq<char>) -> Option<Seq<char>> {
    if sub == "account"@ {
        Some("account <hex-addr>"@)
    } else if sub == "delegation"@ {
        Some("delegation <hex-from> <hex-to>"@)
    } else if sub == "dynprop"@ {
        Some("dynprop <key-string>"@)
    } else if sub == "storage"@ {
        Some("storage <hex-addr> <hex-slot>"@)
    } else if sub == "contractstate"@ {
        Some("contractstate <hex-addr>"@)
    } else if sub == "reward"@ {
        Some("reward <hex-addr>"@)
    } else {
        None
    }
}

/// The address at a position among the arguments, if there is a good one.
pub open spec fn address_at(pos: Seq<Seq<char>>, i: int) -> Option<Seq<u8>> {
    if 0 <= i < pos.len() {
        match address(pos[i]) {
            Ok(b) => Some(b),
            Err(_) => None,
        }
    } else {
        None
    }
}

/// The slot at a position among the arguments, if there is a good one.
pub open spec fn slot_at(pos: Seq<Seq<char>>, i: int) -> Option<Seq<u8>> {
    if 0 <= i < pos.len() {
        match slot(pos[i]) {
            Ok(b) => Some(b),
            Err(_) => None,
        }
    } else {
        None
    }
}

/// Whether a request is the one that a subcommand's arguments make.
pub open spec fn asks_for(sub: Seq<char>, pos: Seq<Seq<char>>, r: DiagRequest) -> bool {
    match r {
        DiagRequest::Account(a) => sub == "account"@ && address_at(pos, 0) == Some(a@),
        DiagRequest::Delegation(f, t) => sub == "delegation"@ && address_at(pos, 0) == Some(f@)
            && address_at(pos, 1) == Some(t@),
        DiagRequest::DynProp(k) => sub == "dynprop"@ && pos.len() > 0 && k@ == pos[0],
        DiagRequest::Storage(a, s) => sub == "storage"@ && address_at(pos, 0) == Some(a@)
            && slot_at(pos, 1) == Some(s@),
        DiagRequest::ContractState(a) => sub == "contractstate"@ && address_at(pos, 0) == Some(a@),
        DiagRequest::Reward(a) => sub == "reward"@ && address_at(pos, 0) == Some(a@),
    }
}

/// Whether the arguments suffice for a subcommand.
pub open spec fn suffices(sub: Seq<char>, pos: Seq<Seq<char>>) -> bool {
    if sub == "delegation"@ {
        address_at(pos, 0) is Some && address_at(pos, 1) is Some
    } else if sub == "dynprop"@ {
        pos.len() > 0
    } else if sub == "storage"@ {
        address_at(pos, 0) is Some && slot_at(pos, 1) is Some
    } else {
        address_at(pos, 0) is Some
    }
}

fn addr_at(pos: &Vec<String>, i: usize) -> (r: Option<[u8; 21]>)
    ensures
        (match r {
            Some(a) => Some(a@),
            None => None,
        }) == address_at(words(pos@), i as int),
{
    if i < pos.len() {
        assert(words(pos@)[i as int] == pos@[i as int]@);
        match parse_addr(pos[i].as_str()) {
            Ok(a) => Some(a),
            Err(_) => None,
        }
    } else {
        None
    }
}

fn parse_slot_at(pos: &Vec<String>, i: usize) -> (r: Option<[u8; 32]>)
    ensures
        (match r {
            Some(a) => Some(a@),
            None => None,
        }) == slot_at(words(pos@), i as int),
{
    if i < pos.len() {
        assert(words(pos@)[i as int] == pos@[i as int]@);
        match parse_slot(pos[i].as_str()) {
            Ok(a) => Some(a),
            Err(_) => None,
        }
    } else {
        None
    }
}

fn request(sub: &str, pos: &Vec<String>) -> (r: Result<DiagRequest, Option<&'static str>>)
    ensures
        match r {
            Ok(q) => asks_for(sub@, words(pos@), q) && usage_of(sub@) is Some && suffices(
                sub@,
                words(pos@),
            ),
            Err(Some(u)) => usage_of(sub@) == Some(u@) && !suffices(sub@, words(pos@)),
            Err(None) => usage_of(sub@) is None,
        },
{
    proof {
        reveal_strlit("account");
        reveal_strlit("delegation");
        reveal_strlit("dynprop");
        reveal_strlit("storage");
        reveal_strlit("contractstate");
        reveal_strlit("reward");
        assert("account"@[0] == 'a' && "delegation"@[0] == 'd' && "dynprop"@[0] == 'd'
            && "storage"@[0] == 's' && "contractstate"@[0] == 'c' && "reward"@[0] == 'r');
        assert("delegation"@[1] == 'e' && "dynprop"@[1] == 'y');
    }
    if str_eq(sub, "account") {
        match addr_at(pos, 0) {
            Some(a) => Ok(DiagRequest::Account(a)),
            None => Err(Some("account <hex-addr>")),
        }
    } else if str_eq(sub, "delegation") {
        match (addr_at(pos, 0), addr_at(pos, 1)) {
            (Some(f), Some(t)) => Ok(DiagRequest::Delegation(f, t)),
            _ => Err(Some("delegation <hex-from> <hex-to>")),
        }
    } else if str_eq(sub, "dynprop") {
        if pos.len() > 0 {
            assert(words(pos@)[0] == pos@[0]@);
            Ok(DiagRequest::DynProp(pos[0].clone()))
        } else {
            Err(Some("dynprop <key-string>"))
        }
    } else if str_eq(sub, "storage") {
        match (addr_at(pos, 0), parse_slot_at(pos, 1)) {
            (Some(a), Some(s)) => Ok(DiagRequest::Storage(a, s)),
            _ => Err(Some("storage <hex-addr> <hex-slot>")),
        }
    } else if str_eq(sub, "contractstate") {
        match addr_at(pos, 0) {
            Some(a) => Ok(DiagRequest::ContractState(a)),
            None => Err(Some("contractstate <hex-addr>")),
        }
    } else if str_eq(sub, "reward") {
        match addr_at(pos, 0) {
            Some(a) => Ok(DiagRequest::Reward(a)),
            None => Err(Some("reward <hex-addr>")),
        }
    } else {
        Err(None)
    }
}

/// Reads the arguments of `diag`: the subcommand, its arguments, and the data
/// directory.
pub fn run_diag(args: &Vec<String>) -> (r: DiagOutcome)
    ensures
        ({
            let w = words(args@);
            if w.len() == 0 {
                r is NoSubcommand
            } else {
                match split_args(w, 1, "./tron-data"@, Seq::empty()) {
                    Err(t) => r matches DiagOutcome::Refused(e) && e@ == t,
                    Ok((dir, pos)) => if usage_of(w[0]) is Some {
                        if suffices(w[0], pos) {
                            r matches DiagOutcome::Run { data_dir, request } && data_dir@ == dir
                                && asks_for(w[0], pos, request)
                        } else {
                            r matches DiagOutcome::Usage(u) && usage_of(w[0]) == Some(u@)
                        }
                    } else if w[0] == "--help"@ || w[0] == "-h"@ || w[0] == "help"@ {
                        r is Help
                    } else {
                        r matches DiagOutcome::Refused(e) && e@ == "diag: unknown subcommand '"@
                            + w[0] + "'"@
                    },
                }
            }
        }),
{
    if args.len() == 0 {
        return DiagOutcome::NoSubcommand;
    }
    let sub = args[0].as_str();
    assert(sub@ == words(args@)[0]);
    match split(args) {
        Err(e) => DiagOutcome::Refused(e),
        Ok((data_dir, pos)) => match request(sub, &pos) {
            Ok(request) => DiagOutcome::Run { data_dir, request },
            Err(Some(u)) => DiagOutcome::Usage(u),
            Err(None) => {
                if str_eq(sub, "--help") || str_eq(sub, "-h") || str_eq(sub, "help") {
                    DiagOutcome::Help
                } else {
                    let mut e = "diag: unknown subcommand '".to_owned();
                    e.append(sub);
                    e.append("'");
                    DiagOutcome::Refused(e)
                }
            },
        },
    }
}

/// A contract's effective energy multiplier, from its energy factor: whole part
/// and four decimals, both without a fraction below zero.
pub open spec fn multiplier(factor: int) -> Seq<char> {
    let total = 10_000 + factor;
    if total >= 0 {
        int_decimal(total / 10_000) + "."@ + pad_left(decimal((total % 10_000) as nat), 4, '0')
    } else {
        int_decimal(-(-total / 10_000)) + "."@ + pad_left(decimal(0), 4, '0')
    }
}

/// A contract's effective energy multiplier with four decimals.
pub fn multiplier_text(energy_factor: i64) -> (r: String)
    requires
        energy_factor <= i64::MAX - 10_000,
    ensures
        r@ == multiplier(energy_factor as int),
{
    let total: i64 = 10_000 + energy_factor;
    let mut s = String::new();
    let fraction: i64 = if total >= 0 {
        append_int(&mut s, total / 10_000);
        total % 10_000
    } else {
        append_int(&mut s, -((-total) / 10_000));
        0
    };
    s.append(".");
    let f = nat_string(fraction as u128);
    append_pad_left(&mut s, f.as_str(), 4, '0');
    assert(s@ =~= multiplier(energy_factor as int));
    s
}

/// The hexadecimal mark in front of a value may be left out.
pub proof fn the_hexadecimal_mark_is_optional(s: Seq<char>)
    requires
        s.len() < 2 || s[0] != '0' || s[1] != 'x',
    ensures
        without_0x(s) == s,
        without_0x(seq!['0', 'x'] + s) == s,
        address(seq!['0', 'x'] + s) == address(s),
        slot(seq!['0', 'x'] + s) == slot(s),
{
    assert((seq!['0', 'x'] + s).skip(2) =~= s);
}

/// An address is twenty-one bytes, neither more nor less; a slot is at most
/// thirty-two, filled up with zeros in front.
pub proof fn lengths_are_checked(s: Seq<char>, i: int)
    requires
        s.len() < 2 || s[0] != '0' || s[1] != 'x',
    ensures
        ({
            let b = vstd::utf8::encode_utf8(s);
            &&& is_hex(b) && hex_value(b).len() == 21 ==> address(s) == Ok::<
                Seq<u8>,
                Seq<char>,
            >(hex_value(b))
            &&& is_hex(b) && hex_value(b).len() != 21 ==> address(s) is Err
            &&& !is_hex(b) ==> address(s) is Err
            &&& is_hex(b) && b.len() % 2 == 0 && hex_value(b).len() <= 32 ==> slot(s) is Ok && {
                let v = slot(s)->Ok_0;
                &&& v.len() == 32
                &&& 0 <= i < 32 - hex_value(b).len() ==> v[i] == 0
                &&& v.skip(32 - hex_value(b).len()) == hex_value(b)
            }
            &&& is_hex(b) && b.len() % 2 == 0 && hex_value(b).len() > 32 ==> slot(s) is Err
        }),
{
    let b = vstd::utf8::encode_utf8(s);
    if is_hex(b) && b.len() % 2 == 0 && hex_value(b).len() <= 32 {
        let h = hex_value(b);
        assert(right_aligned(h).skip(32 - h.len()) =~= h);
    }
}

/// Arguments are taken in turn: the data directory wherever it stands, with the
/// last one counting, and everything else in its order.
pub proof fn arguments_are_taken_in_turn(
    args: Seq<Seq<char>>,
    i: int,
    dir: Seq<char>,
    pos: Seq<Seq<char>>,
)
    requires
        0 <= i < args.len(),
    ensures
        args[i] != "--data-dir"@ && args[i] != "-d"@ ==> split_args(args, i, dir, pos)
            == split_args(args, i + 1, dir, pos.push(args[i])),
        (args[i] == "--data-dir"@ || args[i] == "-d"@) && i + 1 < args.len() ==> split_args(
            args,
            i,
            dir,
            pos,
        ) == split_args(args, i + 2, args[i + 1], pos),
        (args[i] == "--data-dir"@ || args[i] == "-d"@) && i + 1 == args.len() ==> split_args(
            args,
            i,
            dir,
            pos,
        ) is Err,
        split_args(args, args.len() as int, dir, pos) == Ok::<
            (Seq<char>, Seq<Seq<char>>),
            Seq<char>,
        >((dir, pos)),
{
}

/// A factor of so many ten-thousandths is added to one.
pub proof fn factors_are_added_to_one(whole: int, part: int)
    requires
        whole >= 0,
        0 <= part < 10_000,
    ensures
        multiplier(whole * 10_000 + part) == int_decimal(whole + 1) + "."@ + pad_left(
            decimal(part as nat),
            4,
            '0',
        ),
{
    let total = 10_000 + (whole * 10_000 + part);
    assert(total / 10_000 == whole + 1);
    assert(total % 10_000 == part);
}

} // verus!
