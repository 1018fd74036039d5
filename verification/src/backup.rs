//! Witness high availability: the UDP keepalive election that lets only one of
//! several machines with the same witness key produce blocks.
//!
//! A node that is not a slaver broadcasts whether it is the master and its
//! priority. Hearing a configured member refreshes the liveness clock and may
//! demote the node; hearing none for six intervals promotes it.
//!
//! Wire format: `[0x05]` and then a message of two varint fields, `flag = 1`
//! and `priority = 2`, default values left out.

use vstd::prelude::*;
use vstd::string::*;

use crate::bytes::{copy_range, signed64, to_signed64};
use crate::config::NodeBackupConfig;
use crate::text::{append_nat, chars_of, decimal, str_eq};

verus! {

/// The datagram type of a keepalive.
pub const BACKUP_KEEP_ALIVE: u8 = 0x05;

/// Timeout, in keepalive intervals.
pub const TIMEOUT_INTERVALS: u64 = 6;

/// Where the node stands in the election.
#[derive(Debug, Clone, Copy, PartialEq, Eq, Structural)]
pub enum BackupStatus {
    Init,
    Slaver,
    Master,
}

// ---------------------------------------------------------------------------
// Wire format
// ---------------------------------------------------------------------------

/// `v` in groups of seven bits, lowest first, all but the last with the high
/// bit set.
pub open spec fn varint(v: nat) -> Seq<u8>
    decreases v,
{
    if v < 128 {
        seq![v as u8]
    } else {
        seq![(v % 128 + 128) as u8] + varint(v / 128)
    }
}

/// An `i32` sign-extended to 64 bits.
pub open spec fn sign_extended(p: i32) -> nat {
    if p < 0 {
        (0x1_0000_0000_0000_0000 + p) as nat
    } else {
        p as nat
    }
}

/// The message of a keepalive, without the type byte.
pub open spec fn keep_alive_message(flag: bool, priority: i32) -> Seq<u8> {
    (if flag {
        seq![0x08u8, 0x01u8]
    } else {
        Seq::empty()
    }) + (if priority != 0 {
        seq![0x10u8] + varint(sign_extended(priority))
    } else {
        Seq::empty()
    })
}

fn append_varint(out: &mut Vec<u8>, v: u64)
    ensures
        final(out)@ == old(out)@ + varint(v as nat),
    decreases v,
{
    if v < 128 {
        out.push(v as u8);
        assert(out@ =~= old(out)@ + varint(v as nat));
    } else {
        out.push((v % 128 + 128) as u8);
        append_varint(out, v / 128);
        assert(out@ =~= old(out)@ + varint(v as nat));
    }
}

/// Encodes a keepalive datagram.
pub fn encode_keep_alive(flag: bool, priority: i32) -> (r: Vec<u8>)
    ensures
        r@ == seq![BACKUP_KEEP_ALIVE] + keep_alive_message(flag, priority),
{
    let mut out: Vec<u8> = Vec::new();
    out.push(BACKUP_KEEP_ALIVE);
    if flag {
        out.push(0x08);
        out.push(0x01);
    }
    if priority != 0 {
        out.push(0x10);
        let v: u64 = if priority < 0 {
            u64::MAX - ((-1 - (priority as i64)) as u64)
        } else {
            priority as u64
        };
        append_varint(&mut out, v);
    }
    assert(out@ =~= seq![BACKUP_KEEP_ALIVE] + keep_alive_message(flag, priority));
    out
}

/// The varint at the front of `b`, modulo `2^64`, and how many bytes it takes.
/// None when the bytes end first or when it takes more than ten; `i` counts
/// the bytes already taken.
pub open spec fn read_varint(b: Seq<u8>, i: nat) -> Option<(nat, nat)>
    decreases b.len(),
{
    if i >= 10 || b.len() == 0 {
        None
    } else if b[0] < 128 {
        Some((b[0] as nat, 1))
    } else {
        match read_varint(b.skip(1), i + 1) {
            Some((v, n)) => Some(
                (((b[0] as nat % 128 + 128 * v) % 0x1_0000_0000_0000_0000) as nat, n + 1),
            ),
            None => None,
        }
    }
}

/// The fields of a message, in order, over the values read so far. A field of
/// another number is skipped.
pub open spec fn read_fields(b: Seq<u8>, flag: bool, priority: nat) -> Option<(bool, nat)>
    decreases b.len(),
{
    if b.len() == 0 {
        Some((flag, priority))
    } else {
        match read_varint(b.skip(1), 0) {
            Some((v, n)) => if n < b.len() {
                read_fields(
                    b.skip((1 + n) as int),
                    if b[0] / 8 == 1 {
                        v != 0
                    } else {
                        flag
                    },
                    if b[0] / 8 == 2 {
                        v
                    } else {
                        priority
                    },
                )
            } else {
                None
            },
            None => None,
        }
    }
}

/// The low 32 bits of `v` as a signed number.
pub open spec fn low_i32(v: nat) -> int {
    let m = v % 0x1_0000_0000;
    if m >= 0x8000_0000 {
        m - 0x1_0000_0000
    } else {
        m as int
    }
}

fn take_varint(buf: &[u8], pos: usize, i: u8) -> (r: Option<(u64, usize)>)
    requires
        pos <= buf@.len(),
        i <= 10,
    ensures
        match read_varint(buf@.skip(pos as int), i as nat) {
            Some((v, n)) => r == Some((v as u64, (pos + n) as usize)) && v <= u64::MAX && pos + n
                <= buf@.len() && n > 0,
            None => r is None,
        },
    decreases buf@.len() - pos,
{
    let ghost b = buf@.skip(pos as int);
    if i >= 10 || pos >= buf.len() {
        return None;
    }
    let byte: u8 = buf[pos];
    assert(b[0] == byte);
    if byte < 128 {
        return Some((byte as u64, pos + 1));
    }
    assert(b.skip(1) =~= buf@.skip(pos + 1));
    match take_varint(buf, pos + 1, i + 1) {
        Some((v, end)) => {
            let wide: u128 = (byte % 128) as u128 + 128u128 * (v as u128);
            Some(((wide % 0x1_0000_0000_0000_0000u128) as u64, end))
        },
        None => None,
    }
}

/// Tolerant decode of the datagram payload, after the type byte.
pub fn decode_keep_alive(buf: &[u8]) -> (r: Option<(bool, i32)>)
    ensures
        match read_fields(buf@, false, 0) {
            Some((flag, v)) => r matches Some((f, p)) && f == flag && p == low_i32(v),
            None => r is None,
        },
{
    let mut flag: bool = false;
    let mut priority: u64 = 0;
    let mut pos: usize = 0;
    assert(buf@.skip(0) =~= buf@);
    while pos < buf.len()
        invariant
            pos <= buf@.len(),
            read_fields(buf@.skip(pos as int), flag, priority as nat) == read_fields(
                buf@,
                false,
                0,
            ),
        decreases buf@.len() - pos,
    {
        let tag: u8 = buf[pos];
        let ghost b = buf@.skip(pos as int);
        assert(b[0] == tag);
        assert(b.skip(1) =~= buf@.skip(pos + 1));
        match take_varint(buf, pos + 1, 0) {
            Some((v, end)) => {
                assert(b.skip(end - pos) =~= buf@.skip(end as int));
                if tag / 8 == 1 {
                    flag = v != 0;
                } else if tag / 8 == 2 {
                    priority = v;
                }
                pos = end;
            },
            None => {
                return None;
            },
        }
    }
    assert(buf@.skip(pos as int).len() == 0);
    let m: i64 = (priority % 0x1_0000_0000) as i64;
    let p: i32 = if m >= 0x8000_0000 {
        (m - 0x1_0000_0000) as i32
    } else {
        m as i32
    };
    Some((flag, p))
}

/// How many bytes a varint takes at most.
proof fn lemma_varint_len(v: nat, k: nat)
    requires
        k >= 1,
        v < pow128(k),
    ensures
        1 <= varint(v).len() <= k,
    decreases k,
{
    if v >= 128 {
        assert(k >= 2) by {
            reveal_with_fuel(pow128, 2);
        }
        assert(v / 128 < pow128((k - 1) as nat)) by {
            assert(pow128(k) == 128 * pow128((k - 1) as nat));
        }
        lemma_varint_len(v / 128, (k - 1) as nat);
    }
}

spec fn pow128(n: nat) -> nat
    decreases n,
{
    if n == 0 {
        1
    } else {
        128 * pow128((n - 1) as nat)
    }
}

/// Reading back a varint that was written.
proof fn lemma_read_varint(v: nat, rest: Seq<u8>, i: nat)
    requires
        v <= u64::MAX,
        i + varint(v).len() <= 10,
    ensures
        read_varint(varint(v) + rest, i) == Some((v, varint(v).len())),
    decreases v,
{
    let b = varint(v) + rest;
    if v >= 128 {
        assert(varint(v).len() == 1 + varint(v / 128).len());
        lemma_read_varint(v / 128, rest, i + 1);
        assert(b.skip(1) =~= varint(v / 128) + rest);
        assert(b[0] == (v % 128 + 128) as u8);
        assert(b[0] as nat % 128 == v % 128);
    } else {
        assert(b[0] == v as u8);
    }
}

/// Reading back the priority field.
proof fn lemma_read_priority(flag: bool, priority: i32)
    requires
        priority != 0,
    ensures
        read_fields(seq![0x10u8] + varint(sign_extended(priority)), flag, 0) == Some(
            (flag, sign_extended(priority)),
        ),
{
    let v = sign_extended(priority);
    let p = seq![0x10u8] + varint(v);
    assert(v < pow128(10)) by {
        reveal_with_fuel(pow128, 11);
    }
    lemma_varint_len(v, 10);
    lemma_read_varint(v, Seq::empty(), 0);
    assert(p.skip(1) =~= varint(v) + Seq::<u8>::empty());
    assert(p[0] == 0x10u8);
    let rest = p.skip((1 + varint(v).len()) as int);
    assert(rest =~= Seq::<u8>::empty());
    assert(read_fields(rest, flag, v) == Some((flag, v)));
    assert(read_fields(p, flag, 0) == read_fields(rest, flag, v));
}

/// What is broadcast is what is heard: every flag and every priority survive
/// the wire.
pub proof fn keep_alive_survives_the_wire(flag: bool, priority: i32)
    ensures
        read_fields(keep_alive_message(flag, priority), false, 0) == Some(
            (flag, sign_extended(priority)),
        ),
        low_i32(sign_extended(priority)) == priority,
{
    let v = sign_extended(priority);
    let p = if priority != 0 {
        seq![0x10u8] + varint(v)
    } else {
        Seq::empty()
    };
    if priority != 0 {
        lemma_read_priority(flag, priority);
    }
    assert(read_fields(p, flag, 0) == Some((flag, v)));
    let m = keep_alive_message(flag, priority);
    if flag {
        assert(m[0] == 0x08u8 && m[1] == 0x01u8);
        let t = m.skip(1);
        assert(t[0] == 1u8);
        assert(read_varint(t, 0) == Some((1nat, 1nat)));
        assert(m.skip(2) =~= p);
        assert(read_fields(m, false, 0) == read_fields(p, true, 0));
    } else {
        assert(m =~= p);
    }
}

// ---------------------------------------------------------------------------
// Election
// ---------------------------------------------------------------------------

/// Whether `a` comes before `b`, character by character.
pub open spec fn comes_before(a: Seq<char>, b: Seq<char>) -> bool
    decreases a.len(),
{
    if b.len() == 0 {
        false
    } else if a.len() == 0 {
        true
    } else if a[0] != b[0] {
        a[0] < b[0]
    } else {
        comes_before(a.skip(1), b.skip(1))
    }
}

fn ip_before(a: &Vec<char>, b: &Vec<char>, i: usize) -> (r: bool)
    requires
        i <= a@.len(),
        i <= b@.len(),
    ensures
        r == comes_before(a@.skip(i as int), b@.skip(i as int)),
    decreases a@.len() - i,
{
    let ghost x = a@.skip(i as int);
    let ghost y = b@.skip(i as int);
    if i >= b.len() {
        return false;
    }
    if i >= a.len() {
        return true;
    }
    assert(x[0] == a@[i as int] && y[0] == b@[i as int]);
    let c: char = a[i];
    let d: char = b[i];
    if c != d {
        return c < d;
    }
    assert(x.skip(1) =~= a@.skip(i + 1));
    assert(y.skip(1) =~= b@.skip(i + 1));
    ip_before(a, b, i + 1)
}

/// The moving part of the election.
pub struct ElectionView {
    pub status: BackupStatus,
    pub last_keep_alive: int,
}

/// The liveness check of one tick.
pub open spec fn tick_step(s: ElectionView, timeout: int, now: int) -> ElectionView {
    if s.status == BackupStatus::Master || now - s.last_keep_alive <= timeout {
        s
    } else if s.status == BackupStatus::Slaver {
        ElectionView { status: BackupStatus::Init, last_keep_alive: now }
    } else {
        ElectionView { status: BackupStatus::Master, ..s }
    }
}

/// What a master or an initial node does on hearing a member.
pub open spec fn demoted(
    status: BackupStatus,
    priority: i32,
    local_ip: Seq<char>,
    peer_flag: bool,
    peer_priority: i32,
    peer_ip: Seq<char>,
) -> bool {
    ||| status == BackupStatus::Init && (peer_flag || peer_priority > priority)
    ||| status == BackupStatus::Master && peer_flag && (peer_priority > priority || (peer_priority
        == priority && comes_before(local_ip, peer_ip)))
}

/// The effect of hearing a decoded keepalive of a member.
pub open spec fn hear_step(
    s: ElectionView,
    priority: i32,
    local_ip: Seq<char>,
    peer_flag: bool,
    peer_priority: i32,
    peer_ip: Seq<char>,
    now: int,
) -> ElectionView {
    ElectionView {
        status: if demoted(s.status, priority, local_ip, peer_flag, peer_priority, peer_ip) {
            BackupStatus::Slaver
        } else {
            s.status
        },
        last_keep_alive: now,
    }
}

proof fn lemma_order_is_strict(a: Seq<char>, b: Seq<char>)
    ensures
        !(comes_before(a, b) && comes_before(b, a)),
        a != b ==> comes_before(a, b) || comes_before(b, a),
        !comes_before(a, a),
    decreases a.len(),
{
    if a.len() == 0 {
        if b.len() == 0 {
            assert(a =~= b);
        }
    } else if b.len() > 0 {
        let x = a.skip(1);
        let y = b.skip(1);
        lemma_order_is_strict(x, y);
        if a[0] == b[0] {
            if x == y {
                assert(a =~= seq![a[0]] + x);
                assert(b =~= seq![b[0]] + y);
            }
        }
    }
    lemma_order_is_irreflexive(a);
}

proof fn lemma_order_is_irreflexive(a: Seq<char>)
    ensures
        !comes_before(a, a),
    decreases a.len(),
{
    if a.len() > 0 {
        lemma_order_is_irreflexive(a.skip(1));
    }
}

/// Two masters that hear each other settle: where their priorities or their
/// addresses differ, exactly one of them yields.
pub proof fn one_of_two_masters_yields(p1: i32, ip1: Seq<char>, p2: i32, ip2: Seq<char>)
    requires
        p1 != p2 || ip1 != ip2,
    ensures
        demoted(BackupStatus::Master, p1, ip1, true, p2, ip2) != demoted(
            BackupStatus::Master,
            p2,
            ip2,
            true,
            p1,
            ip1,
        ),
{
    lemma_order_is_strict(ip1, ip2);
}

/// A node that hears nobody becomes master: a starved initial node on the
/// first tick past the timeout, a starved slaver one timeout later.
pub proof fn starved_node_becomes_master(s: ElectionView, timeout: int, t1: int, t2: int)
    requires
        timeout >= 0,
        t1 - s.last_keep_alive > timeout,
        t2 - t1 > timeout,
    ensures
        s.status != BackupStatus::Slaver ==> tick_step(s, timeout, t1).status
            == BackupStatus::Master,
        tick_step(tick_step(s, timeout, t1), timeout, t2).status == BackupStatus::Master,
{
}

/// The election state of one node.
pub struct Election {
    priority: i32,
    timeout_ms: i64,
    local_ip: String,
    members: Vec<String>,
    status: BackupStatus,
    last_keep_alive: i64,
}

/// A reading of the election state.
#[derive(Clone, Copy, Debug)]
pub struct BackupHandle {
    pub status: BackupStatus,
}

impl BackupHandle {
    /// Whether the node may produce blocks.
    pub fn is_master(&self) -> (r: bool)
        ensures
            r == (self.status == BackupStatus::Master),
    {
        self.status == BackupStatus::Master
    }

    /// Human-readable status for logs.
    pub fn status_name(&self) -> (r: &'static str)
        ensures
            r@ == (match self.status {
                BackupStatus::Slaver => "SLAVER"@,
                BackupStatus::Master => "MASTER"@,
                BackupStatus::Init => "INIT"@,
            }),
    {
        match self.status {
            BackupStatus::Slaver => "SLAVER",
            BackupStatus::Master => "MASTER",
            BackupStatus::Init => "INIT",
        }
    }
}

/// What became of a received datagram.
#[derive(Debug, Clone, Copy, PartialEq, Eq, Structural)]
pub enum Heard {
    /// Not a keepalive, or not decodable.
    Ignored,
    /// A keepalive from an address that is not a configured member.
    NonMember,
    /// The liveness clock was refreshed.
    Refreshed,
    /// The node became a slaver.
    Demoted,
}

/// The interval between keepalives.
pub open spec fn interval_of(cfg: NodeBackupConfig) -> int {
    if cfg.keep_alive_interval < 500 {
        500
    } else {
        cfg.keep_alive_interval as int
    }
}

/// The interval between keepalives: the configured one, at least half a second.
pub fn interval_ms(cfg: &NodeBackupConfig) -> (r: u64)
    ensures
        r == interval_of(*cfg),
{
    if cfg.keep_alive_interval < 500 {
        500
    } else {
        cfg.keep_alive_interval
    }
}

/// The address of a member: its own port where it names one, else `port`.
pub open spec fn member_address(member: Seq<char>, port: u16) -> Seq<char> {
    if member.contains(':') {
        member
    } else {
        member.push(':') + decimal(port as nat)
    }
}

/// The address to resolve for a configured member.
pub fn member_endpoint(member: &str, port: u16) -> (r: String)
    ensures
        r@ == member_address(member@, port),
{
    let n: usize = member.unicode_len();
    let mut found = false;
    let mut i: usize = 0;
    while i < n
        invariant
            i <= n,
            n == member@.len(),
            found == member@.take(i as int).contains(':'),
        decreases n - i,
    {
        let c = member.get_char(i);
        let ghost before = member@.take(i as int);
        let ghost after = member@.take(i + 1);
        proof {
            assert(after =~= before.push(c));
            if before.contains(':') {
                let j = choose|j: int| 0 <= j < before.len() && before[j] == ':';
                assert(after[j] == ':');
            }
            if c == ':' {
                assert(after[i as int] == ':');
            }
            if after.contains(':') && c != ':' {
                let j = choose|j: int| 0 <= j < after.len() && after[j] == ':';
                assert(before[j] == ':');
            }
        }
        if c == ':' {
            found = true;
        }
        i = i + 1;
    }
    assert(member@.take(n as int) =~= member@);
    let mut out = member.to_owned();
    if !found {
        out.push(':');
        append_nat(&mut out, port as u128);
    }
    out
}

impl Election {
    /// The moving part.
    pub closed spec fn state(&self) -> ElectionView {
        ElectionView { status: self.status, last_keep_alive: self.last_keep_alive as int }
    }

    /// The configured priority.
    pub closed spec fn priority(&self) -> i32 {
        self.priority
    }

    /// The liveness timeout in milliseconds.
    pub closed spec fn timeout(&self) -> int {
        self.timeout_ms as int
    }

    /// The address used for the tie-break.
    pub closed spec fn local_ip(&self) -> Seq<char> {
        self.local_ip@
    }

    /// The addresses of the configured members.
    pub closed spec fn members(&self) -> Seq<Seq<char>> {
        self.members@.map_values(|s: String| s@)
    }

    /// Whether the machine can tell how long a node that is not the master
    /// heard nothing.
    pub open spec fn can_tick(&self, now: int) -> bool {
        self.state().status != BackupStatus::Master ==> i64::MIN <= now
            - self.state().last_keep_alive <= i64::MAX
    }

    /// The parts that an event leaves alone.
    pub open spec fn same_setup(&self, other: &Election) -> bool {
        &&& self.priority() == other.priority()
        &&& self.timeout() == other.timeout()
        &&& self.local_ip() == other.local_ip()
        &&& self.members() == other.members()
    }

    /// A reading of the state.
    pub fn handle(&self) -> (r: BackupHandle)
        ensures
            r.status == self.state().status,
    {
        BackupHandle { status: self.status }
    }

    /// One scheduled tick: the liveness check, then the datagram to broadcast.
    /// Slavers stay silent.
    pub fn tick(&mut self, now_ms: i64) -> (r: Option<Vec<u8>>)
        requires
            old(self).can_tick(now_ms as int),
        ensures
            final(self).same_setup(old(self)),
            final(self).state() == tick_step(old(self).state(), old(self).timeout(), now_ms as int),
            match r {
                Some(d) => {
                    &&& final(self).state().status != BackupStatus::Slaver
                    &&& d@ == seq![BACKUP_KEEP_ALIVE] + keep_alive_message(
                        final(self).state().status == BackupStatus::Master,
                        old(self).priority(),
                    )
                },
                None => final(self).state().status == BackupStatus::Slaver,
            },
    {
        if self.status != BackupStatus::Master && now_ms - self.last_keep_alive > self.timeout_ms {
            if self.status == BackupStatus::Slaver {
                self.status = BackupStatus::Init;
                self.last_keep_alive = now_ms;
            } else {
                self.status = BackupStatus::Master;
            }
        }
        if self.status == BackupStatus::Slaver {
            return None;
        }
        Some(encode_keep_alive(self.status == BackupStatus::Master, self.priority))
    }

    fn is_member(&self, ip: &str) -> (r: bool)
        ensures
            r == self.members().contains(ip@),
    {
        let mut i: usize = 0;
        while i < self.members.len()
            invariant
                i <= self.members@.len(),
                forall|j: int| 0 <= j < i ==> (#[trigger] self.members@[j])@ != ip@,
            decreases self.members@.len() - i,
        {
            if str_eq(self.members[i].as_str(), ip) {
                assert(self.members()[i as int] == ip@);
                return true;
            }
            i = i + 1;
        }
        proof {
            if self.members().contains(ip@) {
                let j = choose|j: int|
                    0 <= j < self.members().len() && self.members()[j] == ip@;
                assert(self.members@[j]@ == ip@);
            }
        }
        false
    }

    /// One received datagram from `sender_ip`.
    pub fn receive(&mut self, now_ms: i64, sender_ip: &str, datagram: &[u8]) -> (r: Heard)
        ensures
            final(self).same_setup(old(self)),
            ({
                let keep_alive = datagram@.len() >= 1 && datagram@[0] == BACKUP_KEEP_ALIVE;
                let member = old(self).members().contains(sender_ip@);
                let fields = read_fields(datagram@.skip(1), false, 0);
                let got = fields->Some_0;
                let next = hear_step(
                    old(self).state(),
                    old(self).priority(),
                    old(self).local_ip(),
                    got.0,
                    low_i32(got.1) as i32,
                    sender_ip@,
                    now_ms as int,
                );
                if !keep_alive {
                    r == Heard::Ignored && final(self).state() == old(self).state()
                } else if !member {
                    r == Heard::NonMember && final(self).state() == old(self).state()
                } else if fields is None {
                    r == Heard::Ignored && final(self).state() == old(self).state()
                } else {
                    &&& final(self).state() == next
                    &&& r == (if next.status != old(self).state().status {
                        Heard::Demoted
                    } else {
                        Heard::Refreshed
                    })
                }
            }),
    {
        if datagram.len() < 1 || datagram[0] != BACKUP_KEEP_ALIVE {
            return Heard::Ignored;
        }
        if !self.is_member(sender_ip) {
            return Heard::NonMember;
        }
        let payload = copy_range(datagram, 1, datagram.len());
        assert(payload@ =~= datagram@.skip(1));
        match decode_keep_alive(payload.as_slice()) {
            None => Heard::Ignored,
            Some((peer_flag, peer_priority)) => {
                self.last_keep_alive = now_ms;
                let yields = match self.status {
                    BackupStatus::Init => peer_flag || peer_priority > self.priority,
                    BackupStatus::Slaver => false,
                    BackupStatus::Master => {
                        if !peer_flag {
                            false
                        } else if peer_priority > self.priority {
                            true
                        } else if peer_priority == self.priority {
                            let a = chars_of(self.local_ip.as_str());
                            let b = chars_of(sender_ip);
                            assert(a@.skip(0) =~= a@ && b@.skip(0) =~= b@);
                            ip_before(&a, &b, 0)
                        } else {
                            false
                        }
                    },
                };
                if yields {
                    self.status = BackupStatus::Slaver;
                    Heard::Demoted
                } else {
                    Heard::Refreshed
                }
            },
        }
    }
}

/// Starts an election in the initial state. `members` are the addresses that
/// the configured members resolved to.
pub fn start(cfg: &NodeBackupConfig, members: Vec<String>, local_ip: String, now_ms: i64) -> (r:
    Election)
    requires
        6 * interval_of(*cfg) <= u64::MAX,
    ensures
        r.state() == (ElectionView { status: BackupStatus::Init, last_keep_alive: now_ms as int }),
        r.priority() == cfg.priority,
        r.timeout() == signed64((6 * interval_of(*cfg)) as nat),
        r.local_ip() == local_ip@,
        r.members() == members@.map_values(|s: String| s@),
{
    let timeout: u64 = interval_ms(cfg) * TIMEOUT_INTERVALS;
    Election {
        priority: cfg.priority,
        timeout_ms: to_signed64(timeout),
        local_ip,
        members,
        status: BackupStatus::Init,
        last_keep_alive: now_ms,
    }
}

/// The order of two addresses is decided by the first character in which they
/// differ; one that merely breaks off comes first.
pub proof fn addresses_are_ordered_by_the_first_difference(
    common: Seq<char>,
    a: Seq<char>,
    b: Seq<char>,
)
    requires
        a.len() == 0 || b.len() == 0 || a[0] != b[0],
    ensures
        comes_before(common + a, common + b) == (b.len() > 0 && (a.len() == 0 || a[0] < b[0])),
    decreases common.len(),
{
    if common.len() == 0 {
        assert(common + a =~= a);
        assert(common + b =~= b);
    } else {
        let rest = common.skip(1);
        addresses_are_ordered_by_the_first_difference(rest, a, b);
        assert((common + a).skip(1) =~= rest + a);
        assert((common + b).skip(1) =~= rest + b);
    }
}

/// Who yields to whom: a master yields to a master of a higher priority, and at
/// the same priority the one whose address comes first yields; an initial node
/// yields to any master and to any higher priority; a slaver stays one. A
/// master never yields to a node that is none, nor to a lower priority.
pub proof fn the_stronger_member_wins(
    s: ElectionView,
    priority: i32,
    local_ip: Seq<char>,
    peer_flag: bool,
    peer_priority: i32,
    peer_ip: Seq<char>,
    now: int,
)
    ensures
        ({
            let next = hear_step(s, priority, local_ip, peer_flag, peer_priority, peer_ip, now);
            &&& next.last_keep_alive == now
            &&& s.status == BackupStatus::Slaver ==> next.status == BackupStatus::Slaver
            &&& s.status == BackupStatus::Init && (peer_flag || peer_priority > priority)
                ==> next.status == BackupStatus::Slaver
            &&& s.status == BackupStatus::Init && !peer_flag && peer_priority <= priority
                ==> next.status == BackupStatus::Init
            &&& s.status == BackupStatus::Master && !peer_flag ==> next.status
                == BackupStatus::Master
            &&& s.status == BackupStatus::Master && peer_priority < priority ==> next.status
                == BackupStatus::Master
            &&& s.status == BackupStatus::Master && peer_flag && peer_priority > priority
                ==> next.status == BackupStatus::Slaver
            &&& s.status == BackupStatus::Master && peer_flag && peer_priority == priority ==> (
            next.status == BackupStatus::Slaver <==> comes_before(local_ip, peer_ip))
            &&& s.status == BackupStatus::Master ==> next.status != BackupStatus::Init
        }),
{
}

/// A tick changes nothing before the timeout has passed, and a master ticks on
/// unchanged; past it a slaver starts over with a fresh clock, and an initial
/// node becomes the master.
pub proof fn ticks_wait_for_the_timeout(s: ElectionView, timeout: int, now: int)
    ensures
        now <= s.last_keep_alive + timeout ==> tick_step(s, timeout, now) == s,
        s.status == BackupStatus::Master ==> tick_step(s, timeout, now) == s,
        now > s.last_keep_alive + timeout && s.status == BackupStatus::Slaver ==> tick_step(
            s,
            timeout,
            now,
        ).status == BackupStatus::Init && tick_step(s, timeout, now).last_keep_alive == now,
        now > s.last_keep_alive + timeout && s.status == BackupStatus::Init ==> tick_step(
            s,
            timeout,
            now,
        ).status == BackupStatus::Master && tick_step(s, timeout, now).last_keep_alive
            == s.last_keep_alive,
{
}

/// The bytes of a keepalive: the flag field only for a master, the priority
/// field only where it is not zero, in this order, and the sign of a negative
/// priority spread over 64 bits.
pub proof fn keep_alive_bytes(flag: bool, priority: i32)
    ensures
        flag ==> keep_alive_message(flag, priority).take(2) == seq![8u8, 1u8],
        flag && priority == 0 ==> keep_alive_message(flag, priority) == seq![8u8, 1u8],
        !flag && priority == 0 ==> keep_alive_message(flag, priority) == Seq::<u8>::empty(),
        !flag && 0 < priority < 128 ==> keep_alive_message(flag, priority) == seq![
            16u8,
            priority as u8,
        ],
        flag && 0 < priority < 128 ==> keep_alive_message(flag, priority) == seq![
            8u8,
            1u8,
            16u8,
            priority as u8,
        ],
        priority >= 0 ==> sign_extended(priority) == priority,
        priority < 0 ==> sign_extended(priority) == 0x1_0000_0000_0000_0000 + priority,
{
    let m = keep_alive_message(flag, priority);
    if flag {
        assert(m.take(2) =~= seq![8u8, 1u8]);
    }
    if 0 < priority < 128 {
        assert(varint(priority as nat) == seq![priority as u8]);
        if flag {
            assert(m =~= seq![8u8, 1u8, 16u8, priority as u8]);
        } else {
            assert(m =~= seq![16u8, priority as u8]);
        }
    }
}

/// Keepalives go out at the configured pace, but never more often than twice a
/// second.
pub proof fn keepalives_are_not_too_frequent(cfg: NodeBackupConfig)
    ensures
        cfg.keep_alive_interval >= 500 ==> interval_of(cfg) == cfg.keep_alive_interval,
        cfg.keep_alive_interval < 500 ==> interval_of(cfg) == 500,
        TIMEOUT_INTERVALS == 6,
{
}

/// A field of a message that is not known is skipped, and of a field that
/// stands twice the later value counts.
pub proof fn later_fields_override(flag: bool, priority: nat, tag: u8, value: u8, rest: Seq<u8>)
    requires
        value < 128,
    ensures
        ({
            let b = seq![tag, value] + rest;
            &&& tag / 8 == 1 ==> read_fields(b, flag, priority) == read_fields(
                rest,
                value != 0,
                priority,
            )
            &&& tag / 8 == 2 ==> read_fields(b, flag, priority) == read_fields(
                rest,
                flag,
                value as nat,
            )
            &&& tag / 8 != 1 && tag / 8 != 2 ==> read_fields(b, flag, priority) == read_fields(
                rest,
                flag,
                priority,
            )
        }),
        read_fields(Seq::empty(), flag, priority) == Some((flag, priority)),
{
    let b = seq![tag, value] + rest;
    assert(b[0] == tag);
    let t = b.skip(1);
    assert(t[0] == value);
    assert(read_varint(t, 0) == Some((value as nat, 1nat)));
    assert(b.skip(2) =~= rest);
}

/// A member without a port of its own gets the common one.
pub proof fn members_get_a_port(member: Seq<char>, port: u16)
    ensures
        member.contains(':') ==> member_address(member, port) == member,
        !member.contains(':') ==> member_address(member, port) == member + seq![':'] + decimal(
            port as nat,
        ),
{
    assert(member.push(':') + decimal(port as nat) =~= member + seq![':'] + decimal(port as nat));
}

/// What is heard: only a keepalive of a member counts, and then the clock is
/// refreshed; anything else leaves the election as it was.
pub proof fn only_members_are_heard(
    e: &mut Election,
    now: i64,
    sender: &str,
    datagram: &[u8],
    r: Heard,
)
    requires
        call_ensures(Election::receive, (e, now, sender, datagram), r),
    ensures
        datagram@.len() == 0 || datagram@[0] != 5 ==> r == Heard::Ignored && final(e).state()
            == old(e).state(),
        datagram@.len() > 0 && datagram@[0] == 5 && !old(e).members().contains(sender@) ==> r
            == Heard::NonMember && final(e).state() == old(e).state(),
        r == Heard::Refreshed ==> final(e).state().last_keep_alive == now && final(e).state().status == old(e).state().status,
        r == Heard::Demoted ==> final(e).state().last_keep_alive == now && final(e).state().status
            == BackupStatus::Slaver && old(e).state().status != BackupStatus::Slaver,
        final(e).members() == old(e).members(),
        final(e).priority() == old(e).priority(),
        final(e).timeout() == old(e).timeout(),
        final(e).local_ip() == old(e).local_ip(),
{
}

/// Who broadcasts: every node that is not a slaver after the tick, with the flag
/// of a master set for a master only.
pub proof fn slavers_stay_silent(e: &mut Election, now: i64, r: Option<Vec<u8>>)
    requires
        old(e).can_tick(now as int),
        call_ensures(Election::tick, (e, now), r),
    ensures
        r is None <==> final(e).state().status == BackupStatus::Slaver,
        r is Some ==> (r->Some_0)@.len() > 0 && (r->Some_0)@[0] == 5,
        r is Some && final(e).state().status == BackupStatus::Master ==> (r->Some_0)@.len() >= 3
            && (r->Some_0)@[1] == 8 && (r->Some_0)@[2] == 1,
        r is Some && final(e).state().status == BackupStatus::Init && old(e).priority() == 0 ==> (
        r->Some_0)@.len() == 1,
{
}

/// An election starts undecided, with the configured priority and a timeout of
/// six intervals.
pub proof fn elections_start_undecided(
    cfg: NodeBackupConfig,
    members: Vec<String>,
    ip: String,
    now: i64,
    r: Election,
)
    requires
        6 * interval_of(cfg) <= i64::MAX,
        call_ensures(start, (&cfg, members, ip, now), r),
    ensures
        r.state().status == BackupStatus::Init,
        r.state().last_keep_alive == now,
        r.priority() == cfg.priority,
        cfg.keep_alive_interval >= 500 ==> r.timeout() == 6 * cfg.keep_alive_interval,
        cfg.keep_alive_interval < 500 ==> r.timeout() == 3_000,
        r.local_ip() == ip@,
        r.members().len() == members@.len(),
{
}

} // verus!
