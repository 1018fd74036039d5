//! The live mempool dashboard: pending transactions decoded, classified and
//! folded into session statistics, and the frame that shows them.

use std::collections::VecDeque;

use vstd::prelude::*;
use vstd::string::*;

use crate::binary64::{divide, double_of, of_nat, quotient, Double};
use crate::bytes::{copy_all, copy_range, signed64, to_signed64};
use crate::chain::TxContract;
use crate::explore::{first, last, positive, span, span_seconds};
use crate::key_counts::{bumped, bumping_adds_one, ranked, sum, KeyCounts};
use crate::logfmt::grouped_int;
use crate::panel::{
    append_fixed1, bar_text, blank, cell_text, commas, compact, compact_text, dur, dur_text,
    fixed1, seconds_of, whole_seconds, human_trx, is_usdt, line, line_text, mix_bar, padding,
    parts_view, row2, row_text, rule, rule_text, section, section_text, sparkline, sparkline_text,
    token_amount, total, trx_text, usd, usd_text, usdt_amount, visible, BOLD, CYN, DIM, GRN, GRY,
    MAG, ORG, RED, RST, USDT_ADDRESS_HEX, YEL,
};
use crate::text::{
    append_int, append_nat, append_pad_left, decimal, hex_encode, hex_text, int_decimal,
    nat_string, pad_left, str_eq,
};

verus! {

/// Pending transactions kept for the feed.
pub const FEED_CAP: usize = 12;

/// Trailing window of the arrival rate.
pub const TPS_WINDOW_MS: i64 = 10_000;

/// A USDT transfer of at least this many dollars is a whale.
pub const WHALE_USD: u128 = 100_000;

/// A transfer or a call that moves at least this many TRX is a whale.
pub const WHALE_TRX: u128 = 1_000_000;

/// How a pending transaction classifies.
#[derive(Debug, Clone, Copy, PartialEq, Eq, Structural)]
pub enum TxKind {
    /// A native transfer.
    Trx,
    /// A call of the USDT contract.
    Usdt,
    /// Any other contract call.
    Call,
    /// A token transfer.
    Token,
    /// Everything else.
    Other,
}

impl TxKind {
    /// Short tag for the feed line.
    pub open spec fn tag_text(self) -> Seq<char> {
        match self {
            TxKind::Trx => "TRX"@,
            TxKind::Usdt => "USDT"@,
            TxKind::Call => "CALL"@,
            TxKind::Token => "TKN"@,
            TxKind::Other => "···"@,
        }
    }

    /// Colour of the tag.
    pub open spec fn color_text(self) -> Seq<char> {
        match self {
            TxKind::Trx => CYN@,
            TxKind::Usdt => GRN@,
            TxKind::Call => MAG@,
            TxKind::Token => YEL@,
            TxKind::Other => GRY@,
        }
    }

    /// Short tag for the feed line.
    pub fn tag(self) -> (r: &'static str)
        ensures
            r@ == self.tag_text(),
    {
        match self {
            TxKind::Trx => "TRX",
            TxKind::Usdt => "USDT",
            TxKind::Call => "CALL",
            TxKind::Token => "TKN",
            TxKind::Other => "···",
        }
    }

    /// Colour of the tag.
    pub fn color(self) -> (r: &'static str)
        ensures
            r@ == self.color_text(),
    {
        match self {
            TxKind::Trx => CYN,
            TxKind::Usdt => GRN,
            TxKind::Call => MAG,
            TxKind::Token => YEL,
            TxKind::Other => GRY,
        }
    }
}

/// A pending transaction decoded down to what the dashboard and the feed show.
#[derive(Debug, Clone)]
pub struct TxSummary {
    pub kind: TxKind,
    /// Recipient or called contract.
    pub to: Option<Vec<u8>>,
    /// Native value moved, in sun.
    pub amount_sun: u128,
    /// USDT moved, in base units, for a recognised call.
    pub usdt_units: Option<u128>,
    /// Called contract.
    pub contract: Option<Vec<u8>>,
    /// Method name of a call.
    pub method: Option<String>,
    /// Selector of a call.
    pub selector: Option<[u8; 4]>,
}

/// [`TxSummary`] as plain values.
pub struct SummaryView {
    pub kind: TxKind,
    pub to: Option<Seq<u8>>,
    pub amount_sun: nat,
    pub usdt_units: Option<nat>,
    pub contract: Option<Seq<u8>>,
    pub method: Option<Seq<char>>,
    pub selector: Option<Seq<u8>>,
}

/// An optional byte string as a plain value.
pub open spec fn opt_bytes(v: Option<Vec<u8>>) -> Option<Seq<u8>> {
    match v {
        Some(b) => Some(b@),
        None => None,
    }
}

impl View for TxSummary {
    type V = SummaryView;

    open spec fn view(&self) -> SummaryView {
        SummaryView {
            kind: self.kind,
            to: opt_bytes(self.to),
            amount_sun: self.amount_sun as nat,
            usdt_units: match self.usdt_units {
                Some(u) => Some(u as nat),
                None => None,
            },
            contract: opt_bytes(self.contract),
            method: match self.method {
                Some(m) => Some(m@),
                None => None,
            },
            selector: match self.selector {
                Some(s) => Some(s@),
                None => None,
            },
        }
    }
}

/// Whether a selector is one of the router's `swap` methods.
pub open spec fn is_swap(sel: Seq<u8>) -> bool {
    ||| sel == seq![0x38u8, 0xed, 0x17, 0x39]
    ||| sel == seq![0x18u8, 0xcb, 0xaf, 0xe5]
    ||| sel == seq![0x7fu8, 0xf3, 0x6a, 0xb5]
    ||| sel == seq![0xfbu8, 0x3b, 0xdb, 0x41]
}

/// The name of a method by its selector, its hexadecimal form where it is not
/// known.
pub open spec fn method_text(sel: Seq<u8>) -> Seq<char> {
    if sel == seq![0xa9u8, 0x05, 0x9c, 0xbb] {
        "transfer"@
    } else if sel == seq![0x23u8, 0xb8, 0x72, 0xdd] {
        "transferFrom"@
    } else if is_swap(sel) {
        "swap"@
    } else {
        "0x"@ + hex_text(sel)
    }
}

fn same4(sel: &[u8; 4], a: u8, b: u8, c: u8, d: u8) -> (r: bool)
    ensures
        r == (sel@ == seq![a, b, c, d]),
{
    let r = sel[0] == a && sel[1] == b && sel[2] == c && sel[3] == d;
    proof {
        let t = seq![a, b, c, d];
        assert(t[0] == a && t[1] == b && t[2] == c && t[3] == d);
        if r {
            assert(sel@ =~= t);
        }
    }
    r
}

/// Whether a selector is one of the router's `swap` methods.
pub fn swaps(sel: &[u8; 4]) -> (r: bool)
    ensures
        r == is_swap(sel@),
{
    same4(sel, 0x38, 0xed, 0x17, 0x39) || same4(sel, 0x18, 0xcb, 0xaf, 0xe5) || same4(
        sel,
        0x7f,
        0xf3,
        0x6a,
        0xb5,
    ) || same4(sel, 0xfb, 0x3b, 0xdb, 0x41)
}

/// The name of a method by its selector.
pub fn method_name(sel: &[u8; 4]) -> (r: String)
    ensures
        r@ == method_text(sel@),
{
    if same4(sel, 0xa9, 0x05, 0x9c, 0xbb) {
        "transfer".to_owned()
    } else if same4(sel, 0x23, 0xb8, 0x72, 0xdd) {
        "transferFrom".to_owned()
    } else if swaps(sel) {
        "swap".to_owned()
    } else {
        let mut s = "0x".to_owned();
        let h = hex_encode(sel.as_slice());
        s.append(h.as_str());
        s
    }
}

/// What a transaction's first contract amounts to.
pub open spec fn summary(tx: TxContract) -> SummaryView {
    let nothing = SummaryView {
        kind: TxKind::Other,
        to: None,
        amount_sun: 0,
        usdt_units: None,
        contract: None,
        method: None,
        selector: None,
    };
    match tx {
        TxContract::Transfer(p) => match p {
            Some(p) => SummaryView {
                kind: TxKind::Trx,
                to: Some(p.to_address@),
                amount_sun: positive(p.amount),
                ..nothing
            },
            None => SummaryView { kind: TxKind::Trx, ..nothing },
        },
        TxContract::TransferAsset(p) => match p {
            Some(p) => SummaryView {
                kind: TxKind::Token,
                to: Some(p.to_address@),
                ..nothing
            },
            None => SummaryView { kind: TxKind::Token, ..nothing },
        },
        TxContract::Trigger(p) => match p {
            Some(p) => {
                let usdt = is_usdt(p.contract_address@);
                let named = p.data@.len() >= 4;
                SummaryView {
                    kind: if usdt {
                        TxKind::Usdt
                    } else {
                        TxKind::Call
                    },
                    to: Some(p.contract_address@),
                    amount_sun: positive(p.call_value),
                    usdt_units: if usdt {
                        token_amount(p.data@)
                    } else {
                        None
                    },
                    contract: Some(p.contract_address@),
                    method: if named {
                        Some(method_text(p.data@.take(4)))
                    } else {
                        None
                    },
                    selector: if named {
                        Some(p.data@.take(4))
                    } else {
                        None
                    },
                }
            },
            None => SummaryView { kind: TxKind::Call, ..nothing },
        },
        _ => nothing,
    }
}

fn positive_of(amount: i64) -> (r: u128)
    ensures
        r == positive(amount),
{
    if amount > 0 {
        amount as u128
    } else {
        0
    }
}

/// Decodes the first contract of a pending transaction.
pub fn decode_tx_summary(tx: &TxContract) -> (r: TxSummary)
    ensures
        r@ == summary(*tx),
{
    let mut s = TxSummary {
        kind: TxKind::Other,
        to: None,
        amount_sun: 0,
        usdt_units: None,
        contract: None,
        method: None,
        selector: None,
    };
    match tx {
        TxContract::Transfer(p) => {
            s.kind = TxKind::Trx;
            if let Some(p) = p {
                s.amount_sun = positive_of(p.amount);
                s.to = Some(copy_all(p.to_address.as_slice()));
            }
        },
        TxContract::TransferAsset(p) => {
            s.kind = TxKind::Token;
            if let Some(p) = p {
                s.to = Some(copy_all(p.to_address.as_slice()));
            }
        },
        TxContract::Trigger(p) => {
            s.kind = TxKind::Call;
            if let Some(p) = p {
                s.amount_sun = positive_of(p.call_value);
                if p.data.len() >= 4 {
                    let sel: [u8; 4] = [p.data[0], p.data[1], p.data[2], p.data[3]];
                    assert(sel@ =~= p.data@.take(4));
                    s.selector = Some(sel);
                    s.method = Some(method_name(&sel));
                }
                let h = hex_encode(p.contract_address.as_slice());
                if str_eq(h.as_str(), USDT_ADDRESS_HEX) {
                    s.kind = TxKind::Usdt;
                    s.usdt_units = usdt_amount(p.data.as_slice());
                }
                s.to = Some(copy_all(p.contract_address.as_slice()));
                s.contract = Some(copy_all(p.contract_address.as_slice()));
            }
        },
        _ => {},
    }
    s
}

/// An address cut to its first three and last two bytes in hexadecimal.
pub open spec fn short_text(a: Seq<u8>) -> Seq<char> {
    if a.len() <= 5 {
        hex_text(a)
    } else {
        hex_text(a.subrange(0, 3)) + "…"@ + hex_text(a.subrange(a.len() - 2, a.len() as int))
    }
}

/// An address, shortened.
pub fn short_addr(a: &[u8]) -> (r: String)
    ensures
        r@ == short_text(a@),
{
    if a.len() <= 5 {
        hex_encode(a)
    } else {
        let head = copy_range(a, 0, 3);
        let tail = copy_range(a, a.len() - 2, a.len());
        let mut s = hex_encode(head.as_slice());
        s.append("…");
        let t = hex_encode(tail.as_slice());
        s.append(t.as_str());
        s
    }
}

/// An optional address, shortened.
pub open spec fn short_opt_text(a: Option<Seq<u8>>) -> Seq<char> {
    match a {
        Some(b) => short_text(b),
        None => "—"@,
    }
}

/// An optional address, shortened.
pub fn short_addr_opt(addr: &Option<Vec<u8>>) -> (r: String)
    ensures
        r@ == short_opt_text(opt_bytes(*addr)),
{
    match addr {
        Some(a) => short_addr(a.as_slice()),
        None => "—".to_owned(),
    }
}

/// A pending transaction as the mempool holds it.
#[derive(Debug, Clone, Copy)]
pub struct PendingTx {
    pub tx_id: [u8; 32],
    pub received_at_ms: i64,
    pub expiration_ms: i64,
    pub sender: Option<[u8; 21]>,
}

/// The first four bytes of a transaction id in hexadecimal.
pub fn hex_short(id: &[u8; 32]) -> (r: String)
    ensures
        r@ == hex_text(id@.subrange(0, 4)),
{
    let v = copy_range(id.as_slice(), 0, 4);
    hex_encode(v.as_slice())
}

// ---------------------------------------------------------------------------
// The line of the feed file
// ---------------------------------------------------------------------------

/// Where the feed lines go.
#[derive(Debug, Clone, PartialEq, Eq)]
pub enum JsonlSink {
    Stdout,
    File(String),
}

/// An optional byte string in hexadecimal, nothing where there is none.
pub open spec fn hex_or_empty(a: Option<Seq<u8>>) -> Seq<char> {
    match a {
        Some(b) => hex_text(b),
        None => ""@,
    }
}

/// The sender as a plain value.
pub open spec fn sender_bytes(p: PendingTx) -> Option<Seq<u8>> {
    match p.sender {
        Some(a) => Some(a@),
        None => None,
    }
}

/// One JSON object for a pending transaction.
pub open spec fn json_text(p: PendingTx, s: SummaryView, ts: int) -> Seq<char> {
    "{\"txid\":\""@ + hex_text(p.tx_id@) + "\",\"ts\":"@ + int_decimal(ts) + ",\"signer\":\""@
        + hex_or_empty(sender_bytes(p)) + "\",\"type\":\""@ + s.kind.tag_text() + "\",\"to\":\""@
        + hex_or_empty(s.to) + "\",\"amount_sun\":"@ + decimal(s.amount_sun) + ",\"usdt_units\":"@
        + (match s.usdt_units {
        Some(u) => decimal(u),
        None => "null"@,
    }) + ",\"contract\":\""@ + hex_or_empty(s.contract) + "\",\"method\":\""@ + (match s.method {
        Some(m) => m,
        None => ""@,
    }) + "\",\"expiration\":"@ + int_decimal(p.expiration_ms as int) + "}"@
}

fn hex_opt(a: &Option<Vec<u8>>) -> (r: String)
    ensures
        r@ == hex_or_empty(opt_bytes(*a)),
{
    match a {
        Some(b) => hex_encode(b.as_slice()),
        None => "".to_owned(),
    }
}

/// The feed line of a pending transaction, without the line end.
pub fn jsonl_line(p: &PendingTx, sum: &TxSummary, ts_ms: i64) -> (r: String)
    ensures
        r@ == json_text(*p, sum@, ts_ms as int),
{
    let mut out = "{\"txid\":\"".to_owned();
    let h = hex_encode(p.tx_id.as_slice());
    out.append(h.as_str());
    out.append("\",\"ts\":");
    append_int(&mut out, ts_ms);
    out.append(",\"signer\":\"");
    let h = match &p.sender {
        Some(a) => hex_encode(a.as_slice()),
        None => "".to_owned(),
    };
    out.append(h.as_str());
    out.append("\",\"type\":\"");
    out.append(sum.kind.tag());
    out.append("\",\"to\":\"");
    let h = hex_opt(&sum.to);
    out.append(h.as_str());
    out.append("\",\"amount_sun\":");
    append_nat(&mut out, sum.amount_sun);
    out.append(",\"usdt_units\":");
    let u = match sum.usdt_units {
        Some(u) => nat_string(u),
        None => "null".to_owned(),
    };
    out.append(u.as_str());
    out.append(",\"contract\":\"");
    let h = hex_opt(&sum.contract);
    out.append(h.as_str());
    out.append("\",\"method\":\"");
    let m = match &sum.method {
        Some(m) => m.clone(),
        None => "".to_owned(),
    };
    out.append(m.as_str());
    out.append("\",\"expiration\":");
    append_int(&mut out, p.expiration_ms);
    out.append("}");
    out
}

// ---------------------------------------------------------------------------
// The session
// ---------------------------------------------------------------------------

/// One pending transaction of the feed.
#[derive(Debug, Clone)]
pub struct FeedTx {
    pub tx_id: [u8; 32],
    pub received_at_ms: i64,
    pub signer: Option<[u8; 21]>,
    pub kind: TxKind,
    pub amount_sun: u128,
    pub usdt_units: Option<u128>,
    pub to: Option<Vec<u8>>,
    pub method: Option<String>,
}

/// [`FeedTx`] as plain values.
pub struct FeedTxView {
    pub tx_id: Seq<u8>,
    pub received_at_ms: int,
    pub signer: Option<Seq<u8>>,
    pub kind: TxKind,
    pub amount_sun: nat,
    pub usdt_units: Option<nat>,
    pub to: Option<Seq<u8>>,
    pub method: Option<Seq<char>>,
}

impl View for FeedTx {
    type V = FeedTxView;

    open spec fn view(&self) -> FeedTxView {
        FeedTxView {
            tx_id: self.tx_id@,
            received_at_ms: self.received_at_ms as int,
            signer: match self.signer {
                Some(a) => Some(a@),
                None => None,
            },
            kind: self.kind,
            amount_sun: self.amount_sun as nat,
            usdt_units: match self.usdt_units {
                Some(u) => Some(u as nat),
                None => None,
            },
            to: opt_bytes(self.to),
            method: match self.method {
                Some(m) => Some(m@),
                None => None,
            },
        }
    }
}

/// A feed as plain values.
pub open spec fn feed_view(feed: Seq<FeedTx>) -> Seq<FeedTxView> {
    feed.map_values(|f: FeedTx| f@)
}

/// The running counters.
#[derive(Debug, Clone, Copy, PartialEq, Eq, Structural)]
pub struct PendingCounts {
    pub seen: u64,
    pub trx_count: u64,
    pub usdt_count: u64,
    pub call_count: u64,
    pub token_count: u64,
    pub other_count: u64,
    pub swaps: u64,
    pub trx_sun: u128,
    pub usdt_units: u128,
}

/// What the dashboard knows of the pending stream.
pub struct MempoolState {
    pub counts: PendingCounts,
    /// Notifications that were lost.
    pub lagged: u64,
    pub biggest_usdt_units: u128,
    pub biggest_trx_sun: u128,
    pub methods: KeyCounts,
    pub contracts: KeyCounts,
    /// Arrival times in the window.
    pub arrivals: VecDeque<i64>,
    /// Arrivals of the last seconds, the newest last.
    pub spark: Vec<u64>,
    /// The second that is being counted.
    pub spark_bucket: i64,
    pub spark_bucket_count: u64,
    pub feed: Vec<FeedTx>,
    pub alerts: Vec<String>,
    pub tip_at_start: i64,
}

/// Alerts as plain values.
pub open spec fn alerts_view(a: Seq<String>) -> Seq<Seq<char>> {
    a.map_values(|s: String| s@)
}

/// One where it holds, else nothing.
pub open spec fn bump(b: bool) -> int {
    if b {
        1
    } else {
        0
    }
}

/// The counters after one more transaction.
pub open spec fn counted(c: PendingCounts, s: SummaryView) -> PendingCounts {
    PendingCounts {
        seen: (c.seen + 1) as u64,
        trx_count: (c.trx_count + bump(s.kind == TxKind::Trx)) as u64,
        usdt_count: (c.usdt_count + bump(s.kind == TxKind::Usdt)) as u64,
        call_count: (c.call_count + bump(s.kind == TxKind::Usdt || s.kind == TxKind::Call)) as u64,
        token_count: (c.token_count + bump(s.kind == TxKind::Token)) as u64,
        other_count: (c.other_count + bump(s.kind == TxKind::Other)) as u64,
        swaps: (c.swaps + bump(s.selector is Some && is_swap(s.selector->Some_0))) as u64,
        trx_sun: (c.trx_sun + s.amount_sun) as u128,
        usdt_units: (c.usdt_units + (match s.usdt_units {
            Some(u) => u,
            None => 0,
        })) as u128,
    }
}

/// Whether the amounts of one more transaction fit.
pub open spec fn amounts_fit(c: PendingCounts, s: SummaryView) -> bool {
    &&& c.seen < u64::MAX
    &&& c.trx_sun + s.amount_sun <= u128::MAX
    &&& c.usdt_units + (match s.usdt_units {
        Some(u) => u,
        None => 0,
    }) <= u128::MAX
}

/// The kinds are disjoint, and every transaction is of one.
pub open spec fn kinds_add_up(c: PendingCounts) -> bool {
    &&& c.trx_count + c.call_count + c.token_count + c.other_count == c.seen
    &&& c.usdt_count <= c.call_count
    &&& c.swaps <= c.seen
}

/// The panel of alerts with one on top.
pub open spec fn alerted(a: Seq<Seq<char>>, text: Seq<char>) -> Seq<Seq<char>> {
    first(seq![text] + a, 6)
}

/// Whether a kind of transaction can move the native coin: a transfer or a
/// call.
pub open spec fn moves_trx(kind: TxKind) -> bool {
    kind == TxKind::Trx || kind == TxKind::Usdt || kind == TxKind::Call
}

/// The alerts after one more transaction.
pub open spec fn alerts_after(a: Seq<Seq<char>>, s: SummaryView) -> Seq<Seq<char>> {
    let a1 = match s.usdt_units {
        Some(u) => if u / 1_000_000 >= 100_000 {
            alerted(
                a,
                "Pending USDT whale: "@ + usd_text(u) + " from "@ + short_opt_text(s.to),
            )
        } else {
            a
        },
        None => a,
    };
    if moves_trx(s.kind) && s.amount_sun / 1_000_000 >= 1_000_000 {
        alerted(a1, "Pending TRX whale: "@ + trx_text(s.amount_sun) + " TRX"@)
    } else {
        a1
    }
}

/// The greater of two.
pub open spec fn larger(a: nat, b: nat) -> nat {
    if b > a {
        b
    } else {
        a
    }
}

/// The arrival times without the leading ones before `lo`.
pub open spec fn drop_early(a: Seq<i64>, lo: int) -> Seq<i64>
    decreases a.len(),
{
    if a.len() > 0 && a[0] < lo {
        drop_early(a.skip(1), lo)
    } else {
        a
    }
}

/// `n` zeros.
pub open spec fn zeros(n: nat) -> Seq<u64> {
    Seq::new(n, |i: int| 0u64)
}

/// The per-second counts after an arrival in second `now`: the counts of the
/// closed seconds, the second being counted, and its count. Silent seconds
/// count zero.
pub open spec fn spark_after(spark: Seq<u64>, bucket: int, count: nat, now: int) -> (
    Seq<u64>,
    int,
    nat,
) {
    let cur = if bucket == 0 {
        now
    } else {
        bucket
    };
    if now == cur {
        (spark, cur, count + 1)
    } else {
        let gap = if now > cur + 1 {
            (now - cur - 1) as nat
        } else {
            0
        };
        (last(spark.push(count as u64) + zeros(gap), 30), now, 1)
    }
}

/// What observing a pending transaction makes of the session.
pub open spec fn pending_observed(
    old: MempoolState,
    new: MempoolState,
    p: PendingTx,
    s: SummaryView,
    now: int,
) -> bool {
    let sp = spark_after(
        old.spark@,
        old.spark_bucket as int,
        old.spark_bucket_count as nat,
        whole_seconds(now),
    );
    &&& new.counts == counted(old.counts, s)
    &&& new.lagged == old.lagged
    &&& new.tip_at_start == old.tip_at_start
    &&& new.biggest_usdt_units == (match s.usdt_units {
        Some(u) => larger(old.biggest_usdt_units as nat, u),
        None => old.biggest_usdt_units as nat,
    })
    &&& new.biggest_trx_sun == larger(old.biggest_trx_sun as nat, s.amount_sun)
    &&& new.methods@ == (match s.selector {
        Some(sel) => bumped(old.methods@, sel),
        None => old.methods@,
    })
    &&& new.contracts@ == (match s.contract {
        Some(a) => if a.len() > 0 {
            bumped(old.contracts@, a)
        } else {
            old.contracts@
        },
        None => old.contracts@,
    })
    &&& new.arrivals@ == drop_early(old.arrivals@.push(now as i64), now - 10_000)
    &&& new.spark@ == sp.0
    &&& new.spark_bucket == sp.1
    &&& new.spark_bucket_count == sp.2
    &&& feed_view(new.feed@) == first(
        seq![
            FeedTxView {
                tx_id: p.tx_id@,
                received_at_ms: p.received_at_ms as int,
                signer: sender_bytes(p),
                kind: s.kind,
                amount_sun: s.amount_sun,
                usdt_units: s.usdt_units,
                to: s.to,
                method: s.method,
            },
        ] + feed_view(old.feed@),
        12,
    )
    &&& alerts_view(new.alerts@) == alerts_after(alerts_view(old.alerts@), s)
}

fn push_alert(alerts: &mut Vec<String>, text: String)
    ensures
        alerts_view(final(alerts)@) == alerted(alerts_view(old(alerts)@), text@),
{
    let ghost before = alerts_view(alerts@);
    let ghost t = text@;
    alerts.insert(0, text);
    let ghost all = alerts_view(alerts@);
    assert(all =~= seq![t] + before);
    if alerts.len() > 6 {
        alerts.truncate(6);
        assert(alerts_view(alerts@) =~= all.take(6));
    }
}

fn push_alerts(alerts: &mut Vec<String>, s: &TxSummary)
    ensures
        alerts_view(final(alerts)@) == alerts_after(alerts_view(old(alerts)@), s@),
{
    if let Some(units) = s.usdt_units {
        if units / 1_000_000 >= WHALE_USD {
            let mut t = "Pending USDT whale: ".to_owned();
            let d = usd(units);
            t.append(d.as_str());
            t.append(" from ");
            let a = short_addr_opt(&s.to);
            t.append(a.as_str());
            push_alert(alerts, t);
        }
    }
    let native = match s.kind {
        TxKind::Trx => true,
        TxKind::Usdt => true,
        TxKind::Call => true,
        TxKind::Token => false,
        TxKind::Other => false,
    };
    if native && s.amount_sun / 1_000_000 >= WHALE_TRX {
        let mut t = "Pending TRX whale: ".to_owned();
        let d = human_trx(s.amount_sun);
        t.append(d.as_str());
        t.append(" TRX");
        push_alert(alerts, t);
    }
}

fn trim_early(a: &mut VecDeque<i64>, lo: i64)
    ensures
        final(a)@ == drop_early(old(a)@, lo as int),
{
    while a.len() > 0 && a[0] < lo
        invariant
            drop_early(a@, lo as int) == drop_early(old(a)@, lo as int),
        decreases a@.len(),
    {
        let ghost before = a@;
        a.pop_front();
        assert(a@ =~= before.skip(1));
    }
}

fn push_closed(spark: &mut Vec<u64>, closed: u64, gap: u64)
    ensures
        final(spark)@ == last(old(spark)@.push(closed) + zeros(gap as nat), 30),
{
    let ghost full = old(spark)@.push(closed) + zeros(gap as nat);
    spark.push(closed);
    let fill: u64 = if gap > 30 { 30 } else { gap };
    let mut i: u64 = 0;
    let ghost base = spark@;
    assert(base + zeros(0) =~= base);
    while i < fill
        invariant
            i <= fill,
            spark@ == base + zeros(i as nat),
        decreases fill - i,
    {
        spark.push(0);
        i = i + 1;
        assert(spark@ =~= base + zeros(i as nat));
    }
    let ghost all = spark@;
    let ghost mut k: int = 0;
    assert(all.skip(0) =~= all);
    while spark.len() > 30
        invariant
            0 <= k <= all.len(),
            spark@ == all.skip(k),
            k > 0 ==> all.len() - k >= 30,
        decreases spark@.len(),
    {
        spark.remove(0);
        proof {
            assert(spark@ =~= all.skip(k + 1));
            k = k + 1;
        }
    }
    assert(spark@ =~= last(full, 30));
}

fn push_feed(feed: &mut Vec<FeedTx>, f: FeedTx)
    ensures
        feed_view(final(feed)@) == first(seq![f@] + feed_view(old(feed)@), 12),
{
    let ghost before = feed_view(feed@);
    let ghost fv = f@;
    feed.insert(0, f);
    let ghost all = feed_view(feed@);
    assert(all =~= seq![fv] + before);
    if feed.len() > FEED_CAP {
        feed.truncate(FEED_CAP);
        assert(feed_view(feed@) =~= all.take(12));
    }
}

fn feed_entry(p: &PendingTx, s: &TxSummary) -> (r: FeedTx)
    ensures
        r@ == (FeedTxView {
            tx_id: p.tx_id@,
            received_at_ms: p.received_at_ms as int,
            signer: sender_bytes(*p),
            kind: s.kind,
            amount_sun: s.amount_sun as nat,
            usdt_units: s@.usdt_units,
            to: s@.to,
            method: s@.method,
        }),
{
    FeedTx {
        tx_id: p.tx_id,
        received_at_ms: p.received_at_ms,
        signer: p.sender,
        kind: s.kind,
        amount_sun: s.amount_sun,
        usdt_units: s.usdt_units,
        to: match &s.to {
            Some(a) => Some(copy_all(a.as_slice())),
            None => None,
        },
        method: match &s.method {
            Some(m) => Some(m.clone()),
            None => None,
        },
    }
}

impl PendingCounts {
    fn bumped(self, s: &TxSummary) -> (r: PendingCounts)
        requires
            kinds_add_up(self),
            amounts_fit(self, s@),
        ensures
            r == counted(self, s@),
            kinds_add_up(r),
    {
        let mut c = self;
        c.seen = c.seen + 1;
        match s.kind {
            TxKind::Trx => {
                c.trx_count = c.trx_count + 1;
            },
            TxKind::Usdt => {
                c.usdt_count = c.usdt_count + 1;
                c.call_count = c.call_count + 1;
            },
            TxKind::Call => {
                c.call_count = c.call_count + 1;
            },
            TxKind::Token => {
                c.token_count = c.token_count + 1;
            },
            TxKind::Other => {
                c.other_count = c.other_count + 1;
            },
        }
        if let Some(sel) = s.selector {
            if swaps(&sel) {
                c.swaps = c.swaps + 1;
            }
        }
        c.trx_sun = c.trx_sun + s.amount_sun;
        if let Some(u) = s.usdt_units {
            c.usdt_units = c.usdt_units + u;
        }
        c
    }
}

impl MempoolState {
    /// The session is consistent.
    pub open spec fn wf(&self) -> bool {
        &&& kinds_add_up(self.counts)
        &&& self.spark_bucket_count <= self.counts.seen
        &&& sum(self.methods@) <= self.counts.seen
        &&& sum(self.contracts@) <= self.counts.seen
        &&& -9_223_372_036_854_775 <= self.spark_bucket <= 9_223_372_036_854_775
    }

    /// Starts a session at a known tip.
    pub fn new(tip_at_start: i64) -> (r: MempoolState)
        ensures
            r.wf(),
            r.counts == (PendingCounts {
                seen: 0,
                trx_count: 0,
                usdt_count: 0,
                call_count: 0,
                token_count: 0,
                other_count: 0,
                swaps: 0,
                trx_sun: 0,
                usdt_units: 0,
            }),
            r.lagged == 0,
            r.biggest_usdt_units == 0,
            r.biggest_trx_sun == 0,
            r.methods@.len() == 0,
            r.contracts@.len() == 0,
            r.arrivals@.len() == 0,
            r.spark@.len() == 0,
            r.spark_bucket == 0,
            r.spark_bucket_count == 0,
            r.feed@.len() == 0,
            r.alerts@.len() == 0,
            r.tip_at_start == tip_at_start,
    {
        MempoolState {
            counts: PendingCounts {
                seen: 0,
                trx_count: 0,
                usdt_count: 0,
                call_count: 0,
                token_count: 0,
                other_count: 0,
                swaps: 0,
                trx_sun: 0,
                usdt_units: 0,
            },
            lagged: 0,
            biggest_usdt_units: 0,
            biggest_trx_sun: 0,
            methods: KeyCounts::new(),
            contracts: KeyCounts::new(),
            arrivals: VecDeque::new(),
            spark: Vec::new(),
            spark_bucket: 0,
            spark_bucket_count: 0,
            feed: Vec::new(),
            alerts: Vec::new(),
            tip_at_start,
        }
    }

    /// Records that `n` notifications were lost.
    pub fn note_lagged(&mut self, n: u64)
        ensures
            *final(self) == (MempoolState {
                lagged: if old(self).lagged + n > u64::MAX {
                    u64::MAX
                } else {
                    (old(self).lagged + n) as u64
                },
                ..*old(self)
            }),
    {
        self.lagged = self.lagged.saturating_add(n);
    }

    /// Whether the counters have room for one more transaction.
    pub fn has_room(&self, s: &TxSummary) -> (r: bool)
        ensures
            r == amounts_fit(self.counts, s@),
    {
        let units: u128 = match s.usdt_units {
            Some(u) => u,
            None => 0,
        };
        self.counts.seen < u64::MAX && u128::MAX - self.counts.trx_sun >= s.amount_sun && u128::MAX
            - self.counts.usdt_units >= units
    }

    /// Folds one decoded pending transaction into the session.
    pub fn observe_pending(&mut self, p: &PendingTx, s: &TxSummary, now_ms: i64)
        requires
            old(self).wf(),
            amounts_fit(old(self).counts, s@),
            now_ms >= i64::MIN + 10_000,
        ensures
            final(self).wf(),
            pending_observed(*old(self), *final(self), *p, s@, now_ms as int),
    {
        let ghost old_counts = self.counts;
        self.counts = self.counts.bumped(s);
        if let Some(units) = s.usdt_units {
            if units > self.biggest_usdt_units {
                self.biggest_usdt_units = units;
            }
        }
        if s.amount_sun > self.biggest_trx_sun {
            self.biggest_trx_sun = s.amount_sun;
        }
        push_alerts(&mut self.alerts, s);
        if let Some(sel) = s.selector {
            proof {
                bumping_adds_one(self.methods@, sel@);
            }
            self.methods.bump(sel.as_slice());
        }
        if let Some(addr) = &s.contract {
            if addr.len() > 0 {
                proof {
                    bumping_adds_one(self.contracts@, addr@);
                }
                self.contracts.bump(addr.as_slice());
            }
        }
        self.arrivals.push_back(now_ms);
        trim_early(&mut self.arrivals, now_ms - TPS_WINDOW_MS);
        let bucket: i64 = seconds_of(now_ms);
        if self.spark_bucket == 0 {
            self.spark_bucket = bucket;
        }
        if bucket == self.spark_bucket {
            self.spark_bucket_count = self.spark_bucket_count + 1;
        } else {
            let gap: u64 = if bucket > self.spark_bucket {
                (bucket - self.spark_bucket - 1) as u64
            } else {
                0
            };
            push_closed(&mut self.spark, self.spark_bucket_count, gap);
            self.spark_bucket = bucket;
            self.spark_bucket_count = 1;
        }
        push_feed(&mut self.feed, feed_entry(p, s));
    }
}

// ---------------------------------------------------------------------------
// The frame
// ---------------------------------------------------------------------------

/// How many arrivals there are since `lo`.
pub open spec fn in_window(a: Seq<i64>, lo: int) -> nat
    decreases a.len(),
{
    if a.len() == 0 {
        0
    } else {
        (if a[0] >= lo {
            1nat
        } else {
            0
        }) + in_window(a.skip(1), lo)
    }
}

/// The time of the first arrival, if any.
pub open spec fn earliest(a: Seq<i64>) -> Option<int> {
    if a.len() == 0 {
        None
    } else {
        Some(a[0] as int)
    }
}

/// Arrivals per second over the window.
pub open spec fn arrival_rate(a: Seq<i64>, now: int) -> (nat, int) {
    quotient(of_nat(in_window(a, now - 10_000)), span(earliest(a), now))
}

/// The receipt time of the oldest of the first `n` in the feed that has one.
pub open spec fn oldest(feed: Seq<FeedTxView>, n: nat) -> Option<int>
    decreases n,
{
    if n == 0 {
        None
    } else {
        let t = feed[n - 1].received_at_ms;
        match oldest(feed, (n - 1) as nat) {
            Some(o) => if 0 < t < o {
                Some(t)
            } else {
                Some(o)
            },
            None => if t > 0 {
                Some(t)
            } else {
                None
            },
        }
    }
}

/// How far `now` is past a receipt, zero where that is unset or ahead.
pub open spec fn waited(received: int, now: int) -> int {
    if received > 0 && now > received {
        now - received
    } else {
        0
    }
}

fn waited_ms(received: i64, now_ms: i64) -> (r: i64)
    ensures
        r == waited(received as int, now_ms as int),
{
    if received > 0 && now_ms > received {
        now_ms - received
    } else {
        0
    }
}

/// The width of the dashboard in a terminal of `cols` columns.
pub open spec fn width_for(cols: nat) -> nat {
    let w = if cols > 2 {
        (cols - 2) as nat
    } else {
        0
    };
    if w < 64 {
        64
    } else if w > 100 {
        100
    } else {
        w
    }
}

/// The header panel.
pub open spec fn header_text(s: MempoolState, now: int, uptime: int, w: nat) -> Seq<char> {
    let feed = feed_view(s.feed@);
    let oldest_age = match oldest(feed, feed.len()) {
        Some(t) => waited(t, now),
        None => 0,
    };
    let lag = if s.lagged > 0 {
        "  "@ + RED@ + "· "@ + grouped_int(signed64(s.lagged as nat)) + " dropped (lagged)"@ + RST@
    } else {
        ""@
    };
    let top = "\x1b[H"@ + line_text(
        RED@ + BOLD@ + "» TRON GOBLIN"@ + RST@ + "  "@ + DIM@ + "·"@ + RST@ + "  "@ + ORG@ + BOLD@
            + "LIVE MEMPOOL"@ + RST@ + "  "@ + DIM@ + "pending txs, decoded"@ + RST@,
    ) + rule_text(w) + line_text(
        "  "@ + CYN@ + "» streaming pending txs"@ + RST@ + "    "@ + BOLD@ + "tip #"@ + grouped_int(
            s.tip_at_start as int,
        ) + RST@,
    ) + line_text(
        "  "@ + MAG@ + "» "@ + fixed1(arrival_rate(s.arrivals@, now)) + " tx/s arriving"@ + RST@
            + "    "@ + GRY@ + "oldest in feed "@ + dur_text(oldest_age) + " · "@ + decimal(
            feed.len(),
        ) + " in feed"@ + RST@,
    ) + line_text(
        "  "@ + GRY@ + "⏱ "@ + dur_text(uptime) + " · "@ + grouped_int(
            signed64(s.counts.seen as nat),
        ) + " pending seen this session"@ + lag + RST@,
    );
    (if s.spark@.len() > 0 {
        top + line_text(
            "  "@ + DIM@ + "arrivals"@ + RST@ + " "@ + GRN@ + sparkline_text(s.spark@) + RST@ + "  "@
                + GRY@ + "(txs/sec, last "@ + decimal(s.spark@.len()) + ")"@ + RST@,
        )
    } else {
        top
    }) + "\x1b[K\r\n"@
}

/// Counts the arrivals since `lo`.
fn count_window(a: &VecDeque<i64>, lo: i64) -> (r: u64)
    ensures
        r == in_window(a@, lo as int),
{
    let ghost s = a@;
    let mut n: u64 = 0;
    let mut i: usize = 0;
    assert(s.skip(0) =~= s);
    while i < a.len()
        invariant
            i <= s.len(),
            s == a@,
            n <= i,
            n + in_window(s.skip(i as int), lo as int) == in_window(s, lo as int),
        decreases s.len() - i,
    {
        let ghost rest = s.skip(i as int);
        assert(rest[0] == s[i as int]);
        assert(rest.skip(1) =~= s.skip(i + 1));
        if a[i] >= lo {
            n = n + 1;
        }
        i = i + 1;
    }
    assert(s.skip(i as int).len() == 0);
    n
}

fn oldest_in(feed: &Vec<FeedTx>) -> (r: Option<i64>)
    ensures
        (match r {
            Some(t) => Some(t as int),
            None => None,
        }) == oldest(feed_view(feed@), feed@.len()),
{
    let ghost fv = feed_view(feed@);
    let mut found: Option<i64> = None;
    let mut i: usize = 0;
    while i < feed.len()
        invariant
            i <= feed@.len(),
            fv == feed_view(feed@),
            (match found {
                Some(t) => Some(t as int),
                None => None,
            }) == oldest(fv, i as nat),
        decreases feed@.len() - i,
    {
        let t: i64 = feed[i].received_at_ms;
        assert(fv[i as int].received_at_ms == t);
        found = match found {
            Some(o) => if 0 < t && t < o {
                Some(t)
            } else {
                Some(o)
            },
            None => if t > 0 {
                Some(t)
            } else {
                None
            },
        };
        i = i + 1;
    }
    found
}

/// The arrival rate over the window.
fn rate(a: &VecDeque<i64>, now_ms: i64) -> (r: Double)
    requires
        now_ms >= i64::MIN + 10_000,
        earliest(a@) matches Some(f) ==> now_ms - f >= i64::MIN,
    ensures
        r@ == arrival_rate(a@, now_ms as int),
        r.wf(),
        -4200 <= r.exp <= 68,
{
    let n: u64 = count_window(a, now_ms - TPS_WINDOW_MS);
    let first: Option<i64> = if a.len() > 0 {
        Some(a[0])
    } else {
        None
    };
    let secs = span_seconds(first, now_ms);
    let d = double_of(n as u128);
    divide(&d, &secs)
}

fn header(s: &MempoolState, now_ms: i64, uptime_ms: i64, w: usize) -> (r: String)
    requires
        now_ms >= i64::MIN + 10_000,
        earliest(s.arrivals@) matches Some(f) ==> now_ms - f >= i64::MIN,
    ensures
        r@ == header_text(*s, now_ms as int, uptime_ms as int, w as nat),
{
    let mut out = "\x1b[H".to_owned();
    let mut l = RED.to_owned();
    l.append(BOLD);
    l.append("» TRON GOBLIN");
    l.append(RST);
    l.append("  ");
    l.append(DIM);
    l.append("·");
    l.append(RST);
    l.append("  ");
    l.append(ORG);
    l.append(BOLD);
    l.append("LIVE MEMPOOL");
    l.append(RST);
    l.append("  ");
    l.append(DIM);
    l.append("pending txs, decoded");
    l.append(RST);
    let t = line(l.as_str());
    out.append(t.as_str());
    let t = rule(w);
    out.append(t.as_str());

    let mut l = "  ".to_owned();
    l.append(CYN);
    l.append("» streaming pending txs");
    l.append(RST);
    l.append("    ");
    l.append(BOLD);
    l.append("tip #");
    let c = commas(s.tip_at_start);
    l.append(c.as_str());
    l.append(RST);
    let t = line(l.as_str());
    out.append(t.as_str());

    let mut l = "  ".to_owned();
    l.append(MAG);
    l.append("» ");
    let r = rate(&s.arrivals, now_ms);
    append_fixed1(&mut l, &r);
    l.append(" tx/s arriving");
    l.append(RST);
    l.append("    ");
    l.append(GRY);
    l.append("oldest in feed ");
    let oldest_age: i64 = match oldest_in(&s.feed) {
        Some(t) => waited_ms(t, now_ms),
        None => 0,
    };
    let d = dur(oldest_age);
    l.append(d.as_str());
    l.append(" · ");
    append_nat(&mut l, s.feed.len() as u128);
    l.append(" in feed");
    l.append(RST);
    let t = line(l.as_str());
    out.append(t.as_str());

    let mut lag = "".to_owned();
    if s.lagged > 0 {
        lag = "  ".to_owned();
        lag.append(RED);
        lag.append("· ");
        let c = commas(to_signed64(s.lagged));
        lag.append(c.as_str());
        lag.append(" dropped (lagged)");
        lag.append(RST);
    }
    let mut l = "  ".to_owned();
    l.append(GRY);
    l.append("⏱ ");
    let d = dur(uptime_ms);
    l.append(d.as_str());
    l.append(" · ");
    let c = commas(to_signed64(s.counts.seen));
    l.append(c.as_str());
    l.append(" pending seen this session");
    l.append(lag.as_str());
    l.append(RST);
    let t = line(l.as_str());
    out.append(t.as_str());

    if s.spark.len() > 0 {
        let mut l = "  ".to_owned();
        l.append(DIM);
        l.append("arrivals");
        l.append(RST);
        l.append(" ");
        l.append(GRN);
        let sp = sparkline(&s.spark);
        l.append(sp.as_str());
        l.append(RST);
        l.append("  ");
        l.append(GRY);
        l.append("(txs/sec, last ");
        append_nat(&mut l, s.spark.len() as u128);
        l.append(")");
        l.append(RST);
        let t = line(l.as_str());
        out.append(t.as_str());
    }
    let t = blank();
    out.append(t.as_str());
    out
}

/// The session totals panel.
pub open spec fn totals_text(s: MempoolState, w: nat) -> Seq<char> {
    let c = s.counts;
    let colw = ((w - 3) / 2) as nat;
    section_text("PENDING THIS SESSION"@, w) + row_text(
        colw,
        cell_text("▪"@, "TRX pending"@, trx_text(c.trx_sun as nat)),
        cell_text("▪"@, "USDT pending"@, usd_text(c.usdt_units as nat)),
    ) + row_text(
        colw,
        cell_text("▪"@, "USDT transfers"@, grouped_int(signed64(c.usdt_count as nat))),
        cell_text("▪"@, "contract calls"@, grouped_int(signed64(c.call_count as nat))),
    ) + row_text(
        colw,
        cell_text("▪"@, "DEX swaps"@, grouped_int(signed64(c.swaps as nat))),
        cell_text("▪"@, "token transfers"@, grouped_int(signed64(c.token_count as nat))),
    ) + row_text(
        colw,
        cell_text("▪"@, "biggest USDT"@, usd_text(s.biggest_usdt_units as nat)),
        cell_text("▪"@, "biggest TRX"@, trx_text(s.biggest_trx_sun as nat)),
    ) + "\x1b[K\r\n"@
}

fn totals(s: &MempoolState, w: usize) -> (r: String)
    requires
        w >= 64,
    ensures
        r@ == totals_text(*s, w as nat),
{
    let c = s.counts;
    let colw: usize = (w - 3) / 2;
    let mut out = section("PENDING THIS SESSION", w);
    let a = human_trx(c.trx_sun);
    let b = usd(c.usdt_units);
    let t = row2(colw, "▪", "TRX pending", a.as_str(), "▪", "USDT pending", b.as_str());
    out.append(t.as_str());
    let a = commas(to_signed64(c.usdt_count));
    let b = commas(to_signed64(c.call_count));
    let t = row2(colw, "▪", "USDT transfers", a.as_str(), "▪", "contract calls", b.as_str());
    out.append(t.as_str());
    let a = commas(to_signed64(c.swaps));
    let b = commas(to_signed64(c.token_count));
    let t = row2(colw, "▪", "DEX swaps", a.as_str(), "▪", "token transfers", b.as_str());
    out.append(t.as_str());
    let a = usd(s.biggest_usdt_units);
    let b = human_trx(s.biggest_trx_sun);
    let t = row2(colw, "▪", "biggest USDT", a.as_str(), "▪", "biggest TRX", b.as_str());
    out.append(t.as_str());
    let t = blank();
    out.append(t.as_str());
    out
}

/// The first `n` of the most frequent methods, with their shares.
pub open spec fn methods_text(m: Seq<(Seq<u8>, u64)>, tot: nat, n: nat) -> Seq<char>
    decreases n,
{
    if n == 0 {
        ""@
    } else {
        (if n == 1 {
            ""@
        } else {
            methods_text(m, tot, (n - 1) as nat) + "   "@
        }) + CYN@ + method_text(m[n - 1].0) + RST@ + " "@ + DIM@ + decimal(
            (m[n - 1].1 * 100) as nat / tot,
        ) + "%"@ + RST@
    }
}

/// The mix panel.
pub open spec fn mix_text(s: MempoolState, w: nat) -> Seq<char> {
    let c = s.counts;
    let parts = seq![
        (c.trx_count, CYN@),
        (c.usdt_count, GRN@),
        (c.token_count, YEL@),
        ((c.call_count - c.usdt_count + c.other_count) as u64, MAG@),
    ];
    let top = section_text("PENDING MIX"@, w) + line_text(
        "   "@ + bar_text(parts, (w - 3) as nat),
    ) + line_text(
        "   "@ + CYN@ + "▪ TRX"@ + RST@ + "   "@ + GRN@ + "▪ USDT"@ + RST@ + "   "@ + YEL@
            + "▪ tokens"@ + RST@ + "   "@ + MAG@ + "▪ other calls"@ + RST@,
    );
    let m = ranked(s.methods@, s.methods@.len());
    let tot = if sum(s.methods@) > 1 {
        sum(s.methods@)
    } else {
        1
    };
    (if s.methods@.len() > 0 {
        top + line_text(
            "   "@ + DIM@ + "* calls:"@ + RST@ + " "@ + methods_text(
                m,
                tot,
                if m.len() > 4 {
                    4
                } else {
                    m.len()
                },
            ),
        )
    } else {
        top
    }) + "\x1b[K\r\n"@
}

fn method_line(s: &MempoolState) -> (r: String)
    requires
        s.wf(),
    ensures
        ({
            let m = ranked(s.methods@, s.methods@.len());
            let tot = if sum(s.methods@) > 1 {
                sum(s.methods@)
            } else {
                1
            };
            r@ == methods_text(
                m,
                tot,
                if m.len() > 4 {
                    4
                } else {
                    m.len()
                },
            )
        }),
{
    let top = s.methods.by_count();
    let ghost m = ranked(s.methods@, s.methods@.len());
    proof {
        crate::key_counts::ranked_counts_are_within_the_sum(s.methods@);
    }
    let t0: u64 = s.methods.total();
    let tot: u64 = if t0 > 1 { t0 } else { 1 };
    let n: usize = if top.len() > 4 { 4 } else { top.len() };
    let mut out = "".to_owned();
    let mut i: usize = 0;
    while i < n
        invariant
            i <= n <= top@.len(),
            m == ranked(s.methods@, s.methods@.len()),
            top@.map_values(|e: (Vec<u8>, u64)| (e.0@, e.1)) == m,
            tot >= 1,
            out@ == methods_text(m, tot as nat, i as nat),
        decreases n - i,
    {
        assert(m[i as int] == (top@[i as int].0@, top@[i as int].1));
        if i > 0 {
            out.append("   ");
        }
        out.append(CYN);
        let name = method_label(top[i].0.as_slice());
        out.append(name.as_str());
        out.append(RST);
        out.append(" ");
        out.append(DIM);
        append_nat(&mut out, top[i].1 as u128 * 100 / tot as u128);
        out.append("%");
        out.append(RST);
        i = i + 1;
    }
    out
}

/// The name of a method by the bytes of its selector.
fn method_label(sel: &[u8]) -> (r: String)
    ensures
        r@ == method_text(sel@),
{
    if sel.len() == 4 {
        let a: [u8; 4] = [sel[0], sel[1], sel[2], sel[3]];
        assert(a@ =~= sel@);
        method_name(&a)
    } else {
        let mut s = "0x".to_owned();
        let h = hex_encode(sel);
        s.append(h.as_str());
        s
    }
}

fn mix(s: &MempoolState, w: usize) -> (r: String)
    requires
        s.wf(),
        64 <= w <= 100,
    ensures
        r@ == mix_text(*s, w as nat),
{
    let c = s.counts;
    let other: u64 = c.call_count - c.usdt_count + c.other_count;
    let mut parts: Vec<(u64, &'static str)> = Vec::new();
    parts.push((c.trx_count, CYN));
    parts.push((c.usdt_count, GRN));
    parts.push((c.token_count, YEL));
    parts.push((other, MAG));
    let ghost pv = seq![
        (c.trx_count, CYN@),
        (c.usdt_count, GRN@),
        (c.token_count, YEL@),
        (other, MAG@),
    ];
    proof {
        assert(parts_view(parts@) =~= pv);
        assert(pv.drop_last().drop_last().drop_last().drop_last().len() == 0);
        reveal_with_fuel(total, 5);
        assert(total(pv) == c.seen);
    }
    let mut out = section("PENDING MIX", w);
    let bar = mix_bar(&parts, w - 3);
    let mut l = "   ".to_owned();
    l.append(bar.as_str());
    let t = line(l.as_str());
    out.append(t.as_str());
    let mut l = "   ".to_owned();
    l.append(CYN);
    l.append("▪ TRX");
    l.append(RST);
    l.append("   ");
    l.append(GRN);
    l.append("▪ USDT");
    l.append(RST);
    l.append("   ");
    l.append(YEL);
    l.append("▪ tokens");
    l.append(RST);
    l.append("   ");
    l.append(MAG);
    l.append("▪ other calls");
    l.append(RST);
    let t = line(l.as_str());
    out.append(t.as_str());
    if !s.methods.is_empty() {
        let calls = method_line(s);
        let mut l = "   ".to_owned();
        l.append(DIM);
        l.append("* calls:");
        l.append(RST);
        l.append(" ");
        l.append(calls.as_str());
        let t = line(l.as_str());
        out.append(t.as_str());
    }
    let t = blank();
    out.append(t.as_str());
    out
}

/// The chip of a contract and its count.
pub open spec fn chip_text(e: (Seq<u8>, u64)) -> Seq<char> {
    BOLD@ + short_text(e.0) + RST@ + " "@ + GRY@ + "×"@ + decimal(e.1 as nat) + RST@ + "   "@
}

/// The chips from position `i` on that still fit in `w` cells, after `acc` of
/// `vis` cells.
pub open spec fn chips(
    m: Seq<(Seq<u8>, u64)>,
    i: int,
    acc: Seq<char>,
    vis: nat,
    w: nat,
) -> Seq<char>
    decreases m.len() - i,
{
    if i < 0 || i >= m.len() || vis + visible(chip_text(m[i])) > w {
        acc
    } else {
        chips(m, i + 1, acc + chip_text(m[i]), vis + visible(chip_text(m[i])), w)
    }
}

/// The contracts panel.
pub open spec fn contracts_text(m: Seq<(Seq<u8>, u64)>, w: nat) -> Seq<char> {
    section_text("HOT CONTRACTS"@, w) + (if m.len() == 0 {
        line_text("   "@ + DIM@ + "waiting for pending calls…"@ + RST@)
    } else {
        line_text(chips(ranked(m, m.len()), 0, "   "@, 3, w))
    }) + "\x1b[K\r\n"@
}

fn chip(addr: &[u8], n: u64) -> (r: String)
    ensures
        r@ == chip_text((addr@, n)),
{
    let mut s = BOLD.to_owned();
    let a = short_addr(addr);
    s.append(a.as_str());
    s.append(RST);
    s.append(" ");
    s.append(GRY);
    s.append("×");
    append_nat(&mut s, n as u128);
    s.append(RST);
    s.append("   ");
    s
}

fn contract_chips(counts: &KeyCounts, w: usize) -> (r: String)
    requires
        64 <= w <= 100,
    ensures
        r@ == chips(ranked(counts@, counts@.len()), 0, "   "@, 3, w as nat),
{
    let con = counts.by_count();
    let ghost m = ranked(counts@, counts@.len());
    let mut out = "   ".to_owned();
    let mut vis: usize = 3;
    let mut i: usize = 0;
    while i < con.len()
        invariant
            i <= con@.len(),
            3 <= vis <= w <= 100,
            m == ranked(counts@, counts@.len()),
            con@.map_values(|e: (Vec<u8>, u64)| (e.0@, e.1)) == m,
            chips(m, i as int, out@, vis as nat, w as nat) == chips(m, 0, "   "@, 3, w as nat),
        decreases con@.len() - i,
    {
        assert(m[i as int] == (con@[i as int].0@, con@[i as int].1));
        let c = chip(con[i].0.as_slice(), con[i].1);
        let room: usize = w - vis;
        let left: usize = padding(room + 1, c.as_str());
        if left == 0 {
            return out;
        }
        out.append(c.as_str());
        vis = vis + (room + 1 - left);
        i = i + 1;
    }
    out
}

fn contracts_panel(counts: &KeyCounts, w: usize) -> (r: String)
    requires
        64 <= w <= 100,
    ensures
        r@ == contracts_text(counts@, w as nat),
{
    let mut out = section("HOT CONTRACTS", w);
    if counts.is_empty() {
        let mut l = "   ".to_owned();
        l.append(DIM);
        l.append("waiting for pending calls…");
        l.append(RST);
        let t = line(l.as_str());
        out.append(t.as_str());
    } else {
        let c = contract_chips(counts, w);
        let t = line(c.as_str());
        out.append(t.as_str());
    }
    let t = blank();
    out.append(t.as_str());
    out
}

/// One line of the pending feed.
pub open spec fn pending_line(f: FeedTxView, now: int) -> Seq<char> {
    let tag = f.kind.color_text() + pad_left(f.kind.tag_text(), 4, ' ') + RST@;
    let d1 = match f.usdt_units {
        Some(u) => ""@ + " "@ + GRN@ + usd_text(u) + RST@,
        None => if f.amount_sun >= 1_000_000 {
            ""@ + " "@ + CYN@ + trx_text(f.amount_sun) + " TRX"@ + RST@
        } else {
            ""@
        },
    };
    let d2 = match f.to {
        Some(a) => d1 + " "@ + GRY@ + "→ "@ + short_text(a) + RST@,
        None => d1,
    };
    let d3 = match f.method {
        Some(m) => d2 + " "@ + DIM@ + m + RST@,
        None => d2,
    };
    line_text(
        "   "@ + GRY@ + pad_left(dur_text(waited(f.received_at_ms, now)), 4, ' ') + RST@ + " "@ + tag
            + " "@ + short_opt_text(f.signer) + d3 + "  "@ + DIM@ + hex_text(
            f.tx_id.subrange(0, 4),
        ) + RST@,
    )
}

fn pending_row(f: &FeedTx, now_ms: i64) -> (r: String)
    ensures
        r@ == pending_line(f@, now_ms as int),
{
    let mut tag = f.kind.color().to_owned();
    append_pad_left(&mut tag, f.kind.tag(), 4, ' ');
    tag.append(RST);
    let signer = match &f.signer {
        Some(a) => short_addr(a.as_slice()),
        None => "—".to_owned(),
    };
    let mut d = "".to_owned();
    if let Some(u) = f.usdt_units {
        d.append(" ");
        d.append(GRN);
        let t = usd(u);
        d.append(t.as_str());
        d.append(RST);
    } else if f.amount_sun >= 1_000_000 {
        d.append(" ");
        d.append(CYN);
        let t = human_trx(f.amount_sun);
        d.append(t.as_str());
        d.append(" TRX");
        d.append(RST);
    }
    if let Some(a) = &f.to {
        d.append(" ");
        d.append(GRY);
        d.append("→ ");
        let t = short_addr(a.as_slice());
        d.append(t.as_str());
        d.append(RST);
    }
    if let Some(m) = &f.method {
        d.append(" ");
        d.append(DIM);
        d.append(m.as_str());
        d.append(RST);
    }
    let mut l = "   ".to_owned();
    l.append(GRY);
    let age = dur(waited_ms(f.received_at_ms, now_ms));
    append_pad_left(&mut l, age.as_str(), 4, ' ');
    l.append(RST);
    l.append(" ");
    l.append(tag.as_str());
    l.append(" ");
    l.append(signer.as_str());
    l.append(d.as_str());
    l.append("  ");
    l.append(DIM);
    let id = hex_short(&f.tx_id);
    l.append(id.as_str());
    l.append(RST);
    line(l.as_str())
}

/// The first `n` lines of the pending feed, after `acc`.
pub open spec fn pending_lines(acc: Seq<char>, feed: Seq<FeedTxView>, n: nat, now: int) -> Seq<char>
    decreases n,
{
    if n == 0 {
        acc
    } else {
        pending_lines(acc, feed, (n - 1) as nat, now) + pending_line(feed[n - 1], now)
    }
}

/// The pending feed panel.
pub open spec fn feed_text(feed: Seq<FeedTxView>, now: int, w: nat) -> Seq<char> {
    let head = section_text("PENDING FEED"@, w);
    pending_lines(
        if feed.len() == 0 {
            head + line_text("   "@ + DIM@ + "waiting for the next pending tx…"@ + RST@)
        } else {
            head
        },
        feed,
        feed.len(),
        now,
    ) + "\x1b[K\r\n"@
}

fn feed_panel(feed: &Vec<FeedTx>, now_ms: i64, w: usize) -> (r: String)
    ensures
        r@ == feed_text(feed_view(feed@), now_ms as int, w as nat),
{
    let ghost fv = feed_view(feed@);
    let mut out = section("PENDING FEED", w);
    if feed.len() == 0 {
        let mut l = "   ".to_owned();
        l.append(DIM);
        l.append("waiting for the next pending tx…");
        l.append(RST);
        let t = line(l.as_str());
        out.append(t.as_str());
    }
    let ghost acc = out@;
    let mut i: usize = 0;
    while i < feed.len()
        invariant
            i <= feed@.len(),
            fv == feed_view(feed@),
            out@ == pending_lines(acc, fv, i as nat, now_ms as int),
        decreases feed@.len() - i,
    {
        assert(fv[i as int] == feed@[i as int]@);
        let t = pending_row(&feed[i], now_ms);
        out.append(t.as_str());
        i = i + 1;
    }
    let t = blank();
    out.append(t.as_str());
    out
}

/// The first `n` alert lines, after `acc`.
pub open spec fn alert_lines(acc: Seq<char>, a: Seq<Seq<char>>, n: nat) -> Seq<char>
    decreases n,
{
    if n == 0 {
        acc
    } else {
        alert_lines(acc, a, (n - 1) as nat) + line_text(
            "   "@ + "!"@ + " "@ + YEL@ + a[n - 1] + RST@,
        )
    }
}

/// The alerts panel: the latest three.
pub open spec fn alerts_text(a: Seq<Seq<char>>, w: nat) -> Seq<char> {
    let head = section_text("ALERTS"@, w);
    alert_lines(
        if a.len() == 0 {
            head + line_text(
                "   "@ + DIM@ + "no whales yet · USDT ≥ $"@ + decimal(100) + "k or TRX ≥ "@
                    + compact_text(1_000_000) + " flag here"@ + RST@,
            )
        } else {
            head
        },
        a,
        if a.len() > 3 {
            3
        } else {
            a.len()
        },
    ) + "\x1b[K\r\n"@
}

fn alerts_panel(alerts: &Vec<String>, w: usize) -> (r: String)
    ensures
        r@ == alerts_text(alerts_view(alerts@), w as nat),
{
    let ghost av = alerts_view(alerts@);
    let mut out = section("ALERTS", w);
    if alerts.len() == 0 {
        let mut l = "   ".to_owned();
        l.append(DIM);
        l.append("no whales yet · USDT ≥ $");
        append_nat(&mut l, WHALE_USD / 1000);
        l.append("k or TRX ≥ ");
        let c = compact(WHALE_TRX);
        l.append(c.as_str());
        l.append(" flag here");
        l.append(RST);
        let t = line(l.as_str());
        out.append(t.as_str());
    }
    let ghost acc = out@;
    let n: usize = if alerts.len() > 3 { 3 } else { alerts.len() };
    let mut i: usize = 0;
    while i < n
        invariant
            i <= n <= alerts@.len(),
            av == alerts_view(alerts@),
            out@ == alert_lines(acc, av, i as nat),
        decreases n - i,
    {
        assert(av[i as int] == alerts@[i as int]@);
        let mut l = "   ".to_owned();
        l.append("!");
        l.append(" ");
        l.append(YEL);
        l.append(alerts[i].as_str());
        l.append(RST);
        let t = line(l.as_str());
        out.append(t.as_str());
        i = i + 1;
    }
    let t = blank();
    out.append(t.as_str());
    out
}

/// The whole frame.
pub open spec fn frame_text(s: MempoolState, now: int, uptime: int, cols: nat) -> Seq<char> {
    let w = width_for(cols);
    header_text(s, now, uptime, w) + totals_text(s, w) + mix_text(s, w) + contracts_text(
        s.contracts@,
        w,
    ) + feed_text(feed_view(s.feed@), now, w) + alerts_text(alerts_view(s.alerts@), w) + line_text(
        "  "@ + DIM@ + "decode-only mempool view · no state, no snapshot · Ctrl-C to stop"@ + RST@,
    ) + "\x1b[J"@
}

impl MempoolState {
    /// Builds a dashboard frame for the given time, uptime and terminal width.
    pub fn render(&self, now_ms: i64, uptime_ms: i64, cols: usize) -> (r: String)
        requires
            self.wf(),
            now_ms >= i64::MIN + 10_000,
            earliest(self.arrivals@) matches Some(f) ==> now_ms - f >= i64::MIN,
        ensures
            r@ == frame_text(*self, now_ms as int, uptime_ms as int, cols as nat),
    {
        let w0: usize = if cols > 2 { cols - 2 } else { 0 };
        let w: usize = if w0 < 64 { 64 } else if w0 > 100 { 100 } else { w0 };
        let mut out = header(self, now_ms, uptime_ms, w);
        let t = totals(self, w);
        out.append(t.as_str());
        let t = mix(self, w);
        out.append(t.as_str());
        let t = contracts_panel(&self.contracts, w);
        out.append(t.as_str());
        let t = feed_panel(&self.feed, now_ms, w);
        out.append(t.as_str());
        let t = alerts_panel(&self.alerts, w);
        out.append(t.as_str());
        let mut l = "  ".to_owned();
        l.append(DIM);
        l.append("decode-only mempool view · no state, no snapshot · Ctrl-C to stop");
        l.append(RST);
        let t = line(l.as_str());
        out.append(t.as_str());
        out.append("\x1b[J");
        out
    }
}

/// What a pending transaction is shown as: a transfer with its recipient and
/// amount, a token transfer with its recipient, a call with the contract called,
/// the value sent along and its method, and one of USDT with the tokens moved.
pub proof fn summaries_show_what_moves(tx: TxContract)
    ensures
        ({
            let s = summary(tx);
            &&& tx is Transfer ==> s.kind == TxKind::Trx && s.contract is None && s.usdt_units
                is None && s.selector is None
            &&& tx is Transfer && tx->Transfer_0 is Some ==> {
                let p = tx->Transfer_0->Some_0;
                &&& s.to == Some(p.to_address@)
                &&& p.amount >= 0 ==> s.amount_sun == p.amount
                &&& p.amount < 0 ==> s.amount_sun == 0
            }
            &&& tx is TransferAsset ==> s.kind == TxKind::Token && s.amount_sun == 0
                && s.usdt_units is None && s.contract is None
            &&& tx is TransferAsset && tx->TransferAsset_0 is Some ==> s.to == Some(
                (tx->TransferAsset_0->Some_0).to_address@,
            )
            &&& tx is Trigger && tx->Trigger_0 is Some ==> {
                let p = tx->Trigger_0->Some_0;
                &&& s.to == Some(p.contract_address@)
                &&& s.contract == Some(p.contract_address@)
                &&& p.call_value >= 0 ==> s.amount_sun == p.call_value
                &&& p.call_value < 0 ==> s.amount_sun == 0
                &&& is_usdt(p.contract_address@) ==> s.kind == TxKind::Usdt && s.usdt_units
                    == token_amount(p.data@)
                &&& !is_usdt(p.contract_address@) ==> s.kind == TxKind::Call && s.usdt_units is None
                &&& p.data@.len() >= 4 ==> s.selector == Some(p.data@.take(4)) && s.method == Some(
                    method_text(p.data@.take(4)),
                )
                &&& p.data@.len() < 4 ==> s.selector is None && s.method is None
            }
            &&& tx is Trigger && tx->Trigger_0 is None ==> s.kind == TxKind::Call && s.amount_sun
                == 0
            &&& tx !is Transfer && tx !is TransferAsset && tx !is Trigger ==> s.kind
                == TxKind::Other && s.amount_sun == 0 && s.to is None && s.usdt_units is None
        }),
{
}

/// The methods that are known by name, and the hexadecimal form of the others.
pub proof fn methods_are_named(sel: Seq<u8>)
    requires
        sel.len() == 4,
    ensures
        sel == seq![0xa9u8, 0x05u8, 0x9cu8, 0xbbu8] ==> method_text(sel) == "transfer"@,
        sel == seq![0x23u8, 0xb8u8, 0x72u8, 0xddu8] ==> method_text(sel) == "transferFrom"@,
        sel == seq![0x38u8, 0xedu8, 0x17u8, 0x39u8] || sel == seq![0x18u8, 0xcbu8, 0xafu8, 0xe5u8]
            || sel == seq![0x7fu8, 0xf3u8, 0x6au8, 0xb5u8] || sel == seq![
            0xfbu8,
            0x3bu8,
            0xdbu8,
            0x41u8,
        ] <==> is_swap(sel),
        is_swap(sel) ==> method_text(sel) == "swap"@,
        sel[0] != 0xa9 && sel[0] != 0x23 && !is_swap(sel) ==> method_text(sel) == "0x"@ + hex_text(
            sel,
        ),
{
    let a = seq![0xa9u8, 0x05u8, 0x9cu8, 0xbbu8];
    let b = seq![0x23u8, 0xb8u8, 0x72u8, 0xddu8];
    assert(a[0] == 0xa9 && b[0] == 0x23);
    let c = seq![0x38u8, 0xedu8, 0x17u8, 0x39u8];
    let d = seq![0x18u8, 0xcbu8, 0xafu8, 0xe5u8];
    let e = seq![0x7fu8, 0xf3u8, 0x6au8, 0xb5u8];
    let f = seq![0xfbu8, 0x3bu8, 0xdbu8, 0x41u8];
    assert(c[0] == 0x38 && d[0] == 0x18 && e[0] == 0x7f && f[0] == 0xfb);
}

/// One more transaction raises the count of its kind by one and leaves the
/// others; a USDT call is a call as well, and the sums grow by what it moves.
pub proof fn kinds_are_counted_apart(c: PendingCounts, s: SummaryView)
    requires
        amounts_fit(c, s),
        kinds_add_up(c),
    ensures
        ({
            let d = counted(c, s);
            &&& d.seen == c.seen + 1
            &&& d.trx_count == c.trx_count + (if s.kind is Trx { 1int } else { 0 })
            &&& d.usdt_count == c.usdt_count + (if s.kind is Usdt { 1int } else { 0 })
            &&& d.call_count == c.call_count + (if s.kind is Usdt || s.kind is Call {
                1int
            } else {
                0
            })
            &&& d.token_count == c.token_count + (if s.kind is Token { 1int } else { 0 })
            &&& d.other_count == c.other_count + (if s.kind is Other { 1int } else { 0 })
            &&& d.swaps == c.swaps + (if s.selector is Some && is_swap(s.selector->Some_0) {
                1int
            } else {
                0
            })
            &&& d.trx_sun == c.trx_sun + s.amount_sun
            &&& s.usdt_units is Some ==> d.usdt_units == c.usdt_units + s.usdt_units->Some_0
            &&& s.usdt_units is None ==> d.usdt_units == c.usdt_units
            &&& kinds_add_up(d)
        }),
{
}

/// Whales are told: a USDT transfer of a hundred thousand dollars or more, and
/// a transfer or a call of a million coins or more; nothing smaller is.
pub proof fn whales_are_told(a: Seq<Seq<char>>, s: SummaryView)
    ensures
        ({
            let big_usdt = s.usdt_units is Some && s.usdt_units->Some_0 >= 100_000_000_000;
            let big_trx = s.amount_sun >= 1_000_000_000_000 && (s.kind is Trx || s.kind is Usdt
                || s.kind is Call);
            let b = alerts_after(a, s);
            &&& !big_usdt && !big_trx ==> b == a
            &&& big_trx ==> b[0] == "Pending TRX whale: "@ + trx_text(s.amount_sun) + " TRX"@
            &&& big_usdt && !big_trx ==> b[0] == "Pending USDT whale: "@ + usd_text(
                s.usdt_units->Some_0,
            ) + " from "@ + short_opt_text(s.to)
            &&& big_usdt && big_trx ==> b[1] == "Pending USDT whale: "@ + usd_text(
                s.usdt_units->Some_0,
            ) + " from "@ + short_opt_text(s.to)
            &&& big_usdt != big_trx && a.len() > 0 ==> b[1] == a[0]
            &&& b.len() <= 6 || b == a
        }),
{
}

/// What a pending transaction makes of the session: it is counted and stands
/// first in the feed, the records are the greatest seen, and its method and its
/// contract are counted once more.
pub proof fn pending_transactions_move_the_session(
    old: MempoolState,
    new: MempoolState,
    p: PendingTx,
    s: SummaryView,
    now: i64,
)
    requires
        pending_observed(old, new, p, s, now as int),
        amounts_fit(old.counts, s),
    ensures
        new.counts.seen == old.counts.seen + 1,
        new.lagged == old.lagged,
        new.tip_at_start == old.tip_at_start,
        new.biggest_trx_sun >= old.biggest_trx_sun,
        new.biggest_trx_sun >= s.amount_sun,
        new.biggest_trx_sun == old.biggest_trx_sun || new.biggest_trx_sun == s.amount_sun,
        new.biggest_usdt_units >= old.biggest_usdt_units,
        s.usdt_units is Some ==> new.biggest_usdt_units >= s.usdt_units->Some_0,
        new.biggest_usdt_units == old.biggest_usdt_units || s.usdt_units is Some
            && new.biggest_usdt_units == s.usdt_units->Some_0,
        s.selector is Some ==> new.methods@ == bumped(old.methods@, s.selector->Some_0),
        s.selector is None ==> new.methods@ == old.methods@,
        s.contract is Some && (s.contract->Some_0).len() > 0 ==> new.contracts@ == bumped(
            old.contracts@,
            s.contract->Some_0,
        ),
        s.contract is None || (s.contract->Some_0).len() == 0 ==> new.contracts@ == old.contracts@,
        new.feed@.len() <= 12,
        feed_view(new.feed@)[0].tx_id == p.tx_id@,
        feed_view(new.feed@)[0].received_at_ms == p.received_at_ms,
        feed_view(new.feed@)[0].kind == s.kind,
        feed_view(new.feed@)[0].amount_sun == s.amount_sun,
        feed_view(new.feed@)[0].usdt_units == s.usdt_units,
        feed_view(new.feed@)[0].to == s.to,
        feed_view(new.feed@)[0].method == s.method,
        p.sender is Some ==> feed_view(new.feed@)[0].signer == Some((p.sender->Some_0)@),
        p.sender is None ==> feed_view(new.feed@)[0].signer is None,
        old.feed@.len() > 0 ==> feed_view(new.feed@)[1] == feed_view(old.feed@)[0],
{
    assert(feed_view(new.feed@).len() == new.feed@.len());
}

/// Arrivals before the window leave it from the front.
pub proof fn early_arrivals_leave(a: Seq<i64>, lo: int) -> (k: int)
    ensures
        0 <= k <= a.len(),
        drop_early(a, lo) == a.skip(k),
        forall|i: int| 0 <= i < k ==> #[trigger] a[i] < lo,
        k < a.len() ==> a[k] >= lo,
    decreases a.len(),
{
    if a.len() > 0 && a[0] < lo {
        let j = early_arrivals_leave(a.skip(1), lo);
        assert(a.skip(1).skip(j) =~= a.skip(j + 1));
        assert forall|i: int| 0 <= i < j + 1 implies #[trigger] a[i] < lo by {
            if i > 0 {
                assert(a[i] == a.skip(1)[i - 1]);
            }
        }
        j + 1
    } else {
        assert(a.skip(0) =~= a);
        0
    }
}

/// The rate counts the arrivals from the window's start on.
pub proof fn arrivals_are_counted(a: Seq<i64>, x: i64, lo: int)
    ensures
        x >= lo ==> in_window(a.push(x), lo) == in_window(a, lo) + 1,
        x < lo ==> in_window(a.push(x), lo) == in_window(a, lo),
        in_window(Seq::empty(), lo) == 0,
        a.len() > 0 ==> earliest(a) == Some(a[0] as int),
        a.len() == 0 ==> earliest(a) is None,
    decreases a.len(),
{
    let b = a.push(x);
    if a.len() == 0 {
        assert(b.skip(1) =~= Seq::<i64>::empty());
        assert(in_window(b.skip(1), lo) == 0);
        assert(in_window(a, lo) == 0);
    } else {
        assert(b.skip(1) =~= a.skip(1).push(x));
        arrivals_are_counted(a.skip(1), x, lo);
    }
}

/// Arrivals are counted by the second: one in the same second raises its count,
/// and one in a later second closes the second before it, with a zero for every
/// silent second in between.
pub proof fn seconds_are_counted(spark: Seq<u64>, bucket: int, count: nat, now: int)
    requires
        bucket != 0,
        count <= u64::MAX,
    ensures
        now == bucket ==> spark_after(spark, bucket, count, now) == (spark, bucket, count + 1),
        spark_after(spark, 0, count, now) == (spark, now, count + 1),
        now == bucket + 1 && spark.len() < 30 ==> spark_after(spark, bucket, count, now).0
            == spark.push(count as u64),
        now > bucket ==> spark_after(spark, bucket, count, now).1 == now && spark_after(
            spark,
            bucket,
            count,
            now,
        ).2 == 1,
        now > bucket && spark.len() + (now - bucket) <= 30 ==> {
            let s = spark_after(spark, bucket, count, now).0;
            &&& s.len() == spark.len() + (now - bucket)
            &&& s[spark.len() as int] == count
            &&& forall|i: int| spark.len() < i < s.len() ==> #[trigger] s[i] == 0
        },
        now != bucket ==> spark_after(spark, bucket, count, now).0.len() <= 30,
{
    if now == bucket + 1 && spark.len() < 30 {
        assert(spark.push(count as u64) + zeros(0) =~= spark.push(count as u64));
    }
}

/// The oldest receipt in the feed is the least of those that are set.
pub proof fn the_oldest_is_the_least(feed: Seq<FeedTxView>, n: nat, i: int)
    requires
        n <= feed.len(),
    ensures
        oldest(feed, n) is Some ==> oldest(feed, n)->Some_0 > 0 && exists|j: int|
            0 <= j < n && (#[trigger] feed[j]).received_at_ms == oldest(feed, n)->Some_0,
        0 <= i < n && feed[i].received_at_ms > 0 ==> oldest(feed, n) is Some && oldest(
            feed,
            n,
        )->Some_0 <= feed[i].received_at_ms,
    decreases n,
{
    if n > 0 {
        the_oldest_is_the_least(feed, (n - 1) as nat, i);
        let t = feed[n - 1].received_at_ms;
        let o = oldest(feed, n);
        if o is Some {
            if o->Some_0 == t {
                assert(feed[n - 1].received_at_ms == o->Some_0);
            } else {
                let j = choose|j: int|
                    0 <= j < n - 1 && (#[trigger] feed[j]).received_at_ms == oldest(
                        feed,
                        (n - 1) as nat,
                    )->Some_0;
                assert(feed[j].received_at_ms == o->Some_0);
            }
        }
    }
}

/// A wait runs from the receipt, and the dashboard is two columns narrower than
/// its terminal, between sixty-four and a hundred.
pub proof fn waits_and_widths(received: int, now: int, cols: nat)
    ensures
        0 < received <= now ==> waited(received, now) == now - received,
        received <= 0 || now < received ==> waited(received, now) == 0,
        66 <= cols <= 102 ==> width_for(cols) == cols - 2,
        cols < 66 ==> width_for(cols) == 64,
        cols > 102 ==> width_for(cols) == 100,
{
}

/// A long address shows its first three and its last two bytes.
pub proof fn long_addresses_are_shortened(head: Seq<u8>, mid: Seq<u8>, tail: Seq<u8>)
    requires
        head.len() == 3,
        mid.len() > 0,
        tail.len() == 2,
    ensures
        short_text(head + mid + tail) == hex_text(head) + "…"@ + hex_text(tail),
        short_text(head + tail) == hex_text(head + tail),
        short_opt_text(Some(head)) == hex_text(head),
        short_opt_text(None) == "—"@,
{
    let a = head + mid + tail;
    assert(a.subrange(0, 3) =~= head);
    assert(a.subrange(a.len() - 2, a.len() as int) =~= tail);
}

} // verus!
