//! The live mainnet feed dashboard: confirmed blocks folded into session
//! statistics, and the frame that shows them.

use std::collections::VecDeque;

use vstd::prelude::*;
use vstd::string::*;

use crate::address_set::AddressSet;
use crate::binary64::{divide, double_of, nearest, nearest_double, of_nat, quotient, Double};
use crate::chain::{StreamedBlock, TriggerParams, TxContract};
use crate::cli::words;
use crate::logfmt::grouped_int;
use crate::bytes::{signed64, to_signed64};
use crate::panel::{
    append_fixed0, append_fixed1, bar_text, blank, cell_text, commas, compact, compact_text, dur,
    dur_text, fixed0, fixed1, human_trx, is_usdt, line, line_text, mix_bar, parts_view, row2,
    row_text, rule, rule_text, section, section_text, sparkline, sparkline_text, token_amount,
    total, trunc, trunc_text, trx_text, usd, usd_text, usdt_amount, utc, utc_stamp, BOLD, CYN, DIM,
    GRN, GRY, MAG, ORG, RED, RST, USDT_ADDRESS_HEX, YEL,
};
use crate::text::{append_nat, decimal, hex_encode, str_eq};

verus! {

/// A single USDT transfer of at least this many dollars is a whale.
pub const WHALE_USD: u128 = 100_000;

/// The wallet set stops growing here.
pub const MAX_WALLETS: usize = 2_000_000;

/// One streamed block, summarised for the feed.
#[derive(Debug, Clone, Copy, PartialEq, Eq, Structural)]
pub struct FeedBlock {
    pub num: i64,
    pub txs: u64,
    pub usdt: u64,
    pub usdt_units: u128,
    pub trx: u128,
    pub new_contract: bool,
}

/// What a block, or a session, is made of.
#[derive(Debug, Clone, Copy, PartialEq, Eq, Structural)]
pub struct Counts {
    pub txs: u64,
    pub transfers: u64,
    pub token_transfers: u64,
    pub calls: u64,
    pub usdt_transfers: u64,
    pub contracts_created: u64,
    pub tokens_issued: u64,
    pub votes: u64,
    pub stakes: u64,
    pub trx_sun: u128,
    pub usdt_units: u128,
}

/// [`Counts`] as unbounded numbers.
pub struct CountsView {
    pub txs: nat,
    pub transfers: nat,
    pub token_transfers: nat,
    pub calls: nat,
    pub usdt_transfers: nat,
    pub contracts_created: nat,
    pub tokens_issued: nat,
    pub votes: nat,
    pub stakes: nat,
    pub trx_sun: nat,
    pub usdt_units: nat,
}

impl View for Counts {
    type V = CountsView;

    open spec fn view(&self) -> CountsView {
        CountsView {
            txs: self.txs as nat,
            transfers: self.transfers as nat,
            token_transfers: self.token_transfers as nat,
            calls: self.calls as nat,
            usdt_transfers: self.usdt_transfers as nat,
            contracts_created: self.contracts_created as nat,
            tokens_issued: self.tokens_issued as nat,
            votes: self.votes as nat,
            stakes: self.stakes as nat,
            trx_sun: self.trx_sun as nat,
            usdt_units: self.usdt_units as nat,
        }
    }
}

impl CountsView {
    pub open spec fn zero() -> CountsView {
        CountsView {
            txs: 0,
            transfers: 0,
            token_transfers: 0,
            calls: 0,
            usdt_transfers: 0,
            contracts_created: 0,
            tokens_issued: 0,
            votes: 0,
            stakes: 0,
            trx_sun: 0,
            usdt_units: 0,
        }
    }

    pub open spec fn plus(self, o: CountsView) -> CountsView {
        CountsView {
            txs: self.txs + o.txs,
            transfers: self.transfers + o.transfers,
            token_transfers: self.token_transfers + o.token_transfers,
            calls: self.calls + o.calls,
            usdt_transfers: self.usdt_transfers + o.usdt_transfers,
            contracts_created: self.contracts_created + o.contracts_created,
            tokens_issued: self.tokens_issued + o.tokens_issued,
            votes: self.votes + o.votes,
            stakes: self.stakes + o.stakes,
            trx_sun: self.trx_sun + o.trx_sun,
            usdt_units: self.usdt_units + o.usdt_units,
        }
    }

    /// Whether the numbers fit the counters.
    pub open spec fn fits(self) -> bool {
        &&& self.txs <= u64::MAX
        &&& self.transfers <= u64::MAX
        &&& self.token_transfers <= u64::MAX
        &&& self.calls <= u64::MAX
        &&& self.usdt_transfers <= u64::MAX
        &&& self.contracts_created <= u64::MAX
        &&& self.tokens_issued <= u64::MAX
        &&& self.votes <= u64::MAX
        &&& self.stakes <= u64::MAX
        &&& self.trx_sun <= u128::MAX
        &&& self.usdt_units <= u128::MAX
    }

    /// Whether no number is greater than the other's.
    pub open spec fn within(self, o: CountsView) -> bool {
        &&& self.txs <= o.txs
        &&& self.transfers <= o.transfers
        &&& self.token_transfers <= o.token_transfers
        &&& self.calls <= o.calls
        &&& self.usdt_transfers <= o.usdt_transfers
        &&& self.contracts_created <= o.contracts_created
        &&& self.tokens_issued <= o.tokens_issued
        &&& self.votes <= o.votes
        &&& self.stakes <= o.stakes
        &&& self.trx_sun <= o.trx_sun
        &&& self.usdt_units <= o.usdt_units
    }
}

impl Counts {
    fn zero() -> (r: Counts)
        ensures
            r@ == CountsView::zero(),
    {
        Counts {
            txs: 0,
            transfers: 0,
            token_transfers: 0,
            calls: 0,
            usdt_transfers: 0,
            contracts_created: 0,
            tokens_issued: 0,
            votes: 0,
            stakes: 0,
            trx_sun: 0,
            usdt_units: 0,
        }
    }

    fn plus(self, o: Counts) -> (r: Counts)
        requires
            self@.plus(o@).fits(),
        ensures
            r@ == self@.plus(o@),
    {
        Counts {
            txs: self.txs + o.txs,
            transfers: self.transfers + o.transfers,
            token_transfers: self.token_transfers + o.token_transfers,
            calls: self.calls + o.calls,
            usdt_transfers: self.usdt_transfers + o.usdt_transfers,
            contracts_created: self.contracts_created + o.contracts_created,
            tokens_issued: self.tokens_issued + o.tokens_issued,
            votes: self.votes + o.votes,
            stakes: self.stakes + o.stakes,
            trx_sun: self.trx_sun + o.trx_sun,
            usdt_units: self.usdt_units + o.usdt_units,
        }
    }

    /// The sum, where it fits the counters.
    pub fn checked_plus(self, o: Counts) -> (r: Option<Counts>)
        ensures
            match r {
                Some(c) => c@ == self@.plus(o@),
                None => !self@.plus(o@).fits(),
            },
    {
        if u64::MAX - self.txs < o.txs || u64::MAX - self.transfers < o.transfers || u64::MAX
            - self.token_transfers < o.token_transfers || u64::MAX - self.calls < o.calls
            || u64::MAX - self.usdt_transfers < o.usdt_transfers || u64::MAX
            - self.contracts_created < o.contracts_created || u64::MAX - self.tokens_issued
            < o.tokens_issued || u64::MAX - self.votes < o.votes || u64::MAX - self.stakes
            < o.stakes || u128::MAX - self.trx_sun < o.trx_sun || u128::MAX - self.usdt_units
            < o.usdt_units {
            None
        } else {
            Some(self.plus(o))
        }
    }
}

// ---------------------------------------------------------------------------
// What one transaction contributes
// ---------------------------------------------------------------------------

/// A positive amount, or nothing.
pub open spec fn positive(amount: i64) -> nat {
    if amount > 0 {
        amount as nat
    } else {
        0
    }
}

/// What one transaction adds to the counters.
pub open spec fn tx_counts(tx: TxContract) -> CountsView {
    let one = CountsView { txs: 1, ..CountsView::zero() };
    match tx {
        TxContract::Transfer(p) => CountsView {
            transfers: 1,
            trx_sun: match p {
                Some(p) => positive(p.amount),
                None => 0,
            },
            ..one
        },
        TxContract::TransferAsset(_) => CountsView { token_transfers: 1, ..one },
        TxContract::Trigger(p) => match p {
            Some(p) => CountsView {
                calls: 1,
                trx_sun: positive(p.call_value),
                usdt_transfers: if is_usdt(p.contract_address@) {
                    1
                } else {
                    0
                },
                usdt_units: match usdt_moved(tx) {
                    Some(u) => u,
                    None => 0,
                },
                ..one
            },
            None => CountsView { calls: 1, ..one },
        },
        TxContract::Create(_) => CountsView { contracts_created: 1, ..one },
        TxContract::AssetIssue(_) => CountsView { tokens_issued: 1, ..one },
        TxContract::VoteWitness => CountsView { votes: 1, ..one },
        TxContract::FreezeBalance => CountsView { stakes: 1, ..one },
        TxContract::FreezeBalanceV2 => CountsView { stakes: 1, ..one },
        TxContract::DelegateResource => CountsView { stakes: 1, ..one },
        _ => one,
    }
}

/// The USDT that a transaction moves, in base units.
pub open spec fn usdt_moved(tx: TxContract) -> Option<nat> {
    match tx {
        TxContract::Trigger(Some(p)) => if is_usdt(p.contract_address@) {
            token_amount(p.data@)
        } else {
            None
        },
        _ => None,
    }
}

/// The wallet that a transaction is counted for.
pub open spec fn sender(tx: TxContract) -> Option<Seq<u8>> {
    match tx {
        TxContract::Transfer(Some(p)) => Some(p.owner_address@),
        TxContract::Trigger(Some(p)) => Some(p.owner_address@),
        _ => None,
    }
}

/// A name, or what stands for a missing one.
pub open spec fn name_or(name: Option<String>, missing: Seq<char>) -> Seq<char> {
    match name {
        Some(n) => if n@.len() > 0 {
            n@
        } else {
            missing
        },
        None => missing,
    }
}

/// The milestone that a transaction is worth, as icon and text.
pub open spec fn tx_news(tx: TxContract, num: int) -> Option<(Seq<char>, Seq<char>)> {
    match tx {
        TxContract::Create(name) => Some(
            (
                "📜"@,
                "Smart contract \""@ + trunc_text(name_or(name, "unnamed"@), 22)
                    + "\" deployed @ #"@ + grouped_int(num),
            ),
        ),
        TxContract::AssetIssue(name) => Some(
            ("🪙"@, "New TRC-10 token issued: \""@ + trunc_text(name_or(name, "?"@), 22) + "\""@),
        ),
        _ => None,
    }
}

fn is_usdt_call(p: &TriggerParams) -> (r: bool)
    ensures
        r == is_usdt(p.contract_address@),
{
    let h = hex_encode(p.contract_address.as_slice());
    str_eq(h.as_str(), USDT_ADDRESS_HEX)
}

fn usdt_in(tx: &TxContract) -> (r: Option<u128>)
    ensures
        match r {
            Some(u) => usdt_moved(*tx) == Some(u as nat),
            None => usdt_moved(*tx) is None,
        },
{
    match tx {
        TxContract::Trigger(Some(p)) => if is_usdt_call(p) {
            usdt_amount(p.data.as_slice())
        } else {
            None
        },
        _ => None,
    }
}

fn counts_of(tx: &TxContract) -> (r: Counts)
    ensures
        r@ == tx_counts(*tx),
{
    let mut c = Counts::zero();
    c.txs = 1;
    match tx {
        TxContract::Transfer(p) => {
            c.transfers = 1;
            if let Some(p) = p {
                if p.amount > 0 {
                    c.trx_sun = p.amount as u128;
                }
            }
        },
        TxContract::TransferAsset(_) => {
            c.token_transfers = 1;
        },
        TxContract::Trigger(q) => {
            c.calls = 1;
            if let Some(p) = q {
                if p.call_value > 0 {
                    c.trx_sun = p.call_value as u128;
                }
                if is_usdt_call(p) {
                    c.usdt_transfers = 1;
                }
                if let Some(u) = usdt_in(tx) {
                    c.usdt_units = u;
                }
            }
        },
        TxContract::Create(_) => {
            c.contracts_created = 1;
        },
        TxContract::AssetIssue(_) => {
            c.tokens_issued = 1;
        },
        TxContract::VoteWitness => {
            c.votes = 1;
        },
        TxContract::FreezeBalance | TxContract::FreezeBalanceV2 | TxContract::DelegateResource => {
            c.stakes = 1;
        },
        TxContract::Absent => {},
        TxContract::Other => {},
    }
    c
}

// ---------------------------------------------------------------------------
// Folding a block
// ---------------------------------------------------------------------------

/// What the first `n` transactions add to the counters.
pub open spec fn block_counts(txs: Seq<TxContract>, n: nat) -> CountsView
    decreases n,
{
    if n == 0 {
        CountsView::zero()
    } else {
        block_counts(txs, (n - 1) as nat).plus(tx_counts(txs[n - 1]))
    }
}

/// The biggest USDT transfer after the first `n` transactions, `start` before
/// them.
pub open spec fn biggest_after(txs: Seq<TxContract>, n: nat, start: nat) -> nat
    decreases n,
{
    if n == 0 {
        start
    } else {
        let b = biggest_after(txs, (n - 1) as nat, start);
        match usdt_moved(txs[n - 1]) {
            Some(u) => if u > b {
                u
            } else {
                b
            },
            None => b,
        }
    }
}

/// The last transfer among the first `n` that was both a new record and a
/// whale.
pub open spec fn whale_after(txs: Seq<TxContract>, n: nat, start: nat) -> Option<nat>
    decreases n,
{
    if n == 0 {
        None
    } else {
        match usdt_moved(txs[n - 1]) {
            Some(u) => if u > biggest_after(txs, (n - 1) as nat, start) && u / 1_000_000
                >= 100_000 {
                Some(u)
            } else {
                whale_after(txs, (n - 1) as nat, start)
            },
            None => whale_after(txs, (n - 1) as nat, start),
        }
    }
}

/// A wallet set with one more address, unless it is empty or the set is full.
pub open spec fn noted(set: Set<Seq<u8>>, addr: Option<Seq<u8>>) -> Set<Seq<u8>> {
    match addr {
        Some(a) => if a.len() > 0 && set.len() < 2_000_000 {
            set.insert(a)
        } else {
            set
        },
        None => set,
    }
}

/// The wallets after the first `n` transactions.
pub open spec fn wallets_after(txs: Seq<TxContract>, n: nat, start: Set<Seq<u8>>) -> Set<Seq<u8>>
    decreases n,
{
    if n == 0 {
        start
    } else {
        noted(wallets_after(txs, (n - 1) as nat, start), sender(txs[n - 1]))
    }
}

proof fn lemma_block_counts_grow(txs: Seq<TxContract>, i: nat, n: nat)
    requires
        i <= n,
    ensures
        block_counts(txs, i).within(block_counts(txs, n)),
    decreases n,
{
    if i < n {
        lemma_block_counts_grow(txs, i, (n - 1) as nat);
    }
}

/// Every transaction is counted once, whatever it holds.
pub proof fn every_transaction_is_counted(txs: Seq<TxContract>, n: nat)
    ensures
        block_counts(txs, n).txs == n,
    decreases n,
{
    if n > 0 {
        every_transaction_is_counted(txs, (n - 1) as nat);
    }
}

// ---------------------------------------------------------------------------
// Milestones
// ---------------------------------------------------------------------------

/// A celebratory one-liner.
#[derive(Debug, Clone)]
pub struct Milestone {
    pub icon: &'static str,
    pub text: String,
}

impl View for Milestone {
    type V = (Seq<char>, Seq<char>);

    open spec fn view(&self) -> (Seq<char>, Seq<char>) {
        (self.icon@, self.text@)
    }
}

/// The milestone panel: the latest first, at most six, and the keys of those
/// that come only once.
pub struct MilestoneBoard {
    pub milestones: Vec<Milestone>,
    pub seen: Vec<String>,
}

/// The panel as plain values.
pub struct BoardView {
    pub items: Seq<(Seq<char>, Seq<char>)>,
    pub seen: Set<Seq<char>>,
}

impl View for MilestoneBoard {
    type V = BoardView;

    open spec fn view(&self) -> BoardView {
        BoardView {
            items: self.milestones@.map_values(|m: Milestone| m@),
            seen: words(self.seen@).to_set(),
        }
    }
}

/// At most the first `n` items.
pub open spec fn first<T>(s: Seq<T>, n: nat) -> Seq<T> {
    if s.len() > n {
        s.take(n as int)
    } else {
        s
    }
}

/// At most the last `n` items.
pub open spec fn last<T>(s: Seq<T>, n: nat) -> Seq<T> {
    if s.len() > n {
        s.skip(s.len() - n)
    } else {
        s
    }
}

impl BoardView {
    /// The panel with a milestone on top.
    pub open spec fn push(self, icon: Seq<char>, text: Seq<char>) -> BoardView {
        BoardView { items: first(seq![(icon, text)] + self.items, 6), ..self }
    }

    /// The panel with a milestone on top, unless its key was seen.
    pub open spec fn push_once(self, key: Seq<char>, icon: Seq<char>, text: Seq<char>) -> BoardView {
        if self.seen.contains(key) {
            self
        } else {
            BoardView { seen: self.seen.insert(key), ..self.push(icon, text) }
        }
    }
}

impl MilestoneBoard {
    fn new() -> (r: MilestoneBoard)
        ensures
            r@ == (BoardView { items: Seq::empty(), seen: Set::empty() }),
    {
        let b = MilestoneBoard { milestones: Vec::new(), seen: Vec::new() };
        assert(b@.items =~= Seq::<(Seq<char>, Seq<char>)>::empty());
        assert(b@.seen =~= Set::<Seq<char>>::empty());
        b
    }

    fn push(&mut self, icon: &'static str, text: String)
        ensures
            final(self)@ == old(self)@.push(icon@, text@),
    {
        let ghost before = self@;
        let ghost t = text@;
        self.milestones.insert(0, Milestone { icon, text });
        assert(self@.items =~= seq![(icon@, t)] + before.items);
        if self.milestones.len() > 6 {
            let ghost all = self@.items;
            self.milestones.truncate(6);
            assert(self@.items =~= all.take(6));
        }
    }

    fn push_once(&mut self, key: &'static str, icon: &'static str, text: String)
        ensures
            final(self)@ == old(self)@.push_once(key@, icon@, text@),
    {
        let mut i: usize = 0;
        let ghost w = words(self.seen@);
        while i < self.seen.len()
            invariant
                i <= self.seen@.len(),
                *self == *old(self),
                w == words(self.seen@),
                forall|j: int| 0 <= j < i ==> w[j] != key@,
            decreases self.seen@.len() - i,
        {
            assert(w[i as int] == self.seen@[i as int]@);
            if str_eq(self.seen[i].as_str(), key) {
                assert(w.contains(key@));
                return;
            }
            i = i + 1;
        }
        assert(!w.contains(key@));
        let ghost seen0 = self@.seen;
        self.push(icon, text);
        let ghost words0 = words(self.seen@);
        self.seen.push(key.to_owned());
        proof {
            let w1 = words(self.seen@);
            assert(w1 =~= words0.push(key@));
            assert(w1.to_set() =~= words0.to_set().insert(key@)) by {
                assert forall|k: Seq<char>| #[trigger] w1.to_set().contains(k)
                    == words0.to_set().insert(key@).contains(k) by {
                    if w1.contains(k) {
                        let j = choose|j: int| 0 <= j < w1.len() && w1[j] == k;
                        if j < words0.len() {
                            assert(words0[j] == k);
                        }
                    }
                    if words0.contains(k) {
                        let j = choose|j: int| 0 <= j < words0.len() && words0[j] == k;
                        assert(w1[j] == k);
                    }
                    if k == key@ {
                        assert(w1[words0.len() as int] == k);
                    }
                }
            }
        }
    }
}

/// The panel after the news of the first `n` transactions.
pub open spec fn board_after(txs: Seq<TxContract>, n: nat, start: BoardView, num: int) -> BoardView
    decreases n,
{
    if n == 0 {
        start
    } else {
        let b = board_after(txs, (n - 1) as nat, start, num);
        match tx_news(txs[n - 1], num) {
            Some(m) => b.push(m.0, m.1),
            None => b,
        }
    }
}

/// The panel after the session thresholds on transactions.
pub open spec fn board_txs(b: BoardView, txs: nat) -> BoardView {
    let b1 = if txs >= 100_000 {
        b.push_once("txs100000"@, "🔄"@, "100K transactions decoded this session"@)
    } else {
        b
    };
    let b2 = if txs >= 500_000 {
        b1.push_once("txs500000"@, "🔄"@, "500K transactions decoded this session"@)
    } else {
        b1
    };
    let b3 = if txs >= 1_000_000 {
        b2.push_once("txs1000000"@, "🔄"@, "1M transactions decoded this session"@)
    } else {
        b2
    };
    if txs >= 5_000_000 {
        b3.push_once("txs5000000"@, "🔄"@, "5M transactions decoded this session"@)
    } else {
        b3
    }
}

/// The panel after the session thresholds on USDT moved, in base units.
pub open spec fn board_usd(b: BoardView, units: nat) -> BoardView {
    let dollars = units / 1_000_000;
    let b1 = if dollars >= 1_000_000 {
        b.push_once("usd1"@, "💸"@, "$1M of USDT moved this session"@)
    } else {
        b
    };
    let b2 = if dollars >= 10_000_000 {
        b1.push_once("usd10"@, "💸"@, "$10M of USDT moved this session"@)
    } else {
        b1
    };
    if dollars >= 100_000_000 {
        b2.push_once("usd100"@, "💸"@, "$100M of USDT moved this session"@)
    } else {
        b2
    }
}

/// A milestone comes once: where its key was seen, nothing changes, and after
/// it came its key is seen.
pub proof fn once_means_once(
    b: BoardView,
    key: Seq<char>,
    icon: Seq<char>,
    text: Seq<char>,
    icon2: Seq<char>,
    text2: Seq<char>,
)
    ensures
        b.push_once(key, icon, text).push_once(key, icon2, text2) == b.push_once(key, icon, text),
{
}

// ---------------------------------------------------------------------------
// The session
// ---------------------------------------------------------------------------

/// What the dashboard knows of the session.
pub struct ExploreState {
    /// The highest block observed.
    pub cursor: i64,
    pub blocks: u64,
    pub counts: Counts,
    pub wallets: AddressSet,
    pub last_num: i64,
    pub last_ts: i64,
    pub biggest_txs: u64,
    pub biggest_num: i64,
    pub biggest_usdt_units: u128,
    pub live: bool,
    pub peak_tps: Double,
    pub peers: Vec<String>,
    /// Arrival time and transaction count of each recent block.
    pub arrivals: VecDeque<(i64, u64)>,
    /// Transaction counts of the last blocks, the newest last.
    pub spark: Vec<u64>,
    /// The last blocks, the newest first.
    pub feed: Vec<FeedBlock>,
    pub board: MilestoneBoard,
}

/// The transactions that arrived, of all blocks in the window.
pub open spec fn arrived(a: Seq<(i64, u64)>) -> nat
    decreases a.len(),
{
    if a.len() == 0 {
        0
    } else {
        a[0].1 as nat + arrived(a.skip(1))
    }
}

/// The window without the leading arrivals before `lo`.
pub open spec fn drop_old(a: Seq<(i64, u64)>, lo: int) -> Seq<(i64, u64)>
    decreases a.len(),
{
    if a.len() > 0 && a[0].0 < lo {
        drop_old(a.skip(1), lo)
    } else {
        a
    }
}

proof fn lemma_arrived_push(a: Seq<(i64, u64)>, x: (i64, u64))
    ensures
        arrived(a.push(x)) == arrived(a) + x.1,
    decreases a.len(),
{
    if a.len() == 0 {
        assert(a.push(x).skip(1) =~= Seq::<(i64, u64)>::empty());
        assert(arrived(a.push(x).skip(1)) == 0);
    } else {
        assert(a.push(x).skip(1) =~= a.skip(1).push(x));
        lemma_arrived_push(a.skip(1), x);
    }
}

proof fn lemma_drop_old_shrinks(a: Seq<(i64, u64)>, lo: int)
    ensures
        arrived(drop_old(a, lo)) <= arrived(a),
    decreases a.len(),
{
    if a.len() > 0 && a[0].0 < lo {
        lemma_drop_old_shrinks(a.skip(1), lo);
    }
}

fn trim_arrivals(a: &mut VecDeque<(i64, u64)>, lo: i64)
    ensures
        final(a)@ == drop_old(old(a)@, lo as int),
{
    while a.len() > 0 && a[0].0 < lo
        invariant
            drop_old(a@, lo as int) == drop_old(old(a)@, lo as int),
        decreases a@.len(),
    {
        let ghost before = a@;
        a.pop_front();
        assert(a@ =~= before.skip(1));
    }
}

fn push_spark(v: &mut Vec<u64>, n: u64)
    ensures
        final(v)@ == last(old(v)@.push(n), 30),
{
    v.push(n);
    let ghost all = v@;
    let ghost mut k: int = 0;
    assert(all.skip(0) =~= all);
    while v.len() > 30
        invariant
            0 <= k <= all.len(),
            v@ == all.skip(k),
            k > 0 ==> all.len() - k >= 30,
        decreases v@.len(),
    {
        v.remove(0);
        proof {
            assert(v@ =~= all.skip(k + 1));
            k = k + 1;
        }
    }
}

fn push_feed(v: &mut Vec<FeedBlock>, f: FeedBlock)
    ensures
        final(v)@ == first(seq![f] + old(v)@, 5),
{
    v.insert(0, f);
    let ghost all = v@;
    assert(all =~= seq![f] + old(v)@);
    if v.len() > 5 {
        v.truncate(5);
        assert(v@ =~= all.take(5));
    }
}

fn note_wallet(set: &mut AddressSet, addr: &[u8])
    requires
        old(set).wf(),
    ensures
        final(set).wf(),
        final(set)@ == noted(old(set)@, Some(addr@)),
{
    if addr.len() > 0 && set.len() < MAX_WALLETS {
        set.insert(addr);
    }
}

fn name_text(name: &Option<String>, missing: &'static str) -> (r: String)
    ensures
        r@ == name_or(*name, missing@),
{
    match name {
        Some(n) => if n.as_str().unicode_len() > 0 {
            n.clone()
        } else {
            missing.to_owned()
        },
        None => missing.to_owned(),
    }
}

fn push_news(board: &mut MilestoneBoard, tx: &TxContract, num: i64)
    ensures
        final(board)@ == (match tx_news(*tx, num as int) {
            Some(m) => old(board)@.push(m.0, m.1),
            None => old(board)@,
        }),
{
    match tx {
        TxContract::Create(name) => {
            let mut s = "Smart contract \"".to_owned();
            let n = name_text(name, "unnamed");
            let t = trunc(n.as_str(), 22);
            s.append(t.as_str());
            s.append("\" deployed @ #");
            let c = commas(num);
            s.append(c.as_str());
            board.push("📜", s);
        },
        TxContract::AssetIssue(name) => {
            let mut s = "New TRC-10 token issued: \"".to_owned();
            let n = name_text(name, "?");
            let t = trunc(n.as_str(), 22);
            s.append(t.as_str());
            s.append("\"");
            board.push("🪙", s);
        },
        _ => {},
    }
}

/// Folds a block's transactions into the wallets and the panel; returns its
/// counts, the biggest transfer so far and the whale, if any.
fn fold_txs(
    txs: &Vec<TxContract>,
    wallets: &mut AddressSet,
    board: &mut MilestoneBoard,
    biggest: u128,
    num: i64,
) -> (r: (Counts, u128, Option<u128>))
    requires
        old(wallets).wf(),
        block_counts(txs@, txs@.len()).fits(),
    ensures
        final(wallets).wf(),
        final(wallets)@ == wallets_after(txs@, txs@.len(), old(wallets)@),
        final(board)@ == board_after(txs@, txs@.len(), old(board)@, num as int),
        r.0@ == block_counts(txs@, txs@.len()),
        r.1 == biggest_after(txs@, txs@.len(), biggest as nat),
        match r.2 {
            Some(u) => whale_after(txs@, txs@.len(), biggest as nat) == Some(u as nat),
            None => whale_after(txs@, txs@.len(), biggest as nat) is None,
        },
{
    let mut c = Counts::zero();
    let mut big: u128 = biggest;
    let mut whale: Option<u128> = None;
    let mut i: usize = 0;
    while i < txs.len()
        invariant
            i <= txs@.len(),
            wallets.wf(),
            block_counts(txs@, txs@.len()).fits(),
            wallets@ == wallets_after(txs@, i as nat, old(wallets)@),
            board@ == board_after(txs@, i as nat, old(board)@, num as int),
            c@ == block_counts(txs@, i as nat),
            big == biggest_after(txs@, i as nat, biggest as nat),
            match whale {
                Some(u) => whale_after(txs@, i as nat, biggest as nat) == Some(u as nat),
                None => whale_after(txs@, i as nat, biggest as nat) is None,
            },
        decreases txs@.len() - i,
    {
        let tx = &txs[i];
        proof {
            lemma_block_counts_grow(txs@, (i + 1) as nat, txs@.len());
        }
        c = c.plus(counts_of(tx));
        match tx {
            TxContract::Transfer(Some(p)) => {
                note_wallet(wallets, p.owner_address.as_slice());
            },
            TxContract::Trigger(Some(p)) => {
                note_wallet(wallets, p.owner_address.as_slice());
            },
            _ => {},
        }
        if let Some(units) = usdt_in(tx) {
            if units > big {
                big = units;
                if units / 1_000_000 >= WHALE_USD {
                    whale = Some(units);
                }
            }
        }
        push_news(board, tx, num);
        i = i + 1;
    }
    (c, big, whale)
}

/// How far `now` is past `ts`, zero where it is not.
pub open spec fn age(now: int, ts: int) -> int {
    if now > ts {
        now - ts
    } else {
        0
    }
}

/// Whether a block of this timestamp is at the live edge.
pub open spec fn at_the_edge(now: int, ts: int) -> bool {
    ts > 0 && age(now, ts) <= 8_000
}

/// The panel after a block.
pub open spec fn board_block(
    old: ExploreState,
    block: StreamedBlock,
    num: int,
    now: int,
) -> BoardView {
    let txs = block.transactions@;
    let n = txs.len();
    let c = old.counts@.plus(block_counts(txs, n));
    let b0 = board_after(txs, n, old.board@, num);
    let b1 = match whale_after(txs, n, old.biggest_usdt_units as nat) {
        Some(u) => b0.push(
            "🐋"@,
            "Whale: "@ + usd_text(u) + " USDT in a single transfer (#"@ + grouped_int(num) + ")"@,
        ),
        None => b0,
    };
    let b2 = if !old.live && at_the_edge(now, block.timestamp as int) {
        b1.push("🟢"@, "Riding the live tip — new blocks the moment they're minted"@)
    } else {
        b1
    };
    let b3 = if n >= 800 {
        b2.push_once(
            "busiest"@,
            "🚀"@,
            "Heavy block: "@ + decimal(n) + " txs in 3 seconds (#"@ + grouped_int(num) + ")"@,
        )
    } else {
        b2
    };
    board_usd(board_txs(b3, c.txs), c.usdt_units)
}

/// What observing a block past the cursor makes of the session.
pub open spec fn observed(
    old: ExploreState,
    new: ExploreState,
    block: StreamedBlock,
    num: int,
    now: int,
) -> bool {
    let txs = block.transactions@;
    let n = txs.len();
    let c = block_counts(txs, n);
    &&& new.cursor == num
    &&& new.blocks == old.blocks + 1
    &&& new.counts@ == old.counts@.plus(c)
    &&& new.wallets@ == wallets_after(txs, n, old.wallets@)
    &&& new.last_num == num
    &&& new.last_ts == block.timestamp
    &&& (if n > old.biggest_txs {
        new.biggest_txs == n && new.biggest_num == num
    } else {
        new.biggest_txs == old.biggest_txs && new.biggest_num == old.biggest_num
    })
    &&& new.biggest_usdt_units == biggest_after(txs, n, old.biggest_usdt_units as nat)
    &&& new.live == (old.live || at_the_edge(now, block.timestamp as int))
    &&& new.peak_tps == old.peak_tps
    &&& new.peers == old.peers
    &&& new.arrivals@ == drop_old(old.arrivals@.push((now as i64, n as u64)), now - 10_000)
    &&& new.spark@ == last(old.spark@.push(n as u64), 30)
    &&& new.feed@ == first(
        seq![
            FeedBlock {
                num: num as i64,
                txs: n as u64,
                usdt: c.usdt_transfers as u64,
                usdt_units: c.usdt_units as u128,
                trx: c.trx_sun as u128,
                new_contract: c.contracts_created > 0,
            },
        ] + old.feed@,
        5,
    )
    &&& new.board@ == board_block(old, block, num, now)
}

/// No transaction is counted in two of the shares.
pub open spec fn shares_apart(c: CountsView) -> bool {
    c.transfers + c.usdt_transfers + c.token_transfers <= c.txs && c.votes + c.stakes <= c.txs
}

proof fn lemma_shares_apart(txs: Seq<TxContract>, n: nat)
    ensures
        shares_apart(block_counts(txs, n)),
    decreases n,
{
    if n > 0 {
        lemma_shares_apart(txs, (n - 1) as nat);
    }
}

impl ExploreState {
    /// The session is consistent.
    pub open spec fn wf(&self) -> bool {
        &&& self.wallets.wf()
        &&& self.peak_tps.wf()
        &&& -4200 <= self.peak_tps.exp <= 68
        &&& arrived(self.arrivals@) <= self.counts.txs
        &&& shares_apart(self.counts@)
        &&& words(self.peers@).no_duplicates()
    }

    /// Starts a session at a known tip.
    pub fn new(tip_at_start: i64) -> (r: ExploreState)
        ensures
            r.wf(),
            r.cursor == 0,
            r.blocks == 0,
            r.counts@ == CountsView::zero(),
            r.wallets@ == Set::<Seq<u8>>::empty(),
            r.last_num == tip_at_start,
            r.last_ts == 0,
            r.biggest_txs == 0,
            r.biggest_num == 0,
            r.biggest_usdt_units == 0,
            !r.live,
            r.peak_tps@ == (0nat, 0int),
            r.peers@.len() == 0,
            r.arrivals@.len() == 0,
            r.spark@.len() == 0,
            r.feed@.len() == 0,
            r.board@ == (BoardView { items: Seq::empty(), seen: Set::empty() }).push(
                "🌅"@,
                "Tuned into TRON mainnet at block #"@ + grouped_int(tip_at_start as int),
            ),
    {
        let mut board = MilestoneBoard::new();
        let mut s = "Tuned into TRON mainnet at block #".to_owned();
        let c = commas(tip_at_start);
        s.append(c.as_str());
        board.push("🌅", s);
        ExploreState {
            cursor: 0,
            blocks: 0,
            counts: Counts::zero(),
            wallets: AddressSet::new(),
            last_num: tip_at_start,
            last_ts: 0,
            biggest_txs: 0,
            biggest_num: 0,
            biggest_usdt_units: 0,
            live: false,
            peak_tps: Double::zero(),
            peers: Vec::new(),
            arrivals: VecDeque::new(),
            spark: Vec::new(),
            feed: Vec::new(),
            board,
        }
    }

    /// Records a peer that a handshake succeeded with, for the peer count.
    pub fn note_peer(&mut self, peer: &str)
        requires
            old(self).wf(),
        ensures
            final(self).wf(),
            words(final(self).peers@) == (if words(old(self).peers@).contains(peer@) {
                words(old(self).peers@)
            } else {
                words(old(self).peers@).push(peer@)
            }),
            *final(self) == (ExploreState { peers: final(self).peers, ..*old(self) }),
    {
        let ghost w = words(self.peers@);
        let mut i: usize = 0;
        while i < self.peers.len()
            invariant
                i <= self.peers@.len(),
                *self == *old(self),
                self.wf(),
                w == words(self.peers@),
                forall|j: int| 0 <= j < i ==> w[j] != peer@,
            decreases self.peers@.len() - i,
        {
            assert(w[i as int] == self.peers@[i as int]@);
            if str_eq(self.peers[i].as_str(), peer) {
                assert(w.contains(peer@));
                return;
            }
            i = i + 1;
        }
        assert(!w.contains(peer@));
        self.peers.push(peer.to_owned());
        assert(words(self.peers@) =~= w.push(peer@));
    }

    /// Whether the counters have room for a block.
    pub fn has_room(&self, block: &StreamedBlock) -> (r: bool)
        ensures
            r == (self.blocks < u64::MAX && self.counts@.plus(
                block_counts(block.transactions@, block.transactions@.len()),
            ).fits()),
    {
        let txs = &block.transactions;
        let mut c = self.counts;
        let mut i: usize = 0;
        assert(c@ == self.counts@.plus(block_counts(txs@, 0)));
        while i < txs.len()
            invariant
                txs == block.transactions,
                i <= txs@.len(),
                c@ == self.counts@.plus(block_counts(txs@, i as nat)),
            decreases txs@.len() - i,
        {
            proof {
                lemma_block_counts_grow(txs@, (i + 1) as nat, txs@.len());
            }
            match c.checked_plus(counts_of(&txs[i])) {
                Some(d) => {
                    c = d;
                },
                None => {
                    return false;
                },
            }
            i = i + 1;
        }
        assert(c@.fits());
        self.blocks < u64::MAX
    }

    /// Folds one streamed block into the session. Only progress past the
    /// cursor counts, so a block that several peers deliver is folded once.
    pub fn observe_block(&mut self, block: &StreamedBlock, block_num: i64, now_ms: i64)
        requires
            old(self).wf(),
            old(self).blocks < u64::MAX,
            old(self).counts@.plus(
                block_counts(block.transactions@, block.transactions@.len()),
            ).fits(),
            now_ms >= i64::MIN + 10_000,
            i64::MIN <= now_ms - block.timestamp <= i64::MAX,
        ensures
            final(self).wf(),
            if block_num <= old(self).cursor {
                *final(self) == *old(self)
            } else {
                observed(*old(self), *final(self), *block, block_num as int, now_ms as int)
            },
    {
        if block_num <= self.cursor {
            return;
        }
        let ghost txs = block.transactions@;
        let ghost n = txs.len();
        proof {
            every_transaction_is_counted(txs, n);
            lemma_shares_apart(txs, n);
        }
        let (c, big, whale) = fold_txs(
            &block.transactions,
            &mut self.wallets,
            &mut self.board,
            self.biggest_usdt_units,
            block_num,
        );
        let ts: i64 = block.timestamp;
        self.cursor = block_num;
        self.blocks = self.blocks + 1;
        self.counts = self.counts.plus(c);
        self.arrivals.push_back((now_ms, c.txs));
        proof {
            lemma_arrived_push(old(self).arrivals@, (now_ms, c.txs));
            lemma_drop_old_shrinks(self.arrivals@, now_ms - 10_000);
        }
        trim_arrivals(&mut self.arrivals, now_ms - 10_000);
        push_spark(&mut self.spark, c.txs);
        self.last_num = block_num;
        self.last_ts = ts;
        if c.txs > self.biggest_txs {
            self.biggest_txs = c.txs;
            self.biggest_num = block_num;
        }
        self.biggest_usdt_units = big;
        push_feed(
            &mut self.feed,
            FeedBlock {
                num: block_num,
                txs: c.txs,
                usdt: c.usdt_transfers,
                usdt_units: c.usdt_units,
                trx: c.trx_sun,
                new_contract: c.contracts_created > 0,
            },
        );
        let fresh: bool = ts > 0 && now_ms - ts <= 8_000;
        push_block_news(&mut self.board, whale, fresh && !self.live, c.txs, block_num);
        if fresh {
            self.live = true;
        }
        push_thresholds(&mut self.board, self.counts.txs, self.counts.usdt_units);
    }
}

fn push_block_news(
    board: &mut MilestoneBoard,
    whale: Option<u128>,
    live: bool,
    txs: u64,
    num: i64,
)
    ensures
        ({
            let b1 = match whale {
                Some(u) => old(board)@.push(
                    "🐋"@,
                    "Whale: "@ + usd_text(u as nat) + " USDT in a single transfer (#"@
                        + grouped_int(num as int) + ")"@,
                ),
                None => old(board)@,
            };
            let b2 = if live {
                b1.push("🟢"@, "Riding the live tip — new blocks the moment they're minted"@)
            } else {
                b1
            };
            final(board)@ == (if txs >= 800 {
                b2.push_once(
                    "busiest"@,
                    "🚀"@,
                    "Heavy block: "@ + decimal(txs as nat) + " txs in 3 seconds (#"@ + grouped_int(
                        num as int,
                    ) + ")"@,
                )
            } else {
                b2
            })
        }),
{
    let at = commas(num);
    if let Some(units) = whale {
        let mut s = "Whale: ".to_owned();
        let d = usd(units);
        s.append(d.as_str());
        s.append(" USDT in a single transfer (#");
        s.append(at.as_str());
        s.append(")");
        board.push("🐋", s);
    }
    if live {
        board.push("🟢", "Riding the live tip — new blocks the moment they're minted".to_owned());
    }
    if txs >= 800 {
        let mut s = "Heavy block: ".to_owned();
        append_nat(&mut s, txs as u128);
        s.append(" txs in 3 seconds (#");
        s.append(at.as_str());
        s.append(")");
        board.push_once("busiest", "🚀", s);
    }
}

fn push_thresholds(board: &mut MilestoneBoard, txs: u64, units: u128)
    ensures
        final(board)@ == board_usd(board_txs(old(board)@, txs as nat), units as nat),
{
    if txs >= 100_000 {
        board.push_once("txs100000", "🔄", "100K transactions decoded this session".to_owned());
    }
    if txs >= 500_000 {
        board.push_once("txs500000", "🔄", "500K transactions decoded this session".to_owned());
    }
    if txs >= 1_000_000 {
        board.push_once("txs1000000", "🔄", "1M transactions decoded this session".to_owned());
    }
    if txs >= 5_000_000 {
        board.push_once("txs5000000", "🔄", "5M transactions decoded this session".to_owned());
    }
    let dollars: u128 = units / 1_000_000;
    if dollars >= 1_000_000 {
        board.push_once("usd1", "💸", "$1M of USDT moved this session".to_owned());
    }
    if dollars >= 10_000_000 {
        board.push_once("usd10", "💸", "$10M of USDT moved this session".to_owned());
    }
    if dollars >= 100_000_000 {
        board.push_once("usd100", "💸", "$100M of USDT moved this session".to_owned());
    }
}

// ---------------------------------------------------------------------------
// The frame
// ---------------------------------------------------------------------------

/// The transactions of the arrivals since `lo`.
pub open spec fn window_txs(a: Seq<(i64, u64)>, lo: int) -> nat
    decreases a.len(),
{
    if a.len() == 0 {
        0
    } else {
        (if a[0].0 >= lo {
            a[0].1 as nat
        } else {
            0
        }) + window_txs(a.skip(1), lo)
    }
}

/// How many arrivals there are since `lo`.
pub open spec fn window_blocks(a: Seq<(i64, u64)>, lo: int) -> nat
    decreases a.len(),
{
    if a.len() == 0 {
        0
    } else {
        (if a[0].0 >= lo {
            1nat
        } else {
            0
        }) + window_blocks(a.skip(1), lo)
    }
}

proof fn lemma_window_bound(a: Seq<(i64, u64)>, lo: int)
    ensures
        window_txs(a, lo) <= arrived(a),
        window_blocks(a, lo) <= a.len(),
    decreases a.len(),
{
    if a.len() > 0 {
        lemma_window_bound(a.skip(1), lo);
    }
}

/// One, as a binary64.
pub open spec fn one() -> (nat, int) {
    (0x10_0000_0000_0000, -52)
}

/// The seconds that a window covers from its first arrival on, at least one.
/// `first` is None where nothing arrived.
pub open spec fn span(first: Option<int>, now: int) -> (nat, int) {
    match first {
        Some(f) => {
            let lo = now - 10_000;
            let ms = now - if f > lo {
                f
            } else {
                lo
            };
            if ms < 1000 {
                one()
            } else {
                nearest(ms as nat, 1000, 0)
            }
        },
        None => one(),
    }
}

/// The seconds of a window, at least one.
pub fn span_seconds(first: Option<i64>, now_ms: i64) -> (r: Double)
    requires
        now_ms >= i64::MIN + 10_000,
        first matches Some(f) ==> now_ms - f >= i64::MIN,
    ensures
        r@ == span(
            match first {
                Some(f) => Some(f as int),
                None => None,
            },
            now_ms as int,
        ),
        r.wf(),
        r.mant > 0,
        -52 <= r.exp <= 1,
{
    let unit = Double { mant: 0x10_0000_0000_0000, exp: -52 };
    match first {
        Some(f) => {
            let lo: i64 = now_ms - 10_000;
            let from: i64 = if f > lo { f } else { lo };
            let ms: i64 = now_ms - from;
            if ms < 1000 {
                unit
            } else {
                nearest_double(ms as u128, 1000, 0)
            }
        },
        None => unit,
    }
}

/// The time of the first arrival, if any.
pub open spec fn first_arrival(a: Seq<(i64, u64)>) -> Option<int> {
    if a.len() == 0 {
        None
    } else {
        Some(a[0].0 as int)
    }
}

/// Transactions per second over the window.
pub open spec fn tps(s: ExploreState, now: int) -> (nat, int) {
    quotient(of_nat(window_txs(s.arrivals@, now - 10_000)), span(first_arrival(s.arrivals@), now))
}

/// Blocks per second over the window.
pub open spec fn block_rate(s: ExploreState, now: int) -> (nat, int) {
    quotient(
        of_nat(window_blocks(s.arrivals@, now - 10_000)),
        span(first_arrival(s.arrivals@), now),
    )
}

/// The peak rate after a reading. Only a steady cadence of at most one block a
/// second counts, so that a catch-up burst does not.
pub open spec fn peak_after(s: ExploreState, now: int) -> (nat, int) {
    if s.live && !Double::exceeds(block_rate(s, now), one()) && Double::exceeds(
        tps(s, now),
        s.peak_tps@,
    ) {
        tps(s, now)
    } else {
        s.peak_tps@
    }
}

/// The colour and the words of the status.
pub open spec fn status(last_ts: int, now: int) -> (Seq<char>, Seq<char>) {
    if last_ts == 0 {
        (YEL@, "connecting…"@)
    } else if age(now, last_ts) <= 8_000 {
        (GRN@, "🟢 LIVE"@)
    } else {
        (YEL@, "syncing the live edge · "@ + dur_text(age(now, last_ts)) + " behind"@)
    }
}

/// The header panel.
pub open spec fn header_text(
    s: ExploreState,
    now: int,
    uptime: int,
    tps: (nat, int),
    rate: (nat, int),
    peak: (nat, int),
) -> Seq<char> {
    let st = status(s.last_ts as int, now);
    let peak_str = if !Double::exceeds(one(), peak) {
        " "@ + DIM@ + "· peak "@ + fixed0(peak) + RST@
    } else {
        ""@
    };
    let peers = if s.peers@.len() > 1 {
        s.peers@.len()
    } else {
        1
    };
    let top = "\x1b[H"@ + line_text(
        RED@ + BOLD@ + "🧌 TRON GOBLIN"@ + RST@ + "  "@ + DIM@ + "·"@ + RST@ + "  "@ + ORG@ + BOLD@
            + "MAINNET LIVE FEED"@ + RST@,
    ) + rule_text(64) + line_text(
        "  "@ + CYN@ + "📅 "@ + utc_stamp(s.last_ts as int) + RST@ + "      "@ + BOLD@ + "block #"@
            + grouped_int(s.last_num as int) + RST@,
    ) + line_text(
        "  "@ + st.0 + st.1 + RST@ + "    "@ + MAG@ + "⚡ "@ + fixed0(tps) + " TPS"@ + RST@ + peak_str
            + "    "@ + GRY@ + "📦 "@ + fixed1(rate) + " blk/s · 🔗 "@ + decimal(peers) + " peers"@
            + RST@,
    ) + line_text(
        "  "@ + GRY@ + "⏱ watching "@ + dur_text(uptime) + " · 📦 "@ + grouped_int(
            signed64(s.blocks as nat),
        ) + " blocks streamed"@ + RST@,
    );
    (if s.spark@.len() > 0 {
        top + line_text(
            "  "@ + DIM@ + "block sizes"@ + RST@ + " "@ + GRN@ + sparkline_text(s.spark@) + RST@
                + "  "@ + GRY@ + "(txs/block, last "@ + decimal(s.spark@.len()) + ")"@ + RST@,
        )
    } else {
        top
    }) + "\x1b[K\r\n"@
}

fn header(
    s: &ExploreState,
    now_ms: i64,
    uptime_ms: i64,
    tps: &Double,
    rate: &Double,
    peak: &Double,
) -> (r: String)
    requires
        i64::MIN <= now_ms - s.last_ts <= i64::MAX,
        tps.wf(),
        rate.wf(),
        peak.wf(),
        -4200 <= tps.exp <= 68,
        -4200 <= rate.exp <= 68,
        -4200 <= peak.exp <= 68,
    ensures
        r@ == header_text(*s, now_ms as int, uptime_ms as int, tps@, rate@, peak@),
{
    let mut out = "\x1b[H".to_owned();

    let mut l = RED.to_owned();
    l.append(BOLD);
    l.append("🧌 TRON GOBLIN");
    l.append(RST);
    l.append("  ");
    l.append(DIM);
    l.append("·");
    l.append(RST);
    l.append("  ");
    l.append(ORG);
    l.append(BOLD);
    l.append("MAINNET LIVE FEED");
    l.append(RST);
    let t = line(l.as_str());
    out.append(t.as_str());
    let t = rule(64);
    out.append(t.as_str());

    let mut l = "  ".to_owned();
    l.append(CYN);
    l.append("📅 ");
    let when = utc(s.last_ts);
    l.append(when.as_str());
    l.append(RST);
    l.append("      ");
    l.append(BOLD);
    l.append("block #");
    let num = commas(s.last_num);
    l.append(num.as_str());
    l.append(RST);
    let t = line(l.as_str());
    out.append(t.as_str());

    let behind: i64 = if now_ms > s.last_ts { now_ms - s.last_ts } else { 0 };
    let mut l = "  ".to_owned();
    if s.last_ts == 0 {
        l.append(YEL);
        l.append("connecting…");
    } else if behind <= 8_000 {
        l.append(GRN);
        l.append("🟢 LIVE");
    } else {
        let mut w = "syncing the live edge · ".to_owned();
        let d = dur(behind);
        w.append(d.as_str());
        w.append(" behind");
        l.append(YEL);
        l.append(w.as_str());
    }
    l.append(RST);
    l.append("    ");
    l.append(MAG);
    l.append("⚡ ");
    append_fixed0(&mut l, tps);
    l.append(" TPS");
    l.append(RST);
    let unit = Double { mant: 0x10_0000_0000_0000, exp: -52 };
    let mut peak_str = "".to_owned();
    if !unit.above(peak) {
        peak_str = " ".to_owned();
        peak_str.append(DIM);
        peak_str.append("· peak ");
        append_fixed0(&mut peak_str, peak);
        peak_str.append(RST);
    }
    l.append(peak_str.as_str());
    l.append("    ");
    l.append(GRY);
    l.append("📦 ");
    append_fixed1(&mut l, rate);
    l.append(" blk/s · 🔗 ");
    let peers: usize = if s.peers.len() > 1 { s.peers.len() } else { 1 };
    append_nat(&mut l, peers as u128);
    l.append(" peers");
    l.append(RST);
    let t = line(l.as_str());
    out.append(t.as_str());

    let mut l = "  ".to_owned();
    l.append(GRY);
    l.append("⏱ watching ");
    let d = dur(uptime_ms);
    l.append(d.as_str());
    l.append(" · 📦 ");
    let n = commas(to_signed64(s.blocks));
    l.append(n.as_str());
    l.append(" blocks streamed");
    l.append(RST);
    let t = line(l.as_str());
    out.append(t.as_str());

    if s.spark.len() > 0 {
        let mut l = "  ".to_owned();
        l.append(DIM);
        l.append("block sizes");
        l.append(RST);
        l.append(" ");
        l.append(GRN);
        let sp = sparkline(&s.spark);
        l.append(sp.as_str());
        l.append(RST);
        l.append("  ");
        l.append(GRY);
        l.append("(txs/block, last ");
        append_nat(&mut l, s.spark.len() as u128);
        l.append(")");
        l.append(RST);
        let t = line(l.as_str());
        out.append(t.as_str());
    }
    let t = blank();
    out.append(t.as_str());
    out
}

/// The session totals panel.
pub open spec fn totals_text(s: ExploreState) -> Seq<char> {
    let c = s.counts;
    section_text("THIS SESSION"@, 64) + row_text(
        32,
        cell_text("🔄"@, "transactions"@, grouped_int(signed64(c.txs as nat))),
        cell_text("👛"@, "active wallets"@, compact_text(s.wallets@.len())),
    ) + row_text(
        32,
        cell_text("💵"@, "TRX moved"@, trx_text(c.trx_sun as nat)),
        cell_text("💚"@, "USDT volume"@, usd_text(c.usdt_units as nat)),
    ) + row_text(
        32,
        cell_text("📜"@, "contract calls"@, grouped_int(signed64(c.calls as nat))),
        cell_text("💸"@, "USDT transfers"@, grouped_int(signed64(c.usdt_transfers as nat))),
    ) + row_text(
        32,
        cell_text("🪙"@, "token transfers"@, grouped_int(signed64(c.token_transfers as nat))),
        cell_text("🗳"@, "votes+stakes"@, grouped_int(signed64((c.votes + c.stakes) as nat))),
    ) + row_text(
        32,
        cell_text("🚀"@, "busiest block"@, grouped_int(signed64(s.biggest_txs as nat)) + " txs"@),
        cell_text("🐋"@, "biggest USDT"@, usd_text(s.biggest_usdt_units as nat)),
    ) + "\x1b[K\r\n"@
}

fn totals(s: &ExploreState) -> (r: String)
    requires
        s.wf(),
    ensures
        r@ == totals_text(*s),
{
    let c = s.counts;
    let mut out = section("THIS SESSION", 64);
    let a = commas(to_signed64(c.txs));
    let b = compact(s.wallets.len() as u128);
    let t = row2(32, "🔄", "transactions", a.as_str(), "👛", "active wallets", b.as_str());
    out.append(t.as_str());
    let a = human_trx(c.trx_sun);
    let b = usd(c.usdt_units);
    let t = row2(32, "💵", "TRX moved", a.as_str(), "💚", "USDT volume", b.as_str());
    out.append(t.as_str());
    let a = commas(to_signed64(c.calls));
    let b = commas(to_signed64(c.usdt_transfers));
    let t = row2(32, "📜", "contract calls", a.as_str(), "💸", "USDT transfers", b.as_str());
    out.append(t.as_str());
    let a = commas(to_signed64(c.token_transfers));
    let b = commas(to_signed64(c.votes + c.stakes));
    let t = row2(32, "🪙", "token transfers", a.as_str(), "🗳", "votes+stakes", b.as_str());
    out.append(t.as_str());
    let mut a = commas(to_signed64(s.biggest_txs));
    a.append(" txs");
    let b = usd(s.biggest_usdt_units);
    let t = row2(32, "🚀", "busiest block", a.as_str(), "🐋", "biggest USDT", b.as_str());
    out.append(t.as_str());
    let t = blank();
    out.append(t.as_str());
    out
}

/// The share of `c` in `tot`, in percent.
pub open spec fn percent(c: u64, tot: u64) -> nat {
    let hundredfold = if c * 100 > u64::MAX {
        u64::MAX as nat
    } else {
        (c * 100) as nat
    };
    hundredfold / (if tot > 1 {
        tot as nat
    } else {
        1
    })
}

fn percent_of(c: u64, tot: u64) -> (r: u64)
    ensures
        r == percent(c, tot),
{
    let big: u128 = c as u128 * 100;
    let h: u64 = if big > u64::MAX as u128 { u64::MAX } else { big as u64 };
    let d: u64 = if tot > 1 { tot } else { 1 };
    h / d
}

/// What is in none of the named shares.
pub open spec fn other_share(c: Counts) -> u64 {
    (c.txs - c.transfers - c.usdt_transfers - c.token_transfers) as u64
}

/// The transaction mix panel.
pub open spec fn mix_text(c: Counts) -> Seq<char> {
    let other = other_share(c);
    let parts = seq![
        (c.transfers, CYN@),
        (c.usdt_transfers, GRN@),
        (c.token_transfers, YEL@),
        (other, MAG@),
    ];
    section_text("TX MIX"@, 64) + line_text("   "@ + bar_text(parts, 46)) + line_text(
        "   "@ + CYN@ + "▪ TRX "@ + decimal(percent(c.transfers, c.txs)) + "%"@ + RST@ + "   "@
            + GRN@ + "▪ USDT "@ + decimal(percent(c.usdt_transfers, c.txs)) + "%"@ + RST@ + "   "@
            + YEL@ + "▪ tokens "@ + decimal(percent(c.token_transfers, c.txs)) + "%"@ + RST@
            + "   "@ + MAG@ + "▪ other "@ + decimal(percent(other, c.txs)) + "%"@ + RST@,
    ) + "\x1b[K\r\n"@
}

fn mix(c: &Counts) -> (r: String)
    requires
        shares_apart(c@),
    ensures
        r@ == mix_text(*c),
{
    let other: u64 = c.txs - c.transfers - c.usdt_transfers - c.token_transfers;
    let mut parts: Vec<(u64, &'static str)> = Vec::new();
    parts.push((c.transfers, CYN));
    parts.push((c.usdt_transfers, GRN));
    parts.push((c.token_transfers, YEL));
    parts.push((other, MAG));
    let ghost pv = seq![
        (c.transfers, CYN@),
        (c.usdt_transfers, GRN@),
        (c.token_transfers, YEL@),
        (other, MAG@),
    ];
    proof {
        assert(parts_view(parts@) =~= pv);
        assert(pv.drop_last().drop_last().drop_last().drop_last().len() == 0);
        reveal_with_fuel(total, 5);
        assert(total(pv) == c.txs);
    }
    let mut out = section("TX MIX", 64);
    let bar = mix_bar(&parts, 46);
    let mut l = "   ".to_owned();
    l.append(bar.as_str());
    let t = line(l.as_str());
    out.append(t.as_str());
    let mut l = "   ".to_owned();
    l.append(CYN);
    l.append("▪ TRX ");
    append_nat(&mut l, percent_of(c.transfers, c.txs) as u128);
    l.append("%");
    l.append(RST);
    l.append("   ");
    l.append(GRN);
    l.append("▪ USDT ");
    append_nat(&mut l, percent_of(c.usdt_transfers, c.txs) as u128);
    l.append("%");
    l.append(RST);
    l.append("   ");
    l.append(YEL);
    l.append("▪ tokens ");
    append_nat(&mut l, percent_of(c.token_transfers, c.txs) as u128);
    l.append("%");
    l.append(RST);
    l.append("   ");
    l.append(MAG);
    l.append("▪ other ");
    append_nat(&mut l, percent_of(other, c.txs) as u128);
    l.append("%");
    l.append(RST);
    let t = line(l.as_str());
    out.append(t.as_str());
    let t = blank();
    out.append(t.as_str());
    out
}

/// One line of the block stream.
pub open spec fn feed_line(f: FeedBlock) -> Seq<char> {
    let e0 = ""@;
    let e1 = if f.usdt > 0 {
        e0 + " "@ + GRN@ + "· "@ + decimal(f.usdt as nat) + " USDT"@ + RST@
    } else {
        e0
    };
    let e2 = if f.usdt_units >= 1_000_000 {
        e1 + " "@ + GRN@ + usd_text(f.usdt_units as nat) + RST@
    } else {
        e1
    };
    let e3 = if f.trx >= 1_000_000 {
        e2 + " "@ + CYN@ + "· "@ + trx_text(f.trx as nat) + " TRX"@ + RST@
    } else {
        e2
    };
    let e4 = if f.new_contract {
        e3 + " "@ + MAG@ + "· 📜 new contract"@ + RST@
    } else {
        e3
    };
    line_text(
        "   "@ + GRN@ + "▸"@ + RST@ + " "@ + BOLD@ + "#"@ + grouped_int(f.num as int) + RST@ + "  "@
            + decimal(f.txs as nat) + " tx"@ + e4,
    )
}

fn feed_row(f: &FeedBlock) -> (r: String)
    ensures
        r@ == feed_line(*f),
{
    let mut e = "".to_owned();
    if f.usdt > 0 {
        e.append(" ");
        e.append(GRN);
        e.append("· ");
        append_nat(&mut e, f.usdt as u128);
        e.append(" USDT");
        e.append(RST);
    }
    if f.usdt_units >= 1_000_000 {
        e.append(" ");
        e.append(GRN);
        let d = usd(f.usdt_units);
        e.append(d.as_str());
        e.append(RST);
    }
    if f.trx >= 1_000_000 {
        e.append(" ");
        e.append(CYN);
        e.append("· ");
        let d = human_trx(f.trx);
        e.append(d.as_str());
        e.append(" TRX");
        e.append(RST);
    }
    if f.new_contract {
        e.append(" ");
        e.append(MAG);
        e.append("· 📜 new contract");
        e.append(RST);
    }
    let mut l = "   ".to_owned();
    l.append(GRN);
    l.append("▸");
    l.append(RST);
    l.append(" ");
    l.append(BOLD);
    l.append("#");
    let n = commas(f.num);
    l.append(n.as_str());
    l.append(RST);
    l.append("  ");
    append_nat(&mut l, f.txs as u128);
    l.append(" tx");
    l.append(e.as_str());
    line(l.as_str())
}

/// The first `n` lines of the block stream, after `acc`.
pub open spec fn feed_lines(acc: Seq<char>, feed: Seq<FeedBlock>, n: nat) -> Seq<char>
    decreases n,
{
    if n == 0 {
        acc
    } else {
        feed_lines(acc, feed, (n - 1) as nat) + feed_line(feed[n - 1])
    }
}

/// The block stream panel.
pub open spec fn stream_text(feed: Seq<FeedBlock>) -> Seq<char> {
    let head = section_text("BLOCK STREAM"@, 64);
    feed_lines(
        if feed.len() == 0 {
            head + line_text("   "@ + DIM@ + "waiting for the next block…"@ + RST@)
        } else {
            head
        },
        feed,
        feed.len(),
    ) + "\x1b[K\r\n"@
}

fn stream(feed: &Vec<FeedBlock>) -> (r: String)
    ensures
        r@ == stream_text(feed@),
{
    let mut out = section("BLOCK STREAM", 64);
    if feed.len() == 0 {
        let mut l = "   ".to_owned();
        l.append(DIM);
        l.append("waiting for the next block…");
        l.append(RST);
        let t = line(l.as_str());
        out.append(t.as_str());
    }
    let ghost acc = out@;
    let mut i: usize = 0;
    while i < feed.len()
        invariant
            i <= feed@.len(),
            out@ == feed_lines(acc, feed@, i as nat),
        decreases feed@.len() - i,
    {
        let t = feed_row(&feed[i]);
        out.append(t.as_str());
        i = i + 1;
    }
    let t = blank();
    out.append(t.as_str());
    out
}

/// The first `n` lines of the milestone panel, after `acc`.
pub open spec fn milestone_lines(
    acc: Seq<char>,
    items: Seq<(Seq<char>, Seq<char>)>,
    n: nat,
) -> Seq<char>
    decreases n,
{
    if n == 0 {
        acc
    } else {
        milestone_lines(acc, items, (n - 1) as nat) + line_text(
            "   "@ + items[n - 1].0 + " "@ + YEL@ + items[n - 1].1 + RST@,
        )
    }
}

/// The milestone panel: the latest four.
pub open spec fn milestones_text(items: Seq<(Seq<char>, Seq<char>)>) -> Seq<char> {
    milestone_lines(
        section_text("MILESTONES"@, 64),
        items,
        if items.len() > 4 {
            4
        } else {
            items.len()
        },
    ) + "\x1b[K\r\n"@
}

fn milestone_panel(board: &MilestoneBoard) -> (r: String)
    ensures
        r@ == milestones_text(board@.items),
{
    let mut out = section("MILESTONES", 64);
    let ghost acc = out@;
    let ghost items = board@.items;
    let n: usize = if board.milestones.len() > 4 { 4 } else { board.milestones.len() };
    let mut i: usize = 0;
    while i < n
        invariant
            i <= n <= board.milestones@.len(),
            items == board@.items,
            out@ == milestone_lines(acc, items, i as nat),
        decreases n - i,
    {
        assert(items[i as int] == board.milestones@[i as int]@);
        let mut l = "   ".to_owned();
        l.append(board.milestones[i].icon);
        l.append(" ");
        l.append(YEL);
        l.append(board.milestones[i].text.as_str());
        l.append(RST);
        let t = line(l.as_str());
        out.append(t.as_str());
        i = i + 1;
    }
    let t = blank();
    out.append(t.as_str());
    out
}

/// The frame around the given rates.
pub open spec fn frame_with(
    s: ExploreState,
    now: int,
    uptime: int,
    rate: (nat, int),
    blocks: (nat, int),
    peak: (nat, int),
) -> Seq<char> {
    header_text(s, now, uptime, rate, blocks, peak) + totals_text(s) + mix_text(s.counts)
        + stream_text(s.feed@) + milestones_text(s.board@.items) + line_text(
        "  "@ + DIM@ + "decode-only live view · no state, no snapshot · Ctrl-C to stop"@ + RST@,
    ) + "\x1b[J"@
}

/// The whole frame.
pub open spec fn frame_text(s: ExploreState, now: int, uptime: int) -> Seq<char> {
    frame_with(s, now, uptime, tps(s, now), block_rate(s, now), peak_after(s, now))
}

/// Counts the transactions and blocks that arrived since `lo`.
fn window(arrivals: &VecDeque<(i64, u64)>, lo: i64) -> (r: (u64, u64))
    requires
        arrived(arrivals@) <= u64::MAX,
    ensures
        r.0 == window_txs(arrivals@, lo as int),
        r.1 == window_blocks(arrivals@, lo as int),
{
    let mut txs: u64 = 0;
    let mut blocks: u64 = 0;
    let mut i: usize = 0;
    let ghost a = arrivals@;
    assert(a.skip(0) =~= a);
    while i < arrivals.len()
        invariant
            a == arrivals@,
            arrived(a) <= u64::MAX,
            i <= a.len(),
            blocks <= i,
            txs + window_txs(a.skip(i as int), lo as int) == window_txs(a, lo as int),
            blocks + window_blocks(a.skip(i as int), lo as int) == window_blocks(a, lo as int),
        decreases a.len() - i,
    {
        let ghost rest = a.skip(i as int);
        let entry = arrivals[i];
        proof {
            assert(rest[0] == a[i as int]);
            assert(rest.skip(1) =~= a.skip(i + 1));
            lemma_window_bound(a, lo as int);
        }
        if entry.0 >= lo {
            txs = txs + entry.1;
            blocks = blocks + 1;
        }
        i = i + 1;
    }
    assert(a.skip(i as int).len() == 0);
    (txs, blocks)
}

impl ExploreState {
    /// Transactions and blocks per second over the window.
    fn rates(&self, now_ms: i64) -> (r: (Double, Double))
        requires
            self.wf(),
            now_ms >= i64::MIN + 10_000,
            first_arrival(self.arrivals@) matches Some(f) ==> now_ms - f >= i64::MIN,
        ensures
            r.0@ == tps(*self, now_ms as int),
            r.1@ == block_rate(*self, now_ms as int),
            r.0.wf(),
            r.1.wf(),
            -4200 <= r.0.exp <= 68,
            -4200 <= r.1.exp <= 68,
    {
        let (txs, blocks) = window(&self.arrivals, now_ms - 10_000);
        let first: Option<i64> = if self.arrivals.len() > 0 {
            Some(self.arrivals[0].0)
        } else {
            None
        };
        let secs = span_seconds(first, now_ms);
        let txs_d = double_of(txs as u128);
        let blocks_d = double_of(blocks as u128);
        (divide(&txs_d, &secs), divide(&blocks_d, &secs))
    }

    /// Draws the frame around the given rates.
    fn draw(&self, now_ms: i64, uptime_ms: i64, rate: &Double, blocks: &Double, peak: &Double) -> (r:
        String)
        requires
            self.wf(),
            i64::MIN <= now_ms - self.last_ts <= i64::MAX,
            rate.wf(),
            blocks.wf(),
            peak.wf(),
            -4200 <= rate.exp <= 68,
            -4200 <= blocks.exp <= 68,
            -4200 <= peak.exp <= 68,
        ensures
            r@ == frame_with(*self, now_ms as int, uptime_ms as int, rate@, blocks@, peak@),
    {
        let mut out = header(self, now_ms, uptime_ms, rate, blocks, peak);
        let t = totals(self);
        out.append(t.as_str());
        let t = mix(&self.counts);
        out.append(t.as_str());
        let t = stream(&self.feed);
        out.append(t.as_str());
        let t = milestone_panel(&self.board);
        out.append(t.as_str());
        let mut l = "  ".to_owned();
        l.append(DIM);
        l.append("decode-only live view · no state, no snapshot · Ctrl-C to stop");
        l.append(RST);
        let t = line(l.as_str());
        out.append(t.as_str());
        out.append("\x1b[J");
        out
    }

    /// Builds a dashboard frame for the given time and uptime, and tracks the
    /// peak rate.
    pub fn render(&mut self, now_ms: i64, uptime_ms: i64) -> (r: String)
        requires
            old(self).wf(),
            now_ms >= i64::MIN + 10_000,
            i64::MIN <= now_ms - old(self).last_ts <= i64::MAX,
            first_arrival(old(self).arrivals@) matches Some(f) ==> now_ms - f >= i64::MIN,
        ensures
            final(self).wf(),
            *final(self) == (ExploreState { peak_tps: final(self).peak_tps, ..*old(self) }),
            final(self).peak_tps@ == peak_after(*old(self), now_ms as int),
            r@ == frame_text(*old(self), now_ms as int, uptime_ms as int),
    {
        let (rate, blocks) = self.rates(now_ms);
        let unit = Double { mant: 0x10_0000_0000_0000, exp: -52 };
        let peak = if self.live && !blocks.above(&unit) && rate.above(&self.peak_tps) {
            rate
        } else {
            self.peak_tps
        };
        let out = self.draw(now_ms, uptime_ms, &rate, &blocks, &peak);
        self.peak_tps = peak;
        out
    }
}

proof fn lemma_kinds_counted(txs: Seq<TxContract>, n: nat)
    requires
        n <= txs.len(),
    ensures
        block_counts(txs, n).transfers == txs.take(n as int).filter(|t: TxContract| t is Transfer).len(),
        block_counts(txs, n).token_transfers == txs.take(n as int).filter(|t: TxContract| t is TransferAsset).len(),
        block_counts(txs, n).calls == txs.take(n as int).filter(|t: TxContract| t is Trigger).len(),
        block_counts(txs, n).usdt_transfers == txs.take(n as int).filter(|t: TxContract| t is Trigger && t->Trigger_0 is Some && is_usdt((t->Trigger_0->Some_0).contract_address@)).len(),
        block_counts(txs, n).contracts_created == txs.take(n as int).filter(|t: TxContract| t is Create).len(),
        block_counts(txs, n).tokens_issued == txs.take(n as int).filter(|t: TxContract| t is AssetIssue).len(),
        block_counts(txs, n).votes == txs.take(n as int).filter(|t: TxContract| t is VoteWitness).len(),
        block_counts(txs, n).stakes == txs.take(n as int).filter(|t: TxContract| t is FreezeBalance || t is FreezeBalanceV2 || t is DelegateResource).len(),
    decreases n,
{
    reveal(Seq::filter);
    if n > 0 {
        lemma_kinds_counted(txs, (n - 1) as nat);
        let s = txs.take(n as int);
        assert(s.drop_last() =~= txs.take(n - 1));
        assert(s.last() == txs[n - 1]);
    let f0 = |t: TxContract| t is Transfer;
    let f1 = |t: TxContract| t is TransferAsset;
    let f2 = |t: TxContract| t is Trigger;
    let f3 = |t: TxContract| t is Trigger && t->Trigger_0 is Some && is_usdt((t->Trigger_0->Some_0).contract_address@);
    let f4 = |t: TxContract| t is Create;
    let f5 = |t: TxContract| t is AssetIssue;
    let f6 = |t: TxContract| t is VoteWitness;
    let f7 = |t: TxContract| t is FreezeBalance || t is FreezeBalanceV2 || t is DelegateResource;
        assert(s.filter(f0).len() == s.drop_last().filter(f0).len() + (if f0(s.last()) { 1int } else { 0 }));
        assert(s.filter(f1).len() == s.drop_last().filter(f1).len() + (if f1(s.last()) { 1int } else { 0 }));
        assert(s.filter(f2).len() == s.drop_last().filter(f2).len() + (if f2(s.last()) { 1int } else { 0 }));
        assert(s.filter(f3).len() == s.drop_last().filter(f3).len() + (if f3(s.last()) { 1int } else { 0 }));
        assert(s.filter(f4).len() == s.drop_last().filter(f4).len() + (if f4(s.last()) { 1int } else { 0 }));
        assert(s.filter(f5).len() == s.drop_last().filter(f5).len() + (if f5(s.last()) { 1int } else { 0 }));
        assert(s.filter(f6).len() == s.drop_last().filter(f6).len() + (if f6(s.last()) { 1int } else { 0 }));
        assert(s.filter(f7).len() == s.drop_last().filter(f7).len() + (if f7(s.last()) { 1int } else { 0 }));
    }
}

/// Each counter of a block is the number of its transactions of that kind: a
/// call counts whether or not it is one of USDT, and the three ways to stake
/// count together.
pub proof fn counters_count_their_kind(txs: Seq<TxContract>)
    ensures
        block_counts(txs, txs.len()).transfers == txs.filter(|t: TxContract| t is Transfer).len(),
        block_counts(txs, txs.len()).token_transfers == txs.filter(|t: TxContract| t is TransferAsset).len(),
        block_counts(txs, txs.len()).calls == txs.filter(|t: TxContract| t is Trigger).len(),
        block_counts(txs, txs.len()).usdt_transfers == txs.filter(|t: TxContract| t is Trigger && t->Trigger_0 is Some && is_usdt((t->Trigger_0->Some_0).contract_address@)).len(),
        block_counts(txs, txs.len()).contracts_created == txs.filter(|t: TxContract| t is Create).len(),
        block_counts(txs, txs.len()).tokens_issued == txs.filter(|t: TxContract| t is AssetIssue).len(),
        block_counts(txs, txs.len()).votes == txs.filter(|t: TxContract| t is VoteWitness).len(),
        block_counts(txs, txs.len()).stakes == txs.filter(|t: TxContract| t is FreezeBalance || t is FreezeBalanceV2 || t is DelegateResource).len(),
{
    lemma_kinds_counted(txs, txs.len());
    assert(txs.take(txs.len() as int) =~= txs);
}

/// What the next transaction adds to the sums: a transfer its amount, a call
/// the value sent with it, and a USDT call the tokens it moves; a negative
/// amount adds nothing, and no other kind moves anything.
pub proof fn sums_take_in_each_transaction(txs: Seq<TxContract>, n: nat)
    requires
        n < txs.len(),
    ensures
        ({
            let a = block_counts(txs, n);
            let b = block_counts(txs, (n + 1) as nat);
            let t = txs[n as int];
            &&& t is Transfer && t->Transfer_0 is Some && (t->Transfer_0->Some_0).amount >= 0
                ==> b.trx_sun == a.trx_sun + (t->Transfer_0->Some_0).amount
            &&& t is Transfer && t->Transfer_0 is Some && (t->Transfer_0->Some_0).amount < 0
                ==> b.trx_sun == a.trx_sun
            &&& t is Trigger && t->Trigger_0 is Some && (t->Trigger_0->Some_0).call_value >= 0
                ==> b.trx_sun == a.trx_sun + (t->Trigger_0->Some_0).call_value
            &&& t is Trigger && t->Trigger_0 is Some && (t->Trigger_0->Some_0).call_value < 0
                ==> b.trx_sun == a.trx_sun
            &&& t !is Transfer && t !is Trigger ==> b.trx_sun == a.trx_sun && b.usdt_units
                == a.usdt_units
            &&& t is Trigger && t->Trigger_0 is Some && is_usdt(
                (t->Trigger_0->Some_0).contract_address@,
            ) && token_amount((t->Trigger_0->Some_0).data@) is Some ==> b.usdt_units == a.usdt_units
                + token_amount((t->Trigger_0->Some_0).data@)->Some_0
            &&& t is Trigger && t->Trigger_0 is Some && !is_usdt(
                (t->Trigger_0->Some_0).contract_address@,
            ) ==> b.usdt_units == a.usdt_units
            &&& t is Transfer ==> b.usdt_units == a.usdt_units
        }),
        block_counts(txs, 0).trx_sun == 0,
        block_counts(txs, 0).usdt_units == 0,
{
}

/// Sums of counters are taken field by field.
pub proof fn counters_add_up(a: CountsView, b: CountsView)
    ensures
        a.plus(b).txs == a.txs + b.txs,
        a.plus(b).transfers == a.transfers + b.transfers,
        a.plus(b).token_transfers == a.token_transfers + b.token_transfers,
        a.plus(b).calls == a.calls + b.calls,
        a.plus(b).usdt_transfers == a.usdt_transfers + b.usdt_transfers,
        a.plus(b).contracts_created == a.contracts_created + b.contracts_created,
        a.plus(b).tokens_issued == a.tokens_issued + b.tokens_issued,
        a.plus(b).votes == a.votes + b.votes,
        a.plus(b).stakes == a.stakes + b.stakes,
        a.plus(b).trx_sun == a.trx_sun + b.trx_sun,
        a.plus(b).usdt_units == a.usdt_units + b.usdt_units,
        a.plus(CountsView::zero()) == a,
{
}

/// The record is the greatest of the amounts moved and of the record before.
pub proof fn the_record_is_the_greatest(txs: Seq<TxContract>, n: nat, start: nat, i: int)
    requires
        n <= txs.len(),
    ensures
        biggest_after(txs, n, start) >= start,
        0 <= i < n && usdt_moved(txs[i]) is Some ==> biggest_after(txs, n, start) >= usdt_moved(
            txs[i],
        )->Some_0,
        biggest_after(txs, n, start) == start || exists|j: int|
            0 <= j < n && #[trigger] usdt_moved(txs[j]) == Some(biggest_after(txs, n, start)),
    decreases n,
{
    if n > 0 {
        the_record_is_the_greatest(txs, (n - 1) as nat, start, i);
        let b = biggest_after(txs, (n - 1) as nat, start);
        let c = biggest_after(txs, n, start);
        if c == b {
            if b != start {
                let j = choose|j: int|
                    0 <= j < n - 1 && #[trigger] usdt_moved(txs[j]) == Some(b);
                assert(usdt_moved(txs[j]) == Some(c));
            }
        } else {
            assert(usdt_moved(txs[n - 1]) == Some(c));
        }
    }
}

/// A whale is a transfer of a hundred thousand dollars or more that beats the
/// record of its moment, and none is missed: with no whale told, every such
/// amount was already matched.
pub proof fn whales_beat_the_record(txs: Seq<TxContract>, n: nat, start: nat, i: int)
    requires
        n <= txs.len(),
    ensures
        whale_after(txs, n, start) is Some ==> {
            let u = whale_after(txs, n, start)->Some_0;
            &&& u >= 100_000 * 1_000_000
            &&& u > start
            &&& exists|j: int| 0 <= j < n && #[trigger] usdt_moved(txs[j]) == Some(u)
        },
        whale_after(txs, n, start) is None && 0 <= i < n && usdt_moved(txs[i]) is Some
            && usdt_moved(txs[i])->Some_0 >= 100_000 * 1_000_000 ==> usdt_moved(txs[i])->Some_0
            <= biggest_after(txs, i as nat, start),
    decreases n,
{
    if n > 0 {
        whales_beat_the_record(txs, (n - 1) as nat, start, i);
        the_record_is_the_greatest(txs, (n - 1) as nat, start, 0);
        let w = whale_after(txs, n, start);
        if w is Some {
            if w == whale_after(txs, (n - 1) as nat, start) {
                let j = choose|j: int|
                    0 <= j < n - 1 && #[trigger] usdt_moved(txs[j]) == Some(w->Some_0);
                assert(usdt_moved(txs[j]) == w);
            } else {
                assert(usdt_moved(txs[n - 1]) == w);
            }
        }
    }
}

/// A wallet is known where it was known before or where it sent one of the
/// transactions, as long as the set has room for all of them; only transfers
/// and calls name a sender.
pub proof fn senders_are_the_wallets(
    txs: Seq<TxContract>,
    n: nat,
    start: Set<Seq<u8>>,
    addr: Seq<u8>,
)
    requires
        n <= txs.len(),
        start.finite(),
        start.len() + n <= 2_000_000,
        addr.len() > 0,
    ensures
        wallets_after(txs, n, start).finite(),
        wallets_after(txs, n, start).len() <= start.len() + n,
        wallets_after(txs, n, start).contains(addr) <==> start.contains(addr) || exists|i: int|
            0 <= i < n && ((#[trigger] txs[i]) is Transfer && txs[i]->Transfer_0 is Some && (
            txs[i]->Transfer_0->Some_0).owner_address@ == addr || txs[i] is Trigger
                && txs[i]->Trigger_0 is Some && (txs[i]->Trigger_0->Some_0).owner_address@ == addr),
    decreases n,
{
    if n > 0 {
        senders_are_the_wallets(txs, (n - 1) as nat, start, addr);
        let before = wallets_after(txs, (n - 1) as nat, start);
        let after = wallets_after(txs, n, start);
        let t = txs[n - 1];
        if after.contains(addr) && !before.contains(addr) {
            assert(sender(t) == Some(addr));
        }
    }
}

/// At most the first items, and at most the last ones: what is kept is the part
/// at that end, and nothing is dropped where all of it fits.
pub proof fn ends_are_kept<T>(s: Seq<T>, n: nat)
    ensures
        s.len() <= n ==> first(s, n) == s && last(s, n) == s,
        s.len() > n ==> first(s, n).len() == n && last(s, n).len() == n,
        forall|i: int| 0 <= i < first(s, n).len() ==> #[trigger] first(s, n)[i] == s[i],
        forall|i: int|
            0 <= i < last(s, n).len() ==> #[trigger] last(s, n)[i] == s[s.len() - last(s, n).len()
                + i],
{
}

/// A milestone stands on top, the others follow in their order, and six are
/// shown at most.
pub proof fn milestones_stand_on_top(
    b: BoardView,
    key: Seq<char>,
    icon: Seq<char>,
    text: Seq<char>,
)
    ensures
        b.push(icon, text).items[0] == (icon, text),
        b.push(icon, text).items.len() <= 6,
        b.items.len() < 6 ==> b.push(icon, text).items.len() == b.items.len() + 1,
        forall|i: int|
            0 < i < b.push(icon, text).items.len() ==> #[trigger] b.push(icon, text).items[i]
                == b.items[i - 1],
        b.push(icon, text).seen == b.seen,
        !b.seen.contains(key) ==> b.push_once(key, icon, text).items[0] == (icon, text),
        !b.seen.contains(key) ==> b.push_once(key, icon, text).seen == b.seen.insert(key),
        b.seen.contains(key) ==> b.push_once(key, icon, text) == b,
{
}

/// The session's thresholds: each is told when the count has reached it, and
/// not before.
pub proof fn thresholds_are_told_when_reached(b: BoardView, txs: nat, units: nat)
    requires
        b.seen == Set::<Seq<char>>::empty(),
    ensures
        txs < 100_000 ==> board_txs(b, txs) == b,
        100_000 <= txs < 500_000 ==> board_txs(b, txs).items == b.push(
            "🔄"@,
            "100K transactions decoded this session"@,
        ).items,
        board_txs(b, txs).seen.contains("txs100000"@) == (txs >= 100_000),
        board_txs(b, txs).seen.contains("txs500000"@) == (txs >= 500_000),
        board_txs(b, txs).seen.contains("txs1000000"@) == (txs >= 1_000_000),
        board_txs(b, txs).seen.contains("txs5000000"@) == (txs >= 5_000_000),
        units < 1_000_000_000_000 ==> board_usd(b, units) == b,
        board_usd(b, units).seen.contains("usd1"@) == (units >= 1_000_000_000_000),
        board_usd(b, units).seen.contains("usd10"@) == (units >= 10_000_000_000_000),
        board_usd(b, units).seen.contains("usd100"@) == (units >= 100_000_000_000_000),
{
    reveal_strlit("txs100000");
    reveal_strlit("txs500000");
    reveal_strlit("txs1000000");
    reveal_strlit("txs5000000");
    reveal_strlit("usd1");
    reveal_strlit("usd10");
    reveal_strlit("usd100");
    assert("txs100000"@.len() != "txs1000000"@.len());
    assert("txs100000"@[3] != "txs500000"@[3]);
    assert("txs1000000"@[3] != "txs5000000"@[3]);
    assert("txs100000"@.len() != "txs5000000"@.len());
    assert("txs500000"@.len() != "txs5000000"@.len());
    assert("txs500000"@.len() != "txs1000000"@.len());
    assert("usd1"@.len() != "usd10"@.len());
    assert("usd10"@.len() != "usd100"@.len());
    assert("usd1"@.len() != "usd100"@.len());
}

/// What a block past the cursor makes of the session: the cursor, the count,
/// the last block and the records follow it, it is the newest of the feed and
/// of the spark line, and what it does not concern stays.
pub proof fn blocks_move_the_session(
    old: ExploreState,
    new: ExploreState,
    block: StreamedBlock,
    num: i64,
    now: i64,
)
    requires
        observed(old, new, block, num as int, now as int),
        block.transactions@.len() <= u64::MAX,
        block_counts(block.transactions@, block.transactions@.len()).fits(),
    ensures
        new.cursor == num,
        new.last_num == num,
        new.last_ts == block.timestamp,
        new.blocks == old.blocks + 1,
        new.counts.txs == old.counts.txs + block.transactions@.len(),
        new.biggest_txs >= old.biggest_txs,
        new.biggest_txs >= block.transactions@.len(),
        new.biggest_txs == old.biggest_txs || new.biggest_txs == block.transactions@.len(),
        block.transactions@.len() > old.biggest_txs ==> new.biggest_num == num,
        block.transactions@.len() <= old.biggest_txs ==> new.biggest_num == old.biggest_num,
        new.live <==> old.live || (block.timestamp > 0 && now - block.timestamp <= 8_000),
        new.peak_tps == old.peak_tps,
        new.peers == old.peers,
        new.spark@.len() <= 30,
        new.spark@.last() == block.transactions@.len(),
        new.feed@.len() <= 5,
        new.feed@[0].num == num,
        new.feed@[0].txs == block.transactions@.len(),
        new.feed@[0].new_contract <==> exists|i: int|
            0 <= i < block.transactions@.len() && (#[trigger] block.transactions@[i]) is Create,
        new.feed@[0].usdt_units == new.counts.usdt_units - old.counts.usdt_units,
        new.feed@[0].trx == new.counts.trx_sun - old.counts.trx_sun,
        new.feed@[0].usdt == new.counts.usdt_transfers - old.counts.usdt_transfers,
        old.feed@.len() > 0 ==> new.feed@[1] == old.feed@[0],
{
    let txs = block.transactions@;
    every_transaction_is_counted(txs, txs.len());
    counters_count_their_kind(txs);
    let f = |t: TxContract| t is Create;
    let made = txs.filter(f);
    if made.len() > 0 {
        txs.lemma_filter_contains_rev(f, made[0]);
        txs.lemma_filter_pred(f, 0);
        let i = choose|i: int| 0 <= i < txs.len() && txs[i] == made[0];
        assert(txs[i] is Create);
    }
    if exists|i: int| 0 <= i < txs.len() && (#[trigger] txs[i]) is Create {
        let i = choose|i: int| 0 <= i < txs.len() && (#[trigger] txs[i]) is Create;
        txs.lemma_filter_contains(f, i);
    }
    let s = old.spark@.push(txs.len() as u64);
    assert(last(s, 30).last() == s.last());
    assert(new.counts@ == old.counts@.plus(block_counts(txs, txs.len())));
    assert(new.counts@.usdt_units == new.counts.usdt_units);
}

/// Old arrivals leave the window from the front: what leaves came before `lo`,
/// and what is first afterwards did not.
pub proof fn windows_drop_from_the_front(a: Seq<(i64, u64)>, lo: int) -> (k: int)
    ensures
        0 <= k <= a.len(),
        drop_old(a, lo) == a.skip(k),
        forall|i: int| 0 <= i < k ==> (#[trigger] a[i]).0 < lo,
        k < a.len() ==> a[k].0 >= lo,
    decreases a.len(),
{
    if a.len() > 0 && a[0].0 < lo {
        let j = windows_drop_from_the_front(a.skip(1), lo);
        assert(a.skip(1).skip(j) =~= a.skip(j + 1));
        assert forall|i: int| 0 <= i < j + 1 implies (#[trigger] a[i]).0 < lo by {
            if i > 0 {
                assert(a[i] == a.skip(1)[i - 1]);
            }
        }
        j + 1
    } else {
        assert(a.skip(0) =~= a);
        0
    }
}

/// The window counts the arrivals from `lo` on, and their transactions.
pub proof fn windows_count_what_is_in_them(a: Seq<(i64, u64)>, x: (i64, u64), lo: int)
    ensures
        x.0 >= lo ==> window_blocks(a.push(x), lo) == window_blocks(a, lo) + 1,
        x.0 >= lo ==> window_txs(a.push(x), lo) == window_txs(a, lo) + x.1,
        x.0 < lo ==> window_blocks(a.push(x), lo) == window_blocks(a, lo),
        x.0 < lo ==> window_txs(a.push(x), lo) == window_txs(a, lo),
        window_blocks(Seq::empty(), lo) == 0,
        window_txs(Seq::empty(), lo) == 0,
    decreases a.len(),
{
    let b = a.push(x);
    if a.len() == 0 {
        assert(b.skip(1) =~= Seq::<(i64, u64)>::empty());
        assert(window_blocks(b.skip(1), lo) == 0);
        assert(window_txs(b.skip(1), lo) == 0);
        assert(window_blocks(a, lo) == 0);
    } else {
        assert(b.skip(1) =~= a.skip(1).push(x));
        windows_count_what_is_in_them(a.skip(1), x, lo);
    }
}

/// The span of a rate: from the first arrival to now, at least a second and at
/// most ten.
pub proof fn spans_are_one_to_ten_seconds(first: int, now: int)
    requires
        first <= now,
    ensures
        span(None, now) == one(),
        now - first < 1_000 ==> span(Some(first), now) == one(),
        1_000 <= now - first <= 10_000 ==> span(Some(first), now) == nearest(
            (now - first) as nat,
            1_000,
            0,
        ),
        now - first > 10_000 ==> span(Some(first), now) == nearest(10_000, 1_000, 0),
        one().0 == 0x10_0000_0000_0000 && one().1 == -52,
{
}

/// The peak only rises, only at the live edge, and only at a cadence of at most
/// one block a second.
pub proof fn peaks_only_rise(s: ExploreState, now: int)
    ensures
        !s.live ==> peak_after(s, now) == s.peak_tps@,
        Double::exceeds(block_rate(s, now), one()) ==> peak_after(s, now) == s.peak_tps@,
        !Double::exceeds(tps(s, now), s.peak_tps@) ==> peak_after(s, now) == s.peak_tps@,
        s.live && !Double::exceeds(block_rate(s, now), one()) && Double::exceeds(
            tps(s, now),
            s.peak_tps@,
        ) ==> peak_after(s, now) == tps(s, now),
{
}

/// A share is counted in whole percent, rounded down, and of nothing it is
/// none.
pub proof fn shares_are_in_percent(c: u64, tot: u64)
    requires
        c <= tot,
        c <= 100_000_000_000_000_000,
    ensures
        tot > 0 ==> percent(c, tot) * tot <= 100 * c < (percent(c, tot) + 1) * tot,
        tot == 0 ==> percent(c, tot) == 0,
        percent(c, tot) <= 100,
{
    if tot > 0 {
        let h = (c * 100) as int;
        let t = tot as int;
        vstd::arithmetic::div_mod::lemma_fundamental_div_mod(h, t);
        let q = h / t;
        assert(q * t <= h < (q + 1) * t) by (nonlinear_arith)
            requires
                h == t * q + h % t,
                0 <= h % t < t,
        ;
        assert(q <= 100) by (nonlinear_arith)
            requires
                q * t <= h,
                h <= 100 * t,
                t > 0,
        ;
    }
}

/// A block is at the live edge up to eight seconds after its time, and without
/// a time it is not.
pub proof fn the_edge_is_eight_seconds(now: int, ts: int)
    ensures
        at_the_edge(now, ts) <==> 0 < ts && now <= ts + 8_000,
        now >= ts ==> age(now, ts) == now - ts,
        now < ts ==> age(now, ts) == 0,
        ts == 0 ==> status(ts, now).1 == "connecting…"@,
        ts != 0 && now <= ts + 8_000 ==> status(ts, now).1 == "🟢 LIVE"@,
        ts != 0 && now > ts + 8_000 ==> status(ts, now).1 == "syncing the live edge · "@
            + dur_text(now - ts) + " behind"@,
{
}

/// A name is shown as it is, and an empty or a missing one by what stands for it.
pub proof fn empty_names_are_replaced(name: String, missing: Seq<char>)
    ensures
        name@.len() > 0 ==> name_or(Some(name), missing) == name@,
        name@.len() == 0 ==> name_or(Some(name), missing) == missing,
        name_or(None, missing) == missing,
{
}

} // verus!
