//! Driving the local witness's votes: which inbound votes count, when the own
//! votes are cast, and what finality changes.

use std::collections::HashMap;

use vstd::prelude::*;
use vstd::string::*;

use crate::address_set::AddressSet;
use crate::bytes::{bytes_eq, copy_all};

verus! {

broadcast use vstd::std_specs::hash::group_hash_axioms;

/// Blocks of vote history that are kept.
pub const HISTORY_CAP: i64 = 1024;

/// Why a vote could not be handled.
#[derive(Debug)]
pub enum PbftRuntimeError {
    Malformed(String),
    Sign(String),
    Storage(String),
}

impl PbftRuntimeError {
    /// The failure in words.
    pub open spec fn text(&self) -> Seq<char> {
        match *self {
            PbftRuntimeError::Malformed(t) => "malformed PBFT message: "@ + t@,
            PbftRuntimeError::Sign(t) => "signing failed: "@ + t@,
            PbftRuntimeError::Storage(t) => "storage: "@ + t@,
        }
    }

    /// The failure in words.
    pub fn message(&self) -> (r: String)
        ensures
            r@ == self.text(),
    {
        match self {
            PbftRuntimeError::Malformed(t) => {
                let mut s = "malformed PBFT message: ".to_owned();
                s.append(t.as_str());
                s
            },
            PbftRuntimeError::Sign(t) => {
                let mut s = "signing failed: ".to_owned();
                s.append(t.as_str());
                s
            },
            PbftRuntimeError::Storage(t) => {
                let mut s = "storage: ".to_owned();
                s.append(t.as_str());
                s
            },
        }
    }
}

// ---------------------------------------------------------------------------
// The active witnesses at an epoch
// ---------------------------------------------------------------------------

/// The witnesses before and after the last rotation.
#[derive(Debug, Clone)]
pub struct SrEpochSnapshot {
    pub before: Vec<[u8; 21]>,
    pub current: Vec<[u8; 21]>,
    pub before_maintenance_time_ms: i64,
}

impl SrEpochSnapshot {
    /// A snapshot without a rotation yet.
    pub fn new(current: Vec<[u8; 21]>) -> (r: SrEpochSnapshot)
        ensures
            r.current@ == current@,
            r.before@ == current@,
            r.before_maintenance_time_ms == 0,
    {
        let mut before: Vec<[u8; 21]> = Vec::new();
        let mut i: usize = 0;
        while i < current.len()
            invariant
                i <= current@.len(),
                before@ == current@.take(i as int),
            decreases current@.len() - i,
        {
            before.push(current[i]);
            i = i + 1;
            assert(before@ =~= current@.take(i as int));
        }
        assert(before@ =~= current@);
        SrEpochSnapshot { before, current, before_maintenance_time_ms: 0 }
    }

    /// Takes in a rotation.
    pub fn rotate(&mut self, before: Vec<[u8; 21]>, current: Vec<[u8; 21]>, time_ms: i64)
        ensures
            *final(self) == (SrEpochSnapshot {
                before,
                current,
                before_maintenance_time_ms: time_ms,
            }),
    {
        self.before = before;
        self.current = current;
        self.before_maintenance_time_ms = time_ms;
    }
}

/// Where the active witnesses come from.
#[derive(Debug)]
pub struct ActiveSources {
    /// The shared snapshot, where one is attached, or why it cannot be read.
    pub snapshot: Option<Result<SrEpochSnapshot, String>>,
    /// The stored list, or why it cannot be read.
    pub on_disk: Result<Option<Vec<[u8; 21]>>, String>,
}

/// The members of the first `n` entries of a list.
pub open spec fn members(list: Seq<[u8; 21]>, n: nat) -> Set<Seq<u8>>
    decreases n,
{
    if n == 0 {
        Set::empty()
    } else {
        members(list, (n - 1) as nat).insert(list[n - 1]@)
    }
}

/// The members of a list are its entries.
pub proof fn members_are_the_entries(list: Seq<[u8; 21]>, n: nat, a: Seq<u8>)
    requires
        n <= list.len(),
    ensures
        members(list, n).contains(a) <==> exists|i: int| 0 <= i < n && (#[trigger] list[i])@ == a,
    decreases n,
{
    if n > 0 {
        members_are_the_entries(list, (n - 1) as nat, a);
        if list[n - 1]@ == a {
            assert(list[n - 1]@ == a);
        }
    }
}

fn set_of(list: &Vec<[u8; 21]>) -> (r: AddressSet)
    ensures
        r.wf(),
        r@ == members(list@, list@.len()),
{
    let mut out = AddressSet::new();
    let total: usize = list.len();
    let mut i: usize = 0;
    while i < total
        invariant
            i <= total,
            total == list@.len(),
            out.wf(),
            out@ == members(list@, i as nat),
            out@.len() <= i,
        decreases total - i,
    {
        out.insert(list[i].as_slice());
        i = i + 1;
    }
    out
}

/// The list that a vote at an epoch is held against: that before the rotation
/// up to the maintenance time, the current one after it.
pub open spec fn list_for_epoch(s: SrEpochSnapshot, epoch: i64) -> Seq<[u8; 21]> {
    if epoch > s.before_maintenance_time_ms {
        s.current@
    } else {
        s.before@
    }
}

/// The active witnesses at an epoch, or why they are not known. The snapshot
/// goes before the stored list; a missing list is empty.
pub open spec fn active_at(src: ActiveSources, epoch: i64) -> Result<Set<Seq<u8>>, Seq<char>> {
    match src.snapshot {
        Some(Err(e)) => Err("sr snapshot poisoned: "@ + e@),
        Some(Ok(s)) => Ok(members(list_for_epoch(s, epoch), list_for_epoch(s, epoch).len())),
        None => match src.on_disk {
            Err(e) => Err("load_active: "@ + e@),
            Ok(None) => Ok(Set::empty()),
            Ok(Some(l)) => Ok(members(l@, l@.len())),
        },
    }
}

/// The active witnesses at an epoch.
pub fn load_active_set_for_epoch(src: &ActiveSources, epoch: i64) -> (r: Result<
    AddressSet,
    PbftRuntimeError,
>)
    ensures
        match (active_at(*src, epoch), r) {
            (Ok(m), Ok(set)) => set.wf() && set@ == m,
            (Err(t), Err(PbftRuntimeError::Storage(e))) => e@ == t,
            _ => false,
        },
{
    match &src.snapshot {
        Some(Err(e)) => {
            let mut s = "sr snapshot poisoned: ".to_owned();
            s.append(e.as_str());
            Err(PbftRuntimeError::Storage(s))
        },
        Some(Ok(s)) => Ok(
            if epoch > s.before_maintenance_time_ms {
                set_of(&s.current)
            } else {
                set_of(&s.before)
            },
        ),
        None => match &src.on_disk {
            Err(e) => {
                let mut s = "load_active: ".to_owned();
                s.append(e.as_str());
                Err(PbftRuntimeError::Storage(s))
            },
            Ok(None) => Ok(AddressSet::new()),
            Ok(Some(l)) => Ok(set_of(l)),
        },
    }
}

// ---------------------------------------------------------------------------
// Routing
// ---------------------------------------------------------------------------

/// What a vote is about.
#[derive(Debug, Clone, Copy, PartialEq, Eq, Structural)]
pub enum DataType {
    Block,
    /// The list of witnesses of a new cycle.
    Srl,
    Unknown,
}

/// The phase that a vote belongs to.
#[derive(Debug, Clone, Copy, PartialEq, Eq, Structural)]
pub enum MsgType {
    ViewChange,
    Request,
    Preprepare,
    Prepare,
    Commit,
    Unknown,
}

/// The signed part of a vote.
#[derive(Debug, Clone)]
pub struct PbftRaw {
    pub msg_type: MsgType,
    pub data_type: DataType,
    pub view_n: i64,
    pub epoch: i64,
    pub data: Vec<u8>,
}

/// An inbound vote.
#[derive(Debug, Clone)]
pub struct InboundVote {
    pub raw: Option<PbftRaw>,
    /// The block number and hash that the data holds; None where it is no such
    /// payload.
    pub block: Option<(i64, [u8; 32])>,
    /// The signer; None where the signature recovers to nobody.
    pub signer: Option<[u8; 21]>,
}

/// What an inbound vote leads to.
#[derive(Debug, Clone, Copy, PartialEq, Eq)]
pub enum Act {
    /// Nothing.
    Ignore,
    /// A block was proposed: cast the own Prepare.
    Observe { block_num: i64, block_hash: [u8; 32] },
    /// Count a Prepare.
    Prepare,
    /// Count a Commit.
    Commit,
    /// Count a view change.
    ViewChange,
    /// A list was proposed: cast the own Prepare.
    SrlObserve,
    /// Count a Prepare for a list.
    SrlPrepare,
    /// Count a Commit for a list.
    SrlCommit,
}

/// Which tally a vote is counted in: that of its block, or that of its epoch for
/// a list of witnesses.
#[derive(Debug)]
pub enum TallyKey {
    /// The block's payload.
    Block(Vec<u8>),
    /// The epoch of the list, whatever the list holds.
    Srl(i64),
}

/// A [`TallyKey`] as a plain value.
pub enum TallyKeyView {
    Block(Seq<u8>),
    Srl(i64),
}

impl View for TallyKey {
    type V = TallyKeyView;

    open spec fn view(&self) -> TallyKeyView {
        match *self {
            TallyKey::Block(d) => TallyKeyView::Block(d@),
            TallyKey::Srl(e) => TallyKeyView::Srl(e),
        }
    }
}

/// The tally of a vote of this kind, at this epoch, on this payload.
pub open spec fn key_of(data_type: DataType, epoch: i64, data: Seq<u8>) -> TallyKeyView {
    if data_type == DataType::Srl {
        TallyKeyView::Srl(epoch)
    } else {
        TallyKeyView::Block(data)
    }
}

fn key_from(data_type: DataType, epoch: i64, data: &Vec<u8>) -> (r: TallyKey)
    ensures
        r@ == key_of(data_type, epoch, data@),
{
    if data_type == DataType::Srl {
        TallyKey::Srl(epoch)
    } else {
        TallyKey::Block(copy_all(data.as_slice()))
    }
}

/// The tally that a vote is counted in.
pub fn tally_key(raw: &PbftRaw) -> (r: TallyKey)
    ensures
        r@ == key_of(raw.data_type, raw.epoch, raw.data@),
        raw.data_type == DataType::Srl ==> r == TallyKey::Srl(raw.epoch),
        raw.data_type == DataType::Block ==> (r matches TallyKey::Block(d) && d@ == raw.data@),
{
    key_from(raw.data_type, raw.epoch, &raw.data)
}

/// Votes on lists share a tally exactly if they are of one epoch, votes on blocks
/// exactly if they are on one payload, and a list and a block never do.
pub proof fn tallies_are_kept_apart(a: PbftRaw, b: PbftRaw)
    requires
        a.data_type != DataType::Unknown,
        b.data_type != DataType::Unknown,
    ensures
        key_of(a.data_type, a.epoch, a.data@) == key_of(b.data_type, b.epoch, b.data@)
            <==> a.data_type == b.data_type && (if a.data_type == DataType::Srl {
            a.epoch == b.epoch
        } else {
            a.data@ == b.data@
        }),
{
}

/// One vote to count.
#[derive(Debug)]
pub struct Counted {
    /// The tally it goes to.
    pub key: TallyKey,
    /// Whose vote it is. A witness counts once in a tally, however often it votes.
    pub signer: [u8; 21],
    /// The number of witnesses that the tally is held against.
    pub witnesses: usize,
}

/// A [`Counted`] as a plain value.
pub struct CountedView {
    pub key: TallyKeyView,
    pub signer: Seq<u8>,
    pub witnesses: nat,
}

impl View for Counted {
    type V = CountedView;

    open spec fn view(&self) -> CountedView {
        CountedView { key: self.key@, signer: self.signer@, witnesses: self.witnesses as nat }
    }
}

/// The witnesses whose votes among the first `n` are counted in the tally `key`.
pub open spec fn voters(votes: Seq<CountedView>, key: TallyKeyView, n: nat) -> Set<Seq<u8>>
    decreases n,
{
    if n == 0 {
        Set::empty()
    } else if votes[n - 1].key == key {
        voters(votes, key, (n - 1) as nat).insert(votes[n - 1].signer)
    } else {
        voters(votes, key, (n - 1) as nat)
    }
}

/// A vote changes no tally but its own.
pub proof fn votes_stay_in_their_tally(votes: Seq<CountedView>, v: CountedView, key: TallyKeyView)
    ensures
        voters(votes.push(v), key, votes.len() + 1) == (if v.key == key {
            voters(votes, key, votes.len()).insert(v.signer)
        } else {
            voters(votes, key, votes.len())
        }),
{
    lemma_voters_prefix(votes, v, key, votes.len());
}

proof fn lemma_voters_prefix(votes: Seq<CountedView>, v: CountedView, key: TallyKeyView, n: nat)
    requires
        n <= votes.len(),
    ensures
        voters(votes.push(v), key, n) == voters(votes, key, n),
    decreases n,
{
    if n > 0 {
        lemma_voters_prefix(votes, v, key, (n - 1) as nat);
    }
}

/// An inbound vote, judged.
#[derive(Debug)]
pub struct Routed {
    /// Whether the vote is checked against the signer's other votes first.
    pub check_double_signing: bool,
    pub act: Act,
    /// The vote to count, where the act counts one.
    pub count: Option<Counted>,
}

/// A [`Routed`] as a plain value.
pub struct RoutedView {
    pub check_double_signing: bool,
    pub act: Act,
    pub count: Option<CountedView>,
}

impl View for Routed {
    type V = RoutedView;

    open spec fn view(&self) -> RoutedView {
        RoutedView {
            check_double_signing: self.check_double_signing,
            act: self.act,
            count: match self.count {
                Some(c) => Some(c@),
                None => None,
            },
        }
    }
}

/// What judging a vote came to.
pub enum Judged {
    Malformed(Seq<char>),
    Storage(Seq<char>),
    Route(RoutedView),
}

/// A vote that changes nothing.
pub open spec fn dropped() -> Judged {
    Judged::Route(RoutedView { check_double_signing: false, act: Act::Ignore, count: None })
}

/// Whether an act counts a vote.
pub open spec fn counts(act: Act) -> bool {
    act is Prepare || act is Commit || act is SrlPrepare || act is SrlCommit
}

/// What a vote of an active witness leads to.
pub open spec fn act_of(m: InboundVote) -> Act {
    let raw = m.raw->Some_0;
    match (raw.data_type, raw.msg_type) {
        (DataType::Srl, MsgType::Preprepare) => Act::SrlObserve,
        (DataType::Srl, MsgType::Prepare) => Act::SrlPrepare,
        (DataType::Srl, MsgType::Commit) => Act::SrlCommit,
        (DataType::Block, MsgType::Preprepare) => Act::Observe {
            block_num: (m.block->Some_0).0,
            block_hash: (m.block->Some_0).1,
        },
        (DataType::Block, MsgType::Prepare) => Act::Prepare,
        (DataType::Block, MsgType::Commit) => Act::Commit,
        (DataType::Block, MsgType::ViewChange) => Act::ViewChange,
        _ => Act::Ignore,
    }
}

/// What a signed vote leads to: nothing unless an active witness of its epoch
/// signed it.
pub open spec fn judge_signed(m: InboundVote, src: ActiveSources) -> Judged {
    match active_at(src, m.raw->Some_0.epoch) {
        Err(t) => Judged::Storage(t),
        Ok(set) => if set.contains(m.signer->Some_0@) {
            Judged::Route(
                RoutedView {
                    check_double_signing: true,
                    act: act_of(m),
                    count: if counts(act_of(m)) {
                        Some(
                            CountedView {
                                key: key_of(
                                    m.raw->Some_0.data_type,
                                    m.raw->Some_0.epoch,
                                    m.raw->Some_0.data@,
                                ),
                                signer: m.signer->Some_0@,
                                witnesses: set.len(),
                            },
                        )
                    } else {
                        None
                    },
                },
            )
        } else {
            dropped()
        },
    }
}

/// What an inbound vote leads to.
pub open spec fn judge(m: InboundVote, src: ActiveSources) -> Judged {
    match m.raw {
        None => Judged::Malformed("missing raw_data"@),
        Some(raw) => match raw.data_type {
            DataType::Unknown => dropped(),
            DataType::Srl => if m.signer is None {
                Judged::Malformed("SRL signature recovery failed"@)
            } else {
                judge_signed(m, src)
            },
            DataType::Block => if m.block is None {
                Judged::Malformed("bad data payload"@)
            } else if m.signer is None {
                Judged::Malformed("signature recovery failed"@)
            } else {
                judge_signed(m, src)
            },
        },
    }
}

/// Judges an inbound vote on a list of witnesses.
fn handle_srl_inbound(m: &InboundVote, raw: &PbftRaw, src: &ActiveSources) -> (r: Result<
    Routed,
    PbftRuntimeError,
>)
    requires
        m.raw == Some(*raw),
        raw.data_type == DataType::Srl,
    ensures
        match (judge(*m, *src), r) {
            (Judged::Malformed(t), Err(PbftRuntimeError::Malformed(e))) => e@ == t,
            (Judged::Storage(t), Err(PbftRuntimeError::Storage(e))) => e@ == t,
            (Judged::Route(x), Ok(y)) => x == y@,
            _ => false,
        },
        r is Ok ==> !(r->Ok_0.act is ViewChange),
{
    let signer = match &m.signer {
        Some(s) => s,
        None => return Err(
            PbftRuntimeError::Malformed("SRL signature recovery failed".to_owned()),
        ),
    };
    let active = match load_active_set_for_epoch(src, raw.epoch) {
        Ok(set) => set,
        Err(e) => return Err(e),
    };
    if !active.contains(signer.as_slice()) {
        return Ok(Routed { check_double_signing: false, act: Act::Ignore, count: None });
    }
    let act = match raw.msg_type {
        MsgType::Preprepare => Act::SrlObserve,
        MsgType::Prepare => Act::SrlPrepare,
        MsgType::Commit => Act::SrlCommit,
        _ => Act::Ignore,
    };
    let count = match raw.msg_type {
        MsgType::Prepare | MsgType::Commit => Some(
            Counted { key: tally_key(raw), signer: *signer, witnesses: active.len() },
        ),
        _ => None,
    };
    Ok(Routed { check_double_signing: true, act, count })
}

/// Only votes of active witnesses have any effect.
pub proof fn strangers_change_nothing(m: InboundVote, src: ActiveSources)
    requires
        m.signer is Some,
        m.raw is Some,
        m.raw->Some_0.data_type == DataType::Block ==> m.block is Some,
        active_at(src, m.raw->Some_0.epoch) is Ok,
        !active_at(src, m.raw->Some_0.epoch)->Ok_0.contains(m.signer->Some_0@),
    ensures
        judge(m, src) == dropped(),
{
}

// ---------------------------------------------------------------------------
// Voting
// ---------------------------------------------------------------------------

/// What the tally of one payload remembers of the own votes.
#[derive(Debug, Clone, Copy, PartialEq, Eq, Structural)]
pub struct VoteFlags {
    pub broadcast_prepare: bool,
    pub broadcast_commit: bool,
}

impl VoteFlags {
    /// A payload that was not voted on.
    pub fn new() -> (r: VoteFlags)
        ensures
            r == (VoteFlags { broadcast_prepare: false, broadcast_commit: false }),
    {
        VoteFlags { broadcast_prepare: false, broadcast_commit: false }
    }
}

/// A vote to sign, to count as the own one, and to send.
#[derive(Debug, Clone)]
pub struct Cast {
    pub msg_type: MsgType,
    pub data_type: DataType,
    pub epoch: i64,
    pub view_n: i64,
    pub data: Vec<u8>,
}

impl Cast {
    /// The tally that the own vote is counted in: the one that the others' votes
    /// on the same matter go to.
    pub fn tally_key(&self) -> (r: TallyKey)
        ensures
            r@ == key_of(self.data_type, self.epoch, self.data@),
    {
        key_from(self.data_type, self.epoch, &self.data)
    }
}

/// Whether a vote is this one.
pub open spec fn casts(
    c: Option<Cast>,
    msg_type: MsgType,
    data_type: DataType,
    epoch: i64,
    view_n: i64,
    data: Seq<u8>,
) -> bool {
    &&& c is Some
    &&& c->Some_0.msg_type == msg_type
    &&& c->Some_0.data_type == data_type
    &&& c->Some_0.epoch == epoch
    &&& c->Some_0.view_n == view_n
    &&& c->Some_0.data@ == data
}

/// What a tally answers once a vote was counted in it.
#[derive(Debug)]
pub struct Tallied {
    /// The tally that answers.
    pub key: TallyKey,
    /// Whether it holds enough votes for the witnesses that it is held against.
    pub enough: bool,
}

/// Whether there are enough votes on the matter of a vote: its own tally says so.
/// What another tally holds does not count.
pub open spec fn enough_for(t: Tallied, raw: PbftRaw) -> bool {
    t.enough && t.key@ == key_of(raw.data_type, raw.epoch, raw.data@)
}

/// Whether there are enough votes on the matter of a vote.
pub fn is_enough(t: &Tallied, raw: &PbftRaw) -> (r: bool)
    ensures
        r == enough_for(*t, *raw),
{
    t.enough && match (&t.key, raw.data_type == DataType::Srl) {
        (TallyKey::Srl(e), true) => *e == raw.epoch,
        (TallyKey::Block(d), false) => bytes_eq(d.as_slice(), raw.data.as_slice()),
        _ => false,
    }
}

/// The votes on a list in one epoch never decide another epoch.
pub proof fn epochs_decide_for_themselves(t: Tallied, raw: PbftRaw, epoch: i64)
    requires
        raw.data_type == DataType::Srl,
        t.key@ == TallyKeyView::Srl(epoch),
        epoch != raw.epoch,
    ensures
        !enough_for(t, raw),
{
}

/// What finality of a block changes.
#[derive(Debug, Clone, Copy, PartialEq, Eq, Structural)]
pub struct Finality {
    /// The signatures are stored under this block number.
    pub block_num: i64,
    /// The new solidified number, where it rises.
    pub solidify: Option<i64>,
    /// The number noted as the latest final one, where that is kept.
    pub pbft_num: Option<i64>,
    /// Votes on blocks below this number are forgotten, and those on the block
    /// itself.
    pub prune_below: i64,
}

/// A number, or zero.
pub open spec fn solid_or_zero(n: Option<i64>) -> int {
    match n {
        Some(x) => x as int,
        None => 0,
    }
}

/// The solidified number after finality.
pub open spec fn solid_after(prev: Option<i64>, f: Finality) -> int {
    match f.solidify {
        Some(n) => n as int,
        None => solid_or_zero(prev),
    }
}

/// What finality of a block changes.
pub open spec fn finality_of(block_num: i64, prev_solid: Option<i64>, keeps_pbft_num: bool) -> Finality {
    Finality {
        block_num,
        solidify: if block_num > solid_or_zero(prev_solid) {
            Some(block_num)
        } else {
            None
        },
        pbft_num: if keeps_pbft_num {
            Some(block_num)
        } else {
            None
        },
        prune_below: (block_num - 1024) as i64,
    }
}

/// Finality never takes the solidified number back, and reaches the block that
/// became final.
pub proof fn solid_never_falls(block_num: i64, prev: Option<i64>, keeps: bool)
    ensures
        solid_after(prev, finality_of(block_num, prev, keeps)) >= solid_or_zero(prev),
        solid_after(prev, finality_of(block_num, prev, keeps)) >= block_num,
{
}

/// What is remembered of the own votes on lists of witnesses, by epoch: there
/// is at most one list to vote on in each.
pub struct SrlVotes {
    flags: HashMap<i64, VoteFlags>,
}

impl View for SrlVotes {
    type V = Map<i64, VoteFlags>;

    closed spec fn view(&self) -> Map<i64, VoteFlags> {
        self.flags@
    }
}

/// The flags of an epoch: none of one that was not voted on.
pub open spec fn flags_at(m: Map<i64, VoteFlags>, epoch: i64) -> VoteFlags {
    if m.contains_key(epoch) {
        m[epoch]
    } else {
        VoteFlags { broadcast_prepare: false, broadcast_commit: false }
    }
}

impl SrlVotes {
    /// No epoch was voted on.
    pub fn new() -> (r: SrlVotes)
        ensures
            r@ == Map::<i64, VoteFlags>::empty(),
    {
        SrlVotes { flags: HashMap::new() }
    }

    fn at(&self, epoch: i64) -> (r: VoteFlags)
        ensures
            r == flags_at(self@, epoch),
    {
        match self.flags.get(&epoch) {
            Some(f) => *f,
            None => VoteFlags { broadcast_prepare: false, broadcast_commit: false },
        }
    }

    /// A list was observed: the own Prepare, unless one was cast in this epoch
    /// already. Its view is the epoch.
    pub fn cast_our_srl_prepare(&mut self, epoch: i64, payload: &Vec<u8>) -> (r: Option<Cast>)
        ensures
            final(self)@ == old(self)@.insert(
                epoch,
                VoteFlags {
                    broadcast_prepare: true,
                    broadcast_commit: flags_at(old(self)@, epoch).broadcast_commit,
                },
            ),
            if flags_at(old(self)@, epoch).broadcast_prepare {
                r is None
            } else {
                casts(r, MsgType::Prepare, DataType::Srl, epoch, epoch, payload@)
            },
    {
        let f = self.at(epoch);
        self.flags.insert(
            epoch,
            VoteFlags { broadcast_prepare: true, broadcast_commit: f.broadcast_commit },
        );
        if f.broadcast_prepare {
            return None;
        }
        Some(
            Cast {
                msg_type: MsgType::Prepare,
                data_type: DataType::Srl,
                epoch,
                view_n: epoch,
                data: copy_all(payload.as_slice()),
            },
        )
    }

    /// A Prepare for a list was counted: the own Commit once there are enough of
    /// them in the epoch's tally, unless one was cast in this epoch already.
    pub fn handle_srl_prepare(&mut self, raw: &PbftRaw, tallied: &Tallied) -> (r: Option<Cast>)
        ensures
            if enough_for(*tallied, *raw) && !flags_at(old(self)@, raw.epoch).broadcast_commit {
                casts(r, MsgType::Commit, DataType::Srl, raw.epoch, raw.view_n, raw.data@)
                    && final(self)@ == old(self)@.insert(
                    raw.epoch,
                    VoteFlags {
                        broadcast_prepare: flags_at(old(self)@, raw.epoch).broadcast_prepare,
                        broadcast_commit: true,
                    },
                )
            } else {
                r is None && final(self)@ == old(self)@
            },
    {
        let f = self.at(raw.epoch);
        if !is_enough(tallied, raw) || f.broadcast_commit {
            return None;
        }
        self.flags.insert(
            raw.epoch,
            VoteFlags { broadcast_prepare: f.broadcast_prepare, broadcast_commit: true },
        );
        Some(
            Cast {
                msg_type: MsgType::Commit,
                data_type: DataType::Srl,
                epoch: raw.epoch,
                view_n: raw.view_n,
                data: copy_all(raw.data.as_slice()),
            },
        )
    }

    /// A Commit for a list was counted: the epoch under which the signatures are
    /// stored, once there are enough of them in the epoch's tally. The epoch's
    /// votes are forgotten with that, but not that the own Prepare was cast. The
    /// solidified number stays.
    pub fn handle_srl_commit(&mut self, raw: &PbftRaw, tallied: &Tallied) -> (r: Option<i64>)
        ensures
            r == (if enough_for(*tallied, *raw) {
                Some(raw.epoch)
            } else {
                None
            }),
            final(self)@ == (if enough_for(*tallied, *raw) {
                old(self)@.insert(
                    raw.epoch,
                    VoteFlags {
                        broadcast_prepare: flags_at(old(self)@, raw.epoch).broadcast_prepare,
                        broadcast_commit: false,
                    },
                )
            } else {
                old(self)@
            }),
    {
        if is_enough(tallied, raw) {
            let f = self.at(raw.epoch);
            self.flags.insert(
                raw.epoch,
                VoteFlags { broadcast_prepare: f.broadcast_prepare, broadcast_commit: false },
            );
            Some(raw.epoch)
        } else {
            None
        }
    }
}

/// What can happen to the votes on lists.
pub enum ListEvent {
    /// A list was observed in an epoch.
    Observed(i64),
    /// A Prepare was counted in an epoch; whether there are enough of them.
    Prepared(i64, bool),
    /// A Commit was counted in an epoch; whether there are enough of them.
    Committed(i64, bool),
}

/// What is remembered of the own votes on lists after the first `n` events.
pub open spec fn list_flags(events: Seq<ListEvent>, n: nat) -> Map<i64, VoteFlags>
    decreases n,
{
    if n == 0 {
        Map::empty()
    } else {
        let m = list_flags(events, (n - 1) as nat);
        match events[n - 1] {
            ListEvent::Observed(e) => m.insert(
                e,
                VoteFlags {
                    broadcast_prepare: true,
                    broadcast_commit: flags_at(m, e).broadcast_commit,
                },
            ),
            ListEvent::Prepared(e, met) => if met && !flags_at(m, e).broadcast_commit {
                m.insert(
                    e,
                    VoteFlags {
                        broadcast_prepare: flags_at(m, e).broadcast_prepare,
                        broadcast_commit: true,
                    },
                )
            } else {
                m
            },
            ListEvent::Committed(e, met) => if met {
                m.insert(
                    e,
                    VoteFlags {
                        broadcast_prepare: flags_at(m, e).broadcast_prepare,
                        broadcast_commit: false,
                    },
                )
            } else {
                m
            },
        }
    }
}

/// The own Prepare is cast at most once in an epoch, also after the list became
/// final, and no other epoch keeps it back: it counts as cast exactly if a list
/// was observed in that epoch.
pub proof fn one_list_vote_per_epoch(events: Seq<ListEvent>, n: nat, epoch: i64)
    requires
        n <= events.len(),
    ensures
        flags_at(list_flags(events, n), epoch).broadcast_prepare <==> exists|i: int|
            0 <= i < n && #[trigger] events[i] == ListEvent::Observed(epoch),
    decreases n,
{
    if n > 0 {
        one_list_vote_per_epoch(events, (n - 1) as nat, epoch);
        if events[n - 1] == ListEvent::Observed(epoch) {
            assert(flags_at(list_flags(events, n), epoch).broadcast_prepare);
        } else {
            assert(flags_at(list_flags(events, n), epoch).broadcast_prepare == flags_at(
                list_flags(events, (n - 1) as nat),
                epoch,
            ).broadcast_prepare);
        }
    }
}

/// The running state of the runtime beside its tallies.
#[derive(Debug, Clone, Copy, PartialEq, Eq, Structural)]
pub struct PbftRuntime {
    /// The last cycle whose list was voted on.
    pub last_srl_cycle: i64,
    pub view_change_count: u64,
    /// Whether the latest final number is kept for outside readers.
    pub common_database: bool,
}

impl PbftRuntime {
    /// A runtime that saw nothing yet.
    pub fn new() -> (r: PbftRuntime)
        ensures
            r == (PbftRuntime { last_srl_cycle: 0, view_change_count: 0, common_database: false }),
    {
        PbftRuntime { last_srl_cycle: 0, view_change_count: 0, common_database: false }
    }

    /// Keeps the latest final number for outside readers.
    pub fn with_common_database(self) -> (r: PbftRuntime)
        ensures
            r == (PbftRuntime { common_database: true, ..self }),
    {
        PbftRuntime { common_database: true, ..self }
    }

    /// View changes seen so far.
    pub fn view_change_count(&self) -> (r: u64)
        ensures
            r == self.view_change_count,
    {
        self.view_change_count
    }

    /// The runtime after one more view change; the count stays at its maximum.
    pub open spec fn after_view_change(self) -> PbftRuntime {
        PbftRuntime {
            view_change_count: if self.view_change_count == u64::MAX {
                u64::MAX
            } else {
                (self.view_change_count + 1) as u64
            },
            ..self
        }
    }

    /// Counts a view change. It has no other effect.
    fn handle_view_change(&mut self)
        ensures
            *final(self) == old(self).after_view_change(),
    {
        if self.view_change_count < u64::MAX {
            self.view_change_count = self.view_change_count + 1;
        }
    }

    /// Judges an inbound vote, and counts a view change.
    pub fn handle_inbound(&mut self, m: &InboundVote, src: &ActiveSources) -> (r: Result<
        Routed,
        PbftRuntimeError,
    >)
        ensures
            match (judge(*m, *src), r) {
                (Judged::Malformed(t), Err(PbftRuntimeError::Malformed(e))) => e@ == t,
                (Judged::Storage(t), Err(PbftRuntimeError::Storage(e))) => e@ == t,
                (Judged::Route(x), Ok(y)) => x == y@,
                _ => false,
            },
            if r is Ok && r->Ok_0.act is ViewChange {
                *final(self) == old(self).after_view_change()
            } else {
                *final(self) == *old(self)
            },
    {
        let raw = match &m.raw {
            Some(raw) => raw,
            None => return Err(PbftRuntimeError::Malformed("missing raw_data".to_owned())),
        };
        if raw.data_type == DataType::Srl {
            return handle_srl_inbound(m, raw, src);
        }
        if raw.data_type != DataType::Block {
            return Ok(Routed { check_double_signing: false, act: Act::Ignore, count: None });
        }
        let block = match &m.block {
            Some(b) => b,
            None => return Err(PbftRuntimeError::Malformed("bad data payload".to_owned())),
        };
        let signer = match &m.signer {
            Some(s) => s,
            None => return Err(PbftRuntimeError::Malformed("signature recovery failed".to_owned())),
        };
        let active = match load_active_set_for_epoch(src, raw.epoch) {
            Ok(set) => set,
            Err(e) => return Err(e),
        };
        if !active.contains(signer.as_slice()) {
            return Ok(Routed { check_double_signing: false, act: Act::Ignore, count: None });
        }
        let act = match raw.msg_type {
            MsgType::Preprepare => Act::Observe { block_num: block.0, block_hash: block.1 },
            MsgType::Prepare => Act::Prepare,
            MsgType::Commit => Act::Commit,
            MsgType::ViewChange => {
                self.handle_view_change();
                Act::ViewChange
            },
            _ => Act::Ignore,
        };
        let count = match raw.msg_type {
            MsgType::Prepare | MsgType::Commit => Some(
                Counted { key: tally_key(raw), signer: *signer, witnesses: active.len() },
            ),
            _ => None,
        };
        Ok(Routed { check_double_signing: true, act, count })
    }

    /// A block was observed: the own Prepare, unless it was cast already. `data`
    /// is the block's payload.
    pub fn on_local_block(&self, flags: &mut VoteFlags, epoch: i64, data: &Vec<u8>) -> (r: Option<
        Cast,
    >)
        ensures
            *final(flags) == (VoteFlags {
                broadcast_prepare: true,
                broadcast_commit: old(flags).broadcast_commit,
            }),
            if old(flags).broadcast_prepare {
                r is None
            } else {
                casts(r, MsgType::Prepare, DataType::Block, epoch, 0, data@)
            },
    {
        if flags.broadcast_prepare {
            return None;
        }
        flags.broadcast_prepare = true;
        Some(
            Cast {
                msg_type: MsgType::Prepare,
                data_type: DataType::Block,
                epoch,
                view_n: 0,
                data: copy_all(data.as_slice()),
            },
        )
    }

    /// A Prepare for a block was counted: the own Commit once there are enough of
    /// them, unless it was cast already.
    pub fn handle_prepare(&self, flags: &mut VoteFlags, raw: &PbftRaw, tallied: &Tallied) -> (r:
        Option<Cast>)
        ensures
            if enough_for(*tallied, *raw) && !old(flags).broadcast_commit {
                casts(r, MsgType::Commit, DataType::Block, raw.epoch, raw.view_n, raw.data@)
                    && *final(flags) == (VoteFlags {
                    broadcast_prepare: old(flags).broadcast_prepare,
                    broadcast_commit: true,
                })
            } else {
                r is None && *final(flags) == *old(flags)
            },
    {
        if !is_enough(tallied, raw) || flags.broadcast_commit {
            return None;
        }
        flags.broadcast_commit = true;
        Some(
            Cast {
                msg_type: MsgType::Commit,
                data_type: DataType::Block,
                epoch: raw.epoch,
                view_n: raw.view_n,
                data: copy_all(raw.data.as_slice()),
            },
        )
    }

    /// A Commit for a block was counted: what finality changes, once there are
    /// enough of them. `block` is what the vote's data holds.
    pub fn handle_commit(
        &self,
        raw: &PbftRaw,
        block: Option<(i64, [u8; 32])>,
        tallied: &Tallied,
        prev_solid: Option<i64>,
    ) -> (r: Result<Option<Finality>, PbftRuntimeError>)
        requires
            enough_for(*tallied, *raw) && block is Some ==> (block->Some_0).0 >= i64::MIN + 1024,
        ensures
            if !enough_for(*tallied, *raw) {
                r matches Ok(None)
            } else {
                match block {
                    None => r matches Err(PbftRuntimeError::Malformed(t)) && t@
                        == "bad data payload in commit handler"@,
                    Some(b) => r matches Ok(Some(f)) && f == finality_of(
                        b.0,
                        prev_solid,
                        self.common_database,
                    ),
                }
            },
    {
        if !is_enough(tallied, raw) {
            return Ok(None);
        }
        let block_num: i64 = match block {
            Some((n, _)) => n,
            None => return Err(
                PbftRuntimeError::Malformed("bad data payload in commit handler".to_owned()),
            ),
        };
        let prev: i64 = match prev_solid {
            Some(x) => x,
            None => 0,
        };
        Ok(
            Some(
                Finality {
                    block_num,
                    solidify: if block_num > prev { Some(block_num) } else { None },
                    pbft_num: if self.common_database { Some(block_num) } else { None },
                    prune_below: block_num - HISTORY_CAP,
                },
            ),
        )
    }

    /// The chain is at cycle `current`: the epoch whose list is to be voted on
    /// now, if any. Nothing is voted on twice, in cycle zero, or without a
    /// list.
    pub fn maybe_cast_srl_on_cycle_advance(&mut self, current: i64, has_list: bool) -> (r: Option<
        i64,
    >)
        ensures
            r == (if current > old(self).last_srl_cycle && current != 0 && has_list {
                Some(current)
            } else {
                None
            }),
            *final(self) == (PbftRuntime {
                last_srl_cycle: if r is Some {
                    current
                } else {
                    old(self).last_srl_cycle
                },
                ..*old(self)
            }),
    {
        if current <= self.last_srl_cycle || current == 0 || !has_list {
            return None;
        }
        self.last_srl_cycle = current;
        Some(current)
    }
}

/// Feeding votes to one payload's flags.
#[derive(Debug, Clone, Copy, PartialEq, Eq, Structural)]
pub enum VoteEvent {
    /// The block or list was observed.
    Observed,
    /// A Prepare was counted; whether there are enough of them.
    Prepared(bool),
}

/// The flags and the own votes cast so far, after the first `n` events.
pub open spec fn voted(events: Seq<VoteEvent>, n: nat) -> (VoteFlags, nat, nat)
    decreases n,
{
    if n == 0 {
        (VoteFlags { broadcast_prepare: false, broadcast_commit: false }, 0, 0)
    } else {
        let (f, p, c) = voted(events, (n - 1) as nat);
        match events[n - 1] {
            VoteEvent::Observed => (
                VoteFlags { broadcast_prepare: true, broadcast_commit: f.broadcast_commit },
                if f.broadcast_prepare {
                    p
                } else {
                    p + 1
                },
                c,
            ),
            VoteEvent::Prepared(met) => if met && !f.broadcast_commit {
                (
                    VoteFlags { broadcast_prepare: f.broadcast_prepare, broadcast_commit: true },
                    p,
                    c + 1,
                )
            } else {
                (f, p, c)
            },
        }
    }
}

/// Whatever happens to a payload and in whatever order, the own Prepare and the
/// own Commit are each cast at most once: the Prepare exactly if the payload
/// was observed, the Commit exactly if there were ever enough Prepares.
pub proof fn votes_are_cast_once(events: Seq<VoteEvent>, n: nat)
    requires
        n <= events.len(),
    ensures
        ({
            let (f, p, c) = voted(events, n);
            &&& p == if f.broadcast_prepare {
                1int
            } else {
                0
            }
            &&& c == if f.broadcast_commit {
                1int
            } else {
                0
            }
            &&& f.broadcast_prepare <==> exists|i: int|
                0 <= i < n && #[trigger] events[i] == VoteEvent::Observed
            &&& f.broadcast_commit <==> exists|i: int|
                0 <= i < n && #[trigger] events[i] == VoteEvent::Prepared(true)
        }),
    decreases n,
{
    if n > 0 {
        votes_are_cast_once(events, (n - 1) as nat);
        let last = events[n - 1];
        let (f0, _, _) = voted(events, (n - 1) as nat);
        let (f, _, _) = voted(events, n);
        if f.broadcast_prepare {
            if f0.broadcast_prepare {
                let i = choose|i: int|
                    0 <= i < n - 1 && #[trigger] events[i] == VoteEvent::Observed;
                assert(0 <= i < n && events[i] == VoteEvent::Observed);
            } else {
                assert(events[n - 1] == VoteEvent::Observed);
            }
        }
        if f.broadcast_commit {
            if f0.broadcast_commit {
                let i = choose|i: int|
                    0 <= i < n - 1 && #[trigger] events[i] == VoteEvent::Prepared(true);
                assert(0 <= i < n && events[i] == VoteEvent::Prepared(true));
            } else {
                assert(events[n - 1] == VoteEvent::Prepared(true));
            }
        }
    }
}

// ---------------------------------------------------------------------------
// What judging a vote comes to
// ---------------------------------------------------------------------------

/// The witnesses at an epoch are the entries of one list: that of the snapshot, before
/// or after the rotation, or the stored one; each of them counts once, however often
/// it is listed. `each_once` is any list of the same entries without repetition.
pub proof fn active_witnesses_are_the_list(
    src: ActiveSources,
    epoch: i64,
    list: Seq<[u8; 21]>,
    each_once: Seq<Seq<u8>>,
    a: Seq<u8>,
)
    requires
        match src.snapshot {
            Some(Ok(s)) => (epoch > s.before_maintenance_time_ms ==> list == s.current@) && (epoch
                <= s.before_maintenance_time_ms ==> list == s.before@),
            Some(Err(_)) => false,
            None => match src.on_disk {
                Ok(Some(l)) => list == l@,
                Ok(None) => list.len() == 0,
                Err(_) => false,
            },
        },
        each_once.no_duplicates(),
        forall|x: Seq<u8>| #[trigger]
            each_once.contains(x) <==> exists|i: int| 0 <= i < list.len() && (#[trigger] list[i])@ == x,
    ensures
        active_at(src, epoch) is Ok,
        active_at(src, epoch)->Ok_0.contains(a) <==> exists|i: int|
            0 <= i < list.len() && (#[trigger] list[i])@ == a,
        active_at(src, epoch)->Ok_0.len() == each_once.len(),
{
    let set = members(list, list.len());
    assert(active_at(src, epoch) == Ok::<Set<Seq<u8>>, Seq<char>>(set));
    members_are_the_entries(list, list.len(), a);
    assert forall|x: Seq<u8>| set.contains(x) == each_once.to_set().contains(x) by {
        members_are_the_entries(list, list.len(), x);
        assert(each_once.contains(x) == each_once.to_set().contains(x));
    }
    assert(set =~= each_once.to_set());
    each_once.unique_seq_to_set();
}

/// Where the witnesses cannot be read, the reason is handed on; a snapshot that cannot
/// be read is not replaced by the stored list.
pub proof fn unreadable_witnesses_have_a_reason(src: ActiveSources, epoch: i64)
    ensures
        src.snapshot matches Some(Err(e)) ==> active_at(src, epoch) == Err::<Set<Seq<u8>>, Seq<char>>(
            "sr snapshot poisoned: "@ + e@,
        ),
        src.snapshot is None && src.on_disk is Err ==> active_at(src, epoch) == Err::<
            Set<Seq<u8>>,
            Seq<char>,
        >("load_active: "@ + src.on_disk->Err_0@),
{
}

/// A vote of an active witness is counted: a Prepare or a Commit, on a block as on a
/// list, as the vote of the recovered signer, in the tally of its block's payload or of
/// its list's epoch, and against all the witnesses of its epoch, each counted once.
pub proof fn votes_are_held_against_all_witnesses(
    m: InboundVote,
    src: ActiveSources,
    list: Seq<[u8; 21]>,
    each_once: Seq<Seq<u8>>,
)
    requires
        m.raw is Some,
        m.signer is Some,
        m.raw->Some_0.msg_type == MsgType::Prepare || m.raw->Some_0.msg_type == MsgType::Commit,
        m.raw->Some_0.data_type == DataType::Srl || (m.raw->Some_0.data_type == DataType::Block
            && m.block is Some),
        match src.snapshot {
            Some(Ok(s)) => (m.raw->Some_0.epoch > s.before_maintenance_time_ms ==> list
                == s.current@) && (m.raw->Some_0.epoch <= s.before_maintenance_time_ms ==> list
                == s.before@),
            Some(Err(_)) => false,
            None => match src.on_disk {
                Ok(Some(l)) => list == l@,
                Ok(None) => list.len() == 0,
                Err(_) => false,
            },
        },
        each_once.no_duplicates(),
        forall|x: Seq<u8>| #[trigger]
            each_once.contains(x) <==> exists|i: int| 0 <= i < list.len() && (#[trigger] list[i])@ == x,
        each_once.contains(m.signer->Some_0@),
    ensures
        judge(m, src) is Route,
        ({
            let r = judge(m, src)->Route_0;
            let raw = m.raw->Some_0;
            &&& r.check_double_signing
            &&& r.count is Some
            &&& r.count->Some_0.witnesses == each_once.len()
            &&& r.count->Some_0.signer == m.signer->Some_0@
            &&& r.count->Some_0.key == if raw.data_type == DataType::Srl {
                TallyKeyView::Srl(raw.epoch)
            } else {
                TallyKeyView::Block(raw.data@)
            }
            &&& r.act == match (raw.data_type == DataType::Srl, raw.msg_type == MsgType::Commit) {
                (true, true) => Act::SrlCommit,
                (true, false) => Act::SrlPrepare,
                (false, true) => Act::Commit,
                (false, false) => Act::Prepare,
            }
        }),
{
    let a = m.signer->Some_0@;
    active_witnesses_are_the_list(src, m.raw->Some_0.epoch, list, each_once, a);
}

/// Votes that count nothing: of an active witness a proposal makes the node vote
/// itself, and a view change on a block is counted apart; anything else is ignored.
pub proof fn other_votes_are_not_counted(m: InboundVote, src: ActiveSources)
    requires
        m.raw is Some,
        m.signer is Some,
        m.raw->Some_0.msg_type != MsgType::Prepare,
        m.raw->Some_0.msg_type != MsgType::Commit,
        m.raw->Some_0.data_type == DataType::Srl || (m.raw->Some_0.data_type == DataType::Block
            && m.block is Some),
        active_at(src, m.raw->Some_0.epoch) is Ok,
        active_at(src, m.raw->Some_0.epoch)->Ok_0.contains(m.signer->Some_0@),
    ensures
        judge(m, src) is Route,
        ({
            let r = judge(m, src)->Route_0;
            let raw = m.raw->Some_0;
            &&& r.check_double_signing
            &&& r.count is None
            &&& raw.msg_type == MsgType::Preprepare && raw.data_type == DataType::Srl ==> r.act
                == Act::SrlObserve
            &&& raw.msg_type == MsgType::Preprepare && raw.data_type == DataType::Block ==> r.act
                == (Act::Observe {
                block_num: (m.block->Some_0).0,
                block_hash: (m.block->Some_0).1,
            })
            &&& raw.msg_type == MsgType::ViewChange && raw.data_type == DataType::Block ==> r.act
                == Act::ViewChange
            &&& raw.msg_type == MsgType::ViewChange && raw.data_type == DataType::Srl ==> r.act
                == Act::Ignore
            &&& raw.msg_type == MsgType::Request || raw.msg_type == MsgType::Unknown ==> r.act
                == Act::Ignore
        }),
{
}

/// Votes that are refused or dropped before anybody is looked up: without signed data,
/// on a block without a readable payload, or with a signature of nobody; one of an
/// unknown kind is dropped. A vote whose signer is no witness of its epoch is dropped,
/// too, and is not held against its signer's other votes.
pub proof fn unusable_votes_change_nothing(m: InboundVote, src: ActiveSources)
    ensures
        m.raw is None ==> judge(m, src) == Judged::Malformed("missing raw_data"@),
        m.raw matches Some(raw) ==> {
            &&& raw.data_type == DataType::Unknown ==> judge(m, src) == Judged::Route(
                RoutedView { check_double_signing: false, act: Act::Ignore, count: None },
            )
            &&& raw.data_type == DataType::Block && m.block is None ==> judge(m, src)
                == Judged::Malformed("bad data payload"@)
            &&& raw.data_type == DataType::Block && m.block is Some && m.signer is None ==> judge(
                m,
                src,
            ) == Judged::Malformed("signature recovery failed"@)
            &&& raw.data_type == DataType::Srl && m.signer is None ==> judge(m, src)
                == Judged::Malformed("SRL signature recovery failed"@)
            &&& m.signer is Some && (raw.data_type == DataType::Srl || (raw.data_type
                == DataType::Block && m.block is Some)) ==> match active_at(src, raw.epoch) {
                Err(t) => judge(m, src) == Judged::Storage(t),
                Ok(set) => !set.contains(m.signer->Some_0@) ==> judge(m, src) == Judged::Route(
                    RoutedView { check_double_signing: false, act: Act::Ignore, count: None },
                ),
            }
        },
{
}

/// The plain values of a routed vote are its fields.
pub proof fn routed_views_are_the_fields(r: Routed)
    ensures
        r@.check_double_signing == r.check_double_signing,
        r@.act == r.act,
        r@.count is Some <==> r.count is Some,
        r.count matches Some(c) ==> {
            &&& r@.count->Some_0.witnesses == c.witnesses
            &&& r@.count->Some_0.signer == c.signer@
            &&& c.key matches TallyKey::Srl(e) ==> r@.count->Some_0.key == TallyKeyView::Srl(e)
            &&& c.key matches TallyKey::Block(d) ==> r@.count->Some_0.key == TallyKeyView::Block(d@)
        },
{
}

/// Only a tally's own answer decides: there are enough votes on a block exactly if the
/// tally of its payload says so, and on a list exactly if that of its epoch does.
pub proof fn tallies_answer_for_themselves(t: Tallied, raw: PbftRaw)
    ensures
        enough_for(t, raw) ==> t.enough,
        raw.data_type == DataType::Srl ==> (enough_for(t, raw) <==> t.enough && t.key
            == TallyKey::Srl(raw.epoch)),
        raw.data_type == DataType::Block ==> (enough_for(t, raw) <==> t.enough && (
        t.key matches TallyKey::Block(d) && d@ == raw.data@)),
{
}

/// Finality of a block: its signatures are stored under its number, the solidified
/// number becomes the greater of the two, the latest final number is noted where it is
/// kept, and the votes on all but the last 1024 blocks are forgotten.
pub proof fn finality_reaches_the_block(block_num: i64, prev: Option<i64>, keeps: bool)
    requires
        block_num >= i64::MIN + 1024,
    ensures
        ({
            let f = finality_of(block_num, prev, keeps);
            let before = match prev {
                Some(p) => p as int,
                None => 0,
            };
            &&& f.block_num == block_num
            &&& block_num > before ==> f.solidify == Some(block_num)
            &&& block_num <= before ==> f.solidify is None
            &&& keeps ==> f.pbft_num == Some(block_num)
            &&& !keeps ==> f.pbft_num is None
            &&& block_num - f.prune_below == 1024
        }),
{
}

/// A vote that is cast is this one in every part.
pub proof fn casts_are_whole(
    c: Cast,
    msg_type: MsgType,
    data_type: DataType,
    epoch: i64,
    view_n: i64,
    data: Seq<u8>,
)
    ensures
        casts(Some(c), msg_type, data_type, epoch, view_n, data) <==> c.msg_type == msg_type
            && c.data_type == data_type && c.epoch == epoch && c.view_n == view_n && c.data@
            == data,
        !casts(None, msg_type, data_type, epoch, view_n, data),
{
}

/// A tally holds exactly the witnesses of whom a vote was counted in it.
pub proof fn voters_are_the_signers(votes: Seq<CountedView>, key: TallyKeyView, n: nat, a: Seq<u8>)
    requires
        n <= votes.len(),
    ensures
        voters(votes, key, n).contains(a) <==> exists|i: int|
            0 <= i < n && (#[trigger] votes[i]).key == key && votes[i].signer == a,
    decreases n,
{
    if n > 0 {
        voters_are_the_signers(votes, key, (n - 1) as nat, a);
        if votes[n - 1].key == key && votes[n - 1].signer == a {
            assert(votes[n - 1].signer == a);
        }
        if voters(votes, key, (n - 1) as nat).contains(a) {
            let i = choose|i: int|
                0 <= i < n - 1 && (#[trigger] votes[i]).key == key && votes[i].signer == a;
            assert(votes[i].signer == a);
        }
    }
}

/// A view change raises the count by one until it is full, and nothing else.
pub proof fn view_changes_are_counted(r: PbftRuntime)
    ensures
        r.view_change_count < u64::MAX ==> r.after_view_change().view_change_count
            == r.view_change_count + 1,
        r.view_change_count == u64::MAX ==> r.after_view_change().view_change_count == u64::MAX,
        r.after_view_change().last_srl_cycle == r.last_srl_cycle,
        r.after_view_change().common_database == r.common_database,
{
}

/// An epoch that was not voted on has no flag set.
pub proof fn epochs_start_without_votes(m: Map<i64, VoteFlags>, epoch: i64)
    ensures
        !m.contains_key(epoch) ==> !flags_at(m, epoch).broadcast_prepare && !flags_at(
            m,
            epoch,
        ).broadcast_commit,
        m.contains_key(epoch) ==> flags_at(m, epoch) == m[epoch],
{
}

/// The answer to a vote of an active witness: the vote is to be checked and
/// counted, against as many witnesses as there are, and the runtime stays as it
/// was.
pub proof fn votes_are_answered_in_full(
    rt: &mut PbftRuntime,
    m: InboundVote,
    src: ActiveSources,
    list: Seq<[u8; 21]>,
    each_once: Seq<Seq<u8>>,
    r: Result<Routed, PbftRuntimeError>,
)
    requires
        call_ensures(PbftRuntime::handle_inbound, (rt, &m, &src), r),
        m.raw is Some,
        m.signer is Some,
        m.raw->Some_0.msg_type == MsgType::Prepare || m.raw->Some_0.msg_type == MsgType::Commit,
        m.raw->Some_0.data_type == DataType::Srl || (m.raw->Some_0.data_type == DataType::Block
            && m.block is Some),
        match src.snapshot {
            Some(Ok(s)) => (m.raw->Some_0.epoch > s.before_maintenance_time_ms ==> list
                == s.current@) && (m.raw->Some_0.epoch <= s.before_maintenance_time_ms ==> list
                == s.before@),
            Some(Err(_)) => false,
            None => match src.on_disk {
                Ok(Some(l)) => list == l@,
                Ok(None) => list.len() == 0,
                Err(_) => false,
            },
        },
        each_once.no_duplicates(),
        forall|x: Seq<u8>| #[trigger]
            each_once.contains(x) <==> exists|i: int| 0 <= i < list.len() && (#[trigger] list[i])@ == x,
        each_once.contains(m.signer->Some_0@),
    ensures
        r is Ok,
        r->Ok_0.check_double_signing,
        r->Ok_0.count is Some,
        (r->Ok_0.count->Some_0).witnesses == each_once.len(),
        (r->Ok_0.count->Some_0).signer@ == m.signer->Some_0@,
        m.raw->Some_0.data_type == DataType::Block && m.raw->Some_0.msg_type == MsgType::Prepare
            ==> r->Ok_0.act == Act::Prepare,
        m.raw->Some_0.data_type == DataType::Block && m.raw->Some_0.msg_type == MsgType::Commit
            ==> r->Ok_0.act == Act::Commit,
        *final(rt) == *old(rt),
{
    votes_are_held_against_all_witnesses(m, src, list, each_once);
}

/// The own Prepare for a block is cast when it is first observed, and not again.
pub proof fn own_prepares_are_cast_once(
    rt: PbftRuntime,
    flags: &mut VoteFlags,
    epoch: i64,
    data: Vec<u8>,
    r: Option<Cast>,
)
    requires
        call_ensures(PbftRuntime::on_local_block, (&rt, flags, epoch, &data), r),
    ensures
        old(flags).broadcast_prepare ==> r is None,
        !old(flags).broadcast_prepare ==> r is Some && (r->Some_0).msg_type == MsgType::Prepare && (
        r->Some_0).data_type == DataType::Block && (r->Some_0).epoch == epoch && (r->Some_0).view_n
            == 0 && (r->Some_0).data@ == data@,
        final(flags).broadcast_prepare,
        final(flags).broadcast_commit == old(flags).broadcast_commit,
{
}

/// The own Commit for a block is cast when its tally first holds enough
/// Prepares, and not again.
pub proof fn own_commits_are_cast_once(
    rt: PbftRuntime,
    flags: &mut VoteFlags,
    raw: PbftRaw,
    t: Tallied,
    r: Option<Cast>,
)
    requires
        call_ensures(PbftRuntime::handle_prepare, (&rt, flags, &raw, &t), r),
        raw.data_type == DataType::Block,
        t.key@ == TallyKeyView::Block(raw.data@),
    ensures
        t.enough && !old(flags).broadcast_commit ==> r is Some && (r->Some_0).msg_type
            == MsgType::Commit && (r->Some_0).data_type == DataType::Block && (r->Some_0).epoch
            == raw.epoch && (r->Some_0).view_n == raw.view_n && (r->Some_0).data@ == raw.data@
            && final(flags).broadcast_commit,
        !t.enough || old(flags).broadcast_commit ==> r is None && *final(flags) == *old(flags),
        final(flags).broadcast_prepare == old(flags).broadcast_prepare,
{
}

/// Enough Commits make the block of the vote final: the solidified number rises
/// to it and never falls, and older votes are forgotten.
pub proof fn commits_make_final(
    rt: PbftRuntime,
    raw: PbftRaw,
    block: (i64, [u8; 32]),
    t: Tallied,
    prev: i64,
    r: Result<Option<Finality>, PbftRuntimeError>,
)
    requires
        call_ensures(PbftRuntime::handle_commit, (&rt, &raw, Some(block), &t, Some(prev)), r),
        block.0 >= i64::MIN + 1024,
        raw.data_type == DataType::Block,
        t.key@ == TallyKeyView::Block(raw.data@),
    ensures
        !t.enough ==> r is Ok && r->Ok_0 is None,
        t.enough ==> r is Ok && r->Ok_0 is Some && {
            let f = r->Ok_0->Some_0;
            &&& f.block_num == block.0
            &&& block.0 > prev ==> f.solidify == Some(block.0)
            &&& block.0 <= prev ==> f.solidify is None
            &&& f.prune_below == block.0 - 1024
            &&& rt.common_database ==> f.pbft_num == Some(block.0)
            &&& !rt.common_database ==> f.pbft_num is None
        },
{
}

/// A list is voted on once in a cycle that is later than the last one voted in.
pub proof fn cycles_are_voted_on_once(
    rt: &mut PbftRuntime,
    current: i64,
    has_list: bool,
    r: Option<i64>,
)
    requires
        call_ensures(PbftRuntime::maybe_cast_srl_on_cycle_advance, (rt, current, has_list), r),
    ensures
        r is Some ==> r->Some_0 == current && current > old(rt).last_srl_cycle && has_list
            && final(rt).last_srl_cycle == current,
        r is None ==> *final(rt) == *old(rt),
        current > old(rt).last_srl_cycle && current > 0 && has_list ==> r is Some,
        current == 0 || !has_list || current <= old(rt).last_srl_cycle ==> r is None,
{
}

/// The own votes on a list: a Prepare when it is first observed in its epoch, a
/// Commit when the epoch's tally first holds enough Prepares, and the epoch once
/// it holds enough Commits.
pub proof fn list_votes_are_cast_once(
    votes: &mut SrlVotes,
    epoch: i64,
    payload: Vec<u8>,
    r: Option<Cast>,
)
    requires
        call_ensures(SrlVotes::cast_our_srl_prepare, (votes, epoch, &payload), r),
    ensures
        !old(votes)@.contains_key(epoch) ==> r is Some && (r->Some_0).msg_type == MsgType::Prepare
            && (r->Some_0).data_type == DataType::Srl && (r->Some_0).epoch == epoch && (
        r->Some_0).view_n == epoch && (r->Some_0).data@ == payload@,
        old(votes)@.contains_key(epoch) && old(votes)@[epoch].broadcast_prepare ==> r is None,
        final(votes)@.contains_key(epoch),
        final(votes)@[epoch].broadcast_prepare,
        forall|e: i64|
            e != epoch ==> #[trigger] final(votes)@.contains_key(e) == old(votes)@.contains_key(e),
        forall|e: i64|
            e != epoch && old(votes)@.contains_key(e) ==> #[trigger] final(votes)@[e] == old(votes)@[e],
{
}

/// A Commit for a list follows the tally of its epoch.
pub proof fn list_commits_follow_the_tally(
    votes: &mut SrlVotes,
    raw: PbftRaw,
    t: Tallied,
    r: Option<Cast>,
)
    requires
        call_ensures(SrlVotes::handle_srl_prepare, (votes, &raw, &t), r),
        raw.data_type == DataType::Srl,
        t.key@ == TallyKeyView::Srl(raw.epoch),
    ensures
        !t.enough ==> r is None && final(votes)@ == old(votes)@,
        t.enough && !old(votes)@.contains_key(raw.epoch) ==> r is Some,
        t.enough && old(votes)@.contains_key(raw.epoch) && old(votes)@[raw.epoch].broadcast_commit ==> r is None && final(votes)@ == old(votes)@,
        r is Some ==> (r->Some_0).msg_type == MsgType::Commit && (r->Some_0).data_type
            == DataType::Srl && (r->Some_0).epoch == raw.epoch && (r->Some_0).view_n == raw.view_n
            && (r->Some_0).data@ == raw.data@ && final(votes)@[raw.epoch].broadcast_commit,
{
}

/// The signatures on a list are stored under its epoch once there are enough of
/// them, and that the own Prepare was cast is not forgotten.
pub proof fn lists_become_final_in_their_epoch(
    votes: &mut SrlVotes,
    raw: PbftRaw,
    t: Tallied,
    r: Option<i64>,
)
    requires
        call_ensures(SrlVotes::handle_srl_commit, (votes, &raw, &t), r),
        raw.data_type == DataType::Srl,
        t.key@ == TallyKeyView::Srl(raw.epoch),
    ensures
        t.enough ==> r == Some(raw.epoch),
        !t.enough ==> r is None && final(votes)@ == old(votes)@,
        t.enough && old(votes)@.contains_key(raw.epoch) ==> final(votes)@[raw.epoch].broadcast_prepare == old(votes)@[raw.epoch].broadcast_prepare,
        t.enough ==> !final(votes)@[raw.epoch].broadcast_commit,
{
}

} // verus!
