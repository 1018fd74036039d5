//! Serving peers that dial in: admission, what is advertised to them, and the
//! serving loop's decisions.

use vstd::prelude::*;
use vstd::string::*;

use crate::chain::{BlockId, BlockIndex};

verus! {

/// The network id that is advertised.
pub const NETWORK_ID_MAINNET: i32 = 11_111;

/// The connection protocol's version that is advertised.
pub const LIBP2P_VERSION: i32 = 2;

/// Nanoseconds between keep-alive pings, and the longest wait for a frame.
pub const KEEPALIVE_INTERVAL_NS: u64 = 10_000_000_000;

/// A peer that sends nothing for longer than this is dropped.
pub const KEEPALIVE_INBOUND_DEADLINE_NS: u64 = 120_000_000_000;

/// What is known of the own chain.
pub struct ChainTip {
    pub head_number: Option<i64>,
    pub head_hash: Option<[u8; 32]>,
    pub solidified: Option<i64>,
    pub block_index: Option<BlockIndex>,
    /// The lowest height in the index.
    pub lowest: Option<i64>,
}

/// What the application-level hello advertises.
#[derive(Debug, Clone, Copy)]
pub struct Hello {
    pub genesis: BlockId,
    pub solid: BlockId,
    pub head: BlockId,
    pub lowest_block_num: i64,
    pub node_type: i32,
    pub port: i32,
    pub timestamp_ms: i64,
}

/// The serving side.
#[derive(Debug, Clone, Copy)]
pub struct InboundServer {
    pub genesis: BlockId,
    pub advertise_port: i32,
    pub max_inbound: usize,
    /// Peers that are served now.
    pub inbound: usize,
    /// Requests served so far.
    pub served: u64,
}

/// The head's id: the genesis id where none is known.
pub open spec fn spec_head_id(s: InboundServer, tip: ChainTip) -> BlockId {
    match tip.head_hash {
        Some(h) => (BlockId { raw: h }),
        None => s.genesis,
    }
}

/// The solidified block's id: the head's id where the solidified number or its
/// id is not known.
pub open spec fn spec_solid_id(s: InboundServer, tip: ChainTip) -> BlockId {
    match (tip.solidified, tip.block_index) {
        (Some(n), Some(index)) => if index@.contains_key(n) {
            index@[n]
        } else {
            spec_head_id(s, tip)
        },
        _ => spec_head_id(s, tip),
    }
}

/// A number, or zero.
pub open spec fn number_or_zero(n: Option<i64>) -> i64 {
    match n {
        Some(x) => x,
        None => 0,
    }
}

impl InboundServer {
    /// A server that serves nobody yet. It always has room for one peer.
    pub fn new(genesis: BlockId, advertise_port: i32, max_inbound: usize) -> (r: InboundServer)
        ensures
            r.genesis == genesis,
            r.advertise_port == advertise_port,
            r.max_inbound == if max_inbound < 1 {
                1
            } else {
                max_inbound
            },
            r.inbound == 0,
            r.served == 0,
    {
        InboundServer {
            genesis,
            advertise_port,
            max_inbound: if max_inbound < 1 { 1 } else { max_inbound },
            inbound: 0,
            served: 0,
        }
    }

    /// Whether a peer that just dialed in is served.
    pub fn has_room(&self) -> (r: bool)
        ensures
            r == (self.inbound < self.max_inbound),
    {
        self.inbound < self.max_inbound
    }

    /// Counts a peer whose serving starts. Returns how many are served.
    pub fn peer_started(&mut self) -> (r: usize)
        requires
            old(self).inbound < usize::MAX,
        ensures
            *final(self) == (InboundServer {
                inbound: (old(self).inbound + 1) as usize,
                ..*old(self)
            }),
            r == old(self).inbound + 1,
    {
        self.inbound = self.inbound + 1;
        self.inbound
    }

    /// Counts a peer whose serving ended. Returns how many are served.
    pub fn peer_ended(&mut self) -> (r: usize)
        requires
            old(self).inbound > 0,
        ensures
            *final(self) == (InboundServer {
                inbound: (old(self).inbound - 1) as usize,
                ..*old(self)
            }),
            r == old(self).inbound - 1,
    {
        self.inbound = self.inbound - 1;
        self.inbound
    }

    /// Counts a served request.
    pub fn note_served(&mut self)
        requires
            old(self).served < u64::MAX,
        ensures
            *final(self) == (InboundServer {
                served: (old(self).served + 1) as u64,
                ..*old(self)
            }),
    {
        self.served = self.served + 1;
    }

    /// The head's number, zero where none is known.
    pub fn head_number(&self, tip: &ChainTip) -> (r: i64)
        ensures
            r == number_or_zero(tip.head_number),
    {
        match tip.head_number {
            Some(n) => n,
            None => 0,
        }
    }

    /// The head's id.
    pub fn head_id(&self, tip: &ChainTip) -> (r: BlockId)
        ensures
            r == spec_head_id(*self, *tip),
    {
        match tip.head_hash {
            Some(h) => BlockId::from_raw(h),
            None => self.genesis,
        }
    }

    /// The solidified block's id.
    pub fn solid_id(&self, tip: &ChainTip) -> (r: BlockId)
        ensures
            r == spec_solid_id(*self, *tip),
    {
        let head = self.head_id(tip);
        let num: i64 = match tip.solidified {
            Some(n) => n,
            None => return head,
        };
        match &tip.block_index {
            Some(index) => match index.get(num) {
                Some(id) => id,
                None => head,
            },
            None => head,
        }
    }

    /// The lowest height held, zero where it is not known.
    pub fn lowest_block_num(&self, tip: &ChainTip) -> (r: i64)
        ensures
            r == (if tip.block_index is Some {
                number_or_zero(tip.lowest)
            } else {
                0
            }),
    {
        if tip.block_index.is_none() {
            return 0;
        }
        match tip.lowest {
            Some(n) => n,
            None => 0,
        }
    }

    /// What is advertised to a peer.
    pub fn hello(&self, tip: &ChainTip, timestamp_ms: i64) -> (r: Hello)
        ensures
            r.genesis == self.genesis,
            r.solid == spec_solid_id(*self, *tip),
            r.head == spec_head_id(*self, *tip),
            r.lowest_block_num == (if tip.block_index is Some {
                number_or_zero(tip.lowest)
            } else {
                0
            }),
            r.node_type == 0,
            r.port == self.advertise_port,
            r.timestamp_ms == timestamp_ms,
    {
        Hello {
            genesis: self.genesis,
            solid: self.solid_id(tip),
            head: self.head_id(tip),
            lowest_block_num: self.lowest_block_num(tip),
            node_type: 0,
            port: self.advertise_port,
            timestamp_ms,
        }
    }
}

// ---------------------------------------------------------------------------
// The serving loop
// ---------------------------------------------------------------------------

/// The kinds of frame that the serving loop tells apart.
#[derive(Debug, Clone, Copy, PartialEq, Eq, Structural)]
pub enum MessageType {
    Libp2pKeepAlivePing,
    Libp2pKeepAlivePong,
    P2pPong,
    SyncBlockChain,
    FetchInvData,
    P2pDisconnect,
    Libp2pDisconnect,
    /// Announcements and everything else.
    Other,
}

/// What waiting for a frame came to.
#[derive(Debug, Clone)]
pub enum Reading {
    /// A frame of this kind.
    Frame(MessageType),
    /// The peer closed the connection.
    Closed,
    /// Reading failed, for this reason.
    Failed(String),
    /// Nothing came in time.
    TimedOut,
}

/// What to do when the loop wakes.
#[derive(Debug, Clone, Copy, PartialEq, Eq, Structural)]
pub enum Wake {
    /// The peer was silent for too long.
    Drop,
    /// Send a ping, then wait for a frame.
    PingAndRead,
    /// Wait for a frame.
    Read,
}

/// What to do about a reading.
#[derive(Debug, Clone)]
pub enum Serve {
    /// Go on.
    Continue,
    /// Answer the ping.
    Pong,
    /// Answer with the ids past the shared block.
    Inventory,
    /// Answer with the bodies asked for.
    Bodies,
    /// The peer left.
    Done,
    /// Reading failed.
    Fail(String),
}

/// Nanoseconds from one moment to a later one, zero where it is not later.
pub open spec fn since(now: u64, then: u64) -> int {
    if now >= then {
        now - then
    } else {
        0
    }
}

fn elapsed(now: u64, earlier: u64) -> (r: u64)
    ensures
        r == since(now, earlier),
{
    if now >= earlier {
        now - earlier
    } else {
        0
    }
}

/// One peer that is being served.
#[derive(Debug, Clone, Copy, PartialEq, Eq, Structural)]
pub struct Serving {
    pub last_inbound_ns: u64,
    pub last_ping_ns: u64,
}

/// What the loop does when it wakes.
pub open spec fn waking(s: Serving, now: u64) -> Wake {
    if since(now, s.last_inbound_ns) > 120_000_000_000 {
        Wake::Drop
    } else if since(now, s.last_ping_ns) >= 10_000_000_000 {
        Wake::PingAndRead
    } else {
        Wake::Read
    }
}

impl Serving {
    /// A peer whose handshake just ended.
    pub fn new(now_ns: u64) -> (r: Serving)
        ensures
            r == (Serving { last_inbound_ns: now_ns, last_ping_ns: now_ns }),
    {
        Serving { last_inbound_ns: now_ns, last_ping_ns: now_ns }
    }

    /// Decides what to do when the loop wakes. A ping that is due is counted
    /// as sent.
    pub fn wake(&mut self, now_ns: u64) -> (r: Wake)
        ensures
            r == waking(*old(self), now_ns),
            *final(self) == (Serving {
                last_ping_ns: if r == Wake::PingAndRead {
                    now_ns
                } else {
                    old(self).last_ping_ns
                },
                last_inbound_ns: old(self).last_inbound_ns,
            }),
    {
        if elapsed(now_ns, self.last_inbound_ns) > KEEPALIVE_INBOUND_DEADLINE_NS {
            return Wake::Drop;
        }
        if elapsed(now_ns, self.last_ping_ns) >= KEEPALIVE_INTERVAL_NS {
            self.last_ping_ns = now_ns;
            return Wake::PingAndRead;
        }
        Wake::Read
    }

    /// Decides what to do about a reading. Only a frame counts as a sign of
    /// life.
    pub fn on_reading(&mut self, reading: &Reading, now_ns: u64) -> (r: Serve)
        ensures
            *final(self) == (Serving {
                last_inbound_ns: if reading is Frame {
                    now_ns
                } else {
                    old(self).last_inbound_ns
                },
                last_ping_ns: old(self).last_ping_ns,
            }),
            match *reading {
                Reading::Closed => r is Done,
                Reading::Failed(e) => r is Fail && r->Fail_0@ == "read: "@ + e@,
                Reading::TimedOut => r is Continue,
                Reading::Frame(t) => match t {
                    MessageType::Libp2pKeepAlivePing => r is Pong,
                    MessageType::SyncBlockChain => r is Inventory,
                    MessageType::FetchInvData => r is Bodies,
                    MessageType::P2pDisconnect => r is Done,
                    MessageType::Libp2pDisconnect => r is Done,
                    _ => r is Continue,
                },
            },
    {
        let t: MessageType = match reading {
            Reading::Closed => return Serve::Done,
            Reading::Failed(e) => {
                let mut s = "read: ".to_owned();
                s.append(e.as_str());
                return Serve::Fail(s);
            },
            Reading::TimedOut => return Serve::Continue,
            Reading::Frame(t) => *t,
        };
        self.last_inbound_ns = now_ns;
        match t {
            MessageType::Libp2pKeepAlivePing => Serve::Pong,
            MessageType::SyncBlockChain => Serve::Inventory,
            MessageType::FetchInvData => Serve::Bodies,
            MessageType::P2pDisconnect => Serve::Done,
            MessageType::Libp2pDisconnect => Serve::Done,
            MessageType::Libp2pKeepAlivePong => Serve::Continue,
            MessageType::P2pPong => Serve::Continue,
            MessageType::Other => Serve::Continue,
        }
    }
}

/// How a request for ids is answered.
#[derive(Debug, Clone, Copy, PartialEq, Eq, Structural)]
pub enum InventoryReply {
    /// The request does not decode: no answer.
    Silent,
    /// There is no index: no ids, none remaining.
    Empty,
    /// The ids of the index past the shared block.
    FromIndex,
}

/// Decides how a request for ids is answered.
pub fn inventory_reply(decodes: bool, has_index: bool) -> (r: InventoryReply)
    ensures
        r == (if !decodes {
            InventoryReply::Silent
        } else if has_index {
            InventoryReply::FromIndex
        } else {
            InventoryReply::Empty
        }),
{
    if !decodes {
        InventoryReply::Silent
    } else if has_index {
        InventoryReply::FromIndex
    } else {
        InventoryReply::Empty
    }
}

/// Where serving a peer failed.
#[derive(Debug, Clone, Copy, PartialEq, Eq, Structural)]
pub enum Stage {
    Connecting,
    Greeting,
    Pinging,
    Answering,
    SendingIds,
    SendingBodies,
}

/// The words in which a failure is reported.
pub open spec fn failure_text(stage: Stage, reason: Seq<char>) -> Seq<char> {
    match stage {
        Stage::Connecting => "libp2p_handshake: "@ + reason,
        Stage::Greeting => "handshake: "@ + reason,
        Stage::Pinging => "send keepalive ping: "@ + reason,
        Stage::Answering => "send keepalive pong: "@ + reason,
        Stage::SendingIds => "send_chain_inventory: "@ + reason,
        Stage::SendingBodies => reason,
    }
}

/// The words in which a failure is reported.
pub fn failure(stage: Stage, reason: &str) -> (r: String)
    ensures
        r@ == failure_text(stage, reason@),
{
    let mut s = match stage {
        Stage::Connecting => "libp2p_handshake: ".to_owned(),
        Stage::Greeting => "handshake: ".to_owned(),
        Stage::Pinging => "send keepalive ping: ".to_owned(),
        Stage::Answering => "send keepalive pong: ".to_owned(),
        Stage::SendingIds => "send_chain_inventory: ".to_owned(),
        Stage::SendingBodies => return reason.to_owned(),
    };
    s.append(reason);
    s
}

/// A peer that keeps sending is never dropped for silence, and one that falls
/// silent is dropped at the first wake after the deadline.
pub proof fn silence_alone_drops(s: Serving, now: u64)
    ensures
        waking(s, now) == Wake::Drop <==> now > s.last_inbound_ns + 120_000_000_000,
{
}

/// A ping is due as soon as the interval has passed since the last one, as long
/// as the peer was not silent for too long.
pub proof fn pings_keep_coming(s: Serving, now: u64)
    requires
        now >= s.last_ping_ns + 10_000_000_000,
        now <= s.last_inbound_ns + 120_000_000_000,
    ensures
        waking(s, now) == Wake::PingAndRead,
{
}

/// The time between two moments, and none where the second is the earlier.
pub proof fn time_since_is_the_difference(now: u64, then: u64)
    ensures
        now >= then ==> since(now, then) == now - then,
        now < then ==> since(now, then) == 0,
{
}

/// The three things that a wake comes to, told apart by the two clocks alone: a
/// peer heard of within two minutes is not dropped, one pinged less than ten
/// seconds ago is only read from.
pub proof fn wakes_go_three_ways(s: Serving, now: u64)
    ensures
        now <= s.last_inbound_ns + 120_000_000_000 && now < s.last_ping_ns + 10_000_000_000
            ==> waking(s, now) == Wake::Read,
        now <= s.last_inbound_ns + 120_000_000_000 && now >= s.last_ping_ns + 10_000_000_000
            ==> waking(s, now) == Wake::PingAndRead,
        now > s.last_inbound_ns + 120_000_000_000 ==> waking(s, now) == Wake::Drop,
{
}

/// What is advertised: the head's hash where there is one, the indexed id at
/// the solidified height where that is known, and otherwise the genesis id and
/// the head in its place.
pub proof fn advertised_ids(s: InboundServer, tip: ChainTip)
    ensures
        tip.head_hash is Some ==> spec_head_id(s, tip).raw == tip.head_hash->Some_0,
        tip.head_hash is None ==> spec_head_id(s, tip) == s.genesis,
        tip.solidified is Some && tip.block_index is Some
            && (tip.block_index->Some_0)@.contains_key(tip.solidified->Some_0) ==> spec_solid_id(
            s,
            tip,
        ) == (tip.block_index->Some_0)@[tip.solidified->Some_0],
        tip.solidified is None || tip.block_index is None || !(tip.block_index->Some_0)@.contains_key(
            tip.solidified->Some_0,
        ) ==> (tip.head_hash is Some ==> spec_solid_id(s, tip).raw == tip.head_hash->Some_0) && (
        tip.head_hash is None ==> spec_solid_id(s, tip) == s.genesis),
        number_or_zero(tip.head_number) == (if tip.head_number is Some {
            tip.head_number->Some_0
        } else {
            0
        }),
{
}

/// The answer to a frame is of its kind, and every frame counts as a sign of
/// life; nothing else does.
pub proof fn frames_are_answered(s: &mut Serving, reading: Reading, now: u64, r: Serve)
    requires
        call_ensures(Serving::on_reading, (s, &reading, now), r),
    ensures
        reading is Frame ==> final(s).last_inbound_ns == now,
        reading !is Frame ==> final(s).last_inbound_ns == old(s).last_inbound_ns,
        final(s).last_ping_ns == old(s).last_ping_ns,
        r is Pong <==> reading == Reading::Frame(MessageType::Libp2pKeepAlivePing),
        r is Inventory <==> reading == Reading::Frame(MessageType::SyncBlockChain),
        r is Bodies <==> reading == Reading::Frame(MessageType::FetchInvData),
        r is Done <==> reading is Closed || reading == Reading::Frame(MessageType::P2pDisconnect)
            || reading == Reading::Frame(MessageType::Libp2pDisconnect),
        r is Fail <==> reading is Failed,
{
}

/// A ping that is sent moves the ping's clock, and a wake moves nothing else.
pub proof fn wakes_move_the_ping_clock(s: &mut Serving, now: u64, r: Wake)
    requires
        call_ensures(Serving::wake, (s, now), r),
    ensures
        r == Wake::PingAndRead ==> final(s).last_ping_ns == now,
        r != Wake::PingAndRead ==> *final(s) == *old(s),
        final(s).last_inbound_ns == old(s).last_inbound_ns,
        r == Wake::Drop <==> now > old(s).last_inbound_ns + 120_000_000_000,
{
}

/// A server takes peers up to its limit, and at least one.
pub proof fn servers_have_room_for_one(
    genesis: BlockId,
    port: i32,
    max: usize,
    s: InboundServer,
    r: bool,
)
    requires
        call_ensures(InboundServer::new, (genesis, port, max), s),
        call_ensures(InboundServer::has_room, (&s,), r),
    ensures
        r,
        max >= 1 ==> s.max_inbound == max,
        max == 0 ==> s.max_inbound == 1,
        s.genesis == genesis,
        s.advertise_port == port,
        s.inbound == 0,
        s.served == 0,
{
}

/// What a peer is greeted with.
pub proof fn greetings_tell_the_chain(s: InboundServer, tip: ChainTip, now: i64, r: Hello)
    requires
        call_ensures(InboundServer::hello, (&s, &tip, now), r),
    ensures
        r.genesis == s.genesis,
        r.port == s.advertise_port,
        r.timestamp_ms == now,
        r.node_type == 0,
        tip.head_hash is Some ==> r.head.raw == tip.head_hash->Some_0,
        tip.head_hash is None ==> r.head == s.genesis,
        tip.block_index is Some && tip.lowest is Some ==> r.lowest_block_num == tip.lowest->Some_0,
        tip.block_index is None || tip.lowest is None ==> r.lowest_block_num == 0,
        tip.solidified is None || tip.block_index is None ==> r.solid == r.head,
{
}

/// A request that does not decode is not answered; without an index there are
/// no ids to send.
pub proof fn inventories_need_an_index(decodes: bool, has_index: bool, r: InventoryReply)
    requires
        call_ensures(inventory_reply, (decodes, has_index), r),
    ensures
        r == InventoryReply::Silent <==> !decodes,
        r == InventoryReply::FromIndex <==> decodes && has_index,
{
}

} // verus!
