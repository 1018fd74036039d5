//! Block archives: a stream of frames, each a big-endian length of four bytes
//! and that many bytes of one block, in rising block order. Reading one back,
//! replaying it onto a chain, and dumping one out of a block store.

use vstd::prelude::*;
use vstd::string::*;

use crate::bytes::{be_u32, be_value, copy_range};
use crate::config::ConfigError;

verus! {

/// The longest frame that is read.
pub const MAX_FRAME_LEN: usize = 67_108_864;

/// Blocks fetched from the store at once.
pub const DUMP_CHUNK: usize = 256;

/// A fault of the block file.
#[derive(Debug)]
pub enum FileFault {
    /// The file ends inside a frame's length.
    TruncatedLength,
    /// The file ends inside a frame's body.
    TruncatedBody,
    /// The file could not be read or written, for this reason.
    Other(String),
}

impl FileFault {
    /// The fault in words.
    pub open spec fn text(&self) -> Seq<char> {
        match *self {
            FileFault::TruncatedLength => "truncated frame length"@,
            FileFault::TruncatedBody => "failed to fill whole buffer"@,
            FileFault::Other(s) => s@,
        }
    }
}

/// Why a run failed before or around the blocks.
#[derive(Debug)]
pub enum ReplayError {
    Storage(String),
    Config(ConfigError),
    Io(FileFault),
}

impl ReplayError {
    /// The failure in words.
    pub open spec fn text(&self) -> Seq<char> {
        match *self {
            ReplayError::Storage(e) => "open storage: "@ + e@,
            ReplayError::Config(e) => "vm config: "@ + e.text(),
            ReplayError::Io(e) => "block file: "@ + e.text(),
        }
    }

    /// The failure in words.
    pub fn message(&self) -> (r: String)
        ensures
            r@ == self.text(),
    {
        match self {
            ReplayError::Storage(e) => {
                let mut s = "open storage: ".to_owned();
                s.append(e.as_str());
                s
            },
            ReplayError::Config(e) => {
                let mut s = "vm config: ".to_owned();
                s.append(e.message().as_str());
                s
            },
            ReplayError::Io(e) => {
                let mut s = "block file: ".to_owned();
                match e {
                    FileFault::TruncatedLength => s.append("truncated frame length"),
                    FileFault::TruncatedBody => s.append("failed to fill whole buffer"),
                    FileFault::Other(t) => s.append(t.as_str()),
                }
                s
            },
        }
    }
}

// ---------------------------------------------------------------------------
// Frames
// ---------------------------------------------------------------------------

/// A number as four bytes, the most significant first; what does not fit is
/// cut off.
pub open spec fn be4(n: nat) -> Seq<u8> {
    seq![
        (n / 16_777_216 % 256) as u8,
        (n / 65_536 % 256) as u8,
        (n / 256 % 256) as u8,
        (n % 256) as u8,
    ]
}

proof fn lemma_be4(n: nat)
    requires
        n < 4_294_967_296,
    ensures
        be_value(be4(n)) == n,
{
    let s = be4(n);
    assert(s.drop_last() =~= seq![s[0], s[1], s[2]]);
    assert(s.drop_last().drop_last() =~= seq![s[0], s[1]]);
    assert(s.drop_last().drop_last().drop_last() =~= seq![s[0]]);
    assert(s.drop_last().drop_last().drop_last().drop_last() =~= Seq::<u8>::empty());
    reveal_with_fuel(be_value, 6);
}

/// The frame of a block.
pub open spec fn frame(body: Seq<u8>) -> Seq<u8> {
    be4(body.len()) + body
}

/// The frames of blocks, one after the other.
pub open spec fn archive(bodies: Seq<Seq<u8>>) -> Seq<u8>
    decreases bodies.len(),
{
    if bodies.len() == 0 {
        Seq::empty()
    } else {
        archive(bodies.drop_last()) + frame(bodies.last())
    }
}

/// What the four bytes in front of a frame say.
#[derive(Debug, Clone, Copy, PartialEq, Eq, Structural)]
pub enum FrameLen {
    /// The stream ends here: no byte is left, or the length is zero.
    End,
    /// The stream ends inside the length.
    Truncated,
    /// No frame is that long: the stream is not to be trusted.
    Bad,
    /// A frame of this many bytes follows.
    Body(usize),
}

/// What the bytes in front of a frame say.
pub open spec fn frame_len(data: Seq<u8>) -> FrameLen {
    if data.len() == 0 {
        FrameLen::End
    } else if data.len() < 4 {
        FrameLen::Truncated
    } else {
        let n = be_value(data.take(4));
        if n == 0 {
            FrameLen::End
        } else if n > 67_108_864 {
            FrameLen::Bad
        } else {
            FrameLen::Body(n as usize)
        }
    }
}

/// Reads the length in front of a frame. `data` is what is left of the stream,
/// of which the first four bytes are enough.
pub fn read_frame_len(data: &[u8]) -> (r: FrameLen)
    ensures
        r == frame_len(data@),
        r is Body ==> 0 < r->Body_0 <= 67_108_864,
{
    if data.len() == 0 {
        return FrameLen::End;
    }
    if data.len() < 4 {
        return FrameLen::Truncated;
    }
    assert(data@.subrange(0, 4) =~= data@.take(4));
    let n: u32 = be_u32(data, 0);
    if n == 0 {
        FrameLen::End
    } else if n > 67_108_864 {
        FrameLen::Bad
    } else {
        FrameLen::Body(n as usize)
    }
}

/// The frames of a stream.
pub enum Frames {
    /// Those up to the end, or up to a length that is not to be trusted.
    Read(Seq<Seq<u8>>),
    /// The stream breaks off inside a length.
    CutLength,
    /// The stream breaks off inside a body.
    CutBody,
}

/// Puts frames in front.
pub open spec fn preceded(head: Seq<Seq<u8>>, rest: Frames) -> Frames {
    match rest {
        Frames::Read(b) => Frames::Read(head + b),
        _ => rest,
    }
}

/// The first `count` frames of a stream.
pub open spec fn corpus(data: Seq<u8>, count: nat) -> Frames
    decreases count,
{
    if count == 0 {
        Frames::Read(Seq::empty())
    } else {
        match frame_len(data) {
            FrameLen::End | FrameLen::Bad => Frames::Read(Seq::empty()),
            FrameLen::Truncated => Frames::CutLength,
            FrameLen::Body(n) => if 4 + n > data.len() {
                Frames::CutBody
            } else {
                preceded(
                    seq![data.subrange(4, 4 + n)],
                    corpus(data.skip(4 + n), (count - 1) as nat),
                )
            },
        }
    }
}

/// The bodies of a vector of frames.
pub open spec fn bodies(v: Seq<Vec<u8>>) -> Seq<Seq<u8>> {
    Seq::new(v.len(), |i: int| v[i]@)
}

/// Splits a stream into its first `count` frames.
pub fn split_corpus(data: &[u8], count: u64) -> (r: Result<Vec<Vec<u8>>, ReplayError>)
    ensures
        match (corpus(data@, count as nat), r) {
            (Frames::Read(b), Ok(v)) => bodies(v@) == b,
            (Frames::CutLength, Err(ReplayError::Io(FileFault::TruncatedLength))) => true,
            (Frames::CutBody, Err(ReplayError::Io(FileFault::TruncatedBody))) => true,
            _ => false,
        },
{
    let mut out: Vec<Vec<u8>> = Vec::new();
    let total: usize = data.len();
    let mut at: usize = 0;
    let mut left: u64 = count;
    proof {
        assert(data@.skip(0) =~= data@);
        assert(bodies(out@) =~= Seq::<Seq<u8>>::empty());
        lemma_preceded_by_none(corpus(data@, count as nat));
    }
    while left > 0
        invariant
            at <= total,
            total == data@.len(),
            corpus(data@, count as nat) == preceded(
                bodies(out@),
                corpus(data@.skip(at as int), left as nat),
            ),
        decreases left,
    {
        let ghost rest = data@.skip(at as int);
        let avail: usize = if total - at < 4 { total - at } else { 4 };
        let lead = copy_range(data, at, at + avail);
        proof {
            if rest.len() >= 4 {
                assert(lead@.take(4) =~= rest.take(4));
            }
        }
        match read_frame_len(lead.as_slice()) {
            FrameLen::End | FrameLen::Bad => {
                assert(bodies(out@) + Seq::<Seq<u8>>::empty() =~= bodies(out@));
                return Ok(out);
            },
            FrameLen::Truncated => return Err(ReplayError::Io(FileFault::TruncatedLength)),
            FrameLen::Body(n) => {
                if n > total - at - 4 {
                    return Err(ReplayError::Io(FileFault::TruncatedBody));
                }
                let raw = copy_range(data, at + 4, at + 4 + n);
                proof {
                    assert(raw@ =~= rest.subrange(4, 4 + n));
                    assert(rest.skip(4 + n) =~= data@.skip(at + 4 + n));
                    assert(bodies(out@.push(raw)) =~= bodies(out@) + seq![raw@]);
                    lemma_preceded_twice(
                        bodies(out@),
                        seq![raw@],
                        corpus(rest.skip(4 + n), (left - 1) as nat),
                    );
                }
                out.push(raw);
                at = at + 4 + n;
                left = left - 1;
            },
        }
    }
    assert(bodies(out@) + Seq::<Seq<u8>>::empty() =~= bodies(out@));
    Ok(out)
}

proof fn lemma_preceded_by_none(f: Frames)
    ensures
        preceded(Seq::empty(), f) == f,
{
    if let Frames::Read(b) = f {
        assert(Seq::<Seq<u8>>::empty() + b =~= b);
    }
}

proof fn lemma_preceded_twice(a: Seq<Seq<u8>>, b: Seq<Seq<u8>>, f: Frames)
    ensures
        preceded(a, preceded(b, f)) == preceded(a + b, f),
{
    if let Frames::Read(c) = f {
        assert(a + (b + c) =~= (a + b) + c);
    }
}

proof fn lemma_archive_front(b: Seq<Seq<u8>>)
    requires
        b.len() > 0,
    ensures
        archive(b) == frame(b[0]) + archive(b.skip(1)),
    decreases b.len(),
{
    if b.len() == 1 {
        assert(b.drop_last() =~= Seq::<Seq<u8>>::empty());
        assert(b.skip(1) =~= Seq::<Seq<u8>>::empty());
        assert(archive(b.drop_last()) =~= Seq::<u8>::empty());
        assert(b.last() == b[0]);
        assert(archive(b) =~= Seq::<u8>::empty() + frame(b[0]));
        assert(archive(b) =~= frame(b[0]));
        assert(archive(b) =~= frame(b[0]) + archive(b.skip(1)));
    } else {
        lemma_archive_front(b.drop_last());
        assert(b.drop_last().skip(1) =~= b.skip(1).drop_last());
        assert(b.skip(1).last() == b.last());
        assert(archive(b) =~= frame(b[0]) + archive(b.skip(1)));
    }
}

/// An archive reads back: the frames of any blocks, none of them empty or over
/// the limit, split into those blocks in their order, as many as are asked for.
pub proof fn archives_read_back(b: Seq<Seq<u8>>, count: nat)
    requires
        forall|i: int| 0 <= i < b.len() ==> 0 < (#[trigger] b[i]).len() <= 67_108_864,
    ensures
        corpus(archive(b), count) == Frames::Read(
            if count < b.len() {
                b.take(count as int)
            } else {
                b
            },
        ),
    decreases b.len(),
{
    if count == 0 {
        assert(if 0 < b.len() {
            b.take(0)
        } else {
            b
        } =~= Seq::<Seq<u8>>::empty());
    } else if b.len() == 0 {
        assert(b =~= Seq::<Seq<u8>>::empty());
    } else {
        lemma_archive_front(b);
        let data = archive(b);
        let n: int = b[0].len() as int;
        lemma_be4(n as nat);
        assert(data.take(4) =~= be4(n as nat));
        assert(data.subrange(4, 4 + n) =~= b[0]);
        assert(data.skip(4 + n) =~= archive(b.skip(1)));
        let rest = b.skip(1);
        assert forall|i: int| 0 <= i < rest.len() implies 0 < (#[trigger] rest[i]).len()
            <= 67_108_864 by {
            assert(rest[i] == b[i + 1]);
        }
        archives_read_back(rest, (count - 1) as nat);
        if count < b.len() {
            assert(seq![b[0]] + rest.take(count - 1) =~= b.take(count as int));
        } else {
            assert(seq![b[0]] + rest =~= b);
        }
    }
}

// ---------------------------------------------------------------------------
// Replaying
// ---------------------------------------------------------------------------

/// Result of a replay.
#[derive(Debug, Clone, Copy, PartialEq, Eq, Structural)]
pub struct ReplayReport {
    /// Blocks applied.
    pub applied: u64,
    /// Blocks at or below the head of the time.
    pub skipped: u64,
    /// The head in the end.
    pub head: i64,
}

/// What to do with the next block.
#[derive(Debug, Clone, Copy, PartialEq, Eq, Structural)]
pub enum Offer {
    Skip,
    Apply,
    Stop,
}

/// A replay up to the block `to`.
#[derive(Debug, Clone, Copy, PartialEq, Eq, Structural)]
pub struct Replay {
    pub to: i64,
    pub report: ReplayReport,
}

/// The number that a block is replayed under: that of its header, -1 without
/// one.
pub open spec fn numbered(number: Option<i64>) -> i64 {
    match number {
        Some(n) => n,
        None => -1i64,
    }
}

/// The number that a block is replayed under.
pub fn block_number(number: Option<i64>) -> (r: i64)
    ensures
        r == numbered(number),
{
    match number {
        Some(n) => n,
        None => -1,
    }
}

/// What a replay does with a block.
pub open spec fn offered(head: i64, to: i64, n: i64) -> Offer {
    if n <= head {
        Offer::Skip
    } else if n > to {
        Offer::Stop
    } else {
        Offer::Apply
    }
}

/// A replay after a block was handed to the chain, which now counts `total`
/// applied blocks.
pub open spec fn settled(s: Replay, n: i64, total: u64) -> Replay {
    if total == s.report.applied {
        s
    } else {
        Replay {
            to: s.to,
            report: ReplayReport { applied: total, skipped: s.report.skipped, head: n },
        }
    }
}

impl Replay {
    /// A replay onto a chain whose head is `head`.
    pub fn new(head: i64, to: i64) -> (r: Replay)
        ensures
            r == (Replay { to, report: ReplayReport { applied: 0, skipped: 0, head } }),
    {
        Replay { to, report: ReplayReport { applied: 0, skipped: 0, head } }
    }

    /// Decides on the next block: one at or below the head is skipped, one
    /// beyond the ceiling ends the run.
    pub fn offer(&mut self, n: i64) -> (r: Offer)
        requires
            old(self).report.skipped < u64::MAX,
        ensures
            r == offered(old(self).report.head, old(self).to, n),
            *final(self) == (Replay {
                to: old(self).to,
                report: ReplayReport {
                    applied: old(self).report.applied,
                    skipped: (old(self).report.skipped + if r == Offer::Skip {
                        1int
                    } else {
                        0
                    }) as u64,
                    head: old(self).report.head,
                },
            }),
    {
        if n <= self.report.head {
            self.report.skipped = self.report.skipped + 1;
            Offer::Skip
        } else if n > self.to {
            Offer::Stop
        } else {
            Offer::Apply
        }
    }

    /// Takes in how many blocks the chain counts after it was handed block
    /// `n`. Returns whether to go on: not when the block was not applied, and
    /// not when it was the last one asked for.
    pub fn settle(&mut self, n: i64, total: u64) -> (r: bool)
        ensures
            r == (total != old(self).report.applied && n < old(self).to),
            *final(self) == settled(*old(self), n, total),
    {
        if total == self.report.applied {
            return false;
        }
        self.report.applied = total;
        self.report.head = n;
        n < self.to
    }
}

/// A replay only moves forward, and never beyond its ceiling.
pub proof fn replays_move_forward(s: Replay, n: i64, total: u64)
    requires
        offered(s.report.head, s.to, n) == Offer::Apply,
    ensures
        settled(s, n, total).report.head >= s.report.head,
        total != s.report.applied ==> s.report.head < settled(s, n, total).report.head <= s.to,
        settled(s, n, total).to == s.to,
{
}

// ---------------------------------------------------------------------------
// Dumping
// ---------------------------------------------------------------------------

/// Result of a dump.
#[derive(Debug, Clone, Copy, PartialEq, Eq, Structural)]
pub struct DumpReport {
    pub written: u64,
    /// Lowest block written, -1 if none.
    pub first: i64,
    /// Highest block written, -1 if none.
    pub last: i64,
}

/// A block as the store holds it.
#[derive(Debug, Clone)]
pub struct StoredBlock {
    /// The number of its header; None without one.
    pub number: Option<i64>,
    pub bytes: Vec<u8>,
}

/// A dump of the blocks up to `to`.
#[derive(Debug, Clone, Copy, PartialEq, Eq, Structural)]
pub struct Dump {
    pub next: i64,
    pub to: i64,
    pub report: DumpReport,
}

/// A dump after some blocks of a chunk: the state, the bodies written, whether
/// the ceiling was passed.
pub struct DumpState {
    pub dump: Dump,
    pub written: Seq<Seq<u8>>,
    pub passed: bool,
}

/// A dump that wrote one block.
pub open spec fn dumped_one(d: Dump, n: i64) -> Dump {
    Dump {
        next: (n + 1) as i64,
        to: d.to,
        report: DumpReport {
            written: (d.report.written + 1) as u64,
            first: if d.report.first < 0 {
                n
            } else {
                d.report.first
            },
            last: n,
        },
    }
}

/// The first `i` blocks of a chunk: those below the next number are left out,
/// and nothing is written from the first one beyond the ceiling on.
pub open spec fn dumped(d: Dump, blocks: Seq<StoredBlock>, i: nat) -> DumpState
    decreases i,
{
    if i == 0 {
        DumpState { dump: d, written: Seq::empty(), passed: false }
    } else {
        let s = dumped(d, blocks, (i - 1) as nat);
        let n = numbered(blocks[i - 1].number);
        if s.passed || n < s.dump.next {
            s
        } else if n > s.dump.to {
            DumpState { dump: s.dump, written: s.written, passed: true }
        } else {
            DumpState {
                dump: dumped_one(s.dump, n),
                written: s.written.push(blocks[i - 1].bytes@),
                passed: false,
            }
        }
    }
}

/// Whether the number after a block's can be computed, where it is within the
/// ceiling.
pub open spec fn numbers_fit(to: i64, b: StoredBlock) -> bool {
    numbered(b.number) <= to ==> numbered(b.number) < i64::MAX
}

/// Once the ceiling is passed nothing changes.
proof fn lemma_dump_stays(d: Dump, blocks: Seq<StoredBlock>, i: nat, j: nat)
    requires
        i <= j,
        dumped(d, blocks, i).passed,
    ensures
        dumped(d, blocks, j) == dumped(d, blocks, i),
    decreases j,
{
    if i < j {
        lemma_dump_stays(d, blocks, i, (j - 1) as nat);
    }
}

/// Appends the frame of one block.
pub fn append_frame(out: &mut Vec<u8>, body: &Vec<u8>)
    ensures
        final(out)@ == old(out)@ + frame(body@),
{
    let n: u64 = body.len() as u64;
    out.push((n / 16_777_216 % 256) as u8);
    out.push((n / 65_536 % 256) as u8);
    out.push((n / 256 % 256) as u8);
    out.push((n % 256) as u8);
    assert(out@ =~= old(out)@ + be4(body@.len()));
    let mut i: usize = 0;
    while i < body.len()
        invariant
            i <= body@.len(),
            out@ == old(out)@ + be4(body@.len()) + body@.take(i as int),
        decreases body@.len() - i,
    {
        out.push(body[i]);
        assert(body@.take(i + 1) =~= body@.take(i as int).push(body@[i as int]));
        i = i + 1;
    }
    assert(body@.take(i as int) =~= body@);
    assert(out@ =~= old(out)@ + frame(body@));
}

impl Dump {
    /// A dump of the blocks `from..=to`.
    pub fn new(from: i64, to: i64) -> (r: Dump)
        ensures
            r == (Dump {
                next: from,
                to,
                report: DumpReport { written: 0, first: -1i64, last: -1i64 },
            }),
    {
        Dump { next: from, to, report: DumpReport { written: 0, first: -1, last: -1 } }
    }

    /// How many blocks to fetch next, None when the dump is done.
    pub fn wanted(&self) -> (r: Option<usize>)
        requires
            self.to - self.next < i64::MAX,
        ensures
            r == (if self.next > self.to {
                None
            } else if self.to - self.next + 1 < 256 {
                Some((self.to - self.next + 1) as usize)
            } else {
                Some(256usize)
            }),
    {
        if self.next > self.to {
            return None;
        }
        let left: i64 = self.to - self.next + 1;
        if left < 256 {
            Some(left as usize)
        } else {
            Some(DUMP_CHUNK)
        }
    }

    /// Appends the frames of a chunk that the store returned from the next
    /// number on. Returns whether to fetch on: not after an empty chunk, not
    /// after a chunk that brought nothing new, and not beyond the ceiling.
    pub fn write_chunk(&mut self, blocks: &Vec<StoredBlock>, out: &mut Vec<u8>) -> (r: bool)
        requires
            forall|i: int|
                0 <= i < blocks@.len() ==> numbers_fit(old(self).to, #[trigger] blocks@[i]),
            old(self).report.written + blocks@.len() <= u64::MAX,
        ensures
            ({
                let s = dumped(*old(self), blocks@, blocks@.len());
                &&& *final(self) == s.dump
                &&& final(out)@ == old(out)@ + archive(s.written)
                &&& r == (!s.passed && s.written.len() > 0)
            }),
    {
        let ghost start = *self;
        let ghost before = out@;
        let mut advanced = false;
        let mut i: usize = 0;
        assert(out@ =~= before + archive(Seq::empty()));
        while i < blocks.len()
            invariant
                i <= blocks@.len(),
                start == *old(self),
                before == old(out)@,
                forall|k: int|
                    0 <= k < blocks@.len() ==> numbers_fit(start.to, #[trigger] blocks@[k]),
                start.report.written + blocks@.len() <= u64::MAX,
                self.report.written <= start.report.written + i,
                self.to == start.to,
                !dumped(start, blocks@, i as nat).passed,
                *self == dumped(start, blocks@, i as nat).dump,
                out@ == before + archive(dumped(start, blocks@, i as nat).written),
                advanced == (dumped(start, blocks@, i as nat).written.len() > 0),
            decreases blocks@.len() - i,
        {
            let ghost s = dumped(start, blocks@, i as nat);
            assert(numbers_fit(start.to, blocks@[i as int]));
            let n: i64 = block_number(blocks[i].number);
            if n >= self.next {
                if n > self.to {
                    proof {
                        lemma_dump_stays(start, blocks@, (i + 1) as nat, blocks@.len());
                    }
                    return false;
                }
                append_frame(out, &blocks[i].bytes);
                proof {
                    let w = s.written.push(blocks@[i as int].bytes@);
                    assert(w.drop_last() =~= s.written);
                    assert(out@ =~= before + archive(w));
                }
                self.report.written = self.report.written + 1;
                if self.report.first < 0 {
                    self.report.first = n;
                }
                self.report.last = n;
                self.next = n + 1;
                advanced = true;
            }
            i = i + 1;
        }
        advanced
    }
}

/// Whether a dump's bookkeeping is in order.
pub open spec fn dump_in_order(d: Dump) -> bool {
    &&& d.report.written == 0 ==> d.report.first == -1 && d.report.last == -1
    &&& d.report.written > 0 ==> d.report.last < d.next && d.report.last <= d.to
}

/// A dump writes each height at most once, in rising order and within its
/// bounds: a chunk never takes the next height back, what was written lies
/// below it, and the archive grows by one frame per block counted.
pub proof fn dumps_rise(d: Dump, blocks: Seq<StoredBlock>, i: nat)
    requires
        dump_in_order(d),
        i <= blocks.len(),
        forall|k: int| 0 <= k < blocks.len() ==> numbers_fit(d.to, #[trigger] blocks[k]),
        d.report.written + blocks.len() <= u64::MAX,
    ensures
        ({
            let s = dumped(d, blocks, i);
            &&& dump_in_order(s.dump)
            &&& s.dump.to == d.to
            &&& s.dump.next >= d.next
            &&& s.dump.report.written == d.report.written + s.written.len()
            &&& s.written.len() <= i
            &&& s.written.len() > 0 ==> d.next <= s.dump.report.last && s.dump.next
                == s.dump.report.last + 1
        }),
    decreases i,
{
    if i > 0 {
        dumps_rise(d, blocks, (i - 1) as nat);
        assert(numbers_fit(d.to, blocks[i - 1]));
    }
}

/// A replay passes over what the chain has, applies what comes after the head
/// up to the ceiling, and stops beyond it.
pub proof fn offers_go_three_ways(head: i64, to: i64, n: i64)
    ensures
        n <= head <==> offered(head, to, n) == Offer::Skip,
        head < n <= to <==> offered(head, to, n) == Offer::Apply,
        n > head && n > to <==> offered(head, to, n) == Offer::Stop,
{
}

/// A block that the chain took moves the head to it and its count into the
/// report; one that it did not take changes nothing. Skips and the ceiling
/// stay.
pub proof fn settling_follows_the_chain(s: Replay, n: i64, total: u64)
    ensures
        total == s.report.applied ==> settled(s, n, total) == s,
        total != s.report.applied ==> settled(s, n, total).report.head == n && settled(
            s,
            n,
            total,
        ).report.applied == total,
        settled(s, n, total).report.skipped == s.report.skipped,
        settled(s, n, total).to == s.to,
        numbered(None) == -1,
        numbered(Some(n)) == n,
{
}

/// A frame is its length in four bytes, the most significant first, and the
/// body as it is.
pub proof fn frames_hold_the_body(body: Seq<u8>)
    requires
        body.len() < 4_294_967_296,
    ensures
        frame(body).len() == body.len() + 4,
        frame(body).skip(4) == body,
        frame(body)[0] * 16_777_216 + frame(body)[1] * 65_536 + frame(body)[2] * 256 + frame(body)[3]
            == body.len(),
{
    assert(frame(body).skip(4) =~= body);
}

/// The lengths that end a stream, are refused, or announce a body: none at all
/// or zero, fewer than four bytes, over sixty-four mebibytes, and all others.
pub proof fn lengths_are_told_apart(a: u8, b: u8, c: u8, d: u8, rest: Seq<u8>)
    ensures
        ({
            let n = a * 16_777_216 + b * 65_536 + c * 256 + d;
            let data = seq![a, b, c, d] + rest;
            &&& n == 0 ==> frame_len(data) == FrameLen::End
            &&& n > 64 * 1024 * 1024 ==> frame_len(data) == FrameLen::Bad
            &&& 0 < n <= 64 * 1024 * 1024 ==> frame_len(data) == FrameLen::Body(n as usize)
        }),
        frame_len(Seq::empty()) == FrameLen::End,
        frame_len(seq![a]) == FrameLen::Truncated,
        frame_len(seq![a, b]) == FrameLen::Truncated,
        frame_len(seq![a, b, c]) == FrameLen::Truncated,
{
    let data = seq![a, b, c, d] + rest;
    let s = seq![a, b, c, d];
    assert(data.take(4) =~= s);
    assert(s.drop_last() =~= seq![a, b, c]);
    assert(s.drop_last().drop_last() =~= seq![a, b]);
    assert(s.drop_last().drop_last().drop_last() =~= seq![a]);
    assert(s.drop_last().drop_last().drop_last().drop_last() =~= Seq::<u8>::empty());
    reveal_with_fuel(be_value, 6);
}

/// One block of a chunk: a number that was passed already is left out, one
/// within the ceiling is written whole and counted, and one beyond the ceiling
/// ends the writing.
pub proof fn chunks_are_written_block_by_block(d: Dump, blocks: Seq<StoredBlock>, i: nat)
    requires
        i < blocks.len(),
        !dumped(d, blocks, i).passed,
        numbers_fit(dumped(d, blocks, i).dump.to, blocks[i as int]),
        dumped(d, blocks, i).dump.report.written < u64::MAX,
    ensures
        ({
            let s = dumped(d, blocks, i);
            let t = dumped(d, blocks, (i + 1) as nat);
            let n = match blocks[i as int].number {
                Some(k) => k,
                None => -1i64,
            };
            &&& n < s.dump.next ==> t == s
            &&& n >= s.dump.next && n > s.dump.to ==> t.passed && t.written == s.written && t.dump
                == s.dump
            &&& s.dump.next <= n <= s.dump.to ==> {
                &&& !t.passed
                &&& t.written == s.written.push(blocks[i as int].bytes@)
                &&& t.dump.next == n + 1
                &&& t.dump.to == s.dump.to
                &&& t.dump.report.written == s.dump.report.written + 1
                &&& t.dump.report.last == n
                &&& s.dump.report.first >= 0 ==> t.dump.report.first == s.dump.report.first
                &&& s.dump.report.first < 0 ==> t.dump.report.first == n
            }
        }),
        dumped(d, blocks, 0).dump == d,
        dumped(d, blocks, 0).written.len() == 0,
        !dumped(d, blocks, 0).passed,
{
}

/// An offer counts a block only where it is skipped, and a block that the chain
/// took is the last one only at the ceiling.
pub proof fn offers_are_counted(s: &mut Replay, n: i64, r: Offer)
    requires
        old(s).report.skipped < u64::MAX,
        call_ensures(Replay::offer, (s, n), r),
    ensures
        r == Offer::Skip ==> final(s).report.skipped == old(s).report.skipped + 1,
        r != Offer::Skip ==> *final(s) == *old(s),
        final(s).report.applied == old(s).report.applied,
        final(s).report.head == old(s).report.head,
        final(s).to == old(s).to,
        r == Offer::Skip <==> n <= old(s).report.head,
{
}

/// A replay goes on after a block that the chain took below the ceiling.
pub proof fn replays_end_at_the_ceiling(s: &mut Replay, n: i64, total: u64, r: bool)
    requires
        call_ensures(Replay::settle, (s, n, total), r),
    ensures
        total == old(s).report.applied ==> !r,
        n >= old(s).to ==> !r,
        total != old(s).report.applied && n < old(s).to ==> r,
        total != old(s).report.applied ==> final(s).report.head == n,
{
}

/// A dump asks for what is left, a chunk at a time, and for nothing once it is
/// through.
pub proof fn dumps_ask_for_what_is_left(d: Dump, r: Option<usize>)
    requires
        d.to - d.next < i64::MAX,
        call_ensures(Dump::wanted, (&d,), r),
    ensures
        r is None <==> d.next > d.to,
        r is Some ==> 1 <= r->Some_0 <= 256 && r->Some_0 <= d.to - d.next + 1,
        r is Some && d.to - d.next + 1 <= 256 ==> r->Some_0 == d.to - d.next + 1,
        r is Some && d.to - d.next + 1 > 256 ==> r->Some_0 == 256,
{
}

} // verus!
