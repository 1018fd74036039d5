//! Operator commands on a stopped node's data: pruning history, moving and
//! copying a database, and cutting a lite copy.

use std::collections::HashSet;

use vstd::prelude::*;
use vstd::string::*;

use crate::chain::{BlockId, BlockIndex};
use crate::text::{append_int, append_nat, decimal, int_decimal};

verus! {

broadcast use vstd::std_specs::hash::group_hash_axioms;

/// Why an administration command fails.
#[derive(Debug, Clone, PartialEq, Eq)]
pub enum AdminError {
    Invalid(String),
    Io(String),
    Store(String),
}

impl AdminError {
    /// The failure in words.
    pub open spec fn text(&self) -> Seq<char> {
        match *self {
            AdminError::Invalid(s) => "invalid: "@ + s@,
            AdminError::Io(s) => "io: "@ + s@,
            AdminError::Store(s) => "store: "@ + s@,
        }
    }

    /// The failure in words.
    pub fn message(&self) -> (r: String)
        ensures
            r@ == self.text(),
    {
        match self {
            AdminError::Invalid(s) => prefixed("invalid: ", s.as_str()),
            AdminError::Io(s) => prefixed("io: ", s.as_str()),
            AdminError::Store(s) => prefixed("store: ", s.as_str()),
        }
    }
}

fn prefixed(a: &str, b: &str) -> (r: String)
    ensures
        r@ == a@ + b@,
{
    let mut s = a.to_owned();
    s.append(b);
    s
}

fn joined(a: &str, b: &str, c: &str) -> (r: String)
    ensures
        r@ == a@ + b@ + c@,
{
    let mut s = prefixed(a, b);
    s.append(c);
    s
}

// ---------------------------------------------------------------------------
// Pruning
// ---------------------------------------------------------------------------

/// The ids of the blocks whose bodies are held.
pub struct BlockBodies {
    ids: Vec<BlockId>,
}

impl View for BlockBodies {
    type V = Set<BlockId>;

    closed spec fn view(&self) -> Set<BlockId> {
        self.ids@.to_set()
    }
}

impl BlockBodies {
    /// No id stands twice.
    pub closed spec fn wf(&self) -> bool {
        self.ids@.no_duplicates()
    }

    /// How many bodies are held.
    pub closed spec fn size(&self) -> nat {
        self.ids@.len()
    }

    /// No body.
    pub fn new() -> (r: BlockBodies)
        ensures
            r.wf(),
            r@ == Set::<BlockId>::empty(),
    {
        let r = BlockBodies { ids: Vec::new() };
        assert(r@ =~= Set::<BlockId>::empty());
        r
    }

    fn find(&self, id: &BlockId) -> (r: Option<usize>)
        ensures
            match r {
                Some(i) => i < self.ids@.len() && self.ids@[i as int] == *id && self@.contains(*id),
                None => !self@.contains(*id),
            },
    {
        let mut i: usize = 0;
        while i < self.ids.len()
            invariant
                i <= self.ids@.len(),
                forall|j: int| 0 <= j < i ==> self.ids@[j] != *id,
            decreases self.ids@.len() - i,
        {
            if self.ids[i].same(id) {
                return Some(i);
            }
            i = i + 1;
        }
        None
    }

    /// Whether the body of `id` is held.
    pub fn contains(&self, id: &BlockId) -> (r: bool)
        ensures
            r == self@.contains(*id),
    {
        self.find(id).is_some()
    }

    /// Holds the body of `id`.
    pub fn put(&mut self, id: &BlockId)
        requires
            old(self).wf(),
        ensures
            final(self).wf(),
            final(self)@ == old(self)@.insert(*id),
    {
        let ghost before = self.ids@;
        if !self.contains(id) {
            self.ids.push(*id);
            proof {
                assert(self.ids@ =~= before.push(*id));
                assert forall|x: BlockId| #[trigger] self@.contains(x) == before.to_set().insert(
                    *id,
                ).contains(x) by {
                    if before.contains(x) {
                        let j = choose|j: int| 0 <= j < before.len() && before[j] == x;
                        assert(self.ids@[j] == x);
                    }
                    if x == *id {
                        assert(self.ids@[before.len() as int] == x);
                    }
                }
            }
        }
        assert(self@ =~= before.to_set().insert(*id));
    }

    /// Drops the body of `id`.
    pub fn remove(&mut self, id: &BlockId)
        requires
            old(self).wf(),
        ensures
            final(self).wf(),
            final(self)@ == old(self)@.remove(*id),
            final(self).size() == old(self).size() - (if old(self)@.contains(*id) {
                1int
            } else {
                0
            }),
    {
        let ghost before = self.ids@;
        if let Some(i) = self.find(id) {
            self.ids.remove(i);
            proof {
                let after = self.ids@;
                assert(after =~= before.remove(i as int));
                assert forall|x: BlockId| #[trigger] after.to_set().contains(x)
                    == before.to_set().remove(*id).contains(x) by {
                    if after.contains(x) {
                        let j = choose|j: int| 0 <= j < after.len() && after[j] == x;
                        let k = if j < i { j } else { j + 1 };
                        assert(before[k] == x && k != i);
                        assert(before[i as int] == *id);
                    }
                    if before.contains(x) && x != *id {
                        let j = choose|j: int| 0 <= j < before.len() && before[j] == x;
                        let k = if j < i { j } else { j - 1 };
                        assert(after[k] == x);
                    }
                }
                assert(self@ =~= before.to_set().remove(*id));
                assert forall|a: int, b: int| 0 <= a < after.len() && 0 <= b < after.len() && a
                    != b implies after[a] != after[b] by {
                    let a2 = if a < i { a } else { a + 1 };
                    let b2 = if b < i { b } else { b + 1 };
                    assert(after[a] == before[a2] && after[b] == before[b2]);
                }
            }
        } else {
            assert(self@ =~= before.to_set().remove(*id));
        }
    }
}

/// The heights whose transaction receipts are held.
pub struct BlockReceipts {
    heights: HashSet<i64>,
}

impl View for BlockReceipts {
    type V = Set<i64>;

    closed spec fn view(&self) -> Set<i64> {
        self.heights@
    }
}

impl BlockReceipts {
    /// No receipts.
    pub fn new() -> (r: BlockReceipts)
        ensures
            r@ == Set::<i64>::empty(),
    {
        BlockReceipts { heights: HashSet::new() }
    }

    /// Whether the receipts of `height` are held.
    pub fn contains(&self, height: i64) -> (r: bool)
        ensures
            r == self@.contains(height),
    {
        self.heights.contains(&height)
    }

    /// Holds the receipts of `height`.
    pub fn put(&mut self, height: i64)
        ensures
            final(self)@ == old(self)@.insert(height),
    {
        self.heights.insert(height);
    }

    /// Drops the receipts of `height`.
    pub fn remove(&mut self, height: i64)
        ensures
            final(self)@ == old(self)@.remove(height),
    {
        self.heights.remove(&height);
    }
}

/// The block stores: the bodies, the height index, and the receipts.
pub struct BlockStores {
    pub bodies: BlockBodies,
    pub index: BlockIndex,
    pub receipts: BlockReceipts,
}

impl BlockStores {
    /// The bodies and the index are consistent.
    pub open spec fn wf(&self) -> bool {
        self.bodies.wf() && self.index.wf()
    }
}

/// The heights that pruning below `before` drops: those from one on that the
/// index knows and whose body is held.
pub open spec fn prunable(
    index: Map<i64, BlockId>,
    bodies: Set<BlockId>,
    before: int,
) -> Set<i64> {
    Set::new(
        |h: i64| 1 <= h < before && index.contains_key(h) && bodies.contains(index[h]),
    )
}

/// The heights from one on and below `before`.
pub open spec fn history(before: int) -> Set<i64> {
    Set::new(|h: i64| 1 <= h < before)
}

/// The ids at the given heights.
pub open spec fn ids_at(index: Map<i64, BlockId>, heights: Set<i64>) -> Set<BlockId> {
    Set::new(|id: BlockId| exists|h: i64| #[trigger] heights.contains(h) && index[h] == id)
}

/// Where pruning stops: below `before`, and never above the solidified head,
/// since what is above it may still be in a reorg.
pub open spec fn prune_bound(before: int, solidified: Option<i64>) -> int {
    match solidified {
        Some(s) => if s + 1 < before {
            s + 1
        } else {
            before
        },
        None => before,
    }
}

fn prune_below(stores: &mut BlockStores, bound: i64) -> (r: usize)
    requires
        old(stores).wf(),
        bound >= 1,
    ensures
        final(stores).wf(),
        ({
            let gone = prunable(old(stores).index@, old(stores).bodies@, bound as int);
            &&& gone.finite()
            &&& r == gone.len()
            &&& final(stores).index@ == old(stores).index@.remove_keys(gone)
            &&& final(stores).bodies@ == old(stores).bodies@.difference(
                ids_at(old(stores).index@, gone),
            )
            &&& final(stores).receipts@ == old(stores).receipts@.difference(history(bound as int))
        }),
{
    let ghost index0 = stores.index@;
    let ghost receipts0 = stores.receipts@;
    let ghost bodies0 = stores.bodies@;
    let mut pruned: usize = 0;
    let mut num: i64 = 1;
    proof {
        let none = prunable(index0, bodies0, 1);
        assert(none =~= Set::<i64>::empty());
        assert(index0.remove_keys(none) =~= index0);
        assert(bodies0.difference(ids_at(index0, none)) =~= bodies0);
        assert(receipts0.difference(history(1)) =~= receipts0);
    }
    let ghost size0 = stores.bodies.size();
    let total: usize = stores.bodies.ids.len();
    while num < bound
        invariant
            1 <= num <= bound,
            stores.wf(),
            old(stores).wf(),
            index0 == old(stores).index@,
            bodies0 == old(stores).bodies@,
            size0 == total,
            stores.bodies.size() == size0 - pruned,
            prunable(index0, bodies0, num as int).finite(),
            pruned == prunable(index0, bodies0, num as int).len(),
            stores.index@ == index0.remove_keys(prunable(index0, bodies0, num as int)),
            stores.bodies@ == bodies0.difference(
                ids_at(index0, prunable(index0, bodies0, num as int)),
            ),
            stores.receipts@ == receipts0.difference(history(num as int)),
        decreases bound - num,
    {
        let ghost gone = prunable(index0, bodies0, num as int);
        let ghost next = prunable(index0, bodies0, num + 1);
        let ghost index1 = stores.index@;
        assert(!gone.contains(num));
        match stores.index.get(num) {
            None => {
                assert(next =~= gone);
            },
            Some(id) => {
                proof {
                    assert(index0.contains_key(num) && id == index0[num]);
                    if ids_at(index0, gone).contains(id) {
                        let h = choose|h: i64| #[trigger] gone.contains(h) && index0[h] == id;
                        assert(index0.contains_key(h));
                        assert(index0[h].spec_height() == h);
                        assert(index0[num].spec_height() == num);
                    }
                }
                if stores.bodies.contains(&id) {
                    stores.bodies.remove(&id);
                    stores.index.remove(num);
                    pruned = pruned + 1;
                    proof {
                        assert(next =~= gone.insert(num));
                        assert(stores.index@ =~= index0.remove_keys(next));
                        assert(ids_at(index0, next) =~= ids_at(index0, gone).insert(id)) by {
                            assert forall|x: BlockId| #[trigger] ids_at(index0, next).contains(x)
                                == ids_at(index0, gone).insert(id).contains(x) by {
                                if ids_at(index0, next).contains(x) {
                                    let h = choose|h: i64|
                                        #[trigger] next.contains(h) && index0[h] == x;
                                    if h != num {
                                        assert(gone.contains(h));
                                    }
                                }
                                if ids_at(index0, gone).contains(x) {
                                    let h = choose|h: i64|
                                        #[trigger] gone.contains(h) && index0[h] == x;
                                    assert(next.contains(h));
                                }
                                if x == id {
                                    assert(next.contains(num));
                                }
                            }
                        }
                        assert(stores.bodies@ =~= bodies0.difference(ids_at(index0, next)));
                    }
                } else {
                    assert(!bodies0.contains(id));
                    assert(next =~= gone);
                }
            },
        }
        stores.receipts.remove(num);
        assert(stores.receipts@ =~= receipts0.difference(history(num + 1)));
        num = num + 1;
    }
    pruned
}

/// Drops the bodies, the index entries and the receipts of the heights below
/// `before`, but for those above the solidified head, which is None where none is
/// recorded. Returns how many blocks went. The chain's current state is not
/// touched.
pub fn prune_before(stores: &mut BlockStores, before: i64, solidified: Option<i64>) -> (r: Result<
    usize,
    AdminError,
>)
    requires
        old(stores).wf(),
    ensures
        final(stores).wf(),
        ({
            let gone = prunable(
                old(stores).index@,
                old(stores).bodies@,
                prune_bound(before as int, solidified),
            );
            match r {
                Ok(n) => {
                    &&& before >= 1
                    &&& gone.finite()
                    &&& n == gone.len()
                    &&& final(stores).index@ == old(stores).index@.remove_keys(gone)
                    &&& final(stores).bodies@ == old(stores).bodies@.difference(
                        ids_at(old(stores).index@, gone),
                    )
                    &&& final(stores).receipts@ == old(stores).receipts@.difference(
                        history(prune_bound(before as int, solidified)),
                    )
                },
                Err(e) => {
                    &&& before < 1
                    &&& e matches AdminError::Invalid(s) && s@ == "prune-before BLOCK must be ≥ 1"@
                    &&& final(stores).index@ == old(stores).index@
                    &&& final(stores).bodies@ == old(stores).bodies@
                    &&& final(stores).receipts@ == old(stores).receipts@
                },
            }
        }),
{
    if before < 1 {
        return Err(AdminError::Invalid("prune-before BLOCK must be ≥ 1".to_owned()));
    }
    let mut bound: i64 = before;
    if let Some(s) = solidified {
        if s < before - 1 {
            bound = s + 1;
        }
    }
    if bound < 1 {
        proof {
            let none = prunable(stores.index@, stores.bodies@, bound as int);
            assert(none =~= Set::<i64>::empty());
            assert(stores.index@.remove_keys(none) =~= stores.index@);
            assert(stores.bodies@.difference(ids_at(stores.index@, none)) =~= stores.bodies@);
            assert(stores.receipts@.difference(history(bound as int)) =~= stores.receipts@);
        }
        return Ok(0);
    }
    Ok(prune_below(stores, bound))
}

/// Nothing above the solidified head is ever pruned, whatever threshold is
/// asked for.
pub proof fn reorg_window_is_never_pruned(
    index: Map<i64, BlockId>,
    bodies: Set<BlockId>,
    before: int,
    solidified: i64,
    h: i64,
)
    requires
        h > solidified,
    ensures
        !prunable(index, bodies, prune_bound(before, Some(solidified))).contains(h),
        !history(prune_bound(before, Some(solidified))).contains(h),
{
}

/// Pruning is idempotent, and it leaves every height from the threshold on as
/// it was: after one prune there is nothing left to prune, and a height at or
/// above the threshold still reads the same block.
pub proof fn pruning_is_idempotent_and_bounded(
    index: Map<i64, BlockId>,
    bodies: Set<BlockId>,
    before: int,
    h: i64,
)
    requires
        h >= before,
    ensures
        ({
            let gone = prunable(index, bodies, before);
            let index1 = index.remove_keys(gone);
            let bodies1 = bodies.difference(ids_at(index, gone));
            &&& prunable(index1, bodies1, before) == Set::<i64>::empty()
            &&& index1.contains_key(h) == index.contains_key(h)
            &&& index.contains_key(h) ==> index1[h] == index[h]
        }),
{
    let gone = prunable(index, bodies, before);
    let index1 = index.remove_keys(gone);
    let bodies1 = bodies.difference(ids_at(index, gone));
    assert(prunable(index1, bodies1, before) =~= Set::<i64>::empty()) by {
        assert forall|k: i64| !prunable(index1, bodies1, before).contains(k) by {
            if prunable(index1, bodies1, before).contains(k) {
                assert(index.contains_key(k) && bodies.contains(index[k]));
                assert(gone.contains(k));
            }
        }
    }
    assert(!gone.contains(h));
}

// ---------------------------------------------------------------------------
// Moving and copying
// ---------------------------------------------------------------------------

/// What is known of a path before it is touched.
#[derive(Debug, Clone)]
pub struct PathFacts {
    pub display: String,
    pub exists: bool,
    pub is_dir: bool,
}

/// What is wrong with a move, if anything.
pub open spec fn move_fault(src: PathFacts, dst: PathFacts) -> Option<Seq<char>> {
    if !src.exists {
        Some("source does not exist: "@ + src.display@)
    } else if dst.exists {
        Some("destination already exists: "@ + dst.display@ + " — refusing to overwrite"@)
    } else {
        None
    }
}

/// What is wrong with a copy, if anything.
pub open spec fn copy_fault(src: PathFacts, dst: PathFacts) -> Option<Seq<char>> {
    if !src.exists {
        Some("source does not exist: "@ + src.display@)
    } else if !src.is_dir {
        Some("source is not a directory: "@ + src.display@)
    } else if dst.exists {
        Some("destination already exists: "@ + dst.display@ + " — refusing to overwrite"@)
    } else {
        None
    }
}

/// Whether an error says that a request is invalid, in these words.
pub open spec fn says(e: AdminError, text: Seq<char>) -> bool {
    e matches AdminError::Invalid(s) && s@ == text
}

/// Checks a move before anything is renamed.
pub fn db_move(src: &PathFacts, dst: &PathFacts) -> (r: Result<(), AdminError>)
    ensures
        match (move_fault(*src, *dst), r) {
            (None, Ok(_)) => true,
            (Some(t), Err(e)) => says(e, t),
            _ => false,
        },
{
    if !src.exists {
        return Err(
            AdminError::Invalid(prefixed("source does not exist: ", src.display.as_str())),
        );
    }
    if dst.exists {
        return Err(
            AdminError::Invalid(
                joined(
                    "destination already exists: ",
                    dst.display.as_str(),
                    " — refusing to overwrite",
                ),
            ),
        );
    }
    Ok(())
}

/// One entry of a directory that is being copied, with what copying it wrote.
#[derive(Debug, Clone, Copy, PartialEq, Eq, Structural)]
pub enum CopiedEntry {
    /// A subdirectory and the bytes of its copy.
    Dir(u64),
    /// A file and its bytes.
    File(u64),
    /// A link or another unusual entry, which is skipped.
    Other,
}

/// The bytes that the first `n` entries wrote, held at the maximum.
pub open spec fn copied_bytes(entries: Seq<CopiedEntry>, n: nat) -> u64
    decreases n,
{
    if n == 0 {
        0
    } else {
        let before = copied_bytes(entries, (n - 1) as nat);
        let more = match entries[n - 1] {
            CopiedEntry::Dir(b) => b,
            CopiedEntry::File(b) => b,
            CopiedEntry::Other => 0,
        };
        if before + more > u64::MAX {
            u64::MAX
        } else {
            (before + more) as u64
        }
    }
}

/// The bytes that copying a directory wrote.
pub fn copy_total(entries: &Vec<CopiedEntry>) -> (r: u64)
    ensures
        r == copied_bytes(entries@, entries@.len()),
{
    let mut total: u64 = 0;
    let mut i: usize = 0;
    while i < entries.len()
        invariant
            i <= entries@.len(),
            total == copied_bytes(entries@, i as nat),
        decreases entries@.len() - i,
    {
        let more: u64 = match entries[i] {
            CopiedEntry::Dir(b) => b,
            CopiedEntry::File(b) => b,
            CopiedEntry::Other => 0,
        };
        total = total.saturating_add(more);
        i = i + 1;
    }
    total
}

/// Checks a copy before anything is written. What the copy wrote is the
/// [`copy_total`] of its entries.
pub fn db_copy(src: &PathFacts, dst: &PathFacts) -> (r: Result<(), AdminError>)
    ensures
        match (copy_fault(*src, *dst), r) {
            (None, Ok(_)) => true,
            (Some(t), Err(e)) => says(e, t),
            _ => false,
        },
{
    if !src.exists {
        return Err(
            AdminError::Invalid(prefixed("source does not exist: ", src.display.as_str())),
        );
    }
    if !src.is_dir {
        return Err(
            AdminError::Invalid(prefixed("source is not a directory: ", src.display.as_str())),
        );
    }
    if dst.exists {
        return Err(
            AdminError::Invalid(
                joined(
                    "destination already exists: ",
                    dst.display.as_str(),
                    " — refusing to overwrite",
                ),
            ),
        );
    }
    Ok(())
}

/// Checks that there is something to compact.
pub fn compact_check(db_root_exists: bool, data_dir: &str) -> (r: Result<(), AdminError>)
    ensures
        match r {
            Ok(_) => db_root_exists,
            Err(e) => !db_root_exists && (e matches AdminError::Io(s) && s@
                == "no db/ subdirectory under "@ + data_dir@ + "; nothing to compact"@),
        },
{
    if !db_root_exists {
        return Err(
            AdminError::Io(joined("no db/ subdirectory under ", data_dir, "; nothing to compact")),
        );
    }
    Ok(())
}

/// Checks that there is an account store to hash.
pub fn db_root_check(account_path: &PathFacts) -> (r: Result<(), AdminError>)
    ensures
        match r {
            Ok(_) => account_path.is_dir,
            Err(e) => !account_path.is_dir && says(
                e,
                "no account store at "@ + account_path.display@,
            ),
        },
{
    if !account_path.is_dir {
        return Err(
            AdminError::Invalid(prefixed("no account store at ", account_path.display.as_str())),
        );
    }
    Ok(())
}

/// The positions, among the first `n` rows, of those that are accounts: a key
/// of 21 bytes and a value that decodes.
pub open spec fn account_rows(rows: Seq<(Vec<u8>, bool)>, n: nat) -> Seq<int>
    decreases n,
{
    if n == 0 {
        Seq::empty()
    } else {
        let before = account_rows(rows, (n - 1) as nat);
        if rows[n - 1].0@.len() == 21 && rows[n - 1].1 {
            before.push(n - 1)
        } else {
            before
        }
    }
}

/// Selects the rows that go into the state root. Each row is its key and
/// whether its value decodes.
pub fn select_accounts(rows: &Vec<(Vec<u8>, bool)>) -> (r: Vec<usize>)
    ensures
        r@.map_values(|i: usize| i as int) == account_rows(rows@, rows@.len()),
{
    let mut out: Vec<usize> = Vec::new();
    let ghost plain = |i: usize| i as int;
    let mut i: usize = 0;
    assert(out@.map_values(plain) =~= Seq::<int>::empty());
    while i < rows.len()
        invariant
            i <= rows@.len(),
            plain == (|i: usize| i as int),
            out@.map_values(plain) == account_rows(rows@, i as nat),
        decreases rows@.len() - i,
    {
        let ghost before = out@.map_values(plain);
        if rows[i].0.len() == 21 && rows[i].1 {
            out.push(i);
            assert(out@.map_values(plain) =~= before.push(i as int));
        }
        i = i + 1;
    }
    out
}

// ---------------------------------------------------------------------------
// Lite copies
// ---------------------------------------------------------------------------

/// Outcome of a lite copy.
#[derive(Debug, Clone, Copy, PartialEq, Eq, Structural)]
pub struct DbLiteReport {
    /// Latest block of the source.
    pub latest_block: i64,
    /// First block kept.
    pub prune_below: i64,
    /// Bodies dropped.
    pub blocks_pruned: usize,
    /// Bytes written by the copy.
    pub bytes_copied: u64,
}

/// What is wrong with a lite copy, if anything.
pub open spec fn lite_fault(
    recent: int,
    src: PathFacts,
    src_db: PathFacts,
    dst: PathFacts,
) -> Option<Seq<char>> {
    if recent < 1 {
        Some("recent_blocks must be >= 1, got "@ + int_decimal(recent))
    } else if !src.is_dir {
        Some("src is not a directory: "@ + src.display@)
    } else if !src_db.is_dir {
        Some("src has no db/ subdirectory: "@ + src_db.display@)
    } else if dst.exists {
        Some("destination already exists: "@ + dst.display@ + " — refusing to overwrite"@)
    } else {
        None
    }
}

/// Checks a lite copy before anything is written.
pub fn db_lite_check(
    recent_blocks: i64,
    src: &PathFacts,
    src_db: &PathFacts,
    dst: &PathFacts,
) -> (r: Result<(), AdminError>)
    ensures
        match (lite_fault(recent_blocks as int, *src, *src_db, *dst), r) {
            (None, Ok(_)) => true,
            (Some(t), Err(e)) => says(e, t),
            _ => false,
        },
{
    if recent_blocks < 1 {
        let mut s = "recent_blocks must be >= 1, got ".to_owned();
        append_int(&mut s, recent_blocks);
        return Err(AdminError::Invalid(s));
    }
    if !src.is_dir {
        return Err(
            AdminError::Invalid(prefixed("src is not a directory: ", src.display.as_str())),
        );
    }
    if !src_db.is_dir {
        return Err(
            AdminError::Invalid(
                prefixed("src has no db/ subdirectory: ", src_db.display.as_str()),
            ),
        );
    }
    if dst.exists {
        return Err(
            AdminError::Invalid(
                joined(
                    "destination already exists: ",
                    dst.display.as_str(),
                    " — refusing to overwrite",
                ),
            ),
        );
    }
    Ok(())
}

/// Checks that a fresh copy holds the properties store, which names the head.
pub fn db_lite_copy_check(properties: &PathFacts) -> (r: Result<(), AdminError>)
    ensures
        match r {
            Ok(_) => properties.is_dir,
            Err(e) => !properties.is_dir && says(
                e,
                "copy is missing properties store at "@ + properties.display@,
            ),
        },
{
    if !properties.is_dir {
        return Err(
            AdminError::Invalid(
                prefixed("copy is missing properties store at ", properties.display.as_str()),
            ),
        );
    }
    Ok(())
}

/// The first height that a lite copy keeps.
pub open spec fn lite_threshold(latest: int, recent: int) -> int {
    if latest - recent + 1 > 1 {
        latest - recent + 1
    } else {
        1
    }
}

/// Cuts the history out of a fresh copy: everything below the last
/// `recent_blocks` heights, receipts included. `latest` is None where the copy records no head.
/// Without block stores in the copy (`present` is false) nothing is dropped.
pub fn db_lite(
    stores: &mut BlockStores,
    present: bool,
    latest: Option<i64>,
    recent_blocks: i64,
    bytes_copied: u64,
) -> (r: DbLiteReport)
    requires
        old(stores).wf(),
        recent_blocks >= 1,
        latest matches Some(l) ==> l - recent_blocks >= i64::MIN,
    ensures
        final(stores).wf(),
        r.bytes_copied == bytes_copied,
        r.latest_block == (match latest {
            Some(l) => l as int,
            None => 0,
        }),
        r.prune_below == lite_threshold(r.latest_block as int, recent_blocks as int),
        ({
            let gone = prunable(
                old(stores).index@,
                old(stores).bodies@,
                r.prune_below as int,
            );
            if present {
                &&& gone.finite()
                &&& r.blocks_pruned == gone.len()
                &&& final(stores).index@ == old(stores).index@.remove_keys(gone)
                &&& final(stores).bodies@ == old(stores).bodies@.difference(
                    ids_at(old(stores).index@, gone),
                )
                &&& final(stores).receipts@ == old(stores).receipts@.difference(
                    history(r.prune_below as int),
                )
            } else {
                r.blocks_pruned == 0 && final(stores).index@ == old(stores).index@
                    && final(stores).bodies@ == old(stores).bodies@ && final(stores).receipts@
                    == old(stores).receipts@
            }
        }),
{
    let latest_block: i64 = match latest {
        Some(l) => l,
        None => 0,
    };
    let kept_from: i64 = latest_block - recent_blocks;
    let threshold: i64 = if kept_from >= 1 { kept_from + 1 } else { 1 };
    let blocks_pruned: usize = if present { prune_below(stores, threshold) } else { 0 };
    DbLiteReport { latest_block, prune_below: threshold, blocks_pruned, bytes_copied }
}

/// A lite copy keeps its recent blocks: each of the last `recent` heights up
/// to the head survives.
pub proof fn lite_copies_keep_the_recent_blocks(
    index: Map<i64, BlockId>,
    bodies: Set<BlockId>,
    latest: int,
    recent: int,
    h: i64,
)
    requires
        recent >= 1,
        latest - recent < h <= latest,
        h >= 1,
    ensures
        !prunable(index, bodies, lite_threshold(latest, recent)).contains(h),
        !history(lite_threshold(latest, recent)).contains(h),
{
}

/// The marker file of a lite copy.
pub open spec fn lite_info(r: DbLiteReport, recent: int) -> Seq<char> {
    "kind=snapshot\nlatest_block="@ + int_decimal(r.latest_block as int) + "\nrecent_blocks="@
        + int_decimal(recent) + "\nprune_below="@ + int_decimal(r.prune_below as int)
        + "\nblocks_pruned="@ + decimal(r.blocks_pruned as nat) + "\n"@
}

/// The text of the marker file of a lite copy.
pub fn lite_info_text(report: &DbLiteReport, recent_blocks: i64) -> (r: String)
    ensures
        r@ == lite_info(*report, recent_blocks as int),
{
    let mut s = "kind=snapshot\nlatest_block=".to_owned();
    append_int(&mut s, report.latest_block);
    s.append("\nrecent_blocks=");
    append_int(&mut s, recent_blocks);
    s.append("\nprune_below=");
    append_int(&mut s, report.prune_below);
    s.append("\nblocks_pruned=");
    append_nat(&mut s, report.blocks_pruned as u128);
    s.append("\n");
    s
}

/// What pruning takes: the indexed blocks from the first one up to the bound
/// whose bodies are there, never the genesis block; of receipts, all in that
/// range. The bound is the height asked for, but at most the one after the
/// solidified block.
pub proof fn pruning_takes_what_is_below(
    index: Map<i64, BlockId>,
    bodies: Set<BlockId>,
    before: int,
    solidified: i64,
    h: i64,
)
    ensures
        prunable(index, bodies, before).contains(h) <==> 1 <= h && h < before && index.contains_key(h)
            && bodies.contains(index[h]),
        history(before).contains(h) <==> 1 <= h && h < before,
        !prunable(index, bodies, before).contains(0),
        prune_bound(before, None) == before,
        before <= solidified + 1 ==> prune_bound(before, Some(solidified)) == before,
        before > solidified + 1 ==> prune_bound(before, Some(solidified)) == solidified + 1,
{
}

/// The bodies that go are those of the pruned heights.
pub proof fn bodies_go_with_their_heights(
    index: Map<i64, BlockId>,
    bodies: Set<BlockId>,
    before: int,
    h: i64,
    id: BlockId,
)
    ensures
        1 <= h < before && index.contains_key(h) && bodies.contains(index[h]) ==> ids_at(
            index,
            prunable(index, bodies, before),
        ).contains(index[h]),
        (forall|k: i64| #[trigger] index.contains_key(k) && 1 <= k < before ==> index[k] != id)
            ==> !ids_at(index, prunable(index, bodies, before)).contains(id),
{
    if 1 <= h < before && index.contains_key(h) && bodies.contains(index[h]) {
        assert(prunable(index, bodies, before).contains(h));
    }
}

/// A lite copy keeps the latest blocks, as many as asked for, and cuts below
/// the first of them; it never cuts at the genesis block.
pub proof fn lite_copies_cut_below_the_recent_blocks(latest: int, recent: int)
    ensures
        latest > recent ==> lite_threshold(latest, recent) == latest - recent + 1,
        latest <= recent ==> lite_threshold(latest, recent) == 1,
{
}

/// What stops a move, a copy and a lite copy, in the order in which it is looked
/// for, and that nothing else does.
pub proof fn faults_are_found_in_order(
    recent: int,
    src: PathFacts,
    src_db: PathFacts,
    dst: PathFacts,
)
    ensures
        move_fault(src, dst) is None <==> src.exists && !dst.exists,
        !src.exists ==> move_fault(src, dst) == Some("source does not exist: "@ + src.display@),
        src.exists && dst.exists ==> move_fault(src, dst) == Some(
            "destination already exists: "@ + dst.display@ + " — refusing to overwrite"@,
        ),
        copy_fault(src, dst) is None <==> src.exists && src.is_dir && !dst.exists,
        !src.exists ==> copy_fault(src, dst) == Some("source does not exist: "@ + src.display@),
        src.exists && !src.is_dir ==> copy_fault(src, dst) == Some(
            "source is not a directory: "@ + src.display@,
        ),
        src.exists && src.is_dir && dst.exists ==> copy_fault(src, dst) == Some(
            "destination already exists: "@ + dst.display@ + " — refusing to overwrite"@,
        ),
        lite_fault(recent, src, src_db, dst) is None <==> recent >= 1 && src.is_dir && src_db.is_dir
            && !dst.exists,
        recent < 1 ==> lite_fault(recent, src, src_db, dst) == Some(
            "recent_blocks must be >= 1, got "@ + int_decimal(recent),
        ),
        recent >= 1 && !src.is_dir ==> lite_fault(recent, src, src_db, dst) == Some(
            "src is not a directory: "@ + src.display@,
        ),
        recent >= 1 && src.is_dir && !src_db.is_dir ==> lite_fault(recent, src, src_db, dst)
            == Some("src has no db/ subdirectory: "@ + src_db.display@),
{
}

/// The bytes of a copy are those of its files and directories, held to the
/// greatest number that can be told.
pub proof fn copied_bytes_add_up(entries: Seq<CopiedEntry>, n: nat)
    requires
        n < entries.len(),
    ensures
        ({
            let a = copied_bytes(entries, n);
            let b = copied_bytes(entries, (n + 1) as nat);
            &&& entries[n as int] is Other ==> b == a
            &&& entries[n as int] is File && a + entries[n as int]->File_0 <= u64::MAX ==> b == a
                + entries[n as int]->File_0
            &&& entries[n as int] is File && a + entries[n as int]->File_0 > u64::MAX ==> b
                == u64::MAX
            &&& entries[n as int] is Dir && a + entries[n as int]->Dir_0 <= u64::MAX ==> b == a
                + entries[n as int]->Dir_0
            &&& entries[n as int] is Dir && a + entries[n as int]->Dir_0 > u64::MAX ==> b
                == u64::MAX
        }),
        copied_bytes(entries, 0) == 0,
{
}

/// The rows taken as accounts are those under a key of twenty-one bytes whose
/// value decodes, in their order.
pub proof fn accounts_are_under_their_address(rows: Seq<(Vec<u8>, bool)>, n: nat, i: int)
    requires
        n <= rows.len(),
    ensures
        account_rows(rows, n).contains(i) <==> 0 <= i < n && rows[i].0@.len() == 21 && rows[i].1,
        forall|a: int, b: int|
            0 <= a < b < account_rows(rows, n).len() ==> #[trigger] account_rows(rows, n)[a]
                < #[trigger] account_rows(rows, n)[b],
        forall|a: int|
            0 <= a < account_rows(rows, n).len() ==> #[trigger] account_rows(rows, n)[a] < n,
    decreases n,
{
    if n > 0 {
        accounts_are_under_their_address(rows, (n - 1) as nat, i);
        let before = account_rows(rows, (n - 1) as nat);
        let after = account_rows(rows, n);
        if after.len() > before.len() {
            assert(after == before.push(n - 1));
            if before.contains(i) {
                let a = choose|a: int| 0 <= a < before.len() && before[a] == i;
                assert(after[a] == i);
            }
            if i == n - 1 {
                assert(after[before.len() as int] == i);
            }
            if after.contains(i) && i != n - 1 {
                let a = choose|a: int| 0 <= a < after.len() && after[a] == i;
                assert(before[a] == i);
            }
        }
    }
}

/// What is left after pruning: every block outside the pruned range keeps its
/// place in the index, and a pruned one loses it; a bound below the first block
/// is refused and changes nothing.
pub proof fn pruning_leaves_the_rest(
    stores: &mut BlockStores,
    before: i64,
    solidified: i64,
    r: Result<usize, AdminError>,
    h: i64,
)
    requires
        old(stores).wf(),
        call_ensures(prune_before, (stores, before, Some(solidified)), r),
    ensures
        before < 1 <==> r is Err,
        r is Err ==> final(stores).index@ == old(stores).index@ && final(stores).bodies@
            == old(stores).bodies@,
        h < 1 || h >= before || h > solidified ==> final(stores).index@.contains_key(h) == old(
            stores).index@.contains_key(h),
        h < 1 || h >= before || h > solidified ==> final(stores).receipts@.contains(h) == old(
            stores).receipts@.contains(h),
        r is Ok && 1 <= h && h < before && h <= solidified && old(stores).index@.contains_key(h)
            && old(stores).bodies@.contains(old(stores).index@[h]) ==> !final(
            stores).index@.contains_key(h) && !final(stores).bodies@.contains(old(stores).index@[h]),
        r is Ok && 1 <= h && h < before && h <= solidified ==> !final(stores).receipts@.contains(h),
{
    let bound = prune_bound(before as int, Some(solidified));
    pruning_takes_what_is_below(
        old(stores).index@,
        old(stores).bodies@,
        bound,
        solidified,
        h,
    );
    bodies_go_with_their_heights(
        old(stores).index@,
        old(stores).bodies@,
        bound,
        h,
        old(stores).index@[h],
    );
}

} // verus!
