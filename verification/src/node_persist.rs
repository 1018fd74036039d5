//! Which discovered peers are kept over a restart.

use vstd::prelude::*;

verus! {

/// Hard limit on the persisted peer set.
pub const MAX_NODES_WRITE_TO_DB: usize = 30;

/// Default flush interval in milliseconds.
pub const DEFAULT_COMMIT_RATE_MS: u64 = 60_000;

/// One persisted peer.
#[derive(Debug, Clone, PartialEq, Eq)]
pub struct DbNode {
    pub host: String,
    pub port: u16,
}

impl View for DbNode {
    type V = (Seq<char>, u16);

    open spec fn view(&self) -> (Seq<char>, u16) {
        (self.host@, self.port)
    }
}

impl DbNode {
    pub fn new(host: &str, port: u16) -> (r: Self)
        ensures
            r@ == (host@, port),
    {
        DbNode { host: host.to_owned(), port }
    }
}

/// The persisted envelope.
#[derive(Debug, Clone)]
pub struct DbNodes {
    pub nodes: Vec<DbNode>,
}

impl Default for DbNodes {
    fn default() -> (r: Self)
        ensures
            r.nodes@.len() == 0,
    {
        DbNodes { nodes: Vec::new() }
    }
}

/// Nodes as plain values.
pub open spec fn nodes_view(v: Seq<DbNode>) -> Seq<(Seq<char>, u16)> {
    v.map_values(|n: DbNode| n@)
}

/// What the store holds under the peers key.
pub enum StoredPeers {
    /// No such key, or an empty blob.
    Nothing,
    /// A blob that does not decode.
    Corrupt,
    /// A decoded envelope.
    Nodes(DbNodes),
}

/// The persistence switch and its limits.
#[derive(Debug, Clone, Copy)]
pub struct NodePersistService {
    pub enabled: bool,
    pub commit_rate_ms: u64,
    pub max_nodes: usize,
}

fn copy_nodes(v: &Vec<DbNode>, n: usize) -> (r: Vec<DbNode>)
    requires
        n <= v@.len(),
    ensures
        nodes_view(r@) == nodes_view(v@).take(n as int),
{
    let mut out: Vec<DbNode> = Vec::new();
    let mut i: usize = 0;
    while i < n
        invariant
            i <= n <= v@.len(),
            nodes_view(out@) == nodes_view(v@).take(i as int),
        decreases n - i,
    {
        let ghost before = nodes_view(out@);
        out.push(DbNode { host: v[i].host.clone(), port: v[i].port });
        i = i + 1;
        assert(nodes_view(out@) =~= before.push(v@[i - 1]@));
        assert(nodes_view(out@) =~= nodes_view(v@).take(i as int));
    }
    out
}

impl NodePersistService {
    /// Whether peers are persisted at all.
    pub open spec fn on(&self) -> bool {
        self.enabled
    }

    pub fn new(enabled: bool) -> (r: Self)
        ensures
            r.on() == enabled,
            r.commit_rate_ms == DEFAULT_COMMIT_RATE_MS,
            r.max_nodes == MAX_NODES_WRITE_TO_DB,
    {
        NodePersistService {
            enabled,
            commit_rate_ms: DEFAULT_COMMIT_RATE_MS,
            max_nodes: MAX_NODES_WRITE_TO_DB,
        }
    }

    /// Whether peers are persisted at all.
    pub fn enabled(&self) -> (r: bool)
        ensures
            r == self.on(),
    {
        self.enabled
    }

    /// The persisted peers, in order. There are none where persistence is off
    /// or the blob is missing or corrupt.
    pub fn read(&self, stored: &StoredPeers) -> (r: Vec<DbNode>)
        ensures
            nodes_view(r@) == (match *stored {
                StoredPeers::Nodes(n) => if self.on() {
                    nodes_view(n.nodes@)
                } else {
                    Seq::empty()
                },
                _ => Seq::empty(),
            }),
    {
        if self.enabled {
            if let StoredPeers::Nodes(n) = stored {
                let out = copy_nodes(&n.nodes, n.nodes.len());
                assert(nodes_view(out@) =~= nodes_view(n.nodes@));
                return out;
            }
        }
        let out: Vec<DbNode> = Vec::new();
        assert(nodes_view(out@) =~= Seq::<(Seq<char>, u16)>::empty());
        out
    }

    /// The envelope to persist for `batch`: its first entries, up to the limit.
    /// None, and the store is left alone, where persistence is off.
    pub fn write_batch(&self, batch: &Vec<DbNode>) -> (r: Option<DbNodes>)
        ensures
            match r {
                Some(n) => self.on() && nodes_view(n.nodes@) == nodes_view(batch@).take(
                    if batch@.len() < self.max_nodes {
                        batch@.len() as int
                    } else {
                        self.max_nodes as int
                    },
                ),
                None => !self.on(),
            },
    {
        if !self.enabled {
            return None;
        }
        let take: usize = if batch.len() < self.max_nodes { batch.len() } else { self.max_nodes };
        Some(DbNodes { nodes: copy_nodes(batch, take) })
    }
}

/// What was written is what is read: a batch within the limit comes back whole,
/// a longer one as its leading part.
pub proof fn written_peers_read_back(batch: Seq<(Seq<char>, u16)>, max: nat)
    ensures
        batch.len() <= max ==> batch.take(
            if batch.len() < max {
                batch.len() as int
            } else {
                max as int
            },
        ) == batch,
        batch.take(
            if batch.len() < max {
                batch.len() as int
            } else {
                max as int
            },
        ).is_prefix_of(batch),
{
    if batch.len() <= max {
        assert(batch.take(batch.len() as int) =~= batch);
    }
}

/// The switch is the field, and no more than thirty peers are kept.
pub proof fn persistence_is_the_switch(s: NodePersistService)
    ensures
        s.on() == s.enabled,
        MAX_NODES_WRITE_TO_DB == 30,
        DEFAULT_COMMIT_RATE_MS == 60_000,
{
}

/// Peers are read and written only where persistence is on, and only the first
/// ones up to the limit are written.
pub proof fn peers_are_kept_where_it_is_on(
    s: NodePersistService,
    batch: Vec<DbNode>,
    w: Option<DbNodes>,
    i: int,
)
    requires
        call_ensures(NodePersistService::write_batch, (&s, &batch), w),
    ensures
        w is Some <==> s.enabled,
        w is Some && batch@.len() <= s.max_nodes ==> (w->Some_0).nodes@.len() == batch@.len(),
        w is Some && batch@.len() > s.max_nodes ==> (w->Some_0).nodes@.len() == s.max_nodes,
        w is Some && 0 <= i < (w->Some_0).nodes@.len() ==> (w->Some_0).nodes@[i].host@
            == batch@[i].host@ && (w->Some_0).nodes@[i].port == batch@[i].port,
{
    if w is Some {
        let v = nodes_view((w->Some_0).nodes@);
        assert(v.len() == (w->Some_0).nodes@.len());
        assert(nodes_view(batch@).len() == batch@.len());
        if 0 <= i < v.len() {
            assert(v[i] == (w->Some_0).nodes@[i]@);
            assert(v[i] == nodes_view(batch@)[i]);
            assert(nodes_view(batch@)[i] == batch@[i]@);
        }
    }
}

} // verus!
