//! The node arena: a persistent, identity-stable tree of inode-bearing
//! nodes.
//!
//! Every node lives at a stable position of one growing vector; the
//! position (counted from one) is the node's inode for its whole
//! lifetime, and nodes are never removed.  Each node remembers its
//! parent's inode; directory membership is carried by the parent's
//! listing, which maps child names to child inodes.

use vstd::prelude::*;

use crate::attr::FileAttr;
use crate::attr::FileType;
use crate::attr::Timestamp;
use crate::attr::spec_perm;
use crate::entry::Dir;
use crate::entry::Entry;
use crate::entry::EntryModel;
use crate::entry::dir_keys_unique;
use crate::entry::dir_lookup;
use crate::entry::dir_update;
use crate::entry::lemma_dir_lookup_exists;
use crate::entry::lemma_dir_update_found;
use crate::entry::lemma_dir_update_missing;
use crate::error::NoSuchNode;
use crate::error::NodeLookupError;
use crate::pathname::valid_name_seq;

verus! {

/// The mathematical content of a `Node`.
pub struct NodeModel {
    pub name: Seq<char>,
    pub entry: Option<EntryModel>,
    pub generation: u64,
    pub size: Option<u64>,
    pub time: Timestamp,
    pub uid: u32,
    pub gid: u32,
    pub mode: u32,
    pub parent: u64,
}

/// An arena element: an entry plus file metadata.
#[derive(Debug)]
pub struct Node {
    /// The final path component under which the parent lists this node;
    /// empty for the root.
    pub(crate) name: String,
    /// What the node holds; `None` marks a stub not yet linked.
    pub(crate) entry: Option<Entry>,
    /// Counts replacements of `entry`; bumped by every successful link.
    pub(crate) generation: u64,
    /// The reported file size; unknown means zero.
    pub(crate) size: Option<u64>,
    /// When the current entry was linked.
    pub(crate) time: Timestamp,
    pub(crate) uid: u32,
    pub(crate) gid: u32,
    pub(crate) mode: u32,
    /// The parent's inode; zero only for the root.
    pub(crate) parent: u64,
}

impl View for Node {
    type V = NodeModel;

    closed spec fn view(&self) -> NodeModel {
        NodeModel {
            name: self.name@,
            entry: match self.entry {
                Some(e) => Some(e@),
                None => None,
            },
            generation: self.generation,
            size: self.size,
            time: self.time,
            uid: self.uid,
            gid: self.gid,
            mode: self.mode,
            parent: self.parent,
        }
    }
}

/// The stub a fresh node starts from, below the given parent.
pub open spec fn spec_stub(parent: u64) -> NodeModel {
    NodeModel {
        name: Seq::empty(),
        entry: None,
        generation: 0,
        size: None,
        time: Timestamp { sec: 0, nsec: 0 },
        uid: 0,
        gid: 0,
        mode: 0,
        parent,
    }
}

/// The mode word a link gives a node: `0o755` for a directory entry,
/// `0o644` for any file-like entry.
pub open spec fn spec_mode_of(e: EntryModel) -> u32 {
    match e {
        EntryModel::Dir(_) => 0o755u32,
        _ => 0o644u32,
    }
}

/// The generation counter after one more successful link.
pub open spec fn spec_next_generation(g: u64) -> u64 {
    if g < u64::MAX {
        (g + 1) as u64
    } else {
        g
    }
}

/// The node after linking `e` under `name` at time `now`.
pub open spec fn spec_link(n: NodeModel, name: Seq<char>, e: EntryModel, now: Timestamp) -> NodeModel {
    NodeModel {
        name,
        entry: Some(e),
        generation: spec_next_generation(n.generation),
        time: now,
        mode: spec_mode_of(e),
        ..n
    }
}

impl Node {
    /// Give this node an entry (and the matching mode, a fresh
    /// timestamp and a bumped generation) under `name`.
    pub fn link(&mut self, name: String, entry: Entry, now: Timestamp)
        ensures
            final(self)@ == spec_link(old(self)@, name@, entry@, now),
    {
        self.mode = match &entry {
            Entry::Dir(_) => 0o755,
            Entry::Filter(_) => 0o644,
            Entry::Filtrated(_) => 0o644,
            Entry::PreciseFilter(_) => 0o644,
        };
        self.time = now;
        if self.generation < u64::MAX {
            self.generation = self.generation + 1;
        }
        self.entry = Some(entry);
        self.name = name;
    }
}

impl Default for Node {
    /// A stub below no parent.
    fn default() -> (r: Node)
        ensures
            r@ == spec_stub(0),
    {
        let r = Node {
            name: String::new(),
            entry: None,
            generation: 0,
            size: None,
            time: Timestamp::new(0, 0),
            gid: 0,
            uid: 0,
            mode: 0,
            parent: 0,
        };
        proof {
            assert(r@.name =~= spec_stub(0).name);
        }
        r
    }
}

/// Whether `ino` names a position of the arena `v`.
pub open spec fn inode_ok(v: Seq<NodeModel>, ino: u64) -> bool {
    1 <= ino <= v.len()
}

/// Structural soundness of one pair of a listing held by `pino`.
pub open spec fn listing_pair_ok(v: Seq<NodeModel>, pino: u64, p: (Seq<char>, u64)) -> bool {
    &&& valid_name_seq(p.0)
    &&& inode_ok(v, p.1)
    &&& v[p.1 - 1].parent == pino
    &&& v[p.1 - 1].name == p.0
    &&& v[p.1 - 1].entry is Some
}

/// Structural soundness of one listing `l` held by the node `pino`:
/// unique, proper names, each mapping to an existing linked child that
/// agrees on its name and parent.
pub open spec fn listing_ok(v: Seq<NodeModel>, pino: u64, l: Seq<(Seq<char>, u64)>) -> bool {
    &&& dir_keys_unique(l)
    &&& forall|k: int| 0 <= k < l.len() ==> listing_pair_ok(v, pino, #[trigger] l[k])
}

/// Structural soundness of the node `ino` within the arena `v`.
pub open spec fn node_ok(v: Seq<NodeModel>, ino: u64) -> bool {
    let n = v[ino - 1];
    &&& ino == 1 ==> n.parent == 0 && n.name == Seq::<char>::empty() && (n.entry matches Some(
        EntryModel::Dir(_),
    ))
    &&& ino != 1 ==> 1 <= n.parent < ino && valid_name_seq(n.name) && n.entry is Some
    &&& n.entry is Some <==> n.generation >= 1
    &&& match n.entry {
        Some(EntryModel::Dir(l)) => listing_ok(v, ino, l),
        _ => true,
    }
}

/// The arena invariant: a rooted tree whose root is inode one and is
/// always a directory, every other node linked below a lower inode.
pub open spec fn nodes_wf(v: Seq<NodeModel>) -> bool {
    &&& 1 <= v.len() <= u64::MAX - 3
    &&& forall|ino: u64| inode_ok(v, ino) ==> #[trigger] node_ok(v, ino)
}

/// The arena of nodes, keyed by stable inodes.
#[derive(Debug)]
pub struct Nodes {
    nodes: Vec<Node>,
}

impl View for Nodes {
    type V = Seq<NodeModel>;

    closed spec fn view(&self) -> Seq<NodeModel> {
        Seq::new(self.nodes@.len(), |i: int| self.nodes@[i]@)
    }
}

impl Nodes {
    /// The arena invariant.
    pub open spec fn wf(&self) -> bool {
        nodes_wf(self@)
    }

    /// The model of the root's arena at birth: one directory node,
    /// generation one, linked at time `now`.
    pub open spec fn spec_initial(now: Timestamp) -> Seq<NodeModel> {
        seq![
            spec_link(spec_stub(0), Seq::empty(), EntryModel::Dir(Seq::empty()), now),
        ]
    }

    /// An arena holding only the root directory, created at `now`.
    pub fn new(now: Timestamp) -> (r: Nodes)
        ensures
            r@ == Self::spec_initial(now),
            r.wf(),
    {
        let mut root = Node::default();
        root.link(String::new(), Entry::Dir(Dir::new()), now);
        let mut nodes: Vec<Node> = Vec::new();
        nodes.push(root);
        let r = Nodes { nodes };
        proof {
            assert(r@ =~= Self::spec_initial(now));
            assert(r@[0].name =~= Seq::<char>::empty());
            assert(forall|ino: u64| inode_ok(r@, ino) ==> ino == 1);
            assert(node_ok(r@, 1));
        }
        r
    }

    /// How many nodes the arena holds.
    pub fn node_count(&self) -> (r: usize)
        ensures
            r == self@.len(),
    {
        self.nodes.len()
    }

    /// The identity map from inodes to node ids, failing outside the
    /// arena.
    pub fn basic_node_id(&self, inode: u64) -> (r: Result<u64, NoSuchNode>)
        ensures
            inode_ok(self@, inode) ==> r == Ok::<u64, NoSuchNode>(inode),
            !inode_ok(self@, inode) ==> r == Err::<u64, NoSuchNode>(NoSuchNode(inode)),
    {
        if 1 <= inode && inode <= self.nodes.len() as u64 {
            Ok(inode)
        } else {
            Err(NoSuchNode(inode))
        }
    }
}

/// The outcome of a lookup by `(parent, name)`, with the name carried
/// as a character sequence.
pub enum LookupErr {
    NoEntry(u64),
    NoSuchName(u64, Seq<char>),
    NotDirEntry(u64),
}

/// Whether the executable error `e` carries the content of `m`.
pub open spec fn lookup_err_matches(e: NodeLookupError, m: LookupErr) -> bool {
    match e {
        NodeLookupError::NoEntry(a) => m == LookupErr::NoEntry(a),
        NodeLookupError::NoSuchName(a, s) => m matches LookupErr::NoSuchName(b, t) && a == b && s@
            == t,
        NodeLookupError::NotDirEntry(a) => m == LookupErr::NotDirEntry(a),
    }
}

/// Whether the executable lookup result `r` carries the content of `m`.
pub open spec fn lookup_matches(r: Result<u64, NodeLookupError>, m: Result<u64, LookupErr>) -> bool {
    match r {
        Ok(c) => m == Ok::<u64, LookupErr>(c),
        Err(e) => m matches Err(me) && lookup_err_matches(e, me),
    }
}

/// What looking `name` up below the node `id` yields in the arena `v`:
/// `NoEntry` for a stub, `NotDirEntry` for a non-directory, and
/// `NoSuchName` for an unlisted name or a dangling listed inode.
pub open spec fn spec_basic_lookup(v: Seq<NodeModel>, id: u64, name: Seq<char>) -> Result<
    u64,
    LookupErr,
> {
    match v[id - 1].entry {
        None => Err(LookupErr::NoEntry(id)),
        Some(EntryModel::Dir(l)) => match dir_lookup(l, name) {
            Some(c) => if inode_ok(v, c) {
                Ok(c)
            } else {
                Err(LookupErr::NoSuchName(id, name))
            },
            None => Err(LookupErr::NoSuchName(id, name)),
        },
        Some(_) => Err(LookupErr::NotDirEntry(id)),
    }
}

/// The numeric-code surface of a lookup failure.
pub open spec fn spec_lookup_errno(m: LookupErr) -> crate::error::Errno {
    match m {
        LookupErr::NoEntry(_) => crate::error::Errno::NoEnt,
        LookupErr::NoSuchName(_, _) => crate::error::Errno::NoEnt,
        LookupErr::NotDirEntry(_) => crate::error::Errno::NotDir,
    }
}

/// The kind a node's entry gives it: directories for listings,
/// regular files for everything else.
pub open spec fn spec_kind(e: EntryModel) -> FileType {
    match e {
        EntryModel::Dir(_) => FileType::Directory,
        _ => FileType::RegularFile,
    }
}

/// The attributes synthesised for the linked node `n` at inode `ino`.
pub open spec fn spec_attr(n: NodeModel, ino: u64) -> FileAttr {
    let kind = match n.entry {
        Some(e) => spec_kind(e),
        None => FileType::RegularFile,
    };
    FileAttr {
        ino,
        size: match n.size {
            Some(s) => s,
            None => 0,
        },
        blocks: 0,
        atime: n.time,
        mtime: n.time,
        ctime: n.time,
        kind,
        perm: spec_perm(kind, n.mode),
        nlink: 0,
        uid: n.uid,
        gid: n.gid,
        rdev: 0,
        blksize: 0,
    }
}

impl Nodes {
    /// Look `name` up in the listing held by the node `node_id`.
    pub fn basic_lookup_node_id_name(&self, node_id: u64, name: &str) -> (r: Result<
        u64,
        NodeLookupError,
    >)
        requires
            inode_ok(self@, node_id),
        ensures
            lookup_matches(r, spec_basic_lookup(self@, node_id, name@)),
    {
        let _arena_len = self.nodes.len();
        let idx = (node_id - 1) as usize;
        proof {
            assert(idx == node_id - 1);
        }
        let node = &self.nodes[idx];
        match &node.entry {
            None => Err(NodeLookupError::NoEntry(node_id)),
            Some(Entry::Dir(d)) => {
                match d.get(name) {
                    None => Err(NodeLookupError::NoSuchName(node_id, name.to_owned())),
                    Some(c) => {
                        match self.basic_node_id(c) {
                            Ok(c) => Ok(c),
                            Err(_) => Err(NodeLookupError::NoSuchName(node_id, name.to_owned())),
                        }
                    },
                }
            },
            Some(_) => Err(NodeLookupError::NotDirEntry(node_id)),
        }
    }

    /// `basic_node_id` with its failure flattened to a numeric code.
    pub fn node_id(&self, inode: u64) -> (r: Result<u64, crate::error::Errno>)
        ensures
            inode_ok(self@, inode) ==> r == Ok::<u64, crate::error::Errno>(inode),
            !inode_ok(self@, inode) ==> r == Err::<u64, crate::error::Errno>(
                crate::error::Errno::NoEnt,
            ),
    {
        match self.basic_node_id(inode) {
            Ok(id) => Ok(id),
            Err(_) => Err(crate::error::Errno::NoEnt),
        }
    }

    /// `basic_lookup_node_id_name` with its failure flattened to a
    /// numeric code.
    pub fn lookup_node_id_name(&self, node_id: u64, name: &str) -> (r: Result<
        u64,
        crate::error::Errno,
    >)
        requires
            inode_ok(self@, node_id),
        ensures
            match spec_basic_lookup(self@, node_id, name@) {
                Ok(c) => r == Ok::<u64, crate::error::Errno>(c),
                Err(m) => r == Err::<u64, crate::error::Errno>(spec_lookup_errno(m)),
            },
    {
        match self.basic_lookup_node_id_name(node_id, name) {
            Ok(c) => Ok(c),
            Err(NodeLookupError::NoEntry(_)) => Err(crate::error::Errno::NoEnt),
            Err(NodeLookupError::NoSuchName(_, _)) => Err(crate::error::Errno::NoEnt),
            Err(NodeLookupError::NotDirEntry(_)) => Err(crate::error::Errno::NotDir),
        }
    }

    /// The attributes and generation of the node `node_id`; a stub
    /// has none.
    pub fn attr_for_node_id(&self, node_id: u64) -> (r: Result<(FileAttr, u64), crate::error::Errno>)
        requires
            inode_ok(self@, node_id),
        ensures
            match self@[node_id - 1].entry {
                None => r == Err::<(FileAttr, u64), crate::error::Errno>(crate::error::Errno::NoEnt),
                Some(_) => r == Ok::<(FileAttr, u64), crate::error::Errno>(
                    (spec_attr(self@[node_id - 1], node_id), self@[node_id - 1].generation),
                ),
            },
    {
        let _arena_len = self.nodes.len();
        let idx = (node_id - 1) as usize;
        proof {
            assert(idx == node_id - 1);
        }
        let node = &self.nodes[idx];
        let kind = match &node.entry {
            None => {
                return Err(crate::error::Errno::NoEnt);
            },
            Some(Entry::Dir(_)) => FileType::Directory,
            Some(Entry::Filter(_)) => FileType::RegularFile,
            Some(Entry::Filtrated(_)) => FileType::RegularFile,
            Some(Entry::PreciseFilter(_)) => FileType::RegularFile,
        };
        let attr = FileAttr {
            ino: node_id,
            size: match node.size {
                Some(s) => s,
                None => 0,
            },
            blocks: 0,
            atime: node.time,
            mtime: node.time,
            ctime: node.time,
            kind,
            perm: crate::attr::perm_from_mode_and_kind(kind, node.mode),
            nlink: 0,
            uid: node.uid,
            gid: node.gid,
            rdev: 0,
            blksize: 0,
        };
        Ok((attr, node.generation))
    }

    /// The attributes and generation of the node at `inode`, checking
    /// the inode first.
    pub fn attr_for_inode(&self, inode: u64) -> (r: Result<(FileAttr, u64), crate::error::Errno>)
        ensures
            !inode_ok(self@, inode) ==> r == Err::<(FileAttr, u64), crate::error::Errno>(
                crate::error::Errno::NoEnt,
            ),
            inode_ok(self@, inode) ==> match self@[inode - 1].entry {
                None => r == Err::<(FileAttr, u64), crate::error::Errno>(crate::error::Errno::NoEnt),
                Some(_) => r == Ok::<(FileAttr, u64), crate::error::Errno>(
                    (spec_attr(self@[inode - 1], inode), self@[inode - 1].generation),
                ),
            },
    {
        let id = match self.node_id(inode) {
            Ok(id) => id,
            Err(e) => {
                return Err(e);
            },
        };
        self.attr_for_node_id(id)
    }
}

/// The arena after linking a brand-new child `n0` under `id` as
/// `name`: the stub is appended, the parent's listing gains the
/// mapping, and the child is linked.
pub open spec fn spec_link_new_child(
    v: Seq<NodeModel>,
    id: u64,
    l: Seq<(Seq<char>, u64)>,
    name: Seq<char>,
    e: EntryModel,
    now: Timestamp,
) -> Seq<NodeModel> {
    let n0 = (v.len() + 1) as u64;
    let v1 = v.push(spec_stub(id));
    let v2 = v1.update(
        id - 1,
        NodeModel { entry: Some(EntryModel::Dir(dir_update(l, name, n0))), ..v[id - 1] },
    );
    v2.update(n0 - 1, spec_link(spec_stub(id), name, e, now))
}

/// What linking `e` as `name` under `id` does to the arena `v` and
/// reports back: an existing child is re-linked in place (its inode
/// survives, its generation grows), a missing or dangling name gets a
/// fresh child, and a parent without a listing is refused.
pub open spec fn spec_link_entry(
    v: Seq<NodeModel>,
    id: u64,
    name: Seq<char>,
    e: EntryModel,
    now: Timestamp,
) -> (Seq<NodeModel>, Result<u64, LookupErr>) {
    match v[id - 1].entry {
        None => (v, Err(LookupErr::NoEntry(id))),
        Some(EntryModel::Dir(l)) => match dir_lookup(l, name) {
            Some(c) => if inode_ok(v, c) {
                (v.update(c - 1, spec_link(v[c - 1], name, e, now)), Ok(c))
            } else {
                (spec_link_new_child(v, id, l, name, e, now), Ok((v.len() + 1) as u64))
            },
            None => (spec_link_new_child(v, id, l, name, e, now), Ok((v.len() + 1) as u64)),
        },
        Some(_) => (v, Err(LookupErr::NotDirEntry(id))),
    }
}

/// How one arena may grow out of another: nodes are never removed,
/// parents never change, a linked node keeps its name and never loses
/// its entry, and generations never decrease.
pub open spec fn evolves(a: Seq<NodeModel>, b: Seq<NodeModel>) -> bool {
    &&& a.len() <= b.len()
    &&& forall|ino: u64| inode_ok(a, ino) ==> {
        &&& (#[trigger] b[ino - 1]).parent == a[ino - 1].parent
        &&& a[ino - 1].entry is Some ==> b[ino - 1].entry is Some && b[ino - 1].name == a[ino
            - 1].name
        &&& b[ino - 1].generation >= a[ino - 1].generation
    }
}

/// Evolution is reflexive.
pub proof fn lemma_evolves_refl(a: Seq<NodeModel>)
    ensures
        evolves(a, a),
{
}

/// Evolution composes: what a longer history guarantees, each step
/// guarantees.
pub proof fn lemma_evolves_trans(a: Seq<NodeModel>, b: Seq<NodeModel>, c: Seq<NodeModel>)
    requires
        evolves(a, b),
        evolves(b, c),
    ensures
        evolves(a, c),
{
    assert forall|ino: u64| inode_ok(a, ino) implies {
        &&& (#[trigger] c[ino - 1]).parent == a[ino - 1].parent
        &&& a[ino - 1].entry is Some ==> c[ino - 1].entry is Some && c[ino - 1].name == a[ino
            - 1].name
        &&& c[ino - 1].generation >= a[ino - 1].generation
    } by {
        assert(inode_ok(b, ino));
        assert(b[ino - 1].parent == a[ino - 1].parent);
    }
}

impl Nodes {
    /// Append a stub below `parent`; its inode is the new arena size.
    fn new_node(&mut self, parent: u64) -> (c: u64)
        requires
            old(self)@.len() < u64::MAX - 3,
        ensures
            final(self)@ == old(self)@.push(spec_stub(parent)),
            c == old(self)@.len() + 1,
    {
        let mut stub = Node::default();
        stub.parent = parent;
        self.nodes.push(stub);
        proof {
            assert(final(self)@ =~= old(self)@.push(spec_stub(parent)));
        }
        self.nodes.len() as u64
    }

    /// Link `entry` as `name` below the directory node `node_id`: if
    /// the parent already lists `name`, the listed child is re-linked
    /// in place (keeping its inode, growing its generation), otherwise
    /// a fresh child is created, listed and linked.  A parent that is
    /// a stub or not a directory is refused.
    pub fn link_entry(&mut self, node_id: u64, name: String, entry: Entry, now: Timestamp) -> (r:
        Result<(), NodeLookupError>)
        requires
            old(self).wf(),
            old(self)@.len() < u64::MAX - 3,
            inode_ok(old(self)@, node_id),
            crate::pathname::valid_name_seq(name@),
            (entry@ matches EntryModel::Dir(l) ==> l.len() == 0),
        ensures
            final(self).wf(),
            evolves(old(self)@, final(self)@),
            final(self)@ == spec_link_entry(old(self)@, node_id, name@, entry@, now).0,
            match spec_link_entry(old(self)@, node_id, name@, entry@, now).1 {
                Ok(_) => r is Ok,
                Err(m) => r matches Err(e) && lookup_err_matches(e, m),
            },
    {
        let ghost v = self@;
        let child = match self.basic_lookup_node_id_name(node_id, name.as_str()) {
            Ok(c) => {
                proof {
                    lemma_listed_child_props(v, node_id, c, name@);
                }
                c
            },
            Err(NodeLookupError::NoSuchName(_, _)) => {
                let c = self.new_node(node_id);
                let _arena_len = self.nodes.len();
                let pidx = (node_id - 1) as usize;
                proof {
                    assert(self@.len() == self.nodes@.len());
                    assert(pidx == node_id - 1);
                    assert(node_ok(v, node_id));
                }
                let ghost pre = self@;
                let ghost pre_nodes = self.nodes@;
                let taken = self.nodes[pidx].entry.take();
                match taken {
                    Some(Entry::Dir(mut d)) => {
                        proof {
                            assert(taken == pre_nodes[pidx as int].entry);
                            assert(pre[pidx as int] == pre_nodes[pidx as int]@);
                            assert(pre[pidx as int].entry == Some(EntryModel::Dir(d@)));
                            assert(pre[pidx as int].entry == v[pidx as int].entry);
                            assert(d@ == v[node_id - 1].entry->Some_0->Dir_0);
                            assert(dir_keys_unique(d@));
                        }
                        d.insert(name.clone(), c);
                        self.nodes[pidx].entry = Some(Entry::Dir(d));
                    },
                    _ => {
                        // unreachable: the lookup saw a directory here
                        self.nodes[pidx].entry = taken;
                        proof {
                            assert(pre[pidx as int].entry == v[pidx as int].entry);
                            assert(false);
                        }
                    },
                }
                proof {
                    assert(self@ =~= v.push(spec_stub(node_id)).update(
                        node_id - 1,
                        NodeModel {
                            entry: Some(
                                EntryModel::Dir(
                                    dir_update(
                                        v[node_id - 1].entry->Some_0->Dir_0,
                                        name@,
                                        (v.len() + 1) as u64,
                                    ),
                                ),
                            ),
                            ..v[node_id - 1]
                        },
                    ));
                }
                c
            },
            Err(e) => {
                return Err(e);
            },
        };
        let ghost vmid = self@;
        let _arena_len = self.nodes.len();
        let cidx = (child - 1) as usize;
        self.nodes[cidx].link(name, entry, now);
        proof {
            assert(self@ =~= vmid.update(child - 1, spec_link(vmid[child - 1], name@, entry@, now)));
            lemma_link_entry_wf(v, node_id, name@, entry@, now);
            assert(self@ =~= spec_link_entry(v, node_id, name@, entry@, now).0);
        }
        Ok(())
    }
}

/// The path of `ino` relative to the root: one `/`-prefixed name per
/// ancestor, top first; the root itself yields the empty sequence.
pub open spec fn spec_rel_path(v: Seq<NodeModel>, ino: u64) -> Seq<char>
    decreases ino,
{
    if !inode_ok(v, ino) || ino == 1 {
        Seq::empty()
    } else if v[ino - 1].parent < ino {
        spec_rel_path(v, v[ino - 1].parent) + seq!['/'] + v[ino - 1].name
    } else {
        Seq::empty()
    }
}

/// The absolute path reported for `ino`: `/` for the root, the
/// ancestor walk otherwise.
pub open spec fn spec_path_of(v: Seq<NodeModel>, ino: u64) -> Seq<char> {
    if ino == 1 {
        seq!['/']
    } else {
        spec_rel_path(v, ino)
    }
}

/// `/name` for each listed name, last name first.
pub open spec fn spec_flatten_rev(ns: Seq<Seq<char>>) -> Seq<char>
    decreases ns.len(),
{
    if ns.len() == 0 {
        Seq::empty()
    } else {
        seq!['/'] + ns.last() + spec_flatten_rev(ns.drop_last())
    }
}

/// The byte range `[offset, offset+size)` of `data`, clamped to the
/// data's length at both ends.
pub open spec fn spec_slice(data: Seq<u8>, offset: u64, size: u32) -> Seq<u8> {
    let len = data.len() as int;
    let start = if offset as int <= len {
        offset as int
    } else {
        len
    };
    let end = if offset as int + size as int <= len {
        offset as int + size as int
    } else {
        len
    };
    data.subrange(start, end)
}

/// Slice pre-materialised output to a bounded read: at most `size`
/// bytes come back, and fewer than `size` mean the data ends at
/// `offset` plus the returned length.
pub fn filtered_slice(data: &Vec<u8>, offset: u64, size: u32) -> (r: Vec<u8>)
    ensures
        r@ == spec_slice(data@, offset, size),
        r@.len() <= size,
        r@.len() < size ==> offset + r@.len() >= data@.len(),
{
    let len = data.len();
    let start: usize = if offset >= len as u64 {
        len
    } else {
        offset as usize
    };
    let end: usize = if offset >= len as u64 {
        len
    } else {
        let rem = len as u64 - offset;
        if size as u64 >= rem {
            len
        } else {
            (offset + size as u64) as usize
        }
    };
    let mut out: Vec<u8> = Vec::new();
    let mut i = start;
    while i < end
        invariant
            start <= i <= end <= data@.len(),
            out@ =~= data@.subrange(start as int, i as int),
        decreases end - i,
    {
        out.push(data[i]);
        proof {
            assert(out@ =~= data@.subrange(start as int, i + 1));
        }
        i = i + 1;
    }
    proof {
        assert(out@ =~= spec_slice(data@, offset, size));
    }
    out
}

/// Trim a range-taking producer's output to the requested size, so
/// that a bounded read never hands back more than it was asked for.
pub fn finish_precise(data: Vec<u8>, size: u32) -> (r: Vec<u8>)
    ensures
        r@ == if data@.len() <= size {
            data@
        } else {
            data@.subrange(0, size as int)
        },
        r@.len() <= size,
{
    let mut data = data;
    if data.len() > size as usize {
        data.truncate(size as usize);
    }
    data
}

/// What serving a bounded read needs next: either the bytes are
/// already here, or a producer must be driven first.
#[derive(Debug)]
pub enum ReadOutcome {
    /// The reply, sliced out of materialised bytes.
    Data(Vec<u8>),
    /// A pending request the runtime must drive; for a whole-output
    /// producer the runtime slices the result with `filtered_slice`,
    /// for a range-taking producer it trims with `finish_precise`.
    Pending(crate::filtrate::Filtrate),
}

impl Nodes {
    /// Serve a bounded read of the node `node_id`: directories are
    /// refused, materialised bytes are sliced at once, and a filter
    /// becomes a pending request for the runtime.
    pub fn read(&self, node_id: u64, offset: u64, size: u32) -> (r: Result<
        ReadOutcome,
        crate::error::Errno,
    >)
        requires
            inode_ok(self@, node_id),
        ensures
            match self@[node_id - 1].entry {
                None => r == Err::<ReadOutcome, crate::error::Errno>(crate::error::Errno::NoEnt),
                Some(EntryModel::Dir(_)) => r == Err::<ReadOutcome, crate::error::Errno>(
                    crate::error::Errno::NotDir,
                ),
                Some(EntryModel::Filtrated(b)) => r matches Ok(ReadOutcome::Data(d)) && d@
                    == spec_slice(b, offset, size),
                Some(EntryModel::Filter(t)) => r matches Ok(ReadOutcome::Pending(f)) && f == (
                crate::filtrate::Filtrate { token: t, range: None::<(u64, u32)> }),
                Some(EntryModel::PreciseFilter(t)) => r matches Ok(ReadOutcome::Pending(f)) && f
                    == (crate::filtrate::Filtrate { token: t, range: Some((offset, size)) }),
            },
    {
        let _arena_len = self.nodes.len();
        let idx = (node_id - 1) as usize;
        proof {
            assert(idx == node_id - 1);
        }
        let node = &self.nodes[idx];
        match &node.entry {
            None => Err(crate::error::Errno::NoEnt),
            Some(Entry::Dir(_)) => Err(crate::error::Errno::NotDir),
            Some(Entry::Filtrated(b)) => Ok(ReadOutcome::Data(filtered_slice(b, offset, size))),
            Some(Entry::Filter(f)) => Ok(ReadOutcome::Pending(f.filtrate())),
            Some(Entry::PreciseFilter(f)) => Ok(ReadOutcome::Pending(f.filtrate(offset, size))),
        }
    }

    /// The absolute path of `inode`, reconstructed by walking parents.
    pub fn path_of_inode(&self, inode: u64) -> (r: Result<String, NoSuchNode>)
        requires
            self.wf(),
        ensures
            inode_ok(self@, inode) ==> (r matches Ok(p) && p@ == spec_path_of(self@, inode)),
            !inode_ok(self@, inode) ==> r == Err::<String, NoSuchNode>(NoSuchNode(inode)),
    {
        if !(1 <= inode && inode <= self.nodes.len() as u64) {
            return Err(NoSuchNode(inode));
        }
        if inode == 1 {
            let mut s = String::new();
            s.append("/");
            proof {
                reveal_strlit("/");
                assert(s@ =~= spec_path_of(self@, 1));
            }
            return Ok(s);
        }
        let ghost v = self@;
        let mut names: Vec<String> = Vec::new();
        let ghost mut gnames: Seq<Seq<char>> = Seq::empty();
        let mut cur: u64 = inode;
        proof {
            assert(spec_flatten_rev(gnames) =~= Seq::<char>::empty());
            assert(spec_rel_path(v, inode) =~= spec_rel_path(v, cur) + spec_flatten_rev(gnames));
        }
        while cur != 1
            invariant
                nodes_wf(v),
                self@ == v,
                inode_ok(v, cur),
                gnames.len() == names@.len(),
                forall|j: int| 0 <= j < gnames.len() ==> gnames[j] == names@[j]@,
                spec_rel_path(v, inode) == spec_rel_path(v, cur) + spec_flatten_rev(gnames),
            decreases cur,
        {
            proof {
                assert(node_ok(v, cur));
            }
            let _arena_len = self.nodes.len();
            let idx = (cur - 1) as usize;
            proof {
                assert(idx == cur - 1);
            }
            let ghost gprev = gnames;
            names.push(self.nodes[idx].name.clone());
            proof {
                gnames = gprev.push(v[cur - 1].name);
            }
            let prev = cur;
            cur = self.nodes[idx].parent;
            proof {
                assert(gnames.drop_last() =~= gprev);
                assert(gnames.last() == v[prev - 1].name);
                assert(spec_flatten_rev(gnames) =~= seq!['/'] + v[prev - 1].name
                    + spec_flatten_rev(gprev));
                assert(spec_rel_path(v, prev) == spec_rel_path(v, cur) + seq!['/'] + v[prev
                    - 1].name);
                assert(spec_rel_path(v, inode) =~= spec_rel_path(v, cur) + spec_flatten_rev(
                    gnames,
                ));
            }
        }
        proof {
            assert(spec_rel_path(v, 1) =~= Seq::<char>::empty());
            assert(spec_rel_path(v, inode) =~= spec_flatten_rev(gnames));
        }
        let mut out = String::new();
        let mut i = names.len();
        proof {
            assert(gnames.subrange(0, i as int) =~= gnames);
        }
        while i > 0
            invariant
                i <= names@.len(),
                gnames.len() == names@.len(),
                forall|j: int| 0 <= j < gnames.len() ==> gnames[j] == names@[j]@,
                spec_flatten_rev(gnames) == out@ + spec_flatten_rev(gnames.subrange(0, i as int)),
            decreases i,
        {
            i = i - 1;
            out.append("/");
            out.append(names[i].as_str());
            proof {
                reveal_strlit("/");
                let pre = gnames.subrange(0, i + 1);
                assert(pre.last() == gnames[i as int]);
                assert(pre.drop_last() =~= gnames.subrange(0, i as int));
                assert(spec_flatten_rev(pre) =~= seq!['/'] + gnames[i as int] + spec_flatten_rev(
                    gnames.subrange(0, i as int),
                ));
                assert(spec_flatten_rev(gnames) =~= out@ + spec_flatten_rev(
                    gnames.subrange(0, i as int),
                ));
            }
        }
        proof {
            assert(gnames.subrange(0, 0) =~= Seq::<Seq<char>>::empty());
            assert(spec_flatten_rev(gnames.subrange(0, 0)) =~= Seq::<char>::empty());
            assert(out@ =~= spec_path_of(self@, inode));
        }
        Ok(out)
    }
}

impl Default for Nodes {
    /// An arena holding only the root directory, created at the
    /// epoch.
    fn default() -> (r: Nodes)
        ensures
            r@ == Nodes::spec_initial(Timestamp { sec: 0, nsec: 0 }),
            r.wf(),
    {
        Nodes::new(Timestamp::new(0, 0))
    }
}

/// Whether the arena accepts one handed-over pair as it stands: a
/// proper name, a listing created empty, and room left in the inode
/// space.
pub open spec fn spec_pair_accepted(v: Seq<NodeModel>, p: (Seq<char>, EntryModel)) -> bool {
    &&& valid_name_seq(p.0)
    &&& (p.1 matches EntryModel::Dir(l) ==> l.len() == 0)
    &&& v.len() < u64::MAX - 3
}

/// The arena after linking a whole handed-over listing below
/// `parent`, in order: accepted pairs are linked (a failing link
/// leaves the arena as it was), the rest are skipped.
pub open spec fn spec_apply_listing(
    v: Seq<NodeModel>,
    parent: u64,
    pairs: Seq<(Seq<char>, EntryModel)>,
    now: Timestamp,
) -> Seq<NodeModel>
    decreases pairs.len(),
{
    if pairs.len() == 0 {
        v
    } else {
        let v1 = if spec_pair_accepted(v, pairs[0]) {
            spec_link_entry(v, parent, pairs[0].0, pairs[0].1, now).0
        } else {
            v
        };
        spec_apply_listing(v1, parent, pairs.drop_first(), now)
    }
}

impl Nodes {
    /// Link one handed-over listing below `parent`, in order: pairs
    /// the arena must refuse (an improper name, a non-empty listing,
    /// no room left) are skipped, as is any pair whose link fails, so
    /// one bad pair cannot deny the rest.
    pub fn apply_listing(&mut self, parent: u64, listing: Vec<(String, Entry)>, now: Timestamp)
        requires
            old(self).wf(),
            inode_ok(old(self)@, parent),
        ensures
            final(self).wf(),
            evolves(old(self)@, final(self)@),
            final(self)@ == spec_apply_listing(
                old(self)@,
                parent,
                crate::entry::pairs_model(listing@),
                now,
            ),
    {
        let ghost v0 = self@;
        let ghost all = crate::entry::pairs_model(listing@);
        let mut listing = listing;
        proof {
            lemma_evolves_refl(v0);
        }
        while listing.len() > 0
            invariant
                self.wf(),
                inode_ok(self@, parent),
                evolves(v0, self@),
                spec_apply_listing(v0, parent, all, now) == spec_apply_listing(
                    self@,
                    parent,
                    crate::entry::pairs_model(listing@),
                    now,
                ),
            decreases listing@.len(),
        {
            let ghost vpre = self@;
            let ghost pairs = crate::entry::pairs_model(listing@);
            let (name, entry) = listing.remove(0);
            proof {
                assert(pairs[0] == (name@, entry@));
                assert(crate::entry::pairs_model(listing@) =~= pairs.drop_first());
            }
            let name_ok = crate::pathname::check_name(name.as_str());
            let entry_ok = match &entry {
                Entry::Dir(d) => d.len() == 0,
                _ => true,
            };
            let room = (self.node_count() as u64) < u64::MAX - 3;
            if name_ok && entry_ok && room {
                let _ = self.link_entry(parent, name, entry, now);
                proof {
                    lemma_evolves_trans(v0, vpre, self@);
                }
            } else {
                proof {
                    assert(!spec_pair_accepted(vpre, pairs[0]));
                }
            }
        }
        proof {
            assert(crate::entry::pairs_model(listing@) =~= Seq::<(Seq<char>, EntryModel)>::empty());
        }
    }
}

/// The mathematical content of a `DirEntryPlus`.
pub struct DirEntryModel {
    pub inode: u64,
    pub generation: u64,
    pub kind: FileType,
    pub name: Seq<char>,
    pub offset: u64,
    pub attr: FileAttr,
}

/// One directory entry of a paginated listing reply, attributes
/// included.
#[derive(Debug)]
pub struct DirEntryPlus {
    pub inode: u64,
    pub generation: u64,
    pub kind: FileType,
    pub name: String,
    /// The opaque resume cookie of the entry after this one.
    pub offset: u64,
    pub attr: FileAttr,
}

impl View for DirEntryPlus {
    type V = DirEntryModel;

    open spec fn view(&self) -> DirEntryModel {
        DirEntryModel {
            inode: self.inode,
            generation: self.generation,
            kind: self.kind,
            name: self.name@,
            offset: self.offset,
            attr: self.attr,
        }
    }
}

/// The listing entry reported for the node `ino` under `name`, with
/// the resume cookie `off`.
pub open spec fn spec_dirent(v: Seq<NodeModel>, ino: u64, name: Seq<char>, off: u64) -> DirEntryModel {
    DirEntryModel {
        inode: ino,
        generation: v[ino - 1].generation,
        kind: match v[ino - 1].entry {
            Some(e) => spec_kind(e),
            None => FileType::RegularFile,
        },
        name,
        offset: off,
        attr: spec_attr(v[ino - 1], ino),
    }
}

/// The whole (unpaginated) listing reply for the directory `parent`:
/// `.`, then `..` (the root is its own parent), then each listed child
/// in listing order, with resume cookies counted from one.
pub open spec fn spec_readdir_full(v: Seq<NodeModel>, parent: u64) -> Seq<DirEntryModel> {
    let pp = if parent == 1 {
        1u64
    } else {
        v[parent - 1].parent
    };
    let l = v[parent - 1].entry->Some_0->Dir_0;
    seq![
        spec_dirent(v, parent, crate::pathname::dot_seg(), 1),
        spec_dirent(v, pp, crate::pathname::dot_dot_seg(), 2),
    ] + Seq::new(l.len(), |k: int| spec_dirent(v, l[k].1, l[k].0, (k + 3) as u64))
}

/// A sound listing cannot outgrow the arena: its values are pairwise
/// distinct inodes (each determines its name), all within the arena.
pub proof fn lemma_listing_len(v: Seq<NodeModel>, pino: u64, l: Seq<(Seq<char>, u64)>)
    requires
        listing_ok(v, pino, l),
    ensures
        l.len() <= v.len(),
{
    let ids = Seq::new(l.len(), |k: int| l[k].1 as int);
    assert(ids.no_duplicates()) by {
        assert forall|i: int, j: int|
            0 <= i < ids.len() && 0 <= j < ids.len() && i != j implies ids[i] != ids[j] by {
            assert(listing_pair_ok(v, pino, l[i]));
            assert(listing_pair_ok(v, pino, l[j]));
            if l[i].1 == l[j].1 {
                assert(l[i].0 == v[l[i].1 - 1].name);
                assert(l[j].0 == v[l[j].1 - 1].name);
                if i < j {
                    assert(l[i].0 != l[j].0);
                } else {
                    assert(l[j].0 != l[i].0);
                }
            }
        }
    }
    ids.unique_seq_to_set();
    let range = vstd::set_lib::set_int_range(1, v.len() as int + 1);
    assert(ids.to_set().subset_of(range)) by {
        assert forall|x: int| ids.to_set().contains(x) implies range.contains(x) by {
            let k = choose|k: int| 0 <= k < ids.len() && ids[k] == x;
            assert(listing_pair_ok(v, pino, l[k]));
        }
    }
    vstd::set_lib::lemma_int_range(1, v.len() as int + 1);
    vstd::set_lib::lemma_len_subset(ids.to_set(), range);
}

impl Nodes {
    /// The paginated listing reply for the directory `parent`: the
    /// entries of `spec_readdir_full` with the first `offset` dropped.
    pub fn readdir_plus(&self, parent: u64, offset: u64) -> (r: Result<
        Vec<DirEntryPlus>,
        crate::error::Errno,
    >)
        requires
            self.wf(),
        ensures
            !inode_ok(self@, parent) ==> r == Err::<Vec<DirEntryPlus>, crate::error::Errno>(
                crate::error::Errno::NoEnt,
            ),
            inode_ok(self@, parent) && !(self@[parent - 1].entry matches Some(EntryModel::Dir(_)))
                ==> r == Err::<Vec<DirEntryPlus>, crate::error::Errno>(crate::error::Errno::NotDir),
            inode_ok(self@, parent) && (self@[parent - 1].entry matches Some(EntryModel::Dir(_)))
                ==> (r matches Ok(es) && {
                let full = spec_readdir_full(self@, parent);
                &&& es@.len() == if offset <= full.len() {
                    full.len() - offset
                } else {
                    0
                }
                &&& forall|j: int| 0 <= j < es@.len() ==> (#[trigger] es@[j])@ == full[offset + j]
            }),
    {
        let ghost v = self@;
        let parent = match self.node_id(parent) {
            Ok(id) => id,
            Err(e) => {
                return Err(e);
            },
        };
        proof {
            assert(node_ok(v, parent));
        }
        let (pattr, pgen) = match self.attr_for_node_id(parent) {
            Ok(p) => p,
            Err(e) => {
                return Err(e);
            },
        };
        match pattr.kind {
            FileType::Directory => {},
            FileType::RegularFile => {
                return Err(crate::error::Errno::NotDir);
            },
        }
        let _arena_len = self.nodes.len();
        let pidx = (parent - 1) as usize;
        proof {
            assert(pidx == parent - 1);
        }
        let pp = if parent == 1 {
            1u64
        } else {
            self.nodes[pidx].parent
        };
        proof {
            assert(node_ok(v, pp));
        }
        let (ppattr, ppgen) = match self.attr_for_node_id(pp) {
            Ok(p) => p,
            Err(_) => {
                proof {
                    assert(false);
                }
                return Err(crate::error::Errno::NoEnt);
            },
        };
        let ghost full = spec_readdir_full(v, parent);
        let mut es: Vec<DirEntryPlus> = Vec::new();
        if offset < 1 {
            let mut dot = String::new();
            dot.append(".");
            proof {
                reveal_strlit(".");
                assert(dot@ =~= crate::pathname::dot_seg());
            }
            es.push(
                DirEntryPlus {
                    inode: parent,
                    generation: pgen,
                    kind: FileType::Directory,
                    name: dot,
                    offset: 1,
                    attr: pattr,
                },
            );
        }
        if offset < 2 {
            let mut dotdot = String::new();
            dotdot.append("..");
            proof {
                reveal_strlit("..");
                assert(dotdot@ =~= crate::pathname::dot_dot_seg());
            }
            es.push(
                DirEntryPlus {
                    inode: pp,
                    generation: ppgen,
                    kind: ppattr.kind,
                    name: dotdot,
                    offset: 2,
                    attr: ppattr,
                },
            );
        }
        proof {
            assert(full[0] == spec_dirent(v, parent, crate::pathname::dot_seg(), 1));
            assert(full[1] == spec_dirent(
                v,
                if parent == 1 {
                    1u64
                } else {
                    v[parent - 1].parent
                },
                crate::pathname::dot_dot_seg(),
                2,
            ));
        }
        let d = match &self.nodes[pidx].entry {
            Some(Entry::Dir(d)) => d,
            _ => {
                proof {
                    assert(false);
                }
                return Err(crate::error::Errno::NotDir);
            },
        };
        let ghost l = v[parent - 1].entry->Some_0->Dir_0;
        proof {
            assert(d@ == l);
            assert(listing_ok(v, parent, l));
        }
        let count = d.len();
        proof {
            lemma_listing_len(v, parent, l);
        }
        for k in 0..count
            invariant
                l.len() + 3 <= u64::MAX,
                nodes_wf(v),
                self@ == v,
                inode_ok(v, parent),
                d@ == l,
                count == l.len(),
                v[parent - 1].entry == Some(EntryModel::Dir(l)),
                full == spec_readdir_full(v, parent),
                full.len() == l.len() + 2,
                forall|k2: int| 0 <= k2 < l.len() ==> listing_pair_ok(v, parent, #[trigger] l[k2]),
                forall|k2: int| 0 <= k2 < l.len() ==> #[trigger] full[k2 + 2] == spec_dirent(
                    v,
                    l[k2].1,
                    l[k2].0,
                    (k2 + 3) as u64,
                ),
                es@.len() == if offset <= 2 + k {
                    2 + k - offset
                } else {
                    0
                },
                forall|j: int| 0 <= j < es@.len() ==> (#[trigger] es@[j])@ == full[offset + j],
        {
            let (cname, cid) = d.item_at(k);
            proof {
                assert(listing_pair_ok(v, parent, l[k as int]));
            }
            let (cattr, cgen) = match self.attr_for_node_id(cid) {
                Ok(p) => p,
                Err(_) => {
                    proof {
                        assert(false);
                    }
                    return Err(crate::error::Errno::NoEnt);
                },
            };
            if (k as u64) + 3 > offset {
                es.push(
                    DirEntryPlus {
                        inode: cid,
                        generation: cgen,
                        kind: cattr.kind,
                        name: cname,
                        offset: (k as u64) + 3,
                        attr: cattr,
                    },
                );
                proof {
                    assert(es@.last()@ == full[k + 2]);
                }
            }
        }
        Ok(es)
    }
}

/// A child found by lookup sits strictly above its parent, below the
/// arena end, is linked, is not the root, and bears the looked-up
/// name.
pub proof fn lemma_listed_child_props(v: Seq<NodeModel>, id: u64, c: u64, name: Seq<char>)
    requires
        nodes_wf(v),
        inode_ok(v, id),
        spec_basic_lookup(v, id, name) == Ok::<u64, LookupErr>(c),
    ensures
        inode_ok(v, c),
        c != 1,
        v[c - 1].parent == id,
        v[c - 1].name == name,
        v[c - 1].entry is Some,
{
    assert(node_ok(v, id));
    let l = v[id - 1].entry->Some_0->Dir_0;
    lemma_dir_lookup_exists(l, name);
    let k = choose|k: int| 0 <= k < l.len() && l[k] == (name, c);
    assert(v[l[k].1 - 1].parent == id);
    if c == 1 {
        assert(node_ok(v, 1));
    }
}

/// Re-linking a listed child in place preserves the arena invariant.
proof fn lemma_relink_wf(
    v: Seq<NodeModel>,
    id: u64,
    l: Seq<(Seq<char>, u64)>,
    c: u64,
    name: Seq<char>,
    e: EntryModel,
    now: Timestamp,
)
    requires
        nodes_wf(v),
        inode_ok(v, id),
        v[id - 1].entry == Some(EntryModel::Dir(l)),
        dir_lookup(l, name) == Some(c),
        inode_ok(v, c),
        valid_name_seq(name),
        (e matches EntryModel::Dir(le) ==> le.len() == 0),
    ensures
        nodes_wf(v.update(c - 1, spec_link(v[c - 1], name, e, now))),
        evolves(v, v.update(c - 1, spec_link(v[c - 1], name, e, now))),
{
    assert(spec_basic_lookup(v, id, name) == Ok::<u64, LookupErr>(c));
    lemma_listed_child_props(v, id, c, name);
    let v2 = v.update(c - 1, spec_link(v[c - 1], name, e, now));
    assert(node_ok(v, c));
    assert forall|ino: u64| inode_ok(v2, ino) implies #[trigger] node_ok(v2, ino) by {
        assert(inode_ok(v, ino));
        assert(node_ok(v, ino));
        if ino == c {
            match e {
                EntryModel::Dir(le) => {
                    assert(listing_ok(v2, c, le));
                },
                _ => {},
            }
            assert(node_ok(v2, c));
        } else {
            assert(v2[ino - 1] == v[ino - 1]);
            match v[ino - 1].entry {
                Some(EntryModel::Dir(l2)) => {
                    assert(listing_ok(v, ino, l2));
                    assert forall|k: int| 0 <= k < l2.len() implies listing_pair_ok(
                        v2,
                        ino,
                        #[trigger] l2[k],
                    ) by {
                        assert(listing_pair_ok(v, ino, l2[k]));
                        let cid = l2[k].1;
                        if cid == c {
                            assert(v[c - 1].parent == ino);
                            assert(ino == id);
                            assert(l2[k].0 == v[c - 1].name);
                            assert(v2[c - 1].name == name);
                        }
                    }
                    assert(listing_ok(v2, ino, l2));
                },
                _ => {},
            }
            assert(node_ok(v2, ino));
        }
    }
}

/// Creating, listing and linking a fresh child preserves the arena
/// invariant.
proof fn lemma_new_child_wf(
    v: Seq<NodeModel>,
    id: u64,
    l: Seq<(Seq<char>, u64)>,
    name: Seq<char>,
    e: EntryModel,
    now: Timestamp,
)
    requires
        nodes_wf(v),
        v.len() < u64::MAX - 3,
        inode_ok(v, id),
        v[id - 1].entry == Some(EntryModel::Dir(l)),
        valid_name_seq(name),
        (e matches EntryModel::Dir(le) ==> le.len() == 0),
    ensures
        nodes_wf(spec_link_new_child(v, id, l, name, e, now)),
        evolves(v, spec_link_new_child(v, id, l, name, e, now)),
{
    let n0 = (v.len() + 1) as u64;
    let v3 = spec_link_new_child(v, id, l, name, e, now);
    let l2 = dir_update(l, name, n0);
    assert(node_ok(v, id));
    assert(listing_ok(v, id, l));
    lemma_dir_lookup_exists(l, name);
    if dir_lookup(l, name) is Some {
        let k0 = choose|k: int| 0 <= k < l.len() && l[k].0 == name;
        lemma_dir_update_found(l, name, n0, k0);
    } else {
        lemma_dir_update_missing(l, name, n0);
    }
    assert(dir_keys_unique(l2)) by {
        if dir_lookup(l, name) is Some {
            let k0 = choose|k: int| 0 <= k < l.len() && l[k].0 == name;
            assert(l2 =~= l.update(k0, (name, n0)));
            assert forall|x: int, y: int| 0 <= x < y < l2.len() implies l2[x].0 != l2[y].0 by {
                if x != k0 && y != k0 {
                    assert(l2[x] == l[x] && l2[y] == l[y]);
                } else if x == k0 {
                    assert(l2[y] == l[y] && l[y].0 != l[k0].0);
                } else {
                    assert(l2[x] == l[x] && l[x].0 != l[k0].0);
                }
            }
        } else {
            assert(l2 =~= l + seq![(name, n0)]);
            assert forall|x: int, y: int| 0 <= x < y < l2.len() implies l2[x].0 != l2[y].0 by {
                if y == l.len() {
                    assert(l2[x] == l[x]);
                    assert(l[x].0 != name);
                } else {
                    assert(l2[x] == l[x] && l2[y] == l[y]);
                }
            }
        }
    }
    assert(listing_ok(v3, id, l2)) by {
        assert forall|k: int| 0 <= k < l2.len() implies listing_pair_ok(v3, id, #[trigger] l2[k]) by {
            if l2[k] == (name, n0) {
                assert(v3[n0 - 1] == spec_link(spec_stub(id), name, e, now));
            } else {
                // an untouched old mapping
                if dir_lookup(l, name) is Some {
                    let k0 = choose|kk: int| 0 <= kk < l.len() && l[kk].0 == name;
                    assert(l2 =~= l.update(k0, (name, n0)));
                    assert(k != k0);
                    assert(l2[k] == l[k]);
                } else {
                    assert(l2 =~= l + seq![(name, n0)]);
                    if k == l.len() {
                        assert(l2[k] == (name, n0));
                    }
                    assert(l2[k] == l[k]);
                }
                assert(listing_pair_ok(v, id, l[k]));
                let cid = l[k].1;
                assert(id < cid) by {
                    assert(node_ok(v, cid));
                }
                assert(cid != n0 && cid != id);
                assert(v3[cid - 1] == v[cid - 1]);
            }
        }
    }
    assert forall|ino: u64| inode_ok(v3, ino) implies #[trigger] node_ok(v3, ino) by {
        if ino == n0 {
            assert(v3[n0 - 1] == spec_link(spec_stub(id), name, e, now));
            match e {
                EntryModel::Dir(le) => {
                    assert(listing_ok(v3, n0, le));
                },
                _ => {},
            }
            assert(node_ok(v3, ino));
        } else {
            assert(inode_ok(v, ino));
            assert(node_ok(v, ino));
            if ino == id {
                assert(v3[id - 1].entry == Some(EntryModel::Dir(l2)));
                assert(v3[id - 1].parent == v[id - 1].parent);
                assert(v3[id - 1].name == v[id - 1].name);
                assert(v3[id - 1].generation == v[id - 1].generation);
                assert(node_ok(v3, ino));
            } else {
                assert(v3[ino - 1] == v[ino - 1]);
                match v[ino - 1].entry {
                    Some(EntryModel::Dir(l4)) => {
                        assert(listing_ok(v, ino, l4));
                        assert forall|k: int| 0 <= k < l4.len() implies listing_pair_ok(
                            v3,
                            ino,
                            #[trigger] l4[k],
                        ) by {
                            assert(listing_pair_ok(v, ino, l4[k]));
                            let cid = l4[k].1;
                            assert(cid != n0);
                            if cid == id {
                                assert(v3[id - 1].parent == v[id - 1].parent);
                                assert(v3[id - 1].name == v[id - 1].name);
                            } else {
                                assert(v3[cid - 1] == v[cid - 1]);
                            }
                        }
                        assert(listing_ok(v3, ino, l4));
                    },
                    _ => {},
                }
                assert(node_ok(v3, ino));
            }
        }
    }
}

/// Linking preserves the arena invariant and only grows the tree.
pub proof fn lemma_link_entry_wf(
    v: Seq<NodeModel>,
    id: u64,
    name: Seq<char>,
    e: EntryModel,
    now: Timestamp,
)
    requires
        nodes_wf(v),
        v.len() < u64::MAX - 3,
        inode_ok(v, id),
        crate::pathname::valid_name_seq(name),
        (e matches EntryModel::Dir(l) ==> l.len() == 0),
    ensures
        nodes_wf(spec_link_entry(v, id, name, e, now).0),
        evolves(v, spec_link_entry(v, id, name, e, now).0),
{
    assert(node_ok(v, id));
    match v[id - 1].entry {
        None => {},
        Some(EntryModel::Dir(l)) => {
            match dir_lookup(l, name) {
                Some(c) => {
                    if inode_ok(v, c) {
                        lemma_listed_child_props(v, id, c, name);
                        lemma_relink_wf(v, id, l, c, name, e, now);
                    } else {
                        lemma_new_child_wf(v, id, l, name, e, now);
                    }
                },
                None => {
                    lemma_new_child_wf(v, id, l, name, e, now);
                },
            }
        },
        Some(_) => {},
    }
}

} // verus!
