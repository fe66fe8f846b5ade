//! The facade: one `Effs` per mount, owning the node arena and the
//! ordered list of sources.
//!
//! Sources are consulted in insertion order; when two sources supply
//! the same name under one parent the later link wins by re-linking
//! the same child, so the child's inode is stable and its generation
//! grows.  The protocol surface mirrors the kernel callbacks: lookup,
//! getattr, readdirplus, open and read over the arena.

use vstd::prelude::*;

use crate::attr::FileAttr;
use crate::attr::Timestamp;
use crate::entry::EntryModel;
use crate::error::Errno;
use crate::error::Error;
use crate::node::DirEntryPlus;
use crate::node::LookupErr;
use crate::node::NodeModel;
use crate::node::Nodes;
use crate::node::ReadOutcome;
use crate::node::evolves;
use crate::node::inode_ok;
use crate::node::lemma_evolves_refl;
use crate::node::lemma_evolves_trans;
use crate::node::lookup_err_matches;
use crate::node::nodes_wf;
use crate::node::spec_attr;
use crate::node::spec_basic_lookup;
use crate::node::spec_lookup_errno;
use crate::node::spec_path_of;
use crate::node::spec_readdir_full;
use crate::node::spec_slice;
use crate::pathname::dot_dot_seg;
use crate::pathname::dot_seg;
use crate::pathname::lemma_seg_end_unique;
use crate::pathname::segments;
use crate::pathname::segments_from;
use crate::pathname::str_eq;
use crate::traits::EffsSource;

verus! {

/// Where the walk of `segs` from the node `cur` ends in the arena
/// `v`: a `.` or `..` segment stops the walk (callers are required to
/// hand in normalized paths), a failing lookup fails it.
pub open spec fn spec_resolve(v: Seq<NodeModel>, segs: Seq<Seq<char>>, cur: u64) -> Result<
    u64,
    LookupErr,
>
    decreases segs.len(),
{
    if segs.len() == 0 {
        Ok(cur)
    } else if segs[0] == dot_seg() || segs[0] == dot_dot_seg() {
        Ok(cur)
    } else {
        match spec_basic_lookup(v, cur, segs[0]) {
            Ok(c) => spec_resolve(v, segs.drop_first(), c),
            Err(m) => Err(m),
        }
    }
}

/// The facade: the arena plus the ordered sources that populate it.
pub struct Effs<S> {
    sources: Vec<S>,
    nodes: Nodes,
}

impl<S> Effs<S> {
    /// The arena's model.
    pub closed spec fn nodes_view(&self) -> Seq<NodeModel> {
        self.nodes@
    }

    /// How many sources have been pushed.
    pub closed spec fn spec_source_count(&self) -> nat {
        self.sources@.len()
    }

    /// The facade's invariant: its arena is sound.
    pub open spec fn wf(&self) -> bool {
        nodes_wf(self.nodes_view())
    }

    /// A facade over a fresh arena created at `now`, with no sources.
    pub fn new(now: Timestamp) -> (r: Effs<S>)
        ensures
            r.wf(),
            r.nodes_view() == Nodes::spec_initial(now),
            r.spec_source_count() == 0,
    {
        Effs { sources: Vec::new(), nodes: Nodes::new(now) }
    }

    /// Append a source; later sources win name collisions during
    /// population.
    pub fn push_source(&mut self, source: S)
        ensures
            final(self).nodes_view() == old(self).nodes_view(),
            final(self).spec_source_count() == old(self).spec_source_count() + 1,
    {
        self.sources.push(source);
    }

    /// The advertised largest write payload.
    pub fn init(&self) -> (r: u32)
        ensures
            r == 1024,
    {
        1024
    }

    /// The absolute path of `inode`.
    pub fn path_of_inode(&self, inode: u64) -> (r: Result<String, Error>)
        requires
            self.wf(),
        ensures
            inode_ok(self.nodes_view(), inode) ==> (r matches Ok(p) && p@ == spec_path_of(
                self.nodes_view(),
                inode,
            )),
            !inode_ok(self.nodes_view(), inode) ==> (r matches Err(e) && e matches
                Error::NoSuchNode(n) && n == crate::error::NoSuchNode(inode)),
    {
        match self.nodes.path_of_inode(inode) {
            Ok(p) => Ok(p),
            Err(e) => Err(Error::NoSuchNode(e)),
        }
    }

    /// Resolve a path to a node id, walking name segments from the
    /// root; leading and repeated separators are ignored.
    pub fn path_to_node_id(&self, path: &str) -> (r: Result<u64, Error>)
        requires
            self.wf(),
        ensures
            match spec_resolve(self.nodes_view(), segments(path@), 1) {
                Ok(c) => r matches Ok(c2) && c2 == c && inode_ok(self.nodes_view(), c),
                Err(m) => r matches Err(Error::NodeLookupError(e)) && lookup_err_matches(e, m),
            },
    {
        let ghost v = self.nodes_view();
        let n = path.unicode_len();
        let mut cur: u64 = 1;
        let mut i: usize = 0;
        proof {
            assert(inode_ok(v, 1));
        }
        loop
            invariant
                nodes_wf(v),
                v == self.nodes_view(),
                i <= n,
                n == path@.len(),
                inode_ok(v, cur),
                spec_resolve(v, segments(path@), 1) == spec_resolve(
                    v,
                    segments_from(path@, i as int),
                    cur,
                ),
            decreases n - i,
        {
            let ghost i_in = i;
            while i < n && path.get_char(i) == '/'
                invariant
                    i_in <= i <= n,
                    n == path@.len(),
                    spec_resolve(v, segments(path@), 1) == spec_resolve(
                        v,
                        segments_from(path@, i as int),
                        cur,
                    ),
                decreases n - i,
            {
                proof {
                    assert(segments_from(path@, i as int) == segments_from(path@, i + 1));
                }
                i = i + 1;
            }
            if i >= n {
                proof {
                    assert(segments_from(path@, i as int) =~= Seq::<Seq<char>>::empty());
                }
                return Ok(cur);
            }
            let start = i;
            while i < n && path.get_char(i) != '/'
                invariant
                    start <= i <= n,
                    n == path@.len(),
                    forall|k: int| start <= k < i ==> path@[k] != '/',
                decreases n - i,
            {
                i = i + 1;
            }
            proof {
                assert(i != start);
            }
            proof {
                lemma_seg_end_unique(path@, start + 1, i as int);
            }
            let seg = path.substring_char(start, i);
            let ghost segs_here = segments_from(path@, start as int);
            proof {
                assert(segs_here == seq![path@.subrange(start as int, i as int)] + segments_from(
                    path@,
                    i as int,
                ));
                assert(segs_here[0] == seg@);
                assert(segs_here.drop_first() =~= segments_from(path@, i as int));
            }
            if str_eq(seg, ".") {
                proof {
                    reveal_strlit(".");
                    assert(seg@ =~= dot_seg());
                }
                return Ok(cur);
            }
            if str_eq(seg, "..") {
                proof {
                    reveal_strlit("..");
                    assert(seg@ =~= dot_dot_seg());
                }
                return Ok(cur);
            }
            proof {
                assert(seg@ != dot_seg() && seg@ != dot_dot_seg()) by {
                    reveal_strlit(".");
                    reveal_strlit("..");
                    assert("."@ =~= dot_seg());
                    assert(".."@ =~= dot_dot_seg());
                }
            }
            match self.nodes.basic_lookup_node_id_name(cur, seg) {
                Ok(c) => {
                    cur = c;
                },
                Err(e) => {
                    return Err(Error::NodeLookupError(e));
                },
            }
        }
    }

    /// Look up `(parent, name)` and report the child's attributes and
    /// generation.
    pub fn lookup(&self, parent: u64, name: &str) -> (r: Result<(FileAttr, u64), Errno>)
        requires
            self.wf(),
        ensures
            !inode_ok(self.nodes_view(), parent) ==> r == Err::<(FileAttr, u64), Errno>(
                Errno::NoEnt,
            ),
            inode_ok(self.nodes_view(), parent) ==> match spec_basic_lookup(
                self.nodes_view(),
                parent,
                name@,
            ) {
                Ok(c) => r == Ok::<(FileAttr, u64), Errno>(
                    (
                        spec_attr(self.nodes_view()[c - 1], c),
                        self.nodes_view()[c - 1].generation,
                    ),
                ),
                Err(m) => r == Err::<(FileAttr, u64), Errno>(spec_lookup_errno(m)),
            },
    {
        let pid = match self.nodes.node_id(parent) {
            Ok(id) => id,
            Err(e) => {
                return Err(e);
            },
        };
        let cid = match self.nodes.lookup_node_id_name(pid, name) {
            Ok(c) => c,
            Err(e) => {
                return Err(e);
            },
        };
        proof {
            crate::node::lemma_listed_child_props(self.nodes_view(), parent, cid, name@);
        }
        self.nodes.attr_for_node_id(cid)
    }

    /// The attributes of `inode`.
    pub fn getattr(&self, inode: u64) -> (r: Result<FileAttr, Errno>)
        ensures
            !inode_ok(self.nodes_view(), inode) ==> r == Err::<FileAttr, Errno>(Errno::NoEnt),
            inode_ok(self.nodes_view(), inode) ==> match self.nodes_view()[inode - 1].entry {
                None => r == Err::<FileAttr, Errno>(Errno::NoEnt),
                Some(_) => r == Ok::<FileAttr, Errno>(
                    spec_attr(self.nodes_view()[inode - 1], inode),
                ),
            },
    {
        match self.nodes.attr_for_inode(inode) {
            Ok((attr, _)) => Ok(attr),
            Err(e) => Err(e),
        }
    }

    /// The paginated listing of the directory `parent`, `.` and `..`
    /// first.
    pub fn readdirplus(&self, parent: u64, offset: u64) -> (r: Result<Vec<DirEntryPlus>, Errno>)
        requires
            self.wf(),
        ensures
            !inode_ok(self.nodes_view(), parent) ==> r == Err::<Vec<DirEntryPlus>, Errno>(
                Errno::NoEnt,
            ),
            inode_ok(self.nodes_view(), parent) && !(self.nodes_view()[parent - 1].entry matches
                Some(EntryModel::Dir(_))) ==> r == Err::<Vec<DirEntryPlus>, Errno>(Errno::NotDir),
            inode_ok(self.nodes_view(), parent) && (self.nodes_view()[parent - 1].entry matches
                Some(EntryModel::Dir(_))) ==> (r matches Ok(es) && {
                let full = spec_readdir_full(self.nodes_view(), parent);
                &&& es@.len() == if offset <= full.len() {
                    full.len() - offset
                } else {
                    0
                }
                &&& forall|j: int| 0 <= j < es@.len() ==> (#[trigger] es@[j])@ == full[offset + j]
            }),
    {
        self.nodes.readdir_plus(parent, offset)
    }

    /// Open `inode`: handles are stateless (always zero) and direct
    /// input/output is forced so the kernel neither caches nor
    /// prefetches.
    pub fn open(&self, inode: u64, flags: u32) -> (r: Result<(u64, u32), Errno>)
        ensures
            inode_ok(self.nodes_view(), inode) ==> r == Ok::<(u64, u32), Errno>(
                (0u64, flags | 1u32),
            ),
            !inode_ok(self.nodes_view(), inode) ==> r == Err::<(u64, u32), Errno>(Errno::NoEnt),
    {
        match self.nodes.node_id(inode) {
            Ok(_) => Ok((0, flags | 1)),
            Err(e) => Err(e),
        }
    }

    /// Serve a bounded read of `inode`: either sliced bytes or the
    /// pending producer request the runtime must drive.
    pub fn read(&self, inode: u64, offset: u64, size: u32) -> (r: Result<ReadOutcome, Errno>)
        ensures
            !inode_ok(self.nodes_view(), inode) ==> r == Err::<ReadOutcome, Errno>(Errno::NoEnt),
            inode_ok(self.nodes_view(), inode) ==> match self.nodes_view()[inode - 1].entry {
                None => r == Err::<ReadOutcome, Errno>(Errno::NoEnt),
                Some(EntryModel::Dir(_)) => r == Err::<ReadOutcome, Errno>(Errno::NotDir),
                Some(EntryModel::Filtrated(b)) => r matches Ok(ReadOutcome::Data(d)) && d@
                    == spec_slice(b, offset, size),
                Some(EntryModel::Filter(t)) => r matches Ok(ReadOutcome::Pending(f)) && f == (
                crate::filtrate::Filtrate { token: t, range: None::<(u64, u32)> }),
                Some(EntryModel::PreciseFilter(t)) => r matches Ok(ReadOutcome::Pending(f)) && f
                    == (crate::filtrate::Filtrate { token: t, range: Some((offset, size)) }),
            },
    {
        let id = match self.nodes.node_id(inode) {
            Ok(id) => id,
            Err(e) => {
                return Err(e);
            },
        };
        self.nodes.read(id, offset, size)
    }
}

impl<S> Default for Effs<S> {
    /// A facade over a fresh arena created at the epoch, with no
    /// sources.
    fn default() -> (r: Effs<S>)
        ensures
            r.wf(),
            r.nodes_view() == Nodes::spec_initial(Timestamp { sec: 0, nsec: 0 }),
            r.spec_source_count() == 0,
    {
        Effs::new(Timestamp::new(0, 0))
    }
}

impl<S: EffsSource> Effs<S> {
    /// Re-populate the directory at `path` from every source, in
    /// order: each returned `(name, Entry)` pair is linked below the
    /// resolved parent at time `now`.  Failing sources are skipped, as
    /// are pairs the arena must refuse (an improper name, a non-empty
    /// listing, or an arena grown past the inode space): population
    /// is best-effort and one bad source cannot deny the mount.
    pub fn build_nodes(&mut self, path: &str, now: Timestamp) -> (r: Result<(), Error>)
        requires
            old(self).wf(),
        ensures
            final(self).wf(),
            evolves(old(self).nodes_view(), final(self).nodes_view()),
            match spec_resolve(old(self).nodes_view(), segments(path@), 1) {
                Ok(_) => r is Ok,
                Err(m) => (r matches Err(Error::NodeLookupError(e)) && lookup_err_matches(e, m))
                    && final(self).nodes_view() == old(self).nodes_view(),
            },
    {
        let ghost v0 = self.nodes_view();
        let par = match self.path_to_node_id(path) {
            Ok(p) => p,
            Err(e) => {
                proof {
                    lemma_evolves_refl(v0);
                }
                return Err(e);
            },
        };
        let scount = self.sources.len();
        proof {
            lemma_evolves_refl(v0);
        }
        for si in 0..scount
            invariant
                scount == self.sources@.len(),
                self.wf(),
                inode_ok(self.nodes_view(), par),
                evolves(v0, self.nodes_view()),
        {
            let listing = self.sources[si].dir(path);
            match listing {
                Err(_) => {
                    // a failing source is skipped; population is
                    // best-effort
                },
                Ok(listing) => {
                    let ghost vpre = self.nodes_view();
                    self.nodes.apply_listing(par, listing, now);
                    proof {
                        lemma_evolves_trans(v0, vpre, self.nodes_view());
                    }
                },
            }
        }
        Ok(())
    }
}

} // verus!
