//! The laws of the filesystem core, each stated over the models that
//! the executable functions' contracts use.

use vstd::prelude::*;

use crate::attr::FileType;
use crate::attr::Timestamp;
use crate::effs::spec_resolve;
use crate::entry::EntryModel;
use crate::entry::dir_lookup;
use crate::entry::lemma_dir_lookup_exists;
use crate::node::LookupErr;
use crate::node::NodeModel;
use crate::node::evolves;
use crate::node::inode_ok;
use crate::node::lemma_listed_child_props;
use crate::node::listing_ok;
use crate::node::listing_pair_ok;
use crate::node::node_ok;
use crate::node::nodes_wf;
use crate::node::spec_attr;
use crate::node::spec_basic_lookup;
use crate::node::spec_dirent;
use crate::node::spec_link_entry;
use crate::node::spec_path_of;
use crate::node::spec_readdir_full;
use crate::node::spec_rel_path;
use crate::node::spec_slice;
use crate::pathname::dot_dot_seg;
use crate::pathname::dot_seg;
use crate::pathname::join_abs;
use crate::pathname::lemma_join_abs_cons;
use crate::pathname::normalize;
use crate::pathname::segments;
use crate::pathname::valid_name_seq;
use crate::pathname::walk_prefix;

verus! {

/// An inode once linked keeps resolving: any later arena still holds
/// a linked node there, so `getattr` keeps answering for it.
pub proof fn lemma_linked_inode_survives(a: Seq<NodeModel>, b: Seq<NodeModel>, ino: u64)
    requires
        evolves(a, b),
        inode_ok(a, ino),
        a[ino - 1].entry is Some,
    ensures
        inode_ok(b, ino),
        b[ino - 1].entry is Some,
{
    assert(b[ino - 1].parent == a[ino - 1].parent);
}

/// Generations never decrease across any evolution of the arena.
pub proof fn lemma_generation_monotone(a: Seq<NodeModel>, b: Seq<NodeModel>, ino: u64)
    requires
        evolves(a, b),
        inode_ok(a, ino),
    ensures
        b[ino - 1].generation >= a[ino - 1].generation,
{
    assert(b[ino - 1].parent == a[ino - 1].parent);
}

/// What a directory listing reply named, a later lookup still finds —
/// same inode, generation no smaller — as long as the parent still
/// lists that name for that child (re-linking the parent itself
/// replaces its listing and voids this).
pub proof fn lemma_readdir_entry_lookup(
    a: Seq<NodeModel>,
    b: Seq<NodeModel>,
    parent: u64,
    k: int,
)
    requires
        nodes_wf(a),
        nodes_wf(b),
        evolves(a, b),
        inode_ok(a, parent),
        a[parent - 1].entry matches Some(EntryModel::Dir(la)) && 0 <= k < la.len(),
        ({
            &&& b[parent - 1].entry matches Some(EntryModel::Dir(lb))
            &&& dir_lookup(lb, a[parent - 1].entry->Some_0->Dir_0[k].0) == Some(
                a[parent - 1].entry->Some_0->Dir_0[k].1,
            )
        }),
    ensures
        ({
            let la = a[parent - 1].entry->Some_0->Dir_0;
            let listed = spec_readdir_full(a, parent)[k + 2];
            &&& listed.inode == la[k].1
            &&& listed.name == la[k].0
            &&& listed.generation == a[la[k].1 - 1].generation
            &&& spec_basic_lookup(b, parent, la[k].0) == Ok::<u64, LookupErr>(la[k].1)
            &&& b[la[k].1 - 1].generation >= listed.generation
        }),
{
    let la = a[parent - 1].entry->Some_0->Dir_0;
    let lb = b[parent - 1].entry->Some_0->Dir_0;
    assert(node_ok(a, parent));
    assert(listing_pair_ok(a, parent, la[k]));
    assert(node_ok(b, parent));
    lemma_dir_lookup_exists(lb, la[k].0);
    let kb = choose|kb: int| 0 <= kb < lb.len() && lb[kb] == (la[k].0, la[k].1);
    assert(listing_pair_ok(b, parent, lb[kb]));
    assert(b[la[k].1 - 1].generation >= a[la[k].1 - 1].generation);
    assert(spec_readdir_full(a, parent)[k + 2] == spec_dirent(a, la[k].1, la[k].0, (k + 3) as u64));
}

/// Inode one always resolves and is always a directory.
pub proof fn lemma_root_directory(v: Seq<NodeModel>)
    requires
        nodes_wf(v),
    ensures
        inode_ok(v, 1),
        v[0].entry matches Some(EntryModel::Dir(_)),
        spec_attr(v[0], 1).kind == FileType::Directory,
{
    assert(node_ok(v, 1));
}

/// In a listing reply no name appears twice, and the first two
/// entries are `.` then `..`.
pub proof fn lemma_readdir_names(v: Seq<NodeModel>, parent: u64)
    requires
        nodes_wf(v),
        inode_ok(v, parent),
        v[parent - 1].entry matches Some(EntryModel::Dir(_)),
    ensures
        ({
            let full = spec_readdir_full(v, parent);
            &&& full[0].name == dot_seg()
            &&& full[1].name == dot_dot_seg()
            &&& forall|i: int, j: int|
                0 <= i < j < full.len() ==> (#[trigger] full[i].name) != (#[trigger] full[j].name)
        }),
{
    let l = v[parent - 1].entry->Some_0->Dir_0;
    let full = spec_readdir_full(v, parent);
    assert(node_ok(v, parent));
    assert(listing_ok(v, parent, l));
    assert forall|i: int, j: int|
        0 <= i < j < full.len() implies (#[trigger] full[i].name) != (#[trigger] full[j].name) by {
        if i >= 2 {
            assert(full[i].name == l[i - 2].0 && full[j].name == l[j - 2].0);
            assert(l[i - 2].0 != l[j - 2].0);
        } else if j >= 2 {
            assert(full[j].name == l[j - 2].0);
            assert(listing_pair_ok(v, parent, l[j - 2]));
            assert(valid_name_seq(l[j - 2].0));
        } else {
            assert(full[0].name == dot_seg() && full[1].name == dot_dot_seg());
            assert(dot_seg().len() == 1 && dot_dot_seg().len() == 2);
        }
    }
}

/// A bounded read never hands back more than it was asked for, and a
/// short answer means the data ends at `offset` plus what came back.
pub proof fn lemma_read_bounded(data: Seq<u8>, offset: u64, size: u32)
    ensures
        spec_slice(data, offset, size).len() <= size,
        spec_slice(data, offset, size).len() < size ==> offset + spec_slice(
            data,
            offset,
            size,
        ).len() >= data.len(),
{
}

/// Re-linking a listed name keeps the child's inode and grows its
/// generation by exactly one (short of the counter's ceiling).
pub proof fn lemma_relink_bumps_generation(
    v: Seq<NodeModel>,
    id: u64,
    name: Seq<char>,
    e: EntryModel,
    now: Timestamp,
)
    requires
        nodes_wf(v),
        inode_ok(v, id),
        v[id - 1].entry matches Some(EntryModel::Dir(l)),
        dir_lookup(v[id - 1].entry->Some_0->Dir_0, name) is Some,
        valid_name_seq(name),
        ({
            let c = dir_lookup(v[id - 1].entry->Some_0->Dir_0, name)->Some_0;
            inode_ok(v, c) && v[c - 1].generation < u64::MAX
        }),
    ensures
        ({
            let c = dir_lookup(v[id - 1].entry->Some_0->Dir_0, name)->Some_0;
            let (v2, r) = spec_link_entry(v, id, name, e, now);
            &&& r == Ok::<u64, LookupErr>(c)
            &&& v2.len() == v.len()
            &&& v2[c - 1].generation == v[c - 1].generation + 1
        }),
{
}

/// Walking a resolvable path down and reading the reached node's path
/// back up yields the path's normal form.
pub proof fn lemma_path_round_trip(v: Seq<NodeModel>, p: Seq<char>)
    requires
        nodes_wf(v),
        spec_resolve(v, segments(p), 1) is Ok,
    ensures
        spec_path_of(v, spec_resolve(v, segments(p), 1)->Ok_0) == normalize(p),
{
    lemma_resolve_rel_path(v, segments(p), 1);
    let res = spec_resolve(v, segments(p), 1)->Ok_0;
    let wp = walk_prefix(segments(p));
    assert(spec_rel_path(v, 1) =~= Seq::<char>::empty());
    assert(spec_rel_path(v, res) =~= join_abs(wp));
    if wp.len() == 0 {
        assert(res == 1);
    } else {
        assert(res != 1);
        assert(spec_path_of(v, res) == join_abs(wp));
    }
}

/// Resolution composes with path reconstruction: the reached node's
/// relative path extends the start node's by the walked segments.
pub proof fn lemma_resolve_rel_path(v: Seq<NodeModel>, segs: Seq<Seq<char>>, cur: u64)
    requires
        nodes_wf(v),
        inode_ok(v, cur),
        spec_resolve(v, segs, cur) is Ok,
    ensures
        ({
            let res = spec_resolve(v, segs, cur)->Ok_0;
            &&& inode_ok(v, res)
            &&& spec_rel_path(v, res) == spec_rel_path(v, cur) + join_abs(walk_prefix(segs))
            &&& walk_prefix(segs).len() == 0 ==> res == cur
            &&& walk_prefix(segs).len() > 0 ==> res != 1
        }),
    decreases segs.len(),
{
    let res = spec_resolve(v, segs, cur)->Ok_0;
    if segs.len() == 0 || segs[0] == dot_seg() || segs[0] == dot_dot_seg() {
        assert(join_abs(walk_prefix(segs)) =~= Seq::<char>::empty());
        assert(spec_rel_path(v, res) =~= spec_rel_path(v, cur) + join_abs(walk_prefix(segs)));
    } else {
        let c = spec_basic_lookup(v, cur, segs[0])->Ok_0;
        lemma_listed_child_props(v, cur, c, segs[0]);
        assert(node_ok(v, c));
        assert(spec_rel_path(v, c) == spec_rel_path(v, cur) + seq!['/'] + segs[0]);
        lemma_resolve_rel_path(v, segs.drop_first(), c);
        lemma_join_abs_cons(segs[0], walk_prefix(segs.drop_first()));
        assert(walk_prefix(segs) == seq![segs[0]] + walk_prefix(segs.drop_first()));
        assert(spec_rel_path(v, res) =~= spec_rel_path(v, cur) + join_abs(walk_prefix(segs)));
    }
}

} // verus!
