//! The mirror effect: expose a host directory tree as a synthetic one.
//!
//! The runtime reads the host directory named by the origin and the
//! request, classifies each child and registers a whole-file producer
//! for every regular file; the verified listing logic here decides
//! what appears in the virtual directory: subdirectories become empty
//! listings (materialised lazily on their own readdir), regular files
//! become filters, anything else is silently omitted.

use vstd::prelude::*;

use crate::entry::Entry;
use crate::entry::EntryModel;
use crate::entry::pairs_model;
use crate::filter::Filter;

verus! {

/// What a host directory child is, as far as mirroring cares.
#[derive(Debug, Clone, Copy, PartialEq, Eq, Structural)]
pub enum HostKind {
    /// A directory.
    Directory,
    /// A regular file.
    File,
    /// Anything else (a symbolic link, a socket, ...): omitted.
    Other,
}

/// The listing the mirror derives from classified host children: a
/// lazily-filled directory per subdirectory, a whole-file filter per
/// regular file, nothing for the rest.
pub open spec fn spec_mirror(cs: Seq<(String, HostKind, u64)>) -> Seq<(Seq<char>, EntryModel)>
    decreases cs.len(),
{
    if cs.len() == 0 {
        seq![]
    } else {
        let rest = spec_mirror(cs.drop_first());
        match cs[0].1 {
            HostKind::Directory => seq![(cs[0].0@, EntryModel::Dir(Seq::empty()))] + rest,
            HostKind::File => seq![(cs[0].0@, EntryModel::Filter(cs[0].2))] + rest,
            HostKind::Other => rest,
        }
    }
}

/// Mirror a host directory: directories nest, regular files read
/// whole, everything else is omitted.
#[derive(Debug)]
pub struct Mirror;

impl Mirror {
    /// The listing for one batch of classified host children; each
    /// regular file's producer is addressed by the token the runtime
    /// registered for it.
    pub fn listing(children: &Vec<(String, HostKind, u64)>) -> (r: Vec<(String, Entry)>)
        ensures
            pairs_model(r@) == spec_mirror(children@),
    {
        let mut out: Vec<(String, Entry)> = Vec::new();
        let n = children.len();
        proof {
            assert(children@.skip(0) =~= children@);
            assert(pairs_model(out@) =~= Seq::<(Seq<char>, EntryModel)>::empty());
        }
        for i in 0..n
            invariant
                n == children@.len(),
                pairs_model(out@) + spec_mirror(children@.skip(i as int)) == spec_mirror(
                    children@,
                ),
        {
            let ghost pre = out@;
            proof {
                assert(children@.skip(i as int)[0] == children@[i as int]);
                assert(children@.skip(i as int).drop_first() =~= children@.skip(i + 1));
            }
            let c = &children[i];
            match c.1 {
                HostKind::Directory => {
                    out.push((c.0.clone(), Entry::Dir(crate::entry::Dir::new())));
                    proof {
                        assert(pairs_model(out@) =~= pairs_model(pre) + seq![
                            (children@[i as int].0@, EntryModel::Dir(Seq::empty())),
                        ]);
                    }
                },
                HostKind::File => {
                    out.push((c.0.clone(), Entry::Filter(Filter::new(c.2))));
                    proof {
                        assert(pairs_model(out@) =~= pairs_model(pre) + seq![
                            (children@[i as int].0@, EntryModel::Filter(children@[i as int].2)),
                        ]);
                    }
                },
                HostKind::Other => {},
            }
            proof {
                assert(pairs_model(out@) + spec_mirror(children@.skip(i + 1)) =~= spec_mirror(
                    children@,
                ));
            }
        }
        proof {
            assert(children@.skip(n as int) =~= Seq::<(String, HostKind, u64)>::empty());
            assert(pairs_model(out@) + spec_mirror(children@.skip(n as int)) =~= pairs_model(
                out@,
            ));
        }
        out
    }
}

} // verus!
