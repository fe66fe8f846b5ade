//! What a node holds: a directory listing, a filter, a precise filter,
//! or pre-materialised bytes.
//!
//! Listings are kept as insertion-ordered association lists with unique
//! keys, so iteration is deterministic within a process lifetime and a
//! name can never appear twice.

use vstd::prelude::*;

use crate::filter::Filter;
use crate::filter::PreciseFilter;

verus! {

/// The keys of `v`, pairwise distinct.
pub open spec fn dir_keys_unique(v: Seq<(Seq<char>, u64)>) -> bool {
    forall|i: int, j: int| 0 <= i < j < v.len() ==> v[i].0 != v[j].0
}

/// First-match lookup of `name` among the pairs of `v`.
pub open spec fn dir_lookup(v: Seq<(Seq<char>, u64)>, name: Seq<char>) -> Option<u64>
    decreases v.len(),
{
    if v.len() == 0 {
        None
    } else if v[0].0 == name {
        Some(v[0].1)
    } else {
        dir_lookup(v.drop_first(), name)
    }
}

/// Replace the value under `name`, or append the pair if `name` is new.
pub open spec fn dir_update(v: Seq<(Seq<char>, u64)>, name: Seq<char>, id: u64) -> Seq<
    (Seq<char>, u64),
>
    decreases v.len(),
{
    if v.len() == 0 {
        seq![(name, id)]
    } else if v[0].0 == name {
        seq![(name, id)] + v.drop_first()
    } else {
        seq![v[0]] + dir_update(v.drop_first(), name, id)
    }
}

/// `dir_lookup` finds a value exactly when some pair carries the name.
pub proof fn lemma_dir_lookup_exists(v: Seq<(Seq<char>, u64)>, name: Seq<char>)
    ensures
        dir_lookup(v, name) is Some <==> exists|i: int| 0 <= i < v.len() && v[i].0 == name,
        dir_lookup(v, name) matches Some(id) ==> exists|i: int|
            0 <= i < v.len() && v[i] == (name, id),
    decreases v.len(),
{
    if v.len() > 0 && v[0].0 != name {
        lemma_dir_lookup_exists(v.drop_first(), name);
        if dir_lookup(v, name) is Some {
            let i = choose|i: int|
                0 <= i < v.drop_first().len() && v.drop_first()[i] == (
                name,
                dir_lookup(v, name)->Some_0,
                );
            assert(v[i + 1] == (name, dir_lookup(v, name)->Some_0));
        }
        if exists|i: int| 0 <= i < v.len() && v[i].0 == name {
            let i = choose|i: int| 0 <= i < v.len() && v[i].0 == name;
            assert(v.drop_first()[i - 1].0 == name);
        }
    }
}

/// With unique keys, any pair carrying `name` is the one `dir_lookup`
/// returns.
pub proof fn lemma_dir_lookup_unique(v: Seq<(Seq<char>, u64)>, name: Seq<char>, i: int)
    requires
        dir_keys_unique(v),
        0 <= i < v.len(),
        v[i].0 == name,
    ensures
        dir_lookup(v, name) == Some(v[i].1),
    decreases v.len(),
{
    if v[0].0 != name {
        assert(v.drop_first()[i - 1] == v[i]);
        assert(dir_keys_unique(v.drop_first())) by {
            assert(forall|x: int, y: int|
                0 <= x < y < v.drop_first().len() ==> v.drop_first()[x] == v[x + 1]
                    && v.drop_first()[y] == v[y + 1]);
        }
        lemma_dir_lookup_unique(v.drop_first(), name, i - 1);
    }
}

/// An insertion-ordered mapping from names to inodes, with unique keys.
#[derive(Debug)]
pub struct Dir {
    entries: Vec<(String, u64)>,
}

impl View for Dir {
    type V = Seq<(Seq<char>, u64)>;

    closed spec fn view(&self) -> Seq<(Seq<char>, u64)> {
        Seq::new(self.entries@.len(), |i: int| (self.entries@[i].0@, self.entries@[i].1))
    }
}

impl Dir {
    /// Key uniqueness, the one structural invariant of a listing.
    pub open spec fn wf(&self) -> bool {
        dir_keys_unique(self@)
    }

    /// An empty listing.
    pub fn new() -> (r: Dir)
        ensures
            r@ == Seq::<(Seq<char>, u64)>::empty(),
            r.wf(),
    {
        let d = Dir { entries: Vec::new() };
        proof {
            assert(d@ =~= Seq::<(Seq<char>, u64)>::empty());
        }
        d
    }

    /// Number of names listed.
    pub fn len(&self) -> (r: usize)
        ensures
            r == self@.len(),
    {
        self.entries.len()
    }

    /// The pair at position `i`, in insertion order.
    pub fn item_at(&self, i: usize) -> (r: (String, u64))
        requires
            i < self@.len(),
        ensures
            (r.0@, r.1) == self@[i as int],
    {
        let p = &self.entries[i];
        (p.0.clone(), p.1)
    }

    /// The inode listed under `name`, if any.
    pub fn get(&self, name: &str) -> (r: Option<u64>)
        ensures
            r == dir_lookup(self@, name@),
    {
        proof {
            assert(self@.skip(0) =~= self@);
        }
        let n = self.entries.len();
        for i in 0..n
            invariant
                n == self@.len(),
                forall|j: int| 0 <= j < i ==> self@[j].0 != name@,
                dir_lookup(self@, name@) == dir_lookup(self@.skip(i as int), name@),
        {
            proof {
                assert(self@.skip(i as int)[0] == self@[i as int]);
                assert(self@.skip(i as int).drop_first() =~= self@.skip(i + 1));
            }
            if crate::pathname::str_eq(self.entries[i].0.as_str(), name) {
                return Some(self.entries[i].1);
            }
        }
        proof {
            assert(self@.skip(n as int) =~= Seq::<(Seq<char>, u64)>::empty());
        }
        None
    }

    /// Map `name` to `id`, replacing any previous mapping in place.
    pub fn insert(&mut self, name: String, id: u64)
        requires
            old(self).wf(),
        ensures
            final(self)@ == dir_update(old(self)@, name@, id),
            final(self).wf(),
            final(self)@.len() == if dir_lookup(old(self)@, name@) is Some {
                old(self)@.len()
            } else {
                old(self)@.len() + 1
            },
    {
        let ghost old_view = self@;
        let n = self.entries.len();
        for i in 0..n
            invariant
                old_view == old(self)@,
                self@ == old_view,
                n == self@.len(),
                self.wf(),
                forall|j: int| 0 <= j < i ==> self@[j].0 != name@,
        {
            if crate::pathname::str_eq(self.entries[i].0.as_str(), name.as_str()) {
                self.entries[i] = (name, id);
                proof {
                    lemma_dir_update_found(old_view, name@, id, i as int);
                    assert(self@ =~= old_view.update(i as int, (name@, id)));
                    assert forall|x: int, y: int|
                        0 <= x < y < self@.len() implies self@[x].0 != self@[y].0 by {
                        if x == i {
                            assert(old_view[y].0 != old_view[i as int].0);
                        } else if y == i {
                            assert(old_view[x].0 != old_view[i as int].0);
                        } else {
                            assert(self@[x] == old_view[x] && self@[y] == old_view[y]);
                        }
                    }
                    lemma_dir_lookup_unique(old_view, name@, i as int);
                }
                return ;
            }
        }
        self.entries.push((name, id));
        proof {
            assert(self@ =~= old_view + seq![(name@, id)]);
            lemma_dir_update_missing(old_view, name@, id);
            lemma_dir_lookup_exists(old_view, name@);
            assert(dir_keys_unique(self@));
        }
    }
}

/// When position `i` carries `name` (and keys are unique), updating is
/// an in-place overwrite at `i`.
pub proof fn lemma_dir_update_found(v: Seq<(Seq<char>, u64)>, name: Seq<char>, id: u64, i: int)
    requires
        dir_keys_unique(v),
        0 <= i < v.len(),
        v[i].0 == name,
    ensures
        dir_update(v, name, id) =~= v.update(i, (name, id)),
    decreases v.len(),
{
    if v[0].0 == name {
        assert(i == 0);
        assert(dir_update(v, name, id) =~= v.update(0, (name, id)));
    } else {
        assert(v.drop_first()[i - 1] == v[i]);
        assert(dir_keys_unique(v.drop_first())) by {
            assert(forall|x: int, y: int|
                0 <= x < y < v.drop_first().len() ==> v.drop_first()[x] == v[x + 1]
                    && v.drop_first()[y] == v[y + 1]);
        }
        lemma_dir_update_found(v.drop_first(), name, id, i - 1);
        assert(dir_update(v, name, id) =~= v.update(i, (name, id)));
    }
}

/// When no pair carries `name`, updating appends the new pair.
pub proof fn lemma_dir_update_missing(v: Seq<(Seq<char>, u64)>, name: Seq<char>, id: u64)
    requires
        forall|i: int| 0 <= i < v.len() ==> v[i].0 != name,
    ensures
        dir_update(v, name, id) =~= v + seq![(name, id)],
    decreases v.len(),
{
    if v.len() > 0 {
        lemma_dir_update_missing(v.drop_first(), name, id);
        assert(dir_update(v, name, id) =~= v + seq![(name, id)]);
    }
}

/// What a node holds.
#[derive(Debug)]
pub enum Entry {
    /// A directory listing mapping names to inodes.
    Dir(Dir),
    /// A producer of a whole output on demand.
    Filter(Filter),
    /// A completely materialised output.
    Filtrated(Vec<u8>),
    /// A producer that materialises only a requested range.
    PreciseFilter(PreciseFilter),
}

/// The mathematical content of an `Entry`.
pub enum EntryModel {
    /// A listing: name/inode pairs in insertion order.
    Dir(Seq<(Seq<char>, u64)>),
    /// The handle of a whole-output producer.
    Filter(u64),
    /// The materialised bytes.
    Filtrated(Seq<u8>),
    /// The handle of a range-taking producer.
    PreciseFilter(u64),
}

impl View for Entry {
    type V = EntryModel;

    open spec fn view(&self) -> EntryModel {
        match self {
            Entry::Dir(d) => EntryModel::Dir(d@),
            Entry::Filter(f) => EntryModel::Filter(f.token),
            Entry::Filtrated(b) => EntryModel::Filtrated(b@),
            Entry::PreciseFilter(f) => EntryModel::PreciseFilter(f.token),
        }
    }
}

/// The mathematical content of a listing handed over as
/// `(name, Entry)` pairs.
pub open spec fn pairs_model(ps: Seq<(String, Entry)>) -> Seq<(Seq<char>, EntryModel)> {
    Seq::new(ps.len(), |i: int| (ps[i].0@, ps[i].1@))
}

impl From<Filter> for Entry {
    fn from(f: Filter) -> (r: Entry) {
        Entry::Filter(f)
    }
}

impl vstd::std_specs::convert::FromSpecImpl<Filter> for Entry {
    open spec fn obeys_from_spec() -> bool {
        true
    }

    open spec fn from_spec(f: Filter) -> Entry {
        Entry::Filter(f)
    }
}

impl From<Vec<u8>> for Entry {
    fn from(b: Vec<u8>) -> (r: Entry) {
        Entry::Filtrated(b)
    }
}

impl vstd::std_specs::convert::FromSpecImpl<Vec<u8>> for Entry {
    open spec fn obeys_from_spec() -> bool {
        true
    }

    open spec fn from_spec(b: Vec<u8>) -> Entry {
        Entry::Filtrated(b)
    }
}

} // verus!
