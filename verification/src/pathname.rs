//! Names and paths.
//!
//! A node's name is the final path component under which its parent
//! lists it: never empty, never `.` or `..`, and free of `/`.  Virtual
//! paths are strings of such names joined by `/`; resolution walks the
//! name segments and stops early at a `.` or `..` segment, since callers
//! are required to hand in normalized paths.

use vstd::prelude::*;

verus! {

/// The single-character segment `.`.
pub open spec fn dot_seg() -> Seq<char> {
    seq!['.']
}

/// The two-character segment `..`.
pub open spec fn dot_dot_seg() -> Seq<char> {
    seq!['.', '.']
}

/// A proper name: usable as a key of a directory listing.
pub open spec fn valid_name_seq(s: Seq<char>) -> bool {
    &&& s.len() > 0
    &&& s != dot_seg()
    &&& s != dot_dot_seg()
    &&& forall|i: int| 0 <= i < s.len() ==> s[i] != '/'
}

/// First position `j >= i` holding `/`, or the length if none.
pub open spec fn seg_end(p: Seq<char>, i: int) -> int
    decreases p.len() - i,
{
    if i < 0 || i >= p.len() {
        p.len() as int
    } else if p[i] == '/' {
        i
    } else {
        seg_end(p, i + 1)
    }
}

pub proof fn lemma_seg_end(p: Seq<char>, i: int)
    requires
        0 <= i <= p.len(),
    ensures
        i <= seg_end(p, i) <= p.len(),
        seg_end(p, i) < p.len() ==> p[seg_end(p, i)] == '/',
        forall|k: int| i <= k < seg_end(p, i) ==> p[k] != '/',
    decreases p.len() - i,
{
    if i < p.len() && p[i] != '/' {
        lemma_seg_end(p, i + 1);
    }
}

/// `seg_end` is the one position that closes a run of non-`/`
/// characters.
pub proof fn lemma_seg_end_unique(p: Seq<char>, start: int, j: int)
    requires
        0 <= start <= j <= p.len(),
        j == p.len() || p[j] == '/',
        forall|k: int| start <= k < j ==> p[k] != '/',
    ensures
        seg_end(p, start) == j,
    decreases j - start,
{
    if start < j {
        lemma_seg_end_unique(p, start + 1, j);
    }
}

/// The name segments of a path: maximal runs of non-`/` characters,
/// read from position `i` on.
pub open spec fn segments_from(p: Seq<char>, i: int) -> Seq<Seq<char>>
    decreases p.len() - i,
    via segments_from_decreases
{
    if i < 0 || i >= p.len() {
        seq![]
    } else if p[i] == '/' {
        segments_from(p, i + 1)
    } else {
        seq![p.subrange(i, seg_end(p, i + 1))] + segments_from(p, seg_end(p, i + 1))
    }
}

#[via_fn]
proof fn segments_from_decreases(p: Seq<char>, i: int) {
    if 0 <= i < p.len() && p[i] != '/' {
        lemma_seg_end(p, i + 1);
    }
}

/// The name segments of a whole path.
pub open spec fn segments(p: Seq<char>) -> Seq<Seq<char>> {
    segments_from(p, 0)
}

/// The longest prefix of `segs` free of `.` and `..`: the part of a
/// path that resolution walks.
pub open spec fn walk_prefix(segs: Seq<Seq<char>>) -> Seq<Seq<char>>
    decreases segs.len(),
{
    if segs.len() == 0 {
        seq![]
    } else if segs[0] == dot_seg() || segs[0] == dot_dot_seg() {
        seq![]
    } else {
        seq![segs[0]] + walk_prefix(segs.drop_first())
    }
}

/// `/name_1/name_2/.../name_k` — the normal form of a path whose walked
/// segments are `segs`; the empty `segs` yield the empty sequence.
pub open spec fn join_abs(segs: Seq<Seq<char>>) -> Seq<char>
    decreases segs.len(),
{
    if segs.len() == 0 {
        seq![]
    } else {
        join_abs(segs.drop_last()) + seq!['/'] + segs.last()
    }
}

/// The normal form of a path: the absolute spelling of the segments
/// that resolution walks, `/` when none remain.
pub open spec fn normalize(p: Seq<char>) -> Seq<char> {
    let segs = walk_prefix(segments(p));
    if segs.len() == 0 {
        seq!['/']
    } else {
        join_abs(segs)
    }
}

/// Joining reads off the front as well: a leading segment contributes
/// its own `/`-prefixed copy.
pub proof fn lemma_join_abs_cons(s0: Seq<char>, rest: Seq<Seq<char>>)
    ensures
        join_abs(seq![s0] + rest) == seq!['/'] + s0 + join_abs(rest),
    decreases rest.len(),
{
    let ss = seq![s0] + rest;
    if rest.len() == 0 {
        assert(ss.drop_last() =~= Seq::<Seq<char>>::empty());
        assert(ss.last() == s0);
        assert(join_abs(ss) =~= seq!['/'] + s0 + join_abs(rest));
    } else {
        assert(ss.drop_last() =~= seq![s0] + rest.drop_last());
        assert(ss.last() == rest.last());
        lemma_join_abs_cons(s0, rest.drop_last());
        assert(join_abs(ss) == join_abs(ss.drop_last()) + seq!['/'] + ss.last());
        assert(join_abs(ss.drop_last()) == seq!['/'] + s0 + join_abs(rest.drop_last()));
        assert(join_abs(rest) == join_abs(rest.drop_last()) + seq!['/'] + rest.last());
        assert(join_abs(ss) =~= seq!['/'] + s0 + join_abs(rest));
    }
}

/// Character-wise equality of two string slices.
pub fn str_eq(a: &str, b: &str) -> (r: bool)
    ensures
        r == (a@ == b@),
{
    let alen = a.unicode_len();
    let blen = b.unicode_len();
    if alen != blen {
        proof {
            assert(a@ != b@);
        }
        return false;
    }
    for i in 0..alen
        invariant
            alen == a@.len(),
            alen == b@.len(),
            forall|j: int| 0 <= j < i ==> a@[j] == b@[j],
    {
        if a.get_char(i) != b.get_char(i) {
            return false;
        }
    }
    proof {
        assert(a@ =~= b@);
    }
    true
}

/// Whether `name` is a proper listing name.
pub fn check_name(name: &str) -> (r: bool)
    ensures
        r == valid_name_seq(name@),
{
    let n = name.unicode_len();
    if n == 0 {
        return false;
    }
    if n == 1 && name.get_char(0) == '.' {
        proof {
            assert(name@ =~= dot_seg());
        }
        return false;
    }
    if n == 2 && name.get_char(0) == '.' && name.get_char(1) == '.' {
        proof {
            assert(name@ =~= dot_dot_seg());
        }
        return false;
    }
    for i in 0..n
        invariant
            n == name@.len(),
            forall|j: int| 0 <= j < i ==> name@[j] != '/',
    {
        if name.get_char(i) == '/' {
            return false;
        }
    }
    proof {
        if name@ == dot_seg() {
            assert(name@.len() == 1 && name@[0] == '.');
        }
        if name@ == dot_dot_seg() {
            assert(name@.len() == 2 && name@[0] == '.' && name@[1] == '.');
        }
    }
    true
}

} // verus!
