//! The crop effect: a placeholder image transform over a host file.
//!
//! The listing it produces carries one filter named after the origin's
//! final path component; the producer behind it reads the origin and
//! crops the byte range `[x, x+w)`, zero-filling what the file cannot
//! supply, as a stand-in for a real image transform.

use vstd::prelude::*;

use crate::entry::Entry;
use crate::entry::EntryModel;
use crate::error::EffectError;
use crate::filter::Filter;
use crate::pathname::dot_dot_seg;
use crate::pathname::dot_seg;
use crate::pathname::lemma_seg_end_unique;
use crate::pathname::segments;
use crate::pathname::segments_from;
use crate::pathname::str_eq;

verus! {

/// Crop the rectangle `(x, y, w, h)` out of the origin; as a byte
/// surrogate, the producer yields `w` bytes starting at offset `x`.
#[derive(Debug, Clone, Copy, PartialEq, Eq, Structural)]
pub struct Crop {
    pub x: usize,
    pub y: usize,
    pub w: usize,
    pub h: usize,
}

impl Crop {
    /// A crop of the rectangle `(x, y, w, h)`.
    pub fn new(x: usize, y: usize, w: usize, h: usize) -> (r: Crop)
        ensures
            r == (Crop { x, y, w, h }),
    {
        Crop { x, y, w, h }
    }

    /// The listing this crop contributes: one filter, named after the
    /// origin's final name segment, over the producer registered under
    /// `token`; an origin without a proper final segment is refused.
    pub fn plan(&self, origin: &str, token: u64) -> (r: Result<Vec<(String, Entry)>, EffectError>)
        ensures
            ({
                let segs = segments(origin@);
                if segs.len() > 0 && segs.last() != dot_seg() && segs.last() != dot_dot_seg() {
                    r matches Ok(ps) && crate::entry::pairs_model(ps@) == seq![
                        (segs.last(), EntryModel::Filter(token)),
                    ]
                } else {
                    r matches Err(EffectError::BadSourcePath(p, _)) && p@ == origin@
                }
            }),
    {
        let ghost p = origin@;
        let n = origin.unicode_len();
        let mut i: usize = 0;
        let mut last_s: usize = 0;
        let mut last_e: usize = 0;
        let ghost mut gss: Seq<Seq<char>> = Seq::empty();
        proof {
            assert(segments(p) =~= gss + segments_from(p, 0));
        }
        loop
            invariant
                i <= n,
                n == p.len(),
                p == origin@,
                segments(p) == gss + segments_from(p, i as int),
                gss.len() == 0 <==> last_e == 0,
                gss.len() > 0 ==> last_s < last_e <= i && gss.last() == p.subrange(
                    last_s as int,
                    last_e as int,
                ),
            ensures
                n == p.len(),
                p == origin@,
                segments(p) == gss,
                gss.len() == 0 <==> last_e == 0,
                gss.len() > 0 ==> last_s < last_e <= n && gss.last() == p.subrange(
                    last_s as int,
                    last_e as int,
                ),
            decreases n - i,
        {
            let ghost i_in = i;
            while i < n && origin.get_char(i) == '/'
                invariant
                    i_in <= i <= n,
                    n == p.len(),
                    p == origin@,
                    segments(p) == gss + segments_from(p, i as int),
                decreases n - i,
            {
                proof {
                    assert(segments_from(p, i as int) == segments_from(p, i + 1));
                }
                i = i + 1;
            }
            if i >= n {
                proof {
                    assert(segments_from(p, i as int) =~= Seq::<Seq<char>>::empty());
                    assert(segments(p) =~= gss);
                }
                break ;
            }
            let start = i;
            while i < n && origin.get_char(i) != '/'
                invariant
                    start <= i <= n,
                    n == p.len(),
                    p == origin@,
                    forall|k: int| start <= k < i ==> p[k] != '/',
                decreases n - i,
            {
                i = i + 1;
            }
            proof {
                assert(i != start);
                lemma_seg_end_unique(p, start + 1, i as int);
                assert(segments_from(p, start as int) == seq![p.subrange(start as int, i as int)]
                    + segments_from(p, i as int));
                gss = gss.push(p.subrange(start as int, i as int));
                assert(gss.drop_last() =~= gss.subrange(0, gss.len() - 1));
                assert(segments(p) =~= gss + segments_from(p, i as int));
            }
            last_s = start;
            last_e = i;
        }
        if last_e == 0 {
            return Err(
                EffectError::BadSourcePath(
                    origin.to_owned(),
                    "no final component found for source",
                ),
            );
        }
        let seg = origin.substring_char(last_s, last_e);
        if str_eq(seg, ".") || str_eq(seg, "..") {
            proof {
                reveal_strlit(".");
                reveal_strlit("..");
                assert("."@ =~= dot_seg());
                assert(".."@ =~= dot_dot_seg());
            }
            return Err(
                EffectError::BadSourcePath(
                    origin.to_owned(),
                    "no final component found for source",
                ),
            );
        }
        proof {
            reveal_strlit(".");
            reveal_strlit("..");
            assert("."@ =~= dot_seg());
            assert(".."@ =~= dot_dot_seg());
        }
        let name = seg.to_owned();
        let mut out: Vec<(String, Entry)> = Vec::new();
        out.push((name, Entry::Filter(Filter::new(token))));
        proof {
            assert(crate::entry::pairs_model(out@) =~= seq![
                (segments(origin@).last(), EntryModel::Filter(token)),
            ]);
        }
        Ok(out)
    }
}

/// The byte surrogate of a crop: exactly `w` bytes, the range
/// `[x, x+w)` of `data` where the data reaches, zero elsewhere.
pub fn crop_bytes(data: &Vec<u8>, x: usize, w: usize) -> (r: Vec<u8>)
    ensures
        r@.len() == w,
        forall|j: int| 0 <= j < w ==> r@[j] == if x + j < data@.len() {
            data@[x + j]
        } else {
            0u8
        },
{
    let mut out: Vec<u8> = Vec::new();
    let dlen = data.len();
    for j in 0..w
        invariant
            dlen == data@.len(),
            out@.len() == j,
            forall|k: int| 0 <= k < j ==> out@[k] == if x + k < data@.len() {
                data@[x + k]
            } else {
                0u8
            },
    {
        if x < dlen && j < dlen - x {
            out.push(data[x + j]);
        } else {
            out.push(0);
        }
    }
    out
}

} // verus!
