//! A filtrate is one pending, single-shot read request against a
//! producer owned by the embedding runtime.
//!
//! The verified core never runs a producer itself: it hands the runtime
//! a `Filtrate` naming the producer (by its handle) and, for a precise
//! producer, the byte range to materialise.  The runtime drives the
//! producer and feeds the resulting bytes back into the core's verified
//! slicing functions.

use vstd::prelude::*;

verus! {

/// A pending request for the output of the producer behind `token`;
/// `range` is `Some((offset, size))` when the producer itself is asked
/// for a byte range, `None` when it is asked for its whole output.
#[derive(Debug, Clone, Copy, PartialEq, Eq)]
pub struct Filtrate {
    pub token: u64,
    pub range: Option<(u64, u32)>,
}

impl Filtrate {
    /// Wrap a producer handle and an optional range as one pending
    /// request.
    pub fn new(token: u64, range: Option<(u64, u32)>) -> (r: Filtrate)
        ensures
            r == (Filtrate { token, range }),
    {
        Filtrate { token, range }
    }
}

} // verus!
