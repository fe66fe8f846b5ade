//! Filters: reusable factories of read requests.
//!
//! A filter stands for a producer of bytes owned by the embedding
//! runtime and addressed by an opaque handle; asking the filter to
//! filtrate yields a fresh pending request, so one filter can serve any
//! number of concurrent readers.

use vstd::prelude::*;

use crate::filtrate::Filtrate;

verus! {

/// The standard filter: each filtrate request asks the producer for its
/// entire output.
#[derive(Debug, Clone, Copy, PartialEq, Eq, Structural)]
pub struct Filter {
    pub token: u64,
}

impl Filter {
    /// A filter over the producer registered under `token`.
    pub fn new(token: u64) -> (r: Filter)
        ensures
            r == (Filter { token }),
    {
        Filter { token }
    }

    /// A fresh request for the whole output of this filter's producer.
    pub fn filtrate(&self) -> (r: Filtrate)
        ensures
            r == (Filtrate { token: self.token, range: None::<(u64, u32)> }),
    {
        Filtrate::new(self.token, None)
    }
}

/// A filter whose producer takes the requested byte range itself, so
/// large outputs need not be materialised whole.
#[derive(Debug, Clone, Copy, PartialEq, Eq, Structural)]
pub struct PreciseFilter {
    pub token: u64,
}

impl PreciseFilter {
    /// A precise filter over the producer registered under `token`.
    pub fn new(token: u64) -> (r: PreciseFilter)
        ensures
            r == (PreciseFilter { token }),
    {
        PreciseFilter { token }
    }

    /// A fresh request for exactly the slice `[offset, offset+size)`
    /// (clamped to the output length) of this filter's producer.
    pub fn filtrate(&self, offset: u64, size: u32) -> (r: Filtrate)
        ensures
            r == (Filtrate { token: self.token, range: Some((offset, size)) }),
    {
        Filtrate::new(self.token, Some((offset, size)))
    }
}

} // verus!
