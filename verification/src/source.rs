//! A source: an effect bound to its origin and destination paths.

use vstd::prelude::*;

use crate::entry::Entry;
use crate::error::SourceError;
use crate::traits::Effect;
use crate::traits::EffsSource;

verus! {

/// Binds an origin path, a destination subtree root and an effect
/// into one listing producer.
pub struct Source<S> {
    /// The host path the effect reads from.
    source_path: String,
    /// The mount-relative subtree the source populates.
    dest_path: String,
    /// The effect that derives listings from the origin.
    setup: S,
}

impl<S> Source<S> {
    /// The origin path, as this source will hand it to its effect.
    pub closed spec fn spec_source_path(&self) -> Seq<char> {
        self.source_path@
    }

    /// The destination subtree root this source was declared for.
    pub closed spec fn spec_dest_path(&self) -> Seq<char> {
        self.dest_path@
    }

    /// Bind `setup` to the given origin and destination.
    pub fn new(source_path: String, dest_path: String, setup: S) -> (r: Source<S>)
        ensures
            r.spec_source_path() == source_path@,
            r.spec_dest_path() == dest_path@,
    {
        Source { source_path, dest_path, setup }
    }
}

impl<E: Effect> EffsSource for Source<E> {
    fn dir(&mut self, request: &str) -> Result<Vec<(String, Entry)>, SourceError> {
        let origin = self.source_path.clone();
        match self.setup.apply(origin.as_str(), request) {
            Ok(listing) => Ok(listing),
            Err(e) => Err(SourceError::Effect(e)),
        }
    }
}

} // verus!
