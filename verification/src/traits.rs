//! The pluggable-producer surface.
//!
//! An `Effect` is a user-supplied transformation: applied to an origin
//! (a host path the effect owns the meaning of) and a request (the
//! virtual subpath being listed), it yields the children of the
//! requested virtual directory as `(name, Entry)` pairs, names being
//! final path components only.  An `EffsSource` is what the facade
//! iterates: an effect already bound to its origin.  Implementations
//! live with the embedding runtime; the core states nothing about what
//! they return and guards itself on every value handed back.

use vstd::prelude::*;

use crate::entry::Entry;
use crate::error::EffectError;
use crate::error::SourceError;

verus! {

/// Apply an effect to a source file or directory.
pub trait Effect {
    /// The children that should appear in the virtual directory
    /// `request`, derived from `origin`.
    fn apply(&mut self, origin: &str, request: &str) -> Result<Vec<(String, Entry)>, EffectError>;
}

/// Serves file listings to the facade.
pub trait EffsSource {
    /// The children that should appear in the virtual directory
    /// `request`.
    fn dir(&mut self, request: &str) -> Result<Vec<(String, Entry)>, SourceError>;
}

} // verus!
