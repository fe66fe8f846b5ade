//! Error taxonomy of the filesystem core.
//!
//! The kinds mirror the layers of the system: effects complain about the
//! host paths they were given, sources wrap effect failures, the node
//! arena reports lookup failures, and `Errno` is the numeric-code surface
//! handed to the kernel adapter.

use vstd::prelude::*;

verus! {

/// Top-level error of the facade.
#[derive(Debug)]
pub enum Error {
    /// An underlying input/output failure.
    Io,
    /// A lock was poisoned or an internal invariant was violated.
    Internal,
    /// A source failed while producing a listing.
    Source(SourceError),
    /// An inode was not present in the arena.
    NoSuchNode(NoSuchNode),
    /// A `(parent, name)` lookup failed.
    NodeLookupError(NodeLookupError),
}

/// Failure of a source asked for a directory listing.
#[derive(Debug)]
pub enum SourceError {
    /// An underlying input/output failure.
    Io,
    /// The requested virtual subpath is inappropriate for this source.
    BadRequestPath(String, &'static str),
    /// The effect behind the source failed.
    Effect(EffectError),
}

/// Failure of an effect applied to an origin path.
#[derive(Debug)]
pub enum EffectError {
    /// An underlying input/output failure.
    Io,
    /// The origin supplied to the effect does not match its assumption.
    BadSourcePath(String, &'static str),
    /// The requested virtual subpath is inappropriate for this effect.
    BadRequestPath(String, &'static str),
}

/// An inode that is not present in the arena.
#[derive(Debug)]
pub struct NoSuchNode(pub u64);

/// Failure of a lookup by `(parent, name)`.
#[derive(Debug)]
pub enum NodeLookupError {
    /// The id is a valid node id but no entry is associated with it.
    NoEntry(u64),
    /// The name is not found at the node id.
    NoSuchName(u64, String),
    /// The entry at the node id is not a directory listing.
    NotDirEntry(u64),
}

/// Numeric-code surface for the kernel adapter; the embedding runtime
/// maps each variant to the platform's error number.
#[derive(Debug, Clone, Copy, PartialEq, Eq, Structural)]
pub enum Errno {
    /// No such file or directory.
    NoEnt,
    /// Not a directory.
    NotDir,
    /// An input/output failure while running a filter.
    Io,
    /// The state is beyond recovery.
    NotRecoverable,
}

} // verus!
