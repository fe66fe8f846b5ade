//! `effs` — a read-only, in-memory virtual filesystem core.
//!
//! The crate keeps a persistent, identity-stable tree of inode-bearing
//! nodes (the arena), resolves paths, synthesises directory listings and
//! slices lazily produced payloads to satisfy bounded reads.  The verified
//! core works on plain values; the asynchronous producers behind filters
//! are owned by the embedding runtime and addressed through opaque
//! handles.

pub mod error;
pub mod pathname;
pub mod attr;
pub mod filtrate;
pub mod filter;
pub mod entry;
pub mod node;
pub mod traits;
pub mod source;
pub mod effs;
pub mod effect;
pub mod transform;
pub mod laws;

pub use effs::Effs;
pub use error::Error;
pub use error::NodeLookupError;
pub use error::NoSuchNode;
