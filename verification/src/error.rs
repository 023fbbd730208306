//! What can go wrong when a store is opened or read.

use vstd::prelude::*;

verus! {

/// Why a store was refused.
#[derive(Debug, Clone, Copy, PartialEq, Eq, Structural)]
pub enum DbError {
    /// The file does not start with a store's signature, or names a kind of
    /// store that is not shown here.
    InvalidDbHead,
    /// The schema descriptor does not decode to a model, or the model's
    /// size is not the item size that the header declares.
    InvalidDbSchema,
    /// A field of the store's metadata is out of bounds.
    InvalidDbMeta,
}

/// An error of this library.
#[derive(Debug, Clone, Copy, PartialEq, Eq, Structural)]
pub enum ShahVisualError {
    /// The store itself is at fault.
    Shah(DbError),
    /// Fewer bytes were handed over than were asked for: a short read.
    Io,
}

} // verus!
