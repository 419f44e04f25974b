//! Error kinds shared by every component of the bridge.
//!
//! Fallible entry points return these values to the caller for local
//! recovery; they are never turned into a process abort by this crate.

use vstd::prelude::*;

verus! {

/// The conditions that scripted or host code can trigger through the bridge.
#[derive(Debug, Clone, PartialEq, Eq)]
pub enum Error {
    /// The single-writer / multi-reader rule of a hosted object was violated.
    BorrowConflict,
    /// The shared-borrow counter of a cell cannot count one more reader.
    /// Distinct from ordinary contention ([`Error::BorrowConflict`]).
    BorrowCountOverflow,
    /// A typed value of the wrong concrete type was asked of a handle.
    TypeMismatch,
    /// The hosted object was already taken out of its slot.
    Destructed,
    /// A reserved or engine-protected metamethod name was registered or
    /// accessed.  Carries the offending name.
    MetaMethodRestricted(String),
    /// A user-value index outside `1..=65535` was used.
    UserValueIndexOutOfRange,
    /// The structural bridge hit its nesting-depth guard.
    SerializationDepthExceeded,
    /// The structural bridge met a dynamic value kind it does not convert.
    UnsupportedValueKind,
    /// An error value raised by a host callback, passed through unchanged.
    /// Carries the host's message.
    HostCallbackError(String),
}

} // verus!
