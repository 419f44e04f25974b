//! Runtime borrow-safety bridge for host objects living inside an embedded,
//! dynamically-typed scripting engine.
//!
//! The engine's collector — not the host — owns the storage of a hosted
//! object, so the host's aliasing rules must be enforced at run time.  The
//! crate models the engine-owned storage as an arena of slots ([`userdata::Heap`]),
//! each slot holding a borrow-tracked cell, a dispatch metatable and the
//! object's auxiliary user values, and proves that the single-writer /
//! multi-reader discipline, the `take` lifecycle, the dispatch lookup order
//! and the structural value bridge behave as stated.

pub mod app_data;
pub mod bridge;
pub mod cell;
pub mod error;
pub mod registry;
pub mod lookup;
pub mod userdata;
pub mod value;

pub use app_data::{AppData, AppDataRef, AppDataRefMut};
pub use bridge::{DeserializeOptions, HostValue, SerializeOptions};
pub use cell::UserDataCell;
pub use registry::{UserData, UserDataFields, UserDataMethods, UserDataRegistry};
pub use error::Error;
pub use userdata::{
    AnyUserData, EqOutcome, Heap, MetaMethod, UserDataMetatable, UserDataMetatablePairs,
    UserDataRef, UserDataRefMut,
};
pub use value::{Table, Value};
