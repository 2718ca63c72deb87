//! Containers keyed by types: a map that stores one value of a common type
//! under each type, and a set that stores at most one value of each type.
//! Both keep their entries in the order of insertion.
//!
//! - [`key`]: the key, which identifies a static type.
//! - [`model`]: the entries of a container as a sequence, and what the
//!   operations make of it.
//! - [`laws`]: what holds of every container.
//! - [`order`]: the hashed index of the keys.
//! - [`map`], [`entry`], [`iter`]: the map, the place of one key in it, and the
//!   walks over its entries.
//! - [`casting`], [`set`]: the erased handles and the set that stores them.

pub mod casting;
pub mod entry;
pub mod iter;
pub mod key;
pub mod laws;
pub mod map;
pub mod model;
pub mod order;
mod room;
pub mod set;

pub use casting::{Downcast, Erased, IntoBox, LocalAny, SendAny, SyncAny};
pub use entry::Entry;
pub use iter::{Iter, IterMut, Keys, Values, ValuesMut};
pub use key::Type;
pub use map::{ReserveError, SingletonMap};
pub use set::SingletonSet;
