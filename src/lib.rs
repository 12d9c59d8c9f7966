//! Change notification for fields of a remote hash store.
//!
//! The store has no way to push field changes, so watched (hash, field) keys
//! are polled: each lookup is compared with the value last observed for the
//! key, and the key's callback is invoked exactly when the value differs.
pub mod events;
pub mod laws;
pub mod store;
pub mod table;

pub use events::{RedisEvents, StartError};
