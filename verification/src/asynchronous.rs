//! The maps for tasks. Waiting for the index is the caller's part: it awaits
//! the map's lock and hands the locked index to the map. Only the release of
//! a handle, which has nowhere to await, waits on its own and blocks.

pub mod lock;
pub mod rod_btree_map;
pub mod rod_hash_map;
