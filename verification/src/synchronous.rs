//! The maps for threads: a caller that finds the index locked waits for it.

pub mod lock;
pub mod rod_btree_map;
pub mod rod_hash_map;
