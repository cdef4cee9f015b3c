//! A self-cleaning map: an entry stays indexed for as long as somebody holds
//! a handle to its value, and leaves the index at the moment the last handle
//! is released.

pub mod asynchronous;
pub mod entries;
pub mod families;
pub mod model;
pub mod order;
mod quiet;
pub mod scanned_index;
pub mod shelf;
pub mod sorted_index;
pub mod synchronous;
