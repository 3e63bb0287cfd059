//! An in-memory board of who is present and who is coming, with entries that
//! expire after a fixed retention window and are evicted lazily on reads.

pub mod board;
pub mod category;
pub mod coming;
pub mod store;
pub mod time;
