//! A growable, contiguously stored sequence container built on an explicit
//! slot buffer: capacity management with a doubling growth policy, element
//! placement and removal tracked by a length boundary, mid-sequence insert
//! and remove by block shifting, and a consuming iterator that drains from
//! both ends.

pub mod buffer;
pub mod container;
pub mod growth;
pub mod laws;

pub use container::IntoIter;
pub use container::Vec;
