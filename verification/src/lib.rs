//! Stores for the partitions of a shuffle.
//!
//! A partition is a list of record batches under a path. It can be kept in
//! memory, in a file, or in both:
//!
//! - [`memory`]: batches and streams held in memory, each stream handed out once;
//! - [`disk`]: which file to create, write, finish, open or remove, and what the
//!   caller is told about the outcome;
//! - [`hybrid`]: memory first, with a copy on disk to fall back on;
//! - [`effects`]: what each operation does, and what it leaves alone;
//! - [`laws`]: what holds across several calls, and across the stores.
//!
//! The library decides and keeps the books; opening files and polling streams is
//! the work of the crate around it.
pub mod batch;
pub mod disk;
pub mod effects;
pub mod error;
pub mod hybrid;
pub mod laws;
pub mod memory;
pub mod path_map;
pub mod stats;
pub mod store_ref;
pub mod stream;
