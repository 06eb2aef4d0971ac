//! Core of a Btrfs management daemon: a registry of discovered filesystems,
//! an authoritative tracker of subvolumes and their snapshot lineage,
//! per-filesystem serialization tokens for mutating operations, and the
//! schedule state that drives periodic snapshot creation.
//!
//! Physical filesystem work (the driver) and transport I/O live outside this
//! library; the core validates each operation, and applies a state change
//! only once the caller reports that the driver confirmed it.

pub mod codec;
pub mod daemon;
pub mod data;
pub mod error;
pub mod interface;
pub mod laws;
pub mod registry;
pub mod scheduler;
pub mod tokens;
