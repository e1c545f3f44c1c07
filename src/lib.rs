//! Registry-and-bridge layer for filter plugins: authors register named filter
//! constructors, and a host resolves a name and a configuration into a live
//! filter instance whose lifecycle hooks it then drives.
pub mod table;
pub mod config;
pub mod filter;
pub mod registry;
pub mod bridge;
