//! Manifest hierarchy for nested Rust package collections.
//!
//! A top-level *nexus* groups workspaces and packages, a *workspace* groups
//! packages, and a *package* is one buildable unit. The library models that
//! hierarchy, resolves dependencies that are located by name across it, and
//! plans the export of a package together with every local package it
//! transitively depends on into one flattened tree of links.
//!
//! Filesystem access lives outside this crate: callers hand the library the
//! manifests they loaded, and the library answers with values to write.

pub mod config;
pub mod crates;
pub mod dependency;
pub mod describe;
pub mod discovery;
pub mod export;
pub mod generator;
pub mod init;
pub mod loader;
pub mod manager;
pub mod models;
pub mod paths;
pub mod submodule;
pub mod table;
pub mod text;
pub mod tree;

pub use export::export;
pub use generator::generate;
pub use manager::check;
pub use paths::maybe_join;
pub use tree::tree;
