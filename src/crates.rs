//! Plain descriptions used around the manifest models.

use vstd::prelude::*;

verus! {

/// A crate found on disk.
#[derive(Debug, Clone)]
pub struct CrateModel {
    pub name: String,
    pub version: Option<String>,
    /// The crate's directory.
    pub path: String,
    /// Its build-tool manifest.
    pub cargo_toml_path: String,
    /// Its own manifest, if it has one.
    pub magnet_toml_path: Option<String>,
    pub has_custom_config: bool,
}

/// How much to log.
#[derive(Debug, Clone, Copy, PartialEq, Eq, Structural)]
pub enum LogLevel {
    Info,
    Debug,
    Trace,
}

impl LogLevel {
    /// The level for a count of verbosity flags.
    pub fn from_verbosity(n: u8) -> (r: LogLevel)
        ensures
            r == if n == 0 {
                LogLevel::Info
            } else if n == 1 {
                LogLevel::Debug
            } else {
                LogLevel::Trace
            },
    {
        if n == 0 {
            LogLevel::Info
        } else if n == 1 {
            LogLevel::Debug
        } else {
            LogLevel::Trace
        }
    }
}

} // verus!
