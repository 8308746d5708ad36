//! The command line of the tool.
use vstd::prelude::*;

verus! {

/// What the command line asks for.
pub struct Opt {
    /// Show version
    pub version: bool,
    pub verbose: bool,
    /// Path of an alternate configuration file
    pub custom_config_file: Option<String>,
    /// Restore files
    pub restore: bool,
    /// Files to process
    pub files: Vec<String>,
}

} // verus!
