//! Moves files to a waste folder and keeps FreeDesktop.org `.trashinfo`
//! records about them; this crate holds the computations behind that.
pub mod cli_options;
pub mod config;
pub mod libgen;
pub mod mrl;
pub mod paths;
pub mod removal;
pub mod text;
pub mod timestamp;
pub mod trashinfo;
pub mod utils;
pub mod waste;
