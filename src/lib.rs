//! Core logic of a small development server for WebAssembly modules: how the
//! size of a generated module is reported, how command-line flags resolve to
//! a server configuration, and when an input path is accepted.

pub mod launch;
pub mod size;

pub use launch::{CliArgs, Launch, LaunchError, Options};
pub use size::pretty_size;
