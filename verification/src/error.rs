//! What can be wrong with a configuration.

use vstd::prelude::*;

verus! {

/// Why a configuration is refused.
#[derive(Debug, Clone)]
pub enum ConfigError {
    /// A regex condition whose pattern does not compile.
    InvalidRegex { pattern: String },
    /// A glob condition whose pattern does not compile.
    InvalidGlob { pattern: String },
    /// A watched path that cannot be read.
    NotAccessible { path: String },
    /// A watched path that is no directory.
    NotADirectory { path: String },
    /// A watched path whose canonical form cannot be had.
    NotCanonical { path: String },
    /// A watched path that, in canonical form, is watched already.
    DuplicateWatcher { path: String },
    /// A move whose destination is empty or blank.
    EmptyDestination,
    /// A move into a directory that does not exist.
    MissingDirectory { destination: String },
    /// A move to a path that has no parent.
    NoParent { destination: String },
    /// A move to a path whose parent does not exist.
    MissingParent { parent: String },
}

} // verus!
