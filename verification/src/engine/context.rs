//! What every condition and action is handed.

use crate::fs::Fs;
use vstd::prelude::*;

verus! {

/// The engine's handle on the world outside: the file system.
pub struct EngineCtx<F: Fs> {
    pub fs: F,
}

impl<F: Fs> EngineCtx<F> {
    /// A handle on the file system `fs`.
    pub fn new(fs: F) -> (r: Self)
        ensures
            r.fs == fs,
    {
        EngineCtx { fs }
    }
}

} // verus!
