//! The condition that holds a shell-style pattern against the file name.

use crate::conditions::ConditionKind;
use crate::engine::EngineCtx;
use crate::error::ConfigError;
use crate::fs::Fs;
use crate::models::EventInfo;
use crate::paths::{file_name, name_of};
use vstd::prelude::*;

verus! {

/// What `glob::Pattern::new` makes of `pattern`: whether it compiles.  The
/// syntax of shell-style patterns is that crate's, and is not restated here.
pub uninterp spec fn glob_valid(pattern: Seq<char>) -> bool;

/// What `glob::Pattern::matches` makes of `text` for the pattern compiled from
/// `pattern`: whether the pattern matches the whole of `text`.  It stands for
/// `false` where `pattern` does not compile.
pub uninterp spec fn glob_accepts(pattern: Seq<char>, text: Seq<char>) -> bool;

/// Calls `glob::Pattern::new` and tells whether it returned a pattern.  Not
/// proved: that the answer is `glob_valid`, which is a name for just this
/// answer.
#[verifier::external_body]
fn glob_compiles(pattern: &str) -> (ok: bool)
    ensures
        ok == glob_valid(pattern@),
{
    glob::Pattern::new(pattern).is_ok()
}

/// Compiles `pattern` with `glob::Pattern::new` and calls
/// `glob::Pattern::matches` on `text`; a pattern that does not compile matches
/// nothing.  Not proved: that the answer is `glob_accepts`, which is a name
/// for just this answer.
#[verifier::external_body]
fn glob_is_match(pattern: &str, text: &str) -> (found: bool)
    ensures
        found == glob_accepts(pattern@, text@),
{
    match glob::Pattern::new(pattern) {
        Ok(compiled) => compiled.matches(text),
        Err(_) => false,
    }
}

/// A shell-style pattern for file names.  Every value holds a pattern that
/// compiles.
pub struct GlobCondition {
    pattern: String,
}

impl GlobCondition {
    #[verifier::type_invariant]
    spec fn compiles(&self) -> bool {
        glob_valid(self.pattern@)
    }

    /// The pattern as it was given.
    pub closed spec fn pattern(&self) -> Seq<char> {
        self.pattern@
    }

    /// What the condition says of a path: its file name is matched.
    pub open spec fn holds_on(&self, path: Seq<char>) -> bool {
        match name_of(path) {
            Some(name) => glob_accepts(self.pattern(), name),
            None => false,
        }
    }

    /// Compiles `pattern`, or refuses it.
    pub fn new(pattern: String) -> (r: Result<Self, ConfigError>)
        ensures
            match r {
                Ok(cond) => glob_valid(pattern@) && cond.pattern() == pattern@,
                Err(ConfigError::InvalidGlob { pattern: refused }) => !glob_valid(pattern@)
                    && refused == pattern,
                Err(_) => false,
            },
    {
        if glob_compiles(pattern.as_str()) {
            Ok(GlobCondition { pattern })
        } else {
            Err(ConfigError::InvalidGlob { pattern })
        }
    }

    /// The pattern, which compiles.
    pub fn source(&self) -> (s: &str)
        ensures
            s@ == self.pattern(),
            glob_valid(s@),
    {
        proof {
            use_type_invariant(self);
        }
        self.pattern.as_str()
    }

    /// The kind of the condition: it reads the path alone.
    pub fn kind(&self) -> (k: ConditionKind)
        ensures
            k == ConditionKind::Static,
    {
        ConditionKind::Static
    }

    /// Whether the file name of the event's path is matched.
    pub fn matches<F: Fs>(&self, ev: &EventInfo, ctx: &EngineCtx<F>) -> (b: bool)
        ensures
            b == self.holds_on(ev.path@),
    {
        match file_name(ev.path.as_str()) {
            Some(name) => glob_is_match(self.pattern.as_str(), name.as_str()),
            None => false,
        }
    }
}

} // verus!
