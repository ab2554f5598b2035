//! The condition that holds a regular expression against the file name.

use crate::conditions::ConditionKind;
use crate::engine::EngineCtx;
use crate::error::ConfigError;
use crate::fs::Fs;
use crate::models::EventInfo;
use crate::paths::{file_name, name_of};
use vstd::prelude::*;

verus! {

/// What `regex::Regex::new` makes of `pattern`: whether it compiles.  The
/// syntax of regular expressions is that crate's, and is not restated here.
pub uninterp spec fn regex_valid(pattern: Seq<char>) -> bool;

/// What `regex::Regex::is_match` makes of `text` for the expression compiled
/// from `pattern`: whether it finds a match somewhere in `text`.  It stands
/// for `false` where `pattern` does not compile.
pub uninterp spec fn regex_accepts(pattern: Seq<char>, text: Seq<char>) -> bool;

/// Calls `regex::Regex::new` and tells whether it returned an expression.
/// Not proved: that the answer is `regex_valid`, which is a name for just
/// this answer.
#[verifier::external_body]
fn regex_compiles(pattern: &str) -> (ok: bool)
    ensures
        ok == regex_valid(pattern@),
{
    regex::Regex::new(pattern).is_ok()
}

/// Compiles `pattern` with `regex::Regex::new` and calls
/// `regex::Regex::is_match` on `text`; a pattern that does not compile matches
/// nothing.  Not proved: that the answer is `regex_accepts`, which is a name
/// for just this answer.
#[verifier::external_body]
fn regex_is_match(pattern: &str, text: &str) -> (found: bool)
    ensures
        found == regex_accepts(pattern@, text@),
{
    match regex::Regex::new(pattern) {
        Ok(compiled) => compiled.is_match(text),
        Err(_) => false,
    }
}

/// A regular expression for file names.  Every value holds a pattern that
/// compiles.
pub struct RegexCondition {
    pattern: String,
}

impl RegexCondition {
    #[verifier::type_invariant]
    spec fn compiles(&self) -> bool {
        regex_valid(self.pattern@)
    }

    /// The pattern as it was given.
    pub closed spec fn pattern(&self) -> Seq<char> {
        self.pattern@
    }

    /// What the condition says of a path: its file name is matched.
    pub open spec fn holds_on(&self, path: Seq<char>) -> bool {
        match name_of(path) {
            Some(name) => regex_accepts(self.pattern(), name),
            None => false,
        }
    }

    /// Compiles `pattern`, or refuses it.
    pub fn new(pattern: String) -> (r: Result<Self, ConfigError>)
        ensures
            match r {
                Ok(cond) => regex_valid(pattern@) && cond.pattern() == pattern@,
                Err(ConfigError::InvalidRegex { pattern: refused }) => !regex_valid(pattern@)
                    && refused == pattern,
                Err(_) => false,
            },
    {
        if regex_compiles(pattern.as_str()) {
            Ok(RegexCondition { pattern })
        } else {
            Err(ConfigError::InvalidRegex { pattern })
        }
    }

    /// The pattern, which compiles.
    pub fn source(&self) -> (s: &str)
        ensures
            s@ == self.pattern(),
            regex_valid(s@),
    {
        proof {
            use_type_invariant(self);
        }
        self.pattern.as_str()
    }

    /// The kind of the condition: it reads the path alone.
    pub fn kind(&self) -> (k: ConditionKind)
        ensures
            k == ConditionKind::Static,
    {
        ConditionKind::Static
    }

    /// Whether the file name of the event's path is matched.
    pub fn matches<F: Fs>(&self, ev: &EventInfo, ctx: &EngineCtx<F>) -> (b: bool)
        ensures
            b == self.holds_on(ev.path@),
    {
        match file_name(ev.path.as_str()) {
            Some(name) => regex_is_match(self.pattern.as_str(), name.as_str()),
            None => false,
        }
    }
}

} // verus!
