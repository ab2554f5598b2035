//! The predicates a rule puts on an event.  Static ones read the path alone
//! and are asked early; the others may read the file and are asked once the
//! file is stable.

pub mod contains;
pub mod extension;
pub mod glob;
pub mod regex;
pub mod size;

pub use contains::ContainsCondition;
pub use extension::ExtensionCondition;
pub use glob::GlobCondition;
pub use regex::RegexCondition;
pub use size::{SizeGtCondition, SizeLtCondition};

use crate::engine::EngineCtx;
use crate::fs::Fs;
use crate::models::EventInfo;
use vstd::prelude::*;

verus! {

/// What a condition needs to give its answer.
#[derive(Debug, Clone, Copy, PartialEq, Eq, Structural)]
pub enum ConditionKind {
    /// The path alone.
    Static,
    /// The file system, possibly.
    Io,
}

/// One condition of a rule.
pub enum Condition {
    Regex(RegexCondition),
    Glob(GlobCondition),
    Extension(ExtensionCondition),
    SizeGt(SizeGtCondition),
    SizeLt(SizeLtCondition),
    Contains(ContainsCondition),
}

impl Condition {
    /// The kind of the condition.
    pub open spec fn kind_of(&self) -> ConditionKind {
        match self {
            Condition::Regex(_) | Condition::Glob(_) | Condition::Extension(_) => {
                ConditionKind::Static
            },
            Condition::SizeGt(_) | Condition::SizeLt(_) | Condition::Contains(_) => {
                ConditionKind::Io
            },
        }
    }

    /// What a static condition says of a path.  The others are not asked
    /// about paths, and let every path pass.
    pub open spec fn holds_on(&self, path: Seq<char>) -> bool {
        match self {
            Condition::Regex(c) => c.holds_on(path),
            Condition::Glob(c) => c.holds_on(path),
            Condition::Extension(c) => c.holds_on(path),
            _ => true,
        }
    }

    /// What a condition on the size says of a file of `len` bytes.  The
    /// others let every size pass.
    pub open spec fn holds_for_size(&self, len: u64) -> bool {
        match self {
            Condition::SizeGt(c) => c.holds_for(len),
            Condition::SizeLt(c) => c.holds_for(len),
            _ => true,
        }
    }

    /// `b` is what the condition says of `ev`, as far as `fs` answers: a
    /// static condition is decided by the path; a condition on the size by
    /// the size that came with the event or, failing that, by the metadata
    /// that `fs` shows; a condition on the text by what `fs` reads.
    pub open spec fn answers<F: Fs>(&self, fs: &F, ev: EventInfo, b: bool) -> bool {
        match self {
            Condition::Regex(c) => b == c.holds_on(ev.path@),
            Condition::Glob(c) => b == c.holds_on(ev.path@),
            Condition::Extension(c) => b == c.holds_on(ev.path@),
            Condition::SizeGt(c) => c.answers(fs, ev.path@, ev.known_size(), b),
            Condition::SizeLt(c) => c.answers(fs, ev.path@, ev.known_size(), b),
            Condition::Contains(c) => c.answers(fs, ev.path@, ev.known_size(), b),
        }
    }

    /// The kind of the condition.
    pub fn kind(&self) -> (k: ConditionKind)
        ensures
            k == self.kind_of(),
    {
        match self {
            Condition::Regex(c) => c.kind(),
            Condition::Glob(c) => c.kind(),
            Condition::Extension(c) => c.kind(),
            Condition::SizeGt(c) => c.kind(),
            Condition::SizeLt(c) => c.kind(),
            Condition::Contains(c) => c.kind(),
        }
    }

    /// Whether the event passes.  A static condition is decided by the path;
    /// a condition on the size by the size that came with the event, if one
    /// did; the rest by what the file system returns.
    pub fn matches<F: Fs>(&self, ev: &EventInfo, ctx: &EngineCtx<F>) -> (b: bool)
        ensures
            self.answers(&ctx.fs, *ev, b),
            self.kind_of() == ConditionKind::Static ==> b == self.holds_on(ev.path@),
            ev.known_size() matches Some(len) ==> (self is SizeGt || self is SizeLt) ==> b
                == self.holds_for_size(len),
            ev.known_size() matches Some(len) && len > contains::MAX_CONTENT_BYTES ==> self
                is Contains ==> !b,
    {
        match self {
            Condition::Regex(c) => c.matches(ev, ctx),
            Condition::Glob(c) => c.matches(ev, ctx),
            Condition::Extension(c) => c.matches(ev, ctx),
            Condition::SizeGt(c) => c.matches(ev, ctx),
            Condition::SizeLt(c) => c.matches(ev, ctx),
            Condition::Contains(c) => c.matches(ev, ctx),
        }
    }
}

} // verus!
