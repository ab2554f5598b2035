//! The condition on the extension of the file name.

use crate::conditions::ConditionKind;
use crate::engine::EngineCtx;
use crate::fs::Fs;
use crate::models::EventInfo;
use crate::paths::{extension, extension_of};
use crate::text::{lowered, lowered_is};
use vstd::prelude::*;

verus! {

/// An extension, without the dot, that a file must have.
pub struct ExtensionCondition {
    extension: String,
}

impl ExtensionCondition {
    /// The extension that is asked for.
    pub closed spec fn wanted(&self) -> Seq<char> {
        self.extension@
    }

    /// What the condition says of a path: its extension, lower-cased, is the
    /// one asked for.  The one asked for is taken as it stands.
    pub open spec fn holds_on(&self, path: Seq<char>) -> bool {
        match extension_of(path) {
            Some(ext) => lowered(ext) == self.wanted(),
            None => false,
        }
    }

    /// The condition that the file has the extension `extension`.
    pub fn new(extension: String) -> (r: Self)
        ensures
            r.wanted() == extension@,
    {
        ExtensionCondition { extension }
    }

    /// The kind of the condition: it reads the path alone.
    pub fn kind(&self) -> (k: ConditionKind)
        ensures
            k == ConditionKind::Static,
    {
        ConditionKind::Static
    }

    /// Whether the event's path has the extension asked for.
    pub fn matches<F: Fs>(&self, ev: &EventInfo, ctx: &EngineCtx<F>) -> (b: bool)
        ensures
            b == self.holds_on(ev.path@),
    {
        match extension(ev.path.as_str()) {
            Some(ext) => lowered_is(ext.as_str(), self.extension.as_str()),
            None => false,
        }
    }
}

} // verus!
