//! The action that renames a file in its own directory.

use crate::actions::{ActionError, ActionOutcome};
use crate::engine::EngineCtx;
use crate::fs::{rename_answer, Fs, FsError};
use crate::paths::{join, joined, parent, parent_of};
use crate::template::{rendered, Stamps, Template};
use vstd::prelude::*;
use vstd::string::*;

verus! {

/// A new file name, with placeholders.
pub struct RenameAction {
    template: String,
}

impl RenameAction {
    /// The template as it was given.
    pub closed spec fn template(&self) -> Seq<char> {
        self.template@
    }

    /// Where the file goes: the new name, filled in, in the parent of `path`.
    pub open spec fn target(&self, path: Seq<char>, stamps: Stamps) -> Option<Seq<char>> {
        match parent_of(path) {
            Some(dir) => Some(joined(dir, rendered(self.template(), path, stamps))),
            None => None,
        }
    }

    /// `r` is what the action returns once `rename` has answered `moved` to
    /// the request to move `from` to `to`: the move that was made, or the
    /// refusal in the file system's words.
    pub open spec fn concluded(
        from: Seq<char>,
        to: Seq<char>,
        moved: Result<(), FsError>,
        r: Result<ActionOutcome, ActionError>,
    ) -> bool {
        match moved {
            Ok(_) => r matches Ok(ActionOutcome::Renamed { from: f, to: t }) && f@ == from && t@
                == to,
            Err(e) => r matches Err(ActionError::IoFailure { message }) && message == e.message,
        }
    }

    /// `r` is the result of the action for `path`, as far as `fs` answers.
    /// Without a parent the action fails with `NoParent` and asks nothing.
    /// With one, it asks `fs` to move the file to the target, and the answer
    /// decides.
    pub open spec fn results_in<F: Fs>(
        &self,
        fs: &F,
        path: Seq<char>,
        stamps: Stamps,
        r: Result<ActionOutcome, ActionError>,
    ) -> bool {
        match self.target(path, stamps) {
            None => r matches Err(ActionError::NoParent { path: p }) && p@ == path,
            Some(target) => Self::renamed_to(fs, path, target, r),
        }
    }

    /// `r` is the result of asking `fs` to move `from` to `to`.
    pub open spec fn renamed_to<F: Fs>(
        fs: &F,
        from: Seq<char>,
        to: Seq<char>,
        r: Result<ActionOutcome, ActionError>,
    ) -> bool {
        exists|moved: Result<(), FsError>|
            rename_answer(fs, from, to, moved) && Self::concluded(from, to, moved, r)
    }

    /// The action that renames to what `template` gives.
    pub fn new(template: String) -> (r: Self)
        ensures
            r.template() == template@,
    {
        RenameAction { template }
    }

    /// Where the file goes, or the failure for a path without parent.
    pub fn target_at(&self, path: &str, stamps: &Stamps) -> (r: Result<String, ActionError>)
        ensures
            match r {
                Ok(target) => self.target(path@, *stamps) == Some(target@),
                Err(ActionError::NoParent { path: p }) => self.target(path@, *stamps) is None
                    && p@ == path@,
                Err(_) => false,
            },
    {
        let name = Template::new(self.template.clone()).render_at(path, stamps);
        match parent(path) {
            Some(dir) => Ok(join(dir.as_str(), name.as_str())),
            None => Err(ActionError::NoParent { path: String::from_str(path) }),
        }
    }

    /// What the action returns once `rename` has answered.
    pub fn conclude(from: &str, to: String, moved: Result<(), FsError>) -> (r: Result<
        ActionOutcome,
        ActionError,
    >)
        ensures
            Self::concluded(from@, to@, moved, r),
    {
        match moved {
            Ok(()) => Ok(ActionOutcome::Renamed { from: String::from_str(from), to }),
            Err(e) => Err(ActionError::IoFailure { message: e.message }),
        }
    }

    /// Renames `path`, with the given date and time.
    pub fn run_at<F: Fs>(&self, path: &str, ctx: &EngineCtx<F>, stamps: &Stamps) -> (r: Result<
        ActionOutcome,
        ActionError,
    >)
        ensures
            self.results_in(&ctx.fs, path@, *stamps, r),
    {
        let target = match self.target_at(path, stamps) {
            Ok(target) => target,
            Err(e) => {
                return Err(e);
            },
        };
        let ghost goal = target@;
        let moved = ctx.fs.rename(path, target.as_str());
        assert(rename_answer(&ctx.fs, path@, goal, moved));
        let r = Self::conclude(path, target, moved);
        assert(Self::renamed_to(&ctx.fs, path@, goal, r));
        r
    }

    /// Renames `path`, with the date and time that the clock shows during the
    /// call.
    pub fn run<F: Fs>(&self, path: &str, ctx: &EngineCtx<F>) -> (r: Result<
        ActionOutcome,
        ActionError,
    >)
        ensures
            exists|stamps: Stamps|
                stamps.from_clock() && #[trigger] self.results_in(&ctx.fs, path@, stamps, r),
    {
        let stamps = Stamps::now();
        let r = self.run_at(path, ctx, &stamps);
        assert(stamps.from_clock() && self.results_in(&ctx.fs, path@, stamps, r));
        r
    }
}

} // verus!
