//! The action that moves a file.

use crate::actions::{ActionError, ActionOutcome};
use crate::engine::EngineCtx;
use crate::fs::{create_answer, presence_answer, rename_answer, Fs, FsError};
use crate::paths::{
    extension, extension_of, file_name, file_stem, join, joined, name_of, parent, parent_of,
    stem_of,
};
use crate::template::{or_empty, rendered, Stamps, Template};
use crate::text::{chars_of, decimal, decimal_of};
use vstd::prelude::*;
use vstd::string::*;

verus! {

/// How many numbered names are tried before a move gives up.
pub const MAX_SUFFIX: u32 = 10_000;

/// What to do when something is at the destination already.
#[derive(Debug, Clone, Copy, PartialEq, Eq, Structural)]
pub enum MoveOverwritePolicy {
    /// Fail.
    Error,
    /// Leave the file where it is, and succeed.
    Skip,
    /// Move, and let `rename` replace what is there.
    Overwrite,
    /// Move to the first free name among `_1`, `_2`, and so on.
    Suffix,
}

impl Default for MoveOverwritePolicy {
    /// The policy where none is declared: to fail.
    fn default() -> (r: Self)
        ensures
            r == MoveOverwritePolicy::Error,
    {
        MoveOverwritePolicy::Error
    }
}

/// What a move does next, once it knows whether something is at the target.
#[derive(Debug, Clone, Copy, PartialEq, Eq, Structural)]
pub enum Placement {
    /// Move to the target.
    Place,
    /// Leave the file where it is.
    Leave,
    /// Fail: the destination exists.
    Refuse,
    /// Look for a free numbered name.
    Number,
}

/// A destination that names a directory: it ends in `/` or `\`.
pub open spec fn names_directory(destination: Seq<char>) -> bool {
    destination.len() > 0 && (destination.last() == '/' || destination.last() == '\\')
}

/// Where a move of `source` to `destination` goes: into the directory, under
/// the file name of `source`, or to the very path.  There is no such place
/// where a directory is named and `source` has no file name.
pub open spec fn move_target(destination: Seq<char>, source: Seq<char>) -> Option<Seq<char>> {
    if names_directory(destination) {
        match name_of(source) {
            Some(name) => Some(joined(destination, name)),
            None => None,
        }
    } else {
        Some(destination)
    }
}

/// The `i`-th numbered name for `target`: `_i` stands before the extension.
pub open spec fn numbered(target: Seq<char>, i: nat) -> Seq<char> {
    let stem = or_empty(stem_of(target));
    let ext = or_empty(extension_of(target));
    let name = if ext.len() == 0 {
        stem + "_"@ + decimal(i)
    } else {
        stem + "_"@ + decimal(i) + "."@ + ext
    };
    joined(or_empty(parent_of(target)), name)
}

/// What a move under `policy` does next, where `taken` says whether something
/// is at the target.
pub open spec fn placement(policy: MoveOverwritePolicy, taken: bool) -> Placement {
    if !taken {
        Placement::Place
    } else {
        match policy {
            MoveOverwritePolicy::Error => Placement::Refuse,
            MoveOverwritePolicy::Skip => Placement::Leave,
            MoveOverwritePolicy::Overwrite => Placement::Place,
            MoveOverwritePolicy::Suffix => Placement::Number,
        }
    }
}

/// A file to move, by a destination with placeholders and a policy.
pub struct MoveAction {
    destination: String,
    overwrite: MoveOverwritePolicy,
}

impl MoveAction {
    /// The destination as it was given.
    pub closed spec fn destination(&self) -> Seq<char> {
        self.destination@
    }

    /// The policy.
    pub closed spec fn policy(&self) -> MoveOverwritePolicy {
        self.overwrite
    }

    /// Where the file goes if nothing is in the way.
    pub open spec fn target(&self, path: Seq<char>, stamps: Stamps) -> Option<Seq<char>> {
        move_target(rendered(self.destination(), path, stamps), path)
    }

    /// `fs` showed that `name` is the first free numbered name of `target`:
    /// it said that something is at each numbered name before it, and that
    /// nothing is at `name`.
    pub open spec fn first_free<F: Fs>(fs: &F, target: Seq<char>, name: Seq<char>) -> bool {
        exists|i: nat|
            {
                &&& 1 <= i <= MAX_SUFFIX
                &&& name == numbered(target, i)
                &&& presence_answer(fs, name, false)
                &&& forall|j: nat|
                    1 <= j < i ==> presence_answer(fs, #[trigger] numbered(target, j), true)
            }
    }

    /// `fs` showed no free numbered name of `target` among the first
    /// `MAX_SUFFIX`.
    pub open spec fn none_free<F: Fs>(fs: &F, target: Seq<char>) -> bool {
        forall|j: nat|
            1 <= j <= MAX_SUFFIX ==> presence_answer(fs, #[trigger] numbered(target, j), true)
    }

    /// `r` is what the action returns once `rename` has answered `moved` to
    /// the request to move `from` to `to`: the move that was made, or the
    /// refusal in the file system's words.
    pub open spec fn concluded(
        from: Seq<char>,
        to: Seq<char>,
        moved: Result<(), FsError>,
        r: Result<ActionOutcome, ActionError>,
    ) -> bool {
        match moved {
            Ok(_) => r matches Ok(ActionOutcome::Moved { from: f, to: t }) && f@ == from && t@
                == to,
            Err(e) => r matches Err(ActionError::IoFailure { message }) && message == e.message,
        }
    }

    /// `r` is the result of asking `fs` to move `from` to `to`.
    pub open spec fn moved_to<F: Fs>(
        fs: &F,
        from: Seq<char>,
        to: Seq<char>,
        r: Result<ActionOutcome, ActionError>,
    ) -> bool {
        exists|moved: Result<(), FsError>|
            rename_answer(fs, from, to, moved) && Self::concluded(from, to, moved, r)
    }

    /// `r` is the result of numbering: the move to the first free numbered
    /// name of `target`, or a collision where `fs` showed none to be free.
    pub open spec fn numbered_to<F: Fs>(
        fs: &F,
        path: Seq<char>,
        target: Seq<char>,
        r: Result<ActionOutcome, ActionError>,
    ) -> bool {
        ||| Self::none_free(fs, target) && Self::is_collision(r, target)
        ||| exists|name: Seq<char>|
            Self::first_free(fs, target, name) && Self::moved_to(fs, path, name, r)
    }

    /// `r` says that no numbered name of `target` was free.
    pub open spec fn is_collision(r: Result<ActionOutcome, ActionError>, target: Seq<char>) -> bool {
        match r {
            Err(ActionError::Collision { target: t }) => t@ == target,
            _ => false,
        }
    }

    /// `r` says that the file was left because something is at `target`.
    pub open spec fn is_skip(r: Result<ActionOutcome, ActionError>, target: Seq<char>) -> bool {
        match r {
            Ok(ActionOutcome::Skipped { target: t }) => t@ == target,
            _ => false,
        }
    }

    /// `r` says that the move was refused because something is at `target`.
    pub open spec fn is_refusal(r: Result<ActionOutcome, ActionError>, target: Seq<char>) -> bool {
        match r {
            Err(ActionError::DestinationExists { target: t }) => t@ == target,
            _ => false,
        }
    }

    /// `r` is the result of placing the file of `path` at `target`, as far as
    /// `fs` answers: `fs` is asked whether something is at `target`, and the
    /// policy decides what follows.
    pub open spec fn placed<F: Fs>(
        &self,
        fs: &F,
        path: Seq<char>,
        target: Seq<char>,
        r: Result<ActionOutcome, ActionError>,
    ) -> bool {
        exists|taken: bool|
            presence_answer(fs, target, taken) && match placement(self.policy(), taken) {
                Placement::Place => Self::moved_to(fs, path, target, r),
                Placement::Leave => Self::is_skip(r, target),
                Placement::Refuse => Self::is_refusal(r, target),
                Placement::Number => Self::numbered_to(fs, path, target, r),
            }
    }

    /// `r` is the result of the action for `path`, as far as `fs` answers.
    ///
    /// Without a target the action fails with `NoFileName` and asks nothing.
    /// With one, it asks `fs` to create the parent of the target, if the
    /// target has one, and fails if `fs` refuses.  Then it places the file:
    /// at the target if nothing is there or the policy is to replace; at the
    /// first free numbered name if the policy is to number; not at all if the
    /// policy is to leave or to fail.
    pub open spec fn results_in<F: Fs>(
        &self,
        fs: &F,
        path: Seq<char>,
        stamps: Stamps,
        r: Result<ActionOutcome, ActionError>,
    ) -> bool {
        match self.target(path, stamps) {
            None => r matches Err(ActionError::NoFileName { path: p }) && p@ == path,
            Some(target) => match parent_of(target) {
                None => self.placed(fs, path, target, r),
                Some(dir) => self.placed_in(fs, path, target, dir, r),
            },
        }
    }

    /// `r` is the result of creating the parent `dir` of `target` and, where
    /// `fs` did so, of placing the file of `path` at `target`.
    pub open spec fn placed_in<F: Fs>(
        &self,
        fs: &F,
        path: Seq<char>,
        target: Seq<char>,
        dir: Seq<char>,
        r: Result<ActionOutcome, ActionError>,
    ) -> bool {
        exists|made: Result<(), FsError>|
            create_answer(fs, dir, made) && match made {
                Ok(_) => self.placed(fs, path, target, r),
                Err(e) => r matches Err(ActionError::IoFailure { message }) && message
                    == e.message,
            }
    }

    /// A move to `destination`; without a policy, one that fails where
    /// something is in the way.
    pub fn new(destination: String, overwrite: Option<MoveOverwritePolicy>) -> (r: Self)
        ensures
            r.destination() == destination@,
            r.policy() == match overwrite {
                Some(policy) => policy,
                None => MoveOverwritePolicy::Error,
            },
    {
        MoveAction {
            destination,
            overwrite: match overwrite {
                Some(policy) => policy,
                None => MoveOverwritePolicy::Error,
            },
        }
    }

    /// Where a move of `source` to the filled-in `destination` goes.
    pub fn target_for(destination: &str, source: &str) -> (r: Result<String, ActionError>)
        ensures
            match r {
                Ok(target) => move_target(destination@, source@) == Some(target@),
                Err(ActionError::NoFileName { path }) => move_target(destination@, source@)
                    is None && path@ == source@,
                Err(_) => false,
            },
    {
        let d = chars_of(destination);
        if d.len() > 0 && (d[d.len() - 1] == '/' || d[d.len() - 1] == '\\') {
            match file_name(source) {
                Some(name) => Ok(join(destination, name.as_str())),
                None => Err(ActionError::NoFileName { path: String::from_str(source) }),
            }
        } else {
            Ok(String::from_str(destination))
        }
    }

    /// The `i`-th numbered name for `target`.
    pub fn numbered_name(target: &str, i: u32) -> (r: String)
        ensures
            r@ == numbered(target@, i as nat),
    {
        let dir = match parent(target) {
            Some(dir) => dir,
            None => String::new(),
        };
        let stem = match file_stem(target) {
            Some(stem) => stem,
            None => String::new(),
        };
        let ext = match extension(target) {
            Some(ext) => ext,
            None => String::new(),
        };
        let mut name = stem;
        name.append("_");
        name.append(decimal_of(i).as_str());
        if !ext.as_str().is_empty() {
            name.append(".");
            name.append(ext.as_str());
        }
        join(dir.as_str(), name.as_str())
    }

    /// What the move does next, where `taken` says whether something is at
    /// the target.
    pub fn place(&self, taken: bool) -> (p: Placement)
        ensures
            p == placement(self.policy(), taken),
    {
        if !taken {
            Placement::Place
        } else {
            match self.overwrite {
                MoveOverwritePolicy::Error => Placement::Refuse,
                MoveOverwritePolicy::Skip => Placement::Leave,
                MoveOverwritePolicy::Overwrite => Placement::Place,
                MoveOverwritePolicy::Suffix => Placement::Number,
            }
        }
    }

    /// What the action returns once `rename` has answered.
    pub fn conclude(from: &str, to: String, moved: Result<(), FsError>) -> (r: Result<
        ActionOutcome,
        ActionError,
    >)
        ensures
            Self::concluded(from@, to@, moved, r),
    {
        match moved {
            Ok(()) => Ok(ActionOutcome::Moved { from: String::from_str(from), to }),
            Err(e) => Err(ActionError::IoFailure { message: e.message }),
        }
    }

    /// The first numbered name of `target` at which nothing stands, among the
    /// first `MAX_SUFFIX`.
    pub fn free_name<F: Fs>(target: &str, ctx: &EngineCtx<F>) -> (r: Option<String>)
        ensures
            match r {
                Some(name) => Self::first_free(&ctx.fs, target@, name@),
                None => Self::none_free(&ctx.fs, target@),
            },
    {
        let mut i: u32 = 1;
        while i <= MAX_SUFFIX
            invariant
                1 <= i <= MAX_SUFFIX + 1,
                forall|j: nat|
                    1 <= j < i ==> presence_answer(
                        &ctx.fs,
                        #[trigger] numbered(target@, j),
                        true,
                    ),
            decreases MAX_SUFFIX + 1 - i,
        {
            let candidate = Self::numbered_name(target, i);
            let there = ctx.fs.path_exists(candidate.as_str());
            assert(presence_answer(&ctx.fs, numbered(target@, i as nat), there));
            if !there {
                assert(1 <= i as nat <= MAX_SUFFIX && candidate@ == numbered(target@, i as nat));
                return Some(candidate);
            }
            i = i + 1;
        }
        None
    }

    /// Asks `fs` to move `from` to `to`, and reads the answer.
    fn hand_over<F: Fs>(from: &str, to: String, ctx: &EngineCtx<F>) -> (r: Result<
        ActionOutcome,
        ActionError,
    >)
        ensures
            Self::moved_to(&ctx.fs, from@, to@, r),
    {
        let ghost goal = to@;
        let moved = ctx.fs.rename(from, to.as_str());
        assert(rename_answer(&ctx.fs, from@, goal, moved));
        let r = Self::conclude(from, to, moved);
        assert(rename_answer(&ctx.fs, from@, goal, moved) && Self::concluded(
            from@,
            goal,
            moved,
            r,
        ));
        r
    }

    /// Places the file of `path` at `target`: looks whether something is
    /// there, follows the policy, and hands the file to `rename`.
    pub fn place_at<F: Fs>(&self, path: &str, target: String, ctx: &EngineCtx<F>) -> (r: Result<
        ActionOutcome,
        ActionError,
    >)
        ensures
            self.placed(&ctx.fs, path@, target@, r),
    {
        let ghost spot = target@;
        let taken = ctx.fs.path_exists(target.as_str());
        assert(presence_answer(&ctx.fs, spot, taken));
        let r = match self.place(taken) {
            Placement::Place => Self::hand_over(path, target, ctx),
            Placement::Leave => Ok(ActionOutcome::Skipped { target }),
            Placement::Refuse => Err(ActionError::DestinationExists { target }),
            Placement::Number => match Self::free_name(target.as_str(), ctx) {
                Some(name) => {
                    let ghost goal = name@;
                    let r = Self::hand_over(path, name, ctx);
                    assert(Self::first_free(&ctx.fs, spot, goal) && Self::moved_to(
                        &ctx.fs,
                        path@,
                        goal,
                        r,
                    ));
                    assert(Self::numbered_to(&ctx.fs, path@, spot, r));
                    r
                },
                None => {
                    let r = Err(ActionError::Collision { target });
                    assert(Self::numbered_to(&ctx.fs, path@, spot, r));
                    r
                },
            },
        };
        assert(presence_answer(&ctx.fs, spot, taken) && match placement(self.policy(), taken) {
            Placement::Place => Self::moved_to(&ctx.fs, path@, spot, r),
            Placement::Leave => Self::is_skip(r, spot),
            Placement::Refuse => Self::is_refusal(r, spot),
            Placement::Number => Self::numbered_to(&ctx.fs, path@, spot, r),
        });
        r
    }

    /// Moves `path`, with the given date and time: creates the parent of the
    /// target, looks whether something is at the target, follows the policy,
    /// and hands the file to `rename`.
    pub fn run_at<F: Fs>(&self, path: &str, ctx: &EngineCtx<F>, stamps: &Stamps) -> (r: Result<
        ActionOutcome,
        ActionError,
    >)
        ensures
            self.results_in(&ctx.fs, path@, *stamps, r),
    {
        let destination = Template::new(self.destination.clone()).render_at(path, stamps);
        let target = match Self::target_for(destination.as_str(), path) {
            Ok(target) => target,
            Err(e) => {
                return Err(e);
            },
        };
        let ghost spot = target@;
        match parent(target.as_str()) {
            Some(dir) => {
                let made = ctx.fs.create_dir_all(dir.as_str());
                assert(create_answer(&ctx.fs, dir@, made));
                let r = match made {
                    Ok(()) => self.place_at(path, target, ctx),
                    Err(e) => Err(ActionError::IoFailure { message: e.message }),
                };
                assert(create_answer(&ctx.fs, dir@, made) && match made {
                    Ok(_) => self.placed(&ctx.fs, path@, spot, r),
                    Err(e) => r matches Err(ActionError::IoFailure { message }) && message
                        == e.message,
                });
                assert(self.placed_in(&ctx.fs, path@, spot, dir@, r));
                r
            },
            None => self.place_at(path, target, ctx),
        }
    }

    /// Moves `path`, with the date and time that the clock shows during the
    /// call.
    pub fn run<F: Fs>(&self, path: &str, ctx: &EngineCtx<F>) -> (r: Result<
        ActionOutcome,
        ActionError,
    >)
        ensures
            exists|stamps: Stamps|
                stamps.from_clock() && #[trigger] self.results_in(&ctx.fs, path@, stamps, r),
    {
        let stamps = Stamps::now();
        let r = self.run_at(path, ctx, &stamps);
        assert(stamps.from_clock() && self.results_in(&ctx.fs, path@, stamps, r));
        r
    }
}

} // verus!
