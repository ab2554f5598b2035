//! What a rule does to a file that passed its conditions.

pub mod exec;
pub mod log;
pub mod move_action;
pub mod rename;

pub use exec::{ExecAction, ExecActionConfig, ExecPlan, ExecReport, Launcher};
pub use log::LogAction;
pub use move_action::{MoveAction, MoveOverwritePolicy};
pub use rename::RenameAction;

use crate::engine::EngineCtx;
use crate::fs::Fs;
use crate::template::Stamps;
use vstd::prelude::*;

verus! {

/// Why an action failed.
#[derive(Debug, Clone)]
#[allow(inconsistent_fields)]
pub enum ActionError {
    /// The file is to go into a directory, and its path has no file name.
    NoFileName { path: String },
    /// The file is to be renamed in place, and its path has no parent.
    NoParent { path: String },
    /// Something is at the destination, and the policy is to fail.
    DestinationExists { target: String },
    /// Something is at the destination and at every numbered name tried.
    Collision { target: String },
    /// The command was still running at its deadline and was killed.
    Timeout { secs: u64 },
    /// The command ended, and not with success.
    ProcessExit { code: Option<i32> },
    /// The host failed: a directory not created, a file not moved, a command
    /// not started.
    IoFailure { message: String },
}

/// What an action did.
#[derive(Debug, Clone)]
#[allow(inconsistent_fields)]
pub enum ActionOutcome {
    /// The file was handed to `rename`, from `from` to `to`.
    Moved { from: String, to: String },
    /// Something is at `target`, and the policy is to leave it: nothing moved.
    Skipped { target: String },
    /// The file was handed to `rename` in its own directory.
    Renamed { from: String, to: String },
    /// The line to put in the log.
    Logged { message: String },
    /// The command ran and ended with success.
    Executed { code: Option<i32> },
}

/// One action of a rule.
pub enum Action {
    Move(MoveAction),
    Rename(RenameAction),
    Exec(ExecAction),
    Log(LogAction),
}

impl Action {
    /// `r` is the result of the action for `path` with the date and time
    /// `stamps`, as far as `fs` and `launcher` answer.
    pub open spec fn results_in<F: Fs, L: Launcher>(
        &self,
        fs: &F,
        launcher: &L,
        path: Seq<char>,
        stamps: Stamps,
        r: Result<ActionOutcome, ActionError>,
    ) -> bool {
        match self {
            Action::Move(a) => a.results_in(fs, path, stamps, r),
            Action::Rename(a) => a.results_in(fs, path, stamps, r),
            Action::Exec(a) => a.results_in(launcher, path, stamps, r),
            Action::Log(a) => a.results_in(path, stamps, r),
        }
    }

    /// Runs the action on `path`, with the given date and time.
    pub fn run_at<F: Fs, L: Launcher>(
        &self,
        path: &str,
        ctx: &EngineCtx<F>,
        launcher: &L,
        stamps: &Stamps,
    ) -> (r: Result<ActionOutcome, ActionError>)
        ensures
            self.results_in(&ctx.fs, launcher, path@, *stamps, r),
    {
        match self {
            Action::Move(a) => a.run_at(path, ctx, stamps),
            Action::Rename(a) => a.run_at(path, ctx, stamps),
            Action::Exec(a) => a.run_at(path, launcher, stamps),
            Action::Log(a) => a.run_at(path, stamps),
        }
    }

    /// Runs the action on `path`, with the date and time that the clock shows
    /// during the call.
    pub fn run<F: Fs, L: Launcher>(&self, path: &str, ctx: &EngineCtx<F>, launcher: &L) -> (r:
        Result<ActionOutcome, ActionError>)
        ensures
            exists|stamps: Stamps|
                stamps.from_clock() && #[trigger] self.results_in(
                    &ctx.fs,
                    launcher,
                    path@,
                    stamps,
                    r,
                ),
    {
        let stamps = Stamps::now();
        let r = self.run_at(path, ctx, launcher, &stamps);
        assert(stamps.from_clock() && self.results_in(&ctx.fs, launcher, path@, stamps, r));
        r
    }
}

} // verus!
