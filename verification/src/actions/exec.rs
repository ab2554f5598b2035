//! The action that runs a command.
//!
//! The action fills in the command and decides, while the command runs, when
//! to wait on, when to kill, and what the end of the command means.  Starting
//! the command and watching it is the launcher's part.

use crate::actions::{ActionError, ActionOutcome};
use crate::template::{rendered, Stamps, Template};
use vstd::prelude::*;

verus! {

/// How long to wait, in milliseconds, between two looks at a running command.
pub const POLL_INTERVAL_MS: u64 = 50;

/// A command as the configuration declares it.  Every text may hold
/// placeholders.
#[derive(Debug, Clone)]
pub struct ExecActionConfig {
    pub command: String,
    pub args: Option<Vec<String>>,
    pub cwd: Option<String>,
    pub env: Option<Vec<(String, String)>>,
    pub timeout_secs: Option<u64>,
}

/// A copy of `texts`.
pub fn copy_texts(texts: &Vec<String>) -> (copy: Vec<String>)
    ensures
        copy@ == texts@,
{
    let mut copy: Vec<String> = Vec::new();
    let mut i: usize = 0;
    while i < texts.len()
        invariant
            i <= texts@.len(),
            copy@ == texts@.take(i as int),
        decreases texts@.len() - i,
    {
        copy.push(texts[i].clone());
        assert(copy@ =~= texts@.take(i + 1));
        i = i + 1;
    }
    assert(texts@.take(texts@.len() as int) =~= texts@);
    copy
}

/// A copy of `pairs`.
pub fn copy_pairs(pairs: &Vec<(String, String)>) -> (copy: Vec<(String, String)>)
    ensures
        copy@ == pairs@,
{
    let mut copy: Vec<(String, String)> = Vec::new();
    let mut i: usize = 0;
    while i < pairs.len()
        invariant
            i <= pairs@.len(),
            copy@ == pairs@.take(i as int),
        decreases pairs@.len() - i,
    {
        copy.push((pairs[i].0.clone(), pairs[i].1.clone()));
        assert(copy@ =~= pairs@.take(i + 1));
        i = i + 1;
    }
    assert(pairs@.take(pairs@.len() as int) =~= pairs@);
    copy
}

impl ExecActionConfig {
    /// The arguments, the directory and the environment are those of
    /// `other`, text by text.
    pub open spec fn same_texts(&self, other: ExecActionConfig) -> bool {
        &&& match (self.args, other.args) {
            (Some(a), Some(b)) => a@ == b@,
            (None, None) => true,
            _ => false,
        }
        &&& self.cwd == other.cwd
        &&& match (self.env, other.env) {
            (Some(a), Some(b)) => a@ == b@,
            (None, None) => true,
            _ => false,
        }
    }
}

/// A command that is ready to start: every text is filled in.
#[derive(Debug, Clone)]
pub struct ExecPlan {
    pub command: String,
    pub args: Vec<String>,
    pub cwd: Option<String>,
    /// Variables to set on top of the environment of the engine.
    pub env: Vec<(String, String)>,
    pub timeout_secs: Option<u64>,
}

/// How a launched command ended.
#[derive(Debug, Clone)]
#[allow(inconsistent_fields)]
pub enum ExecReport {
    /// The command could not be started, or was lost while it ran.
    Failed { message: String },
    /// The command ended by itself.
    Exited { success: bool, code: Option<i32> },
    /// The command was still running at its deadline and was killed.
    TimedOut,
}

/// What to do about a command that was started.
#[derive(Debug, Clone, Copy, PartialEq, Eq, Structural)]
pub enum PollStep {
    /// The command has ended: report how.
    Done,
    /// The command runs and its deadline has come: kill it and report the
    /// timeout.
    Kill,
    /// The command runs and has a deadline that has not come: look again
    /// after `POLL_INTERVAL_MS`.
    Wait,
    /// The command runs and has no deadline: wait for its end.
    WaitForEnd,
}

/// What starts a command and watches it to its end.
///
/// The comment says what an implementation is meant to do.  Nothing of it is
/// assumed: the action is verified for whatever report comes back.
pub trait Launcher {
    /// Starts the command of `plan`, watches it as `ExecAction::poll` says,
    /// and tells how it ended.
    fn launch(&self, plan: &ExecPlan) -> ExecReport;
}

/// `report` is what `launcher` answered when it was handed `plan`.
pub open spec fn launch_answer<L: Launcher>(launcher: &L, plan: ExecPlan, report: ExecReport)
    -> bool {
    call_ensures(L::launch, (launcher, &plan), report)
}

/// What to do about a command with the deadline `timeout_secs` that was
/// started `elapsed_ms` ago and has, or has not, `exited`.
pub open spec fn poll_step(timeout_secs: Option<u64>, elapsed_ms: u64, exited: bool) -> PollStep {
    if exited {
        PollStep::Done
    } else {
        match timeout_secs {
            Some(secs) => if elapsed_ms >= secs * 1000 {
                PollStep::Kill
            } else {
                PollStep::Wait
            },
            None => PollStep::WaitForEnd,
        }
    }
}

/// The texts of `items`, each filled in.
pub open spec fn rendered_all(
    items: Seq<String>,
    path: Seq<char>,
    stamps: Stamps,
) -> Seq<Seq<char>> {
    Seq::new(items.len(), |i: int| rendered(items[i]@, path, stamps))
}

/// The texts of `items`.
pub open spec fn texts(items: Seq<String>) -> Seq<Seq<char>> {
    Seq::new(items.len(), |i: int| items[i]@)
}

/// A command to run.
pub struct ExecAction {
    cfg: ExecActionConfig,
}

impl ExecAction {
    /// The command as it was declared.
    pub closed spec fn config(&self) -> ExecActionConfig {
        self.cfg
    }

    /// `plan` is the command filled in for `path`: the command, each
    /// argument, the directory, and each name and value of the environment.
    pub open spec fn plans(&self, path: Seq<char>, stamps: Stamps, plan: ExecPlan) -> bool {
        let cfg = self.config();
        &&& plan.command@ == rendered(cfg.command@, path, stamps)
        &&& texts(plan.args@) == match cfg.args {
            Some(args) => rendered_all(args@, path, stamps),
            None => Seq::empty(),
        }
        &&& match cfg.cwd {
            Some(cwd) => plan.cwd matches Some(dir) && dir@ == rendered(cwd@, path, stamps),
            None => plan.cwd is None,
        }
        &&& match cfg.env {
            Some(env) => {
                &&& plan.env@.len() == env@.len()
                &&& forall|i: int|
                    0 <= i < env@.len() ==> (#[trigger] plan.env@[i]).0@ == rendered(
                        env@[i].0@,
                        path,
                        stamps,
                    ) && plan.env@[i].1@ == rendered(env@[i].1@, path, stamps)
            },
            None => plan.env@.len() == 0,
        }
        &&& plan.timeout_secs == cfg.timeout_secs
    }

    /// What the action makes of `report`.
    pub open spec fn concluded(&self, report: ExecReport, r: Result<ActionOutcome, ActionError>)
        -> bool {
        match report {
            ExecReport::Exited { success, code } => if success {
                r matches Ok(ActionOutcome::Executed { code: c }) && c == code
            } else {
                r matches Err(ActionError::ProcessExit { code: c }) && c == code
            },
            ExecReport::TimedOut => r matches Err(ActionError::Timeout { secs }) && secs
                == match self.config().timeout_secs {
                Some(limit) => limit,
                None => 0,
            },
            ExecReport::Failed { message } => r matches Err(ActionError::IoFailure { message: m })
                && m == message,
        }
    }

    /// `r` is the result of the action for `path`, as far as `launcher`
    /// answers: the command is filled in and handed to `launcher`, and the
    /// report decides.
    pub open spec fn results_in<L: Launcher>(
        &self,
        launcher: &L,
        path: Seq<char>,
        stamps: Stamps,
        r: Result<ActionOutcome, ActionError>,
    ) -> bool {
        exists|plan: ExecPlan, report: ExecReport|
            {
                &&& self.plans(path, stamps, plan)
                &&& launch_answer(launcher, plan, report)
                &&& self.concluded(report, r)
            }
    }

    /// The action that runs the command `cfg` declares.
    pub fn new(cfg: ExecActionConfig) -> (r: Self)
        ensures
            r.config() == cfg,
    {
        ExecAction { cfg }
    }

    /// The command filled in for `path`, with the given date and time.
    pub fn prepare_at(&self, path: &str, stamps: &Stamps) -> (plan: ExecPlan)
        ensures
            self.plans(path@, *stamps, plan),
    {
        let command = Template::new(self.cfg.command.clone()).render_at(path, stamps);
        let mut args: Vec<String> = Vec::new();
        match &self.cfg.args {
            Some(declared) => {
                let mut i: usize = 0;
                while i < declared.len()
                    invariant
                        i <= declared@.len(),
                        args@.len() == i,
                        forall|j: int|
                            0 <= j < i ==> (#[trigger] args@[j])@ == rendered(
                                declared@[j]@,
                                path@,
                                *stamps,
                            ),
                    decreases declared@.len() - i,
                {
                    args.push(Template::new(declared[i].clone()).render_at(path, stamps));
                    i = i + 1;
                }
                assert(texts(args@) =~= rendered_all(declared@, path@, *stamps));
            },
            None => {
                assert(texts(args@) =~= Seq::<Seq<char>>::empty());
            },
        }
        let cwd = match &self.cfg.cwd {
            Some(dir) => Some(Template::new(dir.clone()).render_at(path, stamps)),
            None => None,
        };
        let mut env: Vec<(String, String)> = Vec::new();
        match &self.cfg.env {
            Some(declared) => {
                let mut i: usize = 0;
                while i < declared.len()
                    invariant
                        i <= declared@.len(),
                        env@.len() == i,
                        forall|j: int|
                            0 <= j < i ==> (#[trigger] env@[j]).0@ == rendered(
                                declared@[j].0@,
                                path@,
                                *stamps,
                            ) && env@[j].1@ == rendered(declared@[j].1@, path@, *stamps),
                    decreases declared@.len() - i,
                {
                    let name = Template::new(declared[i].0.clone()).render_at(path, stamps);
                    let value = Template::new(declared[i].1.clone()).render_at(path, stamps);
                    env.push((name, value));
                    i = i + 1;
                }
            },
            None => {},
        }
        ExecPlan { command, args, cwd, env, timeout_secs: self.cfg.timeout_secs }
    }

    /// What to do about a command with the deadline `timeout_secs` that was
    /// started `elapsed_ms` ago and has, or has not, `exited`.
    pub fn poll(timeout_secs: Option<u64>, elapsed_ms: u64, exited: bool) -> (step: PollStep)
        ensures
            step == poll_step(timeout_secs, elapsed_ms, exited),
    {
        if exited {
            return PollStep::Done;
        }
        match timeout_secs {
            Some(secs) => {
                if secs <= u64::MAX / 1000 && elapsed_ms >= secs * 1000 {
                    PollStep::Kill
                } else {
                    PollStep::Wait
                }
            },
            None => PollStep::WaitForEnd,
        }
    }

    /// What the action makes of the end of its command.
    pub fn conclude(&self, report: ExecReport) -> (r: Result<ActionOutcome, ActionError>)
        ensures
            self.concluded(report, r),
    {
        match report {
            ExecReport::Exited { success, code } => {
                if success {
                    Ok(ActionOutcome::Executed { code })
                } else {
                    Err(ActionError::ProcessExit { code })
                }
            },
            ExecReport::TimedOut => {
                let secs = match self.cfg.timeout_secs {
                    Some(secs) => secs,
                    None => 0,
                };
                Err(ActionError::Timeout { secs })
            },
            ExecReport::Failed { message } => Err(ActionError::IoFailure { message }),
        }
    }

    /// Runs the command for `path`, with the given date and time: fills it
    /// in, hands it to the launcher, and reads the report.
    pub fn run_at<L: Launcher>(&self, path: &str, launcher: &L, stamps: &Stamps) -> (r: Result<
        ActionOutcome,
        ActionError,
    >)
        ensures
            self.results_in(launcher, path@, *stamps, r),
    {
        let plan = self.prepare_at(path, stamps);
        let report = launcher.launch(&plan);
        assert(launch_answer(launcher, plan, report));
        let r = self.conclude(report);
        assert(self.plans(path@, *stamps, plan) && launch_answer(launcher, plan, report)
            && self.concluded(report, r));
        r
    }

    /// Runs the command for `path`, with the date and time that the clock
    /// shows during the call.
    pub fn run<L: Launcher>(&self, path: &str, launcher: &L) -> (r: Result<
        ActionOutcome,
        ActionError,
    >)
        ensures
            exists|stamps: Stamps|
                stamps.from_clock() && #[trigger] self.results_in(launcher, path@, stamps, r),
    {
        let stamps = Stamps::now();
        let r = self.run_at(path, launcher, &stamps);
        assert(stamps.from_clock() && self.results_in(launcher, path@, stamps, r));
        r
    }
}

} // verus!
