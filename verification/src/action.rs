//! Actions as the configuration declares them.

use crate::actions::exec::{copy_pairs, copy_texts};
use crate::actions::{
    Action, ExecAction, ExecActionConfig, LogAction, MoveAction, MoveOverwritePolicy,
};
use vstd::prelude::*;

verus! {

/// One action of a rule, as declared.
#[derive(Debug, Clone)]
pub enum ActionConfig {
    Move { destination: String, overwrite: Option<MoveOverwritePolicy> },
    Exec {
        command: String,
        args: Option<Vec<String>>,
        cwd: Option<String>,
        env: Option<Vec<(String, String)>>,
        timeout_secs: Option<u64>,
    },
    Log { message: String },
}

impl ActionConfig {
    /// `built` is the action that the declaration stands for.
    pub open spec fn describes(&self, built: Action) -> bool {
        match (self, built) {
            (ActionConfig::Move { destination, overwrite }, Action::Move(a)) => {
                &&& a.destination() == destination@
                &&& a.policy() == match overwrite {
                    Some(policy) => *policy,
                    None => MoveOverwritePolicy::Error,
                }
            },
            (
                ActionConfig::Exec { command, args, cwd, env, timeout_secs },
                Action::Exec(a),
            ) => {
                &&& a.config().command == *command
                &&& a.config().timeout_secs == *timeout_secs
                &&& a.config().same_texts(
                    ExecActionConfig {
                        command: *command,
                        args: *args,
                        cwd: *cwd,
                        env: *env,
                        timeout_secs: *timeout_secs,
                    },
                )
            },
            (ActionConfig::Log { message }, Action::Log(a)) => a.message() == message@,
            _ => false,
        }
    }

    /// Builds the action, and leaves the declaration as it is.
    pub fn to_action(&self) -> (built: Action)
        ensures
            self.describes(built),
    {
        match self {
            ActionConfig::Move { destination, overwrite } => Action::Move(
                MoveAction::new(destination.clone(), *overwrite),
            ),
            ActionConfig::Exec { command, args, cwd, env, timeout_secs } => Action::Exec(
                ExecAction::new(
                    ExecActionConfig {
                        command: command.clone(),
                        args: match args {
                            Some(texts) => Some(copy_texts(texts)),
                            None => None,
                        },
                        cwd: match cwd {
                            Some(dir) => Some(dir.clone()),
                            None => None,
                        },
                        env: match env {
                            Some(pairs) => Some(copy_pairs(pairs)),
                            None => None,
                        },
                        timeout_secs: *timeout_secs,
                    },
                ),
            ),
            ActionConfig::Log { message } => Action::Log(LogAction::new(message.clone())),
        }
    }

    /// Builds the action.
    pub fn into_action(self) -> (built: Action)
        ensures
            self.describes(built),
    {
        match self {
            ActionConfig::Move { destination, overwrite } => Action::Move(
                MoveAction::new(destination, overwrite),
            ),
            ActionConfig::Exec { command, args, cwd, env, timeout_secs } => Action::Exec(
                ExecAction::new(ExecActionConfig { command, args, cwd, env, timeout_secs }),
            ),
            ActionConfig::Log { message } => Action::Log(LogAction::new(message)),
        }
    }
}

} // verus!
