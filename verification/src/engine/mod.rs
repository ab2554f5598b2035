//! The event-processing engine: the stages of the pipeline and what they
//! share.

pub mod context;
pub mod laws;
pub mod pipeline;
pub mod stages;

pub use context::EngineCtx;
pub use pipeline::PipelineMsg;
pub use stages::{ActionSink, IoFilterStage, StabilityStage, StaticFilterStage};

use crate::actions::exec::copy_texts;
use crate::actions::Action;
use crate::conditions::Condition;
use crate::error::ConfigError;
use crate::models::{Rule, RuntimeRule, RuntimeWatcher, Watcher};
use std::sync::Arc;
use vstd::prelude::*;

verus! {

impl Rule {
    /// Every condition of the rule compiles.
    pub open spec fn compiles(&self) -> bool {
        forall|i: int|
            0 <= i < self.conditions@.len() ==> (#[trigger] self.conditions@[i]).compiles()
    }

    /// `built` is the rule with its conditions compiled and its actions
    /// built, each in its place.
    pub open spec fn describes(&self, built: RuntimeRule) -> bool {
        &&& built.event == self.event
        &&& built.conditions@.len() == self.conditions@.len()
        &&& forall|i: int|
            0 <= i < self.conditions@.len() ==> (#[trigger] self.conditions@[i]).describes(
                built.conditions@[i],
            )
        &&& built.actions@.len() == self.actions@.len()
        &&& forall|i: int|
            0 <= i < self.actions@.len() ==> (#[trigger] self.actions@[i]).describes(
                built.actions@[i],
            )
    }

    /// `e` is the refusal of the rule: that of its first condition that does
    /// not compile.
    pub open spec fn refused_by(&self, e: ConfigError) -> bool {
        exists|k: int|
            {
                &&& 0 <= k < self.conditions@.len()
                &&& forall|j: int| 0 <= j < k ==> (#[trigger] self.conditions@[j]).compiles()
                &&& (#[trigger] self.conditions@[k]).refused_by(e)
            }
    }

    /// Builds the rule, or says which pattern does not compile: the first, in
    /// the order of the conditions.
    pub fn build(&self) -> (r: Result<RuntimeRule, ConfigError>)
        ensures
            match r {
                Ok(built) => self.compiles() && self.describes(built),
                Err(e) => self.refused_by(e),
            },
    {
        let mut conditions: Vec<Condition> = Vec::new();
        let mut i: usize = 0;
        while i < self.conditions.len()
            invariant
                i <= self.conditions@.len(),
                conditions@.len() == i,
                forall|j: int| 0 <= j < i ==> (#[trigger] self.conditions@[j]).compiles(),
                forall|j: int|
                    0 <= j < i ==> (#[trigger] self.conditions@[j]).describes(conditions@[j]),
            decreases self.conditions@.len() - i,
        {
            match self.conditions[i].duplicate().into_condition() {
                Ok(condition) => {
                    conditions.push(condition);
                },
                Err(e) => {
                    assert(self.conditions@[i as int].refused_by(e));
                    return Err(e);
                },
            }
            i = i + 1;
        }
        let mut actions: Vec<Action> = Vec::new();
        let mut k: usize = 0;
        while k < self.actions.len()
            invariant
                k <= self.actions@.len(),
                actions@.len() == k,
                forall|j: int|
                    0 <= j < k ==> (#[trigger] self.actions@[j]).describes(actions@[j]),
            decreases self.actions@.len() - k,
        {
            actions.push(self.actions[k].to_action());
            k = k + 1;
        }
        Ok(RuntimeRule { event: self.event, conditions, actions })
    }
}

impl Watcher {
    /// Every condition of every rule of the watcher compiles.
    pub open spec fn compiles(&self) -> bool {
        forall|i: int| 0 <= i < self.rules@.len() ==> (#[trigger] self.rules@[i]).compiles()
    }

    /// `rules` are the rules of the watcher, built, each in its place.
    pub open spec fn describes(&self, rules: Seq<Arc<RuntimeRule>>) -> bool {
        &&& rules.len() == self.rules@.len()
        &&& forall|i: int|
            0 <= i < rules.len() ==> (#[trigger] self.rules@[i]).describes(*rules[i])
    }

    /// `e` is the refusal of the watcher: that of its first rule that holds a
    /// condition that does not compile.
    pub open spec fn refused_by(&self, e: ConfigError) -> bool {
        exists|k: int|
            {
                &&& 0 <= k < self.rules@.len()
                &&& forall|j: int| 0 <= j < k ==> (#[trigger] self.rules@[j]).compiles()
                &&& (#[trigger] self.rules@[k]).refused_by(e)
            }
    }
}

/// Builds the rules of `watcher`, in order, or says which pattern does not
/// compile: the first, in the order of the rules and their conditions.
pub fn gather_rules(watcher: &Watcher) -> (r: Result<Vec<Arc<RuntimeRule>>, ConfigError>)
    ensures
        match r {
            Ok(rules) => watcher.compiles() && watcher.describes(rules@),
            Err(e) => watcher.refused_by(e),
        },
{
    let mut rules: Vec<Arc<RuntimeRule>> = Vec::new();
    let mut i: usize = 0;
    while i < watcher.rules.len()
        invariant
            i <= watcher.rules@.len(),
            rules@.len() == i,
            forall|j: int| 0 <= j < i ==> (#[trigger] watcher.rules@[j]).compiles(),
            forall|j: int| 0 <= j < i ==> (#[trigger] watcher.rules@[j]).describes(*rules@[j]),
        decreases watcher.rules@.len() - i,
    {
        match watcher.rules[i].build() {
            Ok(rule) => {
                rules.push(Arc::new(rule));
            },
            Err(e) => {
                assert(watcher.rules@[i as int].refused_by(e));
                return Err(e);
            },
        }
        i = i + 1;
    }
    Ok(rules)
}

impl RuntimeWatcher {
    /// The watcher that `watcher` declares, with its rules built.
    pub fn from_config(watcher: &Watcher) -> (r: Result<RuntimeWatcher, ConfigError>)
        ensures
            match r {
                Ok(built) => {
                    &&& watcher.compiles()
                    &&& built.path == watcher.path
                    &&& built.recursive == watcher.recursive
                    &&& match (built.ignore, watcher.ignore) {
                        (Some(a), Some(b)) => a@ == b@,
                        (None, None) => true,
                        _ => false,
                    }
                    &&& watcher.describes(built.rules@)
                },
                Err(e) => watcher.refused_by(e),
            },
    {
        let rules = match gather_rules(watcher) {
            Ok(rules) => rules,
            Err(e) => {
                return Err(e);
            },
        };
        let ignore = match &watcher.ignore {
            Some(list) => Some(copy_texts(list)),
            None => None,
        };
        Ok(
            RuntimeWatcher {
                path: watcher.path.clone(),
                recursive: watcher.recursive,
                ignore,
                rules,
            },
        )
    }
}

} // verus!
