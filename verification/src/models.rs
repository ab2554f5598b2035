//! The data that flows through the engine: what the configuration declares,
//! and what the watcher reports.

use crate::action::ActionConfig;
use crate::actions::Action;
use crate::condition::ConditionConfig;
use crate::conditions::{Condition, ConditionKind};
use crate::engine::EngineCtx;
use crate::fs::Fs;
use std::sync::Arc;
use vstd::prelude::*;

verus! {

/// The whole configuration: the watched directories.
#[derive(Debug, Clone)]
pub struct Config {
    pub watchers: Vec<Watcher>,
}

/// One watched directory as the configuration declares it.
#[derive(Debug, Clone)]
pub struct Watcher {
    pub path: String,
    pub recursive: bool,
    /// Extensions, without the dot, whose files are never reported.
    pub ignore: Option<Vec<String>>,
    pub rules: Vec<Rule>,
}

/// One rule as the configuration declares it.
#[derive(Debug, Clone)]
pub struct Rule {
    pub event: Event,
    pub conditions: Vec<ConditionConfig>,
    pub actions: Vec<ActionConfig>,
}

/// A watched directory with its rules built.
pub struct RuntimeWatcher {
    pub path: String,
    pub recursive: bool,
    pub ignore: Option<Vec<String>>,
    pub rules: Vec<Arc<RuntimeRule>>,
}

/// A rule with its conditions compiled and its actions built.
pub struct RuntimeRule {
    pub event: Event,
    pub conditions: Vec<Condition>,
    pub actions: Vec<Action>,
}

/// The kind of a file change; `Any` is what a rule selects to see them all.
#[derive(Debug, Clone, Copy, PartialEq, Eq, Hash, Structural)]
pub enum Event {
    Created,
    Modified,
    Deleted,
    Any,
    Unsupported,
}

/// One change of one file.
#[derive(Debug, Clone)]
pub struct EventInfo {
    pub path: String,
    pub event: Event,
    pub meta: Option<FileMeta>,
}

/// What is already known of the file of an event.
#[derive(Debug, Clone)]
pub struct FileMeta {
    pub size: Option<u64>,
    /// Nanoseconds since the Unix epoch.
    pub modified: Option<u64>,
    pub name: Option<String>,
    pub ext: Option<String>,
}

impl EventInfo {
    /// The size that came with the event, if one did.
    pub open spec fn known_size(&self) -> Option<u64> {
        match self.meta {
            Some(meta) => meta.size,
            None => None,
        }
    }

    /// The size that came with the event, if one did.
    pub fn prefetched_size(&self) -> (r: Option<u64>)
        ensures
            r == self.known_size(),
    {
        match &self.meta {
            Some(meta) => meta.size,
            None => None,
        }
    }
}

impl RuntimeRule {
    /// The rule is meant for changes of kind `kind`.
    pub open spec fn selects(&self, kind: Event) -> bool {
        self.event == kind || self.event == Event::Any
    }

    /// Every static condition of the rule holds on `path`.
    pub open spec fn passes_static(&self, path: Seq<char>) -> bool {
        forall|i: int|
            0 <= i < self.conditions@.len() ==> (#[trigger] self.conditions@[i]).holds_on(path)
    }

    /// The rule is a candidate for `ev`: it selects the kind of the event,
    /// and its static conditions hold on the path.
    pub open spec fn plausible_for(&self, ev: EventInfo) -> bool {
        self.selects(ev.event) && self.passes_static(ev.path@)
    }

    /// The rule has none but static conditions.
    pub open spec fn io_free(&self) -> bool {
        forall|i: int|
            0 <= i < self.conditions@.len() ==> (#[trigger] self.conditions@[i]).kind_of()
                == ConditionKind::Static
    }

    /// The rule has no condition on what the file holds.
    pub open spec fn content_free(&self) -> bool {
        forall|i: int|
            0 <= i < self.conditions@.len() ==> !((#[trigger] self.conditions@[i]) is Contains)
    }

    /// Every condition of the rule on the size holds for a file of `len`
    /// bytes.
    pub open spec fn passes_sizes(&self, len: u64) -> bool {
        forall|i: int|
            0 <= i < self.conditions@.len() ==> (#[trigger] self.conditions@[i]).holds_for_size(
                len,
            )
    }

    /// Every condition of the rule that is not static holds for `ev`, as far
    /// as `fs` answers.
    pub open spec fn io_passed<F: Fs>(&self, fs: &F, ev: EventInfo) -> bool {
        forall|i: int|
            0 <= i < self.conditions@.len() && (#[trigger] self.conditions@[i]).kind_of()
                == ConditionKind::Io ==> self.conditions@[i].answers(fs, ev, true)
    }

    /// Some condition of the rule that is not static does not hold for `ev`,
    /// as far as `fs` answers.
    pub open spec fn io_failed<F: Fs>(&self, fs: &F, ev: EventInfo) -> bool {
        exists|i: int|
            0 <= i < self.conditions@.len() && (#[trigger] self.conditions@[i]).kind_of()
                == ConditionKind::Io && self.conditions@[i].answers(fs, ev, false)
    }

    /// Whether the rule is meant for changes of kind `kind`.
    pub fn is_for(&self, kind: Event) -> (b: bool)
        ensures
            b == self.selects(kind),
    {
        self.event == kind || self.event == Event::Any
    }

    /// Whether every static condition of the rule holds for `ev`.  The other
    /// conditions are not asked.
    pub fn static_conditions_hold<F: Fs>(&self, ev: &EventInfo, ctx: &EngineCtx<F>) -> (b: bool)
        ensures
            b == self.passes_static(ev.path@),
    {
        let mut i: usize = 0;
        while i < self.conditions.len()
            invariant
                i <= self.conditions@.len(),
                forall|j: int| 0 <= j < i ==> (#[trigger] self.conditions@[j]).holds_on(ev.path@),
            decreases self.conditions@.len() - i,
        {
            let condition = &self.conditions[i];
            if condition.kind() == ConditionKind::Static && !condition.matches(ev, ctx) {
                assert(!self.conditions@[i as int].holds_on(ev.path@));
                return false;
            }
            i = i + 1;
        }
        true
    }

    /// Whether every other condition of the rule holds for `ev`, asked in
    /// order up to the first that does not.  A rule without such conditions
    /// passes.  Where the size came with the event, the conditions on the
    /// size are decided by it.
    pub fn io_conditions_hold<F: Fs>(&self, ev: &EventInfo, ctx: &EngineCtx<F>) -> (b: bool)
        ensures
            b ==> self.io_passed(&ctx.fs, *ev),
            !b ==> self.io_failed(&ctx.fs, *ev),
            self.io_free() ==> b,
            ev.known_size() matches Some(len) ==> (b ==> self.passes_sizes(len)),
            ev.known_size() matches Some(len) ==> self.content_free() ==> b == self.passes_sizes(
                len,
            ),
    {
        let mut i: usize = 0;
        while i < self.conditions.len()
            invariant
                i <= self.conditions@.len(),
                forall|j: int|
                    0 <= j < i && (#[trigger] self.conditions@[j]).kind_of() == ConditionKind::Io
                        ==> self.conditions@[j].answers(&ctx.fs, *ev, true),
                ev.known_size() matches Some(len) ==> forall|j: int|
                    0 <= j < i ==> (#[trigger] self.conditions@[j]).holds_for_size(len),
            decreases self.conditions@.len() - i,
        {
            let condition = &self.conditions[i];
            if condition.kind() == ConditionKind::Io && !condition.matches(ev, ctx) {
                proof {
                    assert(self.conditions@[i as int].kind_of() == ConditionKind::Io);
                    match ev.known_size() {
                        Some(len) => {
                            if self.content_free() {
                                assert(!(self.conditions@[i as int] is Contains));
                                assert(!self.conditions@[i as int].holds_for_size(len));
                            }
                        },
                        None => {},
                    }
                }
                return false;
            }
            i = i + 1;
        }
        true
    }
}

} // verus!
