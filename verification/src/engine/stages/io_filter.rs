//! The I/O filter: the stage after stability, which asks what only the file
//! can answer.

use crate::engine::pipeline::{masked, retain, PipelineMsg};
use crate::engine::EngineCtx;
use crate::fs::Fs;
use crate::models::{EventInfo, RuntimeRule};
use std::sync::Arc;
use vstd::prelude::*;

verus! {

/// `keep` is what the filter finds for `rules` and `ev`, as far as `fs`
/// answers: a rule is kept if each of its conditions that are not static
/// holds, and dropped if one of them does not.  So a rule that has none but
/// static conditions is kept; and where the size came with the event, the
/// conditions on the size are decided by it.
pub open spec fn io_mask<F: Fs>(
    fs: &F,
    rules: Seq<Arc<RuntimeRule>>,
    ev: EventInfo,
    keep: Seq<bool>,
) -> bool {
    &&& keep.len() == rules.len()
    &&& forall|i: int|
        0 <= i < rules.len() ==> {
            let rule = #[trigger] rules[i];
            &&& keep[i] ==> rule.io_passed(fs, ev)
            &&& !keep[i] ==> rule.io_failed(fs, ev)
            &&& rule.io_free() ==> keep[i]
            &&& ev.known_size() matches Some(len) ==> (keep[i] ==> rule.passes_sizes(len))
            &&& ev.known_size() matches Some(len) ==> rule.content_free() ==> keep[i]
                == rule.passes_sizes(len)
        }
}

/// The I/O filter.
pub struct IoFilterStage;

impl IoFilterStage {
    /// The filter; it holds nothing.
    pub fn new() -> Self {
        IoFilterStage
    }

    /// For each rule, whether all its conditions that are not static hold, as
    /// far as the file system shows.  The static conditions are not asked
    /// again.
    pub fn examine<F: Fs>(&self, msg: &PipelineMsg, ctx: &EngineCtx<F>) -> (keep: Vec<bool>)
        ensures
            io_mask(&ctx.fs, msg.rules@, msg.event, keep@),
    {
        let mut keep: Vec<bool> = Vec::new();
        let mut i: usize = 0;
        while i < msg.rules.len()
            invariant
                i <= msg.rules@.len(),
                keep@.len() == i,
                io_mask(&ctx.fs, msg.rules@.take(i as int), msg.event, keep@),
            decreases msg.rules@.len() - i,
        {
            let rule = &msg.rules[i];
            let alive = rule.io_conditions_hold(&msg.event, ctx);
            keep.push(alive);
            i = i + 1;
        }
        assert(msg.rules@.take(msg.rules@.len() as int) =~= msg.rules@);
        keep
    }

    /// Keeps the rules that `keep` marks.  A message that keeps no rule is
    /// dropped.
    pub fn narrow(&self, msg: PipelineMsg, keep: &Vec<bool>) -> (out: Option<PipelineMsg>)
        ensures
            match out {
                Some(next) => {
                    &&& next.event == msg.event
                    &&& next.rules@ == masked(msg.rules@, keep@)
                    &&& next.rules@.len() > 0
                },
                None => masked(msg.rules@, keep@).len() == 0,
            },
    {
        let PipelineMsg { event, rules } = msg;
        let kept = retain(rules, keep);
        if kept.len() == 0 {
            None
        } else {
            Some(PipelineMsg { event, rules: kept })
        }
    }

    /// Keeps the rules whose conditions that are not static all hold.  A
    /// message that keeps no rule is dropped.
    pub fn process<F: Fs>(&self, msg: PipelineMsg, ctx: &EngineCtx<F>) -> (out: Option<
        PipelineMsg,
    >)
        ensures
            exists|keep: Seq<bool>|
                {
                    &&& io_mask(&ctx.fs, msg.rules@, msg.event, keep)
                    &&& match out {
                        Some(next) => {
                            &&& next.event == msg.event
                            &&& next.rules@ == #[trigger] masked(msg.rules@, keep)
                            &&& next.rules@.len() > 0
                        },
                        None => masked(msg.rules@, keep).len() == 0,
                    }
                },
    {
        let keep = self.examine(&msg, ctx);
        self.narrow(msg, &keep)
    }
}

} // verus!
