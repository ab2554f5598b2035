//! The static filter: the first stage, which asks what the path alone can
//! answer.

use crate::engine::pipeline::{masked, retain, PipelineMsg};
use crate::engine::EngineCtx;
use crate::fs::Fs;
use crate::models::{EventInfo, RuntimeRule};
use std::sync::Arc;
use vstd::prelude::*;

verus! {

/// For each rule, whether it is a candidate for `ev`.
pub open spec fn static_mask(rules: Seq<Arc<RuntimeRule>>, ev: EventInfo) -> Seq<bool> {
    Seq::new(rules.len(), |i: int| rules[i].plausible_for(ev))
}

/// The rules of `msg` that the static filter keeps.
pub open spec fn masked_rules(msg: PipelineMsg) -> Seq<Arc<RuntimeRule>> {
    masked(msg.rules@, static_mask(msg.rules@, msg.event))
}

/// The static filter.
pub struct StaticFilterStage;

impl StaticFilterStage {
    /// The filter; it holds nothing.
    pub fn new() -> Self {
        StaticFilterStage
    }

    /// Keeps the rules that select the kind of the event and whose static
    /// conditions all hold; the other conditions are not asked.  A message
    /// that keeps no rule is dropped.
    pub fn process<F: Fs>(&self, msg: PipelineMsg, ctx: &EngineCtx<F>) -> (out: Option<
        PipelineMsg,
    >)
        ensures
            match out {
                Some(next) => {
                    &&& next.event == msg.event
                    &&& next.rules@ == masked_rules(msg)
                    &&& next.rules@.len() > 0
                },
                None => masked_rules(msg).len() == 0,
            },
    {
        let PipelineMsg { event, rules } = msg;
        let mut keep: Vec<bool> = Vec::new();
        let mut i: usize = 0;
        while i < rules.len()
            invariant
                i <= rules@.len(),
                keep@.len() == i,
                forall|j: int| 0 <= j < i ==> keep@[j] == rules@[j].plausible_for(event),
            decreases rules@.len() - i,
        {
            let rule = &rules[i];
            let alive = rule.is_for(event.event) && rule.static_conditions_hold(&event, ctx);
            keep.push(alive);
            i = i + 1;
        }
        assert(keep@ =~= static_mask(rules@, event));
        let kept = retain(rules, &keep);
        if kept.len() == 0 {
            None
        } else {
            Some(PipelineMsg { event, rules: kept })
        }
    }
}

} // verus!
