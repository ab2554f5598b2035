//! The sink: the last stage, which runs the actions.

use crate::actions::{ActionError, ActionOutcome, Launcher};
use crate::engine::pipeline::PipelineMsg;
use crate::engine::EngineCtx;
use crate::fs::Fs;
use crate::models::RuntimeRule;
use crate::template::Stamps;
use std::sync::Arc;
use vstd::prelude::*;

verus! {

/// What became of one action of one rule.
pub struct ActionReport {
    /// The place of the rule in the message.
    pub rule: usize,
    /// The place of the action in the rule.
    pub action: usize,
    pub result: Result<ActionOutcome, ActionError>,
}

/// The actions of the first `n` rules, as pairs of the place of the rule and
/// the place of the action in it: rule after rule, and in each rule action
/// after action.
pub open spec fn schedule(rules: Seq<Arc<RuntimeRule>>, n: int) -> Seq<(int, int)>
    decreases n,
{
    if n <= 0 {
        Seq::empty()
    } else {
        schedule(rules, n - 1) + Seq::new(rules[n - 1].actions@.len(), |j: int| (n - 1, j))
    }
}

/// `reports` tells of the actions `planned`, one by one and in order, each
/// with the result of its action for `path`, as far as `fs` and `launcher`
/// answer, with a date and time that the clock showed.
pub open spec fn reports_cover<F: Fs, L: Launcher>(
    fs: &F,
    launcher: &L,
    rules: Seq<Arc<RuntimeRule>>,
    path: Seq<char>,
    planned: Seq<(int, int)>,
    reports: Seq<ActionReport>,
) -> bool {
    &&& reports.len() == planned.len()
    &&& forall|k: int|
        0 <= k < reports.len() ==> {
            let report = #[trigger] reports[k];
            &&& (report.rule as int, report.action as int) == planned[k]
            &&& 0 <= report.rule < rules.len()
            &&& 0 <= report.action < rules[report.rule as int].actions@.len()
            &&& exists|stamps: Stamps|
                stamps.from_clock() && #[trigger] rules[report.rule as int].actions@[report.action
                    as int].results_in(fs, launcher, path, stamps, report.result)
        }
}

/// The sink.
pub struct ActionSink;

impl ActionSink {
    /// The sink; it holds nothing.
    pub fn new() -> Self {
        ActionSink
    }

    /// Runs every action of every rule of `msg` on the path of the event:
    /// rule after rule, and in each rule action after action.  A failure
    /// stops nothing; it is reported in its place, like a success.
    pub fn run<F: Fs, L: Launcher>(
        &self,
        msg: &PipelineMsg,
        ctx: &EngineCtx<F>,
        launcher: &L,
    ) -> (reports: Vec<ActionReport>)
        ensures
            reports_cover(
                &ctx.fs,
                launcher,
                msg.rules@,
                msg.event.path@,
                schedule(msg.rules@, msg.rules@.len() as int),
                reports@,
            ),
    {
        let path = msg.event.path.as_str();
        let mut reports: Vec<ActionReport> = Vec::new();
        let mut i: usize = 0;
        while i < msg.rules.len()
            invariant
                i <= msg.rules@.len(),
                path@ == msg.event.path@,
                reports_cover(
                    &ctx.fs,
                    launcher,
                    msg.rules@,
                    path@,
                    schedule(msg.rules@, i as int),
                    reports@,
                ),
            decreases msg.rules@.len() - i,
        {
            let rule = &msg.rules[i];
            let ghost before = reports@;
            let ghost done = schedule(msg.rules@, i as int);
            let mut j: usize = 0;
            while j < rule.actions.len()
                invariant
                    i < msg.rules@.len(),
                    j <= rule.actions@.len(),
                    *rule == msg.rules@[i as int],
                    path@ == msg.event.path@,
                    done == schedule(msg.rules@, i as int),
                    reports_cover(
                        &ctx.fs,
                        launcher,
                        msg.rules@,
                        path@,
                        done + Seq::new(j as nat, |a: int| (i as int, a)),
                        reports@,
                    ),
                decreases rule.actions@.len() - j,
            {
                let ghost planned = done + Seq::new(j as nat, |a: int| (i as int, a));
                let ghost earlier = reports@;
                let result = rule.actions[j].run(path, ctx, launcher);
                reports.push(ActionReport { rule: i, action: j, result });
                proof {
                    let next = done + Seq::new((j + 1) as nat, |a: int| (i as int, a));
                    assert(next =~= planned.push((i as int, j as int)));
                    assert forall|k: int| 0 <= k < reports@.len() implies {
                        let report = #[trigger] reports@[k];
                        &&& (report.rule as int, report.action as int) == next[k]
                        &&& 0 <= report.rule < msg.rules@.len()
                        &&& 0 <= report.action < msg.rules@[report.rule as int].actions@.len()
                        &&& exists|stamps: Stamps|
                            stamps.from_clock() && #[trigger] msg.rules@[report.rule
                                as int].actions@[report.action as int].results_in(
                                &ctx.fs,
                                launcher,
                                path@,
                                stamps,
                                report.result,
                            )
                    } by {
                        if k < earlier.len() {
                            assert(reports@[k] == earlier[k]);
                        }
                    }
                }
                j = j + 1;
            }
            proof {
                assert(schedule(msg.rules@, i + 1) =~= done + Seq::new(
                    rule.actions@.len(),
                    |a: int| (i as int, a),
                ));
            }
            i = i + 1;
        }
        reports
    }
}

} // verus!
