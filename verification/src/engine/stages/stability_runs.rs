//! What holds of the stability stage over a whole run: of the emissions of a
//! path among the events of that path.
//!
//! A run is made of the steps that the stage can take: taking in an event,
//! sweeping, cleaning up, and noting the time of a sweep.  Polling is a sweep,
//! a cleanup and a note, in this order.

use crate::engine::pipeline::PipelineMsg;
use crate::engine::stages::stability::{elapsed, Ingest, Probe, StageState};
use crate::engine::stages::stability_laws::{logged, Taken};
use vstd::prelude::*;

verus! {

/// One step of the stage.
pub enum Step {
    /// The event of `msg` was handed in at `at`.
    Took { msg: PipelineMsg, at: u64 },
    /// A sweep ran at `now`, with the answers `probes`.
    Swept { now: u64, probes: Seq<Probe> },
    /// A cleanup was asked for at `now`.
    Cleaned { now: u64 },
    /// The time of the last sweep was noted as `now`.
    Marked { now: u64 },
}

impl Step {
    /// When the step was made.
    pub open spec fn time(self) -> u64 {
        match self {
            Step::Took { msg, at } => at,
            Step::Swept { now, probes } => now,
            Step::Cleaned { now } => now,
            Step::Marked { now } => now,
        }
    }

    /// The step leads from `pre` to `post`.
    pub open spec fn leads(self, pre: StageState, post: StageState) -> bool {
        match self {
            Step::Took { msg, at } => pre.ingests(msg, at, post),
            Step::Swept { now, probes } => post == pre.swept(now, probes),
            Step::Cleaned { now } => post == pre.cleaned(now),
            Step::Marked { now } => post == (StageState { last_check: now, ..pre }),
        }
    }

    /// In state `pre` the step takes in an event for `path`, which is or
    /// thereby becomes pending.
    pub open spec fn takes_in(self, pre: StageState, path: Seq<char>) -> bool {
        match self {
            Step::Took { msg, at } => {
                &&& msg.event.path@ == path
                &&& (pre.outcome_of(path) is Refreshed || pre.outcome_of(path) is Admitted)
            },
            _ => false,
        }
    }

    /// In state `pre` the step emits `path`.
    pub open spec fn emits(self, pre: StageState, path: Seq<char>) -> bool {
        match self {
            Step::Swept { now, probes } => exists|k: int|
                0 <= k < pre.emissions(now, probes).len() && (#[trigger] pre.emissions(
                    now,
                    probes,
                )[k]).event.path@ == path,
            _ => false,
        }
    }
}

/// Polling, where a sweep is due, is three steps of a run: a sweep, a cleanup
/// and a note of the time.
pub proof fn lemma_poll_is_three_steps(pre: StageState, now: u64, probes: Seq<Probe>)
    ensures
        (Step::Swept { now, probes }).leads(pre, pre.swept(now, probes)),
        (Step::Cleaned { now }).leads(pre.swept(now, probes), pre.swept(now, probes).cleaned(now)),
        (Step::Marked { now }).leads(
            pre.swept(now, probes).cleaned(now),
            StageState { last_check: now, ..pre.swept(now, probes).cleaned(now) },
        ),
{
}

/// A run of the stage: it starts well formed, each step leads from one state
/// to the next, and time does not run backwards.
pub open spec fn is_run(states: Seq<StageState>, steps: Seq<Step>) -> bool {
    &&& states.len() == steps.len() + 1
    &&& states[0].wf()
    &&& forall|i: int| 0 <= i < steps.len() ==> (#[trigger] steps[i]).leads(states[i], states[i + 1])
    &&& forall|i: int, j: int|
        0 <= i <= j < steps.len() ==> (#[trigger] steps[i]).time() <= (#[trigger] steps[j]).time()
}

/// The events that the first `n` steps of a run took in for paths that were,
/// or thereby became, pending.
pub open spec fn taken(states: Seq<StageState>, steps: Seq<Step>, n: int) -> Seq<Taken>
    decreases n,
{
    if n <= 0 {
        Seq::empty()
    } else {
        match steps[n - 1] {
            Step::Took { msg, at } => logged(
                states[n - 1],
                taken(states, steps, n - 1),
                msg,
                at,
            ),
            _ => taken(states, steps, n - 1),
        }
    }
}

/// Throughout a run the stage is well formed and keeps its constants.
pub proof fn lemma_run_stays_wf(states: Seq<StageState>, steps: Seq<Step>, n: int)
    requires
        is_run(states, steps),
        0 <= n <= steps.len(),
    ensures
        states[n].wf(),
        states[n].config == states[0].config,
    decreases n,
{
    if n > 0 {
        lemma_run_stays_wf(states, steps, n - 1);
        let pre = states[n - 1];
        let post = states[n];
        assert(steps[n - 1].leads(pre, post));
        match steps[n - 1] {
            Step::Took { msg, at } => {
                pre.lemma_ingests_wf(msg, at, post);
            },
            Step::Swept { now, probes } => {
                pre.lemma_swept_wf(now, probes);
            },
            Step::Cleaned { now } => {
                pre.lemma_cleaned_wf(now);
            },
            Step::Marked { now } => {},
        }
    }
}

/// Each event among those taken in by the first `n` steps was taken in by one
/// of these steps, at the time of that step.
pub proof fn lemma_taken_by_a_step(states: Seq<StageState>, steps: Seq<Step>, n: int, k: int)
    requires
        states.len() == steps.len() + 1,
        0 <= n <= steps.len(),
        0 <= k < taken(states, steps, n).len(),
    ensures
        exists|i: int|
            0 <= i < n && (#[trigger] steps[i]).takes_in(
                states[i],
                taken(states, steps, n)[k].path,
            ) && steps[i].time() == taken(states, steps, n)[k].at,
    decreases n,
{
    let before = taken(states, steps, n - 1);
    let after = taken(states, steps, n);
    if k < before.len() {
        assert(after[k] == before[k]);
        lemma_taken_by_a_step(states, steps, n - 1, k);
        let i = choose|i: int|
            0 <= i < n - 1 && (#[trigger] steps[i]).takes_in(states[i], before[k].path)
                && steps[i].time() == before[k].at;
        assert(0 <= i < n && steps[i].takes_in(states[i], after[k].path));
    } else {
        assert(steps[n - 1].takes_in(states[n - 1], after[k].path));
    }
}

/// Each event that one of the first `n` steps took in is among those taken in
/// by these steps.
pub proof fn lemma_step_is_taken(
    states: Seq<StageState>,
    steps: Seq<Step>,
    n: int,
    i: int,
    path: Seq<char>,
)
    requires
        states.len() == steps.len() + 1,
        0 <= i < n <= steps.len(),
        steps[i].takes_in(states[i], path),
    ensures
        exists|k: int|
            0 <= k < taken(states, steps, n).len() && #[trigger] taken(states, steps, n)[k] == (
            Taken { path, at: steps[i].time() }),
    decreases n,
{
    let before = taken(states, steps, n - 1);
    let after = taken(states, steps, n);
    if i < n - 1 {
        lemma_step_is_taken(states, steps, n - 1, i, path);
        let k = choose|k: int|
            0 <= k < before.len() && #[trigger] before[k] == (Taken { path, at: steps[i].time() });
        assert(after[k] == before[k]);
    } else {
        assert(after[after.len() - 1] == (Taken { path, at: steps[i].time() }));
    }
}

/// Throughout a run the stage remembers every event it has taken in.
pub proof fn lemma_run_remembers(states: Seq<StageState>, steps: Seq<Step>, n: int)
    requires
        is_run(states, steps),
        0 <= n <= steps.len(),
    ensures
        states[n].remembers(taken(states, steps, n)),
    decreases n,
{
    if n > 0 {
        lemma_run_remembers(states, steps, n - 1);
        lemma_run_stays_wf(states, steps, n - 1);
        let pre = states[n - 1];
        let post = states[n];
        let before = taken(states, steps, n - 1);
        let step = steps[n - 1];
        assert(step.leads(pre, post));
        match step {
            Step::Took { msg, at } => {
                assert forall|k: int| 0 <= k < before.len() implies (#[trigger] before[k]).at
                    <= at by {
                    lemma_taken_by_a_step(states, steps, n - 1, k);
                    let i = choose|i: int|
                        0 <= i < n - 1 && (#[trigger] steps[i]).takes_in(
                            states[i],
                            before[k].path,
                        ) && steps[i].time() == before[k].at;
                    assert(steps[i].time() <= steps[n - 1].time());
                }
                pre.lemma_ingest_remembers(before, msg, at, post);
            },
            Step::Swept { now, probes } => {
                pre.lemma_sweep_remembers(before, now, probes);
            },
            Step::Cleaned { now } => {
                pre.lemma_cleanup_remembers(before, now);
            },
            Step::Marked { now } => {},
        }
    }
}

/// Every emission follows a quiet time.  In a run, when a sweep emits a
/// path, each event of that path that was taken in earlier in the run was
/// taken in at least `min_quiet_ms` before the sweep.
///
/// So between two emissions of a path lies a stretch of `min_quiet_ms`
/// without an event of the path: the one that ends with the second emission.
pub proof fn lemma_emissions_follow_quiet(
    states: Seq<StageState>,
    steps: Seq<Step>,
    i: int,
    j: int,
    path: Seq<char>,
)
    requires
        is_run(states, steps),
        0 <= i < j < steps.len(),
        steps[i].takes_in(states[i], path),
        steps[j].emits(states[j], path),
    ensures
        elapsed(steps[j].time(), steps[i].time()) >= states[0].config.min_quiet_ms,
{
    lemma_run_remembers(states, steps, j);
    lemma_run_stays_wf(states, steps, j);
    lemma_step_is_taken(states, steps, j, i, path);
    let log = taken(states, steps, j);
    let e = choose|e: int|
        0 <= e < log.len() && #[trigger] log[e] == (Taken { path, at: steps[i].time() });
    match steps[j] {
        Step::Swept { now, probes } => {
            let k = choose|k: int|
                0 <= k < states[j].emissions(now, probes).len() && (#[trigger] states[j].emissions(
                    now,
                    probes,
                )[k]).event.path@ == path;
            states[j].lemma_emission_follows_quiet(log, now, probes, k, e);
        },
        _ => {},
    }
}

/// A path becomes pending by an event of it, and in no other way.
pub proof fn lemma_pending_by_event_only(
    pre: StageState,
    step: Step,
    post: StageState,
    path: Seq<char>,
)
    requires
        pre.wf(),
        step.leads(pre, post),
        post.tracks(path),
        !pre.tracks(path),
    ensures
        step.takes_in(pre, path),
{
    let q = post.place_of(path);
    match step {
        Step::Took { msg, at } => {
            match pre.outcome_of(msg.event.path@) {
                Ingest::Refreshed => {
                    let p = pre.place_of(msg.event.path@);
                    assert(pre.pending[q].path@ == path);
                },
                Ingest::Admitted => {
                    if q < pre.pending.len() {
                        assert(post.pending.drop_last()[q] == post.pending[q]);
                        assert(pre.pending[q].path@ == path);
                    }
                },
                _ => {
                    assert(pre.pending[q].path@ == path);
                },
            }
        },
        Step::Swept { now, probes } => {
            pre.lemma_kept_origin(pre.pending.len() as int, now, probes);
            let j = choose|j: int|
                0 <= j < pre.pending.len() && pre.pending[j].path == post.pending[q].path;
            assert(pre.pending[j].path@ == path);
        },
        Step::Cleaned { now } => {
            if pre.cleanup_due(now) {
                pre.lemma_lasting_paths(pre.pending.len() as int, now);
                let j = choose|j: int| 0 <= j < pre.pending.len() && pre.pending[j] == post.pending[q];
                assert(pre.pending[j].path@ == path);
            } else {
                assert(pre.pending[q].path@ == path);
            }
        },
        Step::Marked { now } => {
            assert(pre.pending[q].path@ == path);
        },
    }
}

/// In a run, a path that is pending at no step from `from` up to `to` was not
/// handed in between.
proof fn lemma_not_pending_until(
    states: Seq<StageState>,
    steps: Seq<Step>,
    from: int,
    to: int,
    path: Seq<char>,
)
    requires
        is_run(states, steps),
        0 <= from <= to <= steps.len(),
        !states[from].tracks(path),
        forall|i: int| from <= i < to ==> !(#[trigger] steps[i]).takes_in(states[i], path),
    ensures
        !states[to].tracks(path),
    decreases to - from,
{
    if from < to {
        lemma_not_pending_until(states, steps, from, to - 1, path);
        lemma_run_stays_wf(states, steps, to - 1);
        assert(steps[to - 1].leads(states[to - 1], states[to]));
        if states[to].tracks(path) {
            lemma_pending_by_event_only(states[to - 1], steps[to - 1], states[to], path);
        }
    }
}

/// Nothing is emitted twice for the same events.  In a run, between two
/// emissions of a path lies an event of that path that the stage took in.
pub proof fn lemma_one_emission_per_change(
    states: Seq<StageState>,
    steps: Seq<Step>,
    j: int,
    l: int,
    path: Seq<char>,
)
    requires
        is_run(states, steps),
        0 <= j < l < steps.len(),
        steps[j].emits(states[j], path),
        steps[l].emits(states[l], path),
    ensures
        exists|i: int| j < i < l && (#[trigger] steps[i]).takes_in(states[i], path),
{
    lemma_run_stays_wf(states, steps, j);
    lemma_run_stays_wf(states, steps, l);
    assert(steps[j].leads(states[j], states[j + 1]));
    match steps[j] {
        Step::Swept { now, probes } => {
            let k = choose|k: int|
                0 <= k < states[j].emissions(now, probes).len() && (#[trigger] states[j].emissions(
                    now,
                    probes,
                )[k]).event.path@ == path;
            states[j].lemma_emitted_is_forgotten(now, probes, k);
        },
        _ => {},
    }
    assert(!states[j + 1].tracks(path));
    if forall|i: int| j < i < l ==> !(#[trigger] steps[i]).takes_in(states[i], path) {
        lemma_not_pending_until(states, steps, j + 1, l, path);
        match steps[l] {
            Step::Swept { now, probes } => {
                let k = choose|k: int|
                    0 <= k < states[l].emissions(now, probes).len() && (
                    #[trigger] states[l].emissions(now, probes)[k]).event.path@ == path;
                states[l].lemma_emission_needs_quiet(now, probes, k);
            },
            _ => {},
        }
    }
}

} // verus!
