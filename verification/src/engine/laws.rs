//! What holds of an event on its way through the pipeline.

use crate::engine::pipeline::{lemma_masked_within, masked, PipelineMsg};
use crate::engine::stages::io_filter::io_mask;
use crate::engine::stages::stability::{emission, Ingest, Probe, StageState, Verdict};
use crate::engine::stages::static_filter::{masked_rules, static_mask};
use crate::actions::{ActionError, ActionOutcome, MoveAction};
use crate::fs::{create_answer, rename_answer, DryRunFs, Fs, FsError};
use crate::paths::parent_of;
use crate::template::Stamps;
use crate::models::{RuntimeRule, RuntimeWatcher};
use crate::watcher::RawEvent;
use std::sync::Arc;
use vstd::prelude::*;

verus! {

impl PipelineMsg {
    /// Every rule of the message is a candidate for its event: it selects the
    /// kind of the event, and its static conditions hold on the path.
    pub open spec fn plausible(self) -> bool {
        forall|i: int|
            0 <= i < self.rules@.len() ==> (#[trigger] self.rules@[i]).plausible_for(self.event)
    }
}

impl StageState {
    /// Every rule of every pending entry is a candidate for the event that
    /// will be emitted for the entry.
    pub open spec fn plausible(self) -> bool {
        forall|i: int|
            0 <= i < self.pending.len() ==> (#[trigger] emission(self.pending[i])).plausible()
    }
}

/// A stage that narrows the rules hands on none but rules that it was given.
pub proof fn lemma_rules_only_narrow(
    rules: Seq<Arc<RuntimeRule>>,
    keep: Seq<bool>,
    rule: Arc<RuntimeRule>,
)
    requires
        masked(rules, keep).contains(rule),
    ensures
        rules.contains(rule),
{
    lemma_masked_within(rules, keep, rule);
}

/// What the static filter keeps is plausible.
pub proof fn lemma_static_filter_is_sound(msg: PipelineMsg, k: int)
    requires
        0 <= k < masked_rules(msg).len(),
    ensures
        masked_rules(msg)[k].plausible_for(msg.event),
{
    let kept = masked_rules(msg);
    assert(kept.contains(kept[k]));
    lemma_masked_within(msg.rules@, static_mask(msg.rules@, msg.event), kept[k]);
}

/// The stability stage hands on the rules it was given: if it is handed
/// plausible messages only, all its entries stay plausible.
pub proof fn lemma_ingest_keeps_plausible(
    pre: StageState,
    msg: PipelineMsg,
    at: u64,
    post: StageState,
)
    requires
        pre.wf(),
        pre.plausible(),
        msg.plausible(),
        pre.ingests(msg, at, post),
    ensures
        post.plausible(),
{
    let path = msg.event.path@;
    assert forall|i: int| 0 <= i < post.pending.len() implies (#[trigger] emission(
        post.pending[i],
    )).plausible() by {
        match pre.outcome_of(path) {
            Ingest::Refreshed => {
                let p = pre.place_of(path);
                assert(emission(pre.pending[i]).plausible());
                if i == p {
                    assert(emission(post.pending[i]) == emission(pre.pending[i]));
                }
            },
            Ingest::Admitted => {
                if i < pre.pending.len() {
                    assert(post.pending.drop_last()[i] == post.pending[i]);
                    assert(emission(pre.pending[i]).plausible());
                } else {
                    let m = emission(post.pending[i]);
                    assert(m.event.path == msg.event.path);
                    assert(m.event.event == msg.event.event);
                    assert(m.rules == msg.rules);
                    assert forall|j: int| 0 <= j < m.rules@.len() implies (
                    #[trigger] m.rules@[j]).plausible_for(m.event) by {
                        assert(msg.rules@[j].plausible_for(msg.event));
                    }
                }
            },
            _ => {
                assert(emission(pre.pending[i]).plausible());
            },
        }
    }
}

/// A sweep keeps plausible entries plausible, and emits plausible messages
/// only.
pub proof fn lemma_sweep_keeps_plausible(pre: StageState, now: u64, probes: Seq<Probe>)
    requires
        pre.plausible(),
    ensures
        pre.swept(now, probes).plausible(),
        forall|k: int|
            0 <= k < pre.emissions(now, probes).len() ==> (#[trigger] pre.emissions(
                now,
                probes,
            )[k]).plausible(),
{
    let post = pre.swept(now, probes);
    pre.lemma_emitted_origin(pre.pending.len() as int, now, probes);
    lemma_kept_entries(pre, pre.pending.len() as int, now, probes);
    assert forall|k: int| 0 <= k < pre.emissions(now, probes).len() implies (
    #[trigger] pre.emissions(now, probes)[k]).plausible() by {
        let m = pre.emissions(now, probes)[k];
        let j = choose|j: int|
            0 <= j < pre.pending.len() && pre.verdict_at(j, now, probes) == Verdict::Emit
                && emission(pre.pending[j]) == m;
        assert(emission(pre.pending[j]).plausible());
    }
    assert forall|i: int| 0 <= i < post.pending.len() implies (#[trigger] emission(
        post.pending[i],
    )).plausible() by {
        let j = choose|j: int|
            0 <= j < pre.pending.len() && emission(pre.pending[j]) == emission(post.pending[i]);
        assert(emission(pre.pending[j]).plausible());
    }
}

/// Every entry that a sweep keeps stands for the same emission as an entry
/// that was pending.
proof fn lemma_kept_entries(pre: StageState, n: int, now: u64, probes: Seq<Probe>)
    requires
        0 <= n <= pre.pending.len(),
    ensures
        forall|k: int|
            0 <= k < pre.kept(n, now, probes).len() ==> exists|j: int|
                0 <= j < n && emission(pre.pending[j]) == emission(
                    #[trigger] pre.kept(n, now, probes)[k],
                ),
    decreases n,
{
    if n > 0 {
        lemma_kept_entries(pre, n - 1, now, probes);
        let rest = pre.kept(n - 1, now, probes);
        let all = pre.kept(n, now, probes);
        assert forall|k: int| 0 <= k < all.len() implies exists|j: int|
            0 <= j < n && emission(pre.pending[j]) == emission(#[trigger] all[k]) by {
            if k < rest.len() {
                assert(all[k] == rest[k]);
                let j = choose|j: int|
                    0 <= j < n - 1 && emission(pre.pending[j]) == emission(rest[k]);
                assert(0 <= j < n && emission(pre.pending[j]) == emission(all[k]));
            } else {
                assert(emission(pre.pending[n - 1]) == emission(all[k]));
            }
        }
    }
}

/// What reaches the sink has passed both filters for at least one rule: the
/// message that the I/O filter hands on holds a rule, and each of its rules
/// selects the kind of the event, has static conditions that hold on the
/// path, and has other conditions that hold as far as the file system
/// answered.
pub proof fn lemma_sink_sees_passed_rules<F: Fs>(
    fs: &F,
    msg: PipelineMsg,
    keep: Seq<bool>,
    handed_on: Seq<Arc<RuntimeRule>>,
)
    requires
        msg.plausible(),
        io_mask(fs, msg.rules@, msg.event, keep),
        handed_on == masked(msg.rules@, keep),
        handed_on.len() > 0,
    ensures
        forall|k: int|
            0 <= k < handed_on.len() ==> (#[trigger] handed_on[k]).plausible_for(msg.event)
                && handed_on[k].io_passed(fs, msg.event),
{
    assert forall|k: int| 0 <= k < handed_on.len() implies (#[trigger] handed_on[k]).plausible_for(
        msg.event,
    ) && handed_on[k].io_passed(fs, msg.event) by {
        assert(handed_on.contains(handed_on[k]));
        lemma_masked_within(msg.rules@, keep, handed_on[k]);
        let i = choose|i: int|
            0 <= i < msg.rules@.len() && i < keep.len() && keep[i] && msg.rules@[i]
                == handed_on[k];
        assert(msg.rules@[i].plausible_for(msg.event));
    }
}

/// A watcher without rules reports nothing, whatever happens in its
/// directory.
pub proof fn lemma_no_rules_no_events(watcher: RuntimeWatcher, batch: Seq<RawEvent>, n: int)
    requires
        watcher.rules@.len() == 0,
    ensures
        watcher.admitted(batch, n).len() == 0,
    decreases n,
{
    if n > 0 {
        lemma_no_rules_no_events(watcher, batch, n - 1);
    }
}

/// A message without rules does not pass the static filter.
pub proof fn lemma_no_rules_no_passage(msg: PipelineMsg)
    requires
        msg.rules@.len() == 0,
    ensures
        masked_rules(msg).len() == 0,
{
}

/// A dry run never fails for the file system's sake: asked to create or to
/// move, it reports success, so a move ends in a move, in leaving the file,
/// in a refusal for what is in the way, or in a collision.
pub proof fn lemma_dry_run_does_not_fail<F: Fs>(
    action: MoveAction,
    fs: &DryRunFs<F>,
    path: Seq<char>,
    stamps: Stamps,
    r: Result<ActionOutcome, ActionError>,
)
    requires
        action.results_in(fs, path, stamps, r),
    ensures
        !(r is Err && r->Err_0 is IoFailure),
{
    if action.target(path, stamps) is Some {
        let target = action.target(path, stamps)->0;
        assert forall|from: Seq<char>, to: Seq<char>|
            MoveAction::moved_to(fs, from, to, r) implies !(r is Err && r->Err_0 is IoFailure) by {
            let moved = choose|moved: Result<(), FsError>|
                rename_answer(fs, from, to, moved) && MoveAction::concluded(from, to, moved, r);
            assert(moved is Ok);
        }
        assert(action.placed(fs, path, target, r) ==> !(r is Err && r->Err_0 is IoFailure));
        if parent_of(target) is Some {
            let dir = parent_of(target)->0;
            let made = choose|made: Result<(), FsError>|
                create_answer(fs, dir, made) && match made {
                    Ok(_) => action.placed(fs, path, target, r),
                    Err(e) => r matches Err(ActionError::IoFailure { message }) && message
                        == e.message,
                };
            assert(made is Ok);
        }
    }
}

} // verus!
