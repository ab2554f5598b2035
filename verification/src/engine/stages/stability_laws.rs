//! What holds of the stability stage, whatever the file system answers.

use crate::engine::pipeline::PipelineMsg;
use crate::engine::stages::stability::{
    elapsed, emission, Forgotten, Ingest, Lost, PendingFile, Probe, StabilityConfig, StageState,
    Verdict,
};
use crate::models::Event;
use vstd::prelude::*;

verus! {

impl StageState {
    /// When the last event of `path` was taken in, where `path` is pending.
    pub open spec fn last_event_of(self, path: Seq<char>) -> u64 {
        self.pending[self.place_of(path)].last_event
    }

    /// Taking in an event leaves the stage well formed: no path is ever
    /// pending twice.
    pub proof fn lemma_ingests_wf(self, msg: PipelineMsg, at: u64, post: StageState)
        requires
            self.wf(),
            self.ingests(msg, at, post),
        ensures
            post.wf(),
    {
        let path = msg.event.path@;
        match self.outcome_of(path) {
            Ingest::Sibling => {
                if !self.lists(path) {
                    assert forall|i: int, j: int|
                        0 <= i < j < post.siblings.len() implies post.siblings[i].path@
                        != post.siblings[j].path@ by {
                        assert(post.siblings.drop_last()[i] == post.siblings[i]);
                        if j < self.siblings.len() {
                            assert(post.siblings.drop_last()[j] == post.siblings[j]);
                        }
                    }
                    assert forall|k: int| 0 <= k < post.siblings.len() implies post.config.may_list(
                        #[trigger] post.siblings[k],
                    ) by {
                        if k < self.siblings.len() {
                            assert(post.siblings.drop_last()[k] == post.siblings[k]);
                        }
                    }
                }
            },
            Ingest::Refreshed => {
                let p = self.place_of(path);
                assert forall|i: int| 0 <= i < post.pending.len() implies post.config.may_wait(
                    #[trigger] post.pending[i],
                ) by {
                    assert(self.config.may_wait(self.pending[i]));
                }
            },
            Ingest::Admitted => {
                assert forall|i: int, j: int|
                    0 <= i < j < post.pending.len() implies post.pending[i].path@
                    != post.pending[j].path@ by {
                    assert(post.pending.drop_last()[i] == post.pending[i]);
                    if j < self.pending.len() {
                        assert(post.pending.drop_last()[j] == post.pending[j]);
                    }
                }
                assert forall|i: int| 0 <= i < post.pending.len() implies post.config.may_wait(
                    #[trigger] post.pending[i],
                ) by {
                    if i < self.pending.len() {
                        assert(post.pending.drop_last()[i] == post.pending[i]);
                    }
                }
            },
            _ => {},
        }
    }

    /// A path is pending or listed as a temporary sibling, never both.
    pub proof fn lemma_pending_is_not_listed(self, path: Seq<char>)
        requires
            self.wf(),
            self.tracks(path),
        ensures
            !self.lists(path),
    {
        let i = self.place_of(path);
        assert(self.config.may_wait(self.pending[i]));
        if self.lists(path) {
            let k = choose|k: int| 0 <= k < self.siblings.len() && self.siblings[k].path@ == path;
            assert(self.config.may_list(self.siblings[k]));
        }
    }

    /// An event that is taken in for a path that is or becomes pending sets
    /// the time of the path's last event.
    pub proof fn lemma_ingest_sets_last_event(self, msg: PipelineMsg, at: u64, post: StageState)
        requires
            self.wf(),
            self.ingests(msg, at, post),
            self.outcome_of(msg.event.path@) is Refreshed || self.outcome_of(msg.event.path@)
                is Admitted,
        ensures
            post.tracks(msg.event.path@),
            post.last_event_of(msg.event.path@) == at,
    {
        let path = msg.event.path@;
        self.lemma_ingests_wf(msg, at, post);
        if self.outcome_of(path) is Refreshed {
            let i = self.place_of(path);
            assert(post.pending[i].path@ == path);
        } else {
            assert(post.pending[post.pending.len() - 1].path@ == path);
        }
        let p = post.place_of(path);
        if self.outcome_of(path) is Refreshed {
            assert(p == self.place_of(path));
        } else {
            assert(p == post.pending.len() - 1);
        }
    }

    /// Every message of a sweep is the emission of an entry that the sweep
    /// decided to emit.
    pub proof fn lemma_emitted_origin(self, n: int, now: u64, probes: Seq<Probe>)
        requires
            0 <= n <= self.pending.len(),
        ensures
            forall|k: int|
                0 <= k < self.emitted(n, now, probes).len() ==> exists|j: int|
                    0 <= j < n && self.verdict_at(j, now, probes) == Verdict::Emit && emission(
                        self.pending[j],
                    ) == #[trigger] self.emitted(n, now, probes)[k],
        decreases n,
    {
        if n > 0 {
            self.lemma_emitted_origin(n - 1, now, probes);
            let rest = self.emitted(n - 1, now, probes);
            let all = self.emitted(n, now, probes);
            assert forall|k: int| 0 <= k < all.len() implies exists|j: int|
                0 <= j < n && self.verdict_at(j, now, probes) == Verdict::Emit && emission(
                    self.pending[j],
                ) == #[trigger] all[k] by {
                if k < rest.len() {
                    assert(all[k] == rest[k]);
                    let j = choose|j: int|
                        0 <= j < n - 1 && self.verdict_at(j, now, probes) == Verdict::Emit
                            && emission(self.pending[j]) == rest[k];
                    assert(0 <= j < n && emission(self.pending[j]) == all[k]);
                } else {
                    assert(emission(self.pending[n - 1]) == all[k]);
                }
            }
        }
    }

    /// Every entry that a sweep keeps is an entry that was pending and that
    /// the sweep did not decide to emit or to forget; its path and the time of
    /// its last event are as they were.
    pub proof fn lemma_kept_origin(self, n: int, now: u64, probes: Seq<Probe>)
        requires
            0 <= n <= self.pending.len(),
        ensures
            forall|k: int|
                0 <= k < self.kept(n, now, probes).len() ==> exists|j: int|
                    {
                        &&& 0 <= j < n
                        &&& self.verdict_at(j, now, probes) != Verdict::Emit
                        &&& self.verdict_at(j, now, probes) != Verdict::GiveUp
                        &&& self.verdict_at(j, now, probes) != Verdict::Vanished
                        &&& self.pending[j].path == (#[trigger] self.kept(n, now, probes)[k]).path
                        &&& self.pending[j].last_event == self.kept(n, now, probes)[k].last_event
                    },
        decreases n,
    {
        if n > 0 {
            self.lemma_kept_origin(n - 1, now, probes);
            let rest = self.kept(n - 1, now, probes);
            let all = self.kept(n, now, probes);
            assert forall|k: int| 0 <= k < all.len() implies exists|j: int|
                {
                    &&& 0 <= j < n
                    &&& self.verdict_at(j, now, probes) != Verdict::Emit
                    &&& self.verdict_at(j, now, probes) != Verdict::GiveUp
                    &&& self.verdict_at(j, now, probes) != Verdict::Vanished
                    &&& self.pending[j].path == (#[trigger] all[k]).path
                    &&& self.pending[j].last_event == all[k].last_event
                } by {
                if k < rest.len() {
                    assert(all[k] == rest[k]);
                    let j = choose|j: int|
                        {
                            &&& 0 <= j < n - 1
                            &&& self.verdict_at(j, now, probes) != Verdict::Emit
                            &&& self.verdict_at(j, now, probes) != Verdict::GiveUp
                            &&& self.verdict_at(j, now, probes) != Verdict::Vanished
                            &&& self.pending[j].path == rest[k].path
                            &&& self.pending[j].last_event == rest[k].last_event
                        };
                    assert(0 <= j < n && self.pending[j].path == all[k].path);
                } else {
                    assert(self.pending[n - 1].path == all[k].path);
                }
            }
        }
    }

    /// A path is emitted only once it has been quiet: a sweep at `now` emits
    /// a path only if `min_quiet_ms` have passed since the last event of the
    /// path was taken in.
    pub proof fn lemma_emission_needs_quiet(self, now: u64, probes: Seq<Probe>, k: int)
        requires
            self.wf(),
            0 <= k < self.emissions(now, probes).len(),
        ensures
            self.tracks(self.emissions(now, probes)[k].event.path@),
            elapsed(now, self.last_event_of(self.emissions(now, probes)[k].event.path@))
                >= self.config.min_quiet_ms,
    {
        self.lemma_emitted_origin(self.pending.len() as int, now, probes);
        let m = self.emissions(now, probes)[k];
        let j = choose|j: int|
            0 <= j < self.pending.len() && self.verdict_at(j, now, probes) == Verdict::Emit
                && emission(self.pending[j]) == m;
        assert(self.pending[j].path@ == m.event.path@);
        assert(self.place_of(m.event.path@) == j);
    }

    /// After an event of a path was taken in at `at`, no sweep emits the path
    /// before `min_quiet_ms` have passed since `at`.
    pub proof fn lemma_quiet_before_emission(
        self,
        msg: PipelineMsg,
        at: u64,
        mid: StageState,
        now: u64,
        probes: Seq<Probe>,
        k: int,
    )
        requires
            self.wf(),
            self.ingests(msg, at, mid),
            self.outcome_of(msg.event.path@) is Refreshed || self.outcome_of(msg.event.path@)
                is Admitted,
            elapsed(now, at) < mid.config.min_quiet_ms,
            0 <= k < mid.emissions(now, probes).len(),
        ensures
            mid.emissions(now, probes)[k].event.path@ != msg.event.path@,
    {
        self.lemma_ingests_wf(msg, at, mid);
        self.lemma_ingest_sets_last_event(msg, at, mid);
        mid.lemma_emission_needs_quiet(now, probes, k);
    }

    /// A sweep leaves the time of the last event of every path that stays
    /// pending as it was, so the quiet time of a path is counted from its last
    /// event, whatever number of sweeps lie between.
    pub proof fn lemma_sweep_keeps_last_event(self, now: u64, probes: Seq<Probe>, path: Seq<char>)
        requires
            self.wf(),
            self.swept(now, probes).tracks(path),
        ensures
            self.tracks(path),
            self.swept(now, probes).last_event_of(path) == self.last_event_of(path),
    {
        let post = self.swept(now, probes);
        self.lemma_kept_origin(self.pending.len() as int, now, probes);
        let k = post.place_of(path);
        let j = choose|j: int|
            {
                &&& 0 <= j < self.pending.len()
                &&& self.pending[j].path == post.pending[k].path
                &&& self.pending[j].last_event == post.pending[k].last_event
            };
        assert(self.pending[j].path@ == path);
        assert(self.place_of(path) == j);
    }

    /// What is emitted is forgotten: after a sweep, no emitted path is
    /// pending.
    pub proof fn lemma_emitted_is_forgotten(self, now: u64, probes: Seq<Probe>, k: int)
        requires
            self.wf(),
            0 <= k < self.emissions(now, probes).len(),
        ensures
            !self.swept(now, probes).tracks(self.emissions(now, probes)[k].event.path@),
    {
        let post = self.swept(now, probes);
        let m = self.emissions(now, probes)[k];
        self.lemma_emitted_origin(self.pending.len() as int, now, probes);
        self.lemma_kept_origin(self.pending.len() as int, now, probes);
        let j = choose|j: int|
            0 <= j < self.pending.len() && self.verdict_at(j, now, probes) == Verdict::Emit
                && emission(self.pending[j]) == m;
        if post.tracks(m.event.path@) {
            let q = post.place_of(m.event.path@);
            let i = choose|i: int|
                {
                    &&& 0 <= i < self.pending.len()
                    &&& self.verdict_at(i, now, probes) != Verdict::Emit
                    &&& self.pending[i].path == post.pending[q].path
                };
            assert(self.pending[i].path@ == self.pending[j].path@);
            assert(i != j);
        }
    }

    /// Nothing is emitted twice: a path that one sweep emits is not emitted by
    /// the next sweep, whenever that runs and whatever it is answered.
    pub proof fn lemma_no_second_emission(
        self,
        now: u64,
        probes: Seq<Probe>,
        k: int,
        later: u64,
        answers: Seq<Probe>,
        l: int,
    )
        requires
            self.wf(),
            0 <= k < self.emissions(now, probes).len(),
            0 <= l < self.swept(now, probes).emissions(later, answers).len(),
        ensures
            self.swept(now, probes).emissions(later, answers)[l].event.path@ != self.emissions(
                now,
                probes,
            )[k].event.path@,
    {
        let post = self.swept(now, probes);
        self.lemma_swept_wf(now, probes);
        self.lemma_emitted_is_forgotten(now, probes, k);
        post.lemma_emission_needs_quiet(later, answers, l);
    }

    /// In one sweep, no path is emitted twice.
    pub proof fn lemma_emitted_once(self, n: int, now: u64, probes: Seq<Probe>)
        requires
            self.wf(),
            0 <= n <= self.pending.len(),
        ensures
            forall|k: int, l: int|
                0 <= k < l < self.emitted(n, now, probes).len() ==> self.emitted(
                    n,
                    now,
                    probes,
                )[k].event.path@ != self.emitted(n, now, probes)[l].event.path@,
        decreases n,
    {
        if n > 0 {
            self.lemma_emitted_once(n - 1, now, probes);
            self.lemma_emitted_origin(n - 1, now, probes);
            let rest = self.emitted(n - 1, now, probes);
            let all = self.emitted(n, now, probes);
            assert forall|k: int, l: int| 0 <= k < l < all.len() implies all[k].event.path@
                != all[l].event.path@ by {
                if l == rest.len() {
                    assert(all[k] == rest[k]);
                    let j = choose|j: int|
                        0 <= j < n - 1 && self.verdict_at(j, now, probes) == Verdict::Emit
                            && emission(self.pending[j]) == rest[k];
                    assert(self.pending[j].path@ != self.pending[n - 1].path@);
                } else {
                    assert(all[k] == rest[k] && all[l] == rest[l]);
                }
            }
        }
    }

    /// A file that was created and never modified is not emitted, whatever
    /// its size; nor is an empty file that was created, whatever else is
    /// known of it.
    pub proof fn lemma_bare_create_is_held(self, now: u64, probes: Seq<Probe>, j: int, k: int)
        requires
            self.wf(),
            0 <= j < self.pending.len(),
            self.pending[j].orig_kind == Event::Created,
            !self.pending[j].saw_modified || probe_size(probes, j) == Some(0u64),
            0 <= k < self.emissions(now, probes).len(),
        ensures
            self.emissions(now, probes)[k].event.path@ != self.pending[j].path@,
    {
        self.lemma_emitted_origin(self.pending.len() as int, now, probes);
        let m = self.emissions(now, probes)[k];
        let i = choose|i: int|
            0 <= i < self.pending.len() && self.verdict_at(i, now, probes) == Verdict::Emit
                && emission(self.pending[i]) == m;
        if m.event.path@ == self.pending[j].path@ {
            assert(i == j);
        }
    }

    /// What a sweep gives up, it reports.
    pub proof fn lemma_given_up_is_reported(self, n: int, now: u64, probes: Seq<Probe>, j: int)
        requires
            0 <= j < n <= self.pending.len(),
            self.verdict_at(j, now, probes) == Verdict::GiveUp,
        ensures
            exists|k: int|
                0 <= k < self.dropped(n, now, probes).len() && #[trigger] self.dropped(
                    n,
                    now,
                    probes,
                )[k] == (Forgotten { path: self.pending[j].path, why: Lost::GivenUp }),
        decreases n,
    {
        let rest = self.dropped(n - 1, now, probes);
        let all = self.dropped(n, now, probes);
        if j < n - 1 {
            self.lemma_given_up_is_reported(n - 1, now, probes, j);
            let k = choose|k: int|
                0 <= k < rest.len() && #[trigger] rest[k] == (Forgotten {
                    path: self.pending[j].path,
                    why: Lost::GivenUp,
                });
            assert(all[k] == rest[k]);
        } else {
            assert(all[all.len() - 1] == (Forgotten {
                path: self.pending[j].path,
                why: Lost::GivenUp,
            }));
        }
    }

    /// A path that has been looked at `max_checks` times is given up: the
    /// sweep forgets it, reports it as given up, and emits nothing for it,
    /// whatever the file system shows.
    pub proof fn lemma_exhausted_is_dropped(self, now: u64, probes: Seq<Probe>, j: int)
        requires
            self.wf(),
            0 <= j < self.pending.len(),
            StabilityConfig::checks_after(self.pending[j]) >= self.config.max_checks,
        ensures
            !self.swept(now, probes).tracks(self.pending[j].path@),
            forall|k: int|
                0 <= k < self.emissions(now, probes).len() ==> (#[trigger] self.emissions(
                    now,
                    probes,
                )[k]).event.path@ != self.pending[j].path@,
            exists|k: int|
                0 <= k < self.drops(now, probes).len() && #[trigger] self.drops(now, probes)[k]
                    == (Forgotten { path: self.pending[j].path, why: Lost::GivenUp }),
    {
        assert(self.verdict_at(j, now, probes) == Verdict::GiveUp);
        self.lemma_given_up_is_reported(self.pending.len() as int, now, probes, j);
        let given_up = Forgotten { path: self.pending[j].path, why: Lost::GivenUp };
        let k = choose|k: int|
            0 <= k < self.dropped(self.pending.len() as int, now, probes).len()
                && #[trigger] self.dropped(self.pending.len() as int, now, probes)[k] == given_up;
        assert(self.drops(now, probes)[k] == given_up);
        let post = self.swept(now, probes);
        let path = self.pending[j].path@;
        self.lemma_emitted_origin(self.pending.len() as int, now, probes);
        self.lemma_kept_origin(self.pending.len() as int, now, probes);
        assert(self.verdict_at(j, now, probes) == Verdict::GiveUp);
        if post.tracks(path) {
            let q = post.place_of(path);
            let i = choose|i: int|
                {
                    &&& 0 <= i < self.pending.len()
                    &&& self.verdict_at(i, now, probes) != Verdict::GiveUp
                    &&& self.pending[i].path == post.pending[q].path
                };
            assert(i != j);
            assert(self.pending[i].path@ == self.pending[j].path@);
        }
        assert forall|k: int| 0 <= k < self.emissions(now, probes).len() implies (
        #[trigger] self.emissions(now, probes)[k]).event.path@ != path by {
            let m = self.emissions(now, probes)[k];
            let i = choose|i: int|
                0 <= i < self.pending.len() && self.verdict_at(i, now, probes) == Verdict::Emit
                    && emission(self.pending[i]) == m;
            if m.event.path@ == path {
                assert(i == j);
            }
        }
    }
}

/// The size that the probe at place `i` shows, if it shows a file.
pub open spec fn probe_size(probes: Seq<Probe>, i: int) -> Option<u64> {
    if 0 <= i < probes.len() {
        match probes[i] {
            Probe::Present { size, mtime } => Some(size),
            _ => None,
        }
    } else {
        None
    }
}

/// An event that the stage took in for a path that was, or thereby became,
/// pending.
pub struct Taken {
    pub path: Seq<char>,
    pub at: u64,
}

/// No event of `log` was taken in after `clock`.
pub open spec fn not_after(log: Seq<Taken>, clock: u64) -> bool {
    forall|k: int| 0 <= k < log.len() ==> (#[trigger] log[k]).at <= clock
}

/// `log` with the event of `msg`, if the stage in state `pre` takes it in for
/// a path that is or becomes pending.
pub open spec fn logged(
    pre: StageState,
    log: Seq<Taken>,
    msg: PipelineMsg,
    at: u64,
) -> Seq<Taken> {
    let outcome = pre.outcome_of(msg.event.path@);
    if outcome is Refreshed || outcome is Admitted {
        log.push(Taken { path: msg.event.path@, at })
    } else {
        log
    }
}

impl StageState {
    /// The stage remembers the events of `log`: for no pending path does
    /// `log` hold an event later than the one the entry of the path goes by.
    pub open spec fn remembers(self, log: Seq<Taken>) -> bool {
        forall|i: int, k: int|
            0 <= i < self.pending.len() && 0 <= k < log.len() && (#[trigger] log[k]).path == (
            #[trigger] self.pending[i]).path@ ==> log[k].at <= self.pending[i].last_event
    }

    /// While time does not run backwards, the stage remembers every event it
    /// takes in.
    pub proof fn lemma_ingest_remembers(
        self,
        log: Seq<Taken>,
        msg: PipelineMsg,
        at: u64,
        post: StageState,
    )
        requires
            self.wf(),
            self.remembers(log),
            not_after(log, at),
            self.ingests(msg, at, post),
        ensures
            post.remembers(logged(self, log, msg, at)),
            not_after(logged(self, log, msg, at), at),
    {
        let path = msg.event.path@;
        let after = logged(self, log, msg, at);
        self.lemma_ingests_wf(msg, at, post);
        assert forall|i: int, k: int|
            0 <= i < post.pending.len() && 0 <= k < after.len() && (#[trigger] after[k]).path == (
            #[trigger] post.pending[i]).path@ implies after[k].at <= post.pending[i].last_event by {
            match self.outcome_of(path) {
                Ingest::Refreshed => {
                    let p = self.place_of(path);
                    if i == p {
                        assert(post.pending[i].last_event == at);
                    } else if k < log.len() {
                        assert(log[k].path == self.pending[i].path@);
                    } else {
                        assert(self.pending[i].path@ == self.pending[p].path@);
                    }
                },
                Ingest::Admitted => {
                    if i < self.pending.len() {
                        assert(post.pending.drop_last()[i] == post.pending[i]);
                        if k < log.len() {
                            assert(log[k].path == self.pending[i].path@);
                        } else {
                            assert(self.pending[i].path@ == path);
                        }
                    }
                },
                _ => {
                    assert(log[k].path == self.pending[i].path@);
                },
            }
        }
    }

    /// A sweep forgets no event of a path that stays pending.
    pub proof fn lemma_sweep_remembers(self, log: Seq<Taken>, now: u64, probes: Seq<Probe>)
        requires
            self.wf(),
            self.remembers(log),
        ensures
            self.swept(now, probes).remembers(log),
    {
        let post = self.swept(now, probes);
        self.lemma_kept_origin(self.pending.len() as int, now, probes);
        assert forall|i: int, k: int|
            0 <= i < post.pending.len() && 0 <= k < log.len() && (#[trigger] log[k]).path == (
            #[trigger] post.pending[i]).path@ implies log[k].at <= post.pending[i].last_event by {
            let j = choose|j: int|
                {
                    &&& 0 <= j < self.pending.len()
                    &&& self.pending[j].path == post.pending[i].path
                    &&& self.pending[j].last_event == post.pending[i].last_event
                };
            assert(log[k].path == self.pending[j].path@);
        }
    }

    /// A cleanup forgets no event of a path that stays pending.
    pub proof fn lemma_cleanup_remembers(self, log: Seq<Taken>, now: u64)
        requires
            self.wf(),
            self.remembers(log),
        ensures
            self.cleaned(now).remembers(log),
    {
        let post = self.cleaned(now);
        self.lemma_lasting_paths(self.pending.len() as int, now);
        assert forall|i: int, k: int|
            0 <= i < post.pending.len() && 0 <= k < log.len() && (#[trigger] log[k]).path == (
            #[trigger] post.pending[i]).path@ implies log[k].at <= post.pending[i].last_event by {
            if self.cleanup_due(now) {
                let j = choose|j: int|
                    0 <= j < self.pending.len() && self.pending[j] == post.pending[i];
                assert(log[k].path == self.pending[j].path@);
            }
        }
    }

    /// Every emission follows a quiet time: when a sweep at `now` emits a
    /// path, each event of that path that the stage remembers was taken in at
    /// least `min_quiet_ms` before `now`.  So between two emissions of a path
    /// lies a stretch of `min_quiet_ms` in which no event of the path was
    /// taken in: the one that ends with the second emission.
    pub proof fn lemma_emission_follows_quiet(
        self,
        log: Seq<Taken>,
        now: u64,
        probes: Seq<Probe>,
        k: int,
        e: int,
    )
        requires
            self.wf(),
            self.remembers(log),
            0 <= k < self.emissions(now, probes).len(),
            0 <= e < log.len(),
            log[e].path == self.emissions(now, probes)[k].event.path@,
        ensures
            elapsed(now, log[e].at) >= self.config.min_quiet_ms,
    {
        self.lemma_emission_needs_quiet(now, probes, k);
        let path = self.emissions(now, probes)[k].event.path@;
        let i = self.place_of(path);
        assert(log[e].path == self.pending[i].path@);
    }
}

impl StabilityConfig {
    /// `entry` after `n` sweeps in a row that each found the sample `size`,
    /// `mtime` and kept the entry.
    pub open spec fn sampled(entry: PendingFile, size: u64, mtime: Option<u64>, n: nat)
        -> PendingFile
        decreases n,
    {
        if n == 0 {
            entry
        } else {
            Self::carried(
                Self::sampled(entry, size, mtime, (n - 1) as nat),
                Probe::Present { size, mtime },
            )
        }
    }

    /// Equal samples add up: after `n` of them the entry holds the sample and
    /// has counted all but the first, as far as its counter goes; nothing
    /// else of it has changed but the number of sweeps.
    pub proof fn lemma_samples_add_up(entry: PendingFile, size: u64, mtime: Option<u64>, n: nat)
        requires
            n >= 1,
        ensures
            ({
                let after = Self::sampled(entry, size, mtime, n);
                &&& after.last_size == Some(size)
                &&& after.last_mtime == mtime
                &&& after.stable_count >= n - 1 || after.stable_count == u8::MAX
                &&& after.path == entry.path
                &&& after.rules == entry.rules
                &&& after.basename == entry.basename
                &&& after.last_event == entry.last_event
                &&& after.orig_kind == entry.orig_kind
                &&& after.saw_modified == entry.saw_modified
            }),
        decreases n,
    {
        if n > 1 {
            Self::lemma_samples_add_up(entry, size, mtime, (n - 1) as nat);
        } else {
            assert(Self::sampled(entry, size, mtime, 0) == entry);
        }
    }

    /// A file that stands still is emitted: once `stable_required` sweeps in
    /// a row have found the same size and time, the next sweep that finds
    /// them again emits the file, if the path has been quiet, has no
    /// temporary sibling, has sweeps left, and is no bare or empty creation.
    pub proof fn lemma_still_file_is_emitted(
        &self,
        entry: PendingFile,
        size: u64,
        mtime: Option<u64>,
        n: nat,
        now: u64,
    )
        requires
            n >= self.stable_required,
            Self::checks_after(Self::sampled(entry, size, mtime, n)) < self.max_checks,
            elapsed(now, entry.last_event) >= self.min_quiet_ms,
            !(size == 0 && entry.orig_kind == Event::Created),
            entry.orig_kind == Event::Created ==> entry.saw_modified,
        ensures
            self.verdict(
                Self::sampled(entry, size, mtime, n),
                now,
                false,
                Probe::Present { size, mtime },
            ) == Verdict::Emit,
    {
        if n >= 1 {
            Self::lemma_samples_add_up(entry, size, mtime, n);
        }
    }
}

} // verus!
