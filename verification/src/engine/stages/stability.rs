//! The stability stage: one event per file, once the file is done being
//! written.
//!
//! Events of a path are gathered in one pending entry.  A sweep looks at each
//! entry: it gives up on one that was looked at too often, leaves alone one
//! that saw an event a moment ago or that has a temporary sibling, forgets
//! one whose file is gone, and emits one whose size and modification time
//! stood still for long enough.

use crate::engine::pipeline::PipelineMsg;
use crate::engine::EngineCtx;
use crate::fs::{presence_answer, stat_answer, FileStat, Fs, FsError};
use crate::models::{Event, EventInfo, RuntimeRule};
use crate::paths::{
    extension, extension_of, file_stem, is_absolute, join, joined, parent, parent_of, rooted,
    stem_of,
};
use crate::text::{
    appended, byte_len, contains, contains_char, contains_text, lowered, lowered_is, same_text,
    utf8_len,
};
use std::sync::Arc;
use vstd::prelude::*;
use vstd::string::*;

verus! {

/// The constants of the stage.  Times are in milliseconds.
#[derive(Debug, Clone)]
pub struct StabilityConfig {
    /// How long a path must have seen no event before it is looked at.
    pub min_quiet_ms: u64,
    /// How many samples in a row must show the same size and time.
    pub stable_required: u8,
    /// How long to wait between sweeps.
    pub check_interval_ms: u64,
    /// After how many sweeps a path is given up.
    pub max_checks: u16,
    /// How many paths may be pending at once.
    pub max_pending_files: usize,
    /// How long after its last event a pending path is stale.
    pub max_age_ms: u64,
    /// How long to wait between cleanups.
    pub cleanup_interval_ms: u64,
    /// The extensions, in lower case, of files that are written in place of
    /// another.
    pub temp_extensions: Vec<String>,
}

/// The state of one path that is waiting to settle.
pub struct PendingFile {
    pub path: String,
    pub last_size: Option<u64>,
    pub last_mtime: Option<u64>,
    /// When the last event of the path was taken in.
    pub last_event: u64,
    /// How many samples in a row showed the same size and time.
    pub stable_count: u8,
    /// The rules that came with the first event.
    pub rules: Vec<Arc<RuntimeRule>>,
    pub basename: String,
    /// The kind of the first event.
    pub orig_kind: Event,
    /// Whether a `Modified` event was among the events.
    pub saw_modified: bool,
    /// How many sweeps have looked at the path.
    pub check_count: u16,
}

/// A temporary file that was seen, under the stem it shares with the file it
/// stands in for.
pub struct TempSibling {
    pub basename: String,
    pub path: String,
}

/// What the file system showed of one pending path during a sweep.
#[derive(Debug, Clone, Copy, PartialEq, Eq, Structural)]
pub enum Probe {
    /// Nothing was asked.
    NotAsked,
    /// A temporary sibling stands next to the file.
    TempSibling,
    /// The file could not be read.
    Missing,
    /// The file is there, with this size and modification time.
    Present { size: u64, mtime: Option<u64> },
}

/// What became of an event that the stage was handed.
#[derive(Debug, Clone, Copy, PartialEq, Eq, Structural)]
pub enum Ingest {
    /// The path is relative or holds `..` or NUL: dropped.
    Unsafe,
    /// Too many paths are pending: dropped.
    Full,
    /// The path has no stem, or one that is too long: dropped.
    Nameless,
    /// The path is a temporary file: noted as a sibling.
    Sibling,
    /// The path was pending: its entry starts over.
    Refreshed,
    /// The path is pending from now on.
    Admitted,
}

/// What a sweep decides of one pending path.
#[derive(Debug, Clone, Copy, PartialEq, Eq, Structural)]
pub enum Verdict {
    /// Looked at too often: forgotten.
    GiveUp,
    /// An event came a moment ago: kept.
    Hot,
    /// A temporary sibling is listed or stands on disk: kept.
    Blocked,
    /// The file is gone: forgotten.
    Vanished,
    /// The file is there but not stable yet: kept, with the new sample.
    Settling,
    /// The file is stable: emitted and forgotten.
    Emit,
}

/// Why a pending path was forgotten without an emission.
#[derive(Debug, Clone, Copy, PartialEq, Eq, Structural)]
pub enum Lost {
    /// A sweep gave the path up.
    GivenUp,
    /// A sweep found the file gone.
    Vanished,
    /// A cleanup found the entry stale.
    Stale,
}

/// A pending path that was forgotten without an emission.
#[derive(Debug, Clone)]
pub struct Forgotten {
    pub path: String,
    pub why: Lost,
}

/// What a sweep hands out: the messages it emits, and the paths it forgets
/// without an emission, each in the order of the entries.
pub struct SweepReport {
    pub emitted: Vec<PipelineMsg>,
    pub forgotten: Vec<Forgotten>,
}

/// The time from `since` to `now`; none if `now` is the earlier.
pub open spec fn elapsed(now: u64, since: u64) -> u64 {
    if now >= since {
        (now - since) as u64
    } else {
        0
    }
}

/// A path that the stage takes in: rooted, without `..` and without NUL.
pub open spec fn safe(path: Seq<char>) -> bool {
    rooted(path) && !contains(path, ".."@) && !path.contains('\0')
}

/// The name under which a path and its temporary siblings meet: its stem, if
/// that is not empty and takes less than 256 bytes.
pub open spec fn basename_of(path: Seq<char>) -> Option<Seq<char>> {
    match stem_of(path) {
        Some(stem) => if stem.len() > 0 && byte_len(stem) < 256 {
            Some(stem)
        } else {
            None
        },
        None => None,
    }
}

/// Where a temporary sibling of the stem `basename` with extension `ext`
/// would stand in `dir`.
pub open spec fn sibling_path(
    dir: Seq<char>,
    basename: Seq<char>,
    ext: Seq<char>,
) -> Seq<char> {
    joined(dir, basename + "."@ + ext)
}

impl StabilityConfig {
    /// `path` has one of the temporary extensions, in any case.
    pub open spec fn is_temp(&self, path: Seq<char>) -> bool {
        match extension_of(path) {
            Some(ext) => exists|k: int|
                0 <= k < self.temp_extensions@.len() && #[trigger] self.temp_extensions@[k]@
                    == lowered(ext),
            None => false,
        }
    }

    /// The stable count of `entry` once the sample `size`, `mtime` is in.
    pub open spec fn stable_after(entry: PendingFile, size: u64, mtime: Option<u64>) -> u8 {
        if entry.last_size == Some(size) && entry.last_mtime == mtime {
            if entry.stable_count < u8::MAX {
                (entry.stable_count + 1) as u8
            } else {
                u8::MAX
            }
        } else {
            0
        }
    }

    /// The check count of `entry` once one more sweep has looked at it.
    pub open spec fn checks_after(entry: PendingFile) -> u16 {
        if entry.check_count < u16::MAX {
            (entry.check_count + 1) as u16
        } else {
            u16::MAX
        }
    }

    /// With the sample `size`, `mtime` the file of `entry` counts as done:
    /// enough samples agree, the file is no empty one that was just created,
    /// and a created file was also written to.
    pub open spec fn settled(&self, entry: PendingFile, size: u64, mtime: Option<u64>) -> bool {
        &&& Self::stable_after(entry, size, mtime) >= self.stable_required
        &&& !(size == 0 && entry.orig_kind == Event::Created)
        &&& (entry.orig_kind == Event::Created ==> entry.saw_modified)
    }

    /// A sweep at `now` has to ask the file system about `entry`, where
    /// `listed` says whether a sibling is listed under its basename.
    pub open spec fn wants_probe(&self, entry: PendingFile, now: u64, listed: bool) -> bool {
        &&& Self::checks_after(entry) < self.max_checks
        &&& elapsed(now, entry.last_event) >= self.min_quiet_ms
        &&& !listed
    }

    /// What a sweep at `now` decides of `entry`.
    pub open spec fn verdict(&self, entry: PendingFile, now: u64, listed: bool, probe: Probe)
        -> Verdict {
        if Self::checks_after(entry) >= self.max_checks {
            Verdict::GiveUp
        } else if elapsed(now, entry.last_event) < self.min_quiet_ms {
            Verdict::Hot
        } else if listed {
            Verdict::Blocked
        } else {
            match probe {
                Probe::NotAsked | Probe::TempSibling => Verdict::Blocked,
                Probe::Missing => Verdict::Vanished,
                Probe::Present { size, mtime } => if self.settled(entry, size, mtime) {
                    Verdict::Emit
                } else {
                    Verdict::Settling
                },
            }
        }
    }

    /// `entry` as a sweep leaves it, where the sweep keeps it.
    pub open spec fn carried(entry: PendingFile, probe: Probe) -> PendingFile {
        match probe {
            Probe::Present { size, mtime } => PendingFile {
                last_size: Some(size),
                last_mtime: mtime,
                stable_count: Self::stable_after(entry, size, mtime),
                check_count: Self::checks_after(entry),
                ..entry
            },
            _ => PendingFile { check_count: Self::checks_after(entry), ..entry },
        }
    }

    /// `entry` is stale at `now`: too old, or looked at too often.
    pub open spec fn stale(&self, entry: PendingFile, now: u64) -> bool {
        elapsed(now, entry.last_event) > self.max_age_ms || entry.check_count > self.max_checks
    }
}

/// The message that is emitted for `entry`: its path, the kind of its first
/// event, and the rules that came with that event.
pub open spec fn emission(entry: PendingFile) -> PipelineMsg {
    PipelineMsg {
        event: EventInfo { path: entry.path, event: entry.orig_kind, meta: None },
        rules: entry.rules,
    }
}

/// The probe at place `i`; a place that `probes` lacks counts as not asked.
pub open spec fn probe_at(probes: Seq<Probe>, i: int) -> Probe {
    if 0 <= i < probes.len() {
        probes[i]
    } else {
        Probe::NotAsked
    }
}

/// The stage as a value: its constants, the pending paths in the order they
/// came, the temporary siblings in the order they came, and the times of the
/// last cleanup and the last sweep.
pub struct StageState {
    pub config: StabilityConfig,
    pub pending: Seq<PendingFile>,
    pub siblings: Seq<TempSibling>,
    pub last_cleanup: u64,
    pub last_check: u64,
}

/// No two of `entries` are of the same path.
pub open spec fn each_path_once(entries: Seq<PendingFile>) -> bool {
    forall|i: int, j: int| 0 <= i < j < entries.len() ==> entries[i].path@ != entries[j].path@
}

/// No two of `siblings` are the same path.
pub open spec fn each_sibling_once(siblings: Seq<TempSibling>) -> bool {
    forall|i: int, j: int|
        0 <= i < j < siblings.len() ==> siblings[i].path@ != siblings[j].path@
}

impl StabilityConfig {
    /// `entry` is of a path that the stage lets wait: a safe one with a
    /// basename, which the entry holds, and without a temporary extension.
    pub open spec fn may_wait(&self, entry: PendingFile) -> bool {
        &&& safe(entry.path@)
        &&& Some(entry.basename@) == basename_of(entry.path@)
        &&& !self.is_temp(entry.path@)
    }

    /// `sibling` is of a path that the stage lists: a safe one with a
    /// basename, which the sibling holds, and with a temporary extension.
    pub open spec fn may_list(&self, sibling: TempSibling) -> bool {
        &&& safe(sibling.path@)
        &&& Some(sibling.basename@) == basename_of(sibling.path@)
        &&& self.is_temp(sibling.path@)
    }
}

impl StageState {
    /// No path is pending twice, and no sibling is listed twice; what is
    /// pending may wait, and what is listed may be listed.
    pub open spec fn wf(self) -> bool {
        &&& each_path_once(self.pending)
        &&& each_sibling_once(self.siblings)
        &&& forall|i: int|
            0 <= i < self.pending.len() ==> self.config.may_wait(#[trigger] self.pending[i])
        &&& forall|k: int|
            0 <= k < self.siblings.len() ==> self.config.may_list(#[trigger] self.siblings[k])
    }

    /// `path` is pending.
    pub open spec fn tracks(self, path: Seq<char>) -> bool {
        exists|i: int| 0 <= i < self.pending.len() && self.pending[i].path@ == path
    }

    /// The place of the pending entry of `path`.
    pub open spec fn place_of(self, path: Seq<char>) -> int {
        choose|i: int| 0 <= i < self.pending.len() && self.pending[i].path@ == path
    }

    /// `path` is listed as a temporary sibling.
    pub open spec fn lists(self, path: Seq<char>) -> bool {
        exists|k: int| 0 <= k < self.siblings.len() && self.siblings[k].path@ == path
    }

    /// A temporary sibling is listed under `basename`.
    pub open spec fn blocks(self, basename: Seq<char>) -> bool {
        exists|k: int| 0 <= k < self.siblings.len() && self.siblings[k].basename@ == basename
    }

    /// What becomes of an event for `path`.
    pub open spec fn outcome_of(self, path: Seq<char>) -> Ingest {
        if !safe(path) {
            Ingest::Unsafe
        } else if self.pending.len() >= self.config.max_pending_files {
            Ingest::Full
        } else if basename_of(path) is None {
            Ingest::Nameless
        } else if self.config.is_temp(path) {
            Ingest::Sibling
        } else if self.tracks(path) {
            Ingest::Refreshed
        } else {
            Ingest::Admitted
        }
    }

    /// `entry` is what starts to wait for the event of `msg`, taken in at
    /// `now`.
    pub open spec fn fresh(entry: PendingFile, msg: PipelineMsg, now: u64) -> bool {
        &&& entry.path == msg.event.path
        &&& entry.last_size is None
        &&& entry.last_mtime is None
        &&& entry.last_event == now
        &&& entry.stable_count == 0
        &&& entry.rules == msg.rules
        &&& Some(entry.basename@) == basename_of(msg.event.path@)
        &&& entry.orig_kind == msg.event.event
        &&& entry.saw_modified == (msg.event.event == Event::Modified)
        &&& entry.check_count == 0
    }

    /// `entry` after one more event of kind `kind` at `now`: the quiet time
    /// and the samples start over.
    pub open spec fn refreshed(entry: PendingFile, kind: Event, now: u64) -> PendingFile {
        PendingFile {
            last_event: now,
            saw_modified: entry.saw_modified || kind == Event::Modified,
            stable_count: 0,
            ..entry
        }
    }

    /// Taking in `msg` at `now` leads from `self` to `post`.
    pub open spec fn ingests(self, msg: PipelineMsg, now: u64, post: StageState) -> bool {
        let path = msg.event.path@;
        &&& post.config == self.config
        &&& post.last_cleanup == self.last_cleanup
        &&& post.last_check == self.last_check
        &&& match self.outcome_of(path) {
            Ingest::Unsafe | Ingest::Full | Ingest::Nameless => {
                &&& post.pending == self.pending
                &&& post.siblings == self.siblings
            },
            Ingest::Sibling => {
                &&& post.pending == self.pending
                &&& if self.lists(path) {
                    post.siblings == self.siblings
                } else {
                    &&& post.siblings.len() == self.siblings.len() + 1
                    &&& post.siblings.drop_last() == self.siblings
                    &&& post.siblings.last().path == msg.event.path
                    &&& Some(post.siblings.last().basename@) == basename_of(path)
                }
            },
            Ingest::Refreshed => {
                &&& post.siblings == self.siblings
                &&& post.pending == self.pending.update(
                    self.place_of(path),
                    Self::refreshed(self.pending[self.place_of(path)], msg.event.event, now),
                )
            },
            Ingest::Admitted => {
                &&& post.siblings == self.siblings
                &&& post.pending.len() == self.pending.len() + 1
                &&& post.pending.drop_last() == self.pending
                &&& Self::fresh(post.pending.last(), msg, now)
            },
        }
    }

    /// What a sweep at `now` decides of the entry at place `i`, given
    /// `probes`.
    pub open spec fn verdict_at(self, i: int, now: u64, probes: Seq<Probe>) -> Verdict {
        self.config.verdict(
            self.pending[i],
            now,
            self.blocks(self.pending[i].basename@),
            probe_at(probes, i),
        )
    }

    /// The entries that a sweep of the first `n` entries keeps, in order.
    pub open spec fn kept(self, n: int, now: u64, probes: Seq<Probe>) -> Seq<PendingFile>
        decreases n,
    {
        if n <= 0 {
            Seq::empty()
        } else {
            let rest = self.kept(n - 1, now, probes);
            match self.verdict_at(n - 1, now, probes) {
                Verdict::Hot | Verdict::Blocked => rest.push(
                    StabilityConfig::carried(self.pending[n - 1], Probe::NotAsked),
                ),
                Verdict::Settling => rest.push(
                    StabilityConfig::carried(self.pending[n - 1], probe_at(probes, n - 1)),
                ),
                _ => rest,
            }
        }
    }

    /// The messages that a sweep of the first `n` entries emits, in order.
    pub open spec fn emitted(self, n: int, now: u64, probes: Seq<Probe>) -> Seq<PipelineMsg>
        decreases n,
    {
        if n <= 0 {
            Seq::empty()
        } else {
            let rest = self.emitted(n - 1, now, probes);
            if self.verdict_at(n - 1, now, probes) == Verdict::Emit {
                rest.push(emission(self.pending[n - 1]))
            } else {
                rest
            }
        }
    }

    /// The paths that a sweep of the first `n` entries forgets without an
    /// emission, in order: those it gives up, and those whose file is gone.
    pub open spec fn dropped(self, n: int, now: u64, probes: Seq<Probe>) -> Seq<Forgotten>
        decreases n,
    {
        if n <= 0 {
            Seq::empty()
        } else {
            let rest = self.dropped(n - 1, now, probes);
            match self.verdict_at(n - 1, now, probes) {
                Verdict::GiveUp => rest.push(
                    Forgotten { path: self.pending[n - 1].path, why: Lost::GivenUp },
                ),
                Verdict::Vanished => rest.push(
                    Forgotten { path: self.pending[n - 1].path, why: Lost::Vanished },
                ),
                _ => rest,
            }
        }
    }

    /// The paths that a sweep at `now` forgets without an emission.
    pub open spec fn drops(self, now: u64, probes: Seq<Probe>) -> Seq<Forgotten> {
        self.dropped(self.pending.len() as int, now, probes)
    }

    /// The stage after a sweep at `now`.  The siblings stay as they are: an
    /// entry is emitted only while none is listed under its basename, so an
    /// emission leaves none to drop.
    pub open spec fn swept(self, now: u64, probes: Seq<Probe>) -> StageState {
        StageState { pending: self.kept(self.pending.len() as int, now, probes), ..self }
    }

    /// The messages that a sweep at `now` emits.
    pub open spec fn emissions(self, now: u64, probes: Seq<Probe>) -> Seq<PipelineMsg> {
        self.emitted(self.pending.len() as int, now, probes)
    }

    /// The first `n` entries without the stale ones, in order.
    pub open spec fn lasting(self, n: int, now: u64) -> Seq<PendingFile>
        decreases n,
    {
        if n <= 0 {
            Seq::empty()
        } else {
            let rest = self.lasting(n - 1, now);
            if self.config.stale(self.pending[n - 1], now) {
                rest
            } else {
                rest.push(self.pending[n - 1])
            }
        }
    }

    /// The stale ones among the first `n` entries, in order.
    pub open spec fn lapsed(self, n: int, now: u64) -> Seq<Forgotten>
        decreases n,
    {
        if n <= 0 {
            Seq::empty()
        } else {
            let rest = self.lapsed(n - 1, now);
            if self.config.stale(self.pending[n - 1], now) {
                rest.push(Forgotten { path: self.pending[n - 1].path, why: Lost::Stale })
            } else {
                rest
            }
        }
    }

    /// A cleanup is due at `now`.
    pub open spec fn cleanup_due(self, now: u64) -> bool {
        elapsed(now, self.last_cleanup) >= self.config.cleanup_interval_ms
    }

    /// The stage after a cleanup is asked for at `now`: where one is due, the
    /// stale entries are gone.  The siblings stay: every set that is listed
    /// holds a path, so there is none to prune.
    pub open spec fn cleaned(self, now: u64) -> StageState {
        if self.cleanup_due(now) {
            StageState {
                pending: self.lasting(self.pending.len() as int, now),
                last_cleanup: now,
                ..self
            }
        } else {
            self
        }
    }

    /// The paths that a cleanup asked for at `now` forgets: where one is due,
    /// the stale ones.
    pub open spec fn cleanup_drops(self, now: u64) -> Seq<Forgotten> {
        if self.cleanup_due(now) {
            self.lapsed(self.pending.len() as int, now)
        } else {
            Seq::empty()
        }
    }

    /// A sweep is due at `now`.
    pub open spec fn sweep_due(self, now: u64) -> bool {
        elapsed(now, self.last_check) >= self.config.check_interval_ms
    }
}

impl StabilityConfig {
    /// The constants are the recommended ones: three seconds of quiet, two
    /// samples, a sweep each second, a hundred sweeps, ten thousand paths, an
    /// hour of age, a cleanup every five minutes, and the extensions `part`,
    /// `crdownload`, `download`, `tmp` and `temp`.
    pub open spec fn is_recommended(&self) -> bool {
        &&& self.min_quiet_ms == 3000
        &&& self.stable_required == 2
        &&& self.check_interval_ms == 1000
        &&& self.max_checks == 100
        &&& self.max_pending_files == 10000
        &&& self.max_age_ms == 3_600_000
        &&& self.cleanup_interval_ms == 300_000
        &&& self.temp_extensions@.len() == 5
        &&& self.temp_extensions@[0]@ == "part"@
        &&& self.temp_extensions@[1]@ == "crdownload"@
        &&& self.temp_extensions@[2]@ == "download"@
        &&& self.temp_extensions@[3]@ == "tmp"@
        &&& self.temp_extensions@[4]@ == "temp"@
    }

    /// The recommended constants.
    pub fn recommended() -> (r: Self)
        ensures
            r.is_recommended(),
    {
        let mut temp_extensions: Vec<String> = Vec::new();
        temp_extensions.push(String::from_str("part"));
        temp_extensions.push(String::from_str("crdownload"));
        temp_extensions.push(String::from_str("download"));
        temp_extensions.push(String::from_str("tmp"));
        temp_extensions.push(String::from_str("temp"));
        StabilityConfig {
            min_quiet_ms: 3000,
            stable_required: 2,
            check_interval_ms: 1000,
            max_checks: 100,
            max_pending_files: 10000,
            max_age_ms: 3_600_000,
            cleanup_interval_ms: 300_000,
            temp_extensions,
        }
    }

    /// Whether `path` has one of the temporary extensions.
    pub fn has_temp_extension(&self, path: &str) -> (b: bool)
        ensures
            b == self.is_temp(path@),
    {
        match extension(path) {
            Some(ext) => {
                let mut k: usize = 0;
                while k < self.temp_extensions.len()
                    invariant
                        k <= self.temp_extensions@.len(),
                        extension_of(path@) == Some(ext@),
                        forall|j: int|
                            0 <= j < k ==> #[trigger] self.temp_extensions@[j]@ != lowered(ext@),
                    decreases self.temp_extensions@.len() - k,
                {
                    if lowered_is(ext.as_str(), self.temp_extensions[k].as_str()) {
                        assert(self.temp_extensions@[k as int]@ == lowered(ext@));
                        return true;
                    }
                    k = k + 1;
                }
                false
            },
            None => false,
        }
    }
}

/// The time from `since` to `now`.
pub fn time_between(now: u64, since: u64) -> (r: u64)
    ensures
        r == elapsed(now, since),
{
    if now >= since {
        now - since
    } else {
        0
    }
}

/// Whether the stage takes `path` in.
pub fn is_safe_path(path: &str) -> (b: bool)
    ensures
        b == safe(path@),
{
    if contains_text(path, "..") || contains_char(path, '\0') {
        return false;
    }
    is_absolute(path)
}

/// The basename of `path`.
pub fn get_basename(path: &str) -> (r: Option<String>)
    ensures
        match r {
            Some(name) => basename_of(path@) == Some(name@),
            None => basename_of(path@) is None,
        },
{
    match file_stem(path) {
        Some(stem) => {
            let bytes = utf8_len(stem.as_str());
            if !stem.as_str().is_empty() && bytes < 256 {
                Some(stem)
            } else {
                None
            }
        },
        None => None,
    }
}

/// The stability stage.
pub struct StabilityStage {
    config: StabilityConfig,
    pending: Vec<PendingFile>,
    siblings: Vec<TempSibling>,
    last_cleanup: u64,
    last_check: u64,
}

impl View for StabilityStage {
    type V = StageState;

    /// The stage as a value.
    closed spec fn view(&self) -> StageState {
        StageState {
            config: self.config,
            pending: self.pending@,
            siblings: self.siblings@,
            last_cleanup: self.last_cleanup,
            last_check: self.last_check,
        }
    }
}

impl StabilityStage {
    #[verifier::type_invariant]
    spec fn inv(&self) -> bool {
        self@.wf()
    }

    /// A stage with the recommended constants and nothing pending, started at
    /// `now`.
    pub fn new(now: u64) -> (r: Self)
        ensures
            r@.config.is_recommended(),
            r@.pending.len() == 0,
            r@.siblings.len() == 0,
            r@.last_cleanup == now,
            r@.last_check == now,
            r@.wf(),
    {
        Self::with_config(StabilityConfig::recommended(), now)
    }

    /// A stage with the constants of `config` and nothing pending, started at
    /// `now`.
    pub fn with_config(config: StabilityConfig, now: u64) -> (r: Self)
        ensures
            r@.config == config,
            r@.pending.len() == 0,
            r@.siblings.len() == 0,
            r@.last_cleanup == now,
            r@.last_check == now,
            r@.wf(),
    {
        StabilityStage {
            config,
            pending: Vec::new(),
            siblings: Vec::new(),
            last_cleanup: now,
            last_check: now,
        }
    }

    /// How many paths are pending.
    pub fn pending_len(&self) -> (n: usize)
        ensures
            n == self@.pending.len(),
            self@.wf(),
    {
        proof {
            use_type_invariant(self);
        }
        self.pending.len()
    }

    /// The place of the pending entry of `path`, if it has one.
    fn find_pending(&self, path: &str) -> (r: Option<usize>)
        ensures
            match r {
                Some(i) => i < self@.pending.len() && self@.pending[i as int].path@ == path@,
                None => !self@.tracks(path@),
            },
    {
        let mut i: usize = 0;
        while i < self.pending.len()
            invariant
                i <= self.pending@.len(),
                forall|j: int| 0 <= j < i ==> self.pending@[j].path@ != path@,
            decreases self.pending@.len() - i,
        {
            if same_text(self.pending[i].path.as_str(), path) {
                return Some(i);
            }
            i = i + 1;
        }
        None
    }

    /// The pending entry of `path`, if it has one.
    pub fn pending_entry(&self, path: &str) -> (r: Option<&PendingFile>)
        ensures
            match r {
                Some(entry) => self@.tracks(path@) && *entry == self@.pending[self@.place_of(
                    path@,
                )],
                None => !self@.tracks(path@),
            },
    {
        proof {
            use_type_invariant(self);
        }
        match self.find_pending(path) {
            Some(i) => {
                assert(self@.place_of(path@) == i);
                Some(&self.pending[i])
            },
            None => None,
        }
    }

    /// Whether `path` is pending.
    pub fn is_pending(&self, path: &str) -> (b: bool)
        ensures
            b == self@.tracks(path@),
    {
        self.find_pending(path).is_some()
    }

    /// Whether `path` is listed as a temporary sibling.
    pub fn is_listed(&self, path: &str) -> (b: bool)
        ensures
            b == self@.lists(path@),
    {
        let mut k: usize = 0;
        while k < self.siblings.len()
            invariant
                k <= self.siblings@.len(),
                forall|j: int| 0 <= j < k ==> self.siblings@[j].path@ != path@,
            decreases self.siblings@.len() - k,
        {
            if same_text(self.siblings[k].path.as_str(), path) {
                assert(self@.siblings[k as int].path@ == path@);
                return true;
            }
            k = k + 1;
        }
        false
    }

    /// Whether a temporary sibling is listed under `basename`.
    pub fn is_blocked(&self, basename: &str) -> (b: bool)
        ensures
            b == self@.blocks(basename@),
    {
        let mut k: usize = 0;
        while k < self.siblings.len()
            invariant
                k <= self.siblings@.len(),
                forall|j: int| 0 <= j < k ==> self.siblings@[j].basename@ != basename@,
            decreases self.siblings@.len() - k,
        {
            if same_text(self.siblings[k].basename.as_str(), basename) {
                assert(self@.siblings[k as int].basename@ == basename@);
                return true;
            }
            k = k + 1;
        }
        false
    }

    /// Takes in the event of `msg` at `now`, and says what became of it.
    pub fn on_event(&mut self, msg: PipelineMsg, now: u64) -> (outcome: Ingest)
        ensures
            outcome == old(self)@.outcome_of(msg.event.path@),
            old(self)@.ingests(msg, now, final(self)@),
            old(self)@.wf(),
            final(self)@.wf(),
    {
        proof {
            use_type_invariant(&*self);
        }
        let PipelineMsg { event, rules } = msg;
        let EventInfo { path, event: kind, meta: _ } = event;
        if !is_safe_path(path.as_str()) {
            return Ingest::Unsafe;
        }
        if self.pending.len() >= self.config.max_pending_files {
            return Ingest::Full;
        }
        let basename = match get_basename(path.as_str()) {
            Some(name) => name,
            None => {
                return Ingest::Nameless;
            },
        };
        if self.config.has_temp_extension(path.as_str()) {
            if !self.is_listed(path.as_str()) {
                let mut siblings: Vec<TempSibling> = Vec::new();
                core::mem::swap(&mut self.siblings, &mut siblings);
                siblings.push(TempSibling { basename, path });
                proof {
                    let before = old(self)@.siblings;
                    assert(siblings@.drop_last() =~= before);
                    assert forall|i: int, j: int|
                        0 <= i < j < siblings@.len() implies siblings@[i].path@
                        != siblings@[j].path@ by {
                        if j == before.len() {
                            assert(before[i].path@ != path@);
                        }
                    }
                }
                self.siblings = siblings;
            }
            return Ingest::Sibling;
        }
        let is_modify = kind == Event::Modified;
        match self.find_pending(path.as_str()) {
            Some(i) => {
                let ghost before = self.pending@[i as int];
                assert(old(self)@.place_of(path@) == i);
                let mut pending: Vec<PendingFile> = Vec::new();
                core::mem::swap(&mut self.pending, &mut pending);
                let saw = pending[i].saw_modified;
                pending[i].last_event = now;
                pending[i].saw_modified = saw || is_modify;
                pending[i].stable_count = 0;
                assert(pending@ =~= old(self)@.pending.update(
                    i as int,
                    StageState::refreshed(before, kind, now),
                ));
                self.pending = pending;
                Ingest::Refreshed
            },
            None => {
                let mut pending: Vec<PendingFile> = Vec::new();
                core::mem::swap(&mut self.pending, &mut pending);
                pending.push(
                    PendingFile {
                        path,
                        last_size: None,
                        last_mtime: None,
                        last_event: now,
                        stable_count: 0,
                        rules,
                        basename,
                        orig_kind: kind,
                        saw_modified: is_modify,
                        check_count: 0,
                    },
                );
                proof {
                    let before = old(self)@.pending;
                    assert(pending@.drop_last() =~= before);
                    assert forall|i: int, j: int|
                        0 <= i < j < pending@.len() implies pending@[i].path@
                        != pending@[j].path@ by {
                        if j == before.len() {
                            assert(before[i].path@ != path@);
                        }
                    }
                }
                self.pending = pending;
                Ingest::Admitted
            },
        }
    }
}

impl StabilityConfig {
    /// `fs` showed no temporary sibling next to the file of `entry`: for each
    /// temporary extension it was asked whether the stem of the file stands
    /// with that extension in the parent of the file, and answered no.
    pub open spec fn no_sibling_shown<F: Fs>(&self, fs: &F, entry: PendingFile) -> bool {
        parent_of(entry.path@) matches Some(dir) ==> forall|k: int|
            0 <= k < self.temp_extensions@.len() ==> presence_answer(
                fs,
                sibling_path(dir, entry.basename@, (#[trigger] self.temp_extensions@[k])@),
                false,
            )
    }

    /// `probe` is what `fs` showed of the file of `entry`: a temporary
    /// sibling that it said to be there; or, when it had shown none, the
    /// metadata that it gave for the path, or that it gave none.
    pub open spec fn shown_by<F: Fs>(&self, fs: &F, entry: PendingFile, probe: Probe) -> bool {
        match probe {
            Probe::NotAsked => false,
            Probe::TempSibling => parent_of(entry.path@) matches Some(dir) && exists|k: int|
                0 <= k < self.temp_extensions@.len() && presence_answer(
                    fs,
                    sibling_path(dir, entry.basename@, (#[trigger] self.temp_extensions@[k])@),
                    true,
                ),
            Probe::Missing => self.no_sibling_shown(fs, entry) && exists|seen: Result<
                FileStat,
                FsError,
            >| stat_answer(fs, entry.path@, seen) && seen is Err,
            Probe::Present { size, mtime } => self.no_sibling_shown(fs, entry) && exists|
                seen: Result<FileStat, FsError>,
            |
                stat_answer(fs, entry.path@, seen) && seen is Ok && seen->Ok_0.len == size
                    && seen->Ok_0.mtime == mtime,
        }
    }
}

impl StageState {
    /// `probes` holds what `fs` showed of each entry that a sweep at `now`
    /// has to ask about, and nothing for the others.
    pub open spec fn answered_by<F: Fs>(self, fs: &F, now: u64, probes: Seq<Probe>) -> bool {
        &&& probes.len() == self.pending.len()
        &&& forall|i: int|
            0 <= i < self.pending.len() ==> if self.config.wants_probe(
                self.pending[i],
                now,
                self.blocks(self.pending[i].basename@),
            ) {
                self.config.shown_by(fs, self.pending[i], #[trigger] probes[i])
            } else {
                probes[i] is NotAsked
            }
    }

    /// A sweep keeps entries of paths that were pending, each path once.
    pub proof fn lemma_kept_paths(self, n: int, now: u64, probes: Seq<Probe>)
        requires
            self.wf(),
            0 <= n <= self.pending.len(),
        ensures
            forall|k: int|
                0 <= k < self.kept(n, now, probes).len() ==> exists|j: int|
                    0 <= j < n && self.pending[j].path == (#[trigger] self.kept(
                        n,
                        now,
                        probes,
                    )[k]).path,
            forall|k: int, l: int|
                0 <= k < l < self.kept(n, now, probes).len() ==> self.kept(n, now, probes)[k].path@
                    != self.kept(n, now, probes)[l].path@,
            forall|k: int|
                0 <= k < self.kept(n, now, probes).len() ==> self.config.may_wait(
                    #[trigger] self.kept(n, now, probes)[k],
                ),
        decreases n,
    {
        if n > 0 {
            self.lemma_kept_paths(n - 1, now, probes);
            let rest = self.kept(n - 1, now, probes);
            let all = self.kept(n, now, probes);
            assert(self.config.may_wait(self.pending[n - 1]));
            assert forall|k: int| 0 <= k < all.len() implies exists|j: int|
                0 <= j < n && self.pending[j].path == (#[trigger] all[k]).path by {
                if k < rest.len() {
                    assert(all[k] == rest[k]);
                    let j = choose|j: int| 0 <= j < n - 1 && self.pending[j].path == rest[k].path;
                    assert(0 <= j < n && self.pending[j].path == all[k].path);
                } else {
                    assert(self.pending[n - 1].path == all[k].path);
                }
            }
            assert forall|k: int, l: int| 0 <= k < l < all.len() implies all[k].path@
                != all[l].path@ by {
                if l == rest.len() {
                    assert(all[k] == rest[k]);
                    let j = choose|j: int| 0 <= j < n - 1 && self.pending[j].path == rest[k].path;
                    assert(self.pending[j].path@ != self.pending[n - 1].path@);
                } else {
                    assert(all[k] == rest[k] && all[l] == rest[l]);
                }
            }
            assert forall|k: int| 0 <= k < all.len() implies self.config.may_wait(
                #[trigger] all[k],
            ) by {
                if k < rest.len() {
                    assert(all[k] == rest[k]);
                }
            }
        }
    }

    /// A sweep leaves the stage well formed.
    pub proof fn lemma_swept_wf(self, now: u64, probes: Seq<Probe>)
        requires
            self.wf(),
        ensures
            self.swept(now, probes).wf(),
    {
        self.lemma_kept_paths(self.pending.len() as int, now, probes);
    }

    /// What lasts through a cleanup are entries of paths that were pending,
    /// each path once.
    pub proof fn lemma_lasting_paths(self, n: int, now: u64)
        requires
            self.wf(),
            0 <= n <= self.pending.len(),
        ensures
            forall|k: int|
                0 <= k < self.lasting(n, now).len() ==> exists|j: int|
                    0 <= j < n && self.pending[j] == #[trigger] self.lasting(n, now)[k],
            forall|k: int, l: int|
                0 <= k < l < self.lasting(n, now).len() ==> self.lasting(n, now)[k].path@
                    != self.lasting(n, now)[l].path@,
        decreases n,
    {
        if n > 0 {
            self.lemma_lasting_paths(n - 1, now);
            let rest = self.lasting(n - 1, now);
            let all = self.lasting(n, now);
            assert forall|k: int| 0 <= k < all.len() implies exists|j: int|
                0 <= j < n && self.pending[j] == #[trigger] all[k] by {
                if k < rest.len() {
                    assert(all[k] == rest[k]);
                    let j = choose|j: int| 0 <= j < n - 1 && self.pending[j] == rest[k];
                    assert(0 <= j < n && self.pending[j] == all[k]);
                } else {
                    assert(self.pending[n - 1] == all[k]);
                }
            }
            assert forall|k: int, l: int| 0 <= k < l < all.len() implies all[k].path@
                != all[l].path@ by {
                if l == rest.len() {
                    assert(all[k] == rest[k]);
                    let j = choose|j: int| 0 <= j < n - 1 && self.pending[j] == rest[k];
                    assert(self.pending[j].path@ != self.pending[n - 1].path@);
                } else {
                    assert(all[k] == rest[k] && all[l] == rest[l]);
                }
            }
        }
    }

    /// A cleanup leaves the stage well formed.
    pub proof fn lemma_cleaned_wf(self, now: u64)
        requires
            self.wf(),
        ensures
            self.cleaned(now).wf(),
    {
        self.lemma_lasting_paths(self.pending.len() as int, now);
    }
}

impl StabilityConfig {
    /// What a sweep at `now` decides of `entry`.
    pub fn decide(&self, entry: &PendingFile, now: u64, listed: bool, probe: Probe) -> (v: Verdict)
        ensures
            v == self.verdict(*entry, now, listed, probe),
    {
        let checks: u16 = if entry.check_count < u16::MAX {
            entry.check_count + 1
        } else {
            u16::MAX
        };
        if checks >= self.max_checks {
            return Verdict::GiveUp;
        }
        if time_between(now, entry.last_event) < self.min_quiet_ms {
            return Verdict::Hot;
        }
        if listed {
            return Verdict::Blocked;
        }
        match probe {
            Probe::NotAsked => Verdict::Blocked,
            Probe::TempSibling => Verdict::Blocked,
            Probe::Missing => Verdict::Vanished,
            Probe::Present { size, mtime } => {
                let stable = Self::next_stable_count(entry, size, mtime);
                let created = entry.orig_kind == Event::Created;
                if stable >= self.stable_required && !(size == 0 && created) && (!created
                    || entry.saw_modified) {
                    Verdict::Emit
                } else {
                    Verdict::Settling
                }
            },
        }
    }

    /// The stable count of `entry` once the sample `size`, `mtime` is in.
    pub fn next_stable_count(entry: &PendingFile, size: u64, mtime: Option<u64>) -> (r: u8)
        ensures
            r == Self::stable_after(*entry, size, mtime),
    {
        let same_size = match entry.last_size {
            Some(last) => last == size,
            None => false,
        };
        let same_time = match (entry.last_mtime, mtime) {
            (Some(a), Some(b)) => a == b,
            (None, None) => true,
            _ => false,
        };
        if same_size && same_time {
            if entry.stable_count < u8::MAX {
                entry.stable_count + 1
            } else {
                u8::MAX
            }
        } else {
            0
        }
    }

    /// Whether a sweep at `now` has to ask the file system about `entry`.
    pub fn needs_probe(&self, entry: &PendingFile, now: u64, listed: bool) -> (b: bool)
        ensures
            b == self.wants_probe(*entry, now, listed),
    {
        let checks: u16 = if entry.check_count < u16::MAX {
            entry.check_count + 1
        } else {
            u16::MAX
        };
        checks < self.max_checks && time_between(now, entry.last_event) >= self.min_quiet_ms
            && !listed
    }

    /// Whether `entry` is stale at `now`.
    pub fn is_stale(&self, entry: &PendingFile, now: u64) -> (b: bool)
        ensures
            b == self.stale(*entry, now),
    {
        time_between(now, entry.last_event) > self.max_age_ms || entry.check_count
            > self.max_checks
    }
}

/// Where a temporary sibling of the stem `basename` with extension `ext` would
/// stand in `dir`.
pub fn sibling_path_in(dir: &str, basename: &str, ext: &str) -> (r: String)
    ensures
        r@ == sibling_path(dir@, basename@, ext@),
{
    let mut name = appended(basename, ".");
    name.append(ext);
    join(dir, name.as_str())
}

impl StabilityStage {
    /// Asks the file system about `entry`: first whether a temporary sibling
    /// stands next to the file, under any of the temporary extensions, then
    /// for the size and time of the file itself.
    fn look<F: Fs>(&self, entry: &PendingFile, ctx: &EngineCtx<F>) -> (r: Probe)
        ensures
            self@.config.shown_by(&ctx.fs, *entry, r),
    {
        match parent(entry.path.as_str()) {
            Some(dir) => {
                let mut k: usize = 0;
                while k < self.config.temp_extensions.len()
                    invariant
                        k <= self.config.temp_extensions@.len(),
                        parent_of(entry.path@) == Some(dir@),
                        forall|j: int|
                            0 <= j < k ==> presence_answer(
                                &ctx.fs,
                                sibling_path(
                                    dir@,
                                    entry.basename@,
                                    (#[trigger] self.config.temp_extensions@[j])@,
                                ),
                                false,
                            ),
                    decreases self.config.temp_extensions@.len() - k,
                {
                    let candidate = sibling_path_in(
                        dir.as_str(),
                        entry.basename.as_str(),
                        self.config.temp_extensions[k].as_str(),
                    );
                    let there = ctx.fs.path_exists(candidate.as_str());
                    assert(presence_answer(
                        &ctx.fs,
                        sibling_path(
                            dir@,
                            entry.basename@,
                            self.config.temp_extensions@[k as int]@,
                        ),
                        there,
                    ));
                    if there {
                        return Probe::TempSibling;
                    }
                    k = k + 1;
                }
            },
            None => {},
        }
        let seen = ctx.fs.metadata(entry.path.as_str());
        assert(stat_answer(&ctx.fs, entry.path@, seen));
        match seen {
            Ok(stat) => Probe::Present { size: stat.len, mtime: stat.mtime },
            Err(_) => Probe::Missing,
        }
    }

    /// Asks the file system about every entry that a sweep at `now` has to
    /// ask about.
    pub fn probe<F: Fs>(&self, now: u64, ctx: &EngineCtx<F>) -> (probes: Vec<Probe>)
        ensures
            self@.answered_by(&ctx.fs, now, probes@),
    {
        let mut probes: Vec<Probe> = Vec::new();
        let mut i: usize = 0;
        while i < self.pending.len()
            invariant
                i <= self.pending@.len(),
                probes@.len() == i,
                forall|j: int|
                    0 <= j < i ==> if self@.config.wants_probe(
                        self@.pending[j],
                        now,
                        self@.blocks(self@.pending[j].basename@),
                    ) {
                        self@.config.shown_by(&ctx.fs, self@.pending[j], #[trigger] probes@[j])
                    } else {
                        probes@[j] is NotAsked
                    },
            decreases self.pending@.len() - i,
        {
            let entry = &self.pending[i];
            let listed = self.is_blocked(entry.basename.as_str());
            let probe = if self.config.needs_probe(entry, now, listed) {
                self.look(entry, ctx)
            } else {
                Probe::NotAsked
            };
            probes.push(probe);
            i = i + 1;
        }
        probes
    }

    /// Sweeps at `now` with the answers in `probes`, and hands out what is
    /// emitted and what is forgotten.
    pub fn sweep(&mut self, now: u64, probes: &Vec<Probe>) -> (out: SweepReport)
        ensures
            final(self)@ == old(self)@.swept(now, probes@),
            out.emitted@ == old(self)@.emissions(now, probes@),
            out.forgotten@ == old(self)@.drops(now, probes@),
            old(self)@.wf(),
            final(self)@.wf(),
    {
        proof {
            use_type_invariant(&*self);
        }
        let ghost pre = self@;
        let mut src: Vec<PendingFile> = Vec::new();
        core::mem::swap(&mut self.pending, &mut src);
        let n: usize = src.len();
        let mut kept: Vec<PendingFile> = Vec::new();
        let mut out: Vec<PipelineMsg> = Vec::new();
        let mut forgotten: Vec<Forgotten> = Vec::new();
        let mut i: usize = 0;
        for entry in it: src
            invariant
                it.seq() == pre.pending,
                pre.pending.len() == n,
                i == it.index(),
                self@.siblings == pre.siblings,
                self@.config == pre.config,
                self@.last_cleanup == pre.last_cleanup,
                self@.last_check == pre.last_check,
                self.pending@.len() == 0,
                kept@ == pre.kept(i as int, now, probes@),
                out@ == pre.emitted(i as int, now, probes@),
                forgotten@ == pre.dropped(i as int, now, probes@),
        {
            let listed = self.is_blocked(entry.basename.as_str());
            let probe = if i < probes.len() {
                probes[i]
            } else {
                Probe::NotAsked
            };
            assert(probe == probe_at(probes@, i as int));
            assert(listed == pre.blocks(pre.pending[i as int].basename@));
            let verdict = self.config.decide(&entry, now, listed, probe);
            assert(verdict == pre.verdict_at(i as int, now, probes@));
            let checks: u16 = if entry.check_count < u16::MAX {
                entry.check_count + 1
            } else {
                u16::MAX
            };
            match verdict {
                Verdict::Hot | Verdict::Blocked => {
                    let mut entry = entry;
                    entry.check_count = checks;
                    kept.push(entry);
                },
                Verdict::Settling => {
                    let mut entry = entry;
                    match probe {
                        Probe::Present { size, mtime } => {
                            entry.stable_count = StabilityConfig::next_stable_count(
                                &entry,
                                size,
                                mtime,
                            );
                            entry.last_size = Some(size);
                            entry.last_mtime = mtime;
                        },
                        _ => {},
                    }
                    entry.check_count = checks;
                    kept.push(entry);
                },
                Verdict::Emit => {
                    out.push(
                        PipelineMsg {
                            event: EventInfo {
                                path: entry.path,
                                event: entry.orig_kind,
                                meta: None,
                            },
                            rules: entry.rules,
                        },
                    );
                },
                Verdict::GiveUp => {
                    forgotten.push(Forgotten { path: entry.path, why: Lost::GivenUp });
                },
                Verdict::Vanished => {
                    forgotten.push(Forgotten { path: entry.path, why: Lost::Vanished });
                },
            }
            i = i + 1;
        }
        proof {
            pre.lemma_kept_paths(n as int, now, probes@);
        }
        self.pending = kept;
        SweepReport { emitted: out, forgotten }
    }

    /// Sweeps at `now`: asks the file system what a sweep has to ask, and
    /// hands out what is emitted and what is forgotten.
    pub fn tick<F: Fs>(&mut self, now: u64, ctx: &EngineCtx<F>) -> (out: SweepReport)
        ensures
            exists|probes: Seq<Probe>|
                {
                    &&& old(self)@.answered_by(&ctx.fs, now, probes)
                    &&& final(self)@ == #[trigger] old(self)@.swept(now, probes)
                    &&& out.emitted@ == old(self)@.emissions(now, probes)
                    &&& out.forgotten@ == old(self)@.drops(now, probes)
                },
            old(self)@.wf(),
            final(self)@.wf(),
    {
        let probes = self.probe(now, ctx);
        self.sweep(now, &probes)
    }

    /// Forgets the stale entries, if a cleanup is due at `now`, and hands out
    /// their paths.
    pub fn cleanup(&mut self, now: u64) -> (gone: Vec<Forgotten>)
        ensures
            final(self)@ == old(self)@.cleaned(now),
            gone@ == old(self)@.cleanup_drops(now),
            old(self)@.wf(),
            final(self)@.wf(),
    {
        proof {
            use_type_invariant(&*self);
        }
        let mut gone: Vec<Forgotten> = Vec::new();
        if time_between(now, self.last_cleanup) < self.config.cleanup_interval_ms {
            return gone;
        }
        let ghost pre = self@;
        let mut src: Vec<PendingFile> = Vec::new();
        core::mem::swap(&mut self.pending, &mut src);
        let n: usize = src.len();
        let mut kept: Vec<PendingFile> = Vec::new();
        let mut i: usize = 0;
        for entry in it: src
            invariant
                it.seq() == pre.pending,
                pre.pending.len() == n,
                i == it.index(),
                self@.config == pre.config,
                kept@ == pre.lasting(i as int, now),
                gone@ == pre.lapsed(i as int, now),
        {
            if self.config.is_stale(&entry, now) {
                gone.push(Forgotten { path: entry.path, why: Lost::Stale });
            } else {
                kept.push(entry);
            }
            i = i + 1;
        }
        proof {
            pre.lemma_lasting_paths(n as int, now);
        }
        self.pending = kept;
        self.last_cleanup = now;
        gone
    }

    /// What the stage does when time has passed: if a sweep is due at `now`,
    /// it sweeps, cleans up and notes the time; else nothing.  It hands out
    /// what is emitted, and what the sweep and then the cleanup forget.
    pub fn poll<F: Fs>(&mut self, now: u64, ctx: &EngineCtx<F>) -> (out: SweepReport)
        ensures
            !old(self)@.sweep_due(now) ==> final(self)@ == old(self)@ && out.emitted@.len() == 0
                && out.forgotten@.len() == 0,
            old(self)@.sweep_due(now) ==> exists|probes: Seq<Probe>|
                {
                    &&& old(self)@.answered_by(&ctx.fs, now, probes)
                    &&& final(self)@ == StageState {
                        last_check: now,
                        ..(#[trigger] old(self)@.swept(now, probes)).cleaned(now)
                    }
                    &&& out.emitted@ == old(self)@.emissions(now, probes)
                    &&& out.forgotten@ == old(self)@.drops(now, probes) + old(self)@.swept(
                        now,
                        probes,
                    ).cleanup_drops(now)
                },
            old(self)@.wf(),
            final(self)@.wf(),
    {
        proof {
            use_type_invariant(&*self);
        }
        if time_between(now, self.last_check) < self.config.check_interval_ms {
            return SweepReport { emitted: Vec::new(), forgotten: Vec::new() };
        }
        let SweepReport { emitted, forgotten } = self.tick(now, ctx);
        let mut forgotten = forgotten;
        let mut stale = self.cleanup(now);
        forgotten.append(&mut stale);
        self.last_check = now;
        SweepReport { emitted, forgotten }
    }
}

} // verus!
