//! The conditions on the size of the file.

use crate::conditions::ConditionKind;
use crate::engine::EngineCtx;
use crate::fs::{stat_answer, FileStat, Fs, FsError};
use crate::models::EventInfo;
use vstd::prelude::*;

verus! {

/// A size, in bytes, that a file must exceed.
pub struct SizeGtCondition {
    size: i64,
}

impl SizeGtCondition {
    /// The size that must be exceeded.
    pub closed spec fn bound(&self) -> int {
        self.size as int
    }

    /// What the condition says of a file of `len` bytes.
    pub open spec fn holds_for(&self, len: u64) -> bool {
        len as int > self.bound()
    }

    /// What the condition says of what `metadata` returned: a file that cannot
    /// be read passes nothing.
    pub open spec fn holds_given(&self, seen: Result<FileStat, FsError>) -> bool {
        match seen {
            Ok(stat) => self.holds_for(stat.len),
            Err(_) => false,
        }
    }

    /// The condition that the file takes more than `size` bytes.
    pub fn new(size: i64) -> (r: Self)
        ensures
            r.bound() == size,
    {
        SizeGtCondition { size }
    }

    /// The kind of the condition: it may ask the file system.
    pub fn kind(&self) -> (k: ConditionKind)
        ensures
            k == ConditionKind::Io,
    {
        ConditionKind::Io
    }

    /// Whether a file of `len` bytes passes.
    pub fn admits(&self, len: u64) -> (b: bool)
        ensures
            b == self.holds_for(len),
    {
        if self.size < 0 {
            true
        } else {
            len > self.size as u64
        }
    }

    /// Whether a file passes, given what `metadata` returned for it.
    pub fn judge(&self, seen: &Result<FileStat, FsError>) -> (b: bool)
        ensures
            b == self.holds_given(*seen),
    {
        match seen {
            Ok(stat) => self.admits(stat.len),
            Err(_) => false,
        }
    }

    /// `b` is what the condition says of the file at `path`, as far as `fs`
    /// answers: the size that is given decides; without one the answer of
    /// `fs` to the question for the metadata of `path` decides.
    pub open spec fn answers<F: Fs>(&self, fs: &F, path: Seq<char>, size: Option<u64>, b: bool)
        -> bool {
        match size {
            Some(len) => b == self.holds_for(len),
            None => exists|seen: Result<FileStat, FsError>|
                stat_answer(fs, path, seen) && b == self.holds_given(seen),
        }
    }

    /// Whether the file of the event passes.  The size that came with the
    /// event decides; without one the file system is asked for the metadata
    /// of the path, and its answer decides.
    pub fn matches<F: Fs>(&self, ev: &EventInfo, ctx: &EngineCtx<F>) -> (b: bool)
        ensures
            self.answers(&ctx.fs, ev.path@, ev.known_size(), b),
    {
        match ev.prefetched_size() {
            Some(len) => self.admits(len),
            None => {
                let seen = ctx.fs.metadata(ev.path.as_str());
                assert(stat_answer(&ctx.fs, ev.path@, seen));
                self.judge(&seen)
            },
        }
    }
}

/// A size, in bytes, that a file must stay under.
pub struct SizeLtCondition {
    size: i64,
}

impl SizeLtCondition {
    /// The size that must not be reached.
    pub closed spec fn bound(&self) -> int {
        self.size as int
    }

    /// What the condition says of a file of `len` bytes.
    pub open spec fn holds_for(&self, len: u64) -> bool {
        (len as int) < self.bound()
    }

    /// What the condition says of what `metadata` returned: a file that cannot
    /// be read passes nothing.
    pub open spec fn holds_given(&self, seen: Result<FileStat, FsError>) -> bool {
        match seen {
            Ok(stat) => self.holds_for(stat.len),
            Err(_) => false,
        }
    }

    /// The condition that the file takes less than `size` bytes.
    pub fn new(size: i64) -> (r: Self)
        ensures
            r.bound() == size,
    {
        SizeLtCondition { size }
    }

    /// The kind of the condition: it may ask the file system.
    pub fn kind(&self) -> (k: ConditionKind)
        ensures
            k == ConditionKind::Io,
    {
        ConditionKind::Io
    }

    /// Whether a file of `len` bytes passes.
    pub fn admits(&self, len: u64) -> (b: bool)
        ensures
            b == self.holds_for(len),
    {
        if self.size < 0 {
            false
        } else {
            len < self.size as u64
        }
    }

    /// Whether a file passes, given what `metadata` returned for it.
    pub fn judge(&self, seen: &Result<FileStat, FsError>) -> (b: bool)
        ensures
            b == self.holds_given(*seen),
    {
        match seen {
            Ok(stat) => self.admits(stat.len),
            Err(_) => false,
        }
    }

    /// `b` is what the condition says of the file at `path`, as far as `fs`
    /// answers: the size that is given decides; without one the answer of
    /// `fs` to the question for the metadata of `path` decides.
    pub open spec fn answers<F: Fs>(&self, fs: &F, path: Seq<char>, size: Option<u64>, b: bool)
        -> bool {
        match size {
            Some(len) => b == self.holds_for(len),
            None => exists|seen: Result<FileStat, FsError>|
                stat_answer(fs, path, seen) && b == self.holds_given(seen),
        }
    }

    /// Whether the file of the event passes.  The size that came with the
    /// event decides; without one the file system is asked for the metadata
    /// of the path, and its answer decides.
    pub fn matches<F: Fs>(&self, ev: &EventInfo, ctx: &EngineCtx<F>) -> (b: bool)
        ensures
            self.answers(&ctx.fs, ev.path@, ev.known_size(), b),
    {
        match ev.prefetched_size() {
            Some(len) => self.admits(len),
            None => {
                let seen = ctx.fs.metadata(ev.path.as_str());
                assert(stat_answer(&ctx.fs, ev.path@, seen));
                self.judge(&seen)
            },
        }
    }
}

} // verus!
