//! The condition on what the file holds.

use crate::conditions::ConditionKind;
use crate::engine::EngineCtx;
use crate::fs::{stat_answer, text_answer, FileStat, Fs, FsError};
use crate::models::EventInfo;
use crate::text::{contains, contains_text};
use vstd::prelude::*;

verus! {

/// The largest file, in bytes, that is read.  A file known to be larger
/// passes nothing.
pub const MAX_CONTENT_BYTES: u64 = 67_108_864;

/// A text that the file must hold.
pub struct ContainsCondition {
    text: String,
}

impl ContainsCondition {
    /// The text that is looked for.
    pub closed spec fn needle(&self) -> Seq<char> {
        self.text@
    }

    /// What the condition says of a file that reads `content`.
    pub open spec fn holds_for(&self, content: Seq<char>) -> bool {
        contains(content, self.needle())
    }

    /// What the condition says of what `read_to_string` returned: a file that
    /// cannot be read passes nothing.
    pub open spec fn holds_given(&self, read: Result<String, FsError>) -> bool {
        match read {
            Ok(content) => self.holds_for(content@),
            Err(_) => false,
        }
    }

    /// The condition that the file holds `text`.
    pub fn new(text: String) -> (r: Self)
        ensures
            r.needle() == text@,
    {
        ContainsCondition { text }
    }

    /// The kind of the condition: it reads the file.
    pub fn kind(&self) -> (k: ConditionKind)
        ensures
            k == ConditionKind::Io,
    {
        ConditionKind::Io
    }

    /// Whether a file passes, given what `read_to_string` returned for it.
    pub fn judge(&self, read: &Result<String, FsError>) -> (b: bool)
        ensures
            b == self.holds_given(*read),
    {
        match read {
            Ok(content) => contains_text(content.as_str(), self.text.as_str()),
            Err(_) => false,
        }
    }

    /// `b` is what the condition says of the file at `path`, which is known
    /// to take `len` bytes, as far as `fs` answers: a file over the limit
    /// passes nothing; another is read, and what is read decides.
    pub open spec fn answers_sized<F: Fs>(&self, fs: &F, path: Seq<char>, len: u64, b: bool)
        -> bool {
        if len > MAX_CONTENT_BYTES {
            !b
        } else {
            exists|read: Result<String, FsError>|
                text_answer(fs, path, read) && b == self.holds_given(read)
        }
    }

    /// `b` is what the condition says of the file at `path`, as far as `fs`
    /// answers.  The size is the one given or, failing that, the one that the
    /// metadata shows; where neither is to be had, the file is read whatever
    /// its size.
    pub open spec fn answers<F: Fs>(&self, fs: &F, path: Seq<char>, size: Option<u64>, b: bool)
        -> bool {
        match size {
            Some(len) => self.answers_sized(fs, path, len, b),
            None => exists|seen: Result<FileStat, FsError>|
                stat_answer(fs, path, seen) && match seen {
                    Ok(stat) => self.answers_sized(fs, path, stat.len, b),
                    Err(_) => exists|read: Result<String, FsError>|
                        text_answer(fs, path, read) && b == self.holds_given(read),
                },
        }
    }

    /// Whether the file at `path`, which is known to take `len` bytes, holds
    /// the text.
    pub fn matches_sized<F: Fs>(&self, path: &str, len: u64, ctx: &EngineCtx<F>) -> (b: bool)
        ensures
            self.answers_sized(&ctx.fs, path@, len, b),
    {
        if len > MAX_CONTENT_BYTES {
            false
        } else {
            let read = ctx.fs.read_to_string(path);
            assert(text_answer(&ctx.fs, path@, read));
            self.judge(&read)
        }
    }

    /// Whether the file of the event holds the text.  The size is taken from
    /// the event or, failing that, asked of the file system; a file known to
    /// be over the limit is not read.
    pub fn matches<F: Fs>(&self, ev: &EventInfo, ctx: &EngineCtx<F>) -> (b: bool)
        ensures
            self.answers(&ctx.fs, ev.path@, ev.known_size(), b),
    {
        match ev.prefetched_size() {
            Some(len) => self.matches_sized(ev.path.as_str(), len, ctx),
            None => {
                let seen = ctx.fs.metadata(ev.path.as_str());
                assert(stat_answer(&ctx.fs, ev.path@, seen));
                match seen {
                    Ok(stat) => self.matches_sized(ev.path.as_str(), stat.len, ctx),
                    Err(_) => {
                        let read = ctx.fs.read_to_string(ev.path.as_str());
                        assert(text_answer(&ctx.fs, ev.path@, read));
                        self.judge(&read)
                    },
                }
            },
        }
    }
}

} // verus!
