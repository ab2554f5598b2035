//! The file system as the engine sees it, and the decorator for dry runs.

use crate::text::appended;
use vstd::prelude::*;
use vstd::string::*;

verus! {

/// What `metadata` tells of a path.
#[derive(Debug, Clone, Copy, PartialEq, Eq, Structural)]
pub struct FileStat {
    pub len: u64,
    /// Nanoseconds since the Unix epoch, where the host knows the time.
    pub mtime: Option<u64>,
    pub is_dir: bool,
}

/// A failed file-system operation, in the host's words.
#[derive(Debug, Clone)]
pub struct FsError {
    pub message: String,
}

/// The operations the engine needs from a file system.
///
/// The comments say what an implementation is meant to do.  Nothing of it is
/// assumed: every caller is verified for whatever comes back, and says in
/// its contract which questions it asked and what it made of the answers.
pub trait Fs {
    /// The size, the modification time and the kind of what is at `path`;
    /// a failure is returned, not hidden.
    fn metadata(&self, path: &str) -> Result<FileStat, FsError>;

    /// Creates the directory `path` and its parents; one that is there is
    /// left as it is.
    fn create_dir_all(&self, path: &str) -> Result<(), FsError>;

    /// Moves `from` to `to`, replacing what is at `to`.
    fn rename(&self, from: &str, to: &str) -> Result<(), FsError>;

    /// Whether something is at `path`; `false` where that cannot be told.
    fn path_exists(&self, path: &str) -> bool;

    /// The text of the file at `path`.
    fn read_to_string(&self, path: &str) -> Result<String, FsError>;
}

/// `seen` is what `fs` answered when it was asked for the metadata of `path`.
pub open spec fn stat_answer<F: Fs>(fs: &F, path: Seq<char>, seen: Result<FileStat, FsError>)
    -> bool {
    exists|asked: &str| asked@ == path && call_ensures(F::metadata, (fs, asked), seen)
}

/// `there` is what `fs` answered when it was asked whether something is at
/// `path`.
pub open spec fn presence_answer<F: Fs>(fs: &F, path: Seq<char>, there: bool) -> bool {
    exists|asked: &str| asked@ == path && call_ensures(F::path_exists, (fs, asked), there)
}

/// `read` is what `fs` answered when it was asked for the text of `path`.
pub open spec fn text_answer<F: Fs>(fs: &F, path: Seq<char>, read: Result<String, FsError>)
    -> bool {
    exists|asked: &str| asked@ == path && call_ensures(F::read_to_string, (fs, asked), read)
}

/// `made` is what `fs` answered when it was asked to create the directory
/// `path`.
pub open spec fn create_answer<F: Fs>(fs: &F, path: Seq<char>, made: Result<(), FsError>) -> bool {
    exists|asked: &str| asked@ == path && call_ensures(F::create_dir_all, (fs, asked), made)
}

/// `moved` is what `fs` answered when it was asked to move `from` to `to`.
pub open spec fn rename_answer<F: Fs>(
    fs: &F,
    from: Seq<char>,
    to: Seq<char>,
    moved: Result<(), FsError>,
) -> bool {
    exists|source: &str, target: &str|
        source@ == from && target@ == to && call_ensures(F::rename, (fs, source, target), moved)
}

/// The line to log in a dry run in place of creating `path`.
pub fn dry_create_line(path: &str) -> (line: String)
    ensures
        line@ == "[dry-run] create_dir_all "@ + path@,
{
    appended("[dry-run] create_dir_all ", path)
}

/// The line to log in a dry run in place of moving `from` to `to`.
pub fn dry_move_line(from: &str, to: &str) -> (line: String)
    ensures
        line@ == "[dry-run] move "@ + from@ + " -> "@ + to@,
{
    let mut line = appended("[dry-run] move ", from);
    line.append(" -> ");
    line.append(to);
    line
}

/// A file system that reads through `inner` and changes nothing: asked to
/// create or to move, it does nothing and reports success.  What it was asked
/// is for the host to log.
pub struct DryRunFs<F: Fs> {
    inner: F,
}

impl<F: Fs> DryRunFs<F> {
    /// The file system that is read through.
    pub closed spec fn inner(&self) -> F {
        self.inner
    }

    /// A dry run on `inner`.
    pub fn new(inner: F) -> (r: Self)
        ensures
            r.inner() == inner,
    {
        DryRunFs { inner }
    }

    /// The file system that is read through.
    pub fn below(&self) -> (r: &F)
        ensures
            *r == self.inner(),
    {
        &self.inner
    }
}

impl<F: Fs> Fs for DryRunFs<F> {
    /// Answers what the file system below answers.
    fn metadata(&self, path: &str) -> (r: Result<FileStat, FsError>)
        ensures
            call_ensures(F::metadata, (&self.inner(), path), r),
    {
        self.inner.metadata(path)
    }

    /// Creates nothing, asks nothing of the file system below, and succeeds.
    fn create_dir_all(&self, path: &str) -> (r: Result<(), FsError>)
        ensures
            r is Ok,
    {
        Ok(())
    }

    /// Moves nothing, asks nothing of the file system below, and succeeds.
    fn rename(&self, from: &str, to: &str) -> (r: Result<(), FsError>)
        ensures
            r is Ok,
    {
        Ok(())
    }

    /// Answers what the file system below answers.
    fn path_exists(&self, path: &str) -> (r: bool)
        ensures
            call_ensures(F::path_exists, (&self.inner(), path), r),
    {
        self.inner.path_exists(path)
    }

    /// Answers what the file system below answers.
    fn read_to_string(&self, path: &str) -> (r: Result<String, FsError>)
        ensures
            call_ensures(F::read_to_string, (&self.inner(), path), r),
    {
        self.inner.read_to_string(path)
    }
}

} // verus!
