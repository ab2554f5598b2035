//! The checks a configuration has to pass before the engine starts.

use crate::action::ActionConfig;
use crate::actions::move_action::names_directory;
use crate::error::ConfigError;
use crate::fs::{presence_answer, stat_answer, FileStat, Fs, FsError};
use crate::models::{Config, Rule, Watcher};
use crate::paths::{parent, parent_of};
use crate::template::or_empty;
use crate::text::{blank, chars_of, contains_char, is_blank, same_text};
use vstd::prelude::*;
use vstd::string::*;

verus! {

/// What has to be checked of the destination of a move.
#[derive(Debug, Clone)]
pub enum Destination {
    /// Empty or blank: refused.
    Blank,
    /// Holds a placeholder: where it leads is known only when a file is
    /// moved.
    Templated,
    /// Names a directory, which has to exist.
    Directory,
    /// Names a file without a parent: refused.
    Orphan,
    /// Names a file, whose parent has to exist.
    File { parent: String },
}

/// The destination holds a placeholder, or part of one.
pub open spec fn templated(destination: Seq<char>) -> bool {
    destination.contains('{') || destination.contains('}')
}

/// The destination is refused whatever the file system holds: it is blank,
/// or it names a file that has no parent.
pub open spec fn unusable(destination: Seq<char>) -> bool {
    blank(destination) || (!templated(destination) && !names_directory(destination)
        && or_empty(parent_of(destination)).len() == 0)
}

/// What has to be checked of `destination`.
pub fn classify(destination: &str) -> (r: Destination)
    ensures
        match r {
            Destination::Blank => blank(destination@),
            Destination::Templated => !blank(destination@) && templated(destination@),
            Destination::Directory => !blank(destination@) && !templated(destination@)
                && names_directory(destination@),
            Destination::Orphan => !blank(destination@) && unusable(destination@),
            Destination::File { parent } => !unusable(destination@) && !templated(destination@)
                && !names_directory(destination@) && parent_of(destination@) == Some(parent@),
        },
{
    if is_blank(destination) {
        return Destination::Blank;
    }
    if contains_char(destination, '{') || contains_char(destination, '}') {
        return Destination::Templated;
    }
    let d = chars_of(destination);
    if d.len() > 0 && (d[d.len() - 1] == '/' || d[d.len() - 1] == '\\') {
        return Destination::Directory;
    }
    match parent(destination) {
        Some(dir) => {
            if dir.as_str().is_empty() {
                Destination::Orphan
            } else {
                Destination::File { parent: dir }
            }
        },
        None => Destination::Orphan,
    }
}

/// `r` is the verdict on `destination`, as far as `fs` answers: a blank one
/// is refused; one with a placeholder passes; a directory has to exist, and
/// so has the parent of a file, which a file has to have.
pub open spec fn destination_checked<F: Fs>(
    fs: &F,
    destination: Seq<char>,
    r: Result<(), ConfigError>,
) -> bool {
    if blank(destination) {
        r matches Err(ConfigError::EmptyDestination)
    } else if templated(destination) {
        r is Ok
    } else if names_directory(destination) {
        exists|there: bool|
            presence_answer(fs, destination, there) && if there {
                r is Ok
            } else {
                r matches Err(ConfigError::MissingDirectory { destination: d }) && d@
                    == destination
            }
    } else if or_empty(parent_of(destination)).len() == 0 {
        r matches Err(ConfigError::NoParent { destination: d }) && d@ == destination
    } else {
        exists|there: bool|
            presence_answer(fs, or_empty(parent_of(destination)), there) && if there {
                r is Ok
            } else {
                r matches Err(ConfigError::MissingParent { parent }) && parent@ == or_empty(
                    parent_of(destination),
                )
            }
    }
}

impl Rule {
    /// Nothing in the rule is refused whatever the file system holds: every
    /// move has a usable destination, and every condition compiles.
    pub open spec fn sound(&self) -> bool {
        &&& forall|i: int|
            0 <= i < self.actions@.len() ==> ((
            #[trigger] self.actions@[i]) matches ActionConfig::Move { destination, overwrite }
                ==> !unusable(destination@))
        &&& forall|i: int|
            0 <= i < self.conditions@.len() ==> (#[trigger] self.conditions@[i]).compiles()
    }

    /// The destinations of the moves among the first `n` actions pass, as far
    /// as `fs` answers.
    pub open spec fn moves_pass<F: Fs>(&self, fs: &F, n: int) -> bool {
        forall|i: int|
            0 <= i < n ==> ((#[trigger] self.actions@[i]) matches ActionConfig::Move {
                destination,
                overwrite,
            } ==> destination_checked(fs, destination@, Ok(())))
    }

    /// `r` is the verdict on the rule, as far as `fs` answers: the refusal of
    /// the first move whose destination does not pass, else that of the first
    /// condition that does not compile, else none.
    pub open spec fn checked<F: Fs>(&self, fs: &F, r: Result<(), ConfigError>) -> bool {
        match r {
            Ok(_) => {
                &&& self.moves_pass(fs, self.actions@.len() as int)
                &&& forall|k: int|
                    0 <= k < self.conditions@.len() ==> (#[trigger] self.conditions@[k]).compiles()
            },
            Err(e) => {
                ||| exists|i: int|
                    {
                        &&& 0 <= i < self.actions@.len()
                        &&& self.moves_pass(fs, i)
                        &&& (#[trigger] self.actions@[i]) matches ActionConfig::Move {
                            destination,
                            overwrite,
                        } && destination_checked(fs, destination@, Err(e))
                    }
                ||| {
                    &&& self.moves_pass(fs, self.actions@.len() as int)
                    &&& exists|k: int|
                        {
                            &&& 0 <= k < self.conditions@.len()
                            &&& forall|j: int|
                                0 <= j < k ==> (#[trigger] self.conditions@[j]).compiles()
                            &&& (#[trigger] self.conditions@[k]).refused_by(e)
                        }
                }
            },
        }
    }
}

impl Watcher {
    /// Nothing in the rules of the watcher is refused whatever the file
    /// system holds.
    pub open spec fn sound(&self) -> bool {
        forall|i: int| 0 <= i < self.rules@.len() ==> (#[trigger] self.rules@[i]).sound()
    }

    /// Each of the first `n` rules passes, as far as `fs` answers.
    pub open spec fn rules_pass<F: Fs>(&self, fs: &F, n: int) -> bool {
        forall|i: int| 0 <= i < n ==> (#[trigger] self.rules@[i]).checked(fs, Ok(()))
    }

    /// `r` is the verdict on the watcher, as far as `fs` answers: its path
    /// has to be a directory that can be read; then the refusal of its first
    /// rule that does not pass, else none.
    pub open spec fn checked<F: Fs>(&self, fs: &F, r: Result<(), ConfigError>) -> bool {
        exists|seen: Result<FileStat, FsError>|
            stat_answer(fs, self.path@, seen) && match seen {
                Err(_) => r matches Err(ConfigError::NotAccessible { path }) && path == self.path,
                Ok(stat) => if !stat.is_dir {
                    r matches Err(ConfigError::NotADirectory { path }) && path == self.path
                } else {
                    match r {
                        Ok(_) => self.rules_pass(fs, self.rules@.len() as int),
                        Err(e) => exists|i: int|
                            0 <= i < self.rules@.len() && self.rules_pass(fs, i)
                                && (#[trigger] self.rules@[i]).checked(fs, Err(e)),
                    }
                },
            }
    }
}

/// Checks the destination of a move: refuses what is unusable, and asks the
/// file system for the directory or the parent that has to exist.
pub fn validate_destination<F: Fs>(destination: &str, fs: &F) -> (r: Result<(), ConfigError>)
    ensures
        destination_checked(fs, destination@, r),
        r is Ok ==> !unusable(destination@),
{
    match classify(destination) {
        Destination::Blank => Err(ConfigError::EmptyDestination),
        Destination::Templated => Ok(()),
        Destination::Directory => {
            let there = fs.path_exists(destination);
            assert(presence_answer(fs, destination@, there));
            if there {
                Ok(())
            } else {
                Err(ConfigError::MissingDirectory { destination: String::from_str(destination) })
            }
        },
        Destination::Orphan => Err(
            ConfigError::NoParent { destination: String::from_str(destination) },
        ),
        Destination::File { parent } => {
            let there = fs.path_exists(parent.as_str());
            assert(presence_answer(fs, parent@, there));
            if there {
                Ok(())
            } else {
                Err(ConfigError::MissingParent { parent })
            }
        },
    }
}

/// Checks one rule: the destinations of its moves, then its conditions.
pub fn validate_rule<F: Fs>(rule: &Rule, fs: &F) -> (r: Result<(), ConfigError>)
    ensures
        rule.checked(fs, r),
        r is Ok ==> rule.sound(),
{
    let mut i: usize = 0;
    while i < rule.actions.len()
        invariant
            i <= rule.actions@.len(),
            rule.moves_pass(fs, i as int),
            forall|j: int|
                0 <= j < i ==> ((#[trigger] rule.actions@[j]) matches ActionConfig::Move {
                    destination,
                    overwrite,
                } ==> !unusable(destination@)),
        decreases rule.actions@.len() - i,
    {
        match &rule.actions[i] {
            ActionConfig::Move { destination, overwrite } => {
                match validate_destination(destination.as_str(), fs) {
                    Ok(()) => {},
                    Err(e) => {
                        assert(rule.actions@[i as int] matches ActionConfig::Move {
                            destination: d,
                            overwrite: o,
                        } && destination_checked(fs, d@, Err(e)));
                        return Err(e);
                    },
                }
            },
            _ => {},
        }
        i = i + 1;
    }
    let mut k: usize = 0;
    while k < rule.conditions.len()
        invariant
            k <= rule.conditions@.len(),
            rule.moves_pass(fs, rule.actions@.len() as int),
            forall|j: int|
                0 <= j < rule.actions@.len() ==> ((
                #[trigger] rule.actions@[j]) matches ActionConfig::Move {
                    destination,
                    overwrite,
                } ==> !unusable(destination@)),
            forall|j: int| 0 <= j < k ==> (#[trigger] rule.conditions@[j]).compiles(),
        decreases rule.conditions@.len() - k,
    {
        match rule.conditions[k].duplicate().into_condition() {
            Ok(_) => {},
            Err(e) => {
                assert(rule.conditions@[k as int].refused_by(e));
                return Err(e);
            },
        }
        k = k + 1;
    }
    Ok(())
}

/// Checks one watcher: its path has to be a directory that can be read, and
/// each of its rules has to pass, in order.
pub fn validate_watcher<F: Fs>(w: &Watcher, fs: &F) -> (r: Result<(), ConfigError>)
    ensures
        w.checked(fs, r),
        r is Ok ==> w.sound(),
{
    let seen = fs.metadata(w.path.as_str());
    assert(stat_answer(fs, w.path@, seen));
    match seen {
        Ok(stat) => {
            if !stat.is_dir {
                return Err(ConfigError::NotADirectory { path: w.path.clone() });
            }
        },
        Err(_) => {
            return Err(ConfigError::NotAccessible { path: w.path.clone() });
        },
    }
    let mut i: usize = 0;
    while i < w.rules.len()
        invariant
            i <= w.rules@.len(),
            stat_answer(fs, w.path@, seen),
            seen is Ok && seen->Ok_0.is_dir,
            w.rules_pass(fs, i as int),
            forall|j: int| 0 <= j < i ==> (#[trigger] w.rules@[j]).sound(),
        decreases w.rules@.len() - i,
    {
        match validate_rule(&w.rules[i], fs) {
            Ok(()) => {},
            Err(e) => {
                assert(w.rules@[i as int].checked(fs, Err(e)));
                return Err(e);
            },
        }
        i = i + 1;
    }
    Ok(())
}

/// `slot` holds the path `path`.
pub open spec fn holds_path(slot: Option<String>, path: Seq<char>) -> bool {
    match slot {
        Some(held) => held@ == path,
        None => false,
    }
}

/// The canonical path at place `i` stands at an earlier place too.
pub open spec fn repeats(canonical: Seq<Option<String>>, i: int) -> bool {
    match canonical[i] {
        Some(path) => exists|j: int| 0 <= j < i && holds_path(#[trigger] canonical[j], path@),
        None => false,
    }
}

/// The watcher at place `i` passes, as far as `fs` answers, and its canonical
/// path is known and stands at no earlier place.
pub open spec fn watcher_passes<F: Fs>(
    fs: &F,
    config: Config,
    canonical: Seq<Option<String>>,
    i: int,
) -> bool {
    &&& config.watchers@[i].checked(fs, Ok(()))
    &&& i < canonical.len()
    &&& canonical[i] is Some
    &&& !repeats(canonical, i)
}

/// `e` says that the canonical form of `path` is not known.
pub open spec fn is_not_canonical(e: ConfigError, path: String) -> bool {
    match e {
        ConfigError::NotCanonical { path: p } => p == path,
        _ => false,
    }
}

/// `e` says that the canonical path in `slot` is watched already.
pub open spec fn is_duplicate(e: ConfigError, slot: Option<String>) -> bool {
    match e {
        ConfigError::DuplicateWatcher { path } => slot == Some(path),
        _ => false,
    }
}

/// `e` is the refusal of the watcher at place `i`, as far as `fs` answers:
/// that of the watcher itself; or, where the watcher passes, that its
/// canonical path is not known, or that it stands at an earlier place.
pub open spec fn watcher_refused<F: Fs>(
    fs: &F,
    config: Config,
    canonical: Seq<Option<String>>,
    i: int,
    e: ConfigError,
) -> bool {
    let w = config.watchers@[i];
    ||| w.checked(fs, Err(e))
    ||| {
        &&& w.checked(fs, Ok(()))
        &&& i >= canonical.len() || canonical[i] is None
        &&& is_not_canonical(e, w.path)
    }
    ||| {
        &&& w.checked(fs, Ok(()))
        &&& i < canonical.len()
        &&& repeats(canonical, i)
        &&& is_duplicate(e, canonical[i])
    }
}

/// Checks a configuration: each watcher has to pass, and no directory may be
/// watched twice.  `canonical` holds, for each watcher, the canonical form of
/// its path, where the host could tell it.
///
/// The watchers are taken in order; the first refusal ends the check.
pub fn validate<F: Fs>(config: &Config, fs: &F, canonical: &Vec<Option<String>>) -> (r: Result<
    (),
    ConfigError,
>)
    ensures
        match r {
            Ok(_) => forall|i: int|
                0 <= i < config.watchers@.len() ==> #[trigger] watcher_passes(
                    fs,
                    *config,
                    canonical@,
                    i,
                ),
            Err(e) => exists|i: int|
                {
                    &&& 0 <= i < config.watchers@.len()
                    &&& forall|j: int|
                        0 <= j < i ==> #[trigger] watcher_passes(fs, *config, canonical@, j)
                    &&& #[trigger] watcher_refused(fs, *config, canonical@, i, e)
                },
        },
        r is Ok ==> forall|i: int|
            0 <= i < config.watchers@.len() ==> (#[trigger] config.watchers@[i]).sound(),
{
    let mut i: usize = 0;
    while i < config.watchers.len()
        invariant
            i <= config.watchers@.len(),
            forall|j: int| 0 <= j < i ==> (#[trigger] config.watchers@[j]).sound(),
            forall|j: int| 0 <= j < i ==> #[trigger] watcher_passes(fs, *config, canonical@, j),
        decreases config.watchers@.len() - i,
    {
        let w = &config.watchers[i];
        match validate_watcher(w, fs) {
            Ok(()) => {},
            Err(e) => {
                assert(watcher_refused(fs, *config, canonical@, i as int, e));
                return Err(e);
            },
        }
        if i >= canonical.len() {
            let e = ConfigError::NotCanonical { path: w.path.clone() };
            assert(watcher_refused(fs, *config, canonical@, i as int, e));
            return Err(e);
        }
        match &canonical[i] {
            Some(path) => {
                if seen_before(canonical, i, path.as_str()) {
                    assert(repeats(canonical@, i as int));
                    let e = ConfigError::DuplicateWatcher { path: path.clone() };
                    assert(watcher_refused(fs, *config, canonical@, i as int, e));
                    return Err(e);
                }
            },
            None => {
                let e = ConfigError::NotCanonical { path: w.path.clone() };
                assert(watcher_refused(fs, *config, canonical@, i as int, e));
                return Err(e);
            },
        }
        i = i + 1;
    }
    Ok(())
}

/// Whether `path` stands among the canonical paths before place `i`.
fn seen_before(canonical: &Vec<Option<String>>, i: usize, path: &str) -> (b: bool)
    requires
        i < canonical@.len(),
    ensures
        b == exists|j: int| 0 <= j < i && holds_path(#[trigger] canonical@[j], path@),
{
    let mut j: usize = 0;
    while j < i
        invariant
            j <= i < canonical@.len(),
            forall|k: int| 0 <= k < j ==> !holds_path(#[trigger] canonical@[k], path@),
        decreases i - j,
    {
        match &canonical[j] {
            Some(earlier) => {
                if same_text(earlier.as_str(), path) {
                    assert(holds_path(canonical@[j as int], path@));
                    return true;
                }
            },
            None => {},
        }
        j = j + 1;
    }
    false
}

} // verus!
