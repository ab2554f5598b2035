//! The watcher's part in the engine: which of the raw notifications of a
//! batch become events of the pipeline.

use crate::engine::pipeline::{share_all, PipelineMsg};
use crate::models::{Event, EventInfo, RuntimeWatcher};
use crate::paths::{extension, extension_of};
use crate::template::or_empty;
use crate::text::{lowered, same_lowered, same_text};
use vstd::prelude::*;

verus! {

/// The kind of a raw notification.
#[derive(Debug, Clone, Copy, PartialEq, Eq, Structural)]
pub enum RawKind {
    Create,
    Modify,
    Remove,
    /// Anything else: an access, a change that is not told apart.
    Other,
}

/// One raw notification: its kind and the paths it is about.  The first path
/// is the one that counts.
#[derive(Debug, Clone)]
pub struct RawEvent {
    pub kind: RawKind,
    pub paths: Vec<String>,
}

/// The kind of event that a raw notification stands for, if any.
pub open spec fn mapped(kind: RawKind) -> Option<Event> {
    match kind {
        RawKind::Create => Some(Event::Created),
        RawKind::Modify => Some(Event::Modified),
        RawKind::Remove => Some(Event::Deleted),
        RawKind::Other => None,
    }
}

/// The kind of event that a raw notification stands for, if any.
pub fn map_kind(kind: RawKind) -> (r: Option<Event>)
    ensures
        r == mapped(kind),
{
    match kind {
        RawKind::Create => Some(Event::Created),
        RawKind::Modify => Some(Event::Modified),
        RawKind::Remove => Some(Event::Deleted),
        RawKind::Other => None,
    }
}

/// The notification at place `i` is the last of the batch for its path.
pub open spec fn is_latest(batch: Seq<RawEvent>, i: int) -> bool {
    &&& batch[i].paths@.len() > 0
    &&& forall|j: int|
        i < j < batch.len() ==> (#[trigger] batch[j]).paths@.len() == 0 || batch[j].paths@[0]@
            != batch[i].paths@[0]@
}

impl RuntimeWatcher {
    /// The extension of `path`, in any case, is on the ignore list.  A path
    /// without extension counts as one with the empty extension.
    pub open spec fn ignores(&self, path: Seq<char>) -> bool {
        self.ignore is Some && exists|k: int|
            0 <= k < self.ignore->0@.len() && lowered(#[trigger] self.ignore->0@[k]@) == lowered(
                or_empty(extension_of(path)),
            )
    }

    /// Some rule of the watcher selects events of kind `kind`.
    pub open spec fn wants(&self, kind: Event) -> bool {
        exists|i: int| 0 <= i < self.rules@.len() && (#[trigger] self.rules@[i]).selects(kind)
    }

    /// The notification at place `i` of the batch becomes an event: it is the
    /// last for its path, its kind stands for a kind of event that some rule
    /// selects, and its extension is not ignored.
    pub open spec fn admits(&self, batch: Seq<RawEvent>, i: int) -> bool {
        &&& is_latest(batch, i)
        &&& !self.ignores(batch[i].paths@[0]@)
        &&& mapped(batch[i].kind) matches Some(kind) && self.wants(kind)
    }

    /// The places of the notifications among the first `n` that become
    /// events, in order.
    pub open spec fn admitted(&self, batch: Seq<RawEvent>, n: int) -> Seq<int>
        decreases n,
    {
        if n <= 0 {
            Seq::empty()
        } else if self.admits(batch, n - 1) {
            self.admitted(batch, n - 1).push(n - 1)
        } else {
            self.admitted(batch, n - 1)
        }
    }

    /// `msg` is the message for the notification `raw`: its first path, the
    /// kind of event it stands for, nothing known of the file, and all the
    /// rules of the watcher.
    pub open spec fn reports(&self, raw: RawEvent, msg: PipelineMsg) -> bool {
        &&& raw.paths@.len() > 0
        &&& msg.event.path == raw.paths@[0]
        &&& Some(msg.event.event) == mapped(raw.kind)
        &&& msg.event.meta is None
        &&& msg.rules@ == self.rules@
    }

    /// Whether the extension of `path` is on the ignore list.
    pub fn is_ignored(&self, path: &str) -> (b: bool)
        ensures
            b == self.ignores(path@),
    {
        match &self.ignore {
            Some(list) => {
                let ext = match extension(path) {
                    Some(ext) => ext,
                    None => String::new(),
                };
                let mut k: usize = 0;
                while k < list.len()
                    invariant
                        k <= list@.len(),
                        self.ignore == Some(*list),
                        ext@ == or_empty(extension_of(path@)),
                        forall|j: int|
                            0 <= j < k ==> lowered(#[trigger] list@[j]@) != lowered(ext@),
                    decreases list@.len() - k,
                {
                    if same_lowered(list[k].as_str(), ext.as_str()) {
                        assert(lowered(self.ignore->0@[k as int]@) == lowered(
                            or_empty(extension_of(path@)),
                        ));
                        return true;
                    }
                    k = k + 1;
                }
                false
            },
            None => false,
        }
    }

    /// Whether some rule of the watcher selects events of kind `kind`.
    pub fn is_wanted(&self, kind: Event) -> (b: bool)
        ensures
            b == self.wants(kind),
    {
        let mut i: usize = 0;
        while i < self.rules.len()
            invariant
                i <= self.rules@.len(),
                forall|j: int| 0 <= j < i ==> !(#[trigger] self.rules@[j]).selects(kind),
            decreases self.rules@.len() - i,
        {
            if self.rules[i].is_for(kind) {
                return true;
            }
            i = i + 1;
        }
        false
    }

    /// The kind of the event that the notification at place `i` becomes, if
    /// the batch has such a place and the notification becomes an event.
    pub fn survivor(&self, batch: &Vec<RawEvent>, i: usize) -> (r: Option<Event>)
        ensures
            r is Some <==> i < batch@.len() && self.admits(batch@, i as int),
            r is Some ==> r == mapped(batch@[i as int].kind),
    {
        if i >= batch.len() {
            return None;
        }
        let raw = &batch[i];
        if raw.paths.len() == 0 || !is_last_of_path(batch, i) {
            return None;
        }
        match map_kind(raw.kind) {
            Some(kind) => {
                if !self.is_ignored(raw.paths[0].as_str()) && self.is_wanted(kind) {
                    Some(kind)
                } else {
                    None
                }
            },
            None => None,
        }
    }

    /// The messages for a batch of raw notifications: one for each path, made
    /// of the last notification for that path, unless that is dropped.  A
    /// notification is dropped if its kind stands for no kind of event, if
    /// the extension is ignored, or if no rule selects the kind.
    pub fn collapse(&self, batch: &Vec<RawEvent>) -> (out: Vec<PipelineMsg>)
        ensures
            out@.len() == self.admitted(batch@, batch@.len() as int).len(),
            forall|k: int|
                0 <= k < out@.len() ==> {
                    &&& 0 <= #[trigger] self.admitted(batch@, batch@.len() as int)[k]
                    &&& self.admitted(batch@, batch@.len() as int)[k] < batch@.len()
                    &&& self.reports(
                        batch@[self.admitted(batch@, batch@.len() as int)[k]],
                        out@[k],
                    )
                },
    {
        let mut out: Vec<PipelineMsg> = Vec::new();
        let mut i: usize = 0;
        while i < batch.len()
            invariant
                i <= batch@.len(),
                out@.len() == self.admitted(batch@, i as int).len(),
                forall|k: int|
                    0 <= k < out@.len() ==> {
                        &&& 0 <= #[trigger] self.admitted(batch@, i as int)[k]
                        &&& self.admitted(batch@, i as int)[k] < i
                        &&& self.reports(
                            batch@[self.admitted(batch@, i as int)[k]],
                            out@[k],
                        )
                    },
            decreases batch@.len() - i,
        {
            let ghost before = out@;
            let ghost so_far = self.admitted(batch@, i as int);
            match self.survivor(batch, i) {
                Some(kind) => {
                    assert(self.admitted(batch@, i + 1) == so_far.push(i as int));
                    out.push(
                        PipelineMsg {
                            event: EventInfo {
                                path: batch[i].paths[0].clone(),
                                event: kind,
                                meta: None,
                            },
                            rules: share_all(&self.rules),
                        },
                    );
                    assert forall|k: int| 0 <= k < out@.len() implies {
                        &&& 0 <= #[trigger] self.admitted(batch@, i + 1)[k]
                        &&& self.admitted(batch@, i + 1)[k] < i + 1
                        &&& self.reports(
                            batch@[self.admitted(batch@, i + 1)[k]],
                            out@[k],
                        )
                    } by {
                        if k < before.len() {
                            assert(out@[k] == before[k]);
                            assert(self.admitted(batch@, i + 1)[k] == so_far[k]);
                        } else {
                            assert(self.admitted(batch@, i + 1)[k] == i);
                        }
                    }
                },
                None => {
                    assert(self.admitted(batch@, i + 1) == so_far);
                    assert forall|k: int| 0 <= k < out@.len() implies {
                        &&& 0 <= #[trigger] self.admitted(batch@, i + 1)[k]
                        &&& self.admitted(batch@, i + 1)[k] < i + 1
                        &&& self.reports(
                            batch@[self.admitted(batch@, i + 1)[k]],
                            out@[k],
                        )
                    } by {
                        assert(out@[k] == before[k]);
                        assert(0 <= so_far[k] < i);
                    }
                },
            }
            i = i + 1;
        }
        out
    }
}

/// Whether the notification at place `i`, which has a path, is the last of
/// the batch for that path.
fn is_last_of_path(batch: &Vec<RawEvent>, i: usize) -> (b: bool)
    requires
        i < batch@.len(),
        batch@[i as int].paths@.len() > 0,
    ensures
        b == is_latest(batch@, i as int),
{
    let path = batch[i].paths[0].as_str();
    let n: usize = batch.len();
    let mut j: usize = i + 1;
    while j < n
        invariant
            i < j <= batch@.len(),
            n == batch@.len(),
            batch@[i as int].paths@.len() > 0,
            path@ == batch@[i as int].paths@[0]@,
            forall|k: int|
                i < k < j ==> (#[trigger] batch@[k]).paths@.len() == 0 || batch@[k].paths@[0]@
                    != path@,
        decreases batch@.len() - j,
    {
        if batch[j].paths.len() > 0 && same_text(batch[j].paths[0].as_str(), path) {
            return false;
        }
        j = j + 1;
    }
    true
}

} // verus!
