//! File system watcher: which changes it reports and which paths it watches.

use crate::text::{same_str, views};
use crate::types::{FsEvent, FsEventKind};
use vstd::prelude::*;
use vstd::string::*;

verus! {

/// What can go wrong in the watcher.
#[derive(Debug, PartialEq, Eq)]
pub enum FsWatcherError {
    InitFailed(String),
    WatchFailed { path: String, source: String },
    ChannelClosed,
}

impl FsWatcherError {
    /// The text that describes the error.
    pub open spec fn text(self) -> Seq<char> {
        match self {
            FsWatcherError::InitFailed(e) => "watcher initialization failed: "@ + e@,
            FsWatcherError::WatchFailed { path, source } => "failed to watch path "@ + path@ + ": "@
                + source@,
            FsWatcherError::ChannelClosed => "watcher channel closed"@,
        }
    }

    /// Describes the error.
    pub fn message(&self) -> (r: String)
        ensures
            r@ == self.text(),
    {
        match self {
            FsWatcherError::InitFailed(e) => "watcher initialization failed: ".to_owned().concat(
                e.as_str(),
            ),
            FsWatcherError::WatchFailed { path, source } => "failed to watch path ".to_owned().concat(
                path.as_str(),
            ).concat(": ").concat(source.as_str()),
            FsWatcherError::ChannelClosed => "watcher channel closed".to_owned(),
        }
    }
}

/// What the system says has happened to some paths.
#[derive(Debug, Clone, Copy, PartialEq, Eq, Structural)]
pub enum NotifyKind {
    Any,
    Access,
    Create,
    ModifyMetadata,
    ModifyName,
    /// Any other change of a file.
    Modify,
    Remove,
    Other,
}

/// The kind under which a change is reported. That a file was only looked
/// at is not reported.
pub open spec fn reported_kind(kind: NotifyKind) -> Option<FsEventKind> {
    match kind {
        NotifyKind::Create => Some(FsEventKind::Created),
        NotifyKind::ModifyMetadata => Some(FsEventKind::MetadataChanged),
        NotifyKind::ModifyName => Some(FsEventKind::Renamed),
        NotifyKind::Modify => Some(FsEventKind::Modified),
        NotifyKind::Remove => Some(FsEventKind::Deleted),
        NotifyKind::Any => Some(FsEventKind::Modified),
        NotifyKind::Access => None,
        NotifyKind::Other => None,
    }
}

fn kind_to_report(kind: NotifyKind) -> (r: Option<FsEventKind>)
    ensures
        r == reported_kind(kind),
{
    match kind {
        NotifyKind::Create => Some(FsEventKind::Created),
        NotifyKind::ModifyMetadata => Some(FsEventKind::MetadataChanged),
        NotifyKind::ModifyName => Some(FsEventKind::Renamed),
        NotifyKind::Modify => Some(FsEventKind::Modified),
        NotifyKind::Remove => Some(FsEventKind::Deleted),
        NotifyKind::Any => Some(FsEventKind::Modified),
        NotifyKind::Access => None,
        NotifyKind::Other => None,
    }
}

/// The events that report a change: one for each path, in order. Nothing is
/// reported of a change without a path.
pub fn convert_event(kind: NotifyKind, paths: &Vec<String>) -> (r: Option<Vec<FsEvent>>)
    ensures
        r is Some <==> reported_kind(kind) is Some && paths@.len() > 0,
        r matches Some(v) ==> v@.len() == paths@.len() && forall|i: int|
            0 <= i < v@.len() ==> (#[trigger] v@[i]).path@ == paths@[i]@ && reported_kind(kind)
                == Some(v@[i].kind),
{
    let kind = match kind_to_report(kind) {
        Some(k) => k,
        None => {
            return None;
        },
    };
    let mut events: Vec<FsEvent> = Vec::new();
    let mut i: usize = 0;
    while i < paths.len()
        invariant
            i <= paths@.len(),
            events@.len() == i,
            forall|k: int|
                0 <= k < i ==> (#[trigger] events@[k]).path@ == paths@[k]@ && events@[k].kind
                    == kind,
        decreases paths@.len() - i,
    {
        events.push(FsEvent { path: paths[i].clone(), kind });
        i += 1;
    }
    if events.len() == 0 {
        None
    } else {
        Some(events)
    }
}

/// Every change is reported, and nothing else: only a look at a file and
/// what the system cannot name are left out.
pub proof fn law_only_changes_are_reported(kind: NotifyKind)
    ensures
        reported_kind(kind) is None <==> kind == NotifyKind::Access || kind == NotifyKind::Other,
{
}

/// The paths that are watched.
#[derive(Debug)]
pub struct FsWatcher {
    watched_paths: Vec<String>,
}

/// `paths` without `path`.
pub open spec fn without(paths: Seq<Seq<char>>, path: Seq<char>) -> Seq<Seq<char>> {
    paths.filter(|p: Seq<char>| p != path)
}

impl FsWatcher {
    /// The paths that are watched, in the order in which they were added.
    pub closed spec fn paths(&self) -> Seq<Seq<char>> {
        views(self.watched_paths@)
    }

    /// A watcher of nothing. `outcome` tells whether the system can watch at
    /// all.
    pub fn new(outcome: Result<(), String>) -> (r: Result<FsWatcher, FsWatcherError>)
        ensures
            match outcome {
                Ok(_) => r is Ok && r->Ok_0.paths() == Seq::<Seq<char>>::empty(),
                Err(e) => r == Err::<FsWatcher, FsWatcherError>(FsWatcherError::InitFailed(e)),
            },
    {
        match outcome {
            Ok(_) => {
                let none: Vec<String> = Vec::new();
                assert(views(none@) =~= Seq::empty());
                Ok(FsWatcher { watched_paths: none })
            },
            Err(e) => Err(FsWatcherError::InitFailed(e)),
        }
    }

    /// Records that a path is watched. `outcome` tells whether the system
    /// watches it.
    pub fn watch(&mut self, path: &str, outcome: Result<(), String>) -> (r: Result<
        (),
        FsWatcherError,
    >)
        ensures
            match outcome {
                Ok(_) => r is Ok && final(self).paths() == old(self).paths().push(path@),
                Err(e) => {
                    &&& r is Err
                    &&& r->Err_0 is WatchFailed
                    &&& r->Err_0->path@ == path@
                    &&& r->Err_0->source == e
                    &&& final(self).paths() == old(self).paths()
                },
            },
    {
        match outcome {
            Ok(_) => {
                let s = path.to_owned();
                self.watched_paths.push(s);
                proof {
                    crate::text::lemma_views_push(old(self).watched_paths@, s);
                }
                Ok(())
            },
            Err(e) => Err(FsWatcherError::WatchFailed { path: path.to_owned(), source: e }),
        }
    }

    /// Records that a path is no longer watched. `outcome` tells whether the
    /// system has let go of it.
    pub fn unwatch(&mut self, path: &str, outcome: Result<(), String>) -> (r: Result<
        (),
        FsWatcherError,
    >)
        ensures
            match outcome {
                Ok(_) => r is Ok && final(self).paths() == without(old(self).paths(), path@),
                Err(e) => {
                    &&& r is Err
                    &&& r->Err_0 is WatchFailed
                    &&& r->Err_0->path@ == path@
                    &&& r->Err_0->source == e
                    &&& final(self).paths() == old(self).paths()
                },
            },
    {
        match outcome {
            Ok(_) => {
                let mut kept: Vec<String> = Vec::new();
                let mut i: usize = 0;
                let ghost all = self.paths();
                let ghost keep = |p: Seq<char>| p != path@;
                assert(views(kept@) =~= all.take(0).filter(keep)) by {
                    reveal(Seq::filter);
                }
                while i < self.watched_paths.len()
                    invariant
                        i <= self.watched_paths@.len(),
                        all == views(self.watched_paths@),
                        keep == |p: Seq<char>| p != path@,
                        views(kept@) == all.take(i as int).filter(keep),
                    decreases self.watched_paths@.len() - i,
                {
                    let ghost before = kept@;
                    proof {
                        assert(all.take(i + 1).drop_last() =~= all.take(i as int));
                        assert(all.take(i + 1).last() == self.watched_paths@[i as int]@);
                        reveal(Seq::filter);
                    }
                    if !same_str(self.watched_paths[i].as_str(), path) {
                        let s = self.watched_paths[i].clone();
                        kept.push(s);
                        proof {
                            crate::text::lemma_views_push(before, s);
                        }
                    }
                    i += 1;
                }
                assert(all.take(i as int) =~= all);
                self.watched_paths = kept;
                Ok(())
            },
            Err(e) => Err(FsWatcherError::WatchFailed { path: path.to_owned(), source: e }),
        }
    }

    /// The paths that are watched.
    pub fn watched_paths(&self) -> (r: &Vec<String>)
        ensures
            views(r@) == self.paths(),
    {
        &self.watched_paths
    }
}

/// A path that was let go of is watched no more.
pub proof fn law_unwatched_path_is_gone(paths: Seq<Seq<char>>, path: Seq<char>)
    ensures
        !without(paths, path).contains(path),
{
    let keep = |p: Seq<char>| p != path;
    if without(paths, path).contains(path) {
        paths.lemma_filter_contains_rev(keep, path);
        paths.filter_lemma(keep);
        let k = choose|k: int|
            0 <= k < without(paths, path).len() && without(paths, path)[k] == path;
        assert(keep(paths.filter(keep)[k]));
    }
}

} // verus!
