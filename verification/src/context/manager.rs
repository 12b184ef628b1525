//! Context manager: keeps the git cache and the pinned files, and gathers
//! the events that report their changes.

use crate::context::events::ContextEvent;
use crate::context::git::{
    stripped_prefix, FileGitStatus, GitStatusCache, RepoStatus, StatusReport,
};
use crate::context::pinned::{PinReason, PinnedFile, PinnedFiles, PinnedFileView};
use crate::context::ContextConfig;
use crate::watcher::WatcherEvent;
use std::collections::VecDeque;
use vstd::prelude::*;

verus! {

/// The directory that holds a path, as `std::path::Path::parent` gives
/// it for the path syntax of the platform, where the path has one that is
/// valid Unicode.
pub uninterp spec fn parent_of(path: Seq<char>) -> Option<Seq<char>>;

/// Calls `std::path::Path::parent` on the path and hands the parent back
/// as a string. The contract gives the result its name, `parent_of`.
#[verifier::external_body]
fn path_parent(path: &String) -> (parent: Option<String>)
    ensures
        match parent {
            Some(p) => parent_of(path@) == Some(p@),
            None => parent_of(path@) is None,
        },
{
    match std::path::Path::new(path).parent() {
        Some(dir) => match dir.to_str() {
            Some(text) => Some(text.to_string()),
            None => None,
        },
        None => None,
    }
}

/// The directory that a change of `path` affects: the one that holds the
/// path, or the path itself where nothing holds it.
pub fn affected_dir_of(path: String, parent: Option<String>) -> (dir: String)
    ensures
        dir@ == match parent {
            Some(p) => p@,
            None => path@,
        },
{
    match parent {
        Some(p) => p,
        None => path,
    }
}

/// What a context event stands for in contracts.
pub enum ContextEventView {
    FileSystemChanged { path: Seq<char>, affected_dir: Seq<char> },
    GitStatusUpdated,
    FilePinned(Seq<char>),
    FileUnpinned(Seq<char>),
    Error(Seq<char>),
}

impl View for ContextEvent {
    type V = ContextEventView;

    open spec fn view(&self) -> ContextEventView {
        match self {
            ContextEvent::FileSystemChanged { path, affected_dir } => {
                ContextEventView::FileSystemChanged { path: path@, affected_dir: affected_dir@ }
            },
            ContextEvent::GitStatusUpdated => ContextEventView::GitStatusUpdated,
            ContextEvent::FilePinned(p) => ContextEventView::FilePinned(p@),
            ContextEvent::FileUnpinned(p) => ContextEventView::FileUnpinned(p@),
            ContextEvent::Error(e) => ContextEventView::Error(e@),
        }
    }
}

/// The context event that reports a watcher event: a change in the file
/// system at the event's path, for a rename at the new path, in the
/// directory that holds it; an error as it is.
pub open spec fn reported(event: WatcherEvent) -> ContextEventView {
    match event {
        WatcherEvent::Error(e) => ContextEventView::Error(e@),
        _ => {
            let path = event.subject()->0;
            ContextEventView::FileSystemChanged {
                path,
                affected_dir: match parent_of(path) {
                    Some(p) => p,
                    None => path,
                },
            }
        },
    }
}

/// The context event that reports a watcher event.
pub fn report_watcher_event(event: WatcherEvent) -> (out: ContextEvent)
    ensures
        out@ == reported(event),
{
    match event {
        WatcherEvent::Created(path)
        | WatcherEvent::Modified(path)
        | WatcherEvent::Deleted(path)
        | WatcherEvent::Changed(path) => {
            let parent = path_parent(&path);
            let affected_dir = affected_dir_of(path.clone(), parent);
            ContextEvent::FileSystemChanged { path, affected_dir }
        },
        WatcherEvent::Renamed(_, new_path) => {
            let parent = path_parent(&new_path);
            let affected_dir = affected_dir_of(new_path.clone(), parent);
            ContextEvent::FileSystemChanged { path: new_path, affected_dir }
        },
        WatcherEvent::Error(e) => ContextEvent::Error(e),
    }
}

/// The git refresh interval in milliseconds, at most what 64 bits hold.
pub fn refresh_interval_ms(secs: u64) -> (ms: u64)
    ensures
        ms == if secs * 1000 <= u64::MAX {
            (secs * 1000) as u64
        } else {
            u64::MAX
        },
{
    if secs <= u64::MAX / 1000 {
        secs * 1000
    } else {
        u64::MAX
    }
}

/// Keeps the git cache and the pinned files of the active project, and the
/// events that wait to be handed to the user interface.
pub struct ContextManager {
    git_cache: GitStatusCache,
    pinned: PinnedFiles,
    events: VecDeque<ContextEvent>,
    config: ContextConfig,
    active_dir: Option<String>,
}

impl ContextManager {
    /// The git cache.
    pub closed spec fn git(&self) -> GitStatusCache {
        self.git_cache
    }

    /// The pinned files.
    pub closed spec fn pins(&self) -> PinnedFiles {
        self.pinned
    }

    /// The events that wait to be handed on, the oldest first.
    pub closed spec fn queued(&self) -> Seq<ContextEventView> {
        self.events@.map_values(|e: ContextEvent| e@)
    }

    /// The configuration.
    pub closed spec fn settings(&self) -> ContextConfig {
        self.config
    }

    /// The active directory, if one was set.
    pub closed spec fn directory(&self) -> Option<Seq<char>> {
        match self.active_dir {
            Some(dir) => Some(dir@),
            None => None,
        }
    }

    /// The invariant of the manager: that of its pinned files.
    pub open spec fn well_formed(&self) -> bool {
        self.pins().well_formed()
    }

    /// A manager without an active directory, with an empty git cache and
    /// no pinned files.
    pub fn new(config: ContextConfig, now: u64) -> (manager: Self)
        ensures
            manager.well_formed(),
            manager.settings() == config,
            manager.queued() == Seq::<ContextEventView>::empty(),
            manager.directory() is None,
            manager.pins().entries() == Seq::<PinnedFileView>::empty(),
            !manager.git().has_repo(),
            manager.git().is_dirty(),
    {
        let git_cache = GitStatusCache::new(
            refresh_interval_ms(config.git_refresh_interval_secs),
            now,
        );
        let pinned = PinnedFiles::new(config.max_pinned_files);
        let manager = ContextManager {
            git_cache,
            pinned,
            events: VecDeque::new(),
            config,
            active_dir: None,
        };
        assert(manager.queued() =~= Seq::<ContextEventView>::empty());
        manager
    }

    /// Make the directory with canonical path `canonical` the active one.
    /// `found` is the root of the git repository found from it, if any;
    /// the git cache takes note of it where git status is enabled.
    /// Returns whether the cache took a new repository.
    pub fn set_active_directory(&mut self, canonical: String, found: Option<String>) -> (replaced:
        bool)
        requires
            old(self).well_formed(),
        ensures
            final(self).well_formed(),
            final(self).directory() == Some(canonical@),
            final(self).pins() == old(self).pins(),
            final(self).queued() == old(self).queued(),
            final(self).settings() == old(self).settings(),
            !old(self).settings().enable_git_status ==> !replaced && final(self).git() == old(self).git(),
            old(self).settings().enable_git_status ==> old(self).git().after_set_root(
                final(self).git(),
                found,
                replaced,
            ),
    {
        let replaced = if self.config.enable_git_status {
            self.git_cache.set_root(found)
        } else {
            false
        };
        self.active_dir = Some(canonical);
        replaced
    }

    /// Take in the events of the file watcher: each is reported as a
    /// context event, and each change in the file system marks the git
    /// cache as out of date.
    pub fn absorb_watcher_events(&mut self, incoming: Vec<WatcherEvent>) -> (out: Vec<ContextEvent>)
        requires
            old(self).well_formed(),
        ensures
            final(self).well_formed(),
            final(self).pins() == old(self).pins(),
            final(self).queued() == old(self).queued(),
            final(self).settings() == old(self).settings(),
            final(self).directory() == old(self).directory(),
            out@.len() == incoming@.len(),
            forall|i: int| 0 <= i < out@.len() ==> (#[trigger] out@[i])@ == reported(incoming@[i]),
            final(self).git().is_dirty() == (old(self).git().is_dirty() || exists|i: int|
                0 <= i < incoming@.len() && !((#[trigger] incoming@[i]) is Error)),
            final(self).git().has_repo() == old(self).git().has_repo(),
            final(self).git().root() == old(self).git().root(),
            final(self).git().statuses() == old(self).git().statuses(),
            final(self).git().summary() == old(self).git().summary(),
            final(self).git().refreshed_at() == old(self).git().refreshed_at(),
            final(self).git().interval() == old(self).git().interval(),
    {
        let mut incoming = incoming;
        let ghost all = incoming@;
        let mut out: Vec<ContextEvent> = Vec::new();
        let mut rest: Vec<WatcherEvent> = Vec::new();
        while incoming.len() > 0
            invariant
                incoming@ == all.take(incoming@.len() as int),
                rest@.len() + incoming@.len() == all.len(),
                forall|k: int| 0 <= k < rest@.len() ==> (#[trigger] rest@[k]) == all[all.len() - 1
                    - k],
            decreases incoming@.len(),
        {
            let ghost at = incoming@.len() - 1;
            let event = incoming.pop().unwrap();
            proof {
                assert(event == all[at]);
                assert(incoming@ =~= all.take(at));
            }
            rest.push(event);
        }
        let ghost mut changed = false;
        while rest.len() > 0
            invariant
                rest@.len() + out@.len() == all.len(),
                forall|k: int| 0 <= k < rest@.len() ==> (#[trigger] rest@[k]) == all[all.len() - 1
                    - k],
                forall|i: int| 0 <= i < out@.len() ==> (#[trigger] out@[i])@ == reported(all[i]),
                changed == exists|i: int| 0 <= i < out@.len() && !((#[trigger] all[i]) is Error),
                self.git_cache.is_dirty() == (old(self).git().is_dirty() || changed),
                self.pinned == old(self).pinned,
                self.events == old(self).events,
                self.config == old(self).config,
                self.active_dir == old(self).active_dir,
                self.git_cache.has_repo() == old(self).git().has_repo(),
                self.git_cache.root() == old(self).git().root(),
                self.git_cache.statuses() == old(self).git().statuses(),
                self.git_cache.summary() == old(self).git().summary(),
                self.git_cache.refreshed_at() == old(self).git().refreshed_at(),
                self.git_cache.interval() == old(self).git().interval(),
            decreases rest@.len(),
        {
            let ghost at = out@.len() as int;
            let event = rest.pop().unwrap();
            proof {
                assert(event == all[at]);
            }
            let is_error = match &event {
                WatcherEvent::Error(_) => true,
                _ => false,
            };
            if !is_error {
                self.git_cache.mark_dirty();
            }
            let ghost before = out@;
            out.push(report_watcher_event(event));
            proof {
                let was = changed;
                changed = changed || !is_error;
                assert forall|i: int| 0 <= i < out@.len() implies (#[trigger] out@[i])@ == reported(
                    all[i],
                ) by {
                    if i < before.len() {
                        assert(out@[i] == before[i]);
                    }
                }
                if was {
                    let i = choose|i: int| 0 <= i < before.len() && !((#[trigger] all[i]) is Error);
                    assert(0 <= i < out@.len() && !(all[i] is Error));
                }
                if !is_error {
                    assert(0 <= at < out@.len() && !(all[at] is Error));
                }
                if exists|i: int| 0 <= i < out@.len() && !((#[trigger] all[i]) is Error) {
                    let i = choose|i: int| 0 <= i < out@.len() && !((#[trigger] all[i]) is Error);
                    if i < before.len() {
                        assert(was);
                    }
                }
            }
        }
        out
    }

    /// Whether the git status is to be refreshed at the time `now`: git
    /// status is enabled, and the cache is out of date.
    pub fn git_refresh_due(&self, now: u64) -> (due: bool)
        ensures
            due == (self.settings().enable_git_status && self.git().refresh_due(now)),
    {
        self.config.enable_git_status && self.git_cache.needs_refresh(now)
    }

    /// Hand the git cache what a look at the repository gave at the time
    /// `now`.
    pub fn refresh_git_status(&mut self, now: u64, report: Option<StatusReport>)
        requires
            old(self).well_formed(),
        ensures
            final(self).well_formed(),
            final(self).pins() == old(self).pins(),
            final(self).queued() == old(self).queued(),
            final(self).settings() == old(self).settings(),
            final(self).directory() == old(self).directory(),
            old(self).git().after_refresh(final(self).git(), now, report),
    {
        self.git_cache.refresh(now, report);
    }

    /// End a poll: `out`, which holds the events of the poll so far, gets
    /// the notice of a git refresh where one was made, and then every
    /// event that waited; none waits afterwards.
    pub fn finish_poll(&mut self, out: &mut Vec<ContextEvent>, git_refreshed: bool)
        requires
            old(self).well_formed(),
        ensures
            final(self).well_formed(),
            final(self).pins() == old(self).pins(),
            final(self).git() == old(self).git(),
            final(self).settings() == old(self).settings(),
            final(self).directory() == old(self).directory(),
            final(self).queued() == Seq::<ContextEventView>::empty(),
            final(out)@.map_values(|e: ContextEvent| e@) == old(out)@.map_values(
                |e: ContextEvent| e@,
            ) + (if git_refreshed {
                seq![ContextEventView::GitStatusUpdated]
            } else {
                Seq::empty()
            }) + old(self).queued(),
    {
        let ghost given = old(out)@.map_values(|e: ContextEvent| e@);
        let ghost waiting = self.queued();
        let ghost notice = if git_refreshed {
            seq![ContextEventView::GitStatusUpdated]
        } else {
            Seq::empty()
        };
        if git_refreshed {
            out.push(ContextEvent::GitStatusUpdated);
        }
        assert(out@.map_values(|e: ContextEvent| e@) =~= given + notice + waiting.take(0));
        assert(self.queued().skip(0) =~= waiting);
        let ghost mut handed: int = 0;
        while self.events.len() > 0
            invariant
                0 <= handed <= waiting.len(),
                self.queued() == waiting.skip(handed),
                out@.map_values(|e: ContextEvent| e@) == given + notice + waiting.take(handed),
                self.pinned == old(self).pinned,
                self.git_cache == old(self).git_cache,
                self.config == old(self).config,
                self.active_dir == old(self).active_dir,
            decreases self.events@.len(),
        {
            let ghost before = out@.map_values(|e: ContextEvent| e@);
            let ghost queue = self.queued();
            let ghost held = self.events@;
            proof {
                assert(queue.len() == self.events@.len());
                assert(waiting.skip(handed).len() == waiting.len() - handed);
                assert(waiting.skip(handed)[0] == waiting[handed]);
            }
            match self.events.pop_front() {
                Some(event) => {
                    proof {
                        assert(event@ == queue[0]);
                        assert(queue[0] == waiting[handed]);
                    }
                    out.push(event);
                    proof {
                        assert(self.events@ =~= held.subrange(1, held.len() as int));
                        assert forall|k: int| 0 <= k < self.queued().len() implies self.queued()[k]
                            == waiting.skip(handed + 1)[k] by {
                            assert(self.events@[k] == held[k + 1]);
                            assert(queue[k + 1] == held[k + 1]@);
                            assert(queue[k + 1] == waiting.skip(handed)[k + 1]);
                        }
                        assert(self.queued() =~= waiting.skip(handed + 1));
                        assert(out@.map_values(|e: ContextEvent| e@) =~= before.push(
                            waiting[handed],
                        ));
                        assert(waiting.take(handed + 1) =~= waiting.take(handed).push(
                            waiting[handed],
                        ));
                        handed = handed + 1;
                    }
                },
                None => {},
            }
        }
        proof {
            assert(self.queued() =~= Seq::<ContextEventView>::empty());
            assert(waiting.take(handed) =~= waiting);
        }
    }

    /// Pin the file that the user named by `path`, whose canonical path
    /// is `canonical`, at the time `now`. A file that was not pinned is
    /// reported as pinned.
    pub fn pin_file(&mut self, path: String, canonical: String, now: u64)
        requires
            old(self).well_formed(),
        ensures
            final(self).well_formed(),
            final(self).git() == old(self).git(),
            final(self).settings() == old(self).settings(),
            final(self).directory() == old(self).directory(),
            final(self).pins().pinned(canonical@),
            final(self).queued() == if old(self).pins().pinned(canonical@) {
                old(self).queued()
            } else {
                old(self).queued().push(ContextEventView::FilePinned(path@))
            },
    {
        let ghost before = self.queued();
        let ghost target = canonical@;
        if self.pinned.pin(canonical, PinReason::Manual, now) {
            self.events.push_back(ContextEvent::FilePinned(path));
            assert(self.queued() =~= before.push(ContextEventView::FilePinned(path@)));
        }
        proof {
            crate::context::pinned::lemma_last_is_pinned(self.pinned.entries(), target);
        }
    }

    /// Unpin the file that the user named by `path`, whose canonical path
    /// is `canonical`. A file that was pinned is reported as unpinned.
    pub fn unpin_file(&mut self, path: String, canonical: &String)
        requires
            old(self).well_formed(),
        ensures
            final(self).well_formed(),
            final(self).git() == old(self).git(),
            final(self).settings() == old(self).settings(),
            final(self).directory() == old(self).directory(),
            !final(self).pins().pinned(canonical@),
            final(self).queued() == if old(self).pins().pinned(canonical@) {
                old(self).queued().push(ContextEventView::FileUnpinned(path@))
            } else {
                old(self).queued()
            },
    {
        let ghost before = self.queued();
        if self.pinned.unpin(canonical) {
            self.events.push_back(ContextEvent::FileUnpinned(path));
            assert(self.queued() =~= before.push(ContextEventView::FileUnpinned(path@)));
        }
    }

    /// Pin the file where it is not pinned, unpin it where it is, and
    /// report which was done.
    pub fn toggle_pin(&mut self, path: String, canonical: String, now: u64)
        requires
            old(self).well_formed(),
        ensures
            final(self).well_formed(),
            final(self).git() == old(self).git(),
            final(self).settings() == old(self).settings(),
            final(self).directory() == old(self).directory(),
            final(self).queued() == old(self).queued().push(
                if old(self).pins().pinned(canonical@) {
                    ContextEventView::FileUnpinned(path@)
                } else {
                    ContextEventView::FilePinned(path@)
                },
            ),
    {
        let ghost before = self.queued();
        if self.pinned.toggle(canonical, now) {
            self.events.push_back(ContextEvent::FilePinned(path));
            assert(self.queued() =~= before.push(ContextEventView::FilePinned(path@)));
        } else {
            self.events.push_back(ContextEvent::FileUnpinned(path));
            assert(self.queued() =~= before.push(ContextEventView::FileUnpinned(path@)));
        }
    }

    /// Whether the file with canonical path `canonical` is pinned.
    pub fn is_pinned(&self, canonical: &String) -> (pinned: bool)
        requires
            self.well_formed(),
        ensures
            pinned == self.pins().pinned(canonical@),
    {
        self.pinned.is_pinned(canonical)
    }

    /// The pinned files, the least recently used first.
    pub fn pinned_files(&self) -> (files: &VecDeque<PinnedFile>)
        ensures
            files@.map_values(|f: PinnedFile| f@) == self.pins().entries(),
    {
        self.pinned.iter()
    }

    /// The git status of the file with the given absolute path: that which
    /// the cache holds for its path relative to the root of the repository;
    /// clean where no repository is known, the file does not lie under its
    /// root, or the cache holds no status for it.
    pub fn get_git_status(&self, path: &String) -> (status: FileGitStatus)
        ensures
            status == match self.git().root() {
                Some(root) => match stripped_prefix(path@, root@) {
                    Some(rest) => self.git().status_at(rest),
                    None => FileGitStatus::Clean,
                },
                None => FileGitStatus::Clean,
            },
    {
        self.git_cache.get_status_for_absolute(path)
    }

    /// The summary of the repository, if one was made.
    pub fn repo_status(&self) -> (status: Option<&RepoStatus>)
        ensures
            match status {
                Some(s) => self.git().summary() == Some(*s),
                None => self.git().summary() is None,
            },
    {
        self.git_cache.repo_status()
    }

    /// Whether git status is enabled and a repository is known.
    pub fn is_git_available(&self) -> (available: bool)
        ensures
            available == (self.settings().enable_git_status && self.git().has_repo()),
    {
        self.config.enable_git_status && self.git_cache.is_in_repo()
    }

    /// The root of the repository, if one is known.
    pub fn repo_root(&self) -> (root: Option<&String>)
        ensures
            match root {
                Some(r) => self.git().root() == Some(*r),
                None => self.git().root() is None,
            },
    {
        self.git_cache.repo_root()
    }

    /// The active directory, if one was set.
    pub fn active_directory(&self) -> (dir: Option<&String>)
        ensures
            match dir {
                Some(d) => self.directory() == Some(d@),
                None => self.directory() is None,
            },
    {
        self.active_dir.as_ref()
    }
}

} // verus!
