//! Pinned files: files that the user keeps in the context, at most a fixed
//! number of them, the least recently used leaving first.

use std::collections::VecDeque;
use vstd::prelude::*;

verus! {

/// Reason why a file was pinned.
#[derive(Debug, Clone, Copy, PartialEq, Eq, Structural)]
pub enum PinReason {
    Manual,
    RecentlyEdited,
    TerminalMentioned,
}

impl PinReason {
    /// The word shown for each reason.
    pub open spec fn display_text(self) -> Seq<char> {
        match self {
            PinReason::Manual => "pinned"@,
            PinReason::RecentlyEdited => "edited"@,
            PinReason::TerminalMentioned => "mentioned"@,
        }
    }

    /// The icon shown for each reason.
    pub open spec fn icon_text(self) -> Seq<char> {
        match self {
            PinReason::Manual => "📌"@,
            PinReason::RecentlyEdited => "✏️"@,
            PinReason::TerminalMentioned => "💬"@,
        }
    }

    pub fn display(&self) -> (text: &'static str)
        ensures
            text@ == self.display_text(),
    {
        match self {
            PinReason::Manual => "pinned",
            PinReason::RecentlyEdited => "edited",
            PinReason::TerminalMentioned => "mentioned",
        }
    }

    pub fn icon(&self) -> (text: &'static str)
        ensures
            text@ == self.icon_text(),
    {
        match self {
            PinReason::Manual => "📌",
            PinReason::RecentlyEdited => "✏️",
            PinReason::TerminalMentioned => "💬",
        }
    }
}

/// A pinned file entry.
#[derive(Debug, Clone)]
pub struct PinnedFile {
    /// The file's path, in canonical form.
    pub path: String,
    pub reason: PinReason,
    /// When the file was pinned, in seconds since the Unix epoch.
    pub pinned_at: u64,
    last_accessed: u64,
}

/// What a `PinnedFile` stands for in contracts.
pub struct PinnedFileView {
    pub path: Seq<char>,
    pub reason: PinReason,
    pub pinned_at: u64,
    pub last_accessed: u64,
}

impl View for PinnedFile {
    type V = PinnedFileView;

    closed spec fn view(&self) -> PinnedFileView {
        PinnedFileView {
            path: self.path@,
            reason: self.reason,
            pinned_at: self.pinned_at,
            last_accessed: self.last_accessed,
        }
    }
}

/// The final component of a path, as `std::path::Path::file_name` gives it
/// for the path syntax of the platform, where the path has one that is
/// valid Unicode.
pub uninterp spec fn file_name_of(path: Seq<char>) -> Option<Seq<char>>;

/// Calls `std::path::Path::file_name` on the path and hands the name back as
/// a string. The contract gives the result its name, `file_name_of`.
#[verifier::external_body]
fn path_file_name(path: &String) -> (name: Option<String>)
    ensures
        match name {
            Some(n) => file_name_of(path@) == Some(n@),
            None => file_name_of(path@) is None,
        },
{
    match std::path::Path::new(path).file_name() {
        Some(name) => match name.to_str() {
            Some(text) => Some(text.to_string()),
            None => None,
        },
        None => None,
    }
}

/// The name to show for a file: its own, or a question mark where the path
/// has none.
pub fn file_name_or_unknown(name: Option<String>) -> (shown: String)
    ensures
        shown@ == match name {
            Some(n) => n@,
            None => "?"@,
        },
{
    match name {
        Some(n) => n,
        None => "?".to_string(),
    }
}

impl PinnedFile {
    /// A file pinned at the time `now`, in seconds since the Unix epoch.
    pub fn new(path: String, reason: PinReason, now: u64) -> (file: Self)
        ensures
            file@ == (PinnedFileView {
                path: path@,
                reason,
                pinned_at: now,
                last_accessed: now,
            }),
    {
        PinnedFile { path, reason, pinned_at: now, last_accessed: now }
    }

    /// Record an access at the time `now`.
    pub fn touch(&mut self, now: u64)
        ensures
            final(self)@ == (PinnedFileView { last_accessed: now, ..old(self)@ }),
    {
        self.last_accessed = now;
    }

    /// When the file was last accessed, in seconds since the Unix epoch.
    pub fn last_accessed(&self) -> (at: u64)
        ensures
            at == self@.last_accessed,
    {
        self.last_accessed
    }

    /// The file's name: the final component of its path, or a question
    /// mark where the path has none.
    pub fn file_name(&self) -> (name: String)
        ensures
            name@ == match file_name_of(self@.path) {
                Some(n) => n,
                None => "?"@,
            },
    {
        file_name_or_unknown(path_file_name(&self.path))
    }
}

/// Collection of pinned files with LRU eviction.
pub struct PinnedFiles {
    /// The files, the least recently used at the front.
    files: VecDeque<PinnedFile>,
    max_files: usize,
}

/// Place of the entry with the given path, if there is one.
pub open spec fn entry_index(entries: Seq<PinnedFileView>, path: Seq<char>) -> Option<int> {
    if exists|i: int| 0 <= i < entries.len() && entries[i].path == path {
        Some(choose|i: int| 0 <= i < entries.len() && entries[i].path == path)
    } else {
        None
    }
}

/// No path has two entries.
pub open spec fn unique_paths(entries: Seq<PinnedFileView>) -> bool {
    forall|i: int, j: int|
        0 <= i < entries.len() && 0 <= j < entries.len() && i != j ==> entries[i].path
            != entries[j].path
}

impl PinnedFiles {
    /// The pinned files, the least recently used first.
    pub closed spec fn entries(&self) -> Seq<PinnedFileView> {
        self.files@.map_values(|f: PinnedFile| f@)
    }

    /// The most files that the collection holds.
    pub closed spec fn capacity(&self) -> usize {
        self.max_files
    }

    /// The invariants of the collection: it holds at least room for one
    /// file, no more files than it has room for, and no path twice.
    pub open spec fn well_formed(&self) -> bool {
        &&& self.capacity() >= 1
        &&& self.entries().len() <= self.capacity()
        &&& unique_paths(self.entries())
    }

    /// Whether the path is pinned.
    pub open spec fn pinned(&self, path: Seq<char>) -> bool {
        entry_index(self.entries(), path) is Some
    }

    /// The entries after an access to the one at place `at`, at the time
    /// `now`: it becomes the most recently used.
    pub open spec fn touched(entries: Seq<PinnedFileView>, at: int, now: u64) -> Seq<
        PinnedFileView,
    > {
        entries.remove(at).push(PinnedFileView { last_accessed: now, ..entries[at] })
    }

    /// An empty collection with room for `max_files` files, at least one.
    pub fn new(max_files: usize) -> (files: Self)
        ensures
            files.well_formed(),
            files.entries() == Seq::<PinnedFileView>::empty(),
            files.capacity() == if max_files >= 1 {
                max_files
            } else {
                1
            },
    {
        let files = PinnedFiles {
            files: VecDeque::new(),
            max_files: if max_files >= 1 {
                max_files
            } else {
                1
            },
        };
        assert(files.entries() =~= Seq::<PinnedFileView>::empty());
        files
    }

    /// Place of the entry with the given path.
    fn find(&self, path: &String) -> (res: Option<usize>)
        requires
            unique_paths(self.entries()),
        ensures
            match res {
                Some(i) => entry_index(self.entries(), path@) == Some(i as int) && i
                    < self.files@.len() && self.files@[i as int]@.path == path@,
                None => entry_index(self.entries(), path@) is None,
            },
    {
        let mut i: usize = 0;
        while i < self.files.len()
            invariant
                i <= self.files@.len(),
                unique_paths(self.entries()),
                forall|j: int| 0 <= j < i ==> self.entries()[j].path != path@,
            decreases self.files@.len() - i,
        {
            if self.files[i].path == *path {
                proof {
                    assert(self.entries()[i as int].path == path@);
                    let k = choose|k: int|
                        0 <= k < self.entries().len() && self.entries()[k].path == path@;
                    assert(k == i);
                }
                return Some(i);
            }
            i += 1;
        }
        None
    }

    /// Pin the file with canonical path `path` at the time `now`. A file
    /// that is pinned already is touched instead, and `false` comes back.
    /// Else the file becomes the most recently used entry, the least
    /// recently used one leaving where the collection is full, and `true`
    /// comes back.
    pub fn pin(&mut self, path: String, reason: PinReason, now: u64) -> (added: bool)
        requires
            old(self).well_formed(),
        ensures
            final(self).well_formed(),
            final(self).capacity() == old(self).capacity(),
            added == !old(self).pinned(path@),
            final(self).entries() == match entry_index(old(self).entries(), path@) {
                Some(at) => Self::touched(old(self).entries(), at, now),
                None => (if old(self).entries().len() == old(self).capacity() {
                    old(self).entries().drop_first()
                } else {
                    old(self).entries()
                }).push(
                    PinnedFileView { path: path@, reason, pinned_at: now, last_accessed: now },
                ),
            },
    {
        if self.find(&path).is_some() {
            self.touch(&path, now);
            return false;
        }
        while self.files.len() >= self.max_files
            invariant
                self.max_files == old(self).max_files,
                self.max_files >= 1,
                self.files@.len() <= self.max_files,
                self.entries() == if old(self).entries().len() == old(self).capacity()
                    && self.files@.len() < old(self).files@.len() {
                    old(self).entries().drop_first()
                } else {
                    old(self).entries()
                },
                self.files@.len() < old(self).files@.len() ==> old(self).entries().len() == old(
                    self,
                ).capacity(),
                self.files@.len() == old(self).files@.len() || self.files@.len() + 1 == old(
                    self,
                ).files@.len(),
            decreases self.files@.len(),
        {
            self.evict_oldest();
        }
        let ghost kept = self.entries();
        let pinned = PinnedFile::new(path, reason, now);
        self.files.push_back(pinned);
        proof {
            assert(self.entries() =~= kept.push(pinned@));
            let all = old(self).entries();
            assert forall|i: int, j: int|
                0 <= i < self.entries().len() && 0 <= j < self.entries().len() && i
                    != j implies self.entries()[i].path != self.entries()[j].path by {
                let shift = if kept.len() < all.len() {
                    1int
                } else {
                    0int
                };
                if i < kept.len() {
                    assert(kept[i] == all[i + shift]);
                }
                if j < kept.len() {
                    assert(kept[j] == all[j + shift]);
                }
            }
        }
        true
    }

    /// Unpin the file with canonical path `path`. Returns whether it was
    /// pinned.
    pub fn unpin(&mut self, path: &String) -> (removed: bool)
        requires
            old(self).well_formed(),
        ensures
            final(self).well_formed(),
            final(self).capacity() == old(self).capacity(),
            removed == old(self).pinned(path@),
            final(self).entries() == match entry_index(old(self).entries(), path@) {
                Some(at) => old(self).entries().remove(at),
                None => old(self).entries(),
            },
            !final(self).pinned(path@),
    {
        match self.find(path) {
            Some(at) => {
                self.files.remove(at);
                proof {
                    let all = old(self).entries();
                    assert(self.entries() =~= all.remove(at as int));
                    assert forall|k: int| 0 <= k < self.entries().len() implies self.entries()[k]
                        == all[if k < at {
                        k
                    } else {
                        k + 1
                    }] by {}
                }
                true
            },
            None => false,
        }
    }

    /// Pin the file where it is not pinned, unpin it where it is. Returns
    /// whether the file is pinned afterwards.
    pub fn toggle(&mut self, path: String, now: u64) -> (now_pinned: bool)
        requires
            old(self).well_formed(),
        ensures
            final(self).well_formed(),
            final(self).capacity() == old(self).capacity(),
            now_pinned == !old(self).pinned(path@),
            final(self).entries() == match entry_index(old(self).entries(), path@) {
                Some(at) => old(self).entries().remove(at),
                None => (if old(self).entries().len() == old(self).capacity() {
                    old(self).entries().drop_first()
                } else {
                    old(self).entries()
                }).push(
                    PinnedFileView {
                        path: path@,
                        reason: PinReason::Manual,
                        pinned_at: now,
                        last_accessed: now,
                    },
                ),
            },
    {
        if self.find(&path).is_some() {
            self.unpin(&path);
            false
        } else {
            self.pin(path, PinReason::Manual, now);
            true
        }
    }

    /// Whether the file with canonical path `path` is pinned.
    pub fn is_pinned(&self, path: &String) -> (pinned: bool)
        requires
            self.well_formed(),
        ensures
            pinned == self.pinned(path@),
    {
        self.find(path).is_some()
    }

    /// The entry of the file with canonical path `path`.
    pub fn get(&self, path: &String) -> (res: Option<&PinnedFile>)
        requires
            self.well_formed(),
        ensures
            match res {
                Some(file) => entry_index(self.entries(), path@) matches Some(at)
                    && self.entries()[at] == file@,
                None => !self.pinned(path@),
            },
    {
        match self.find(path) {
            Some(at) => Some(&self.files[at]),
            None => None,
        }
    }

    /// Record an access to the file with canonical path `path` at the time
    /// `now`: the file becomes the most recently used. Nothing changes
    /// where the file is not pinned.
    pub fn touch(&mut self, path: &String, now: u64)
        requires
            old(self).well_formed(),
        ensures
            final(self).well_formed(),
            final(self).capacity() == old(self).capacity(),
            final(self).entries() == match entry_index(old(self).entries(), path@) {
                Some(at) => Self::touched(old(self).entries(), at, now),
                None => old(self).entries(),
            },
    {
        match self.find(path) {
            Some(at) => {
                let mut pinned = match self.files.remove(at) {
                    Some(pinned) => pinned,
                    None => vstd::pervasive::unreached(),
                };
                pinned.touch(now);
                self.files.push_back(pinned);
                proof {
                    let all = old(self).entries();
                    assert(self.entries() =~= Self::touched(all, at as int, now));
                    assert forall|i: int, j: int|
                        0 <= i < self.entries().len() && 0 <= j < self.entries().len() && i
                            != j implies self.entries()[i].path != self.entries()[j].path by {
                        let from = |k: int|
                            if k == all.len() - 1 {
                                at as int
                            } else if k < at {
                                k
                            } else {
                                k + 1
                            };
                        assert(self.entries()[i].path == all[from(i)].path);
                        assert(self.entries()[j].path == all[from(j)].path);
                    }
                }
            },
            None => {},
        }
    }

    /// Drops the least recently used entry.
    fn evict_oldest(&mut self)
        ensures
            final(self).max_files == old(self).max_files,
            final(self).entries() == if old(self).entries().len() > 0 {
                old(self).entries().drop_first()
            } else {
                old(self).entries()
            },
            final(self).files@.len() == if old(self).files@.len() > 0 {
                old(self).files@.len() - 1
            } else {
                0
            },
    {
        if self.files.len() > 0 {
            self.files.pop_front();
            assert(self.entries() =~= old(self).entries().drop_first());
        }
    }

    /// The pinned files, the least recently used first.
    pub fn iter(&self) -> (files: &VecDeque<PinnedFile>)
        ensures
            files@.map_values(|f: PinnedFile| f@) == self.entries(),
    {
        &self.files
    }

    /// Number of pinned files.
    pub fn len(&self) -> (n: usize)
        ensures
            n == self.entries().len(),
    {
        self.files.len()
    }

    /// Whether no file is pinned.
    pub fn is_empty(&self) -> (empty: bool)
        ensures
            empty == (self.entries().len() == 0),
    {
        self.files.len() == 0
    }

    /// The paths of the pinned files, the least recently used first.
    pub fn paths(&self) -> (paths: Vec<String>)
        ensures
            paths@.len() == self.entries().len(),
            forall|i: int| 0 <= i < paths@.len() ==> (#[trigger] paths@[i])@ == self.entries()[i].path,
    {
        let mut paths: Vec<String> = Vec::new();
        let mut i: usize = 0;
        while i < self.files.len()
            invariant
                i <= self.files@.len(),
                paths@.len() == i,
                forall|k: int| 0 <= k < i ==> (#[trigger] paths@[k])@ == self.entries()[k].path,
            decreases self.files@.len() - i,
        {
            paths.push(self.files[i].path.clone());
            i += 1;
        }
        paths
    }

    /// Unpin every file.
    pub fn clear(&mut self)
        ensures
            final(self).capacity() == old(self).capacity(),
            final(self).entries() == Seq::<PinnedFileView>::empty(),
            old(self).capacity() >= 1 ==> final(self).well_formed(),
    {
        self.files.clear();
        assert(self.entries() =~= Seq::<PinnedFileView>::empty());
    }
}

impl Default for PinnedFiles {
    fn default() -> (files: Self)
        ensures
            files.well_formed(),
            files.entries() == Seq::<PinnedFileView>::empty(),
            files.capacity() == 50,
    {
        Self::new(50)
    }
}

/// A list of entries whose last is for `path` holds an entry for it.
pub proof fn lemma_last_is_pinned(entries: Seq<PinnedFileView>, path: Seq<char>)
    requires
        entries.len() > 0,
        entries.last().path == path,
    ensures
        entry_index(entries, path) is Some,
{
    assert(entries[entries.len() - 1].path == path);
}

} // verus!
