//! Git status of files and of the repository, for display in the sidebar.

use vstd::prelude::*;

verus! {

/// Git status for a single file.
#[derive(Debug, Clone, Copy, PartialEq, Eq, Structural)]
pub enum FileGitStatus {
    Clean,
    Modified,
    Staged,
    StagedModified,
    Untracked,
    Deleted,
    Renamed,
    Conflicted,
    Ignored,
}

/// The status flags that git reports for one file, each as a plain value.
#[derive(Debug, Clone, Copy, PartialEq, Eq, Structural)]
pub struct StatusFlags {
    pub index_new: bool,
    pub index_modified: bool,
    pub index_deleted: bool,
    pub index_renamed: bool,
    pub wt_new: bool,
    pub wt_modified: bool,
    pub wt_deleted: bool,
    pub conflicted: bool,
    pub ignored: bool,
}

impl FileGitStatus {
    /// The display character of each status.
    pub open spec fn indicator_text(self) -> Seq<char> {
        match self {
            FileGitStatus::Clean => " "@,
            FileGitStatus::Modified => "M"@,
            FileGitStatus::Staged => "A"@,
            FileGitStatus::StagedModified => "M"@,
            FileGitStatus::Untracked => "U"@,
            FileGitStatus::Deleted => "D"@,
            FileGitStatus::Renamed => "R"@,
            FileGitStatus::Conflicted => "!"@,
            FileGitStatus::Ignored => " "@,
        }
    }

    /// The theme color key of each status.
    pub open spec fn color_key_text(self) -> Seq<char> {
        match self {
            FileGitStatus::Clean => "text_dim"@,
            FileGitStatus::Modified => "yellow"@,
            FileGitStatus::Staged => "green"@,
            FileGitStatus::StagedModified => "yellow"@,
            FileGitStatus::Untracked => "secondary"@,
            FileGitStatus::Deleted => "red"@,
            FileGitStatus::Renamed => "cyan"@,
            FileGitStatus::Conflicted => "red"@,
            FileGitStatus::Ignored => "text_dim"@,
        }
    }

    /// The status that a set of flags stands for. A conflict outranks
    /// everything; then come ignored, renamed, staged (with or without a
    /// change in the working tree), deleted, untracked, modified.
    pub open spec fn of_flags(flags: StatusFlags) -> FileGitStatus {
        if flags.conflicted {
            FileGitStatus::Conflicted
        } else if flags.ignored {
            FileGitStatus::Ignored
        } else if flags.index_renamed {
            FileGitStatus::Renamed
        } else if (flags.index_new || flags.index_modified) && flags.wt_modified {
            FileGitStatus::StagedModified
        } else if flags.index_new || flags.index_modified {
            FileGitStatus::Staged
        } else if flags.index_deleted || flags.wt_deleted {
            FileGitStatus::Deleted
        } else if flags.wt_new {
            FileGitStatus::Untracked
        } else if flags.wt_modified {
            FileGitStatus::Modified
        } else {
            FileGitStatus::Clean
        }
    }

    /// Get display character for this status.
    pub fn indicator(&self) -> (text: &'static str)
        ensures
            text@ == self.indicator_text(),
    {
        match self {
            FileGitStatus::Clean => " ",
            FileGitStatus::Modified => "M",
            FileGitStatus::Staged => "A",
            FileGitStatus::StagedModified => "M",
            FileGitStatus::Untracked => "U",
            FileGitStatus::Deleted => "D",
            FileGitStatus::Renamed => "R",
            FileGitStatus::Conflicted => "!",
            FileGitStatus::Ignored => " ",
        }
    }

    /// Get color key for theme integration.
    pub fn color_key(&self) -> (text: &'static str)
        ensures
            text@ == self.color_key_text(),
    {
        match self {
            FileGitStatus::Clean => "text_dim",
            FileGitStatus::Modified => "yellow",
            FileGitStatus::Staged => "green",
            FileGitStatus::StagedModified => "yellow",
            FileGitStatus::Untracked => "secondary",
            FileGitStatus::Deleted => "red",
            FileGitStatus::Renamed => "cyan",
            FileGitStatus::Conflicted => "red",
            FileGitStatus::Ignored => "text_dim",
        }
    }

    /// Convert from git status flags.
    pub fn from_status_flags(flags: StatusFlags) -> (status: FileGitStatus)
        ensures
            status == FileGitStatus::of_flags(flags),
    {
        let staged_new = flags.index_new;
        let staged_modified = flags.index_modified;
        let staged_deleted = flags.index_deleted;
        let staged_renamed = flags.index_renamed;
        let wt_new = flags.wt_new;
        let wt_modified = flags.wt_modified;
        let wt_deleted = flags.wt_deleted;
        if flags.conflicted {
            FileGitStatus::Conflicted
        } else if flags.ignored {
            FileGitStatus::Ignored
        } else if staged_renamed {
            FileGitStatus::Renamed
        } else if (staged_new || staged_modified) && wt_modified {
            FileGitStatus::StagedModified
        } else if staged_new || staged_modified {
            FileGitStatus::Staged
        } else if staged_deleted || wt_deleted {
            FileGitStatus::Deleted
        } else if wt_new {
            FileGitStatus::Untracked
        } else if wt_modified {
            FileGitStatus::Modified
        } else {
            FileGitStatus::Clean
        }
    }
}

/// Repository status summary.
#[derive(Debug, Clone)]
pub struct RepoStatus {
    pub root: String,
    pub branch: String,
    pub modified_count: usize,
    pub staged_count: usize,
    pub untracked_count: usize,
    pub is_dirty: bool,
    pub ahead: usize,
    pub behind: usize,
}

/// What is known of the head of a repository.
#[derive(Debug, Clone)]
pub struct HeadInfo {
    /// Whether the head is a branch.
    pub is_branch: bool,
    /// Short name of the head, if it has one.
    pub shorthand: Option<String>,
    /// The first seven hex digits of the commit that the head points to,
    /// if it points to one.
    pub target_short: Option<String>,
}

/// The name shown for the head: the short name of a branch, the short
/// commit id of a detached head, `HEAD` where either is missing or the
/// repository has no head.
pub open spec fn branch_name_text(head: Option<HeadInfo>) -> Seq<char> {
    match head {
        Some(info) => {
            let name = if info.is_branch {
                info.shorthand
            } else {
                info.target_short
            };
            match name {
                Some(text) => text@,
                None => "HEAD"@,
            }
        },
        None => "HEAD"@,
    }
}

/// The name shown for the head of a repository.
pub fn branch_name(head: Option<HeadInfo>) -> (name: String)
    ensures
        name@ == branch_name_text(head),
{
    match head {
        Some(info) => {
            let name = if info.is_branch {
                info.shorthand
            } else {
                info.target_short
            };
            match name {
                Some(text) => text,
                None => "HEAD".to_owned(),
            }
        },
        None => "HEAD".to_owned(),
    }
}

/// How many files of a list have a status that counts as modified, as
/// staged, as untracked.
#[derive(Debug, Clone, Copy, PartialEq, Eq, Structural)]
pub struct StatusCounts {
    pub modified: usize,
    pub staged: usize,
    pub untracked: usize,
}

/// Number of statuses among the first `upto` that `counts` holds true of.
pub open spec fn count_where(
    statuses: Seq<FileGitStatus>,
    counts: spec_fn(FileGitStatus) -> bool,
    upto: int,
) -> nat
    decreases upto,
{
    if upto <= 0 {
        0
    } else {
        count_where(statuses, counts, upto - 1) + if counts(statuses[upto - 1]) {
            1nat
        } else {
            0nat
        }
    }
}

/// A modified file: changed in the working tree, staged or not.
pub open spec fn is_modified(status: FileGitStatus) -> bool {
    status is Modified || status is StagedModified
}

/// The counts of a list of statuses.
pub open spec fn counts_of(statuses: Seq<FileGitStatus>) -> StatusCounts {
    StatusCounts {
        modified: count_where(statuses, |s: FileGitStatus| is_modified(s), statuses.len() as int)
            as usize,
        staged: count_where(statuses, |s: FileGitStatus| s is Staged, statuses.len() as int)
            as usize,
        untracked: count_where(statuses, |s: FileGitStatus| s is Untracked, statuses.len() as int)
            as usize,
    }
}

/// A count is at most the number of statuses counted over.
pub proof fn lemma_count_where(
    statuses: Seq<FileGitStatus>,
    counts: spec_fn(FileGitStatus) -> bool,
    upto: int,
)
    requires
        0 <= upto,
    ensures
        count_where(statuses, counts, upto) <= upto,
    decreases upto,
{
    if upto > 0 {
        lemma_count_where(statuses, counts, upto - 1);
    }
}

/// Count the files that are modified, staged, untracked.
pub fn count_statuses(statuses: &Vec<FileGitStatus>) -> (counts: StatusCounts)
    ensures
        counts == counts_of(statuses@),
{
    let mut modified: usize = 0;
    let mut staged: usize = 0;
    let mut untracked: usize = 0;
    let mut i: usize = 0;
    while i < statuses.len()
        invariant
            i <= statuses@.len(),
            modified == count_where(statuses@, |s: FileGitStatus| is_modified(s), i as int),
            staged == count_where(statuses@, |s: FileGitStatus| s is Staged, i as int),
            untracked == count_where(statuses@, |s: FileGitStatus| s is Untracked, i as int),
        decreases statuses@.len() - i,
    {
        proof {
            lemma_count_where(statuses@, |s: FileGitStatus| is_modified(s), i as int);
            lemma_count_where(statuses@, |s: FileGitStatus| s is Staged, i as int);
            lemma_count_where(statuses@, |s: FileGitStatus| s is Untracked, i as int);
        }
        match statuses[i] {
            FileGitStatus::Modified | FileGitStatus::StagedModified => {
                modified += 1;
            },
            FileGitStatus::Staged => {
                staged += 1;
            },
            FileGitStatus::Untracked => {
                untracked += 1;
            },
            _ => {},
        }
        i += 1;
    }
    StatusCounts { modified, staged, untracked }
}

/// What a look at the repository gave: the flags of each file that git
/// reports, by its path relative to the root, the head, and how far the
/// branch is ahead of and behind its upstream.
pub struct StatusReport {
    pub entries: Vec<(String, StatusFlags)>,
    pub head: Option<HeadInfo>,
    pub ahead: usize,
    pub behind: usize,
}

/// The statuses by path that a list of reported flags gives, a later
/// entry for a path replacing an earlier.
pub open spec fn statuses_of(entries: Seq<(String, StatusFlags)>, upto: int) -> Map<
    Seq<char>,
    FileGitStatus,
>
    decreases upto,
{
    if upto <= 0 {
        Map::empty()
    } else {
        statuses_of(entries, upto - 1).insert(
            entries[upto - 1].0@,
            FileGitStatus::of_flags(entries[upto - 1].1),
        )
    }
}

/// The status of each reported entry, in the order of the report.
pub open spec fn reported_statuses(entries: Seq<(String, StatusFlags)>) -> Seq<FileGitStatus> {
    entries.map_values(|e: (String, StatusFlags)| FileGitStatus::of_flags(e.1))
}

/// What is left of a path when the base is taken from its front, as
/// `std::path::Path::strip_prefix` gives it for the path syntax of the
/// platform; `None` where the base is no prefix of the path.
pub uninterp spec fn stripped_prefix(path: Seq<char>, base: Seq<char>) -> Option<Seq<char>>;

/// Calls `std::path::Path::strip_prefix` on the path and hands the rest
/// back as a string. The contract gives the result its name,
/// `stripped_prefix`.
#[verifier::external_body]
fn path_strip_prefix(path: &String, base: &String) -> (rest: Option<String>)
    ensures
        match rest {
            Some(r) => stripped_prefix(path@, base@) == Some(r@),
            None => stripped_prefix(path@, base@) is None,
        },
{
    match std::path::Path::new(path).strip_prefix(base) {
        Ok(rest) => match rest.to_str() {
            Some(text) => Some(text.to_string()),
            None => None,
        },
        Err(_) => None,
    }
}

/// Cache for git status.
pub struct GitStatusCache {
    in_repo: bool,
    repo_root: Option<String>,
    file_statuses: Vec<(String, FileGitStatus)>,
    repo_status: Option<RepoStatus>,
    last_refresh: u64,
    refresh_interval: u64,
    dirty: bool,
}

/// The statuses that a list of pairs holds by path, a later pair for a
/// path outranking an earlier.
pub open spec fn as_map(pairs: Seq<(String, FileGitStatus)>, upto: int) -> Map<
    Seq<char>,
    FileGitStatus,
>
    decreases upto,
{
    if upto <= 0 {
        Map::empty()
    } else {
        as_map(pairs, upto - 1).insert(pairs[upto - 1].0@, pairs[upto - 1].1)
    }
}

impl GitStatusCache {
    /// Whether a repository is known.
    pub closed spec fn has_repo(&self) -> bool {
        self.in_repo
    }

    /// The root of the repository, if one is known.
    pub closed spec fn root(&self) -> Option<String> {
        self.repo_root
    }

    /// The status of each file that the cache holds, by its path relative
    /// to the root.
    pub closed spec fn statuses(&self) -> Map<Seq<char>, FileGitStatus> {
        as_map(self.file_statuses@, self.file_statuses@.len() as int)
    }

    /// The summary of the repository, if one was made.
    pub closed spec fn summary(&self) -> Option<RepoStatus> {
        self.repo_status
    }

    /// Whether the cache was marked as out of date.
    pub closed spec fn is_dirty(&self) -> bool {
        self.dirty
    }

    /// Time of the last refresh, in milliseconds on the caller's clock.
    pub closed spec fn refreshed_at(&self) -> u64 {
        self.last_refresh
    }

    /// Time after which the cache counts as out of date, in milliseconds.
    pub closed spec fn interval(&self) -> u64 {
        self.refresh_interval
    }

    /// Whether a refresh is due at the time `now`: the cache is marked as
    /// out of date, or the interval has passed since the last refresh.
    pub open spec fn refresh_due(&self, now: u64) -> bool {
        self.is_dirty() || (now >= self.refreshed_at() && now - self.refreshed_at()
            >= self.interval())
    }

    /// An empty cache without a repository, out of date from the start.
    pub fn new(refresh_interval: u64, now: u64) -> (cache: Self)
        ensures
            !cache.has_repo(),
            cache.root() is None,
            cache.statuses() == Map::<Seq<char>, FileGitStatus>::empty(),
            cache.summary() is None,
            cache.is_dirty(),
            cache.interval() == refresh_interval,
            cache.refreshed_at() == if now >= refresh_interval {
                (now - refresh_interval) as u64
            } else {
                0
            },
    {
        GitStatusCache {
            in_repo: false,
            repo_root: None,
            file_statuses: Vec::new(),
            repo_status: None,
            last_refresh: if now >= refresh_interval {
                now - refresh_interval
            } else {
                0
            },
            refresh_interval,
            dirty: true,
        }
    }

    /// What `set_root` makes of a cache: `after` is the cache afterwards,
    /// `replaced` what the call returns.
    pub open spec fn after_set_root(
        &self,
        after: GitStatusCache,
        found: Option<String>,
        replaced: bool,
    ) -> bool {
        &&& after.interval() == self.interval()
        &&& after.refreshed_at() == self.refreshed_at()
        &&& match found {
            Some(root) => {
                &&& replaced == !(self.root() matches Some(known) && known@ == root@)
                &&& after.statuses() == self.statuses()
                &&& after.summary() == self.summary()
                &&& replaced ==> after.has_repo() && after.root() == Some(root) && after.is_dirty()
                &&& !replaced ==> after.has_repo() == self.has_repo() && after.root()
                    == self.root() && after.is_dirty() == self.is_dirty()
            },
            None => {
                &&& !replaced
                &&& !after.has_repo()
                &&& after.root() is None
                &&& after.statuses() == Map::<Seq<char>, FileGitStatus>::empty()
                &&& after.summary() is None
                &&& after.is_dirty() == self.is_dirty()
            },
        }
    }

    /// Take note of what the search for a repository gave: the root of the
    /// repository found, or `None`. A root other than the known one
    /// replaces it and marks the cache as out of date; returns whether it
    /// did, so that the caller keeps the handle of the new repository.
    /// Where none was found, the cache forgets the repository and all that
    /// it held of it.
    pub fn set_root(&mut self, found: Option<String>) -> (replaced: bool)
        ensures
            old(self).after_set_root(*final(self), found, replaced),
    {
        match found {
            Some(root) => {
                let same = match &self.repo_root {
                    Some(known) => *known == root,
                    None => false,
                };
                if !same {
                    self.repo_root = Some(root);
                    self.in_repo = true;
                    self.dirty = true;
                    true
                } else {
                    false
                }
            },
            None => {
                self.in_repo = false;
                self.repo_root = None;
                self.file_statuses.clear();
                self.repo_status = None;
                false
            },
        }
    }

    /// Mark the cache as out of date.
    pub fn mark_dirty(&mut self)
        ensures
            final(self).is_dirty(),
            final(self).has_repo() == old(self).has_repo(),
            final(self).root() == old(self).root(),
            final(self).statuses() == old(self).statuses(),
            final(self).summary() == old(self).summary(),
            final(self).refreshed_at() == old(self).refreshed_at(),
            final(self).interval() == old(self).interval(),
    {
        self.dirty = true;
    }

    /// Whether a refresh is due at the time `now`.
    pub fn needs_refresh(&self, now: u64) -> (due: bool)
        ensures
            due == self.refresh_due(now),
    {
        self.dirty || (now >= self.last_refresh && now - self.last_refresh >= self.refresh_interval)
    }

    /// What `refresh` makes of a cache: `after` is the cache afterwards.
    pub open spec fn after_refresh(
        &self,
        after: GitStatusCache,
        now: u64,
        report: Option<StatusReport>,
    ) -> bool {
        &&& after.has_repo() == self.has_repo()
        &&& after.root() == self.root()
        &&& after.interval() == self.interval()
        &&& !self.has_repo() ==> {
            &&& after.statuses() == self.statuses()
            &&& after.summary() == self.summary()
            &&& after.is_dirty() == self.is_dirty()
            &&& after.refreshed_at() == self.refreshed_at()
        }
        &&& self.has_repo() ==> {
            &&& !after.is_dirty()
            &&& after.refreshed_at() == now
            &&& match report {
                Some(r) => {
                    &&& after.statuses() == statuses_of(r.entries@, r.entries@.len() as int)
                    &&& after.summary() matches Some(summary)
                    &&& summary.root@ == (match self.root() {
                        Some(root) => root@,
                        None => Seq::<char>::empty(),
                    })
                    &&& summary.branch@ == branch_name_text(r.head)
                    &&& summary.modified_count == counts_of(reported_statuses(r.entries@)).modified
                    &&& summary.staged_count == counts_of(reported_statuses(r.entries@)).staged
                    &&& summary.untracked_count == counts_of(
                        reported_statuses(r.entries@),
                    ).untracked
                    &&& summary.is_dirty == (summary.modified_count > 0 || summary.staged_count
                        > 0)
                    &&& summary.ahead == r.ahead
                    &&& summary.behind == r.behind
                },
                None => {
                    &&& after.statuses() == Map::<Seq<char>, FileGitStatus>::empty()
                    &&& after.summary() == self.summary()
                },
            }
        }
    }

    /// Take in what a look at the repository gave at the time `now`, or
    /// that the look failed. Nothing happens where no repository is known.
    /// Else the cache is up to date as of `now` and holds the status of
    /// each reported file, and a summary of the report; after a look that
    /// failed it holds no status, and the summary that it had.
    pub fn refresh(&mut self, now: u64, report: Option<StatusReport>)
        ensures
            old(self).after_refresh(*final(self), now, report),
    {
        if !self.in_repo {
            return ;
        }
        self.file_statuses.clear();
        self.dirty = false;
        self.last_refresh = now;
        let report = match report {
            Some(report) => report,
            None => {
                return ;
            },
        };
        let StatusReport { entries, head, ahead, behind } = report;
        let mut statuses: Vec<FileGitStatus> = Vec::new();
        let mut i: usize = 0;
        while i < entries.len()
            invariant
                i <= entries@.len(),
                self.file_statuses@.len() == i,
                self.statuses() == statuses_of(entries@, i as int),
                statuses@ == reported_statuses(entries@.take(i as int)),
                self.in_repo == old(self).in_repo,
                self.repo_root == old(self).repo_root,
                self.repo_status == old(self).repo_status,
                self.last_refresh == now,
                self.refresh_interval == old(self).refresh_interval,
                !self.dirty,
            decreases entries@.len() - i,
        {
            let status = FileGitStatus::from_status_flags(entries[i].1);
            statuses.push(status);
            let ghost held = self.file_statuses@;
            self.file_statuses.push((entries[i].0.clone(), status));
            proof {
                assert(statuses@ =~= reported_statuses(entries@.take(i + 1)));
                lemma_as_map_push(self.file_statuses@, i as int);
                assert(self.file_statuses@.take(i as int) =~= held);
            }
            i += 1;
        }
        proof {
            assert(entries@.take(i as int) =~= entries@);
        }
        let counts = count_statuses(&statuses);
        let root = match &self.repo_root {
            Some(root) => root.clone(),
            None => String::new(),
        };
        self.repo_status = Some(
            RepoStatus {
                root,
                branch: branch_name(head),
                modified_count: counts.modified,
                staged_count: counts.staged,
                untracked_count: counts.untracked,
                is_dirty: counts.modified > 0 || counts.staged > 0,
                ahead,
                behind,
            },
        );
    }

    /// The status of the file with the given path relative to the root of
    /// the repository; clean where the cache holds none for it.
    pub fn get_file_status(&self, relative_path: &String) -> (status: FileGitStatus)
        ensures
            status == if self.statuses().dom().contains(relative_path@) {
                self.statuses()[relative_path@]
            } else {
                FileGitStatus::Clean
            },
    {
        let pairs = &self.file_statuses;
        let mut i: usize = pairs.len();
        while i > 0
            invariant
                i <= pairs@.len(),
                pairs@ == self.file_statuses@,
                as_map(pairs@, pairs@.len() as int).dom().contains(relative_path@) == as_map(
                    pairs@,
                    i as int,
                ).dom().contains(relative_path@),
                as_map(pairs@, i as int).dom().contains(relative_path@) ==> as_map(
                    pairs@,
                    pairs@.len() as int,
                )[relative_path@] == as_map(pairs@, i as int)[relative_path@],
            decreases i,
        {
            i -= 1;
            if pairs[i].0 == *relative_path {
                return pairs[i].1;
            }
        }
        FileGitStatus::Clean
    }

    /// The status that the cache holds for a path relative to the root;
    /// clean where it holds none.
    pub open spec fn status_at(&self, relative: Seq<char>) -> FileGitStatus {
        if self.statuses().dom().contains(relative) {
            self.statuses()[relative]
        } else {
            FileGitStatus::Clean
        }
    }

    /// The status of a file from what is left of its path when the root of
    /// the repository is taken from its front: that which the cache holds
    /// for the rest; clean for a file that does not lie under the root, so
    /// that nothing is left.
    pub fn status_of_relative(&self, relative: Option<String>) -> (status: FileGitStatus)
        ensures
            status == match relative {
                Some(rest) => self.status_at(rest@),
                None => FileGitStatus::Clean,
            },
    {
        match relative {
            Some(rest) => self.get_file_status(&rest),
            None => FileGitStatus::Clean,
        }
    }

    /// The status of the file with the given absolute path: that of its
    /// path relative to the root of the repository; clean where no
    /// repository is known or the file does not lie under its root.
    pub fn get_status_for_absolute(&self, path: &String) -> (status: FileGitStatus)
        ensures
            status == match self.root() {
                Some(root) => match stripped_prefix(path@, root@) {
                    Some(rest) => self.status_at(rest),
                    None => FileGitStatus::Clean,
                },
                None => FileGitStatus::Clean,
            },
    {
        match &self.repo_root {
            Some(root) => self.status_of_relative(path_strip_prefix(path, root)),
            None => FileGitStatus::Clean,
        }
    }

    /// The summary of the repository, if one was made.
    pub fn repo_status(&self) -> (status: Option<&RepoStatus>)
        ensures
            match status {
                Some(s) => self.summary() == Some(*s),
                None => self.summary() is None,
            },
    {
        self.repo_status.as_ref()
    }

    /// Whether a repository is known.
    pub fn is_in_repo(&self) -> (known: bool)
        ensures
            known == self.has_repo(),
    {
        self.in_repo
    }

    /// The root of the repository, if one is known.
    pub fn repo_root(&self) -> (root: Option<&String>)
        ensures
            match root {
                Some(r) => self.root() == Some(*r),
                None => self.root() is None,
            },
    {
        self.repo_root.as_ref()
    }
}

/// The map of a list of pairs whose last pair was just added: that of
/// the pairs before it, with the last pair's status for its path.
pub proof fn lemma_as_map_push(pairs: Seq<(String, FileGitStatus)>, before: int)
    requires
        0 <= before,
        pairs.len() == before + 1,
    ensures
        as_map(pairs, pairs.len() as int) == as_map(pairs.take(before), before).insert(
            pairs[before].0@,
            pairs[before].1,
        ),
{
    lemma_as_map_take(pairs, before, before);
}

/// The map of the first pairs of a list does not depend on the pairs
/// after them.
pub proof fn lemma_as_map_take(pairs: Seq<(String, FileGitStatus)>, len: int, upto: int)
    requires
        0 <= upto <= len <= pairs.len(),
    ensures
        as_map(pairs.take(len), upto) == as_map(pairs, upto),
    decreases upto,
{
    if upto > 0 {
        lemma_as_map_take(pairs, len, upto - 1);
    }
}

} // verus!
