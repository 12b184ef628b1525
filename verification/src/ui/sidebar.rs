//! The file tree of the sidebar: its entries, and how the list changes
//! when directories are expanded and collapsed.

use crate::context::git::FileGitStatus;
use crate::layout::PaneId;
use vstd::prelude::*;

verus! {

/// Prefix of an entry that has later siblings.
pub const TREE_BRANCH: &'static str = "├──";

/// Prefix of the last entry at its level.
pub const TREE_LAST: &'static str = "└──";

/// Prefix part for each level above the entry's parent.
pub const TREE_PIPE: &'static str = "│  ";

/// File/directory entry for sidebar.
#[derive(Debug, Clone)]
pub struct FileEntry {
    pub name: String,
    pub path: String,
    pub is_dir: bool,
    pub is_expanded: bool,
    pub depth: usize,
    /// Is this the last item at this level?
    pub is_last: bool,
    /// Git status for this file.
    pub git_status: Option<FileGitStatus>,
    /// Whether this file is pinned.
    pub is_pinned: bool,
}

impl FileEntry {
    pub fn new(name: String, path: String, is_dir: bool, depth: usize) -> (entry: Self)
        ensures
            entry == (FileEntry {
                name,
                path,
                is_dir,
                is_expanded: false,
                depth,
                is_last: false,
                git_status: None,
                is_pinned: false,
            }),
    {
        FileEntry {
            name,
            path,
            is_dir,
            is_expanded: false,
            depth,
            is_last: false,
            git_status: None,
            is_pinned: false,
        }
    }
}

/// Response from sidebar interaction.
#[derive(Debug)]
pub struct SidebarResponse {
    /// Item was selected (single click).
    pub selected: Option<usize>,
    /// File was opened (double click).
    pub opened_file: Option<usize>,
    /// Directory expand/collapse toggled.
    pub toggled_dir: Option<usize>,
    /// Pane mini-tab was clicked (focus that pane).
    pub pane_clicked: Option<PaneId>,
    /// File pin toggled.
    pub toggle_pin: Option<usize>,
    /// Collapse all directories requested.
    pub collapse_all: bool,
    /// Expand all directories requested.
    pub expand_all: bool,
}

impl Default for SidebarResponse {
    fn default() -> (response: Self)
        ensures
            response.selected is None,
            response.opened_file is None,
            response.toggled_dir is None,
            response.pane_clicked is None,
            response.toggle_pin is None,
            !response.collapse_all,
            !response.expand_all,
    {
        SidebarResponse {
            selected: None,
            opened_file: None,
            toggled_dir: None,
            pane_clicked: None,
            toggle_pin: None,
            collapse_all: false,
            expand_all: false,
        }
    }
}

/// `count` pipes in a row.
pub open spec fn pipes(count: nat) -> Seq<char>
    decreases count,
{
    if count == 0 {
        Seq::empty()
    } else {
        pipes((count - 1) as nat) + TREE_PIPE@
    }
}

/// The tree-style prefix of an entry: nothing at the top level; below it,
/// one pipe for each level above the entry's parent, then the mark of a
/// last or of another entry.
pub open spec fn tree_prefix(depth: usize, is_last: bool) -> Seq<char> {
    if depth == 0 {
        Seq::empty()
    } else {
        pipes((depth - 1) as nat) + if is_last {
            TREE_LAST@
        } else {
            TREE_BRANCH@
        }
    }
}

/// Build tree-style prefix for entry.
pub fn build_tree_prefix(entry: &FileEntry) -> (prefix: String)
    ensures
        prefix@ == tree_prefix(entry.depth, entry.is_last),
{
    if entry.depth == 0 {
        return String::new();
    }
    let mut prefix = String::new();
    let levels: usize = entry.depth - 1;
    let mut i: usize = 0;
    while i < levels
        invariant
            i <= levels,
            prefix@ == pipes(i as nat),
        decreases levels - i,
    {
        prefix.push_str(TREE_PIPE);
        i += 1;
    }
    if entry.is_last {
        prefix.push_str(TREE_LAST);
    } else {
        prefix.push_str(TREE_BRANCH);
    }
    prefix
}

/// Number of entries from `from` on that lie deeper than `depth`, up to the
/// first that does not: the entries below a directory of that depth that
/// stands just before `from`.
pub open spec fn run_below(entries: Seq<FileEntry>, from: int, depth: usize) -> nat
    decreases entries.len() - from,
{
    if 0 <= from < entries.len() && entries[from].depth > depth {
        1 + run_below(entries, from + 1, depth)
    } else {
        0
    }
}

/// The run below a directory ends within the list.
pub proof fn lemma_run_below(entries: Seq<FileEntry>, from: int, depth: usize)
    requires
        0 <= from <= entries.len(),
    ensures
        from + run_below(entries, from, depth) <= entries.len(),
    decreases entries.len() - from,
{
    if from < entries.len() && entries[from].depth > depth {
        lemma_run_below(entries, from + 1, depth);
    }
}

/// What a click on a directory asks for.
#[derive(Debug, Clone, Copy, PartialEq, Eq, Structural)]
pub enum ToggleOutcome {
    /// There is no directory at the index; nothing changed.
    Ignored,
    /// The directory was collapsed and the entries below it removed.
    Collapsed,
    /// The directory was expanded; its children are to be loaded and
    /// inserted after it.
    Expanded,
}

/// Toggle directory expansion. A directory that was expanded is
/// collapsed, and the entries below it leave the list. One that was
/// collapsed is marked expanded; its children are then to be inserted with
/// `insert_children`.
pub fn toggle_directory(entries: &mut Vec<FileEntry>, idx: usize) -> (outcome: ToggleOutcome)
    ensures
        outcome == if idx < old(entries)@.len() && old(entries)@[idx as int].is_dir {
            if old(entries)@[idx as int].is_expanded {
                ToggleOutcome::Collapsed
            } else {
                ToggleOutcome::Expanded
            }
        } else {
            ToggleOutcome::Ignored
        },
        outcome is Ignored ==> final(entries)@ == old(entries)@,
        outcome is Expanded ==> final(entries)@ == old(entries)@.update(
            idx as int,
            FileEntry { is_expanded: true, ..old(entries)@[idx as int] },
        ),
        outcome is Collapsed ==> final(entries)@ == old(entries)@.subrange(0, idx as int).push(
            FileEntry { is_expanded: false, ..old(entries)@[idx as int] },
        ) + old(entries)@.subrange(
            idx + 1 + run_below(old(entries)@, idx + 1, old(entries)@[idx as int].depth),
            old(entries)@.len() as int,
        ),
{
    if idx >= entries.len() {
        return ToggleOutcome::Ignored;
    }
    if !entries[idx].is_dir {
        return ToggleOutcome::Ignored;
    }
    if !entries[idx].is_expanded {
        entries[idx].is_expanded = true;
        assert(entries@ =~= old(entries)@.update(
            idx as int,
            FileEntry { is_expanded: true, ..old(entries)@[idx as int] },
        ));
        return ToggleOutcome::Expanded;
    }
    entries[idx].is_expanded = false;
    let depth = entries[idx].depth;
    let ghost all = old(entries)@;
    let ghost head = all.subrange(0, idx as int).push(
        FileEntry { is_expanded: false, ..all[idx as int] },
    );
    assert(entries@ =~= head + all.subrange(idx + 1, all.len() as int));
    let ghost mut removed: int = 0;
    proof {
        lemma_run_below(all, idx + 1, depth);
    }
    let next: usize = idx + 1;
    while next < entries.len() && entries[next].depth > depth
        invariant
            next == idx + 1,
            idx < all.len(),
            depth == all[idx as int].depth,
            0 <= removed,
            idx + 1 + removed <= all.len(),
            entries@ == head + all.subrange(idx + 1 + removed, all.len() as int),
            head.len() == idx + 1,
            run_below(all, idx + 1, depth) == removed + run_below(all, idx + 1 + removed, depth),
        decreases entries@.len(),
    {
        proof {
            assert(entries@[idx + 1] == all[idx + 1 + removed]);
            lemma_run_below(all, idx + 1 + removed, depth);
        }
        entries.remove(next);
        proof {
            removed = removed + 1;
            assert(entries@ =~= head + all.subrange(idx + 1 + removed, all.len() as int));
        }
    }
    proof {
        if idx + 1 < entries@.len() {
            assert(entries@[idx + 1] == all[idx + 1 + removed]);
        }
    }
    ToggleOutcome::Collapsed
}

/// Insert the children of the directory at `idx` after it, in their order.
pub fn insert_children(entries: &mut Vec<FileEntry>, idx: usize, children: Vec<FileEntry>)
    requires
        idx < old(entries)@.len(),
        old(entries)@.len() + children@.len() <= usize::MAX,
    ensures
        final(entries)@ == old(entries)@.subrange(0, idx + 1) + children@ + old(entries)@.subrange(
            idx + 1,
            old(entries)@.len() as int,
        ),
{
    let mut children = children;
    let ghost all = old(entries)@;
    let ghost kids = children@;
    assert(entries@ =~= all.subrange(0, idx + 1) + kids.subrange(kids.len() as int, kids.len() as int)
        + all.subrange(idx + 1, all.len() as int));
    while children.len() > 0
        invariant
            idx < all.len(),
            children@ == kids.subrange(0, children@.len() as int),
            children@.len() <= kids.len(),
            all.len() + kids.len() <= usize::MAX,
            entries@ == all.subrange(0, idx + 1) + kids.subrange(
                children@.len() as int,
                kids.len() as int,
            ) + all.subrange(idx + 1, all.len() as int),
        decreases children@.len(),
    {
        let ghost before = children@.len();
        let child = children.pop().unwrap();
        entries.insert(idx + 1, child);
        proof {
            assert(child == kids[before - 1]);
            assert(children@ =~= kids.subrange(0, children@.len() as int));
            assert(entries@ =~= all.subrange(0, idx + 1) + kids.subrange(
                children@.len() as int,
                kids.len() as int,
            ) + all.subrange(idx + 1, all.len() as int));
        }
    }
    proof {
        assert(kids.subrange(0, kids.len() as int) =~= kids);
    }
}

/// The entries of the top level, every directory among them collapsed.
pub open spec fn collapsed(entries: Seq<FileEntry>) -> Seq<FileEntry>
    decreases entries.len(),
{
    if entries.len() == 0 {
        Seq::empty()
    } else {
        let last = entries.last();
        collapsed(entries.drop_last()) + if last.depth == 0 {
            seq![
                FileEntry { is_expanded: last.is_expanded && !last.is_dir, ..last },
            ]
        } else {
            Seq::empty()
        }
    }
}

/// Collapse all directories: every directory is marked collapsed, and only
/// the entries of the top level stay.
pub fn collapse_all_directories(entries: &mut Vec<FileEntry>)
    ensures
        final(entries)@ == collapsed(old(entries)@),
{
    let ghost all = old(entries)@;
    let mut kept: usize = 0;
    let ghost mut seen: int = 0;
    assert(all.subrange(0, all.len() as int) =~= all);
    while kept < entries.len()
        invariant
            0 <= seen <= all.len(),
            kept <= entries@.len(),
            entries@.len() - kept == all.len() - seen,
            entries@.subrange(0, kept as int) == collapsed(all.subrange(0, seen)),
            entries@.subrange(kept as int, entries@.len() as int) == all.subrange(
                seen,
                all.len() as int,
            ),
        decreases entries@.len() - kept,
    {
        proof {
            assert(entries@[kept as int] == entries@.subrange(kept as int, entries@.len() as int)[0]);
            assert(entries@[kept as int] == all[seen]);
            assert(all.subrange(0, seen + 1).drop_last() =~= all.subrange(0, seen));
            assert(all.subrange(0, seen + 1).last() == all[seen]);
        }
        let ghost prev = entries@;
        proof {
            let rest = prev.subrange(kept as int, prev.len() as int);
            assert forall|j: int| 0 < j < rest.len() implies #[trigger] rest[j] == all[seen + j] by {
                assert(rest[j] == all.subrange(seen, all.len() as int)[j]);
            }
            assert forall|k: int| kept < k < prev.len() implies #[trigger] prev[k] == all[seen + (k
                - kept)] by {
                assert(prev[k] == rest[k - kept]);
            }
        }
        if entries[kept].depth == 0 {
            if entries[kept].is_dir {
                entries[kept].is_expanded = false;
            }
            proof {
                assert(entries@.subrange(0, kept + 1) =~= prev.subrange(0, kept as int).push(
                    entries@[kept as int],
                ));
                assert(entries@.subrange(kept + 1, entries@.len() as int) =~= all.subrange(
                    seen + 1,
                    all.len() as int,
                ));
            }
            kept += 1;
        } else {
            entries.remove(kept);
            proof {
                assert(entries@.subrange(0, kept as int) =~= prev.subrange(0, kept as int));
                assert(entries@.subrange(kept as int, entries@.len() as int) =~= all.subrange(
                    seen + 1,
                    all.len() as int,
                ));
            }
        }
        proof {
            seen = seen + 1;
        }
    }
    proof {
        assert(entries@.subrange(0, kept as int) =~= entries@);
        assert(all.subrange(0, seen) =~= all);
    }
}

/// Mark every directory as expanded. The entries below them are then to be
/// loaded anew.
pub fn mark_all_expanded(entries: &mut Vec<FileEntry>)
    ensures
        final(entries)@.len() == old(entries)@.len(),
        forall|i: int|
            0 <= i < old(entries)@.len() ==> #[trigger] final(entries)@[i] == (FileEntry {
                is_expanded: old(entries)@[i].is_expanded || old(entries)@[i].is_dir,
                ..old(entries)@[i]
            }),
{
    let mut i: usize = 0;
    while i < entries.len()
        invariant
            i <= entries@.len(),
            entries@.len() == old(entries)@.len(),
            forall|k: int|
                0 <= k < i ==> #[trigger] entries@[k] == (FileEntry {
                    is_expanded: old(entries)@[k].is_expanded || old(entries)@[k].is_dir,
                    ..old(entries)@[k]
                }),
            forall|k: int| i <= k < entries@.len() ==> entries@[k] == old(entries)@[k],
        decreases entries@.len() - i,
    {
        if entries[i].is_dir {
            entries[i].is_expanded = true;
        }
        i += 1;
    }
}

} // verus!
