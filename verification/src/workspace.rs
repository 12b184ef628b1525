//! A workspace: one layout tree, the focused pane, and the counter that
//! hands out pane ids.

use crate::geometry::{Pos, Rect, SplitDirection, MAX_SPLIT_RATIO, MIN_SPLIT_RATIO};
use crate::layout::{LayoutNode, PaneId};
use crate::seq_facts::lemma_remove_contents;
use crate::drag::{pointer_ratio, ratio_under_pointer, DropZone};
use crate::transform::{close_node, extract_pane, insert_adjacent, split_node};
use vstd::prelude::*;

verus! {

/// Workspace containing panes in a binary split tree.
pub struct Workspace<T> {
    pub(crate) root: Option<LayoutNode<T>>,
    pub(crate) focused_pane: PaneId,
    pub(crate) next_pane_id: u64,
}

/// Place of the first occurrence of `id` in `ids`, if it occurs.
pub fn position(ids: &Vec<PaneId>, id: PaneId) -> (res: Option<usize>)
    ensures
        match res {
            Some(i) => i < ids@.len() && ids@[i as int] == id && forall|j: int|
                0 <= j < i ==> ids@[j] != id,
            None => !ids@.contains(id),
        },
{
    let mut i: usize = 0;
    while i < ids.len()
        invariant
            i <= ids@.len(),
            forall|j: int| 0 <= j < i ==> ids@[j] != id,
        decreases ids@.len() - i,
    {
        if ids[i] == id {
            return Some(i);
        }
        i += 1;
    }
    None
}

impl<T> Workspace<T> {
    /// The layout tree of the workspace.
    pub closed spec fn tree(self) -> LayoutNode<T> {
        self.root->0
    }

    /// The pane that has the focus.
    pub closed spec fn focused(self) -> PaneId {
        self.focused_pane
    }

    /// The number that the next new pane gets as its id.
    pub closed spec fn next_id(self) -> u64 {
        self.next_pane_id
    }

    /// Whether the tree is in its slot.
    pub closed spec fn seated(self) -> bool {
        self.root is Some
    }

    /// The invariants of a workspace: the tree is well formed, the focus
    /// names a pane of the tree, and every id in the tree lies below the
    /// counter.
    pub open spec fn well_formed(self) -> bool {
        &&& self.seated()
        &&& self.tree().well_formed()
        &&& self.tree().has_pane(self.focused())
        &&& forall|id: PaneId| self.tree().has_pane(id) ==> id.0 < self.next_id()
    }

    /// The pane that takes the focus when `closing` is closed: the one
    /// before it in depth-first order, or the one after it where it is the
    /// first.
    pub open spec fn focus_after_close(self, closing: PaneId) -> PaneId {
        let at = self.tree().pane_index(closing);
        if at > 0 {
            self.tree().leaf_ids()[at - 1]
        } else {
            self.tree().leaf_ids()[1]
        }
    }

    /// A workspace of one pane with id 0, which has the focus.
    pub fn new(content: T) -> (ws: Self)
        ensures
            ws.well_formed(),
            ws.tree() == (LayoutNode::Leaf { id: PaneId(0), content }),
            ws.focused() == PaneId(0),
            ws.next_id() == 1,
    {
        let ws = Workspace {
            root: Some(LayoutNode::Leaf { id: PaneId(0), content }),
            focused_pane: PaneId(0),
            next_pane_id: 1,
        };
        proof {
            let tree = ws.tree();
            assert(tree.leaf_ids() =~= seq![PaneId(0)]);
            assert(tree.leaf_ids()[0] == PaneId(0));
            assert forall|id: PaneId| tree.has_pane(id) implies id.0 < 1 by {
                tree.lemma_has_pane(id);
            }
        }
        ws
    }

    /// The layout tree.
    pub fn root(&self) -> (tree: &LayoutNode<T>)
        requires
            self.well_formed(),
        ensures
            *tree == self.tree(),
    {
        match &self.root {
            Some(tree) => tree,
            None => vstd::pervasive::unreached(),
        }
    }

    /// The pane that has the focus.
    pub fn focused_pane(&self) -> (id: PaneId)
        ensures
            id == self.focused(),
    {
        self.focused_pane
    }

    /// The number that the next new pane gets as its id.
    pub fn next_pane_id(&self) -> (n: u64)
        ensures
            n == self.next_id(),
    {
        self.next_pane_id
    }

    /// Get all pane ids in depth-first order.
    pub fn pane_ids(&self) -> (ids: Vec<PaneId>)
        requires
            self.well_formed(),
        ensures
            ids@ == self.tree().leaf_ids(),
    {
        let mut ids = Vec::new();
        self.root().collect_pane_ids(&mut ids);
        assert(ids@ =~= self.tree().leaf_ids());
        ids
    }

    /// Count panes.
    pub fn pane_count(&self) -> (n: usize)
        requires
            self.well_formed(),
        ensures
            n == self.tree().leaf_count(),
            n >= 1,
    {
        let ids = self.pane_ids();
        proof {
            self.tree().lemma_split_count();
        }
        ids.len()
    }

    /// Get content reference.
    pub fn get_content(&self, pane_id: PaneId) -> (res: Option<&T>)
        requires
            self.well_formed(),
        ensures
            res is Some <==> self.tree().has_pane(pane_id),
            match res {
                Some(content) => self.tree().content_of(pane_id) == Some(*content),
                None => true,
            },
    {
        self.root().get_content(pane_id)
    }

    /// Give the focus to `pane_id` where the tree holds it.
    pub fn set_focus(&mut self, pane_id: PaneId) -> (moved: bool)
        requires
            old(self).well_formed(),
        ensures
            final(self).well_formed(),
            final(self).tree() == old(self).tree(),
            final(self).next_id() == old(self).next_id(),
            moved == old(self).tree().has_pane(pane_id),
            final(self).focused() == if moved {
                pane_id
            } else {
                old(self).focused()
            },
    {
        if self.root().contains_pane(pane_id) {
            self.focused_pane = pane_id;
            true
        } else {
            false
        }
    }

    /// Split the focused pane in the given direction. The existing pane
    /// stays as first child (left or top); a new pane with the content
    /// becomes second child (right or bottom) and takes the focus. Returns
    /// the id of the new pane.
    pub fn split_focused(&mut self, direction: SplitDirection, content: T) -> (new_id: PaneId)
        requires
            old(self).well_formed(),
            old(self).next_id() < u64::MAX,
        ensures
            final(self).well_formed(),
            new_id == PaneId(old(self).next_id()),
            final(self).tree() == old(self).tree().with_adjacent(
                old(self).focused(),
                new_id,
                content,
                direction,
                false,
            ),
            final(self).focused() == new_id,
            final(self).next_id() == old(self).next_id() + 1,
            final(self).tree().leaf_ids() == old(self).tree().leaf_ids().insert(
                old(self).tree().pane_index(old(self).focused()) + 1,
                new_id,
            ),
    {
        let new_pane_id = PaneId(self.next_pane_id);
        self.next_pane_id += 1;
        let target_id = self.focused_pane;
        let ghost before = old(self).tree();
        proof {
            before.lemma_with_adjacent_panes(target_id, new_pane_id, content, direction, false);
            before.lemma_with_adjacent_leaves(target_id, new_pane_id, content, direction, false);
        }
        match self.root.take() {
            Some(old_root) => {
                let (new_root, _) = split_node(
                    old_root,
                    target_id,
                    direction,
                    new_pane_id,
                    Some(content),
                );
                self.root = Some(new_root);
            },
            None => {},
        }
        self.focused_pane = new_pane_id;
        new_pane_id
    }

    /// Close a pane by id. Returns whether it was closed: the last pane of
    /// a workspace is never closed, nor one that the tree does not hold.
    /// When a pane is closed, the focus moves to its neighbour.
    pub fn close_pane(&mut self, pane_id: PaneId) -> (closed: bool)
        requires
            old(self).well_formed(),
        ensures
            final(self).well_formed(),
            closed == (old(self).tree().leaf_count() > 1 && old(self).tree().has_pane(pane_id)),
            final(self).next_id() == old(self).next_id(),
            closed ==> {
                &&& final(self).tree() == old(self).tree().without_pane(pane_id)
                &&& final(self).focused() == old(self).focus_after_close(pane_id)
                &&& final(self).tree().leaf_ids() == old(self).tree().leaf_ids().remove(
                    old(self).tree().pane_index(pane_id),
                )
            },
            !closed ==> {
                &&& final(self).tree() == old(self).tree()
                &&& final(self).focused() == old(self).focused()
            },
    {
        let pane_ids = self.pane_ids();
        if pane_ids.len() <= 1 {
            return false;
        }
        let closing_idx = match position(&pane_ids, pane_id) {
            Some(idx) => idx,
            None => {
                return false;
            },
        };
        let new_focus = if closing_idx > 0 {
            pane_ids[closing_idx - 1]
        } else {
            pane_ids[1]
        };
        let ghost before = old(self).tree();
        proof {
            assert(before is Split) by {
                if before is Leaf {
                    assert(before.leaf_ids().len() == 1);
                }
            }
            before.lemma_pane_index(pane_id);
            assert(closing_idx == before.pane_index(pane_id)) by {
                if closing_idx < before.pane_index(pane_id) {
                } else if closing_idx > before.pane_index(pane_id) {
                }
            }
            before.lemma_without_pane_panes(pane_id);
            before.lemma_without_pane_leaves(pane_id);
            lemma_remove_contents(before.leaf_ids(), closing_idx as int);
            assert(before.leaf_ids().contains(new_focus));
        }
        match self.root.take() {
            Some(old_root) => {
                match close_node(old_root, pane_id) {
                    Some(new_root) => {
                        self.root = Some(new_root);
                        self.focused_pane = new_focus;
                        true
                    },
                    None => {
                        proof {
                            before.lemma_has_pane(pane_id);
                        }
                        vstd::pervasive::unreached()
                    },
                }
            },
            None => vstd::pervasive::unreached(),
        }
    }

    /// Move the focus to the next pane in depth-first order, from the last
    /// to the first.
    pub fn focus_next(&mut self)
        requires
            old(self).well_formed(),
        ensures
            final(self).well_formed(),
            final(self).tree() == old(self).tree(),
            final(self).next_id() == old(self).next_id(),
            final(self).focused() == old(self).tree().leaf_ids()[(old(self).tree().pane_index(
                old(self).focused(),
            ) + 1) % (old(self).tree().leaf_count() as int)],
    {
        let pane_ids = self.pane_ids();
        proof {
            self.tree().lemma_pane_index(self.focused());
        }
        match position(&pane_ids, self.focused_pane) {
            Some(idx) => {
                let count = pane_ids.len();
                let next_idx = (idx + 1) % count;
                self.focused_pane = pane_ids[next_idx];
                proof {
                    let i = idx as int;
                    assert(i == old(self).tree().pane_index(old(self).focused())) by {
                        if i < old(self).tree().pane_index(old(self).focused()) {
                        }
                    }
                    assert(pane_ids@.contains(pane_ids@[next_idx as int]));
                }
            },
            None => {},
        }
    }

    /// Move the focus to the previous pane in depth-first order, from the
    /// first to the last.
    pub fn focus_prev(&mut self)
        requires
            old(self).well_formed(),
        ensures
            final(self).well_formed(),
            final(self).tree() == old(self).tree(),
            final(self).next_id() == old(self).next_id(),
            final(self).focused() == ({
                let at = old(self).tree().pane_index(old(self).focused());
                if at == 0 {
                    old(self).tree().leaf_ids()[old(self).tree().leaf_count() - 1]
                } else {
                    old(self).tree().leaf_ids()[at - 1]
                }
            }),
    {
        let pane_ids = self.pane_ids();
        proof {
            self.tree().lemma_pane_index(self.focused());
        }
        match position(&pane_ids, self.focused_pane) {
            Some(idx) => {
                let prev_idx = if idx == 0 {
                    pane_ids.len() - 1
                } else {
                    idx - 1
                };
                self.focused_pane = pane_ids[prev_idx];
                proof {
                    let i = idx as int;
                    assert(i == old(self).tree().pane_index(old(self).focused())) by {
                        if i < old(self).tree().pane_index(old(self).focused()) {
                        }
                    }
                    assert(pane_ids@.contains(pane_ids@[prev_idx as int]));
                }
            },
            None => {},
        }
    }

    /// Get a mutable reference to the content of a pane. What the caller
    /// writes through it becomes the content of that pane; nothing else in
    /// the workspace changes.
    pub fn get_content_mut(&mut self, pane_id: PaneId) -> (res: Option<&mut T>)
        requires
            old(self).well_formed(),
        ensures
            final(self).well_formed(),
            final(self).focused() == old(self).focused(),
            final(self).next_id() == old(self).next_id(),
            final(self).tree().leaf_ids() == old(self).tree().leaf_ids(),
            res is Some <==> old(self).tree().has_pane(pane_id),
            match res {
                Some(content) => {
                    &&& old(self).tree().content_of(pane_id) == Some(*content)
                    &&& final(self).tree() == old(self).tree().with_content(
                        pane_id,
                        *final(content),
                    )
                },
                None => final(self).tree() == old(self).tree(),
            },
    {
        let ghost after = *final(self);
        let res = match &mut self.root {
            Some(tree) => tree.get_content_mut(pane_id),
            None => None,
        };
        proof {
            if res is Some {
                let written = *final(res->0);
                old(self).tree().lemma_with_content(pane_id, written);
                assert(after.tree() == old(self).tree().with_content(pane_id, written));
            } else {
                assert(after.tree() == old(self).tree());
            }
            assert(after.tree().leaf_ids() == old(self).tree().leaf_ids());
            assert forall|id: PaneId| after.tree().has_pane(id) implies id.0 < after.next_id() by {
                assert(old(self).tree().has_pane(id));
            }
        }
        res
    }

    /// Collect the contents of all panes as mutable references, in
    /// depth-first order. What the caller writes through a reference
    /// becomes the content of that pane; nothing else in the workspace
    /// changes.
    pub fn collect_contents_mut(&mut self) -> (res: Vec<(PaneId, &mut T)>)
        requires
            old(self).well_formed(),
        ensures
            final(self).well_formed(),
            final(self).focused() == old(self).focused(),
            final(self).next_id() == old(self).next_id(),
            final(self).tree().same_shape(old(self).tree()),
            res@.len() == old(self).tree().leaf_count(),
            old(self).tree().leaves().len() == res@.len(),
            final(self).tree().leaves().len() == res@.len(),
            forall|i: int|
                0 <= i < res@.len() ==> {
                    &&& (#[trigger] res@[i]).0 == old(self).tree().leaf_ids()[i]
                    &&& *res@[i].1 == old(self).tree().leaves()[i].1
                    &&& final(self).tree().leaves()[i] == (res@[i].0, *final(res@[i].1))
                },
    {
        let ghost after = *final(self);
        let res = match &mut self.root {
            Some(tree) => tree.collect_contents_mut(),
            None => Vec::new(),
        };
        proof {
            after.tree().lemma_same_shape_ids(old(self).tree());
            after.tree().lemma_same_shape_ratios(old(self).tree());
            assert forall|id: PaneId| after.tree().has_pane(id) implies id.0 < after.next_id() by {
                assert(old(self).tree().has_pane(id));
            }
        }
        res
    }
}

/// Terminal instance: the session's number and the handle of its backend.
pub struct TerminalInstance<B> {
    pub backend: B,
    pub id: u64,
}

/// Content type for a pane.
pub enum TabContent<B, V> {
    /// Terminal emulator.
    Terminal(TerminalInstance<B>),
    /// File viewer.
    FileViewer(V),
}

impl<B, V> TabContent<B, V> {
    /// The number of the terminal session that the content holds, if it
    /// holds one.
    pub open spec fn session(self) -> Option<u64> {
        match self {
            TabContent::Terminal(t) => Some(t.id),
            TabContent::FileViewer(_) => None,
        }
    }

    /// The number of the terminal session that the content holds, if it
    /// holds one.
    pub fn terminal_id(&self) -> (id: Option<u64>)
        ensures
            id == self.session(),
    {
        match self {
            TabContent::Terminal(t) => Some(t.id),
            TabContent::FileViewer(_) => None,
        }
    }
}

/// Place of the first leaf that holds the terminal session `terminal_id`,
/// among the leaves from `from` on; the length of the list where none does.
pub open spec fn session_index<B, V>(
    leaves: Seq<(PaneId, TabContent<B, V>)>,
    terminal_id: u64,
    from: int,
) -> int
    decreases leaves.len() - from,
{
    if from >= leaves.len() {
        leaves.len() as int
    } else if leaves[from].1.session() == Some(terminal_id) {
        from
    } else {
        session_index(leaves, terminal_id, from + 1)
    }
}

/// The pane of the first leaf, in depth-first order, that holds the
/// terminal session `terminal_id`.
pub open spec fn pane_of_session<B, V>(
    leaves: Seq<(PaneId, TabContent<B, V>)>,
    terminal_id: u64,
) -> Option<PaneId> {
    let at = session_index(leaves, terminal_id, 0);
    if at < leaves.len() {
        Some(leaves[at].0)
    } else {
        None
    }
}

/// `session_index` is the first place from `from` on that holds the
/// session.
pub proof fn lemma_session_index<B, V>(
    leaves: Seq<(PaneId, TabContent<B, V>)>,
    terminal_id: u64,
    from: int,
)
    requires
        0 <= from <= leaves.len(),
    ensures
        from <= session_index(leaves, terminal_id, from) <= leaves.len(),
        session_index(leaves, terminal_id, from) < leaves.len() ==> leaves[session_index(
            leaves,
            terminal_id,
            from,
        )].1.session() == Some(terminal_id),
        forall|k: int|
            from <= k < session_index(leaves, terminal_id, from) ==> (#[trigger] leaves[k]).1.session()
                != Some(terminal_id),
    decreases leaves.len() - from,
{
    if from < leaves.len() && leaves[from].1.session() != Some(terminal_id) {
        lemma_session_index(leaves, terminal_id, from + 1);
    }
}

/// The session search in a concatenation: in the left part first, then in
/// the right.
pub proof fn lemma_pane_of_session_concat<B, V>(
    a: Seq<(PaneId, TabContent<B, V>)>,
    b: Seq<(PaneId, TabContent<B, V>)>,
    terminal_id: u64,
)
    ensures
        pane_of_session(a + b, terminal_id) == match pane_of_session(a, terminal_id) {
            Some(id) => Some(id),
            None => pane_of_session(b, terminal_id),
        },
{
    let ab = a + b;
    lemma_session_index(a, terminal_id, 0);
    lemma_session_index(b, terminal_id, 0);
    lemma_session_index(ab, terminal_id, 0);
    let ia = session_index(a, terminal_id, 0);
    let ib = session_index(b, terminal_id, 0);
    let iab = session_index(ab, terminal_id, 0);
    if ia < a.len() {
        assert(ab[ia] == a[ia]);
        if iab < ia {
            assert(ab[iab] == a[iab]);
        }
    } else if ib < b.len() {
        assert(ab[a.len() + ib] == b[ib]);
        if iab < a.len() {
            assert(ab[iab] == a[iab]);
        } else if iab < a.len() + ib {
            assert(ab[iab] == b[iab - a.len()]);
        }
    } else {
        if iab < a.len() {
            assert(ab[iab] == a[iab]);
        } else if iab < ab.len() {
            assert(ab[iab] == b[iab - a.len()]);
        }
    }
}

/// Searches a tree for the leaf that holds the terminal session.
fn find_in_node<B, V>(node: &LayoutNode<TabContent<B, V>>, terminal_id: u64) -> (res: Option<
    PaneId,
>)
    ensures
        res == pane_of_session(node.leaves(), terminal_id),
    decreases node,
{
    match node {
        LayoutNode::Leaf { id, content } => {
            proof {
                lemma_session_index(node.leaves(), terminal_id, 0);
                lemma_session_index(node.leaves(), terminal_id, 1);
            }
            match content {
                TabContent::Terminal(t) => {
                    if t.id == terminal_id {
                        return Some(*id);
                    }
                    None
                },
                TabContent::FileViewer(_) => None,
            }
        },
        LayoutNode::Split { first, second, .. } => {
            proof {
                lemma_pane_of_session_concat(first.leaves(), second.leaves(), terminal_id);
            }
            match find_in_node(first, terminal_id) {
                Some(id) => Some(id),
                None => find_in_node(second, terminal_id),
            }
        },
    }
}

/// What the end of a terminal session comes to in a workspace.
#[derive(Debug, Clone, Copy, PartialEq, Eq, Structural)]
pub enum ExitOutcome {
    /// No pane of the workspace holds the session.
    NotHere,
    /// The pane that holds the session is the last of the workspace, and
    /// stays.
    LastPane(PaneId),
    /// The pane that held the session was closed.
    Closed(PaneId),
}

impl<B, V> Workspace<TabContent<B, V>> {
    /// Find the pane that holds the terminal session `terminal_id`: the
    /// first such pane in depth-first order.
    pub fn find_pane_by_terminal_id(&self, terminal_id: u64) -> (res: Option<PaneId>)
        requires
            self.well_formed(),
        ensures
            res == pane_of_session(self.tree().leaves(), terminal_id),
            res matches Some(id) ==> self.tree().has_pane(id),
    {
        proof {
            lemma_session_index(self.tree().leaves(), terminal_id, 0);
            self.tree().lemma_leaf_ids_of_leaves();
        }
        find_in_node(self.root(), terminal_id)
    }
}

impl<T> Workspace<T> {
    /// Whether a drop of the pane `source` in `zone` can be carried out:
    /// the tree holds both the source and the zone's target, and they are
    /// two panes.
    pub open spec fn can_drop(self, source: PaneId, zone: DropZone) -> bool {
        &&& self.tree().has_pane(source)
        &&& self.tree().has_pane(zone.spec_target())
        &&& zone.spec_target() != source
    }

    /// The tree after the pane `source` is taken out and set at the edge of
    /// the zone's target.
    pub open spec fn tree_after_drop(self, source: PaneId, zone: DropZone) -> LayoutNode<T> {
        let (rest, content) = self.tree().extraction(source)->0;
        rest.with_adjacent(
            zone.spec_target(),
            source,
            content,
            zone.spec_direction(),
            zone.spec_before(),
        )
    }

    /// Execute a pane drop: take the pane `source_id` out of the tree and
    /// set it at the edge of the zone's target, under its old id and with
    /// its content; the moved pane takes the focus. A drop that cannot be
    /// carried out changes nothing. Returns whether the pane was moved.
    pub fn execute_pane_drop(&mut self, source_id: PaneId, zone: DropZone) -> (moved: bool)
        requires
            old(self).well_formed(),
        ensures
            final(self).well_formed(),
            final(self).next_id() == old(self).next_id(),
            moved == old(self).can_drop(source_id, zone),
            moved ==> {
                &&& old(self).tree().extraction(source_id) is Some
                &&& final(self).tree() == old(self).tree_after_drop(source_id, zone)
                &&& final(self).focused() == source_id
                &&& final(self).tree().leaf_ids().to_multiset() == old(
                    self,
                ).tree().leaf_ids().to_multiset()
                &&& final(self).tree().leaves().to_multiset() == old(
                    self,
                ).tree().leaves().to_multiset()
                &&& final(self).tree().content_of(source_id) == old(self).tree().content_of(
                    source_id,
                )
            },
            !moved ==> {
                &&& final(self).tree() == old(self).tree()
                &&& final(self).focused() == old(self).focused()
            },
    {
        let (target_id, direction, before) = zone.placement();
        if target_id == source_id {
            return false;
        }
        if !self.root().contains_pane(source_id) || !self.root().contains_pane(target_id) {
            return false;
        }
        let ghost tree = old(self).tree();
        proof {
            tree.lemma_pane_index(source_id);
            tree.lemma_pane_index(target_id);
            assert(tree.leaf_count() >= 2) by {
                if tree.leaf_count() < 2 {
                    assert(tree.leaf_ids()[0] == source_id);
                    assert(tree.leaf_ids()[0] == target_id);
                }
            }
            tree.lemma_extract_insert_keeps_panes(source_id, target_id, direction, before);
            let (rest, content) = tree.extraction(source_id)->0;
            tree.lemma_without_pane_panes(source_id);
            rest.lemma_with_adjacent_panes(target_id, source_id, content, direction, before);
        }
        match self.root.take() {
            Some(old_root) => {
                match extract_pane(old_root, source_id) {
                    Some((tree_without_source, extracted_content)) => {
                        let new_root = insert_adjacent(
                            tree_without_source,
                            target_id,
                            source_id,
                            extracted_content,
                            direction,
                            before,
                        );
                        self.root = Some(new_root);
                        self.focused_pane = source_id;
                        true
                    },
                    None => vstd::pervasive::unreached(),
                }
            },
            None => vstd::pervasive::unreached(),
        }
    }

    /// The ratio that a drag of the divider at `path` to `pos` gives its
    /// split, when the tree is laid out in `viewport`: `None` where the
    /// path does not lead to a split, or the split's rectangle has no room
    /// beside the divider.
    pub open spec fn dragged_ratio(
        self,
        path: Seq<bool>,
        viewport: Rect,
        divider_width: i32,
        pos: Pos,
    ) -> Option<u32> {
        match (self.tree().node_at(path), self.tree().rect_at(viewport, divider_width, path)) {
            (Some(LayoutNode::Split { direction, .. }), Some(rect)) => ratio_under_pointer(
                rect,
                direction,
                divider_width,
                pos,
            ),
            _ => None,
        }
    }

    /// Drag the divider of the split at `path` to the pointer position
    /// `pos`, with the tree laid out in `viewport`: the split's ratio
    /// becomes the pointer's share of the split's own rectangle along the
    /// split's axis, within the bounds of a ratio. Returns whether the
    /// ratio changed, so that the layout is to be computed anew.
    pub fn drag_divider(
        &mut self,
        path: &[bool],
        viewport: Rect,
        divider_width: i32,
        pos: Pos,
    ) -> (changed: bool)
        requires
            old(self).well_formed(),
        ensures
            final(self).well_formed(),
            final(self).focused() == old(self).focused(),
            final(self).next_id() == old(self).next_id(),
            final(self).tree().leaf_ids() == old(self).tree().leaf_ids(),
            match old(self).dragged_ratio(path@, viewport, divider_width, pos) {
                Some(ratio) => {
                    &&& MIN_SPLIT_RATIO <= ratio <= MAX_SPLIT_RATIO
                    &&& final(self).tree() == old(self).tree().with_ratio_at(path@, ratio)
                    &&& changed == (old(self).tree().node_at(path@)->0->ratio != ratio)
                },
                None => !changed && final(self).tree() == old(self).tree(),
            },
    {
        let (direction, ratio) = match self.root().get_node_at_path(path) {
            Some(LayoutNode::Split { direction, ratio, .. }) => (*direction, *ratio),
            _ => {
                return false;
            },
        };
        let rect = match self.root().rect_at_path(viewport, divider_width, path) {
            Some(rect) => rect,
            None => {
                return false;
            },
        };
        let new_ratio = match pointer_ratio(rect, direction, divider_width, pos) {
            Some(new_ratio) => new_ratio,
            None => {
                return false;
            },
        };
        let ghost tree = old(self).tree();
        proof {
            let node = tree.node_at(path@)->0;
            let set = LayoutNode::Split {
                direction: node->direction,
                ratio: new_ratio,
                first: node->first,
                second: node->second,
            };
            tree.lemma_node_at_bounded(path@);
            assert(set.ratios_bounded());
            tree.lemma_with_node_at(path@, set);
            if new_ratio == ratio {
                tree.lemma_with_node_at_same(path@);
            }
        }
        if new_ratio == ratio {
            return false;
        }
        match &mut self.root {
            Some(root) => {
                root.set_ratio_at_path(path, new_ratio);
            },
            None => {},
        }
        proof {
            assert(self.tree().leaf_ids() == tree.leaf_ids());
            assert forall|id: PaneId| self.tree().has_pane(id) implies id.0 < self.next_id() by {
                assert(tree.has_pane(id));
            }
        }
        true
    }
}

impl<B, V> Workspace<TabContent<B, V>> {
    /// Take note that the terminal session `terminal_id` has ended: the
    /// pane that holds it is closed, unless it is the last pane of the
    /// workspace, which is never closed on its own.
    pub fn close_terminal(&mut self, terminal_id: u64) -> (outcome: ExitOutcome)
        requires
            old(self).well_formed(),
        ensures
            final(self).well_formed(),
            final(self).next_id() == old(self).next_id(),
            outcome == match pane_of_session(old(self).tree().leaves(), terminal_id) {
                Some(pane) => if old(self).tree().leaf_count() > 1 {
                    ExitOutcome::Closed(pane)
                } else {
                    ExitOutcome::LastPane(pane)
                },
                None => ExitOutcome::NotHere,
            },
            match outcome {
                ExitOutcome::Closed(pane) => {
                    &&& final(self).tree() == old(self).tree().without_pane(pane)
                    &&& final(self).focused() == old(self).focus_after_close(pane)
                },
                _ => final(self).tree() == old(self).tree() && final(self).focused() == old(
                    self,
                ).focused(),
            },
    {
        match self.find_pane_by_terminal_id(terminal_id) {
            Some(pane) => {
                if self.pane_count() > 1 {
                    self.close_pane(pane);
                    ExitOutcome::Closed(pane)
                } else {
                    ExitOutcome::LastPane(pane)
                }
            },
            None => ExitOutcome::NotHere,
        }
    }
}

} // verus!
