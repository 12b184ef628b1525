//! Structural edits on the layout tree. Each takes a tree by value and
//! returns the edited tree by value.

use crate::geometry::{SplitDirection, DEFAULT_SPLIT_RATIO};
use crate::layout::{LayoutNode, PaneId};
use crate::seq_facts::{
    lemma_insert_contents, lemma_insert_left, lemma_insert_right, lemma_insert_single,
    lemma_remove_contents, lemma_remove_head, lemma_remove_last, lemma_remove_left,
    lemma_remove_right,
};
use vstd::prelude::*;

verus! {

impl<T> LayoutNode<T> {
    /// Place of the first leaf carrying `target` among the leaves in
    /// depth-first order; meaningful where the tree has such a leaf.
    pub open spec fn pane_index(self, target: PaneId) -> int
        decreases self,
    {
        match self {
            LayoutNode::Leaf { .. } => 0,
            LayoutNode::Split { first, second, .. } => if first.has_pane(target) {
                first.pane_index(target)
            } else {
                first.leaf_count() + second.pane_index(target)
            },
        }
    }

    /// The split that takes the place of a leaf when a pane is set beside it.
    pub open spec fn paired(
        self,
        new_id: PaneId,
        content: T,
        direction: SplitDirection,
        before: bool,
    ) -> LayoutNode<T> {
        let added = LayoutNode::Leaf { id: new_id, content };
        if before {
            LayoutNode::Split {
                direction,
                ratio: DEFAULT_SPLIT_RATIO,
                first: Box::new(added),
                second: Box::new(self),
            }
        } else {
            LayoutNode::Split {
                direction,
                ratio: DEFAULT_SPLIT_RATIO,
                first: Box::new(self),
                second: Box::new(added),
            }
        }
    }

    /// The tree in which the first leaf carrying `target` has become a split
    /// of that leaf and a new leaf `new_id`; the tree itself where no leaf
    /// carries `target`.
    pub open spec fn with_adjacent(
        self,
        target: PaneId,
        new_id: PaneId,
        content: T,
        direction: SplitDirection,
        before: bool,
    ) -> LayoutNode<T>
        decreases self,
    {
        match self {
            LayoutNode::Leaf { id, .. } => if id == target {
                self.paired(new_id, content, direction, before)
            } else {
                self
            },
            LayoutNode::Split { direction: own, ratio, first, second } => if first.has_pane(
                target,
            ) {
                LayoutNode::Split {
                    direction: own,
                    ratio,
                    first: Box::new(
                        first.with_adjacent(target, new_id, content, direction, before),
                    ),
                    second,
                }
            } else {
                LayoutNode::Split {
                    direction: own,
                    ratio,
                    first,
                    second: Box::new(
                        second.with_adjacent(target, new_id, content, direction, before),
                    ),
                }
            },
        }
    }

    /// The tree in which every split with a direct child leaf `target` has
    /// given way to that child's sibling. A lone leaf stays as it is.
    pub open spec fn without_pane(self, target: PaneId) -> LayoutNode<T>
        decreases self,
    {
        match self {
            LayoutNode::Leaf { .. } => self,
            LayoutNode::Split { direction, ratio, first, second } => if first.is_leaf_with(
                target,
            ) {
                *second
            } else if second.is_leaf_with(target) {
                *first
            } else {
                LayoutNode::Split {
                    direction,
                    ratio,
                    first: Box::new(first.without_pane(target)),
                    second: Box::new(second.without_pane(target)),
                }
            },
        }
    }

    /// The tree left when one leaf carrying `target` is taken out and its
    /// sibling promoted, with the content taken out; `None` for a lone leaf
    /// and where no leaf carries `target`.
    pub open spec fn extraction(self, target: PaneId) -> Option<(LayoutNode<T>, T)>
        decreases self,
    {
        match self {
            LayoutNode::Leaf { .. } => None,
            LayoutNode::Split { direction, ratio, first, second } => {
                if first.is_leaf_with(target) {
                    Some((*second, first->content))
                } else if second.is_leaf_with(target) {
                    Some((*first, second->content))
                } else if first.has_pane(target) {
                    match first.extraction(target) {
                        Some((rest, content)) => Some(
                            (
                                LayoutNode::Split {
                                    direction,
                                    ratio,
                                    first: Box::new(rest),
                                    second,
                                },
                                content,
                            ),
                        ),
                        None => None,
                    }
                } else if second.has_pane(target) {
                    match second.extraction(target) {
                        Some((rest, content)) => Some(
                            (
                                LayoutNode::Split {
                                    direction,
                                    ratio,
                                    first,
                                    second: Box::new(rest),
                                },
                                content,
                            ),
                        ),
                        None => None,
                    }
                } else {
                    None
                }
            },
        }
    }

    /// Whether the node is a leaf carrying `target`.
    pub fn is_pane(&self, target: PaneId) -> (b: bool)
        ensures
            b == self.is_leaf_with(target),
    {
        match self {
            LayoutNode::Leaf { id, .. } => *id == target,
            LayoutNode::Split { .. } => false,
        }
    }
}

/// Transform a tree by splitting the first leaf that carries `target_id`:
/// the leaf stays as first child, a new leaf with `new_pane_id` and the
/// content becomes second child, at the default ratio. The content comes
/// back unused where no leaf carries `target_id`.
pub fn split_node<T>(
    node: LayoutNode<T>,
    target_id: PaneId,
    direction: SplitDirection,
    new_pane_id: PaneId,
    new_content: Option<T>,
) -> (res: (LayoutNode<T>, Option<T>))
    ensures
        match new_content {
            Some(c) => {
                &&& res.0 == node.with_adjacent(target_id, new_pane_id, c, direction, false)
                &&& res.1 == if node.has_pane(target_id) {
                    None
                } else {
                    Some(c)
                }
                &&& node.has_pane(target_id) ==> res.0.leaf_ids().to_multiset()
                    == node.leaf_ids().to_multiset().insert(new_pane_id)
                &&& !node.has_pane(target_id) ==> res.0 == node
                &&& node.unique_ids() && !node.has_pane(new_pane_id) ==> res.0.unique_ids()
            },
            None => res.0 == node && res.1 is None,
        },
    decreases node,
{
    proof {
        if new_content is Some {
            if node.has_pane(target_id) {
                node.lemma_with_adjacent_panes(
                    target_id,
                    new_pane_id,
                    new_content->0,
                    direction,
                    false,
                );
            } else {
                node.lemma_with_adjacent_absent(
                    target_id,
                    new_pane_id,
                    new_content->0,
                    direction,
                    false,
                );
            }
        }
    }
    match node {
        LayoutNode::Leaf { id, content } => {
            proof {
                node.lemma_has_pane(target_id);
            }
            if id == target_id {
                match new_content {
                    Some(c) => (
                        LayoutNode::Split {
                            direction,
                            ratio: DEFAULT_SPLIT_RATIO,
                            first: Box::new(LayoutNode::Leaf { id, content }),
                            second: Box::new(LayoutNode::Leaf { id: new_pane_id, content: c }),
                        },
                        None,
                    ),
                    None => (LayoutNode::Leaf { id, content }, None),
                }
            } else {
                (LayoutNode::Leaf { id, content }, new_content)
            }
        },
        LayoutNode::Split { direction: dir, ratio, first, second } => {
            proof {
                node.lemma_has_pane(target_id);
                if new_content is Some && !first.has_pane(target_id) {
                    first.lemma_with_adjacent_absent(
                        target_id,
                        new_pane_id,
                        new_content->0,
                        direction,
                        false,
                    );
                }
            }
            let (new_first, remaining) = split_node(
                *first,
                target_id,
                direction,
                new_pane_id,
                new_content,
            );
            let (new_second, remaining) = split_node(
                *second,
                target_id,
                direction,
                new_pane_id,
                remaining,
            );
            (
                LayoutNode::Split {
                    direction: dir,
                    ratio,
                    first: Box::new(new_first),
                    second: Box::new(new_second),
                },
                remaining,
            )
        },
    }
}

/// Remove the pane `target_id` from the tree, promoting its sibling into the
/// place of the split that held both. `None` where the tree is that pane
/// alone; a tree without the pane comes back as it is.
pub fn close_node<T>(node: LayoutNode<T>, target_id: PaneId) -> (res: Option<LayoutNode<T>>)
    ensures
        res == if node.is_leaf_with(target_id) {
            None
        } else {
            Some(node.without_pane(target_id))
        },
        !node.has_pane(target_id) ==> res == Some(node),
        node.unique_ids() && node.has_pane(target_id) && res is Some ==> {
            &&& res->0.leaf_ids().to_multiset() == node.leaf_ids().to_multiset().remove(target_id)
            &&& res->0.unique_ids()
            &&& !res->0.has_pane(target_id)
        },
    decreases node,
{
    proof {
        node.lemma_has_pane(target_id);
        if !node.has_pane(target_id) {
            node.lemma_without_pane_absent(target_id);
        } else if node.unique_ids() && node is Split {
            node.lemma_without_pane_panes(target_id);
        }
    }
    match node {
        LayoutNode::Leaf { id, content } => {
            if id == target_id {
                None
            } else {
                Some(LayoutNode::Leaf { id, content })
            }
        },
        LayoutNode::Split { direction, ratio, first, second } => {
            if first.is_pane(target_id) {
                return Some(*second);
            }
            if second.is_pane(target_id) {
                return Some(*first);
            }
            let new_first = close_node(*first, target_id);
            let new_second = close_node(*second, target_id);
            match (new_first, new_second) {
                (Some(f), Some(s)) => Some(
                    LayoutNode::Split {
                        direction,
                        ratio,
                        first: Box::new(f),
                        second: Box::new(s),
                    },
                ),
                (Some(f), None) => Some(f),
                (None, Some(s)) => Some(s),
                (None, None) => None,
            }
        },
    }
}

/// Extract a pane from the tree, promoting its sibling. Returns the tree
/// without the pane and the pane's content, or `None` where the tree does
/// not hold the pane or is a single leaf.
pub fn extract_pane<T>(node: LayoutNode<T>, target_id: PaneId) -> (res: Option<
    (LayoutNode<T>, T),
>)
    ensures
        res == node.extraction(target_id),
        res is Some <==> node is Split && node.has_pane(target_id),
        node.unique_ids() ==> match res {
            Some((rest, content)) => {
                &&& rest == node.without_pane(target_id)
                &&& node.content_of(target_id) == Some(content)
                &&& rest.leaf_ids().to_multiset() == node.leaf_ids().to_multiset().remove(
                    target_id,
                )
                &&& rest.unique_ids()
                &&& !rest.has_pane(target_id)
            },
            None => true,
        },
    decreases node,
{
    proof {
        node.lemma_extraction_some(target_id);
        if node.unique_ids() && node is Split && node.has_pane(target_id) {
            node.lemma_without_pane_panes(target_id);
            node.lemma_pane_index(target_id);
        }
    }
    match node {
        LayoutNode::Leaf { .. } => None,
        LayoutNode::Split { direction, ratio, first, second } => {
            if first.is_pane(target_id) {
                return match *first {
                    LayoutNode::Leaf { content, .. } => Some((*second, content)),
                    LayoutNode::Split { .. } => None,
                };
            }
            if second.is_pane(target_id) {
                return match *second {
                    LayoutNode::Leaf { content, .. } => Some((*first, content)),
                    LayoutNode::Split { .. } => None,
                };
            }
            if first.contains_pane(target_id) {
                match extract_pane(*first, target_id) {
                    Some((new_first, content)) => Some(
                        (
                            LayoutNode::Split {
                                direction,
                                ratio,
                                first: Box::new(new_first),
                                second,
                            },
                            content,
                        ),
                    ),
                    None => None,
                }
            } else if second.contains_pane(target_id) {
                match extract_pane(*second, target_id) {
                    Some((new_second, content)) => Some(
                        (
                            LayoutNode::Split {
                                direction,
                                ratio,
                                first,
                                second: Box::new(new_second),
                            },
                            content,
                        ),
                    ),
                    None => None,
                }
            } else {
                None
            }
        },
    }
}

/// Walks the tree for `insert_adjacent`, handing the content on until the
/// first leaf carrying `target_id` takes it.
fn insert_impl<T>(
    node: LayoutNode<T>,
    target_id: PaneId,
    new_id: PaneId,
    new_content: Option<T>,
    split_direction: SplitDirection,
    before: bool,
) -> (res: (LayoutNode<T>, Option<T>))
    ensures
        match new_content {
            Some(c) => {
                &&& res.0 == node.with_adjacent(target_id, new_id, c, split_direction, before)
                &&& res.1 == if node.has_pane(target_id) {
                    None
                } else {
                    Some(c)
                }
            },
            None => res.0 == node && res.1 is None,
        },
    decreases node,
{
    match node {
        LayoutNode::Leaf { id, content } => {
            proof {
                node.lemma_has_pane(target_id);
            }
            if id == target_id {
                match new_content {
                    Some(nc) => {
                        let target_leaf = LayoutNode::Leaf { id, content };
                        let new_leaf = LayoutNode::Leaf { id: new_id, content: nc };
                        let (first, second) = if before {
                            (new_leaf, target_leaf)
                        } else {
                            (target_leaf, new_leaf)
                        };
                        (
                            LayoutNode::Split {
                                direction: split_direction,
                                ratio: DEFAULT_SPLIT_RATIO,
                                first: Box::new(first),
                                second: Box::new(second),
                            },
                            None,
                        )
                    },
                    None => (LayoutNode::Leaf { id, content }, None),
                }
            } else {
                (LayoutNode::Leaf { id, content }, new_content)
            }
        },
        LayoutNode::Split { direction, ratio, first, second } => {
            proof {
                node.lemma_has_pane(target_id);
                if new_content is Some && !first.has_pane(target_id) {
                    first.lemma_with_adjacent_absent(
                        target_id,
                        new_id,
                        new_content->0,
                        split_direction,
                        before,
                    );
                }
            }
            let (new_first, remaining) = insert_impl(
                *first,
                target_id,
                new_id,
                new_content,
                split_direction,
                before,
            );
            if remaining.is_none() {
                return (
                    LayoutNode::Split { direction, ratio, first: Box::new(new_first), second },
                    None,
                );
            }
            let (new_second, remaining) = insert_impl(
                *second,
                target_id,
                new_id,
                remaining,
                split_direction,
                before,
            );
            (
                LayoutNode::Split {
                    direction,
                    ratio,
                    first: Box::new(new_first),
                    second: Box::new(new_second),
                },
                remaining,
            )
        },
    }
}

/// Insert content adjacent to a target pane, creating a new split at the
/// default ratio in the place of the target leaf. With `before` the new
/// pane becomes the first child (top or left), else the second. The tree
/// comes back unchanged, and the content is dropped, where no leaf carries
/// `target_id`.
pub fn insert_adjacent<T>(
    node: LayoutNode<T>,
    target_id: PaneId,
    new_id: PaneId,
    new_content: T,
    split_direction: SplitDirection,
    before: bool,
) -> (res: LayoutNode<T>)
    ensures
        res == node.with_adjacent(target_id, new_id, new_content, split_direction, before),
        node.has_pane(target_id) ==> res.leaf_ids().to_multiset()
            == node.leaf_ids().to_multiset().insert(new_id),
        !node.has_pane(target_id) ==> res == node,
        node.unique_ids() && !node.has_pane(new_id) ==> res.unique_ids(),
{
    proof {
        if node.has_pane(target_id) {
            node.lemma_with_adjacent_panes(target_id, new_id, new_content, split_direction, before);
        } else {
            node.lemma_with_adjacent_absent(
                target_id,
                new_id,
                new_content,
                split_direction,
                before,
            );
        }
    }
    let (result, _) = insert_impl(
        node,
        target_id,
        new_id,
        Some(new_content),
        split_direction,
        before,
    );
    result
}

impl<T> LayoutNode<T> {
    /// Setting a pane beside a target that the tree does not hold changes
    /// nothing.
    pub proof fn lemma_with_adjacent_absent(
        self,
        target: PaneId,
        new_id: PaneId,
        content: T,
        direction: SplitDirection,
        before: bool,
    )
        requires
            !self.has_pane(target),
        ensures
            self.with_adjacent(target, new_id, content, direction, before) == self,
        decreases self,
    {
        match self {
            LayoutNode::Leaf { .. } => {
                self.lemma_has_pane(target);
            },
            LayoutNode::Split { first, second, .. } => {
                self.lemma_has_pane(target);
                second.lemma_with_adjacent_absent(target, new_id, content, direction, before);
            },
        }
    }

    /// Where the tree holds `target`, `pane_index` is the place of its first
    /// leaf carrying it.
    pub proof fn lemma_pane_index(self, target: PaneId)
        requires
            self.has_pane(target),
        ensures
            0 <= self.pane_index(target) < self.leaf_count(),
            self.leaf_ids()[self.pane_index(target)] == target,
            forall|j: int| 0 <= j < self.pane_index(target) ==> self.leaf_ids()[j] != target,
            self.leaves().len() == self.leaf_count(),
            self.leaves()[self.pane_index(target)].0 == target,
            self.content_of(target) == Some(self.leaves()[self.pane_index(target)].1),
        decreases self,
    {
        self.lemma_has_pane(target);
        self.lemma_leaf_ids_of_leaves();
        match self {
            LayoutNode::Leaf { .. } => {},
            LayoutNode::Split { first, second, .. } => {
                first.lemma_leaf_ids_of_leaves();
                second.lemma_leaf_ids_of_leaves();
                if first.has_pane(target) {
                    first.lemma_pane_index(target);
                } else {
                    second.lemma_pane_index(target);
                    assert forall|j: int| 0 <= j < self.pane_index(target) implies self.leaf_ids()[j]
                        != target by {
                        if j < first.leaf_count() {
                            assert(first.leaf_ids()[j] == self.leaf_ids()[j]);
                        }
                    }
                }
            },
        }
    }

    /// Setting a pane beside `target` puts one leaf into the depth-first
    /// order, directly before or after the target's leaf, and leaves every
    /// other leaf where it was.
    pub proof fn lemma_with_adjacent_leaves(
        self,
        target: PaneId,
        new_id: PaneId,
        content: T,
        direction: SplitDirection,
        before: bool,
    )
        requires
            self.has_pane(target),
        ensures
            ({
                let at = self.pane_index(target) + if before {
                    0int
                } else {
                    1int
                };
                let res = self.with_adjacent(target, new_id, content, direction, before);
                &&& 0 <= at <= self.leaf_count()
                &&& self.leaves().len() == self.leaf_count()
                &&& res.leaves() == self.leaves().insert(at, (new_id, content))
                &&& res.leaf_ids() == self.leaf_ids().insert(at, new_id)
                &&& res is Split
            }),
        decreases self,
    {
        let x = (new_id, content);
        self.lemma_has_pane(target);
        self.lemma_pane_index(target);
        match self {
            LayoutNode::Leaf { id, content: own } => {
                let added = LayoutNode::Leaf { id: new_id, content };
                assert(added.leaves() == seq![x]);
                assert(added.leaf_ids() == seq![new_id]);
                lemma_insert_single((id, own), x);
                lemma_insert_single(id, new_id);
            },
            LayoutNode::Split { first, second, .. } => {
                first.lemma_leaf_ids_of_leaves();
                second.lemma_leaf_ids_of_leaves();
                if first.has_pane(target) {
                    first.lemma_with_adjacent_leaves(target, new_id, content, direction, before);
                    let k = first.pane_index(target) + if before {
                        0int
                    } else {
                        1int
                    };
                    lemma_insert_left(first.leaves(), second.leaves(), k, x);
                    lemma_insert_left(first.leaf_ids(), second.leaf_ids(), k, new_id);
                } else {
                    second.lemma_with_adjacent_leaves(target, new_id, content, direction, before);
                    let k = second.pane_index(target) + if before {
                        0int
                    } else {
                        1int
                    };
                    lemma_insert_right(first.leaves(), second.leaves(), k, x);
                    lemma_insert_right(first.leaf_ids(), second.leaf_ids(), k, new_id);
                }
            },
        }
    }

    /// Taking a pane out of a tree that does not hold it changes nothing.
    pub proof fn lemma_without_pane_absent(self, target: PaneId)
        requires
            !self.has_pane(target),
        ensures
            self.without_pane(target) == self,
            self.extraction(target) is None,
        decreases self,
    {
        self.lemma_has_pane(target);
        match self {
            LayoutNode::Leaf { .. } => {},
            LayoutNode::Split { first, second, .. } => {
                first.lemma_has_pane(target);
                second.lemma_has_pane(target);
                first.lemma_without_pane_absent(target);
                second.lemma_without_pane_absent(target);
            },
        }
    }

    /// In a tree of unique ids with more than one pane, taking `target` out
    /// removes its one leaf from the depth-first order and leaves every other
    /// leaf where it was; extracting it yields the same tree and the content
    /// of that leaf.
    pub proof fn lemma_without_pane_leaves(self, target: PaneId)
        requires
            self.unique_ids(),
            self.has_pane(target),
            self is Split,
        ensures
            ({
                let at = self.pane_index(target);
                let res = self.without_pane(target);
                &&& 0 <= at < self.leaf_count()
                &&& self.leaves().len() == self.leaf_count()
                &&& res.leaves() == self.leaves().remove(at)
                &&& res.leaf_ids() == self.leaf_ids().remove(at)
                &&& self.extraction(target) == Some((res, self.leaves()[at].1))
            }),
        decreases self,
    {
        self.lemma_has_pane(target);
        self.lemma_pane_index(target);
        self.lemma_unique_children();
        match self {
            LayoutNode::Leaf { .. } => {},
            LayoutNode::Split { first, second, .. } => {
                first.lemma_leaf_ids_of_leaves();
                second.lemma_leaf_ids_of_leaves();
                first.lemma_has_pane(target);
                second.lemma_has_pane(target);
                if first.is_leaf_with(target) {
                    lemma_remove_head((first->id, first->content), second.leaves());
                    lemma_remove_head(first->id, second.leaf_ids());
                } else if second.is_leaf_with(target) {
                    assert(!first.has_pane(target));
                    lemma_remove_last(first.leaves(), (second->id, second->content));
                    lemma_remove_last(first.leaf_ids(), second->id);
                } else if first.has_pane(target) {
                    assert(!second.has_pane(target));
                    first.lemma_without_pane_leaves(target);
                    second.lemma_without_pane_absent(target);
                    let k = first.pane_index(target);
                    lemma_remove_left(first.leaves(), second.leaves(), k);
                    lemma_remove_left(first.leaf_ids(), second.leaf_ids(), k);
                } else {
                    second.lemma_without_pane_leaves(target);
                    first.lemma_without_pane_absent(target);
                    let k = second.pane_index(target);
                    lemma_remove_right(first.leaves(), second.leaves(), k);
                    lemma_remove_right(first.leaf_ids(), second.leaf_ids(), k);
                }
            },
        }
    }

    /// A pane can be extracted exactly from a tree of more than one pane
    /// that holds it.
    pub proof fn lemma_extraction_some(self, target: PaneId)
        ensures
            self.extraction(target) is Some <==> self is Split && self.has_pane(target),
        decreases self,
    {
        self.lemma_has_pane(target);
        match self {
            LayoutNode::Leaf { .. } => {},
            LayoutNode::Split { first, second, .. } => {
                first.lemma_has_pane(target);
                second.lemma_has_pane(target);
                first.lemma_extraction_some(target);
                second.lemma_extraction_some(target);
            },
        }
    }

    /// Setting a new pane beside `target` adds exactly that pane: the tree
    /// then holds what it held and the new id, each as often as before, and
    /// ids stay unique where the new id was not in the tree.
    pub proof fn lemma_with_adjacent_panes(
        self,
        target: PaneId,
        new_id: PaneId,
        content: T,
        direction: SplitDirection,
        before: bool,
    )
        requires
            self.has_pane(target),
        ensures
            ({
                let res = self.with_adjacent(target, new_id, content, direction, before);
                &&& res.leaf_ids().to_multiset() == self.leaf_ids().to_multiset().insert(new_id)
                &&& res.leaves().to_multiset() == self.leaves().to_multiset().insert(
                    (new_id, content),
                )
                &&& res.leaf_count() == self.leaf_count() + 1
                &&& forall|id: PaneId| res.has_pane(id) <==> self.has_pane(id) || id == new_id
                &&& self.unique_ids() && !self.has_pane(new_id) ==> res.unique_ids()
                &&& self.ratios_bounded() ==> res.ratios_bounded()
                &&& res.leaves().contains((new_id, content))
            }),
    {
        let at = self.pane_index(target) + if before {
            0int
        } else {
            1int
        };
        self.lemma_with_adjacent_leaves(target, new_id, content, direction, before);
        lemma_insert_contents(self.leaf_ids(), at, new_id);
        lemma_insert_contents(self.leaves(), at, (new_id, content));
        assert(self.leaves().insert(at, (new_id, content)).contains((new_id, content)));
        if self.ratios_bounded() {
            self.lemma_with_adjacent_ratios(target, new_id, content, direction, before);
        }
    }

    /// Setting a pane beside another keeps every ratio within its bounds.
    pub proof fn lemma_with_adjacent_ratios(
        self,
        target: PaneId,
        new_id: PaneId,
        content: T,
        direction: SplitDirection,
        before: bool,
    )
        requires
            self.ratios_bounded(),
        ensures
            self.with_adjacent(target, new_id, content, direction, before).ratios_bounded(),
        decreases self,
    {
        match self {
            LayoutNode::Leaf { .. } => {
                let added = LayoutNode::Leaf { id: new_id, content };
                assert(added.ratios_bounded());
            },
            LayoutNode::Split { first, second, .. } => {
                first.lemma_with_adjacent_ratios(target, new_id, content, direction, before);
                second.lemma_with_adjacent_ratios(target, new_id, content, direction, before);
            },
        }
    }

    /// Taking a pane out keeps every ratio within its bounds.
    pub proof fn lemma_without_pane_ratios(self, target: PaneId)
        requires
            self.ratios_bounded(),
        ensures
            self.without_pane(target).ratios_bounded(),
        decreases self,
    {
        match self {
            LayoutNode::Leaf { .. } => {},
            LayoutNode::Split { first, second, .. } => {
                first.lemma_without_pane_ratios(target);
                second.lemma_without_pane_ratios(target);
            },
        }
    }

    /// In a tree of unique ids with more than one pane, taking `target` out
    /// removes exactly that pane: the tree then holds what it held but for
    /// `target`, and its ids are still unique.
    pub proof fn lemma_without_pane_panes(self, target: PaneId)
        requires
            self.unique_ids(),
            self.has_pane(target),
            self is Split,
        ensures
            ({
                let res = self.without_pane(target);
                let at = self.pane_index(target);
                &&& res.leaf_ids().to_multiset() == self.leaf_ids().to_multiset().remove(target)
                &&& res.leaves().to_multiset() == self.leaves().to_multiset().remove(
                    self.leaves()[at],
                )
                &&& self.leaves()[at].0 == target
                &&& res.leaf_count() + 1 == self.leaf_count()
                &&& forall|id: PaneId| res.has_pane(id) <==> self.has_pane(id) && id != target
                &&& res.unique_ids()
                &&& self.ratios_bounded() ==> res.ratios_bounded()
                &&& self.extraction(target) == Some((res, self.leaves()[at].1))
            }),
    {
        let at = self.pane_index(target);
        self.lemma_without_pane_leaves(target);
        self.lemma_pane_index(target);
        self.lemma_leaf_ids_of_leaves();
        lemma_remove_contents(self.leaf_ids(), at);
        vstd::seq_lib::to_multiset_remove(self.leaves(), at);
        if self.ratios_bounded() {
            self.lemma_without_pane_ratios(target);
        }
    }

    /// Closing the pane that was just set beside another restores the tree:
    /// splitting and closing are inverse on the newly added leaf.
    pub proof fn lemma_close_undoes_split(
        self,
        target: PaneId,
        new_id: PaneId,
        content: T,
        direction: SplitDirection,
        before: bool,
    )
        requires
            self.has_pane(target),
            !self.has_pane(new_id),
        ensures
            ({
                let grown = self.with_adjacent(target, new_id, content, direction, before);
                &&& !grown.is_leaf_with(new_id)
                &&& grown.without_pane(new_id) == self
            }),
        decreases self,
    {
        self.lemma_has_pane(target);
        self.lemma_has_pane(new_id);
        let grown = self.with_adjacent(target, new_id, content, direction, before);
        match self {
            LayoutNode::Leaf { .. } => {
            },
            LayoutNode::Split { first, second, .. } => {
                first.lemma_has_pane(new_id);
                second.lemma_has_pane(new_id);
                if first.has_pane(target) {
                    first.lemma_close_undoes_split(target, new_id, content, direction, before);
                    first.lemma_with_adjacent_leaves(target, new_id, content, direction, before);
                    second.lemma_without_pane_absent(new_id);
                } else {
                    second.lemma_close_undoes_split(target, new_id, content, direction, before);
                    second.lemma_with_adjacent_leaves(target, new_id, content, direction, before);
                    first.lemma_without_pane_absent(new_id);
                }
            },
        }
    }

    /// Extracting a pane and setting it back beside any pane that is left
    /// gives a tree with the same panes, ids and contents, as before, each
    /// once.
    pub proof fn lemma_extract_insert_keeps_panes(
        self,
        id: PaneId,
        target: PaneId,
        direction: SplitDirection,
        before: bool,
    )
        requires
            self.unique_ids(),
            self.leaf_count() >= 2,
            self.has_pane(id),
            self.has_pane(target),
            target != id,
        ensures
            self.extraction(id) is Some,
            ({
                let (rest, content) = self.extraction(id)->0;
                let res = rest.with_adjacent(target, id, content, direction, before);
                &&& rest.has_pane(target)
                &&& !rest.has_pane(id)
                &&& res.leaf_ids().to_multiset() == self.leaf_ids().to_multiset()
                &&& res.leaves().to_multiset() == self.leaves().to_multiset()
                &&& res.unique_ids()
                &&& res.leaf_count() == self.leaf_count()
                &&& forall|p: PaneId| res.has_pane(p) <==> self.has_pane(p)
                &&& res.content_of(id) == self.content_of(id)
            }),
    {
        assert(self is Split) by {
            if self is Leaf {
                assert(self.leaf_ids().len() == 1);
            }
        }
        self.lemma_without_pane_panes(id);
        let rest = self.without_pane(id);
        let at = self.pane_index(id);
        let content = self.leaves()[at].1;
        self.lemma_pane_index(id);
        rest.lemma_with_adjacent_panes(target, id, content, direction, before);
        let res = rest.with_adjacent(target, id, content, direction, before);
        self.leaf_ids().to_multiset_ensures();
        self.leaves().to_multiset_ensures();
        assert(self.leaves().contains(self.leaves()[at]));
        assert(self.leaves()[at] == (id, content));
        assert(res.leaf_ids().to_multiset() =~= self.leaf_ids().to_multiset());
        assert(res.leaves().to_multiset() =~= self.leaves().to_multiset());
        res.lemma_content_unique(id, content);
        self.lemma_content_unique(id, content);
    }

    /// In a tree of unique ids, the content found under an id is that of the
    /// one leaf that carries it.
    pub proof fn lemma_content_unique(self, id: PaneId, content: T)
        requires
            self.leaves().contains((id, content)),
        ensures
            self.has_pane(id),
            self.unique_ids() ==> self.content_of(id) == Some(content),
    {
        let k = choose|k: int| 0 <= k < self.leaves().len() && self.leaves()[k] == (id, content);
        self.lemma_leaf_ids_of_leaves();
        assert(self.leaf_ids()[k] == id);
        self.lemma_pane_index(id);
    }
}

} // verus!
