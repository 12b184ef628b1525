//! The binary split tree: each node is a leaf holding one pane, or a split
//! dividing its space between two subtrees.

use crate::geometry::{SplitDirection, MAX_SPLIT_RATIO, MIN_SPLIT_RATIO};
use crate::seq_facts::lemma_contains_concat;
use vstd::prelude::*;

verus! {

/// Unique identifier for a pane.
#[derive(Debug, Clone, Copy, PartialEq, Eq, Hash, Structural)]
pub struct PaneId(pub u64);

/// A node in the binary split tree.
pub enum LayoutNode<T> {
    /// A leaf holding one pane's identity and content.
    Leaf { id: PaneId, content: T },
    /// A split dividing its space between two children.
    Split {
        direction: SplitDirection,
        /// Share of the first child, in parts of `RATIO_SCALE`.
        ratio: u32,
        first: Box<LayoutNode<T>>,
        second: Box<LayoutNode<T>>,
    },
}

impl<T> LayoutNode<T> {
    /// The panes of the tree with their contents, first child before second.
    pub open spec fn leaves(self) -> Seq<(PaneId, T)>
        decreases self,
    {
        match self {
            LayoutNode::Leaf { id, content } => seq![(id, content)],
            LayoutNode::Split { first, second, .. } => first.leaves() + second.leaves(),
        }
    }

    /// The pane ids of the tree, first child before second.
    pub open spec fn leaf_ids(self) -> Seq<PaneId>
        decreases self,
    {
        match self {
            LayoutNode::Leaf { id, .. } => seq![id],
            LayoutNode::Split { first, second, .. } => first.leaf_ids() + second.leaf_ids(),
        }
    }

    /// Number of panes in the tree.
    pub open spec fn leaf_count(self) -> nat {
        self.leaf_ids().len()
    }

    /// Number of split nodes in the tree.
    pub open spec fn split_count(self) -> nat
        decreases self,
    {
        match self {
            LayoutNode::Leaf { .. } => 0,
            LayoutNode::Split { first, second, .. } => 1 + first.split_count()
                + second.split_count(),
        }
    }

    /// Whether some leaf of the tree carries `id`.
    pub open spec fn has_pane(self, id: PaneId) -> bool {
        self.leaf_ids().contains(id)
    }

    /// Whether the node is a leaf carrying `id`.
    pub open spec fn is_leaf_with(self, id: PaneId) -> bool {
        self matches LayoutNode::Leaf { id: own, .. } && own == id
    }

    /// No pane id occurs twice in the tree.
    pub open spec fn unique_ids(self) -> bool {
        self.leaf_ids().no_duplicates()
    }

    /// Every split stores a ratio in `[MIN_SPLIT_RATIO, MAX_SPLIT_RATIO]`.
    pub open spec fn ratios_bounded(self) -> bool
        decreases self,
    {
        match self {
            LayoutNode::Leaf { .. } => true,
            LayoutNode::Split { ratio, first, second, .. } => {
                &&& MIN_SPLIT_RATIO <= ratio <= MAX_SPLIT_RATIO
                &&& first.ratios_bounded()
                &&& second.ratios_bounded()
            },
        }
    }

    /// The invariants of a layout tree: unique pane ids, bounded ratios.
    pub open spec fn well_formed(self) -> bool {
        self.unique_ids() && self.ratios_bounded()
    }

    /// Content of the first leaf, in depth-first order, that carries `target`.
    pub open spec fn content_of(self, target: PaneId) -> Option<T>
        decreases self,
    {
        match self {
            LayoutNode::Leaf { id, content } => if id == target {
                Some(content)
            } else {
                None
            },
            LayoutNode::Split { first, second, .. } => if first.has_pane(target) {
                first.content_of(target)
            } else {
                second.content_of(target)
            },
        }
    }

    /// Turns taken from the root to the first leaf, in depth-first order,
    /// that carries `target`: `false` into a first child, `true` into a
    /// second. Empty where no leaf carries it.
    pub open spec fn path_to(self, target: PaneId) -> Seq<bool>
        decreases self,
    {
        match self {
            LayoutNode::Leaf { .. } => Seq::empty(),
            LayoutNode::Split { first, second, .. } => if first.has_pane(target) {
                seq![false] + first.path_to(target)
            } else if second.has_pane(target) {
                seq![true] + second.path_to(target)
            } else {
                Seq::empty()
            },
        }
    }

    /// The node reached from the root by the turns of `path`.
    pub open spec fn node_at(self, path: Seq<bool>) -> Option<LayoutNode<T>>
        decreases path.len(),
    {
        if path.len() == 0 {
            Some(self)
        } else {
            match self {
                LayoutNode::Leaf { .. } => None,
                LayoutNode::Split { first, second, .. } => if path[0] {
                    second.node_at(path.drop_first())
                } else {
                    first.node_at(path.drop_first())
                },
            }
        }
    }

    /// A leaf holds its own id and no other; a split holds what its
    /// children hold.
    pub proof fn lemma_has_pane(self, target: PaneId)
        ensures
            match self {
                LayoutNode::Leaf { id, .. } => self.has_pane(target) <==> id == target,
                LayoutNode::Split { first, second, .. } => self.has_pane(target) <==> (
                first.has_pane(target) || second.has_pane(target)),
            },
    {
        match self {
            LayoutNode::Leaf { id, .. } => {
                assert(self.leaf_ids()[0] == id);
            },
            LayoutNode::Split { first, second, .. } => {
                lemma_contains_concat(first.leaf_ids(), second.leaf_ids(), target);
            },
        }
    }

    /// Where the ids of a split are unique, those of each child are, and no
    /// id is held by both children.
    pub proof fn lemma_unique_children(self)
        requires
            self.unique_ids(),
        ensures
            match self {
                LayoutNode::Leaf { .. } => true,
                LayoutNode::Split { first, second, .. } => {
                    &&& first.unique_ids()
                    &&& second.unique_ids()
                    &&& forall|id: PaneId| !(first.has_pane(id) && second.has_pane(id))
                },
            },
    {
        match self {
            LayoutNode::Leaf { .. } => {},
            LayoutNode::Split { first, second, .. } => {
                let a = first.leaf_ids();
                let b = second.leaf_ids();
                assert forall|i: int, j: int| 0 <= i < a.len() && 0 <= j < a.len() && i != j
                    implies a[i] != a[j] by {
                    assert((a + b)[i] == a[i] && (a + b)[j] == a[j]);
                }
                assert forall|i: int, j: int| 0 <= i < b.len() && 0 <= j < b.len() && i != j
                    implies b[i] != b[j] by {
                    assert((a + b)[a.len() + i] == b[i] && (a + b)[a.len() + j] == b[j]);
                }
                assert forall|id: PaneId| !(first.has_pane(id) && second.has_pane(id)) by {
                    if first.has_pane(id) && second.has_pane(id) {
                        let i = choose|i: int| 0 <= i < a.len() && a[i] == id;
                        let j = choose|j: int| 0 <= j < b.len() && b[j] == id;
                        assert((a + b)[i] == id && (a + b)[a.len() + j] == id);
                    }
                }
            },
        }
    }

    /// A tree has exactly one split fewer than it has panes.
    pub proof fn lemma_split_count(self)
        ensures
            self.leaf_count() == self.split_count() + 1,
        decreases self,
    {
        match self {
            LayoutNode::Leaf { .. } => {},
            LayoutNode::Split { first, second, .. } => {
                first.lemma_split_count();
                second.lemma_split_count();
            },
        }
    }

    /// The ids are the first components of the leaves, place by place.
    pub proof fn lemma_leaf_ids_of_leaves(self)
        ensures
            self.leaf_ids().len() == self.leaves().len(),
            forall|i: int|
                0 <= i < self.leaves().len() ==> (#[trigger] self.leaves()[i]).0
                    == self.leaf_ids()[i],
        decreases self,
    {
        match self {
            LayoutNode::Leaf { .. } => {},
            LayoutNode::Split { first, second, .. } => {
                first.lemma_leaf_ids_of_leaves();
                second.lemma_leaf_ids_of_leaves();
            },
        }
    }

    /// Count total panes in the tree.
    pub fn pane_count(&self) -> (n: usize)
        requires
            self.leaf_count() <= usize::MAX,
        ensures
            n == self.leaf_count(),
        decreases self,
    {
        match self {
            LayoutNode::Leaf { .. } => 1,
            LayoutNode::Split { first, second, .. } => {
                first.pane_count() + second.pane_count()
            },
        }
    }

    /// Collect all pane ids in depth-first order, appending them to `out`.
    pub fn collect_pane_ids(&self, out: &mut Vec<PaneId>)
        ensures
            final(out)@ == old(out)@ + self.leaf_ids(),
        decreases self,
    {
        match self {
            LayoutNode::Leaf { id, .. } => {
                out.push(*id);
                assert(out@ =~= old(out)@ + self.leaf_ids());
            },
            LayoutNode::Split { first, second, .. } => {
                first.collect_pane_ids(out);
                second.collect_pane_ids(out);
                assert(out@ =~= old(out)@ + self.leaf_ids());
            },
        }
    }

    /// Whether some leaf of the tree carries `target`.
    pub fn contains_pane(&self, target: PaneId) -> (found: bool)
        ensures
            found == self.has_pane(target),
        decreases self,
    {
        match self {
            LayoutNode::Leaf { id, .. } => {
                proof {
                    self.lemma_has_pane(target);
                }
                *id == target
            },
            LayoutNode::Split { first, second, .. } => {
                proof {
                    self.lemma_has_pane(target);
                }
                first.contains_pane(target) || second.contains_pane(target)
            },
        }
    }

    /// The tree with the content of the first leaf carrying `target`
    /// replaced; the tree itself where no leaf carries it.
    pub open spec fn with_content(self, target: PaneId, content: T) -> LayoutNode<T>
        decreases self,
    {
        match self {
            LayoutNode::Leaf { id, .. } => if id == target {
                LayoutNode::Leaf { id, content }
            } else {
                self
            },
            LayoutNode::Split { direction, ratio, first, second } => if first.has_pane(target) {
                LayoutNode::Split {
                    direction,
                    ratio,
                    first: Box::new(first.with_content(target, content)),
                    second,
                }
            } else {
                LayoutNode::Split {
                    direction,
                    ratio,
                    first,
                    second: Box::new(second.with_content(target, content)),
                }
            },
        }
    }

    /// Replacing a content changes neither the shape of the tree nor its
    /// ids, and the tree then has the new content under the id.
    pub proof fn lemma_with_content(self, target: PaneId, content: T)
        ensures
            self.with_content(target, content).same_shape(self),
            self.with_content(target, content).leaf_ids() == self.leaf_ids(),
            self.with_content(target, content).ratios_bounded() == self.ratios_bounded(),
            self.has_pane(target) ==> self.with_content(target, content).content_of(target)
                == Some(content),
        decreases self,
    {
        self.lemma_has_pane(target);
        self.lemma_same_shape_refl();
        match self {
            LayoutNode::Leaf { .. } => {},
            LayoutNode::Split { first, second, .. } => {
                first.lemma_with_content(target, content);
                second.lemma_with_content(target, content);
                first.lemma_same_shape_refl();
                second.lemma_same_shape_refl();
            },
        }
    }

    /// Every tree has its own shape.
    pub proof fn lemma_same_shape_refl(self)
        ensures
            self.same_shape(self),
        decreases self,
    {
        match self {
            LayoutNode::Leaf { .. } => {},
            LayoutNode::Split { first, second, .. } => {
                first.lemma_same_shape_refl();
                second.lemma_same_shape_refl();
            },
        }
    }

    /// A tree has content under an id exactly if it holds the id.
    pub proof fn lemma_content_of(self, target: PaneId)
        ensures
            self.content_of(target) is Some <==> self.has_pane(target),
        decreases self,
    {
        self.lemma_has_pane(target);
        match self {
            LayoutNode::Leaf { .. } => {},
            LayoutNode::Split { first, second, .. } => {
                first.lemma_content_of(target);
                second.lemma_content_of(target);
            },
        }
    }

    /// Find the leaf carrying `target` and return a reference to its content.
    pub fn get_content(&self, target: PaneId) -> (res: Option<&T>)
        ensures
            res is Some <==> self.has_pane(target),
            match res {
                Some(content) => self.content_of(target) == Some(*content),
                None => self.content_of(target) is None,
            },
        decreases self,
    {
        proof {
            self.lemma_has_pane(target);
            self.lemma_content_of(target);
        }
        match self {
            LayoutNode::Leaf { id, content } => {
                if *id == target {
                    Some(content)
                } else {
                    None
                }
            },
            LayoutNode::Split { first, second, .. } => {
                match first.get_content(target) {
                    Some(content) => Some(content),
                    None => second.get_content(target),
                }
            },
        }
    }

    /// Find the leaf carrying `target` and return a mutable reference to its
    /// content. What the caller writes through it becomes the content of
    /// that leaf; nothing else in the tree changes.
    pub fn get_content_mut(&mut self, target: PaneId) -> (res: Option<&mut T>)
        ensures
            res is Some <==> old(self).has_pane(target),
            match res {
                Some(content) => {
                    &&& old(self).content_of(target) == Some(*content)
                    &&& *final(self) == old(self).with_content(target, *final(content))
                },
                None => *final(self) == *old(self),
            },
        decreases *old(self),
    {
        proof {
            self.lemma_has_pane(target);
            self.lemma_content_of(target);
        }
        match self {
            LayoutNode::Leaf { id, content } => {
                if *id == target {
                    Some(content)
                } else {
                    None
                }
            },
            LayoutNode::Split { first, second, .. } => {
                if first.contains_pane(target) {
                    first.get_content_mut(target)
                } else {
                    second.get_content_mut(target)
                }
            },
        }
    }

    /// The tree with the node at `path` replaced by `node`; the tree itself
    /// where the path leads through a leaf.
    pub open spec fn with_node_at(self, path: Seq<bool>, node: LayoutNode<T>) -> LayoutNode<T>
        decreases path.len(),
    {
        if path.len() == 0 {
            node
        } else {
            match self {
                LayoutNode::Leaf { .. } => self,
                LayoutNode::Split { direction, ratio, first, second } => if path[0] {
                    LayoutNode::Split {
                        direction,
                        ratio,
                        first,
                        second: Box::new(second.with_node_at(path.drop_first(), node)),
                    }
                } else {
                    LayoutNode::Split {
                        direction,
                        ratio,
                        first: Box::new(first.with_node_at(path.drop_first(), node)),
                        second,
                    }
                },
            }
        }
    }

    /// The tree with the ratio of the split at `path` set to `ratio`; the
    /// tree itself where the path does not lead to a split.
    pub open spec fn with_ratio_at(self, path: Seq<bool>, ratio: u32) -> LayoutNode<T> {
        match self.node_at(path) {
            Some(LayoutNode::Split { direction, first, second, .. }) => self.with_node_at(
                path,
                LayoutNode::Split { direction, ratio, first, second },
            ),
            _ => self,
        }
    }

    /// Replacing a node by one with the same ids, in the same order, keeps
    /// the ids of the tree; where the new node and the tree had bounded
    /// ratios, the new tree has.
    pub proof fn lemma_with_node_at(self, path: Seq<bool>, node: LayoutNode<T>)
        requires
            self.node_at(path) matches Some(old_node) && old_node.leaf_ids() == node.leaf_ids(),
        ensures
            self.with_node_at(path, node).leaf_ids() == self.leaf_ids(),
            self.ratios_bounded() && node.ratios_bounded() ==> self.with_node_at(
                path,
                node,
            ).ratios_bounded(),
            self.with_node_at(path, node).node_at(path) == Some(node),
        decreases path.len(),
    {
        if path.len() > 0 {
            match self {
                LayoutNode::Leaf { .. } => {},
                LayoutNode::Split { first, second, .. } => {
                    if path[0] {
                        second.lemma_with_node_at(path.drop_first(), node);
                    } else {
                        first.lemma_with_node_at(path.drop_first(), node);
                    }
                },
            }
        }
    }

    /// Putting the node at `path` in its own place leaves the tree as it is.
    pub proof fn lemma_with_node_at_same(self, path: Seq<bool>)
        requires
            self.node_at(path) is Some,
        ensures
            self.with_node_at(path, self.node_at(path)->0) == self,
        decreases path.len(),
    {
        if path.len() > 0 {
            match self {
                LayoutNode::Leaf { .. } => {},
                LayoutNode::Split { first, second, .. } => {
                    if path[0] {
                        second.lemma_with_node_at_same(path.drop_first());
                    } else {
                        first.lemma_with_node_at_same(path.drop_first());
                    }
                },
            }
        }
    }

    /// In a tree of bounded ratios, every node has bounded ratios.
    pub proof fn lemma_node_at_bounded(self, path: Seq<bool>)
        requires
            self.ratios_bounded(),
            self.node_at(path) is Some,
        ensures
            self.node_at(path)->0.ratios_bounded(),
        decreases path.len(),
    {
        if path.len() > 0 {
            match self {
                LayoutNode::Leaf { .. } => {},
                LayoutNode::Split { first, second, .. } => {
                    if path[0] {
                        second.lemma_node_at_bounded(path.drop_first());
                    } else {
                        first.lemma_node_at_bounded(path.drop_first());
                    }
                },
            }
        }
    }

    /// Set the ratio of the split at `path`. Returns whether the path led
    /// to a split; the tree is left as it was where it did not.
    pub fn set_ratio_at_path(&mut self, path: &[bool], ratio: u32) -> (found: bool)
        ensures
            found == (old(self).node_at(path@) matches Some(node) && node is Split),
            *final(self) == old(self).with_ratio_at(path@, ratio),
    {
        match self.get_split_at_path_mut(path) {
            Some(node) => {
                match node {
                    LayoutNode::Split { ratio: own, .. } => {
                        *own = ratio;
                    },
                    LayoutNode::Leaf { .. } => {},
                }
                true
            },
            None => false,
        }
    }

    /// The path to a pane that the tree holds leads to a leaf that carries
    /// the pane's id.
    pub proof fn lemma_path_to(self, target: PaneId)
        requires
            self.has_pane(target),
        ensures
            self.node_at(self.path_to(target)) matches Some(node) && node.is_leaf_with(target),
        decreases self,
    {
        self.lemma_has_pane(target);
        match self {
            LayoutNode::Leaf { .. } => {},
            LayoutNode::Split { first, second, .. } => {
                if first.has_pane(target) {
                    first.lemma_path_to(target);
                    assert((seq![false] + first.path_to(target)).drop_first() =~= first.path_to(
                        target,
                    ));
                } else {
                    second.lemma_path_to(target);
                    assert((seq![true] + second.path_to(target)).drop_first() =~= second.path_to(
                        target,
                    ));
                }
            },
        }
    }

    /// Find the path to a pane. Where the tree holds `target`, the turns to
    /// its first leaf are appended to `path`; else `path` is left as it was.
    pub fn find_path_to_pane(&self, target: PaneId, path: &mut Vec<bool>) -> (found: bool)
        ensures
            found == self.has_pane(target),
            final(path)@ == old(path)@ + self.path_to(target),
            !found ==> final(path)@ == old(path)@,
        decreases self,
    {
        proof {
            self.lemma_has_pane(target);
        }
        match self {
            LayoutNode::Leaf { id, .. } => {
                assert(path@ =~= old(path)@ + self.path_to(target));
                *id == target
            },
            LayoutNode::Split { first, second, .. } => {
                path.push(false);
                if first.find_path_to_pane(target, path) {
                    assert(path@ =~= old(path)@ + self.path_to(target));
                    return true;
                }
                path.pop();
                assert(path@ =~= old(path)@);
                path.push(true);
                if second.find_path_to_pane(target, path) {
                    assert(path@ =~= old(path)@ + self.path_to(target));
                    return true;
                }
                path.pop();
                assert(path@ =~= old(path)@);
                assert(path@ =~= old(path)@ + self.path_to(target));
                false
            },
        }
    }

    /// Get the node at the given path, or `None` where the path leads
    /// through a leaf.
    pub fn get_node_at_path(&self, path: &[bool]) -> (res: Option<&Self>)
        ensures
            match res {
                Some(node) => self.node_at(path@) == Some(*node),
                None => self.node_at(path@) is None,
            },
        decreases path@.len(),
    {
        if path.len() == 0 {
            Some(self)
        } else {
            match self {
                LayoutNode::Split { first, second, .. } => {
                    let rest = vstd::slice::slice_subrange(path, 1, path.len());
                    assert(rest@ =~= path@.drop_first());
                    if path[0] {
                        second.get_node_at_path(rest)
                    } else {
                        first.get_node_at_path(rest)
                    }
                },
                LayoutNode::Leaf { .. } => None,
            }
        }
    }

    /// Get the node at the given path for writing. What the caller leaves
    /// behind the reference takes the node's place; nothing else changes.
    pub fn get_node_at_path_mut(&mut self, path: &[bool]) -> (res: Option<&mut Self>)
        ensures
            match res {
                Some(node) => {
                    &&& old(self).node_at(path@) == Some(*node)
                    &&& *final(self) == old(self).with_node_at(path@, *final(node))
                },
                None => old(self).node_at(path@) is None && *final(self) == *old(self),
            },
        decreases path@.len(),
    {
        if path.len() == 0 {
            Some(self)
        } else {
            match self {
                LayoutNode::Split { first, second, .. } => {
                    let rest = vstd::slice::slice_subrange(path, 1, path.len());
                    assert(rest@ =~= path@.drop_first());
                    if path[0] {
                        second.get_node_at_path_mut(rest)
                    } else {
                        first.get_node_at_path_mut(rest)
                    }
                },
                LayoutNode::Leaf { .. } => None,
            }
        }
    }

    /// Get the split node at the given path for writing, or `None` where
    /// the path leads through or to a leaf.
    pub fn get_split_at_path_mut(&mut self, path: &[bool]) -> (res: Option<&mut Self>)
        ensures
            res is Some <==> (old(self).node_at(path@) matches Some(node) && node is Split),
            match res {
                Some(node) => {
                    &&& old(self).node_at(path@) == Some(*node)
                    &&& *final(self) == old(self).with_node_at(path@, *final(node))
                },
                None => *final(self) == *old(self),
            },
        decreases path@.len(),
    {
        if path.len() == 0 {
            match self {
                LayoutNode::Split { .. } => Some(self),
                LayoutNode::Leaf { .. } => None,
            }
        } else {
            match self {
                LayoutNode::Split { first, second, .. } => {
                    let rest = vstd::slice::slice_subrange(path, 1, path.len());
                    assert(rest@ =~= path@.drop_first());
                    if path[0] {
                        second.get_split_at_path_mut(rest)
                    } else {
                        first.get_split_at_path_mut(rest)
                    }
                },
                LayoutNode::Leaf { .. } => None,
            }
        }
    }

    /// Collect all panes with references to their contents, in depth-first
    /// order.
    pub fn collect_contents(&self) -> (res: Vec<(PaneId, &T)>)
        ensures
            res@.len() == self.leaves().len(),
            forall|i: int|
                0 <= i < res@.len() ==> (#[trigger] res@[i]).0 == self.leaves()[i].0 && *res@[i].1
                    == self.leaves()[i].1,
    {
        let mut result = Vec::new();
        self.collect_contents_inner(&mut result);
        proof {
            assert forall|i: int| 0 <= i < result@.len() implies (#[trigger] result@[i]).0
                == self.leaves()[i].0 && *result@[i].1 == self.leaves()[i].1 by {
                assert(result@[0 + i] == result@[i]);
            }
        }
        result
    }

    fn collect_contents_inner<'a>(&'a self, out: &mut Vec<(PaneId, &'a T)>)
        ensures
            final(out)@.len() == old(out)@.len() + self.leaves().len(),
            forall|i: int| 0 <= i < old(out)@.len() ==> final(out)@[i] == old(out)@[i],
            forall|i: int|
                0 <= i < self.leaves().len() ==> (#[trigger] final(out)@[old(out)@.len() + i]).0
                    == self.leaves()[i].0 && *final(out)@[old(out)@.len() + i].1
                    == self.leaves()[i].1,
        decreases self,
    {
        match self {
            LayoutNode::Leaf { id, content } => {
                out.push((*id, content));
            },
            LayoutNode::Split { first, second, .. } => {
                let ghost base = out@.len();
                let ghost n1 = first.leaves().len();
                first.collect_contents_inner(out);
                let ghost mid = out@;
                second.collect_contents_inner(out);
                proof {
                    assert forall|i: int| 0 <= i < self.leaves().len() implies (
                    #[trigger] final(out)@[base + i]).0 == self.leaves()[i].0 && *final(out)@[base
                        + i].1 == self.leaves()[i].1 by {
                        if i < n1 {
                            assert(final(out)@[base + i] == mid[base + i]);
                        } else {
                            assert(final(out)@[(base + n1) + (i - n1)] == final(out)@[base + i]);
                        }
                    }
                }
            },
        }
    }

    /// Trees of the same shape have bounded ratios alike.
    pub proof fn lemma_same_shape_ratios(self, other: LayoutNode<T>)
        requires
            self.same_shape(other),
        ensures
            self.ratios_bounded() == other.ratios_bounded(),
        decreases self,
    {
        match (self, other) {
            (
                LayoutNode::Split { first, second, .. },
                LayoutNode::Split { first: other_first, second: other_second, .. },
            ) => {
                first.lemma_same_shape_ratios(*other_first);
                second.lemma_same_shape_ratios(*other_second);
            },
            _ => {},
        }
    }

    /// Whether two trees differ at most in the contents of their leaves.
    pub open spec fn same_shape(self, other: LayoutNode<T>) -> bool
        decreases self,
    {
        match (self, other) {
            (LayoutNode::Leaf { id, .. }, LayoutNode::Leaf { id: other_id, .. }) => id
                == other_id,
            (
                LayoutNode::Split { direction, ratio, first, second },
                LayoutNode::Split {
                    direction: other_direction,
                    ratio: other_ratio,
                    first: other_first,
                    second: other_second,
                },
            ) => {
                &&& direction == other_direction
                &&& ratio == other_ratio
                &&& first.same_shape(*other_first)
                &&& second.same_shape(*other_second)
            },
            _ => false,
        }
    }

    /// Trees of the same shape hold the same ids in the same order.
    pub proof fn lemma_same_shape_ids(self, other: LayoutNode<T>)
        requires
            self.same_shape(other),
        ensures
            self.leaf_ids() == other.leaf_ids(),
        decreases self,
    {
        match (self, other) {
            (
                LayoutNode::Split { first, second, .. },
                LayoutNode::Split { first: other_first, second: other_second, .. },
            ) => {
                first.lemma_same_shape_ids(*other_first);
                second.lemma_same_shape_ids(*other_second);
            },
            _ => {},
        }
    }

    /// Collect all pane contents as mutable references in a single
    /// traversal, in depth-first order. What the caller writes through a
    /// reference becomes the content of that leaf; the shape of the tree
    /// stays.
    pub fn collect_contents_mut(&mut self) -> (res: Vec<(PaneId, &mut T)>)
        ensures
            res@.len() == old(self).leaf_count(),
            old(self).leaves().len() == old(self).leaf_count(),
            final(self).leaves().len() == old(self).leaf_count(),
            forall|i: int|
                0 <= i < res@.len() ==> {
                    &&& (#[trigger] res@[i]).0 == old(self).leaf_ids()[i]
                    &&& *res@[i].1 == old(self).leaves()[i].1
                    &&& final(self).leaves()[i] == (res@[i].0, *final(res@[i].1))
                },
            final(self).same_shape(*old(self)),
    {
        let ghost after = *final(self);
        let mut result = Vec::new();
        self.collect_contents_mut_inner(&mut result);
        proof {
            assert forall|i: int| 0 <= i < result@.len() implies {
                &&& (#[trigger] result@[i]).0 == old(self).leaf_ids()[i]
                &&& *result@[i].1 == old(self).leaves()[i].1
                &&& after.leaves()[i] == (result@[i].0, *final(result@[i].1))
            } by {
                assert(result@[0 + i] == result@[i]);
            }
        }
        result
    }

    fn collect_contents_mut_inner<'a>(&'a mut self, out: &mut Vec<(PaneId, &'a mut T)>)
        ensures
            final(out)@.len() == old(out)@.len() + old(self).leaf_count(),
            old(self).leaves().len() == old(self).leaf_count(),
            final(self).leaves().len() == old(self).leaf_count(),
            forall|i: int| 0 <= i < old(out)@.len() ==> final(out)@[i] == old(out)@[i],
            forall|i: int|
                0 <= i < old(self).leaf_count() ==> {
                    &&& (#[trigger] final(out)@[old(out)@.len() + i]).0 == old(self).leaf_ids()[i]
                    &&& *final(out)@[old(out)@.len() + i].1 == old(self).leaves()[i].1
                    &&& final(self).leaves()[i] == (
                        old(self).leaf_ids()[i],
                        *final(final(out)@[old(out)@.len() + i].1),
                    )
                },
            final(self).same_shape(*old(self)),
        decreases *old(self),
    {
        proof {
            self.lemma_leaf_ids_of_leaves();
        }
        let ghost after = *final(self);
        match self {
            LayoutNode::Leaf { id, content } => {
                let ghost written = *final(content);
                out.push((*id, content));
                proof {
                    assert(after.leaves() =~= seq![(old(self)->id, written)]);
                    assert(*final(final(out)@[old(out)@.len() as int].1) == written);
                }
            },
            LayoutNode::Split { first, second, .. } => {
                let ghost base = out@.len();
                let ghost n1 = first.leaf_count();
                first.collect_contents_mut_inner(out);
                let ghost mid = out@;
                second.collect_contents_mut_inner(out);
                proof {
                    assert forall|i: int| 0 <= i < old(self).leaf_count() implies {
                        &&& (#[trigger] final(out)@[base + i]).0 == old(self).leaf_ids()[i]
                        &&& *final(out)@[base + i].1 == old(self).leaves()[i].1
                        &&& after.leaves()[i] == (
                            old(self).leaf_ids()[i],
                            *final(final(out)@[base + i].1),
                        )
                    } by {
                        if i < n1 {
                            assert(final(out)@[base + i] == mid[base + i]);
                        } else {
                            assert(final(out)@[(base + n1) + (i - n1)] == final(out)@[base + i]);
                        }
                    }
                }
            },
        }
    }
}

} // verus!
