//! The geometry pass: from a layout tree and a bounding rectangle to one
//! rectangle per pane and one divider per split.

use crate::geometry::{
    clamp_px, clamp_ratio, clamp_ratio_spec, holders, lemma_holders_concat, lemma_holders_single,
    lemma_holders_two, proportion, proportion_spec, saturate_px, Pos, Rect, SplitDirection,
};
use crate::layout::{LayoutNode, PaneId};
use std::collections::HashMap;
use vstd::prelude::*;

verus! {

/// Information about a divider for rendering and interaction.
pub struct DividerInfo {
    /// Path to this divider's split node (`false` = first child, `true` =
    /// second child).
    pub path: Vec<bool>,
    /// Direction of the split this divider belongs to.
    pub direction: SplitDirection,
    /// Screen rectangle of the divider.
    pub rect: Rect,
}

/// What a `DividerInfo` stands for in contracts.
pub struct DividerView {
    pub path: Seq<bool>,
    pub direction: SplitDirection,
    pub rect: Rect,
}

impl View for DividerInfo {
    type V = DividerView;

    open spec fn view(&self) -> DividerView {
        DividerView { path: self.path@, direction: self.direction, rect: self.rect }
    }
}

/// Result of computing the layout of a whole tree.
pub struct ComputedLayout {
    /// Map from the number of a pane id to the pane's screen rectangle.
    pub pane_rects: HashMap<u64, Rect>,
    /// All dividers of the layout, each split before the splits below it,
    /// those under a first child before those under a second.
    pub dividers: Vec<DividerInfo>,
}

impl ComputedLayout {
    /// The dividers, each as its view.
    pub open spec fn divider_views(&self) -> Seq<DividerView> {
        self.dividers@.map_values(|d: DividerInfo| d@)
    }

    /// A layout without panes or dividers.
    pub fn new() -> (layout: Self)
        ensures
            layout.pane_rects@ == Map::<u64, Rect>::empty(),
            layout.divider_views() == Seq::<DividerView>::empty(),
    {
        let layout = ComputedLayout { pane_rects: HashMap::new(), dividers: Vec::new() };
        assert(layout.divider_views() =~= Seq::<DividerView>::empty());
        layout
    }
}

impl Default for ComputedLayout {
    fn default() -> (layout: Self)
        ensures
            layout.pane_rects@ == Map::<u64, Rect>::empty(),
            layout.divider_views() == Seq::<DividerView>::empty(),
    {
        Self::new()
    }
}

/// Where a divider of thickness `divider_width` cuts the stretch from `lo`
/// to `hi`: the coordinates at which the divider begins and ends. The
/// divider begins after the share `ratio` of what the stretch has left
/// beside the divider.
pub open spec fn axis_cuts(lo: int, hi: int, ratio: u32, divider_width: int) -> (int, int) {
    let first_extent = proportion_spec(hi - lo - divider_width, clamp_ratio_spec(ratio) as int);
    (clamp_px(lo + first_extent), clamp_px(lo + first_extent + divider_width))
}

/// A rectangle split in two with a divider between: the part of the first
/// child, the divider, the part of the second child.
pub open spec fn split_rect_spec(
    rect: Rect,
    direction: SplitDirection,
    ratio: u32,
    divider_width: i32,
) -> (Rect, Rect, Rect) {
    match direction {
        SplitDirection::Horizontal => {
            let (a, b) = axis_cuts(rect.min.x as int, rect.max.x as int, ratio, divider_width as int);
            (
                Rect { min: rect.min, max: Pos { x: a as i32, y: rect.max.y } },
                Rect {
                    min: Pos { x: a as i32, y: rect.min.y },
                    max: Pos { x: b as i32, y: rect.max.y },
                },
                Rect { min: Pos { x: b as i32, y: rect.min.y }, max: rect.max },
            )
        },
        SplitDirection::Vertical => {
            let (a, b) = axis_cuts(rect.min.y as int, rect.max.y as int, ratio, divider_width as int);
            (
                Rect { min: rect.min, max: Pos { x: rect.max.x, y: a as i32 } },
                Rect {
                    min: Pos { x: rect.min.x, y: a as i32 },
                    max: Pos { x: rect.max.x, y: b as i32 },
                },
                Rect { min: Pos { x: rect.min.x, y: b as i32 }, max: rect.max },
            )
        },
    }
}

/// Cuts the stretch from `lo` to `hi` for a divider.
fn cut_axis(lo: i32, hi: i32, ratio: u32, divider_width: i32) -> (cuts: (i32, i32))
    ensures
        (cuts.0 as int, cuts.1 as int) == axis_cuts(
            lo as int,
            hi as int,
            ratio,
            divider_width as int,
        ),
{
    let ratio = clamp_ratio(ratio);
    let available: i64 = (hi as i64 - lo as i64) - divider_width as i64;
    let first_extent = proportion(available, ratio);
    proof {
        crate::geometry::lemma_proportion_bounds(available as int, ratio as int);
    }
    let begin: i64 = lo as i64 + first_extent;
    (saturate_px(begin), saturate_px(begin + divider_width as i64))
}

/// Split a rectangle into two parts with a divider between them. Returns
/// the first part, the divider, and the second part.
pub fn split_rect(rect: Rect, direction: SplitDirection, ratio: u32, divider_width: i32) -> (parts:
    (Rect, Rect, Rect))
    ensures
        parts == split_rect_spec(rect, direction, ratio, divider_width),
{
    match direction {
        SplitDirection::Horizontal => {
            let (a, b) = cut_axis(rect.min.x, rect.max.x, ratio, divider_width);
            (
                Rect { min: rect.min, max: Pos { x: a, y: rect.max.y } },
                Rect { min: Pos { x: a, y: rect.min.y }, max: Pos { x: b, y: rect.max.y } },
                Rect { min: Pos { x: b, y: rect.min.y }, max: rect.max },
            )
        },
        SplitDirection::Vertical => {
            let (a, b) = cut_axis(rect.min.y, rect.max.y, ratio, divider_width);
            (
                Rect { min: rect.min, max: Pos { x: rect.max.x, y: a } },
                Rect { min: Pos { x: rect.min.x, y: a }, max: Pos { x: rect.max.x, y: b } },
                Rect { min: Pos { x: rect.min.x, y: b }, max: rect.max },
            )
        },
    }
}

impl<T> LayoutNode<T> {
    /// The rectangle of each pane when the tree is laid out in `rect`, by
    /// the number of the pane's id. Where an id occurs twice, the later leaf
    /// in depth-first order gives the rectangle.
    pub open spec fn pane_rects(self, rect: Rect, divider_width: i32) -> Map<u64, Rect>
        decreases self,
    {
        match self {
            LayoutNode::Leaf { id, .. } => map![id.0 => rect],
            LayoutNode::Split { direction, ratio, first, second } => {
                let parts = split_rect_spec(rect, direction, ratio, divider_width);
                first.pane_rects(parts.0, divider_width).union_prefer_right(
                    second.pane_rects(parts.2, divider_width),
                )
            },
        }
    }

    /// The dividers when the tree, reached by `path` from some root, is laid
    /// out in `rect`: its own, then those under its first child, then those
    /// under its second.
    pub open spec fn dividers(self, rect: Rect, divider_width: i32, path: Seq<bool>) -> Seq<
        DividerView,
    >
        decreases self,
    {
        match self {
            LayoutNode::Leaf { .. } => Seq::empty(),
            LayoutNode::Split { direction, ratio, first, second } => {
                let parts = split_rect_spec(rect, direction, ratio, divider_width);
                seq![DividerView { path, direction, rect: parts.1 }] + first.dividers(
                    parts.0,
                    divider_width,
                    path.push(false),
                ) + second.dividers(parts.2, divider_width, path.push(true))
            },
        }
    }

    /// The rectangle of the node reached by `path` when the tree is laid
    /// out in `rect`; `None` where the path leads through a leaf.
    pub open spec fn rect_at(self, rect: Rect, divider_width: i32, path: Seq<bool>) -> Option<Rect>
        decreases path.len(),
    {
        if path.len() == 0 {
            Some(rect)
        } else {
            match self {
                LayoutNode::Leaf { .. } => None,
                LayoutNode::Split { direction, ratio, first, second } => {
                    let parts = split_rect_spec(rect, direction, ratio, divider_width);
                    if path[0] {
                        second.rect_at(parts.2, divider_width, path.drop_first())
                    } else {
                        first.rect_at(parts.0, divider_width, path.drop_first())
                    }
                },
            }
        }
    }

    /// The rectangle of the node at `path` when the tree is laid out in
    /// `rect`, or `None` where the path leads through a leaf.
    pub fn rect_at_path(&self, rect: Rect, divider_width: i32, path: &[bool]) -> (res: Option<
        Rect,
    >)
        ensures
            res == self.rect_at(rect, divider_width, path@),
            res is Some <==> self.node_at(path@) is Some,
        decreases path@.len(),
    {
        if path.len() == 0 {
            Some(rect)
        } else {
            match self {
                LayoutNode::Split { direction, ratio, first, second } => {
                    let (first_rect, _, second_rect) = split_rect(
                        rect,
                        *direction,
                        *ratio,
                        divider_width,
                    );
                    let rest = vstd::slice::slice_subrange(path, 1, path.len());
                    assert(rest@ =~= path@.drop_first());
                    if path[0] {
                        second.rect_at_path(second_rect, divider_width, rest)
                    } else {
                        first.rect_at_path(first_rect, divider_width, rest)
                    }
                },
                LayoutNode::Leaf { .. } => None,
            }
        }
    }

    /// Compute the rectangles of all panes and dividers of the tree laid
    /// out in `rect`, adding them to `output`. `path` holds the turns from
    /// the root of the whole layout to this node, and is left as it was.
    pub fn compute_layout(
        &self,
        rect: Rect,
        divider_width: i32,
        path: &mut Vec<bool>,
        output: &mut ComputedLayout,
    )
        ensures
            final(path)@ == old(path)@,
            final(output).pane_rects@ == old(output).pane_rects@.union_prefer_right(
                self.pane_rects(rect, divider_width),
            ),
            final(output).divider_views() == old(output).divider_views() + self.dividers(
                rect,
                divider_width,
                old(path)@,
            ),
        decreases self,
    {
        match self {
            LayoutNode::Leaf { id, .. } => {
                output.pane_rects.insert(id.0, rect);
                assert(output.pane_rects@ =~= old(output).pane_rects@.union_prefer_right(
                    self.pane_rects(rect, divider_width),
                ));
                assert(output.divider_views() =~= old(output).divider_views() + self.dividers(
                    rect,
                    divider_width,
                    old(path)@,
                ));
            },
            LayoutNode::Split { direction, ratio, first, second } => {
                let (first_rect, divider_rect, second_rect) = split_rect(
                    rect,
                    *direction,
                    *ratio,
                    divider_width,
                );
                let own_path = path.clone();
                assert(own_path@ =~= path@);
                output.dividers.push(
                    DividerInfo { path: own_path, direction: *direction, rect: divider_rect },
                );
                let ghost with_own = output.divider_views();
                assert(with_own =~= old(output).divider_views().push(
                    DividerView { path: old(path)@, direction: *direction, rect: divider_rect },
                ));

                path.push(false);
                first.compute_layout(first_rect, divider_width, path, output);
                path.pop();
                assert(path@ =~= old(path)@);
                let ghost with_first = output.divider_views();

                path.push(true);
                second.compute_layout(second_rect, divider_width, path, output);
                path.pop();
                assert(path@ =~= old(path)@);
                let ghost own = seq![
                    DividerView { path: old(path)@, direction: *direction, rect: divider_rect },
                ];
                let ghost under_first = first.dividers(
                    first_rect,
                    divider_width,
                    old(path)@.push(false),
                );
                let ghost under_second = second.dividers(
                    second_rect,
                    divider_width,
                    old(path)@.push(true),
                );
                assert(with_own =~= old(output).divider_views() + own);
                assert(with_first == with_own + under_first);
                assert(output.divider_views() == with_first + under_second);
                assert(self.dividers(rect, divider_width, old(path)@) == own + under_first
                    + under_second);
                assert(output.pane_rects@ =~= old(output).pane_rects@.union_prefer_right(
                    self.pane_rects(rect, divider_width),
                ));
                assert(output.divider_views() =~= old(output).divider_views() + self.dividers(
                    rect,
                    divider_width,
                    old(path)@,
                ));
            },
        }
    }
}

/// Extent of a rectangle along the axis that a split of the given direction
/// divides.
pub open spec fn axis_extent(rect: Rect, direction: SplitDirection) -> int {
    match direction {
        SplitDirection::Horizontal => rect.spec_width(),
        SplitDirection::Vertical => rect.spec_height(),
    }
}

/// Where a stretch has room for the divider, the cuts lie in it, the
/// divider has its full thickness, and the first part has the share of the
/// rest that the clamped ratio names.
pub proof fn lemma_axis_cuts(lo: int, hi: int, ratio: u32, divider_width: int)
    requires
        i32::MIN <= lo <= i32::MAX,
        i32::MIN <= hi <= i32::MAX,
        0 <= divider_width <= hi - lo,
    ensures
        ({
            let (a, b) = axis_cuts(lo, hi, ratio, divider_width);
            &&& lo <= a <= b <= hi
            &&& b - a == divider_width
            &&& a - lo == proportion_spec(hi - lo - divider_width, clamp_ratio_spec(ratio) as int)
        }),
{
    crate::geometry::lemma_proportion_bounds(
        hi - lo - divider_width,
        clamp_ratio_spec(ratio) as int,
    );
}

/// A split with room for its divider cuts its rectangle exactly: each pixel
/// of the rectangle lies in one of the three parts, and no part holds a
/// pixel outside it. The divider spans the rectangle across the axis and
/// has its full thickness along it.
pub proof fn lemma_split_rect_partition(
    rect: Rect,
    direction: SplitDirection,
    ratio: u32,
    divider_width: i32,
    p: Pos,
)
    requires
        0 <= divider_width <= axis_extent(rect, direction),
    ensures
        ({
            let parts = split_rect_spec(rect, direction, ratio, divider_width);
            let count = |r: Rect|
                if r.spec_contains(p) {
                    1int
                } else {
                    0int
                };
            &&& count(parts.0) + count(parts.1) + count(parts.2) == count(rect)
            &&& axis_extent(parts.1, direction) == divider_width
            &&& axis_extent(parts.0, direction) + divider_width + axis_extent(parts.2, direction)
                == axis_extent(rect, direction)
            &&& axis_extent(parts.0, direction) == proportion_spec(
                axis_extent(rect, direction) - divider_width,
                clamp_ratio_spec(ratio) as int,
            )
        }),
{
    match direction {
        SplitDirection::Horizontal => lemma_axis_cuts(
            rect.min.x as int,
            rect.max.x as int,
            ratio,
            divider_width as int,
        ),
        SplitDirection::Vertical => lemma_axis_cuts(
            rect.min.y as int,
            rect.max.y as int,
            ratio,
            divider_width as int,
        ),
    }
}

impl<T> LayoutNode<T> {
    /// The rectangles of the panes when the tree is laid out in `rect`, in
    /// depth-first order.
    pub open spec fn leaf_rects(self, rect: Rect, divider_width: i32) -> Seq<Rect>
        decreases self,
    {
        match self {
            LayoutNode::Leaf { .. } => seq![rect],
            LayoutNode::Split { direction, ratio, first, second } => {
                let parts = split_rect_spec(rect, direction, ratio, divider_width);
                first.leaf_rects(parts.0, divider_width) + second.leaf_rects(
                    parts.2,
                    divider_width,
                )
            },
        }
    }

    /// The rectangles of the dividers when the tree is laid out in `rect`,
    /// in the order of `dividers`.
    pub open spec fn divider_rects(self, rect: Rect, divider_width: i32) -> Seq<Rect>
        decreases self,
    {
        match self {
            LayoutNode::Leaf { .. } => Seq::empty(),
            LayoutNode::Split { direction, ratio, first, second } => {
                let parts = split_rect_spec(rect, direction, ratio, divider_width);
                seq![parts.1] + first.divider_rects(parts.0, divider_width)
                    + second.divider_rects(parts.2, divider_width)
            },
        }
    }

    /// Whether every split of the tree, laid out in `rect`, has room for its
    /// divider along its axis.
    pub open spec fn fits(self, rect: Rect, divider_width: i32) -> bool
        decreases self,
    {
        match self {
            LayoutNode::Leaf { .. } => true,
            LayoutNode::Split { direction, ratio, first, second } => {
                let parts = split_rect_spec(rect, direction, ratio, divider_width);
                &&& divider_width <= axis_extent(rect, direction)
                &&& first.fits(parts.0, divider_width)
                &&& second.fits(parts.2, divider_width)
            },
        }
    }

    /// The path recorded with a divider is the path from the root of the
    /// layout to the divider's split: it begins with the path to this tree,
    /// and the turns after that lead, in this tree, to a split of the
    /// divider's direction whose rectangle the divider cuts.
    pub proof fn lemma_divider_paths(
        self,
        rect: Rect,
        divider_width: i32,
        prefix: Seq<bool>,
        i: int,
    )
        requires
            0 <= i < self.dividers(rect, divider_width, prefix).len(),
        ensures
            ({
                let divider = self.dividers(rect, divider_width, prefix)[i];
                let turns = divider.path.skip(prefix.len() as int);
                &&& divider.path.len() >= prefix.len()
                &&& divider.path.take(prefix.len() as int) == prefix
                &&& self.node_at(turns) matches Some(LayoutNode::Split { direction, ratio, .. })
                &&& direction == divider.direction
                &&& self.rect_at(rect, divider_width, turns) matches Some(own)
                &&& split_rect_spec(own, direction, ratio, divider_width).1 == divider.rect
            }),
        decreases self,
    {
        match self {
            LayoutNode::Leaf { .. } => {},
            LayoutNode::Split { direction, ratio, first, second } => {
                let parts = split_rect_spec(rect, direction, ratio, divider_width);
                let under_first = first.dividers(parts.0, divider_width, prefix.push(false));
                let under_second = second.dividers(parts.2, divider_width, prefix.push(true));
                let divider = self.dividers(rect, divider_width, prefix)[i];
                let turns = divider.path.skip(prefix.len() as int);
                if i == 0 {
                    assert(divider.path.take(prefix.len() as int) =~= prefix);
                    assert(turns =~= Seq::<bool>::empty());
                } else if i - 1 < under_first.len() {
                    first.lemma_divider_paths(parts.0, divider_width, prefix.push(false), i - 1);
                    assert(divider == under_first[i - 1]);
                    let inner = divider.path.skip(prefix.len() as int + 1);
                    assert(divider.path.take(prefix.len() as int + 1) == prefix.push(false));
                    assert(divider.path[prefix.len() as int] == prefix.push(false)[prefix.len() as int]);
                    assert(divider.path.take(prefix.len() as int) =~= prefix.push(false).take(
                        prefix.len() as int,
                    ));
                    assert(prefix.push(false).take(prefix.len() as int) =~= prefix);
                    assert(turns[0] == false);
                    assert(turns.drop_first() =~= inner);
                } else {
                    let k = i - 1 - under_first.len();
                    second.lemma_divider_paths(parts.2, divider_width, prefix.push(true), k);
                    assert(divider == under_second[k]);
                    let inner = divider.path.skip(prefix.len() as int + 1);
                    assert(divider.path.take(prefix.len() as int + 1) == prefix.push(true));
                    assert(divider.path[prefix.len() as int] == prefix.push(true)[prefix.len() as int]);
                    assert(divider.path.take(prefix.len() as int) =~= prefix.push(true).take(
                        prefix.len() as int,
                    ));
                    assert(prefix.push(true).take(prefix.len() as int) =~= prefix);
                    assert(turns[0] == true);
                    assert(turns.drop_first() =~= inner);
                }
            },
        }
    }

    /// There is one divider for each split, and `divider_rects` lists their
    /// rectangles.
    pub proof fn lemma_divider_rects(self, rect: Rect, divider_width: i32, path: Seq<bool>)
        ensures
            self.dividers(rect, divider_width, path).len() == self.split_count(),
            self.divider_rects(rect, divider_width).len() == self.split_count(),
            forall|i: int|
                0 <= i < self.split_count() ==> (#[trigger] self.dividers(
                    rect,
                    divider_width,
                    path,
                )[i]).rect == self.divider_rects(rect, divider_width)[i],
        decreases self,
    {
        match self {
            LayoutNode::Leaf { .. } => {},
            LayoutNode::Split { direction, ratio, first, second } => {
                let parts = split_rect_spec(rect, direction, ratio, divider_width);
                first.lemma_divider_rects(parts.0, divider_width, path.push(false));
                second.lemma_divider_rects(parts.2, divider_width, path.push(true));
            },
        }
    }

    /// In a tree of unique ids, the computed map holds exactly the ids of
    /// the tree, each with the rectangle of its leaf.
    pub proof fn lemma_pane_rects(self, rect: Rect, divider_width: i32)
        ensures
            self.leaf_rects(rect, divider_width).len() == self.leaf_count(),
            forall|id: u64|
                self.pane_rects(rect, divider_width).dom().contains(id) <==> self.has_pane(
                    PaneId(id),
                ),
            self.unique_ids() ==> forall|i: int|
                0 <= i < self.leaf_count() ==> self.pane_rects(rect, divider_width)[(
                #[trigger] self.leaf_ids()[i]).0] == self.leaf_rects(rect, divider_width)[i],
        decreases self,
    {
        match self {
            LayoutNode::Leaf { id, .. } => {
                assert forall|n: u64|
                    self.pane_rects(rect, divider_width).dom().contains(n) <==> self.has_pane(
                        PaneId(n),
                    ) by {
                    self.lemma_has_pane(PaneId(n));
                }
            },
            LayoutNode::Split { direction, ratio, first, second } => {
                let parts = split_rect_spec(rect, direction, ratio, divider_width);
                first.lemma_pane_rects(parts.0, divider_width);
                second.lemma_pane_rects(parts.2, divider_width);
                let m1 = first.pane_rects(parts.0, divider_width);
                let m2 = second.pane_rects(parts.2, divider_width);
                assert forall|n: u64|
                    self.pane_rects(rect, divider_width).dom().contains(n) <==> self.has_pane(
                        PaneId(n),
                    ) by {
                    self.lemma_has_pane(PaneId(n));
                    assert(m1.dom().contains(n) <==> first.has_pane(PaneId(n)));
                    assert(m2.dom().contains(n) <==> second.has_pane(PaneId(n)));
                }
                if self.unique_ids() {
                    self.lemma_unique_children();
                    assert forall|i: int| 0 <= i < self.leaf_count() implies self.pane_rects(
                        rect,
                        divider_width,
                    )[(#[trigger] self.leaf_ids()[i]).0] == self.leaf_rects(rect, divider_width)[i] by {
                        let id = self.leaf_ids()[i];
                        assert(PaneId(id.0) == id);
                        assert(m2.dom().contains(id.0) <==> second.has_pane(id));
                        if i < first.leaf_count() {
                            assert(first.leaf_ids()[i] == id);
                            assert(first.has_pane(id));
                            assert(!second.has_pane(id));
                            assert(m1[id.0] == first.leaf_rects(parts.0, divider_width)[i]);
                        } else {
                            let k = i - first.leaf_count();
                            assert(second.leaf_ids()[k] == id);
                            assert(second.has_pane(id));
                            assert(m2[id.0] == second.leaf_rects(parts.2, divider_width)[k]);
                        }
                    }
                }
            },
        }
    }

    /// The layout tiles its rectangle exactly: where every split has room
    /// for its divider, each pixel of `rect` lies in exactly one pane
    /// rectangle or divider rectangle, and a pixel outside `rect` lies in
    /// none.
    pub proof fn lemma_layout_tiles(self, rect: Rect, divider_width: i32, p: Pos)
        requires
            divider_width >= 0,
            self.fits(rect, divider_width),
        ensures
            holders(
                self.leaf_rects(rect, divider_width) + self.divider_rects(rect, divider_width),
                p,
            ) == if rect.spec_contains(p) {
                1nat
            } else {
                0nat
            },
        decreases self,
    {
        match self {
            LayoutNode::Leaf { .. } => {
                assert(self.leaf_rects(rect, divider_width) + self.divider_rects(
                    rect,
                    divider_width,
                ) =~= seq![rect]);
                lemma_holders_single(rect, p);
            },
            LayoutNode::Split { direction, ratio, first, second } => {
                let parts = split_rect_spec(rect, direction, ratio, divider_width);
                let l1 = first.leaf_rects(parts.0, divider_width);
                let l2 = second.leaf_rects(parts.2, divider_width);
                let d1 = first.divider_rects(parts.0, divider_width);
                let d2 = second.divider_rects(parts.2, divider_width);
                first.lemma_layout_tiles(parts.0, divider_width, p);
                second.lemma_layout_tiles(parts.2, divider_width, p);
                lemma_split_rect_partition(rect, direction, ratio, divider_width, p);
                lemma_holders_single(parts.1, p);
                lemma_holders_concat(l1, d1, p);
                lemma_holders_concat(l2, d2, p);
                lemma_holders_concat(l1, l2, p);
                lemma_holders_concat(seq![parts.1], d1, p);
                lemma_holders_concat(seq![parts.1] + d1, d2, p);
                lemma_holders_concat(l1 + l2, seq![parts.1] + d1 + d2, p);
            },
        }
    }

    /// No two pane rectangles of a layout share a pixel, no two divider
    /// rectangles do, and no pane rectangle shares one with a divider.
    pub proof fn lemma_layout_disjoint(self, rect: Rect, divider_width: i32, i: int, j: int)
        requires
            divider_width >= 0,
            self.fits(rect, divider_width),
            0 <= i < j < self.leaf_count() + self.split_count(),
        ensures
            self.leaf_rects(rect, divider_width).len() == self.leaf_count(),
            self.divider_rects(rect, divider_width).len() == self.split_count(),
            (self.leaf_rects(rect, divider_width) + self.divider_rects(rect, divider_width))[i].disjoint(
                (self.leaf_rects(rect, divider_width) + self.divider_rects(
                    rect,
                    divider_width,
                ))[j],
            ),
    {
        let all = self.leaf_rects(rect, divider_width) + self.divider_rects(rect, divider_width);
        self.lemma_pane_rects(rect, divider_width);
        self.lemma_divider_rects(rect, divider_width, Seq::empty());
        assert forall|p: Pos| !(#[trigger] all[i].spec_contains(p) && all[j].spec_contains(p)) by {
            if all[i].spec_contains(p) && all[j].spec_contains(p) {
                lemma_holders_two(all, p, i, j);
                self.lemma_layout_tiles(rect, divider_width, p);
            }
        }
    }
}

} // verus!
