//! Drag sessions: moving a pane to an edge of another pane, and dragging
//! the divider of a split.

use crate::compute::ComputedLayout;
use crate::geometry::{
    clamp_px, proportion, proportion_spec, saturate_px, Pos, Rect, SplitDirection,
    MAX_SPLIT_RATIO, MIN_SPLIT_RATIO, RATIO_SCALE,
};
use crate::layout::PaneId;
use vstd::prelude::*;

verus! {

/// Pointer travel, in pixels, beyond which a press on a pane is a drag.
pub const DRAG_THRESHOLD: i64 = 8;

/// Share of a pane's extent that a drop zone takes from its edge (25%).
pub const DROP_EDGE_RATIO: u32 = 250_000;

/// Share of a pane's extent that the highlight of a drop zone takes (50%).
pub const DROP_HIGHLIGHT_RATIO: u32 = 500_000;

/// State for pane drag-and-drop repositioning.
#[derive(Debug, Clone, Copy)]
pub struct PaneDragState {
    /// The pane being dragged.
    pub source_pane_id: PaneId,
    /// Pointer position at the press.
    pub start_pos: Pos,
    /// Current pointer position.
    pub current_pos: Pos,
    /// Has the pointer travelled more than the threshold?
    pub drag_active: bool,
}

/// Where a pane can be dropped.
#[derive(Debug, Clone, Copy, PartialEq, Eq, Structural)]
pub enum DropZone {
    /// Drop at top edge (creates vertical split, new pane above).
    Top(PaneId),
    /// Drop at bottom edge (creates vertical split, new pane below).
    Bottom(PaneId),
    /// Drop at left edge (creates horizontal split, new pane left).
    Left(PaneId),
    /// Drop at right edge (creates horizontal split, new pane right).
    Right(PaneId),
}

/// Drop zone with rendering info.
#[derive(Debug, Clone, Copy)]
pub struct DropZoneInfo {
    /// The zone type.
    pub zone: DropZone,
    /// Hit-test rectangle (25% of the edge).
    pub rect: Rect,
    /// Visual highlight rectangle (50% preview).
    pub highlight_rect: Rect,
}

/// Whether the pointer has travelled more than the drag threshold between
/// two positions, measured in a straight line. At the threshold or below
/// it the gesture is still a click.
pub open spec fn travelled(from: Pos, to: Pos) -> bool {
    (to.x - from.x) * (to.x - from.x) + (to.y - from.y) * (to.y - from.y) > DRAG_THRESHOLD
        * DRAG_THRESHOLD
}

/// Whether the pointer has travelled more than the drag threshold.
pub fn exceeds_threshold(from: Pos, to: Pos) -> (far: bool)
    ensures
        far == travelled(from, to),
{
    let dx: i64 = to.x as i64 - from.x as i64;
    let dy: i64 = to.y as i64 - from.y as i64;
    if dx > DRAG_THRESHOLD || dx < -DRAG_THRESHOLD || dy > DRAG_THRESHOLD || dy < -DRAG_THRESHOLD {
        assert(dx * dx + dy * dy > 64) by (nonlinear_arith)
            requires
                dx > 8 || dx < -8 || dy > 8 || dy < -8,
        ;
        true
    } else {
        assert(0 <= dx * dx <= 64 && 0 <= dy * dy <= 64) by (nonlinear_arith)
            requires
                -8 <= dx <= 8,
                -8 <= dy <= 8,
        ;
        dx * dx + dy * dy > DRAG_THRESHOLD * DRAG_THRESHOLD
    }
}

impl PaneDragState {
    /// The state after a press on the pane `source` at `pos`: armed, not
    /// yet a drag.
    pub fn begin(source: PaneId, pos: Pos) -> (state: Self)
        ensures
            state.source_pane_id == source,
            state.start_pos == pos,
            state.current_pos == pos,
            !state.drag_active,
    {
        PaneDragState {
            source_pane_id: source,
            start_pos: pos,
            current_pos: pos,
            drag_active: false,
        }
    }

    /// The state after the pointer has moved to `pos`.
    pub open spec fn moved_to(self, pos: Pos) -> PaneDragState {
        PaneDragState {
            source_pane_id: self.source_pane_id,
            start_pos: self.start_pos,
            current_pos: pos,
            drag_active: self.drag_active || travelled(self.start_pos, pos),
        }
    }

    /// Follow the pointer to `pos`. The press becomes a drag once the
    /// pointer is more than the threshold away from where it went down, and
    /// stays one.
    pub fn update(&mut self, pos: Pos)
        ensures
            *final(self) == old(self).moved_to(pos),
    {
        self.current_pos = pos;
        if !self.drag_active {
            if exceeds_threshold(self.start_pos, pos) {
                self.drag_active = true;
            }
        }
    }
}

impl DropZone {
    /// The pane at whose edge the zone lies.
    pub open spec fn spec_target(self) -> PaneId {
        match self {
            DropZone::Top(id) => id,
            DropZone::Bottom(id) => id,
            DropZone::Left(id) => id,
            DropZone::Right(id) => id,
        }
    }

    /// Direction of the split that a drop in the zone makes.
    pub open spec fn spec_direction(self) -> SplitDirection {
        match self {
            DropZone::Top(_) | DropZone::Bottom(_) => SplitDirection::Vertical,
            DropZone::Left(_) | DropZone::Right(_) => SplitDirection::Horizontal,
        }
    }

    /// Whether the dropped pane comes before the target (top or left).
    pub open spec fn spec_before(self) -> bool {
        self is Top || self is Left
    }

    /// The target pane of the zone, the direction of the split that a drop
    /// makes, and whether the dropped pane becomes the first child.
    pub fn placement(&self) -> (res: (PaneId, SplitDirection, bool))
        ensures
            res == (self.spec_target(), self.spec_direction(), self.spec_before()),
    {
        match self {
            DropZone::Top(id) => (*id, SplitDirection::Vertical, true),
            DropZone::Bottom(id) => (*id, SplitDirection::Vertical, false),
            DropZone::Left(id) => (*id, SplitDirection::Horizontal, true),
            DropZone::Right(id) => (*id, SplitDirection::Horizontal, false),
        }
    }
}

/// The four drop zones of a pane with rectangle `rect`: top, bottom, left,
/// right. Each hit rectangle is a quarter of the pane from that edge, each
/// highlight the half.
pub open spec fn zones_of(id: PaneId, rect: Rect) -> Seq<DropZoneInfo> {
    let w = rect.spec_width();
    let h = rect.spec_height();
    let qw = proportion_spec(w, DROP_EDGE_RATIO as int);
    let qh = proportion_spec(h, DROP_EDGE_RATIO as int);
    let hw = proportion_spec(w, DROP_HIGHLIGHT_RATIO as int);
    let hh = proportion_spec(h, DROP_HIGHLIGHT_RATIO as int);
    let bottom = Pos { x: rect.min.x, y: clamp_px(rect.max.y - qh) as i32 };
    let lower = Pos { x: rect.min.x, y: clamp_px(rect.min.y + hh) as i32 };
    let right = Pos { x: clamp_px(rect.max.x - qw) as i32, y: rect.min.y };
    let righter = Pos { x: clamp_px(rect.min.x + hw) as i32, y: rect.min.y };
    seq![
        DropZoneInfo {
            zone: DropZone::Top(id),
            rect: Rect::spec_from_min_size(rect.min, w, qh),
            highlight_rect: Rect::spec_from_min_size(rect.min, w, hh),
        },
        DropZoneInfo {
            zone: DropZone::Bottom(id),
            rect: Rect::spec_from_min_size(bottom, w, qh),
            highlight_rect: Rect::spec_from_min_size(lower, w, hh),
        },
        DropZoneInfo {
            zone: DropZone::Left(id),
            rect: Rect::spec_from_min_size(rect.min, qw, h),
            highlight_rect: Rect::spec_from_min_size(rect.min, hw, h),
        },
        DropZoneInfo {
            zone: DropZone::Right(id),
            rect: Rect::spec_from_min_size(right, qw, h),
            highlight_rect: Rect::spec_from_min_size(righter, hw, h),
        },
    ]
}

/// The drop zones of the panes `ids`, in that order, but for the pane
/// `source` and for panes that have no rectangle in `rects`.
pub open spec fn drop_zones(ids: Seq<PaneId>, rects: Map<u64, Rect>, source: PaneId) -> Seq<
    DropZoneInfo,
>
    decreases ids.len(),
{
    if ids.len() == 0 {
        Seq::empty()
    } else {
        let id = ids.last();
        drop_zones(ids.drop_last(), rects, source) + if id != source && rects.dom().contains(
            id.0,
        ) {
            zones_of(id, rects[id.0])
        } else {
            Seq::empty()
        }
    }
}

/// Appends the four drop zones of a pane to `zones`.
fn push_zones(zones: &mut Vec<DropZoneInfo>, id: PaneId, rect: Rect)
    ensures
        final(zones)@ == old(zones)@ + zones_of(id, rect),
{
    let w = rect.width();
    let h = rect.height();
    let qw = proportion(w, DROP_EDGE_RATIO);
    let qh = proportion(h, DROP_EDGE_RATIO);
    let hw = proportion(w, DROP_HIGHLIGHT_RATIO);
    let hh = proportion(h, DROP_HIGHLIGHT_RATIO);
    proof {
        crate::geometry::lemma_proportion_bounds(w as int, DROP_EDGE_RATIO as int);
        crate::geometry::lemma_proportion_bounds(h as int, DROP_EDGE_RATIO as int);
        crate::geometry::lemma_proportion_bounds(w as int, DROP_HIGHLIGHT_RATIO as int);
        crate::geometry::lemma_proportion_bounds(h as int, DROP_HIGHLIGHT_RATIO as int);
    }
    let bottom = Pos { x: rect.min.x, y: saturate_px(rect.max.y as i64 - qh) };
    let lower = Pos { x: rect.min.x, y: saturate_px(rect.min.y as i64 + hh) };
    let right = Pos { x: saturate_px(rect.max.x as i64 - qw), y: rect.min.y };
    let righter = Pos { x: saturate_px(rect.min.x as i64 + hw), y: rect.min.y };
    zones.push(
        DropZoneInfo {
            zone: DropZone::Top(id),
            rect: Rect::from_min_size(rect.min, w, qh),
            highlight_rect: Rect::from_min_size(rect.min, w, hh),
        },
    );
    zones.push(
        DropZoneInfo {
            zone: DropZone::Bottom(id),
            rect: Rect::from_min_size(bottom, w, qh),
            highlight_rect: Rect::from_min_size(lower, w, hh),
        },
    );
    zones.push(
        DropZoneInfo {
            zone: DropZone::Left(id),
            rect: Rect::from_min_size(rect.min, qw, h),
            highlight_rect: Rect::from_min_size(rect.min, hw, h),
        },
    );
    zones.push(
        DropZoneInfo {
            zone: DropZone::Right(id),
            rect: Rect::from_min_size(right, qw, h),
            highlight_rect: Rect::from_min_size(righter, hw, h),
        },
    );
    assert(zones@ =~= old(zones)@ + zones_of(id, rect));
}

/// Compute drop zones for all panes except the source pane, in the order
/// of `ids`.
pub fn compute_drop_zones(ids: &Vec<PaneId>, layout: &ComputedLayout, source_id: PaneId) -> (zones:
    Vec<DropZoneInfo>)
    ensures
        zones@ == drop_zones(ids@, layout.pane_rects@, source_id),
{
    let mut zones: Vec<DropZoneInfo> = Vec::new();
    let mut i: usize = 0;
    while i < ids.len()
        invariant
            i <= ids@.len(),
            zones@ == drop_zones(ids@.take(i as int), layout.pane_rects@, source_id),
        decreases ids@.len() - i,
    {
        let id = ids[i];
        proof {
            assert(ids@.take(i + 1).drop_last() =~= ids@.take(i as int));
            assert(ids@.take(i + 1).last() == id);
        }
        if id != source_id {
            match layout.pane_rects.get(&id.0) {
                Some(rect) => {
                    push_zones(&mut zones, id, *rect);
                },
                None => {
                    assert(zones@ + Seq::<DropZoneInfo>::empty() =~= zones@);
                },
            }
        } else {
            assert(zones@ + Seq::<DropZoneInfo>::empty() =~= zones@);
        }
        i += 1;
    }
    assert(ids@.take(i as int) =~= ids@);
    zones
}

/// The first zone of the list whose hit rectangle holds `pos`.
pub open spec fn zone_at(zones: Seq<DropZoneInfo>, pos: Pos) -> Option<DropZone>
    decreases zones.len(),
{
    if zones.len() == 0 {
        None
    } else if zones[0].rect.spec_contains(pos) {
        Some(zones[0].zone)
    } else {
        zone_at(zones.drop_first(), pos)
    }
}

/// Every drop zone lies at the edge of a pane of the list other than the
/// source.
pub proof fn lemma_drop_zone_targets(
    ids: Seq<PaneId>,
    rects: Map<u64, Rect>,
    source: PaneId,
    i: int,
)
    requires
        0 <= i < drop_zones(ids, rects, source).len(),
    ensures
        drop_zones(ids, rects, source)[i].zone.spec_target() != source,
        ids.contains(drop_zones(ids, rects, source)[i].zone.spec_target()),
    decreases ids.len(),
{
    if ids.len() > 0 {
        let earlier = drop_zones(ids.drop_last(), rects, source);
        if i < earlier.len() {
            lemma_drop_zone_targets(ids.drop_last(), rects, source, i);
            let target = earlier[i].zone.spec_target();
            let k = choose|k: int| 0 <= k < ids.drop_last().len() && ids.drop_last()[k] == target;
            assert(ids[k] == target);
        } else {
            assert(ids[ids.len() - 1] == ids.last());
        }
    }
}

/// The zone in which a pointer position lies is one of the zones.
pub proof fn lemma_zone_at(zones: Seq<DropZoneInfo>, pos: Pos) -> (i: int)
    requires
        zone_at(zones, pos) is Some,
    ensures
        0 <= i < zones.len(),
        zones[i].zone == zone_at(zones, pos)->0,
        zones[i].rect.spec_contains(pos),
    decreases zones.len(),
{
    if zones[0].rect.spec_contains(pos) {
        0
    } else {
        lemma_zone_at(zones.drop_first(), pos) + 1
    }
}

/// A drop asked for at the end of a pane drag names a target other than
/// the dragged pane, among the panes that the frame was given.
pub proof fn lemma_drop_request(
    state: Option<PaneDragState>,
    ids: Seq<PaneId>,
    rects: Map<u64, Rect>,
    input: FrameInput,
)
    requires
        pane_drag_released(state, ids, rects, input) is Some,
    ensures
        ({
            let drop = pane_drag_released(state, ids, rects, input)->0;
            &&& state is Some
            &&& drop.source == state->0.source_pane_id
            &&& drop.zone.spec_target() != drop.source
            &&& ids.contains(drop.zone.spec_target())
        }),
{
    let drag = state->0;
    let zones = drop_zones(ids, rects, drag.source_pane_id);
    let i = lemma_zone_at(zones, drag.current_pos);
    lemma_drop_zone_targets(ids, rects, drag.source_pane_id, i);
}

/// Find the first zone whose hit rectangle holds `pos`.
pub fn find_drop_zone(zones: &Vec<DropZoneInfo>, pos: Pos) -> (res: Option<DropZone>)
    ensures
        res == zone_at(zones@, pos),
{
    let mut i: usize = 0;
    assert(zones@.skip(0) =~= zones@);
    while i < zones.len()
        invariant
            i <= zones@.len(),
            zone_at(zones@, pos) == zone_at(zones@.skip(i as int), pos),
        decreases zones@.len() - i,
    {
        proof {
            assert(zones@.skip(i as int)[0] == zones@[i as int]);
            assert(zones@.skip(i as int).drop_first() =~= zones@.skip(i + 1));
        }
        if zones[i].rect.contains(pos) {
            return Some(zones[i].zone);
        }
        i += 1;
    }
    None
}

/// The first pane of `ids` whose rectangle in `rects` holds `pos`.
pub open spec fn pane_holding(ids: Seq<PaneId>, rects: Map<u64, Rect>, pos: Pos) -> Option<PaneId>
    decreases ids.len(),
{
    if ids.len() == 0 {
        None
    } else if rects.dom().contains(ids[0].0) && rects[ids[0].0].spec_contains(pos) {
        Some(ids[0])
    } else {
        pane_holding(ids.drop_first(), rects, pos)
    }
}

/// Find the pane under the pointer: the first pane of `ids` whose
/// rectangle in the layout holds `pos`.
pub fn pane_at(ids: &Vec<PaneId>, layout: &ComputedLayout, pos: Pos) -> (res: Option<PaneId>)
    ensures
        res == pane_holding(ids@, layout.pane_rects@, pos),
{
    let mut i: usize = 0;
    assert(ids@.skip(0) =~= ids@);
    while i < ids.len()
        invariant
            i <= ids@.len(),
            pane_holding(ids@, layout.pane_rects@, pos) == pane_holding(
                ids@.skip(i as int),
                layout.pane_rects@,
                pos,
            ),
        decreases ids@.len() - i,
    {
        proof {
            assert(ids@.skip(i as int)[0] == ids@[i as int]);
            assert(ids@.skip(i as int).drop_first() =~= ids@.skip(i + 1));
        }
        let id = ids[i];
        match layout.pane_rects.get(&id.0) {
            Some(rect) => {
                if rect.contains(pos) {
                    return Some(id);
                }
            },
            None => {},
        }
        i += 1;
    }
    None
}

/// The ratio that a divider gets when the pointer stands at `pointer`
/// along the axis of a split whose rectangle begins at `origin` and has the
/// extent `extent`: the pointer's share of what the rectangle has beside
/// the divider, forced into the bounds of a ratio. `None` where the
/// rectangle has no room beside the divider.
pub open spec fn drag_ratio_spec(pointer: int, origin: int, extent: int, divider_width: int) -> Option<
    u32,
> {
    let available = extent - divider_width;
    let share = ((pointer - origin) * RATIO_SCALE) / available;
    if available <= 0 {
        None
    } else if pointer - origin <= 0 || share < MIN_SPLIT_RATIO {
        Some(MIN_SPLIT_RATIO)
    } else if share > MAX_SPLIT_RATIO {
        Some(MAX_SPLIT_RATIO)
    } else {
        Some(share as u32)
    }
}

/// The ratio that a divider gets from the pointer's place along the axis.
pub fn drag_ratio(pointer: i32, origin: i32, extent: i64, divider_width: i32) -> (res: Option<u32>)
    requires
        -0x1_0000_0000 <= extent <= 0x1_0000_0000,
    ensures
        res == drag_ratio_spec(pointer as int, origin as int, extent as int, divider_width as int),
        res matches Some(ratio) ==> MIN_SPLIT_RATIO <= ratio <= MAX_SPLIT_RATIO,
{
    let available: i64 = extent - divider_width as i64;
    if available <= 0 {
        return None;
    }
    let relative: i64 = pointer as i64 - origin as i64;
    if relative <= 0 {
        return Some(MIN_SPLIT_RATIO);
    }
    assert(0 < relative * 1_000_000 <= 0x1_0000_0000 * 1_000_000) by (nonlinear_arith)
        requires
            0 < relative <= 0x1_0000_0000,
    ;
    let share: i64 = (relative * (RATIO_SCALE as i64)) / available;
    if share < MIN_SPLIT_RATIO as i64 {
        Some(MIN_SPLIT_RATIO)
    } else if share > MAX_SPLIT_RATIO as i64 {
        Some(MAX_SPLIT_RATIO)
    } else {
        Some(share as u32)
    }
}

/// The ratio that the split of direction `direction` with rectangle `rect`
/// gets when the pointer stands at `pos`.
pub open spec fn ratio_under_pointer(
    rect: Rect,
    direction: SplitDirection,
    divider_width: i32,
    pos: Pos,
) -> Option<u32> {
    match direction {
        SplitDirection::Horizontal => drag_ratio_spec(
            pos.x as int,
            rect.min.x as int,
            rect.spec_width(),
            divider_width as int,
        ),
        SplitDirection::Vertical => drag_ratio_spec(
            pos.y as int,
            rect.min.y as int,
            rect.spec_height(),
            divider_width as int,
        ),
    }
}

/// The ratio that a split gets from the pointer: its place relative to the
/// origin of the split's rectangle, over the extent that the rectangle has
/// beside the divider along the split's axis.
pub fn pointer_ratio(rect: Rect, direction: SplitDirection, divider_width: i32, pos: Pos) -> (res:
    Option<u32>)
    ensures
        res == ratio_under_pointer(rect, direction, divider_width, pos),
        res matches Some(ratio) ==> MIN_SPLIT_RATIO <= ratio <= MAX_SPLIT_RATIO,
{
    match direction {
        SplitDirection::Horizontal => drag_ratio(pos.x, rect.min.x, rect.width(), divider_width),
        SplitDirection::Vertical => drag_ratio(pos.y, rect.min.y, rect.height(), divider_width),
    }
}

/// State of a divider drag: the workspace that owns the divider, and the
/// path to the divider's split.
pub struct DividerDragState {
    /// Index of the workspace that owns the divider.
    pub workspace: usize,
    /// Path to the divider's split node.
    pub path: Vec<bool>,
}

/// Per-frame snapshot of the pointer and of the keys that the drag
/// sessions read.
#[derive(Debug, Clone, Copy)]
pub struct FrameInput {
    /// Latest pointer position, if the pointer is over the window.
    pub pointer_pos: Option<Pos>,
    /// The primary button went down in this frame.
    pub pointer_pressed: bool,
    /// A button came up in this frame.
    pub pointer_released: bool,
    /// Escape was pressed in this frame.
    pub escape_pressed: bool,
}

/// What a frame asks of the workspace at the end of a pane drag.
#[derive(Debug, Clone, Copy)]
pub struct DropRequest {
    /// The pane that was dragged.
    pub source: PaneId,
    /// The zone in which it was released.
    pub zone: DropZone,
}

/// The pane drag after a press: a press on a pane arms a drag where no drag
/// of either kind is under way.
pub open spec fn pane_drag_armed(
    state: Option<PaneDragState>,
    divider_drag_active: bool,
    ids: Seq<PaneId>,
    rects: Map<u64, Rect>,
    input: FrameInput,
) -> Option<PaneDragState> {
    if input.pointer_pressed && state is None && !divider_drag_active && input.pointer_pos is Some {
        match pane_holding(ids, rects, input.pointer_pos->0) {
            Some(id) => Some(
                PaneDragState {
                    source_pane_id: id,
                    start_pos: input.pointer_pos->0,
                    current_pos: input.pointer_pos->0,
                    drag_active: false,
                },
            ),
            None => state,
        }
    } else {
        state
    }
}

/// The pane drag after the pointer was followed: Escape cancels it.
pub open spec fn pane_drag_followed(state: Option<PaneDragState>, input: FrameInput) -> Option<
    PaneDragState,
> {
    match state {
        Some(drag) => if input.escape_pressed {
            None
        } else if input.pointer_pos is Some {
            Some(drag.moved_to(input.pointer_pos->0))
        } else {
            Some(drag)
        },
        None => None,
    }
}

/// The drop that a release asks for: that of an active drag released in a
/// drop zone of another pane.
pub open spec fn pane_drag_released(
    state: Option<PaneDragState>,
    ids: Seq<PaneId>,
    rects: Map<u64, Rect>,
    input: FrameInput,
) -> Option<DropRequest> {
    match state {
        Some(drag) => if input.pointer_released && drag.drag_active {
            match zone_at(drop_zones(ids, rects, drag.source_pane_id), drag.current_pos) {
                Some(zone) => Some(DropRequest { source: drag.source_pane_id, zone }),
                None => None,
            }
        } else {
            None
        },
        None => None,
    }
}

/// One frame of the pane drag session: the state after the frame, and the
/// drop that the frame asks for, if any. `ids` are the panes of the active
/// workspace in depth-first order, `layout` their rectangles.
pub fn pane_drag_step(
    state: Option<PaneDragState>,
    divider_drag_active: bool,
    ids: &Vec<PaneId>,
    layout: &ComputedLayout,
    input: FrameInput,
) -> (res: (Option<PaneDragState>, Option<DropRequest>))
    ensures
        ({
            let armed = pane_drag_armed(
                state,
                divider_drag_active,
                ids@,
                layout.pane_rects@,
                input,
            );
            let followed = pane_drag_followed(armed, input);
            &&& res.0 == if input.pointer_released {
                None
            } else {
                followed
            }
            &&& res.1 == pane_drag_released(followed, ids@, layout.pane_rects@, input)
        }),
{
    let mut state = state;
    if input.pointer_pressed && state.is_none() && !divider_drag_active {
        match input.pointer_pos {
            Some(pos) => {
                match pane_at(ids, layout, pos) {
                    Some(id) => {
                        state = Some(PaneDragState::begin(id, pos));
                    },
                    None => {},
                }
            },
            None => {},
        }
    }
    state = match state {
        Some(drag) => {
            let mut drag = drag;
            match input.pointer_pos {
                Some(pos) => {
                    drag.update(pos);
                },
                None => {},
            }
            if input.escape_pressed {
                None
            } else {
                Some(drag)
            }
        },
        None => None,
    };
    if input.pointer_released {
        match state {
            Some(drag) => {
                if drag.drag_active {
                    let zones = compute_drop_zones(ids, layout, drag.source_pane_id);
                    match find_drop_zone(&zones, drag.current_pos) {
                        Some(zone) => {
                            return (None, Some(DropRequest { source: drag.source_pane_id, zone }));
                        },
                        None => {},
                    }
                }
            },
            None => {},
        }
        return (None, None);
    }
    (state, None)
}

impl DividerDragState {
    /// Begin a divider drag on the split at `path` of the workspace with
    /// the given index. No divider drag begins while a pane drag is under
    /// way.
    pub fn begin(workspace: usize, path: Vec<bool>, pane_drag_active: bool) -> (state: Option<
        DividerDragState,
    >)
        ensures
            state is Some <==> !pane_drag_active,
            state matches Some(drag) ==> drag.workspace == workspace && drag.path@ == path@,
    {
        if pane_drag_active {
            None
        } else {
            Some(DividerDragState { workspace, path })
        }
    }
}

/// One frame of the divider drag session: the state after the frame, and
/// the pointer position to which the divider is to follow, if any.
/// Releasing the pointer ends the session; the ratio that the divider has
/// then stays.
pub fn divider_drag_step(state: Option<DividerDragState>, input: FrameInput) -> (res: (
    Option<DividerDragState>,
    Option<Pos>,
))
    ensures
        res.0 == if input.pointer_released {
            None
        } else {
            state
        },
        res.1 == if state is Some && !input.pointer_released {
            input.pointer_pos
        } else {
            None
        },
{
    match state {
        Some(drag) => {
            if input.pointer_released {
                (None, None)
            } else {
                (Some(drag), input.pointer_pos)
            }
        },
        None => (None, None),
    }
}

} // verus!
