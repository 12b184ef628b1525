use vibeterm::compute::ComputedLayout;
use vibeterm::drag::{
    compute_drop_zones, divider_drag_step, drag_ratio, exceeds_threshold, find_drop_zone, pane_at,
    pane_drag_step, pointer_ratio, DividerDragState, DropZone, FrameInput, PaneDragState,
};
use vibeterm::geometry::{Pos, Rect, SplitDirection, DIVIDER_WIDTH};
use vibeterm::layout::{LayoutNode, PaneId};
use vibeterm::workspace::Workspace;

fn rect(x0: i32, y0: i32, x1: i32, y1: i32) -> Rect {
    Rect { min: Pos { x: x0, y: y0 }, max: Pos { x: x1, y: y1 } }
}

fn viewport() -> Rect {
    rect(0, 0, 1004, 804)
}

fn three_panes() -> Workspace<String> {
    let mut ws = Workspace::new("zero".to_string());
    ws.split_focused(SplitDirection::Horizontal, "one".to_string());
    ws.split_focused(SplitDirection::Vertical, "two".to_string());
    ws
}

fn layout_of(ws: &Workspace<String>) -> ComputedLayout {
    let mut layout = ComputedLayout::new();
    let mut path = Vec::new();
    ws.root().compute_layout(viewport(), DIVIDER_WIDTH, &mut path, &mut layout);
    layout
}

fn frame(pos: Option<(i32, i32)>, pressed: bool, released: bool, escape: bool) -> FrameInput {
    FrameInput {
        pointer_pos: pos.map(|(x, y)| Pos { x, y }),
        pointer_pressed: pressed,
        pointer_released: released,
        escape_pressed: escape,
    }
}

#[test]
fn drag_needs_more_than_eight_pixels_of_travel() {
    let origin = Pos::new(100, 100);
    assert!(!exceeds_threshold(origin, Pos::new(107, 100)));
    assert!(!exceeds_threshold(origin, Pos::new(108, 100)));
    assert!(exceeds_threshold(origin, Pos::new(109, 100)));
    assert!(!exceeds_threshold(origin, Pos::new(100, 92)));
    assert!(exceeds_threshold(origin, Pos::new(100, 91)));
    assert!(!exceeds_threshold(origin, Pos::new(92, 100)));
    assert!(!exceeds_threshold(origin, Pos::new(105, 106)));
    assert!(exceeds_threshold(origin, Pos::new(106, 106)));
    assert!(!exceeds_threshold(origin, origin));
    assert!(exceeds_threshold(Pos::new(i32::MIN, i32::MIN), Pos::new(i32::MAX, i32::MAX)));
}

#[test]
fn drag_state_becomes_active_and_stays_active() {
    let mut drag = PaneDragState::begin(PaneId(3), Pos::new(10, 10));
    assert!(!drag.drag_active);
    drag.update(Pos::new(12, 12));
    assert!(!drag.drag_active);
    assert_eq!(drag.current_pos, Pos::new(12, 12));
    drag.update(Pos::new(10, 18));
    assert!(!drag.drag_active);
    drag.update(Pos::new(10, 19));
    assert!(drag.drag_active);
    drag.update(Pos::new(10, 10));
    assert!(drag.drag_active);
    assert_eq!(drag.start_pos, Pos::new(10, 10));
    assert_eq!(drag.source_pane_id, PaneId(3));
}

#[test]
fn travel_of_exactly_eight_pixels_is_still_a_click() {
    let ws = three_panes();
    let layout = layout_of(&ws);
    let ids = ws.pane_ids();
    let (state, _) =
        pane_drag_step(None, false, &ids, &layout, frame(Some((600, 700)), true, false, false));
    let (state, drop) =
        pane_drag_step(state, false, &ids, &layout, frame(Some((608, 700)), false, false, false));
    assert!(drop.is_none());
    assert!(!state.unwrap().drag_active);
    assert_eq!(state.unwrap().current_pos, Pos::new(608, 700));
    let (state, _) =
        pane_drag_step(state, false, &ids, &layout, frame(Some((609, 700)), false, false, false));
    assert!(state.unwrap().drag_active);
}

#[test]
fn zone_placements() {
    assert_eq!(DropZone::Top(PaneId(1)).placement(), (PaneId(1), SplitDirection::Vertical, true));
    assert_eq!(
        DropZone::Bottom(PaneId(1)).placement(),
        (PaneId(1), SplitDirection::Vertical, false)
    );
    assert_eq!(
        DropZone::Left(PaneId(1)).placement(),
        (PaneId(1), SplitDirection::Horizontal, true)
    );
    assert_eq!(
        DropZone::Right(PaneId(1)).placement(),
        (PaneId(1), SplitDirection::Horizontal, false)
    );
}

#[test]
fn drop_zones_are_quarters_and_halves_of_each_other_pane() {
    let ws = three_panes();
    let layout = layout_of(&ws);
    assert_eq!(layout.pane_rects.get(&0), Some(&rect(0, 0, 500, 804)));
    let zones = compute_drop_zones(&ws.pane_ids(), &layout, PaneId(2));
    assert_eq!(zones.len(), 8);
    assert_eq!(zones[0].zone, DropZone::Top(PaneId(0)));
    assert_eq!(zones[0].rect, rect(0, 0, 500, 201));
    assert_eq!(zones[0].highlight_rect, rect(0, 0, 500, 402));
    assert_eq!(zones[1].zone, DropZone::Bottom(PaneId(0)));
    assert_eq!(zones[1].rect, rect(0, 603, 500, 804));
    assert_eq!(zones[1].highlight_rect, rect(0, 402, 500, 804));
    assert_eq!(zones[2].zone, DropZone::Left(PaneId(0)));
    assert_eq!(zones[2].rect, rect(0, 0, 125, 804));
    assert_eq!(zones[2].highlight_rect, rect(0, 0, 250, 804));
    assert_eq!(zones[3].zone, DropZone::Right(PaneId(0)));
    assert_eq!(zones[3].rect, rect(375, 0, 500, 804));
    assert_eq!(zones[3].highlight_rect, rect(250, 0, 500, 804));
    assert_eq!(zones[4].zone, DropZone::Top(PaneId(1)));
    assert_eq!(find_drop_zone(&zones, Pos::new(10, 10)), Some(DropZone::Top(PaneId(0))));
    assert_eq!(find_drop_zone(&zones, Pos::new(10, 300)), Some(DropZone::Left(PaneId(0))));
    assert_eq!(find_drop_zone(&zones, Pos::new(250, 400)), None);
    assert_eq!(find_drop_zone(&zones, Pos::new(600, 700)), None);
}

#[test]
fn pane_under_the_pointer() {
    let ws = three_panes();
    let layout = layout_of(&ws);
    let ids = ws.pane_ids();
    assert_eq!(pane_at(&ids, &layout, Pos::new(10, 10)), Some(PaneId(0)));
    assert_eq!(pane_at(&ids, &layout, Pos::new(600, 10)), Some(PaneId(1)));
    assert_eq!(pane_at(&ids, &layout, Pos::new(600, 700)), Some(PaneId(2)));
    assert_eq!(pane_at(&ids, &layout, Pos::new(501, 10)), None);
    assert_eq!(pane_at(&ids, &layout, Pos::new(2000, 10)), None);
}

#[test]
fn pane_drag_to_top_zone_scenario() {
    let mut ws = three_panes();
    let address = |ws: &Workspace<String>, id: u64| ws.get_content(PaneId(id)).unwrap().as_ptr() as usize;
    let (zero_at, two_at) = (address(&ws, 0), address(&ws, 2));
    let layout = layout_of(&ws);
    let ids = ws.pane_ids();
    let (state, drop) =
        pane_drag_step(None, false, &ids, &layout, frame(Some((600, 700)), true, false, false));
    assert!(drop.is_none());
    let armed = state.unwrap();
    assert_eq!(armed.source_pane_id, PaneId(2));
    assert!(!armed.drag_active);
    let (state, drop) =
        pane_drag_step(state, false, &ids, &layout, frame(Some((300, 400)), false, false, false));
    assert!(drop.is_none());
    assert!(state.unwrap().drag_active);
    let (state, drop) =
        pane_drag_step(state, false, &ids, &layout, frame(Some((200, 100)), false, true, false));
    assert!(state.is_none());
    let drop = drop.unwrap();
    assert_eq!(drop.source, PaneId(2));
    assert_eq!(drop.zone, DropZone::Top(PaneId(0)));
    assert!(ws.execute_pane_drop(drop.source, drop.zone));
    assert_eq!(ws.focused_pane(), PaneId(2));
    match ws.root() {
        LayoutNode::Split { first, second, .. } => {
            assert!(second.is_pane(PaneId(1)));
            match &**first {
                LayoutNode::Split { direction, ratio, first, second } => {
                    assert_eq!(*direction, SplitDirection::Vertical);
                    assert_eq!(*ratio, 500_000);
                    assert!(first.is_pane(PaneId(2)));
                    assert!(second.is_pane(PaneId(0)));
                }
                LayoutNode::Leaf { .. } => panic!("expected a split"),
            }
        }
        LayoutNode::Leaf { .. } => panic!("expected a split"),
    }
    assert_eq!(ws.get_content(PaneId(0)), Some(&"zero".to_string()));
    assert_eq!(ws.get_content(PaneId(2)), Some(&"two".to_string()));
    assert_eq!(ws.get_content(PaneId(1)), Some(&"one".to_string()));
    assert_eq!(ws.pane_count(), 3);
    assert_eq!(address(&ws, 0), zero_at);
    assert_eq!(address(&ws, 2), two_at);
}

#[test]
fn press_without_travel_is_no_drag() {
    let ws = three_panes();
    let layout = layout_of(&ws);
    let ids = ws.pane_ids();
    let (state, _) =
        pane_drag_step(None, false, &ids, &layout, frame(Some((600, 700)), true, false, false));
    let (state, drop) =
        pane_drag_step(state, false, &ids, &layout, frame(Some((603, 703)), false, true, false));
    assert!(state.is_none());
    assert!(drop.is_none());
}

#[test]
fn escape_cancels_a_pane_drag() {
    let ws = three_panes();
    let layout = layout_of(&ws);
    let ids = ws.pane_ids();
    let (state, _) =
        pane_drag_step(None, false, &ids, &layout, frame(Some((600, 700)), true, false, false));
    let (state, _) =
        pane_drag_step(state, false, &ids, &layout, frame(Some((200, 100)), false, false, false));
    assert!(state.unwrap().drag_active);
    let (state, drop) =
        pane_drag_step(state, false, &ids, &layout, frame(Some((200, 100)), false, false, true));
    assert!(state.is_none());
    assert!(drop.is_none());
}

#[test]
fn pane_drag_does_not_start_during_a_divider_drag_or_off_panes() {
    let ws = three_panes();
    let layout = layout_of(&ws);
    let ids = ws.pane_ids();
    let (state, _) =
        pane_drag_step(None, true, &ids, &layout, frame(Some((600, 700)), true, false, false));
    assert!(state.is_none());
    let (state, _) =
        pane_drag_step(None, false, &ids, &layout, frame(Some((501, 700)), true, false, false));
    assert!(state.is_none());
    let (state, _) = pane_drag_step(None, false, &ids, &layout, frame(None, true, false, false));
    assert!(state.is_none());
}

#[test]
fn release_on_own_pane_or_outside_zones_drops_nothing() {
    let ws = three_panes();
    let layout = layout_of(&ws);
    let ids = ws.pane_ids();
    let (state, _) =
        pane_drag_step(None, false, &ids, &layout, frame(Some((600, 500)), true, false, false));
    let (state, drop) =
        pane_drag_step(state, false, &ids, &layout, frame(Some((600, 790)), false, true, false));
    assert!(state.is_none());
    assert!(drop.is_none());
}

#[test]
fn drop_that_cannot_be_carried_out_changes_nothing() {
    let mut single = Workspace::new("zero".to_string());
    assert!(!single.execute_pane_drop(PaneId(0), DropZone::Top(PaneId(0))));
    assert!(!single.execute_pane_drop(PaneId(0), DropZone::Top(PaneId(1))));
    assert_eq!(single.pane_count(), 1);
    assert_eq!(single.get_content(PaneId(0)), Some(&"zero".to_string()));
    let mut ws = three_panes();
    assert!(!ws.execute_pane_drop(PaneId(9), DropZone::Left(PaneId(0))));
    assert!(!ws.execute_pane_drop(PaneId(1), DropZone::Left(PaneId(9))));
    assert!(!ws.execute_pane_drop(PaneId(1), DropZone::Left(PaneId(1))));
    assert_eq!(ws.pane_count(), 3);
    assert_eq!(ws.focused_pane(), PaneId(2));
}

#[test]
fn drag_ratio_values() {
    assert_eq!(drag_ratio(900, 0, 1000, 4), Some(900_000));
    assert_eq!(drag_ratio(498, 0, 1000, 4), Some(500_000));
    assert_eq!(drag_ratio(598, 100, 1000, 4), Some(500_000));
    assert_eq!(drag_ratio(0, 0, 1000, 4), Some(100_000));
    assert_eq!(drag_ratio(-5, 0, 1000, 4), Some(100_000));
    assert_eq!(drag_ratio(300, 0, 1000, 4), Some(301_204));
    assert_eq!(drag_ratio(1, 0, 4, 4), None);
    assert_eq!(drag_ratio(1, 0, 3, 4), None);
    assert_eq!(
        pointer_ratio(rect(0, 0, 1000, 504), SplitDirection::Vertical, 4, Pos::new(999, 125)),
        Some(250_000)
    );
}

#[test]
fn divider_drag_session() {
    assert!(DividerDragState::begin(0, vec![true], true).is_none());
    let state = DividerDragState::begin(2, vec![true], false);
    assert_eq!(state.as_ref().unwrap().workspace, 2);
    assert_eq!(state.as_ref().unwrap().path, vec![true]);
    let (state, follow) = divider_drag_step(state, frame(Some((5, 6)), false, false, false));
    assert_eq!(follow, Some(Pos::new(5, 6)));
    assert!(state.is_some());
    let (state, follow) = divider_drag_step(state, frame(None, false, false, false));
    assert_eq!(follow, None);
    assert!(state.is_some());
    let (state, follow) = divider_drag_step(state, frame(Some((5, 6)), false, true, false));
    assert_eq!(follow, None);
    assert!(state.is_none());
    let (state, follow) = divider_drag_step(None, frame(Some((5, 6)), false, false, false));
    assert!(state.is_none());
    assert_eq!(follow, None);
}
