use vibeterm::geometry::{Pos, Rect, SplitDirection, DIVIDER_WIDTH};
use vibeterm::layout::{LayoutNode, PaneId};
use vibeterm::workspace::{position, TabContent, TerminalInstance, Workspace};

fn ids(ws: &Workspace<String>) -> Vec<u64> {
    ws.pane_ids().iter().map(|id| id.0).collect()
}

fn three_panes() -> Workspace<String> {
    let mut ws = Workspace::new("zero".to_string());
    ws.split_focused(SplitDirection::Horizontal, "one".to_string());
    ws.split_focused(SplitDirection::Vertical, "two".to_string());
    ws
}

fn viewport() -> Rect {
    Rect { min: Pos { x: 0, y: 0 }, max: Pos { x: 1000, y: 800 } }
}

fn root_ratio(ws: &Workspace<String>) -> u32 {
    match ws.root() {
        LayoutNode::Split { ratio, .. } => *ratio,
        LayoutNode::Leaf { .. } => panic!("expected a split"),
    }
}

#[test]
fn new_workspace_has_one_focused_pane() {
    let ws = Workspace::new("zero".to_string());
    assert_eq!(ids(&ws), vec![0]);
    assert_eq!(ws.focused_pane(), PaneId(0));
    assert_eq!(ws.next_pane_id(), 1);
    assert_eq!(ws.pane_count(), 1);
    assert_eq!(ws.get_content(PaneId(0)), Some(&"zero".to_string()));
}

#[test]
fn split_focused_scenario() {
    let mut ws = Workspace::new("zero".to_string());
    let id = ws.split_focused(SplitDirection::Horizontal, "one".to_string());
    assert_eq!(id, PaneId(1));
    assert_eq!(ws.pane_count(), 2);
    assert_eq!(ws.focused_pane(), PaneId(1));
    match ws.root() {
        LayoutNode::Split { direction, ratio, .. } => {
            assert_eq!(*direction, SplitDirection::Horizontal);
            assert_eq!(*ratio, 500_000);
        }
        LayoutNode::Leaf { .. } => panic!("expected a split"),
    }
    let id = ws.split_focused(SplitDirection::Vertical, "two".to_string());
    assert_eq!(id, PaneId(2));
    assert_eq!(ws.pane_count(), 3);
    assert_eq!(ids(&ws), vec![0, 1, 2]);
    assert!(ws.close_pane(PaneId(1)));
    assert_eq!(ids(&ws), vec![0, 2]);
    assert_eq!(ws.focused_pane(), PaneId(0));
    assert_eq!(ws.next_pane_id(), 3);
}

#[test]
fn ids_are_not_reused_after_close() {
    let mut ws = three_panes();
    assert!(ws.close_pane(PaneId(2)));
    let id = ws.split_focused(SplitDirection::Horizontal, "three".to_string());
    assert_eq!(id, PaneId(3));
    assert_eq!(ids(&ws), vec![0, 1, 3]);
}

#[test]
fn close_pane_moves_focus_to_previous_or_next() {
    let mut ws = three_panes();
    assert!(ws.close_pane(PaneId(0)));
    assert_eq!(ws.focused_pane(), PaneId(1));
    assert_eq!(ids(&ws), vec![1, 2]);
    let mut ws = three_panes();
    assert!(ws.close_pane(PaneId(2)));
    assert_eq!(ws.focused_pane(), PaneId(1));
    let mut ws = three_panes();
    ws.set_focus(PaneId(2));
    assert!(ws.close_pane(PaneId(1)));
    assert_eq!(ws.focused_pane(), PaneId(0));
}

#[test]
fn close_pane_rejects_last_pane_and_unknown_pane() {
    let mut ws = Workspace::new("zero".to_string());
    assert!(!ws.close_pane(PaneId(0)));
    assert_eq!(ids(&ws), vec![0]);
    let mut ws = three_panes();
    assert!(!ws.close_pane(PaneId(9)));
    assert_eq!(ids(&ws), vec![0, 1, 2]);
    assert_eq!(ws.focused_pane(), PaneId(2));
}

#[test]
fn focus_cycles_in_depth_first_order() {
    let mut ws = three_panes();
    assert_eq!(ws.focused_pane(), PaneId(2));
    ws.focus_next();
    assert_eq!(ws.focused_pane(), PaneId(0));
    ws.focus_next();
    assert_eq!(ws.focused_pane(), PaneId(1));
    ws.focus_prev();
    assert_eq!(ws.focused_pane(), PaneId(0));
    ws.focus_prev();
    assert_eq!(ws.focused_pane(), PaneId(2));
    let mut single = Workspace::new("zero".to_string());
    single.focus_next();
    assert_eq!(single.focused_pane(), PaneId(0));
    single.focus_prev();
    assert_eq!(single.focused_pane(), PaneId(0));
}

#[test]
fn set_focus_only_to_panes_of_the_tree() {
    let mut ws = three_panes();
    assert!(ws.set_focus(PaneId(0)));
    assert_eq!(ws.focused_pane(), PaneId(0));
    assert!(!ws.set_focus(PaneId(7)));
    assert_eq!(ws.focused_pane(), PaneId(0));
}

#[test]
fn content_access_through_the_workspace() {
    let mut ws = three_panes();
    assert_eq!(ws.get_content(PaneId(2)), Some(&"two".to_string()));
    assert!(ws.get_content(PaneId(5)).is_none());
    ws.get_content_mut(PaneId(2)).unwrap().push('!');
    assert_eq!(ws.get_content(PaneId(2)), Some(&"two!".to_string()));
    assert!(ws.get_content_mut(PaneId(5)).is_none());
}

#[test]
fn position_finds_first_occurrence() {
    let ids = vec![PaneId(4), PaneId(2), PaneId(4)];
    assert_eq!(position(&ids, PaneId(4)), Some(0));
    assert_eq!(position(&ids, PaneId(2)), Some(1));
    assert_eq!(position(&ids, PaneId(3)), None);
}

#[test]
fn find_pane_by_terminal_id_searches_depth_first() {
    let mut ws: Workspace<TabContent<&str, &str>> =
        Workspace::new(TabContent::Terminal(TerminalInstance { backend: "a", id: 10 }));
    ws.split_focused(SplitDirection::Horizontal, TabContent::FileViewer("file"));
    ws.split_focused(
        SplitDirection::Vertical,
        TabContent::Terminal(TerminalInstance { backend: "b", id: 12 }),
    );
    assert_eq!(ws.find_pane_by_terminal_id(10), Some(PaneId(0)));
    assert_eq!(ws.find_pane_by_terminal_id(12), Some(PaneId(2)));
    assert_eq!(ws.find_pane_by_terminal_id(11), None);
    assert_eq!(ws.get_content(PaneId(1)).unwrap().terminal_id(), None);
    assert_eq!(ws.get_content(PaneId(2)).unwrap().terminal_id(), Some(12));
}

#[test]
fn divider_drag_hits_the_max_clamp() {
    let mut ws = Workspace::new("zero".to_string());
    ws.split_focused(SplitDirection::Horizontal, "one".to_string());
    assert!(ws.drag_divider(&[], viewport(), DIVIDER_WIDTH, Pos { x: 900, y: 10 }));
    assert_eq!(root_ratio(&ws), 900_000);
    assert!(!ws.drag_divider(&[], viewport(), DIVIDER_WIDTH, Pos { x: 950, y: 10 }));
    assert_eq!(root_ratio(&ws), 900_000);
}

#[test]
fn divider_drag_sets_the_pointer_share() {
    let mut ws = Workspace::new("zero".to_string());
    ws.split_focused(SplitDirection::Horizontal, "one".to_string());
    assert!(ws.drag_divider(&[], viewport(), DIVIDER_WIDTH, Pos { x: 249, y: 10 }));
    assert_eq!(root_ratio(&ws), 250_000);
    assert!(ws.drag_divider(&[], viewport(), DIVIDER_WIDTH, Pos { x: 3, y: 10 }));
    assert_eq!(root_ratio(&ws), 100_000);
    assert!(!ws.drag_divider(&[], viewport(), DIVIDER_WIDTH, Pos { x: -50, y: 10 }));
    assert_eq!(root_ratio(&ws), 100_000);
}

#[test]
fn divider_drag_is_relative_to_the_split_rectangle() {
    let mut ws = three_panes();
    assert!(ws.drag_divider(&[true], viewport(), DIVIDER_WIDTH, Pos { x: 700, y: 199 }));
    match ws.root().get_node_at_path(&[true]).unwrap() {
        LayoutNode::Split { direction, ratio, .. } => {
            assert_eq!(*direction, SplitDirection::Vertical);
            assert_eq!(*ratio, 250_000);
        }
        LayoutNode::Leaf { .. } => panic!("expected a split"),
    }
    assert_eq!(root_ratio(&ws), 500_000);
}

#[test]
fn divider_drag_ignores_leaves_and_cramped_rectangles() {
    let mut ws = three_panes();
    assert!(!ws.drag_divider(&[false], viewport(), DIVIDER_WIDTH, Pos { x: 100, y: 100 }));
    assert!(!ws.drag_divider(&[true, true, true], viewport(), DIVIDER_WIDTH, Pos { x: 1, y: 1 }));
    let cramped = Rect { min: Pos { x: 0, y: 0 }, max: Pos { x: 4, y: 800 } };
    assert!(!ws.drag_divider(&[], cramped, DIVIDER_WIDTH, Pos { x: 2, y: 1 }));
    assert_eq!(root_ratio(&ws), 500_000);
    assert_eq!(ids(&ws), vec![0, 1, 2]);
}

#[test]
fn collect_contents_mut_through_the_workspace() {
    let mut ws = three_panes();
    for (id, content) in ws.collect_contents_mut() {
        content.push_str(&id.0.to_string());
    }
    assert_eq!(ws.get_content(PaneId(0)), Some(&"zero0".to_string()));
    assert_eq!(ws.get_content(PaneId(1)), Some(&"one1".to_string()));
    assert_eq!(ws.get_content(PaneId(2)), Some(&"two2".to_string()));
    assert_eq!(ids(&ws), vec![0, 1, 2]);
    assert_eq!(ws.focused_pane(), PaneId(2));
}
