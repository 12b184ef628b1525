use vibeterm::actions::{
    close_target, command_action, ime_composing_after, menu_action, shortcut_action, switch_tab,
    AppAction, CloseTarget, ImeSignal, Modifiers, ShortcutKey,
};
use vibeterm::geometry::{is_apart, Pos, Rect, SplitDirection};
use vibeterm::layout::PaneId;
use vibeterm::listing::{goes_after, sort_listing, ListingOrder};
use vibeterm::menu::MenuAction;
use vibeterm::text::{bytes_less, str_less};
use vibeterm::scanner::{is_hidden, DirItem, DirScan};
use vibeterm::ui::tab_bar::{move_item, tab_drag_step, tab_move, TabDragState, TabMove};
use vibeterm::workspace::{ExitOutcome, TabContent, TerminalInstance, Workspace};

fn mods(command: bool, ctrl: bool, shift: bool, alt: bool) -> Modifiers {
    Modifiers { alt, ctrl, shift, command }
}

fn item(name: &str, dir: &str, is_dir: bool) -> DirItem {
    DirItem { name: name.to_string(), path: format!("{}/{}", dir, name), is_dir }
}

fn listing(dir: &str) -> Option<Vec<DirItem>> {
    match dir {
        "/r" => Some(vec![
            item(".hidden_dir", "/r", true),
            item("dir1", "/r", true),
            item("dir2", "/r", true),
            item("file1.txt", "/r", false),
        ]),
        "/r/dir1" => Some(vec![item("file2.txt", "/r/dir1", false), item("subdir", "/r/dir1", true)]),
        "/r/dir1/subdir" => Some(vec![item("file3.txt", "/r/dir1/subdir", false)]),
        "/r/dir2" => Some(vec![item("file4.txt", "/r/dir2", false)]),
        _ => None,
    }
}

fn scan(max_depth: usize, max_files: usize) -> Vec<(String, usize, bool, bool)> {
    let mut scan = DirScan::new("/r".to_string(), max_depth, max_files);
    let mut rounds = 0;
    while let Some(dir) = scan.next_request().cloned() {
        scan.feed(listing(&dir));
        rounds += 1;
        assert!(rounds < 100);
    }
    scan.finish().into_iter().map(|e| (e.name, e.depth, e.is_dir, e.is_last)).collect()
}

fn names(entries: &[(String, usize, bool, bool)]) -> Vec<&str> {
    entries.iter().map(|e| e.0.as_str()).collect()
}

#[test]
fn shortcuts() {
    let cmd = mods(true, false, false, false);
    let cmd_shift = mods(true, false, true, false);
    let ctrl = mods(false, true, false, false);
    let ctrl_shift = mods(false, true, true, false);
    let shift = mods(false, false, true, false);
    let none = mods(false, false, false, false);
    assert_eq!(shortcut_action(ShortcutKey::T, cmd), Some(AppAction::NewTab));
    assert_eq!(shortcut_action(ShortcutKey::T, none), None);
    assert_eq!(shortcut_action(ShortcutKey::W, cmd_shift), Some(AppAction::ClosePaneOrTab));
    assert_eq!(shortcut_action(ShortcutKey::D, cmd), Some(AppAction::SplitHorizontal));
    assert_eq!(shortcut_action(ShortcutKey::D, cmd_shift), Some(AppAction::SplitVertical));
    assert_eq!(shortcut_action(ShortcutKey::D, shift), None);
    assert_eq!(shortcut_action(ShortcutKey::B, cmd), Some(AppAction::ToggleSidebar));
    assert_eq!(
        shortcut_action(ShortcutKey::OpenBracket, ctrl_shift),
        Some(AppAction::CollapseAllDirectories)
    );
    assert_eq!(shortcut_action(ShortcutKey::C, cmd_shift), Some(AppAction::CollapseAllDirectories));
    assert_eq!(shortcut_action(ShortcutKey::C, cmd), None);
    assert_eq!(shortcut_action(ShortcutKey::E, cmd_shift), Some(AppAction::ExpandAllDirectories));
    assert_eq!(shortcut_action(ShortcutKey::Comma, cmd), Some(AppAction::ShowPreferences));
    assert_eq!(shortcut_action(ShortcutKey::Num(1), cmd), Some(AppAction::SwitchToTab(0)));
    assert_eq!(shortcut_action(ShortcutKey::Num(9), cmd), Some(AppAction::SwitchToTab(8)));
    assert_eq!(shortcut_action(ShortcutKey::Num(0), cmd), None);
    assert_eq!(shortcut_action(ShortcutKey::Num(10), cmd), None);
    assert_eq!(shortcut_action(ShortcutKey::Num(3), none), None);
    assert_eq!(shortcut_action(ShortcutKey::Tab, ctrl), Some(AppAction::FocusNextPane));
    assert_eq!(shortcut_action(ShortcutKey::Tab, ctrl_shift), Some(AppAction::FocusPrevPane));
    assert_eq!(shortcut_action(ShortcutKey::Tab, shift), None);
    assert_eq!(shortcut_action(ShortcutKey::V, cmd), Some(AppAction::SmartPaste));
    assert_eq!(shortcut_action(ShortcutKey::V, cmd_shift), None);
    assert_eq!(shortcut_action(ShortcutKey::Enter, shift), Some(AppAction::InsertNewline));
    assert_eq!(shortcut_action(ShortcutKey::Enter, cmd_shift), None);
    assert_eq!(shortcut_action(ShortcutKey::Enter, ctrl_shift), None);
    assert_eq!(shortcut_action(ShortcutKey::P, cmd), Some(AppAction::TogglePalette));
    assert_eq!(shortcut_action(ShortcutKey::P, ctrl), Some(AppAction::TogglePalette));
    assert_eq!(shortcut_action(ShortcutKey::P, cmd_shift), None);
    assert_eq!(shortcut_action(ShortcutKey::P, mods(true, false, false, true)), None);
}

#[test]
fn menu_items_and_commands_map_to_actions() {
    assert_eq!(menu_action(MenuAction::NewTab), Some(AppAction::NewTab));
    assert_eq!(menu_action(MenuAction::NewWindow), Some(AppAction::NewWindow));
    assert_eq!(menu_action(MenuAction::CloseTab), Some(AppAction::ClosePaneOrTab));
    assert_eq!(menu_action(MenuAction::CloseWindow), None);
    assert_eq!(menu_action(MenuAction::SplitHorizontal), Some(AppAction::SplitHorizontal));
    assert_eq!(menu_action(MenuAction::SplitVertical), Some(AppAction::SplitVertical));
    assert_eq!(menu_action(MenuAction::ToggleSidebar), Some(AppAction::ToggleSidebar));
    assert_eq!(menu_action(MenuAction::Preferences), Some(AppAction::ShowPreferences));
    assert_eq!(menu_action(MenuAction::About), Some(AppAction::ShowAbout));
    assert_eq!(menu_action(MenuAction::Quit), None);
    assert_eq!(command_action("new_tab"), Some(AppAction::NewTab));
    assert_eq!(command_action("close_tab"), Some(AppAction::ClosePaneOrTab));
    assert_eq!(command_action("close_pane"), Some(AppAction::ClosePaneOrTab));
    assert_eq!(command_action("split_horizontal"), Some(AppAction::SplitHorizontal));
    assert_eq!(command_action("split_vertical"), Some(AppAction::SplitVertical));
    assert_eq!(command_action("toggle_sidebar"), Some(AppAction::ToggleSidebar));
    assert_eq!(command_action("settings"), Some(AppAction::ShowPreferences));
    assert_eq!(command_action("next_tab"), Some(AppAction::NextTab));
    assert_eq!(command_action("prev_tab"), Some(AppAction::PrevTab));
    assert_eq!(command_action("other"), None);
}

#[test]
fn closing_and_switching() {
    assert_eq!(close_target(2, 1), CloseTarget::Pane);
    assert_eq!(close_target(1, 2), CloseTarget::Tab);
    assert_eq!(close_target(1, 1), CloseTarget::Nothing);
    assert_eq!(switch_tab(AppAction::SwitchToTab(2), 0, 3), 2);
    assert_eq!(switch_tab(AppAction::SwitchToTab(3), 0, 3), 0);
    assert_eq!(switch_tab(AppAction::NextTab, 1, 3), 2);
    assert_eq!(switch_tab(AppAction::NextTab, 2, 3), 2);
    assert_eq!(switch_tab(AppAction::PrevTab, 0, 3), 0);
    assert_eq!(switch_tab(AppAction::PrevTab, 2, 3), 1);
    assert_eq!(switch_tab(AppAction::NewTab, 2, 3), 2);
}

#[test]
fn ime_composing() {
    assert!(ime_composing_after(true, ImeSignal::Enabled));
    assert!(!ime_composing_after(false, ImeSignal::Enabled));
    assert!(ime_composing_after(false, ImeSignal::Preedit { empty: false }));
    assert!(!ime_composing_after(true, ImeSignal::Preedit { empty: true }));
    assert!(!ime_composing_after(true, ImeSignal::Commit));
    assert!(!ime_composing_after(true, ImeSignal::Disabled));
}

#[test]
fn terminal_exit_closes_its_pane_but_never_the_last() {
    let term = |id| TabContent::Terminal(TerminalInstance { backend: (), id });
    let mut ws: Workspace<TabContent<(), ()>> = Workspace::new(term(10));
    assert_eq!(ws.close_terminal(10), ExitOutcome::LastPane(PaneId(0)));
    assert_eq!(ws.pane_count(), 1);
    ws.split_focused(SplitDirection::Horizontal, term(11));
    ws.split_focused(SplitDirection::Vertical, TabContent::FileViewer(()));
    assert_eq!(ws.close_terminal(99), ExitOutcome::NotHere);
    assert_eq!(ws.close_terminal(11), ExitOutcome::Closed(PaneId(1)));
    assert_eq!(ws.pane_count(), 2);
    assert_eq!(ws.focused_pane(), PaneId(0));
    assert_eq!(ws.close_terminal(10), ExitOutcome::Closed(PaneId(0)));
    assert_eq!(ws.pane_count(), 1);
    assert_eq!(ws.focused_pane(), PaneId(2));
}

#[test]
fn distances() {
    assert!(is_apart(Pos::new(0, 0), Pos::new(3, 4), 5));
    assert!(!is_apart(Pos::new(0, 0), Pos::new(3, 3), 5));
    assert!(is_apart(Pos::new(-2, 0), Pos::new(3, 0), 5));
    assert!(!is_apart(Pos::new(1, 1), Pos::new(1, 1), 1));
}

#[test]
fn tab_moves() {
    assert_eq!(tab_move(0, 2, 0, 3), Some(TabMove { from: 0, to: 1, active: 1 }));
    assert_eq!(tab_move(0, 3, 1, 3), Some(TabMove { from: 0, to: 2, active: 0 }));
    assert_eq!(tab_move(2, 0, 1, 3), Some(TabMove { from: 2, to: 0, active: 2 }));
    assert_eq!(tab_move(2, 0, 2, 3), Some(TabMove { from: 2, to: 0, active: 0 }));
    assert_eq!(tab_move(0, 1, 2, 3), Some(TabMove { from: 0, to: 0, active: 2 }));
    assert_eq!(tab_move(1, 1, 0, 3), None);
    assert_eq!(tab_move(3, 0, 0, 3), None);
    assert_eq!(tab_move(0, 4, 0, 3), None);
    let mut tabs = vec!['a', 'b', 'c', 'd'];
    move_item(&mut tabs, 0, 2);
    assert_eq!(tabs, vec!['b', 'c', 'a', 'd']);
    move_item(&mut tabs, 3, 0);
    assert_eq!(tabs, vec!['d', 'b', 'c', 'a']);
}

#[test]
fn tab_drag_session() {
    let rect = |x0: i32, x1: i32| Rect { min: Pos { x: x0, y: 0 }, max: Pos { x: x1, y: 20 } };
    let rects = vec![(0usize, rect(0, 100)), (1usize, rect(100, 200)), (2usize, rect(200, 300))];
    let p = |x: i32| Some(Pos { x, y: 5 });
    let (state, mv) = tab_drag_step(None, Some(0), p(10), false, false, &rects, 0, 3);
    assert!(mv.is_none());
    assert!(!state.unwrap().drag_active);
    let (state, _) = tab_drag_step(state, None, p(14), false, false, &rects, 0, 3);
    assert!(!state.unwrap().drag_active);
    let (state, _) = tab_drag_step(state, None, p(15), false, false, &rects, 0, 3);
    assert!(state.unwrap().drag_active);
    let (state, mv) = tab_drag_step(state, None, p(260), true, false, &rects, 0, 3);
    assert!(state.is_none());
    assert_eq!(mv, Some(TabMove { from: 0, to: 2, active: 2 }));
    let armed: Option<TabDragState> = Some(TabDragState::begin(1, Pos { x: 150, y: 5 }));
    let (state, mv) = tab_drag_step(armed, None, p(152), true, false, &rects, 0, 3);
    assert!(state.is_none() && mv.is_none());
    let (state, _) = tab_drag_step(armed, None, p(190), false, false, &rects, 0, 3);
    let (state, mv) = tab_drag_step(state, None, p(190), false, true, &rects, 0, 3);
    assert!(state.is_none() && mv.is_none());
    let (state, mv) = tab_drag_step(None, None, p(190), true, false, &rects, 0, 3);
    assert!(state.is_none() && mv.is_none());
}

#[test]
fn hidden_names() {
    assert!(is_hidden(".git"));
    assert!(is_hidden("."));
    assert!(!is_hidden("a.b"));
    assert!(!is_hidden(""));
}

#[test]
fn scan_takes_the_tree_in_depth_first_order() {
    let entries = scan(10, 1000);
    assert_eq!(
        entries,
        vec![
            ("dir1".to_string(), 0, true, false),
            ("file2.txt".to_string(), 1, false, false),
            ("subdir".to_string(), 1, true, true),
            ("file3.txt".to_string(), 2, false, true),
            ("dir2".to_string(), 0, true, false),
            ("file4.txt".to_string(), 1, false, true),
            ("file1.txt".to_string(), 0, false, true),
        ]
    );
}

#[test]
fn scan_respects_the_depth_limit() {
    assert!(scan(0, 1000).is_empty());
    let entries = scan(1, 1000);
    assert_eq!(names(&entries), vec!["dir1"]);
    let entries = scan(2, 1000);
    assert_eq!(names(&entries), vec!["dir1", "file2.txt", "subdir"]);
    assert!(entries.iter().all(|e| e.1 <= 1));
}

#[test]
fn scan_respects_the_file_limit() {
    assert!(scan(10, 0).is_empty());
    assert_eq!(names(&scan(10, 1)), vec!["dir1"]);
    assert_eq!(names(&scan(10, 2)), vec!["dir1", "file2.txt"]);
    assert_eq!(names(&scan(10, 3)), vec!["dir1", "file2.txt", "subdir"]);
    assert_eq!(names(&scan(10, 5)).len(), 5);
    assert_eq!(scan(10, 7).len(), 7);
}

#[test]
fn scan_passes_over_unreadable_directories() {
    let mut scan = DirScan::new("/missing".to_string(), 10, 1000);
    assert_eq!(scan.next_request(), Some(&"/missing".to_string()));
    scan.feed(None);
    assert!(scan.next_request().is_none());
    assert!(scan.entries().is_empty());
    let mut scan = DirScan::new("/r".to_string(), 10, 1000);
    scan.feed(listing("/r"));
    assert_eq!(scan.next_request(), Some(&"/r/dir1".to_string()));
    scan.feed(None);
    assert_eq!(scan.next_request(), Some(&"/r/dir2".to_string()));
    scan.feed(None);
    assert!(scan.next_request().is_none());
    let got: Vec<String> = scan.finish().into_iter().map(|e| e.name).collect();
    assert_eq!(got, vec!["dir1", "dir2", "file1.txt"]);
}

#[test]
fn listing_entries_leave_out_hidden_items() {
    let items = vec![
        item("src", "/r", true),
        item(".git", "/r", true),
        item("a.txt", "/r", false),
        item("b.txt", "/r", false),
    ];
    let entries = vibeterm::scanner::listing_entries(&items, 2);
    let got: Vec<(&str, &str, bool, usize, bool)> = entries
        .iter()
        .map(|e| (e.name.as_str(), e.path.as_str(), e.is_dir, e.depth, e.is_last))
        .collect();
    assert_eq!(
        got,
        vec![
            ("src", "/r/src", true, 2, false),
            ("a.txt", "/r/a.txt", false, 2, false),
            ("b.txt", "/r/b.txt", false, 2, true),
        ]
    );
    let hidden_last = vec![item("a", "/r", false), item(".z", "/r", false)];
    let entries = vibeterm::scanner::listing_entries(&hidden_last, 0);
    assert_eq!(entries.len(), 1);
    assert!(!entries[0].is_last);
    assert!(vibeterm::scanner::listing_entries(&Vec::new(), 0).is_empty());
}

fn paths(items: &[DirItem]) -> Vec<&str> {
    items.iter().map(|i| i.path.as_str()).collect()
}

#[test]
fn byte_order_of_texts() {
    assert!(str_less("a", "b"));
    assert!(!str_less("b", "a"));
    assert!(!str_less("a", "a"));
    assert!(str_less("", "a"));
    assert!(!str_less("a", ""));
    assert!(!str_less("", ""));
    assert!(str_less("a", "ab"));
    assert!(!str_less("ab", "a"));
    assert!(str_less("B", "a"));
    assert!(str_less("a.txt", "a/b"));
    assert!(str_less("z", "é"));
    assert!(bytes_less(&[1, 2, 3], &[1, 3]));
    assert!(!bytes_less(&[1, 3], &[1, 2, 3]));
    assert!(bytes_less(&[0x7f], &[0x80]));
}

#[test]
fn listing_sorts_by_path() {
    let items = vec![
        item("file1.txt", "/r", false),
        item("dir2", "/r", true),
        item(".hidden", "/r", false),
        item("dir1", "/r", true),
        item("Zeta", "/r", false),
        item("dir10", "/r", true),
    ];
    let sorted = sort_listing(items, ListingOrder::ByPath);
    assert_eq!(
        paths(&sorted),
        vec!["/r/.hidden", "/r/Zeta", "/r/dir1", "/r/dir10", "/r/dir2", "/r/file1.txt"]
    );
    assert!(sort_listing(Vec::new(), ListingOrder::ByPath).is_empty());
    let one = sort_listing(vec![item("x", "/r", false)], ListingOrder::ByPath);
    assert_eq!(paths(&one), vec!["/r/x"]);
}

#[test]
fn listing_sorts_directories_first_then_by_name() {
    let items = vec![
        item("b.txt", "/r", false),
        item("zoo", "/r", true),
        item("a.txt", "/r", false),
        item("bin", "/r", true),
        item("Makefile", "/r", false),
        item("apps", "/r", true),
    ];
    let sorted = sort_listing(items, ListingOrder::DirectoriesFirst);
    assert_eq!(
        paths(&sorted),
        vec!["/r/apps", "/r/bin", "/r/zoo", "/r/Makefile", "/r/a.txt", "/r/b.txt"]
    );
}

#[test]
fn items_that_tie_keep_their_order() {
    let tie = |name: &str, path: &str| DirItem {
        name: name.to_string(),
        path: path.to_string(),
        is_dir: false,
    };
    let items = vec![
        tie("n", "3"),
        tie("m", "1"),
        tie("n", "1"),
        tie("m", "2"),
        tie("n", "2"),
        tie("a", "9"),
        tie("m", "3"),
    ];
    let by_name = sort_listing(items.clone(), ListingOrder::DirectoriesFirst);
    assert_eq!(paths(&by_name), vec!["9", "1", "2", "3", "3", "1", "2"]);
    let by_path = sort_listing(items, ListingOrder::ByPath);
    let names: Vec<&str> = by_path.iter().map(|i| i.name.as_str()).collect();
    assert_eq!(names, vec!["m", "n", "m", "n", "n", "m", "a"]);
}

#[test]
fn large_listing_comes_out_in_order() {
    let mut items = Vec::new();
    let mut seed = 7u64;
    for _ in 0..500 {
        seed = seed.wrapping_mul(6364136223846793005).wrapping_add(1442695040888963407);
        items.push(item(&format!("f{}", seed >> 40), "/r", seed % 3 == 0));
    }
    for order in [ListingOrder::ByPath, ListingOrder::DirectoriesFirst] {
        let sorted = sort_listing(items.clone(), order);
        assert_eq!(sorted.len(), 500);
        for pair in sorted.windows(2) {
            assert!(!goes_after(order, &pair[0], &pair[1]));
        }
        let mut want: Vec<String> = items.iter().map(|i| i.path.clone()).collect();
        let mut got: Vec<String> = sorted.iter().map(|i| i.path.clone()).collect();
        want.sort();
        got.sort();
        assert_eq!(got, want);
    }
    let by_path = sort_listing(items.clone(), ListingOrder::ByPath);
    let mut want: Vec<String> = items.iter().map(|i| i.path.clone()).collect();
    want.sort();
    assert_eq!(by_path.iter().map(|i| i.path.clone()).collect::<Vec<_>>(), want);
}
