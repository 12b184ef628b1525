use vibeterm::config::{
    color_to_hex, gray, parse_hex_color, parse_hex_pair, parse_hex_strict, Rgb, RuntimeTheme,
    ThemeConfig,
};
use vibeterm::context::ContextConfig;
use vibeterm::geometry::{Pos, Rect};
use vibeterm::menu::MenuAction;
use vibeterm::text::{bytes_contain, bytes_eq, str_contains, str_eq};
use vibeterm::ui::preferences::PreferencesTab;
use vibeterm::ui::sidebar::{
    build_tree_prefix, collapse_all_directories, insert_children, mark_all_expanded,
    toggle_directory, FileEntry, SidebarResponse, ToggleOutcome,
};
use vibeterm::ui::tab_bar::{
    active_tab_after_close, active_tab_after_move, find_tab_drop_zone, TabInfo,
};

fn entry(name: &str, is_dir: bool, depth: usize) -> FileEntry {
    FileEntry::new(name.to_string(), format!("/root/{}", name), is_dir, depth)
}

fn names(entries: &[FileEntry]) -> Vec<String> {
    entries.iter().map(|e| e.name.clone()).collect()
}

fn tree() -> Vec<FileEntry> {
    let mut entries = vec![
        entry("a", true, 0),
        entry("a1", true, 1),
        entry("a1x", false, 2),
        entry("a2", false, 1),
        entry("b", true, 0),
        entry("c", false, 0),
    ];
    entries[0].is_expanded = true;
    entries[1].is_expanded = true;
    entries
}

#[test]
fn hex_colors_parse() {
    assert_eq!(parse_hex_color("#2E1A16"), Rgb { r: 0x2e, g: 0x1a, b: 0x16 });
    assert_eq!(parse_hex_color("ffffff"), Rgb { r: 255, g: 255, b: 255 });
    assert_eq!(parse_hex_color("##00ff7F and more"), Rgb { r: 0, g: 255, b: 127 });
    assert_eq!(parse_hex_color("#12"), gray());
    assert_eq!(parse_hex_color(""), Rgb { r: 160, g: 160, b: 160 });
    assert_eq!(parse_hex_color("#zz10+f"), Rgb { r: 0, g: 16, b: 15 });
    assert_eq!(parse_hex_color("#-11234"), Rgb { r: 0, g: 0x12, b: 0x34 });
    assert_eq!(parse_hex_pair(b'a', b'F'), Some(0xaf));
    assert_eq!(parse_hex_pair(b'+', b'+'), None);
    assert_eq!(parse_hex_pair(b'1', b'g'), None);
}

#[test]
fn strict_hex_colors_parse_or_fail() {
    assert_eq!(parse_hex_strict("#E07A5F"), Some(Rgb { r: 0xe0, g: 0x7a, b: 0x5f }));
    assert_eq!(parse_hex_strict("e07a5f"), Some(Rgb { r: 0xe0, g: 0x7a, b: 0x5f }));
    assert_eq!(parse_hex_strict("#E07A5"), None);
    assert_eq!(parse_hex_strict("#E07A5F0"), None);
    assert_eq!(parse_hex_strict("##E07A5F"), None);
    assert_eq!(parse_hex_strict("#E07A5G"), None);
    assert_eq!(parse_hex_strict(""), None);
}

#[test]
fn colors_format_as_upper_case_hex() {
    assert_eq!(color_to_hex(Rgb { r: 0xe0, g: 0x7a, b: 0x5f }), "#E07A5F");
    assert_eq!(color_to_hex(Rgb { r: 0, g: 9, b: 255 }), "#0009FF");
    for v in [0u8, 1, 15, 16, 127, 200, 255] {
        let c = Rgb { r: v, g: 255 - v, b: v / 2 };
        assert_eq!(parse_hex_strict(&color_to_hex(c)), Some(c));
    }
}

#[test]
fn default_theme_and_runtime_theme() {
    let config = ThemeConfig::default();
    assert_eq!(config.background, "#2E1A16");
    assert_eq!(config.surface_light, "#462E26");
    assert_eq!(config.bright_white, "#FFFFF0");
    assert_eq!(config.yellow, "#F2CC8F");
    let theme = RuntimeTheme::from_config(&config);
    assert_eq!(theme.background, Rgb { r: 0x2e, g: 0x1a, b: 0x16 });
    assert_eq!(theme.primary, Rgb { r: 0xe0, g: 0x7a, b: 0x5f });
    assert_eq!(theme.bright_cyan, Rgb { r: 0x8a, g: 0xba, b: 0xba });
    let mut odd = config.clone();
    odd.text = "nonsense".to_string();
    odd.border = "#1".to_string();
    let theme = RuntimeTheme::from_config(&odd);
    assert_eq!(theme.text, Rgb { r: 0, g: 0, b: 0 });
    assert_eq!(theme.border, gray());
}

#[test]
fn context_config_defaults() {
    let config = ContextConfig::default();
    assert_eq!(config.watcher_debounce_ms, 200);
    assert_eq!(config.git_refresh_interval_secs, 5);
    assert_eq!(config.max_pinned_files, 50);
    assert!(config.enable_file_watcher);
    assert!(config.enable_git_status);
}

#[test]
fn menu_ids_map_to_actions() {
    assert_eq!(MenuAction::from_menu_id("new_tab"), Some(MenuAction::NewTab));
    assert_eq!(MenuAction::from_menu_id("new_window"), Some(MenuAction::NewWindow));
    assert_eq!(MenuAction::from_menu_id("close_tab"), Some(MenuAction::CloseTab));
    assert_eq!(MenuAction::from_menu_id("toggle_sidebar"), Some(MenuAction::ToggleSidebar));
    assert_eq!(MenuAction::from_menu_id("split_horizontal"), Some(MenuAction::SplitHorizontal));
    assert_eq!(MenuAction::from_menu_id("split_vertical"), Some(MenuAction::SplitVertical));
    assert_eq!(MenuAction::from_menu_id("preferences"), Some(MenuAction::Preferences));
    assert_eq!(MenuAction::from_menu_id("about"), Some(MenuAction::About));
    assert_eq!(MenuAction::from_menu_id("quit"), None);
    assert_eq!(MenuAction::from_menu_id("new_tab "), None);
    assert_eq!(MenuAction::from_menu_id(""), None);
}

#[test]
fn text_helpers() {
    assert!(str_eq("abc", "abc"));
    assert!(!str_eq("abc", "abd"));
    assert!(!str_eq("abc", "ab"));
    assert!(bytes_eq(b"", b""));
    assert!(str_contains("/project/node_modules/foo.js", "node_modules"));
    assert!(!str_contains("/project/src/main.rs", "node_modules"));
    assert!(str_contains("abc", ""));
    assert!(str_contains("", ""));
    assert!(!str_contains("", "a"));
    assert!(str_contains("aab", "ab"));
    assert!(bytes_contain(b"xyz", b"z"));
    assert!(!bytes_contain(b"xy", b"xyz"));
}

#[test]
fn preferences_tabs() {
    assert_eq!(
        PreferencesTab::all(),
        vec![
            PreferencesTab::General,
            PreferencesTab::Appearance,
            PreferencesTab::Terminal,
            PreferencesTab::FileTree,
            PreferencesTab::Advanced
        ]
    );
    assert_eq!(PreferencesTab::General.label(), "General");
    assert_eq!(PreferencesTab::Appearance.label(), "Appearance");
    assert_eq!(PreferencesTab::Terminal.label(), "Terminal");
    assert_eq!(PreferencesTab::FileTree.label(), "File Tree");
    assert_eq!(PreferencesTab::Advanced.label(), "Advanced");
}

#[test]
fn new_entries_and_responses_start_blank() {
    let e = FileEntry::new("x".to_string(), "/p/x".to_string(), true, 3);
    assert_eq!(e.name, "x");
    assert_eq!(e.path, "/p/x");
    assert!(e.is_dir && !e.is_expanded && !e.is_last && !e.is_pinned);
    assert_eq!(e.depth, 3);
    assert!(e.git_status.is_none());
    let r = SidebarResponse::default();
    assert!(r.selected.is_none() && r.opened_file.is_none() && r.toggled_dir.is_none());
    assert!(r.pane_clicked.is_none() && r.toggle_pin.is_none());
    assert!(!r.collapse_all && !r.expand_all);
    let t = TabInfo::new("shell".to_string());
    assert_eq!(t.name, "shell");
    assert!(!t.is_modified);
}

#[test]
fn tree_prefixes() {
    let mut e = entry("x", false, 0);
    assert_eq!(build_tree_prefix(&e), "");
    e.depth = 1;
    assert_eq!(build_tree_prefix(&e), "├──");
    e.is_last = true;
    assert_eq!(build_tree_prefix(&e), "└──");
    e.depth = 3;
    assert_eq!(build_tree_prefix(&e), "│  │  └──");
    e.is_last = false;
    assert_eq!(build_tree_prefix(&e), "│  │  ├──");
}

#[test]
fn collapsing_a_directory_removes_what_lies_below_it() {
    let mut entries = tree();
    assert_eq!(toggle_directory(&mut entries, 0), ToggleOutcome::Collapsed);
    assert_eq!(names(&entries), vec!["a", "b", "c"]);
    assert!(!entries[0].is_expanded);
    let mut entries = tree();
    assert_eq!(toggle_directory(&mut entries, 1), ToggleOutcome::Collapsed);
    assert_eq!(names(&entries), vec!["a", "a1", "a2", "b", "c"]);
    assert!(entries[0].is_expanded && !entries[1].is_expanded);
}

#[test]
fn expanding_a_directory_and_inserting_children() {
    let mut entries = tree();
    assert_eq!(toggle_directory(&mut entries, 4), ToggleOutcome::Expanded);
    assert!(entries[4].is_expanded);
    assert_eq!(entries.len(), 6);
    insert_children(&mut entries, 4, vec![entry("b1", false, 1), entry("b2", false, 1)]);
    assert_eq!(names(&entries), vec!["a", "a1", "a1x", "a2", "b", "b1", "b2", "c"]);
    insert_children(&mut entries, 7, vec![]);
    assert_eq!(entries.len(), 8);
}

#[test]
fn toggle_ignores_files_and_missing_entries() {
    let mut entries = tree();
    assert_eq!(toggle_directory(&mut entries, 5), ToggleOutcome::Ignored);
    assert_eq!(toggle_directory(&mut entries, 6), ToggleOutcome::Ignored);
    assert_eq!(names(&entries), names(&tree()));
}

#[test]
fn collapse_all_keeps_the_top_level() {
    let mut entries = tree();
    collapse_all_directories(&mut entries);
    assert_eq!(names(&entries), vec!["a", "b", "c"]);
    assert!(entries.iter().all(|e| !e.is_expanded));
    let mut none: Vec<FileEntry> = Vec::new();
    collapse_all_directories(&mut none);
    assert!(none.is_empty());
}

#[test]
fn expand_all_marks_directories() {
    let mut entries = tree();
    mark_all_expanded(&mut entries);
    let flags: Vec<bool> = entries.iter().map(|e| e.is_expanded).collect();
    assert_eq!(flags, vec![true, true, false, false, true, false]);
}

#[test]
fn tab_drop_places() {
    let rect = |x0: i32, x1: i32| Rect { min: Pos { x: x0, y: 0 }, max: Pos { x: x1, y: 20 } };
    let tabs = vec![(0usize, rect(0, 100)), (1usize, rect(100, 201)), (2usize, rect(201, 300))];
    assert_eq!(find_tab_drop_zone(Pos { x: 10, y: 5 }, &tabs), Some(0));
    assert_eq!(find_tab_drop_zone(Pos { x: 50, y: 5 }, &tabs), Some(1));
    assert_eq!(find_tab_drop_zone(Pos { x: 149, y: 5 }, &tabs), Some(1));
    assert_eq!(find_tab_drop_zone(Pos { x: 150, y: 5 }, &tabs), Some(2));
    assert_eq!(find_tab_drop_zone(Pos { x: 299, y: 5 }, &tabs), Some(3));
    assert_eq!(find_tab_drop_zone(Pos { x: 300, y: 5 }, &tabs), None);
    assert_eq!(find_tab_drop_zone(Pos { x: 10, y: 25 }, &tabs), None);
    let left = vec![(0usize, rect(-101, -1))];
    assert_eq!(find_tab_drop_zone(Pos { x: -52, y: 5 }, &left), Some(0));
    assert_eq!(find_tab_drop_zone(Pos { x: -51, y: 5 }, &left), Some(1));
}

#[test]
fn active_tab_follows_moves_and_closes() {
    assert_eq!(active_tab_after_move(1, 1, 3, 4), 3);
    assert_eq!(active_tab_after_move(2, 0, 3, 4), 1);
    assert_eq!(active_tab_after_move(2, 0, 2, 4), 1);
    assert_eq!(active_tab_after_move(1, 3, 0, 4), 2);
    assert_eq!(active_tab_after_move(1, 3, 1, 4), 2);
    assert_eq!(active_tab_after_move(1, 2, 3, 4), 1);
    assert_eq!(active_tab_after_move(1, 2, 2, 4), 1);
    assert_eq!(active_tab_after_move(1, 2, 9, 4), 1);
    assert_eq!(active_tab_after_close(3, 3), 2);
    assert_eq!(active_tab_after_close(1, 3), 1);
}
