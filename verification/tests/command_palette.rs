use vibeterm::ui::command_palette::{
    combine_scores, commands, filter_commands, match_score, rank_matches, score_command,
    CommandMatch, CommandPalette,
};

#[test]
fn command_table_holds_the_nine_commands() {
    let all = commands();
    let ids: Vec<&str> = all.iter().map(|c| c.id).collect();
    assert_eq!(
        ids,
        vec![
            "new_tab",
            "close_tab",
            "split_horizontal",
            "split_vertical",
            "close_pane",
            "toggle_sidebar",
            "settings",
            "next_tab",
            "prev_tab"
        ]
    );
    assert_eq!(all[2].label, "Split Horizontally");
    assert_eq!(all[3].shortcut, Some("Cmd+Shift+D"));
    assert_eq!(all[6].shortcut, None);
    assert_eq!(all[6].keywords, vec!["settings", "config", "preferences"]);
    assert_eq!(all[0].keywords, vec!["new", "tab", "create", "workspace"]);
}

#[test]
fn match_score_is_that_of_the_matcher() {
    assert_eq!(match_score("abcdefaghi", ""), Some(0));
    assert_eq!(match_score("", "a"), None);
    assert_eq!(match_score("abc", "abx"), None);
    assert!(match_score("axbycz", "abc").is_some());
    let close = match_score("Split Horizontally", "split").unwrap();
    let far = match_score("Split Horizontally", "sly").unwrap();
    assert!(close > far);
}

#[test]
fn label_score_outranks_keyword_scores() {
    assert_eq!(combine_scores(Some(5), &vec![Some(90), None]), Some(5));
    assert_eq!(combine_scores(None, &vec![Some(3), None, Some(9), Some(4)]), Some(9));
    assert_eq!(combine_scores(None, &vec![None, None]), None);
    assert_eq!(combine_scores(None, &vec![]), None);
    assert_eq!(combine_scores(None, &vec![Some(-4)]), Some(-4));
}

#[test]
fn commands_match_by_label_or_keyword() {
    let all = commands();
    assert_eq!(score_command(&all[6], "settings"), match_score("Open Settings", "settings"));
    assert_eq!(score_command(&all[6], "config"), match_score("config", "config"));
    assert_eq!(score_command(&all[6], "zzz"), None);
}

#[test]
fn rank_matches_orders_by_score_then_by_command() {
    let input = vec![
        CommandMatch { command: 0, score: 5 },
        CommandMatch { command: 1, score: 9 },
        CommandMatch { command: 2, score: 5 },
        CommandMatch { command: 3, score: -1 },
        CommandMatch { command: 4, score: 9 },
    ];
    let sorted = rank_matches(&input);
    let order: Vec<usize> = sorted.iter().map(|m| m.command).collect();
    assert_eq!(order, vec![1, 4, 0, 2, 3]);
    assert!(rank_matches(&vec![]).is_empty());
}

#[test]
fn empty_query_lists_every_command() {
    let all = commands();
    let matches = filter_commands(&all, "");
    assert_eq!(matches.len(), 9);
    for (i, m) in matches.iter().enumerate() {
        assert_eq!(m.command, i);
        assert_eq!(m.score, 0);
    }
}

#[test]
fn query_filters_and_ranks() {
    let all = commands();
    let matches = filter_commands(&all, "split");
    let found: Vec<&str> = matches.iter().map(|m| all[m.command].id).collect();
    assert_eq!(found, vec!["split_horizontal", "split_vertical"]);
    for pair in matches.windows(2) {
        assert!(pair[0].score >= pair[1].score);
    }
    assert!(filter_commands(&all, "qqqq").is_empty());
    let tabs = filter_commands(&all, "tab");
    assert_eq!(tabs.len(), 4);
}

#[test]
fn palette_session() {
    let mut palette = CommandPalette::new();
    assert!(!palette.is_visible());
    palette.toggle();
    assert!(palette.is_visible());
    assert_eq!(palette.matches().len(), 9);
    assert_eq!(palette.selected(), 0);
    palette.select_prev();
    assert_eq!(palette.selected(), 0);
    palette.select_next();
    palette.select_next();
    assert_eq!(palette.selected(), 2);
    palette.set_query("split".to_string());
    assert_eq!(palette.selected(), 0);
    assert_eq!(palette.matches().len(), 2);
    palette.select_next();
    palette.select_next();
    assert_eq!(palette.selected(), 1);
    let second = palette.matches()[1];
    assert_eq!(palette.command(&second).unwrap().id, "split_vertical");
    assert!(palette.command(&CommandMatch { command: 9, score: 0 }).is_none());
    assert_eq!(palette.execute(5), None);
    assert!(palette.is_visible());
    assert_eq!(palette.execute(1), Some("split_vertical"));
    assert!(!palette.is_visible());
    palette.toggle();
    assert_eq!(palette.matches().len(), 9);
    palette.close();
    assert!(!palette.is_visible());
    palette.set_query("nothing matches this".to_string());
    palette.select_next();
    assert_eq!(palette.selected(), 0);
    assert_eq!(palette.execute(0), None);
}
