use vibeterm::context::events::ContextEvent;
use vibeterm::context::git::{
    branch_name, count_statuses, FileGitStatus, GitStatusCache, HeadInfo, StatusFlags,
    StatusReport,
};
use vibeterm::context::manager::{
    affected_dir_of, refresh_interval_ms, report_watcher_event, ContextManager,
};
use vibeterm::context::ContextConfig;
use vibeterm::project::{detect_project_root, project_markers, DirProbe};
use vibeterm::pty_tracker::{parse_stat_parent_pid, poll_interval_for, PtyTracker};
use vibeterm::watcher::{
    convert_event, deduplicate, should_ignore, EventBuffer, RawEvent, RawEventKind,
    WatcherConfig, WatcherEvent,
};

fn s(text: &str) -> String {
    text.to_string()
}

fn flags() -> StatusFlags {
    StatusFlags {
        index_new: false,
        index_modified: false,
        index_deleted: false,
        index_renamed: false,
        wt_new: false,
        wt_modified: false,
        wt_deleted: false,
        conflicted: false,
        ignored: false,
    }
}

fn report() -> StatusReport {
    StatusReport {
        entries: vec![
            (s("a.rs"), StatusFlags { wt_modified: true, ..flags() }),
            (s("b.rs"), StatusFlags { index_new: true, ..flags() }),
            (s("c.rs"), StatusFlags { wt_new: true, ..flags() }),
            (s("d.rs"), StatusFlags { index_new: true, wt_modified: true, ..flags() }),
            (s("a.rs"), StatusFlags { wt_deleted: true, ..flags() }),
            (s("e.rs"), StatusFlags { wt_new: true, ..flags() }),
        ],
        head: Some(HeadInfo { is_branch: true, shorthand: Some(s("main")), target_short: None }),
        ahead: 2,
        behind: 1,
    }
}

fn kinds(events: &[WatcherEvent]) -> Vec<String> {
    events
        .iter()
        .map(|e| match e {
            WatcherEvent::Created(p) => format!("created {}", p),
            WatcherEvent::Modified(p) => format!("modified {}", p),
            WatcherEvent::Deleted(p) => format!("deleted {}", p),
            WatcherEvent::Renamed(a, b) => format!("renamed {} {}", a, b),
            WatcherEvent::Changed(p) => format!("changed {}", p),
            WatcherEvent::Error(e) => format!("error {}", e),
        })
        .collect()
}

fn shown(events: &[ContextEvent]) -> Vec<String> {
    events
        .iter()
        .map(|e| match e {
            ContextEvent::FileSystemChanged { path, affected_dir } => {
                format!("fs {} in {}", path, affected_dir)
            }
            ContextEvent::GitStatusUpdated => s("git"),
            ContextEvent::FilePinned(p) => format!("pinned {}", p),
            ContextEvent::FileUnpinned(p) => format!("unpinned {}", p),
            ContextEvent::Error(e) => format!("error {}", e),
        })
        .collect()
}

#[test]
fn tracker_polls_when_the_interval_has_passed() {
    assert!(PtyTracker::new(7, None, 0).is_none());
    let mut tracker = PtyTracker::new(7, Some(s("/home")), 1000).unwrap();
    assert_eq!(tracker.pid(), 7);
    assert_eq!(tracker.current_dir(), "/home");
    assert!(!tracker.is_due(1499));
    assert!(tracker.is_due(1500));
    assert!(!tracker.is_due(900));
    assert!(!tracker.poll(1200, Some(s("/tmp"))));
    assert_eq!(tracker.current_dir(), "/home");
    assert!(tracker.poll(1500, Some(s("/tmp"))));
    assert_eq!(tracker.current_dir(), "/tmp");
    assert!(!tracker.is_due(1999));
    assert!(!tracker.poll(2000, Some(s("/tmp"))));
    assert!(!tracker.is_due(2400));
    assert!(!tracker.poll(2500, None));
    assert_eq!(tracker.current_dir(), "/tmp");
    tracker.set_interval(1);
    assert!(tracker.is_due(2501));
    tracker.set_interval(2000);
    assert!(!tracker.is_due(4499));
    assert!(tracker.is_due(4500));
}

#[test]
fn poll_intervals_by_focus() {
    assert_eq!(poll_interval_for(true, true), 500);
    assert_eq!(poll_interval_for(true, false), 2000);
    assert_eq!(poll_interval_for(false, true), 2000);
    assert_eq!(poll_interval_for(false, false), 2000);
}

#[test]
fn stat_lines_give_the_parent_pid() {
    assert_eq!(parse_stat_parent_pid(b"1234 (bash) S 987 1234 1234 0 -1"), Some(987));
    assert_eq!(parse_stat_parent_pid(b"1 (a (b) c) R 42"), Some(42));
    assert_eq!(parse_stat_parent_pid(b"1 (x)  S\t+7 1"), Some(7));
    assert_eq!(parse_stat_parent_pid(b"1 (x) S 4294967295 1"), Some(4294967295));
    assert_eq!(parse_stat_parent_pid(b"1 (x) S 4294967296 1"), None);
    assert_eq!(parse_stat_parent_pid(b"1 (x) S 0042"), Some(42));
    assert_eq!(parse_stat_parent_pid(b"1 (x) S -4 1"), None);
    assert_eq!(parse_stat_parent_pid(b"1 (x) S 4x 1"), None);
    assert_eq!(parse_stat_parent_pid(b"1 (x) S"), None);
    assert_eq!(parse_stat_parent_pid(b"1 (x) S "), None);
    assert_eq!(parse_stat_parent_pid(b"1 (x)"), None);
    assert_eq!(parse_stat_parent_pid(b"1 (x) "), None);
    assert_eq!(parse_stat_parent_pid(b"no paren 1 2"), None);
    assert_eq!(parse_stat_parent_pid(b""), None);
    assert_eq!(parse_stat_parent_pid(b"1 (x)S 5 6"), Some(6));
}

#[test]
fn project_root_is_the_nearest_marked_ancestor() {
    assert_eq!(
        project_markers(),
        vec![".git", "Cargo.toml", "package.json", "pyproject.toml", "go.mod", ".svn"]
    );
    let probes = vec![
        DirProbe { dir: s("/a/b/c"), has_marker: false },
        DirProbe { dir: s("/a/b"), has_marker: true },
        DirProbe { dir: s("/a"), has_marker: true },
        DirProbe { dir: s("/"), has_marker: false },
    ];
    assert_eq!(detect_project_root(&probes), Some(s("/a/b")));
    assert_eq!(detect_project_root(&probes[..1].to_vec()), None);
    assert_eq!(detect_project_root(&Vec::new()), None);
}

#[test]
fn test_ignore_patterns() {
    let patterns = vec![s("node_modules")];
    assert!(should_ignore(&patterns, "/project/node_modules/foo.js"));
    assert!(!should_ignore(&patterns, "/project/src/main.rs"));
    let config = WatcherConfig::default();
    assert_eq!(config.debounce_ms, 200);
    assert_eq!(config.max_buffer_size, 100);
    assert_eq!(config.ignore_patterns, vec![s("node_modules"), s("target"), s(".git")]);
    assert!(should_ignore(&config.ignore_patterns, "/p/.git/HEAD"));
    assert!(should_ignore(&config.ignore_patterns, "/p/target/debug/x"));
    assert!(!should_ignore(&Vec::new(), "/p/target/debug/x"));
}

#[test]
fn raw_events_convert_by_kind() {
    let patterns = vec![s("target")];
    let raw = |kind, paths: &[&str]| RawEvent { kind, paths: paths.iter().map(|p| s(p)).collect() };
    let one = |kind| kinds(&[convert_event(&patterns, &raw(kind, &["/p/a", "/p/b"])).unwrap()]);
    assert_eq!(one(RawEventKind::CreateFile), vec!["created /p/a"]);
    assert_eq!(one(RawEventKind::CreateFolder), vec!["created /p/a"]);
    assert_eq!(one(RawEventKind::ModifyData), vec!["modified /p/a"]);
    assert_eq!(one(RawEventKind::ModifyMetadata), vec!["modified /p/a"]);
    assert_eq!(one(RawEventKind::RemoveFile), vec!["deleted /p/a"]);
    assert_eq!(one(RawEventKind::RemoveFolder), vec!["deleted /p/a"]);
    assert_eq!(one(RawEventKind::RenameBoth), vec!["renamed /p/a /p/b"]);
    assert_eq!(one(RawEventKind::Other), vec!["changed /p/a"]);
    let lone = convert_event(&patterns, &raw(RawEventKind::RenameBoth, &["/p/a"])).unwrap();
    assert_eq!(kinds(&[lone]), vec!["changed /p/a"]);
    assert!(convert_event(&patterns, &raw(RawEventKind::CreateFile, &[])).is_none());
    assert!(convert_event(&patterns, &raw(RawEventKind::CreateFile, &["/p/target/x"])).is_none());
}

#[test]
fn of_each_path_the_last_event_stays() {
    let events = vec![
        WatcherEvent::Created(s("a")),
        WatcherEvent::Error(s("e1")),
        WatcherEvent::Modified(s("b")),
        WatcherEvent::Modified(s("a")),
        WatcherEvent::Renamed(s("b"), s("c")),
        WatcherEvent::Error(s("e1")),
        WatcherEvent::Deleted(s("b")),
        WatcherEvent::Changed(s("c")),
    ];
    assert_eq!(
        kinds(&deduplicate(events)),
        vec!["error e1", "modified a", "error e1", "deleted b", "changed c"]
    );
    assert!(deduplicate(Vec::new()).is_empty());
    assert_eq!(WatcherEvent::Renamed(s("x"), s("y")).path(), Some(&s("y")));
    assert_eq!(WatcherEvent::Error(s("x")).path(), None);
}

#[test]
fn buffer_flushes_after_debounce_or_when_full() {
    let config = WatcherConfig { debounce_ms: 200, ignore_patterns: vec![], max_buffer_size: 3 };
    let mut buffer = EventBuffer::new(1000);
    assert!(buffer.poll(5000, &config).is_empty());
    buffer.push(WatcherEvent::Created(s("a")));
    buffer.push(WatcherEvent::Modified(s("a")));
    assert!(buffer.poll(1199, &config).is_empty());
    assert_eq!(buffer.len(), 2);
    assert_eq!(kinds(&buffer.poll(1200, &config)), vec!["modified a"]);
    assert_eq!(buffer.len(), 0);
    buffer.push(WatcherEvent::Created(s("x")));
    buffer.push(WatcherEvent::Created(s("y")));
    assert!(buffer.poll(1300, &config).is_empty());
    buffer.push(WatcherEvent::Created(s("z")));
    assert_eq!(kinds(&buffer.poll(1300, &config)), vec!["created x", "created y", "created z"]);
    buffer.push(WatcherEvent::Created(s("w")));
    assert!(buffer.poll(1400, &config).is_empty());
    assert_eq!(buffer.poll(1500, &config).len(), 1);
}

#[test]
fn branch_names_and_counts() {
    let head = |is_branch, a: Option<&str>, b: Option<&str>| {
        Some(HeadInfo { is_branch, shorthand: a.map(s), target_short: b.map(s) })
    };
    assert_eq!(branch_name(head(true, Some("main"), Some("abc1234"))), "main");
    assert_eq!(branch_name(head(true, None, Some("abc1234"))), "HEAD");
    assert_eq!(branch_name(head(false, Some("main"), Some("abc1234"))), "abc1234");
    assert_eq!(branch_name(head(false, Some("main"), None)), "HEAD");
    assert_eq!(branch_name(None), "HEAD");
    let counts = count_statuses(&vec![
        FileGitStatus::Modified,
        FileGitStatus::StagedModified,
        FileGitStatus::Staged,
        FileGitStatus::Untracked,
        FileGitStatus::Untracked,
        FileGitStatus::Untracked,
        FileGitStatus::Clean,
        FileGitStatus::Deleted,
    ]);
    assert_eq!((counts.modified, counts.staged, counts.untracked), (2, 1, 3));
}

#[test]
fn git_cache_refreshes_and_answers() {
    let mut cache = GitStatusCache::new(5000, 100);
    assert!(!cache.is_in_repo());
    assert!(cache.repo_status().is_none());
    assert!(cache.needs_refresh(100));
    cache.refresh(200, Some(report()));
    assert!(cache.repo_status().is_none());
    assert!(cache.needs_refresh(200));
    assert!(cache.set_root(Some(s("/repo"))));
    assert!(!cache.set_root(Some(s("/repo"))));
    assert!(cache.is_in_repo());
    assert_eq!(cache.repo_root(), Some(&s("/repo")));
    cache.refresh(1000, Some(report()));
    assert!(!cache.needs_refresh(5999));
    assert!(cache.needs_refresh(6000));
    assert_eq!(cache.get_file_status(&s("a.rs")), FileGitStatus::Deleted);
    assert_eq!(cache.get_file_status(&s("b.rs")), FileGitStatus::Staged);
    assert_eq!(cache.get_file_status(&s("d.rs")), FileGitStatus::StagedModified);
    assert_eq!(cache.get_file_status(&s("zzz")), FileGitStatus::Clean);
    assert_eq!(cache.get_status_for_absolute(&s("/repo/a.rs")), FileGitStatus::Deleted);
    assert_eq!(cache.get_status_for_absolute(&s("/repo/d.rs")), FileGitStatus::StagedModified);
    assert_eq!(cache.get_status_for_absolute(&s("/repo/zzz")), FileGitStatus::Clean);
    assert_eq!(cache.get_status_for_absolute(&s("/repository/a.rs")), FileGitStatus::Clean);
    assert_eq!(cache.get_status_for_absolute(&s("a.rs")), FileGitStatus::Clean);
    assert_eq!(cache.status_of_relative(Some(s("b.rs"))), FileGitStatus::Staged);
    assert_eq!(cache.status_of_relative(Some(s("/repo/b.rs"))), FileGitStatus::Clean);
    assert_eq!(cache.status_of_relative(None), FileGitStatus::Clean);
    let status = cache.repo_status().unwrap();
    assert_eq!(status.root, "/repo");
    assert_eq!(status.branch, "main");
    assert_eq!(status.modified_count, 2);
    assert_eq!(status.staged_count, 1);
    assert_eq!(status.untracked_count, 2);
    assert!(status.is_dirty);
    assert_eq!((status.ahead, status.behind), (2, 1));
    cache.mark_dirty();
    assert!(cache.needs_refresh(1001));
    cache.refresh(1002, None);
    assert!(!cache.needs_refresh(1003));
    assert_eq!(cache.get_file_status(&s("b.rs")), FileGitStatus::Clean);
    assert_eq!(cache.repo_status().unwrap().branch, "main");
    assert!(cache.set_root(Some(s("/other"))));
    assert!(cache.needs_refresh(1003));
    assert!(!cache.set_root(None));
    assert!(!cache.is_in_repo());
    assert!(cache.repo_root().is_none());
    assert!(cache.repo_status().is_none());
    let early = GitStatusCache::new(5000, 100);
    assert!(early.needs_refresh(0));
    assert_eq!(early.get_status_for_absolute(&s("/repo/a.rs")), FileGitStatus::Clean);
}

#[test]
fn watcher_events_are_reported_with_their_directory() {
    let out = vec![
        report_watcher_event(WatcherEvent::Created(s("/p/src/a.rs"))),
        report_watcher_event(WatcherEvent::Renamed(s("/p/a"), s("/q/b"))),
        report_watcher_event(WatcherEvent::Deleted(s("/"))),
        report_watcher_event(WatcherEvent::Error(s("boom"))),
    ];
    assert_eq!(
        shown(&out),
        vec!["fs /p/src/a.rs in /p/src", "fs /q/b in /q", "fs / in /", "error boom"]
    );
    assert_eq!(affected_dir_of(s("x"), None), "x");
    assert_eq!(affected_dir_of(s("x"), Some(s("y"))), "y");
    assert_eq!(refresh_interval_ms(5), 5000);
    assert_eq!(refresh_interval_ms(u64::MAX), u64::MAX);
}

#[test]
fn manager_queues_pin_events_and_hands_them_on() {
    let mut manager = ContextManager::new(ContextConfig::default(), 0);
    assert!(manager.active_directory().is_none());
    assert!(!manager.is_git_available());
    manager.pin_file(s("./a"), s("/p/a"), 1);
    manager.pin_file(s("a"), s("/p/a"), 2);
    manager.toggle_pin(s("b"), s("/p/b"), 3);
    manager.toggle_pin(s("./b"), s("/p/b"), 4);
    manager.unpin_file(s("zzz"), &s("/p/zzz"));
    manager.unpin_file(s("a"), &s("/p/a"));
    assert!(!manager.is_pinned(&s("/p/a")));
    assert!(manager.pinned_files().is_empty());
    let out = manager.absorb_watcher_events(vec![WatcherEvent::Modified(s("/p/x"))]);
    let mut out = out;
    manager.finish_poll(&mut out, true);
    assert_eq!(
        shown(&out),
        vec!["fs /p/x in /p", "git", "pinned ./a", "pinned b", "unpinned ./b", "unpinned a"]
    );
    let mut again = Vec::new();
    manager.finish_poll(&mut again, false);
    assert!(again.is_empty());
}

#[test]
fn manager_tracks_git_through_its_cache() {
    let mut manager = ContextManager::new(ContextConfig::default(), 10_000);
    assert!(manager.git_refresh_due(10_000));
    assert!(manager.set_active_directory(s("/repo/src"), Some(s("/repo"))));
    assert_eq!(manager.active_directory(), Some(&s("/repo/src")));
    assert_eq!(manager.repo_root(), Some(&s("/repo")));
    assert!(manager.is_git_available());
    manager.refresh_git_status(11_000, Some(report()));
    assert!(!manager.git_refresh_due(11_001));
    assert!(manager.git_refresh_due(16_000));
    assert_eq!(manager.get_git_status(&s("/repo/c.rs")), FileGitStatus::Untracked);
    assert_eq!(manager.get_git_status(&s("/repo/src/../c.rs")), FileGitStatus::Clean);
    assert_eq!(manager.get_git_status(&s("/elsewhere/c.rs")), FileGitStatus::Clean);
    assert_eq!(manager.get_git_status(&s("c.rs")), FileGitStatus::Clean);
    assert_eq!(manager.repo_status().unwrap().untracked_count, 2);
    let out = manager.absorb_watcher_events(vec![WatcherEvent::Error(s("e"))]);
    assert_eq!(out.len(), 1);
    assert!(!manager.git_refresh_due(11_002));
    manager.absorb_watcher_events(vec![WatcherEvent::Error(s("e")), WatcherEvent::Changed(s("f"))]);
    assert!(manager.git_refresh_due(11_002));
    let off = ContextConfig { enable_git_status: false, ..ContextConfig::default() };
    let mut manager = ContextManager::new(off, 0);
    assert!(!manager.set_active_directory(s("/repo"), Some(s("/repo"))));
    assert!(!manager.is_git_available());
    assert!(!manager.git_refresh_due(99_999));
}
