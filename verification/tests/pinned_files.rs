use vibeterm::context::pinned::{file_name_or_unknown, PinReason, PinnedFile, PinnedFiles};

fn s(text: &str) -> String {
    text.to_string()
}

fn order(pinned: &PinnedFiles) -> Vec<String> {
    pinned.iter().iter().map(|f| f.path.clone()).collect()
}

#[test]
fn test_pin_unpin() {
    let file1 = s("/tmp/x/test1.txt");
    let mut pinned = PinnedFiles::new(10);
    assert!(pinned.pin(file1.clone(), PinReason::Manual, 100));
    assert!(pinned.is_pinned(&file1));
    assert!(pinned.unpin(&file1));
    assert!(!pinned.is_pinned(&file1));
}

#[test]
fn test_lru_eviction() {
    let file1 = s("/tmp/x/f1.txt");
    let file2 = s("/tmp/x/f2.txt");
    let file3 = s("/tmp/x/f3.txt");
    let mut pinned = PinnedFiles::new(2);
    pinned.pin(file1.clone(), PinReason::Manual, 1);
    pinned.pin(file2.clone(), PinReason::Manual, 2);
    pinned.pin(file3.clone(), PinReason::Manual, 3);
    assert_eq!(pinned.len(), 2);
    assert!(!pinned.is_pinned(&file1));
    assert!(pinned.is_pinned(&file3));
}

#[test]
fn pin_reason_texts() {
    assert_eq!(PinReason::Manual.display(), "pinned");
    assert_eq!(PinReason::RecentlyEdited.display(), "edited");
    assert_eq!(PinReason::TerminalMentioned.display(), "mentioned");
    assert_eq!(PinReason::Manual.icon(), "📌");
    assert_eq!(PinReason::RecentlyEdited.icon(), "✏️");
    assert_eq!(PinReason::TerminalMentioned.icon(), "💬");
}

#[test]
fn pinned_file_times_and_name() {
    let mut file = PinnedFile::new(s("/home/u/project/main.rs"), PinReason::RecentlyEdited, 42);
    assert_eq!(file.pinned_at, 42);
    assert_eq!(file.last_accessed(), 42);
    assert_eq!(file.reason, PinReason::RecentlyEdited);
    file.touch(50);
    assert_eq!(file.pinned_at, 42);
    assert_eq!(file.last_accessed(), 50);
    assert_eq!(file.file_name(), "main.rs");
    assert_eq!(PinnedFile::new(s("/"), PinReason::Manual, 0).file_name(), "?");
    assert_eq!(PinnedFile::new(s("a/b/.."), PinReason::Manual, 0).file_name(), "?");
    assert_eq!(PinnedFile::new(s("a/b/"), PinReason::Manual, 0).file_name(), "b");
    assert_eq!(file_name_or_unknown(None), "?");
    assert_eq!(file_name_or_unknown(Some(s("x"))), "x");
}

#[test]
fn capacity_is_at_least_one() {
    let mut pinned = PinnedFiles::new(0);
    assert!(pinned.is_empty());
    assert!(pinned.pin(s("a"), PinReason::Manual, 1));
    assert!(pinned.pin(s("b"), PinReason::Manual, 2));
    assert_eq!(order(&pinned), vec![s("b")]);
    assert_eq!(PinnedFiles::default().len(), 0);
}

#[test]
fn pinning_again_touches_instead() {
    let mut pinned = PinnedFiles::new(3);
    assert!(pinned.pin(s("a"), PinReason::Manual, 1));
    assert!(pinned.pin(s("b"), PinReason::RecentlyEdited, 2));
    assert!(!pinned.pin(s("a"), PinReason::TerminalMentioned, 3));
    assert_eq!(order(&pinned), vec![s("b"), s("a")]);
    let a = pinned.get(&s("a")).unwrap();
    assert_eq!(a.reason, PinReason::Manual);
    assert_eq!(a.pinned_at, 1);
    assert_eq!(a.last_accessed(), 3);
    assert!(pinned.pin(s("c"), PinReason::Manual, 4));
    assert!(pinned.pin(s("d"), PinReason::Manual, 5));
    assert_eq!(order(&pinned), vec![s("a"), s("c"), s("d")]);
}

#[test]
fn touch_toggle_paths_and_clear() {
    let mut pinned = PinnedFiles::new(5);
    assert!(pinned.toggle(s("a"), 1));
    assert!(pinned.toggle(s("b"), 2));
    assert!(pinned.toggle(s("c"), 3));
    pinned.touch(&s("a"), 9);
    pinned.touch(&s("zzz"), 9);
    assert_eq!(pinned.paths(), vec![s("b"), s("c"), s("a")]);
    assert_eq!(pinned.get(&s("a")).unwrap().last_accessed(), 9);
    assert_eq!(pinned.get(&s("a")).unwrap().reason, PinReason::Manual);
    assert!(pinned.get(&s("zzz")).is_none());
    assert!(!pinned.toggle(s("c"), 10));
    assert_eq!(pinned.paths(), vec![s("b"), s("a")]);
    assert!(!pinned.unpin(&s("c")));
    assert_eq!(pinned.len(), 2);
    assert!(!pinned.is_empty());
    pinned.clear();
    assert!(pinned.is_empty());
    assert!(pinned.pin(s("a"), PinReason::Manual, 11));
}
