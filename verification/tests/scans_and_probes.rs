use vibeterm::context::git::GitStatusCache;
use vibeterm::project::{detect_project_root, DirProbe};
use vibeterm::pty_tracker::PtyTracker;
use vibeterm::scanner::{DirItem, DirScan};
use vibeterm::ui::sidebar::FileEntry;

fn item(name: &str, dir: &str, is_dir: bool) -> DirItem {
    DirItem { name: name.to_string(), path: format!("{}/{}", dir, name), is_dir }
}

/// The listings of a small tree:
/// root/{file1.txt, dir1/{file2.txt, subdir/file3.txt}, dir2/file4.txt,
/// .hidden_dir/hidden_file.txt}, each in the order of its paths.
fn test_tree(dir: &str) -> Option<Vec<DirItem>> {
    match dir {
        "/root" => Some(vec![
            item(".hidden_dir", "/root", true),
            item("dir1", "/root", true),
            item("dir2", "/root", true),
            item("file1.txt", "/root", false),
        ]),
        "/root/.hidden_dir" => Some(vec![item("hidden_file.txt", "/root/.hidden_dir", false)]),
        "/root/dir1" => {
            Some(vec![item("file2.txt", "/root/dir1", false), item("subdir", "/root/dir1", true)])
        }
        "/root/dir1/subdir" => Some(vec![item("file3.txt", "/root/dir1/subdir", false)]),
        "/root/dir2" => Some(vec![item("file4.txt", "/root/dir2", false)]),
        "/empty" => Some(Vec::new()),
        _ => None,
    }
}

fn scan_directory(root: &str, max_depth: usize, max_files: usize) -> Vec<FileEntry> {
    let mut scan = DirScan::new(root.to_string(), max_depth, max_files);
    while let Some(dir) = scan.next_request().cloned() {
        scan.feed(test_tree(&dir));
    }
    scan.finish()
}

#[test]
fn test_scan_empty_directory() {
    let entries = scan_directory("/empty", 10, 1000);
    assert!(entries.is_empty());
}

#[test]
fn test_max_depth_limit() {
    let entries = scan_directory("/root", 1, 1000);
    let depths: Vec<usize> = entries.iter().map(|e| e.depth).collect();
    assert!(depths.iter().all(|&d| d == 0), "All entries should be at depth 0");
    let entries = scan_directory("/root", 2, 1000);
    let max_depth = entries.iter().map(|e| e.depth).max().unwrap_or(0);
    assert!(max_depth <= 1, "Max depth should be 1 with max_depth=2");
}

#[test]
fn test_max_files_limit() {
    let entries = scan_directory("/root", 10, 2);
    assert!(entries.len() <= 2, "Should have at most 2 entries");
    let entries = scan_directory("/root", 10, 100);
    assert!(entries.len() >= 4, "Should have at least 4 visible entries");
}

#[test]
fn test_hidden_files_excluded() {
    let entries = scan_directory("/root", 10, 1000);
    let has_hidden = entries.iter().any(|e| e.name.starts_with('.'));
    assert!(!has_hidden, "Hidden files/dirs should be excluded");
}

#[test]
fn test_directory_structure() {
    let entries = scan_directory("/root", 10, 1000);
    let dir_names: Vec<&str> =
        entries.iter().filter(|e| e.is_dir).map(|e| e.name.as_str()).collect();
    assert!(dir_names.contains(&"dir1"), "dir1 should be marked as directory");
    assert!(dir_names.contains(&"dir2"), "dir2 should be marked as directory");
}

#[test]
fn test_nonexistent_directory() {
    let entries = scan_directory("/nonexistent/path/that/does/not/exist", 10, 1000);
    assert!(entries.is_empty(), "Nonexistent path should return empty");
}

#[test]
fn test_detect_git_root() {
    let probes = vec![
        DirProbe { dir: "/work/repo/src/ui".to_string(), has_marker: false },
        DirProbe { dir: "/work/repo/src".to_string(), has_marker: false },
        DirProbe { dir: "/work/repo".to_string(), has_marker: true },
        DirProbe { dir: "/work".to_string(), has_marker: false },
        DirProbe { dir: "/".to_string(), has_marker: false },
    ];
    let root = detect_project_root(&probes);
    assert!(root.is_some());
    let root = root.unwrap();
    assert_eq!(root, "/work/repo");
}

#[test]
fn test_no_project_root() {
    let probes = vec![
        DirProbe { dir: "/tmp".to_string(), has_marker: false },
        DirProbe { dir: "/".to_string(), has_marker: false },
    ];
    let root = detect_project_root(&probes);
    assert!(root.is_none() || root.unwrap() != "/tmp");
}

#[test]
fn test_cache_creation() {
    let cache = GitStatusCache::new(5000, 0);
    assert!(!cache.is_in_repo());
    assert!(cache.repo_status().is_none());
}

#[test]
fn test_tracker_creation() {
    let pid = 4321;
    let tracker = PtyTracker::new(pid, Some("/home/user".to_string()), 0);
    assert!(tracker.is_some(), "Should create tracker for current process");
    let tracker = tracker.unwrap();
    assert_eq!(tracker.pid(), pid);
}

#[test]
fn test_tracker_poll_interval() {
    let cwd = || Some("/home/user".to_string());
    let mut tracker = PtyTracker::new(4321, cwd(), 1000).unwrap();
    assert!(!tracker.poll(1000, cwd()));
    tracker.set_interval(1);
    assert!(!tracker.poll(1005, cwd()));
}
