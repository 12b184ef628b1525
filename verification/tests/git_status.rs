use vibeterm::context::git::{FileGitStatus, StatusFlags};

#[test]
fn test_file_git_status_indicators() {
    assert_eq!(FileGitStatus::Modified.indicator(), "M");
    assert_eq!(FileGitStatus::Staged.indicator(), "A");
    assert_eq!(FileGitStatus::Untracked.indicator(), "U");
    assert_eq!(FileGitStatus::Deleted.indicator(), "D");
    assert_eq!(FileGitStatus::Renamed.indicator(), "R");
    assert_eq!(FileGitStatus::Conflicted.indicator(), "!");
}

#[test]
fn test_status_color_keys() {
    assert_eq!(FileGitStatus::Modified.color_key(), "yellow");
    assert_eq!(FileGitStatus::Staged.color_key(), "green");
    assert_eq!(FileGitStatus::Deleted.color_key(), "red");
}

fn no_flags() -> StatusFlags {
    StatusFlags {
        index_new: false,
        index_modified: false,
        index_deleted: false,
        index_renamed: false,
        wt_new: false,
        wt_modified: false,
        wt_deleted: false,
        conflicted: false,
        ignored: false,
    }
}

#[test]
fn test_remaining_indicators_and_color_keys() {
    assert_eq!(FileGitStatus::Clean.indicator(), " ");
    assert_eq!(FileGitStatus::StagedModified.indicator(), "M");
    assert_eq!(FileGitStatus::Ignored.indicator(), " ");
    assert_eq!(FileGitStatus::Clean.color_key(), "text_dim");
    assert_eq!(FileGitStatus::StagedModified.color_key(), "yellow");
    assert_eq!(FileGitStatus::Untracked.color_key(), "secondary");
    assert_eq!(FileGitStatus::Renamed.color_key(), "cyan");
    assert_eq!(FileGitStatus::Conflicted.color_key(), "red");
    assert_eq!(FileGitStatus::Ignored.color_key(), "text_dim");
}

#[test]
fn test_status_from_flags_priority() {
    assert_eq!(FileGitStatus::from_status_flags(no_flags()), FileGitStatus::Clean);
    let all = StatusFlags {
        index_new: true,
        index_modified: true,
        index_deleted: true,
        index_renamed: true,
        wt_new: true,
        wt_modified: true,
        wt_deleted: true,
        conflicted: true,
        ignored: true,
    };
    assert_eq!(FileGitStatus::from_status_flags(all), FileGitStatus::Conflicted);
    assert_eq!(
        FileGitStatus::from_status_flags(StatusFlags { conflicted: false, ..all }),
        FileGitStatus::Ignored
    );
    assert_eq!(
        FileGitStatus::from_status_flags(StatusFlags { conflicted: false, ignored: false, ..all }),
        FileGitStatus::Renamed
    );
    assert_eq!(
        FileGitStatus::from_status_flags(StatusFlags {
            index_new: true,
            wt_modified: true,
            ..no_flags()
        }),
        FileGitStatus::StagedModified
    );
    assert_eq!(
        FileGitStatus::from_status_flags(StatusFlags { index_modified: true, ..no_flags() }),
        FileGitStatus::Staged
    );
    assert_eq!(
        FileGitStatus::from_status_flags(StatusFlags { index_deleted: true, ..no_flags() }),
        FileGitStatus::Deleted
    );
    assert_eq!(
        FileGitStatus::from_status_flags(StatusFlags {
            wt_deleted: true,
            wt_new: true,
            ..no_flags()
        }),
        FileGitStatus::Deleted
    );
    assert_eq!(
        FileGitStatus::from_status_flags(StatusFlags { wt_new: true, ..no_flags() }),
        FileGitStatus::Untracked
    );
    assert_eq!(
        FileGitStatus::from_status_flags(StatusFlags { wt_modified: true, ..no_flags() }),
        FileGitStatus::Modified
    );
}
