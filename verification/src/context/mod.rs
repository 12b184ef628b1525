//! Context awareness around the active project: git status of files,
//! pinned files, and the events that report changes of either.

pub mod events;
pub mod git;
pub mod manager;
pub mod pinned;

use vstd::prelude::*;

verus! {

/// Configuration for context system behavior.
#[derive(Debug, Clone)]
pub struct ContextConfig {
    pub watcher_debounce_ms: u64,
    pub git_refresh_interval_secs: u64,
    pub max_pinned_files: usize,
    pub enable_file_watcher: bool,
    pub enable_git_status: bool,
}

impl Default for ContextConfig {
    fn default() -> (config: Self)
        ensures
            config.watcher_debounce_ms == 200,
            config.git_refresh_interval_secs == 5,
            config.max_pinned_files == 50,
            config.enable_file_watcher,
            config.enable_git_status,
    {
        ContextConfig {
            watcher_debounce_ms: 200,
            git_refresh_interval_secs: 5,
            max_pinned_files: 50,
            enable_file_watcher: true,
            enable_git_status: true,
        }
    }
}

} // verus!
