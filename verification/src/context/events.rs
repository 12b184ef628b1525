//! Context events: file system and git change events.

use vstd::prelude::*;

verus! {

/// What the context system reports to the user interface.
#[derive(Debug, Clone)]
pub enum ContextEvent {
    FileSystemChanged { path: String, affected_dir: String },
    GitStatusUpdated,
    FilePinned(String),
    FileUnpinned(String),
    Error(String),
}

} // verus!
