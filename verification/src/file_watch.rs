//! Watching a repository: how a change is reported and what is listed of a
//! file.

use vstd::prelude::*;
use crate::text::owned;

verus! {

/// A change seen in a watched directory.
#[derive(Debug)]
pub struct FileChangeEvent {
    pub path: String,
    pub event_type: String,
    pub timestamp: String,
}

/// A directory to watch.
#[derive(Debug)]
pub struct WatchRequest {
    pub path: String,
    pub recursive: bool,
    pub patterns: Option<Vec<String>>,
}

/// What is listed of a file.
#[derive(Debug)]
pub struct FileInfo {
    pub path: String,
    pub name: String,
    pub is_directory: bool,
    pub size: u64,
    pub modified: String,
}

/// The kinds of change a watcher reports.
#[derive(Clone, Copy, Debug, PartialEq, Eq, Structural)]
pub enum ChangeKind {
    Create,
    Modify,
    Remove,
    Other,
}

/// The name under which a kind of change is reported.
pub open spec fn change_name(kind: ChangeKind) -> Seq<char> {
    match kind {
        ChangeKind::Create => "created"@,
        ChangeKind::Modify => "modified"@,
        ChangeKind::Remove => "removed"@,
        ChangeKind::Other => "other"@,
    }
}

/// The report of a change to a path, seen at `timestamp`.
pub fn change_event(path: String, kind: ChangeKind, timestamp: String) -> (r: FileChangeEvent)
    ensures
        r.path == path,
        r.event_type@ == change_name(kind),
        r.timestamp == timestamp,
{
    let event_type = match kind {
        ChangeKind::Create => owned("created"),
        ChangeKind::Modify => owned("modified"),
        ChangeKind::Remove => owned("removed"),
        ChangeKind::Other => owned("other"),
    };
    FileChangeEvent { path, event_type, timestamp }
}

/// What is listed of a file: its path, name, kind and size, and its
/// modification time, or "unknown" where the system gave none.
pub fn file_info(path: String, name: String, is_directory: bool, size: u64, modified: Option<String>) -> (r: FileInfo)
    ensures
        r.path == path,
        r.name == name,
        r.is_directory == is_directory,
        r.size == size,
        r.modified@ == match modified {
            Some(m) => m@,
            None => "unknown"@,
        },
{
    let modified = match modified {
        Some(m) => m,
        None => owned("unknown"),
    };
    FileInfo { path, name, is_directory, size, modified }
}

} // verus!
