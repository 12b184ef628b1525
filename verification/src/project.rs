//! Project root detection.

use vstd::prelude::*;

verus! {

/// The names whose presence marks a directory as a project root, in
/// priority order.
pub open spec fn marker_names() -> Seq<Seq<char>> {
    seq![".git"@, "Cargo.toml"@, "package.json"@, "pyproject.toml"@, "go.mod"@, ".svn"@]
}

/// Project root markers (in priority order).
pub fn project_markers() -> (markers: Vec<&'static str>)
    ensures
        markers@.map_values(|m: &'static str| m@) == marker_names(),
{
    let markers: Vec<&'static str> = vec![
        ".git",
        "Cargo.toml",
        "package.json",
        "pyproject.toml",
        "go.mod",
        ".svn",
    ];
    assert(markers@.map_values(|m: &'static str| m@) =~= marker_names());
    markers
}

/// A directory on the way from a path up to the root of the file system,
/// and whether it holds one of the project markers.
#[derive(Debug, Clone)]
pub struct DirProbe {
    pub dir: String,
    pub has_marker: bool,
}

/// Place of the first probe, from `from` on, that holds a marker; the
/// length of the list where none does.
pub open spec fn first_marked(probes: Seq<DirProbe>, from: int) -> int
    decreases probes.len() - from,
{
    if 0 <= from < probes.len() && !probes[from].has_marker {
        first_marked(probes, from + 1)
    } else {
        from
    }
}

/// Detect project root by searching upward for marker files. `ancestors`
/// holds the directories from the starting path upward, the nearest first.
/// Returns the nearest directory that holds a marker, or `None` if no
/// directory does.
pub fn detect_project_root(ancestors: &Vec<DirProbe>) -> (root: Option<String>)
    ensures
        match root {
            Some(dir) => first_marked(ancestors@, 0) < ancestors@.len() && dir
                == ancestors@[first_marked(ancestors@, 0)].dir,
            None => first_marked(ancestors@, 0) >= ancestors@.len(),
        },
{
    let mut i: usize = 0;
    while i < ancestors.len()
        invariant
            i <= ancestors@.len(),
            first_marked(ancestors@, 0) == first_marked(ancestors@, i as int),
        decreases ancestors@.len() - i,
    {
        if ancestors[i].has_marker {
            return Some(ancestors[i].dir.clone());
        }
        i += 1;
    }
    None
}

} // verus!
