//! The settings of a directory walk.
use vstd::prelude::*;

use std::path::PathBuf;

verus! {

/// A directory path.
#[verifier::external_type_specification]
#[verifier::external_body]
pub struct ExPathBuf(PathBuf);

/// An entry found by the walk: its path relative to the starting
/// directory, and whether it is a directory.
pub struct File {
    pub path: String,
    pub is_dir: bool,
}

/// A walk of the files under a directory, optionally limited in depth.
pub struct Walker {
    pub cwd: PathBuf,
    pub max_depth: Option<usize>,
}

impl Walker {
    /// A walk of the files under `cwd`, with no depth limit.
    pub fn new(cwd: PathBuf) -> (r: Walker)
        ensures
            r.cwd == cwd,
            r.max_depth is None,
    {
        Walker { cwd, max_depth: None }
    }

    /// The same walk, limited to `max_depth` levels.
    pub fn with_max_depth(self, max_depth: usize) -> (r: Walker)
        ensures
            r.cwd == self.cwd,
            r.max_depth == Some(max_depth),
    {
        Walker { cwd: self.cwd, max_depth: Some(max_depth) }
    }
}

} // verus!
