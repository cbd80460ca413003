//! The files of an open project as the host sees them.

use std::path::PathBuf;

use vstd::prelude::*;

verus! {

/// std's owned host path, carried through as it is.
#[verifier::external_type_specification]
#[verifier::external_body]
pub struct ExPathBuf(PathBuf);

/// The project root, the files found in it and the file open in the
/// editor.
pub struct ProjectManager {
    pub root: PathBuf,
    pub entries: Vec<PathBuf>,
    pub current_file: Option<PathBuf>,
}

impl ProjectManager {
    /// A project rooted at `root` whose files are `entries`, with no file
    /// open.
    pub fn new(root: PathBuf, entries: Vec<PathBuf>) -> (r: Self)
        ensures
            r.root == root,
            r.entries@ == entries@,
            r.current_file is None,
    {
        ProjectManager { root, entries, current_file: None }
    }

    /// Adds `path` to the project's files.
    pub fn add_file(&mut self, path: PathBuf)
        ensures
            final(self).entries@ == old(self).entries@.push(path),
            final(self).root == old(self).root,
            final(self).current_file == old(self).current_file,
    {
        self.entries.push(path);
    }

    /// Opens `path` when it is an existing regular file (`is_file`);
    /// otherwise the open file stays.
    pub fn set_active_file(&mut self, path: PathBuf, is_file: bool)
        ensures
            final(self).current_file == if is_file {
                Some(path)
            } else {
                old(self).current_file
            },
            final(self).root == old(self).root,
            final(self).entries@ == old(self).entries@,
    {
        if is_file {
            self.current_file = Some(path);
        }
    }
}

} // verus!
